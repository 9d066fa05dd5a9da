//! Piece-square tables: the value of each kind of piece on each square, for
//! the midgame and the endgame (the PeSTO tables), with the value of the
//! material included.

use vstd::prelude::*;
use crate::chess::board::{Board, board_sum};
use crate::chess::piece::{Piece, PieceKind};
use crate::chess::player::Player;
use crate::chess::square::{Square, file_of, rank_of};
use crate::engine::eval::tapered_eval::PhasedEval;

verus! {

/// The midgame and endgame value of each kind of piece.
pub const PIECE_VALUES: [(i16, i16); 6] = [(82, 94), (337, 281), (365, 297), (477, 512), (1025, 936), (0, 0)];

// The tables are written with rank 8 first, as a board is drawn with White
// at the bottom: row 0 is rank 8 for White.

pub const PAWNS: [[(i16, i16); 8]; 8] = [
    [(0, 0), (0, 0), (0, 0), (0, 0), (0, 0), (0, 0), (0, 0), (0, 0)],
    [(98, 178), (134, 173), (61, 158), (95, 134), (68, 147), (126, 132), (34, 165), (-11, 187)],
    [(-6, 94), (7, 100), (26, 85), (31, 67), (65, 56), (56, 53), (25, 82), (-20, 84)],
    [(-14, 32), (13, 24), (6, 13), (21, 5), (23, -2), (12, 4), (17, 17), (-23, 17)],
    [(-27, 13), (-2, 9), (-5, -3), (12, -7), (17, -7), (6, -8), (10, 3), (-25, -1)],
    [(-26, 4), (-4, 7), (-4, -6), (-10, 1), (3, 0), (3, -5), (33, -1), (-12, -8)],
    [(-35, 13), (-1, 8), (-20, 8), (-23, 10), (-15, 13), (24, 0), (38, 2), (-22, -7)],
    [(0, 0), (0, 0), (0, 0), (0, 0), (0, 0), (0, 0), (0, 0), (0, 0)],
];

pub const KNIGHTS: [[(i16, i16); 8]; 8] = [
    [(-167, -58), (-89, -38), (-34, -13), (-49, -28), (61, -31), (-97, -27), (-15, -63), (-107, -99)],
    [(-73, -25), (-41, -8), (72, -25), (36, -2), (23, -9), (62, -25), (7, -24), (-17, -52)],
    [(-47, -24), (60, -20), (37, 10), (65, 9), (84, -1), (129, -9), (73, -19), (44, -41)],
    [(-9, -17), (17, 3), (19, 22), (53, 22), (37, 22), (69, 11), (18, 8), (22, -18)],
    [(-13, -18), (4, -6), (16, 16), (13, 25), (28, 16), (19, 17), (21, 4), (-8, -18)],
    [(-23, -23), (-9, -3), (12, -1), (10, 15), (19, 10), (17, -3), (25, -20), (-16, -22)],
    [(-29, -42), (-53, -20), (-12, -10), (-3, -5), (-1, -2), (18, -20), (-14, -23), (-19, -44)],
    [(-105, -29), (-21, -51), (-58, -23), (-33, -15), (-17, -22), (-28, -18), (-19, -50), (-23, -64)],
];

pub const BISHOPS: [[(i16, i16); 8]; 8] = [
    [(-29, -14), (4, -21), (-82, -11), (-37, -8), (-25, -7), (-42, -9), (7, -17), (-8, -24)],
    [(-26, -8), (16, -4), (-18, 7), (-13, -12), (30, -3), (59, -13), (18, -4), (-47, -14)],
    [(-16, 2), (37, -8), (43, 0), (40, -1), (35, -2), (50, 6), (37, 0), (-2, 4)],
    [(-4, -3), (5, 9), (19, 12), (50, 9), (37, 14), (37, 10), (7, 3), (-2, 2)],
    [(-6, -6), (13, 3), (13, 13), (26, 19), (34, 7), (12, 10), (10, -3), (4, -9)],
    [(0, -12), (15, -3), (15, 8), (15, 10), (14, 13), (27, 3), (18, -7), (10, -15)],
    [(4, -14), (15, -18), (16, -7), (0, -1), (7, 4), (21, -9), (33, -15), (1, -27)],
    [(-33, -23), (-3, -9), (-14, -23), (-21, -5), (-13, -9), (-12, -16), (-39, -5), (-21, -17)],
];

pub const ROOKS: [[(i16, i16); 8]; 8] = [
    [(32, 13), (42, 10), (32, 18), (51, 15), (63, 12), (9, 12), (31, 8), (43, 5)],
    [(27, 11), (32, 13), (58, 13), (62, 11), (80, -3), (67, 3), (26, 8), (44, 3)],
    [(-5, 7), (19, 7), (26, 7), (36, 5), (17, 4), (45, -3), (61, -5), (16, -3)],
    [(-24, 4), (-11, 3), (7, 13), (26, 1), (24, 2), (35, 1), (-8, -1), (-20, 2)],
    [(-36, 3), (-26, 5), (-12, 8), (-1, 4), (9, -5), (-7, -6), (6, -8), (-23, -11)],
    [(-45, -4), (-25, 0), (-16, -5), (-17, -1), (3, -7), (0, -12), (-5, -8), (-33, -16)],
    [(-44, -6), (-16, -6), (-20, 0), (-9, 2), (-1, -9), (11, -9), (-6, -11), (-71, -3)],
    [(-19, -9), (-13, 2), (1, 3), (17, -1), (16, -5), (7, -13), (-37, 4), (-26, -20)],
];

pub const QUEENS: [[(i16, i16); 8]; 8] = [
    [(-28, -9), (0, 22), (29, 22), (12, 27), (59, 27), (44, 19), (43, 10), (45, 20)],
    [(-24, -17), (-39, 20), (-5, 32), (1, 41), (-16, 58), (57, 25), (28, 30), (54, 0)],
    [(-13, -20), (-17, 6), (7, 9), (8, 49), (29, 47), (56, 35), (47, 19), (57, 9)],
    [(-27, 3), (-27, 22), (-16, 24), (-16, 45), (-1, 57), (17, 40), (-2, 57), (1, 36)],
    [(-9, -18), (-26, 28), (-9, 19), (-10, 47), (-2, 31), (-4, 34), (3, 39), (-3, 23)],
    [(-14, -16), (2, -27), (-11, 15), (-2, 6), (-5, 9), (2, 17), (14, 10), (5, 5)],
    [(-35, -22), (-8, -23), (11, -30), (2, -16), (8, -16), (15, -23), (-3, -36), (1, -32)],
    [(-1, -33), (-18, -28), (-9, -22), (10, -43), (-15, -5), (-25, -32), (-31, -20), (-50, -41)],
];

pub const KING: [[(i16, i16); 8]; 8] = [
    [(-65, -74), (23, -35), (16, -18), (-15, -18), (-56, -11), (-34, 15), (2, 4), (13, -17)],
    [(29, -12), (-1, 17), (-20, 14), (-7, 17), (-8, 17), (-4, 38), (-38, 23), (-29, 11)],
    [(-9, 10), (24, 17), (2, 23), (-16, 15), (-20, 20), (6, 45), (22, 44), (-22, 13)],
    [(-17, -8), (-20, 22), (-12, 24), (-27, 27), (-30, 26), (-25, 33), (-14, 26), (-36, 3)],
    [(-49, -18), (-1, -4), (-27, 21), (-39, 24), (-46, 27), (-44, 23), (-33, 9), (-51, -11)],
    [(-14, -19), (-14, -3), (-22, 11), (-46, 21), (-44, 23), (-30, 16), (-15, 7), (-27, -9)],
    [(1, -27), (7, -11), (-8, 4), (-64, 13), (-43, 14), (-16, 4), (9, -5), (8, -17)],
    [(-15, -53), (36, -34), (12, -21), (-54, -11), (8, -28), (-28, -14), (24, -24), (14, -43)],
];

/// The largest magnitude of one piece's packed contribution.
pub const MAX_CONTRIBUTION: i64 = 65_143_793;

/// The table of a kind of piece.
pub open spec fn definition(kind: PieceKind) -> [[(i16, i16); 8]; 8] {
    match kind {
        PieceKind::Pawn => PAWNS,
        PieceKind::Knight => KNIGHTS,
        PieceKind::Bishop => BISHOPS,
        PieceKind::Rook => ROOKS,
        PieceKind::Queen => QUEENS,
        PieceKind::King => KING,
    }
}

/// The packed form of a midgame and an endgame value.
pub open spec fn packed(mg: int, eg: int) -> int {
    eg * 65536 + mg
}

/// The packed value of entry `(row, file)` of a table plus the material.
pub open spec fn entry_value(t: [[(i16, i16); 8]; 8], material: (i16, i16), row: int, file: int) -> int {
    packed(t[row][file].0 + material.0, t[row][file].1 + material.1)
}

/// What a piece on square `s` adds to the evaluation from White's point of
/// view: its table entry plus its material, negated for Black. White reads
/// the table with rank 8 in row 0, Black with rank 1 in row 0.
pub open spec fn contribution(s: int, p: Piece) -> int {
    let material = PIECE_VALUES[p.kind.idx()];
    match p.player {
        Player::White => entry_value(definition(p.kind), material, 7 - rank_of(s), file_of(s)),
        Player::Black => -entry_value(definition(p.kind), material, rank_of(s), file_of(s)),
    }
}

/// A piece's contribution, as a term of a board sum.
pub open spec fn pst_term() -> spec_fn(int, Piece) -> int {
    |s: int, p: Piece| contribution(s, p)
}

/// A piece's contribution when it is `player`'s, as a term of a board sum.
pub open spec fn pst_term_for(player: Player) -> spec_fn(int, Piece) -> int {
    |s: int, p: Piece| if p.player == player { contribution(s, p) } else { 0 }
}

/// One for each piece, as a term of a board sum.
pub open spec fn count_term() -> spec_fn(int, Piece) -> int {
    |s: int, p: Piece| 1
}

/// The sum of the contributions of the pieces on the first `n` squares.
pub open spec fn pst_sum(board: Board, n: int) -> int {
    board_sum(board, pst_term(), n)
}

/// The sum of the contributions of `player`'s pieces on the first `n` squares.
pub open spec fn pst_sum_for(board: Board, player: Player, n: int) -> int {
    board_sum(board, pst_term_for(player), n)
}

/// The number of pieces on the first `n` squares.
pub open spec fn occupied_count(board: Board, n: int) -> int {
    board_sum(board, count_term(), n)
}

spec fn table_bounded(t: [[(i16, i16); 8]; 8], material: (i16, i16), i: int) -> bool
    decreases 64 - i,
{
    if i >= 64 || i < 0 {
        true
    } else {
        -65_143_793 <= entry_value(t, material, i / 8, i % 8) <= 65_143_793 && table_bounded(t, material, i + 1)
    }
}

proof fn lemma_table_bounded(t: [[(i16, i16); 8]; 8], material: (i16, i16), i: int, j: int)
    requires table_bounded(t, material, i), 0 <= i <= j < 64,
    ensures -65_143_793 <= entry_value(t, material, j / 8, j % 8) <= 65_143_793,
    decreases j - i,
{
    if i < j {
        lemma_table_bounded(t, material, i + 1, j);
    }
}

#[verifier::rlimit(100)]
proof fn lemma_tables_bounded()
    ensures
        table_bounded(PAWNS, PIECE_VALUES[0], 0),
        table_bounded(KNIGHTS, PIECE_VALUES[1], 0),
        table_bounded(BISHOPS, PIECE_VALUES[2], 0),
        table_bounded(ROOKS, PIECE_VALUES[3], 0),
        table_bounded(QUEENS, PIECE_VALUES[4], 0),
        table_bounded(KING, PIECE_VALUES[5], 0),
        table_bounded(PAWNS, (0i16, 0i16), 0),
        table_bounded(KNIGHTS, (0i16, 0i16), 0),
        table_bounded(BISHOPS, (0i16, 0i16), 0),
        table_bounded(ROOKS, (0i16, 0i16), 0),
        table_bounded(QUEENS, (0i16, 0i16), 0),
        table_bounded(KING, (0i16, 0i16), 0),
{
    reveal_with_fuel(table_bounded, 65);
}

/// No piece contributes more than `MAX_CONTRIBUTION` in magnitude.
pub proof fn lemma_contribution_bound(s: int, p: Piece)
    requires 0 <= s < 64,
    ensures -65_143_793 <= contribution(s, p) <= 65_143_793,
{
    lemma_tables_bounded();
    let row = match p.player {
        Player::White => 7 - rank_of(s),
        Player::Black => rank_of(s),
    };
    let j = row * 8 + file_of(s);
    assert(j / 8 == row && j % 8 == file_of(s));
    lemma_table_bounded(definition(p.kind), PIECE_VALUES[p.kind.idx()], 0, j);
}

/// Every raw table entry, without material, is bounded too.
pub proof fn lemma_entry_bound(kind: PieceKind, row: int, file: int)
    requires 0 <= row < 8, 0 <= file < 8,
    ensures
        -65_143_793 <= entry_value(definition(kind), (0i16, 0i16), row, file) <= 65_143_793,
        -65_143_793 <= entry_value(definition(kind), PIECE_VALUES[kind.idx()], row, file) <= 65_143_793,
{
    lemma_tables_bounded();
    let j = row * 8 + file;
    assert(j / 8 == row && j % 8 == file);
    lemma_table_bounded(definition(kind), (0i16, 0i16), 0, j);
    lemma_table_bounded(definition(kind), PIECE_VALUES[kind.idx()], 0, j);
}

/// The sum over `n` squares is bounded by the number of pieces on them.
pub proof fn lemma_pst_sum_bound(board: Board, n: int)
    requires n <= 64,
    ensures
        0 <= occupied_count(board, n),
        -65_143_793 * occupied_count(board, n) <= pst_sum(board, n) <= 65_143_793 * occupied_count(board, n),
        -65_143_793 * occupied_count(board, n) <= pst_sum_for(board, Player::White, n) <= 65_143_793 * occupied_count(board, n),
        -65_143_793 * occupied_count(board, n) <= pst_sum_for(board, Player::Black, n) <= 65_143_793 * occupied_count(board, n),
    decreases n,
{
    if n > 0 {
        lemma_pst_sum_bound(board, n - 1);
        if let Some(p) = board.at(n - 1) {
            lemma_contribution_bound(n - 1, p);
        }
    }
}

/// The counts of pieces grow with the number of squares counted.
pub proof fn lemma_occupied_count_monotone(board: Board, m: int, n: int)
    requires m <= n,
    ensures occupied_count(board, m) <= occupied_count(board, n),
    decreases n - m,
{
    if m < n {
        lemma_occupied_count_monotone(board, m, n - 1);
    }
}

/// The table of a kind of piece.
pub fn definition_of(kind: PieceKind) -> (t: [[(i16, i16); 8]; 8])
    ensures t == definition(kind),
{
    match kind {
        PieceKind::Pawn => PAWNS,
        PieceKind::Knight => KNIGHTS,
        PieceKind::Bishop => BISHOPS,
        PieceKind::Rook => ROOKS,
        PieceKind::Queen => QUEENS,
        PieceKind::King => KING,
    }
}

/// What a piece on a square adds to the evaluation.
pub fn piece_contributions(square: Square, piece: Piece) -> (r: PhasedEval)
    ensures r.0 == contribution(square@, piece),
{
    let s = square.array_idx();
    let file = s % 8;
    let rank = s / 8;
    let row = match piece.player {
        Player::White => 7 - rank,
        Player::Black => rank,
    };
    let t = definition_of(piece.kind);
    let (mg, eg) = t[row][file];
    let (m0, e0) = PIECE_VALUES[piece.kind.array_idx()];
    proof {
        lemma_entry_bound(piece.kind, row as int, file as int);
        lemma_contribution_bound(s as int, piece);
    }
    let v: i64 = ((eg as i64) + (e0 as i64)) * 65536 + (mg as i64) + (m0 as i64);
    match piece.player {
        Player::White => PhasedEval(v as i32),
        Player::Black => PhasedEval((-v) as i32),
    }
}

/// The table of a kind, as packed values.
pub fn to_phased(def: [[(i16, i16); 8]; 8]) -> (r: [[PhasedEval; 8]; 8])
    requires forall|row: int, file: int| 0 <= row < 8 && 0 <= file < 8 ==>
        -65_143_793 <= #[trigger] entry_value(def, (0i16, 0i16), row, file) <= 65_143_793,
    ensures forall|row: int, file: int| 0 <= row < 8 && 0 <= file < 8 ==>
        (#[trigger] r[row][file]).0 == entry_value(def, (0i16, 0i16), row, file),
{
    let z = PhasedEval::zero();
    let mut r: [[PhasedEval; 8]; 8] = [[z; 8]; 8];
    let mut row: usize = 0;
    while row < 8
        invariant
            row <= 8,
            forall|row: int, file: int| 0 <= row < 8 && 0 <= file < 8 ==>
                -65_143_793 <= #[trigger] entry_value(def, (0i16, 0i16), row, file) <= 65_143_793,
            forall|i: int, file: int| 0 <= i < row && 0 <= file < 8 ==>
                (#[trigger] r[i][file]).0 == entry_value(def, (0i16, 0i16), i, file),
        decreases 8 - row,
    {
        let mut file: usize = 0;
        let mut line = r[row];
        while file < 8
            invariant
                row < 8,
                file <= 8,
                forall|row: int, file: int| 0 <= row < 8 && 0 <= file < 8 ==>
                    -65_143_793 <= #[trigger] entry_value(def, (0i16, 0i16), row, file) <= 65_143_793,
                forall|f: int| 0 <= f < file ==> (#[trigger] line[f]).0 == entry_value(def, (0i16, 0i16), row as int, f),
            decreases 8 - file,
        {
            let (mg, eg) = def[row][file];
            assert(-65_143_793 <= entry_value(def, (0i16, 0i16), row as int, file as int) <= 65_143_793);
            line[file] = PhasedEval((eg as i32) * 65536 + (mg as i32));
            file = file + 1;
        }
        r[row] = line;
        row = row + 1;
    }
    r
}

/// The table with its rows in reverse order.
pub fn flip(t: [[PhasedEval; 8]; 8]) -> (r: [[PhasedEval; 8]; 8])
    ensures forall|i: int| 0 <= i < 8 ==> #[trigger] r[i] == t[7 - i],
{
    let z = PhasedEval::zero();
    let mut new_table: [[PhasedEval; 8]; 8] = [[z; 8]; 8];
    let mut i: usize = 0;
    while i < 8
        invariant
            i <= 8,
            forall|j: int| 0 <= j < i ==> #[trigger] new_table[j] == t[7 - j],
        decreases 8 - i,
    {
        new_table[i] = t[8 - i - 1];
        i = i + 1;
    }
    new_table
}

/// The table laid out square by square: entry `i` is row `i / 8`, file `i % 8`.
pub fn flatten(definition: [[PhasedEval; 8]; 8]) -> (r: [PhasedEval; 64])
    ensures forall|i: int| 0 <= i < 64 ==> #[trigger] r[i] == definition[i / 8][i % 8],
{
    let z = PhasedEval::zero();
    let mut new_table: [PhasedEval; 64] = [z; 64];
    let mut i: usize = 0;
    while i < 64
        invariant
            i <= 64,
            forall|j: int| 0 <= j < i ==> #[trigger] new_table[j] == definition[j / 8][j % 8],
        decreases 64 - i,
    {
        new_table[i] = definition[i / 8][i % 8];
        i = i + 1;
    }
    new_table
}

/// The table with the material value of a kind added to every entry.
pub fn add_material(t: [PhasedEval; 64], p: PieceKind) -> (r: [PhasedEval; 64])
    requires forall|i: int| 0 <= i < 64 ==>
        i32::MIN <= #[trigger] t[i].0 + packed(PIECE_VALUES[p.idx()].0 as int, PIECE_VALUES[p.idx()].1 as int) <= i32::MAX,
    ensures forall|i: int| 0 <= i < 64 ==>
        #[trigger] r[i].0 == t[i].0 + packed(PIECE_VALUES[p.idx()].0 as int, PIECE_VALUES[p.idx()].1 as int),
{
    let z = PhasedEval::zero();
    let mut new_table: [PhasedEval; 64] = [z; 64];
    let (m0, e0) = PIECE_VALUES[p.array_idx()];
    let material_value = PhasedEval((e0 as i32) * 65536 + (m0 as i32));
    let mut i: usize = 0;
    while i < 64
        invariant
            i <= 64,
            material_value.0 == packed(PIECE_VALUES[p.idx()].0 as int, PIECE_VALUES[p.idx()].1 as int),
            forall|i: int| 0 <= i < 64 ==>
                i32::MIN <= #[trigger] t[i].0 + packed(PIECE_VALUES[p.idx()].0 as int, PIECE_VALUES[p.idx()].1 as int) <= i32::MAX,
            forall|j: int| 0 <= j < i ==> #[trigger] new_table[j].0 == t[j].0 + material_value.0,
        decreases 64 - i,
    {
        new_table[i] = t[i].add(material_value);
        i = i + 1;
    }
    new_table
}

/// The table with every entry negated.
pub fn negate(t: [PhasedEval; 64]) -> (r: [PhasedEval; 64])
    ensures forall|i: int| 0 <= i < 64 ==> #[trigger] r[i] == t[i].neg_spec(),
{
    let z = PhasedEval::zero();
    let mut new_table: [PhasedEval; 64] = [z; 64];
    let mut i: usize = 0;
    while i < 64
        invariant
            i <= 64,
            forall|j: int| 0 <= j < i ==> #[trigger] new_table[j] == t[j].neg_spec(),
        decreases 64 - i,
    {
        new_table[i] = t[i].neg();
        i = i + 1;
    }
    new_table
}

/// The contribution of every piece on every square, indexed by player,
/// kind and square.
pub struct PieceSquareTables {
    pub tables: [[[PhasedEval; 64]; 6]; 2],
}

impl PieceSquareTables {
    /// Whether every entry is the contribution of its piece on its square.
    pub open spec fn correct(self) -> bool {
        forall|p: int, k: int, s: int| 0 <= p < 2 && 0 <= k < 6 && 0 <= s < 64 ==>
            (#[trigger] self.tables[p][k][s]).0 == contribution(
                s,
                Piece { player: if p == 0 { Player::White } else { Player::Black }, kind: PieceKind::from_idx(k) },
            )
    }
}

fn white_pst(kind: PieceKind) -> (r: [PhasedEval; 64])
    ensures forall|s: int| 0 <= s < 64 ==> (#[trigger] r[s]).0 == contribution(s, Piece { player: Player::White, kind }),
{
    let def = definition_of(kind);
    proof {
        assert forall|row: int, file: int| 0 <= row < 8 && 0 <= file < 8 implies
            -65_143_793 <= #[trigger] entry_value(def, (0i16, 0i16), row, file) <= 65_143_793 by {
            lemma_entry_bound(kind, row, file);
        }
    }
    let phased = to_phased(def);
    let flat = flatten(flip(phased));
    proof {
        assert forall|i: int| 0 <= i < 64 implies
            i32::MIN <= #[trigger] flat[i].0 + packed(PIECE_VALUES[kind.idx()].0 as int, PIECE_VALUES[kind.idx()].1 as int) <= i32::MAX by {
            lemma_entry_bound(kind, 7 - i / 8, i % 8);
        }
    }
    add_material(flat, kind)
}

fn black_pst(kind: PieceKind) -> (r: [PhasedEval; 64])
    ensures forall|s: int| 0 <= s < 64 ==> (#[trigger] r[s]).0 == contribution(s, Piece { player: Player::Black, kind }),
{
    let def = definition_of(kind);
    proof {
        assert forall|row: int, file: int| 0 <= row < 8 && 0 <= file < 8 implies
            -65_143_793 <= #[trigger] entry_value(def, (0i16, 0i16), row, file) <= 65_143_793 by {
            lemma_entry_bound(kind, row, file);
        }
    }
    let phased = to_phased(def);
    let flat = flatten(phased);
    proof {
        assert forall|i: int| 0 <= i < 64 implies
            i32::MIN <= #[trigger] flat[i].0 + packed(PIECE_VALUES[kind.idx()].0 as int, PIECE_VALUES[kind.idx()].1 as int) <= i32::MAX by {
            lemma_entry_bound(kind, i / 8, i % 8);
        }
    }
    let with_material = add_material(flat, kind);
    proof {
        assert forall|i: int| 0 <= i < 64 implies (#[trigger] with_material[i]).0 != i32::MIN by {
            lemma_entry_bound(kind, i / 8, i % 8);
        }
    }
    negate(with_material)
}

/// Builds the tables of every piece on every square.
pub fn init() -> (t: PieceSquareTables)
    ensures t.correct(),
{
    let z = PhasedEval::zero();
    let mut tables: [[[PhasedEval; 64]; 6]; 2] = [[[z; 64]; 6]; 2];
    let mut k: usize = 0;
    while k < 6
        invariant
            k <= 6,
            forall|p: int, kk: int, s: int| 0 <= p < 2 && 0 <= kk < k && 0 <= s < 64 ==>
                (#[trigger] tables[p][kk][s]).0 == contribution(
                    s,
                    Piece { player: if p == 0 { Player::White } else { Player::Black }, kind: PieceKind::from_idx(kk) },
                ),
        decreases 6 - k,
    {
        let kind = PieceKind::from_array_idx(k);
        let w = white_pst(kind);
        let b = black_pst(kind);
        let mut white_tables = tables[0];
        let mut black_tables = tables[1];
        white_tables[k] = w;
        black_tables[k] = b;
        tables[0] = white_tables;
        tables[1] = black_tables;
        k = k + 1;
    }
    PieceSquareTables { tables }
}

/// Whether the sums of the contributions, square by square and for each
/// player, stay in the range of the packed evaluation. They do on every
/// board of at most 32 pieces.
pub open spec fn sums_fit(board: Board) -> bool {
    forall|n: int| 0 <= n <= 64 ==> {
        &&& i32::MIN <= #[trigger] pst_sum(board, n) <= i32::MAX
        &&& i32::MIN <= pst_sum_for(board, Player::White, n) <= i32::MAX
        &&& i32::MIN <= pst_sum_for(board, Player::Black, n) <= i32::MAX
    }
}

/// A board of at most 32 pieces has its sums in range.
pub proof fn lemma_sums_fit(board: Board)
    requires occupied_count(board, 64) <= 32,
    ensures sums_fit(board),
{
    assert forall|n: int| 0 <= n <= 64 implies {
        &&& i32::MIN <= #[trigger] pst_sum(board, n) <= i32::MAX
        &&& i32::MIN <= pst_sum_for(board, Player::White, n) <= i32::MAX
        &&& i32::MIN <= pst_sum_for(board, Player::Black, n) <= i32::MAX
    } by {
        lemma_pst_sum_bound(board, n);
        lemma_occupied_count_monotone(board, n, 64);
    }
}

/// The piece-square evaluation of a board: the sum of the contributions of
/// its pieces.
pub fn eval(board: &Board) -> (e: PhasedEval)
    requires sums_fit(*board),
    ensures e.0 == pst_sum(*board, 64),
{
    let mut eval = PhasedEval::zero();
    let mut idx: usize = 0;
    while idx < 64
        invariant
            idx <= 64,
            sums_fit(*board),
            eval.0 == pst_sum(*board, idx as int),
        decreases 64 - idx,
    {
        proof {
            assert(i32::MIN <= pst_sum(*board, idx as int + 1) <= i32::MAX);
        }
        let square = Square::from_array_index(idx);
        if let Some(piece) = board.piece_at(square) {
            eval.add_assign(piece_contributions(square, piece));
        }
        idx = idx + 1;
    }
    eval
}

/// The piece-square evaluation of each player's pieces, White's first.
pub fn eval_by_player(board: &Board) -> (r: (PhasedEval, PhasedEval))
    requires sums_fit(*board),
    ensures
        r.0.0 == pst_sum_for(*board, Player::White, 64),
        r.1.0 == pst_sum_for(*board, Player::Black, 64),
{
    let mut white_eval = PhasedEval::zero();
    let mut black_eval = PhasedEval::zero();
    let mut idx: usize = 0;
    while idx < 64
        invariant
            idx <= 64,
            sums_fit(*board),
            white_eval.0 == pst_sum_for(*board, Player::White, idx as int),
            black_eval.0 == pst_sum_for(*board, Player::Black, idx as int),
        decreases 64 - idx,
    {
        proof {
            assert(i32::MIN <= pst_sum(*board, idx as int + 1) <= i32::MAX);
        }
        let square = Square::from_array_index(idx);
        if let Some(piece) = board.piece_at(square) {
            match piece.player {
                Player::White => white_eval.add_assign(piece_contributions(square, piece)),
                Player::Black => black_eval.add_assign(piece_contributions(square, piece)),
            }
        }
        idx = idx + 1;
    }
    (white_eval, black_eval)
}

} // verus!
