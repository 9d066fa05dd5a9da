//! Reading a position in Forsyth-Edwards Notation.
//!
//! A FEN record holds, separated by spaces or tabs: the placement (eight
//! ranks from the eighth down, separated by `/`, each a run of piece
//! letters and digits counting empty squares), the side to move (`w` or
//! `b`), the castling rights (`-` or letters from `KQkq`), the en passant
//! target (`-` or a square), and optionally the halfmove clock and the
//! fullmove number. Spaces may follow the last field.

use vstd::prelude::*;
use vstd::string::{StringExecFns, StringSliceAdditionalSpecFns};
use crate::chess::board::Board;
use crate::chess::game::{CastleRights, Game};
use crate::chess::piece::{Piece, PieceKind};
use crate::chess::player::Player;
use crate::chess::square::{Square, rank_of};
use crate::engine::eval::piece_square_tables::{occupied_count, count_term};

verus! {

/// A space or a tab.
pub open spec fn is_space(c: u8) -> bool {
    c == 32 || c == 9
}

/// The position of the first byte at or after `i` that is not a space.
pub open spec fn skip_spaces(s: Seq<u8>, i: int) -> int
    decreases s.len() - i,
{
    if 0 <= i < s.len() && is_space(s[i]) { skip_spaces(s, i + 1) } else { i }
}

/// The piece a letter of the placement stands for.
pub open spec fn fen_piece(c: u8) -> Option<Piece> {
    let w = Player::White;
    let b = Player::Black;
    if c == 82 { Some(Piece { player: w, kind: PieceKind::Rook }) }
    else if c == 78 { Some(Piece { player: w, kind: PieceKind::Knight }) }
    else if c == 66 { Some(Piece { player: w, kind: PieceKind::Bishop }) }
    else if c == 81 { Some(Piece { player: w, kind: PieceKind::Queen }) }
    else if c == 75 { Some(Piece { player: w, kind: PieceKind::King }) }
    else if c == 80 { Some(Piece { player: w, kind: PieceKind::Pawn }) }
    else if c == 114 { Some(Piece { player: b, kind: PieceKind::Rook }) }
    else if c == 110 { Some(Piece { player: b, kind: PieceKind::Knight }) }
    else if c == 98 { Some(Piece { player: b, kind: PieceKind::Bishop }) }
    else if c == 113 { Some(Piece { player: b, kind: PieceKind::Queen }) }
    else if c == 107 { Some(Piece { player: b, kind: PieceKind::King }) }
    else if c == 112 { Some(Piece { player: b, kind: PieceKind::Pawn }) }
    else { None }
}

/// The number of empty squares a digit `1` to `8` stands for; 0 for any other byte.
pub open spec fn empty_run(c: u8) -> int {
    if 49 <= c <= 56 { c - 48 } else { 0 }
}

/// The squares described by the run of piece letters and digits starting
/// at `i`, and the position where the run ends.
pub open spec fn line_items(s: Seq<u8>, i: int) -> (Seq<Option<Piece>>, int)
    decreases s.len() - i,
{
    if 0 <= i < s.len() && fen_piece(s[i]) is Some {
        let (rest, end) = line_items(s, i + 1);
        (seq![fen_piece(s[i])] + rest, end)
    } else if 0 <= i < s.len() && empty_run(s[i]) > 0 {
        let (rest, end) = line_items(s, i + 1);
        (Seq::new(empty_run(s[i]) as nat, |k: int| None::<Piece>) + rest, end)
    } else {
        (Seq::empty(), i)
    }
}

/// `k` ranks separated by `/` starting at `i`: the squares of the ranks,
/// the last one read first, and the position after them. Each rank holds
/// at least one letter or digit.
pub open spec fn fen_lines(s: Seq<u8>, i: int, k: nat) -> Option<(Seq<Option<Piece>>, int)>
    decreases k,
{
    let (items, end) = line_items(s, i);
    if end == i {
        None
    } else if k <= 1 {
        Some((items, end))
    } else if 0 <= end < s.len() && s[end] == 47 {
        match fen_lines(s, end + 1, (k - 1) as nat) {
            Some((rest, last)) => Some((rest + items, last)),
            None => None,
        }
    } else {
        None
    }
}

/// A decimal digit.
pub open spec fn is_digit(c: u8) -> bool {
    48 <= c <= 57
}

/// The position of the first byte at or after `i` that is not a digit.
pub open spec fn digits_end(s: Seq<u8>, i: int) -> int
    decreases s.len() - i,
{
    if 0 <= i < s.len() && is_digit(s[i]) { digits_end(s, i + 1) } else { i }
}

/// The number written by the digits from `i` up to `j`.
pub open spec fn digits_value(s: Seq<u8>, i: int, j: int) -> int
    decreases j - i,
{
    if j <= i { 0 } else { digits_value(s, i, j - 1) * 10 + (s[j - 1] - 48) }
}

/// A number at `i` that fits in 32 bits: its value and where it ends.
pub open spec fn fen_number(s: Seq<u8>, i: int) -> Option<(int, int)> {
    let end = digits_end(s, i);
    if end > i && digits_value(s, i, end) <= u32::MAX { Some((digits_value(s, i, end), end)) } else { None }
}

/// The castling rights at `i`: `-`, or a run of the letters `KQkq`.
pub open spec fn is_castle_letter(c: u8) -> bool {
    c == 75 || c == 81 || c == 107 || c == 113
}

/// The position of the first byte at or after `i` that is not a castling letter.
pub open spec fn castle_end(s: Seq<u8>, i: int) -> int
    decreases s.len() - i,
{
    if 0 <= i < s.len() && is_castle_letter(s[i]) { castle_end(s, i + 1) } else { i }
}

/// Whether the letter `c` occurs from `i` up to `j`.
pub open spec fn has_letter(s: Seq<u8>, i: int, j: int, c: u8) -> bool {
    exists|k: int| i <= k < j && s[k] == c
}

/// The castling rights field at `i` and where it ends.
pub open spec fn fen_castling(s: Seq<u8>, i: int) -> Option<([CastleRights; 2], int)> {
    if 0 <= i < s.len() && s[i] == 45 {
        Some(([CastleRights { king_side: false, queen_side: false }, CastleRights { king_side: false, queen_side: false }], i + 1))
    } else {
        let end = castle_end(s, i);
        if end > i {
            Some(([
                CastleRights { king_side: has_letter(s, i, end, 75), queen_side: has_letter(s, i, end, 81) },
                CastleRights { king_side: has_letter(s, i, end, 107), queen_side: has_letter(s, i, end, 113) },
            ], end))
        } else {
            None
        }
    }
}

/// What the castling field grants: `-` grants nothing; otherwise the
/// letter `K` grants White's king-side castling, `Q` White's queen-side,
/// `k` Black's king-side and `q` Black's queen-side, each exactly when it
/// occurs in the field.
pub proof fn law_castling_letters(s: Seq<u8>, i: int)
    ensures
        fen_castling(s, i) matches Some((rights, end)) ==> {
            let letter = |c: char| exists|k: int| i <= k < end && s[k] == c as u8;
            &&& (0 <= i < s.len() && s[i] == '-' as u8) ==> !rights[0].king_side && !rights[0].queen_side
                && !rights[1].king_side && !rights[1].queen_side
            &&& !(0 <= i < s.len() && s[i] == '-' as u8) ==> {
                &&& rights[0].king_side == letter('K')
                &&& rights[0].queen_side == letter('Q')
                &&& rights[1].king_side == letter('k')
                &&& rights[1].queen_side == letter('q')
            }
        },
{
}

/// The en passant field at `i` (`-`, or a file letter and a rank digit) and where it ends.
pub open spec fn fen_en_passant(s: Seq<u8>, i: int) -> Option<(Option<int>, int)> {
    if 0 <= i < s.len() && s[i] == 45 {
        Some((None, i + 1))
    } else if 0 <= i && i + 1 < s.len() && 97 <= s[i] <= 104 && 49 <= s[i + 1] <= 56 {
        Some((Some((s[i + 1] - 49) * 8 + (s[i] - 97)), i + 2))
    } else {
        None
    }
}

/// The fields of a FEN record.
pub struct FenFields {
    pub placement: Seq<Option<Piece>>,
    pub player: Player,
    pub castle_rights: [CastleRights; 2],
    pub en_passant: Option<int>,
    pub halfmove_clock: int,
    pub fullmove_number: int,
}

/// An optional number after at least one space: its value and where it
/// ends, or the default and `i` when there is none.
pub open spec fn optional_number(s: Seq<u8>, i: int, default: int) -> (int, int) {
    let j = skip_spaces(s, i);
    if j > i && fen_number(s, j) is Some { fen_number(s, j)->0 } else { (default, i) }
}

/// The fields of the FEN record `s`, when it is one.
pub open spec fn fen_fields(s: Seq<u8>) -> Option<FenFields> {
    match fen_lines(s, 0, 8) {
        None => None,
        Some((placement, e0)) => {
            let i1 = skip_spaces(s, e0);
            if i1 == e0 || i1 >= s.len() || !(s[i1] == 119 || s[i1] == 98) {
                None
            } else {
                let player = if s[i1] == 119 { Player::White } else { Player::Black };
                let e1 = i1 + 1;
                let i2 = skip_spaces(s, e1);
                if i2 == e1 || fen_castling(s, i2) is None {
                    None
                } else {
                    let (rights, e2) = fen_castling(s, i2)->0;
                    let i3 = skip_spaces(s, e2);
                    if i3 == e2 || fen_en_passant(s, i3) is None {
                        None
                    } else {
                        let (ep, e3) = fen_en_passant(s, i3)->0;
                        let (half, e4) = optional_number(s, e3, 0);
                        let (full, e5) = optional_number(s, e4, 1);
                        if skip_spaces(s, e5) == s.len() {
                            Some(FenFields {
                                placement,
                                player,
                                castle_rights: rights,
                                en_passant: ep,
                                halfmove_clock: half,
                                fullmove_number: full,
                            })
                        } else {
                            None
                        }
                    }
                }
            }
        },
    }
}

/// The number of plies played before the given fullmove number, with the
/// given player to move.
pub open spec fn plies_spec(fullmove_number: int, player: Player) -> int {
    (fullmove_number - 1) * 2 + if player == Player::Black { 1int } else { 0int }
}

/// The number of occupied squares among the first `n` of a placement.
pub open spec fn placement_count(p: Seq<Option<Piece>>, n: int) -> int
    decreases n,
{
    if n <= 0 { 0 } else { placement_count(p, n - 1) + if p[n - 1] is Some { 1int } else { 0int } }
}

/// Whether the fields describe a position that a game can hold: 64
/// squares, at most 32 pieces, an en passant target on the third or sixth
/// rank, and a fullmove number from which the plies can be counted.
pub open spec fn fen_fields_ok(f: FenFields) -> bool {
    &&& f.placement.len() == 64
    &&& placement_count(f.placement, 64) <= 32
    &&& (f.en_passant matches Some(t) ==> rank_of(t) == 2 || rank_of(t) == 5)
    &&& f.fullmove_number >= 1
    &&& plies_spec(f.fullmove_number, f.player) <= u32::MAX
}

/// Which field of `s` cannot be read, when `s` is no FEN record.
pub open spec fn fen_parse_failure(s: Seq<u8>) -> Seq<char> {
    match fen_lines(s, 0, 8) {
        None => "cannot read the piece placement"@,
        Some((placement, e0)) => {
            let i1 = skip_spaces(s, e0);
            if i1 == e0 || i1 >= s.len() || !(s[i1] == 119 || s[i1] == 98) {
                "cannot read the side to move"@
            } else {
                let e1 = i1 + 1;
                let i2 = skip_spaces(s, e1);
                if i2 == e1 || fen_castling(s, i2) is None {
                    "cannot read the castling rights"@
                } else {
                    let (rights, e2) = fen_castling(s, i2)->0;
                    let i3 = skip_spaces(s, e2);
                    if i3 == e2 || fen_en_passant(s, i3) is None {
                        "cannot read the en passant square"@
                    } else {
                        "unexpected text after the record"@
                    }
                }
            }
        },
    }
}

/// Why `s` describes no position that a game can hold: the field that
/// cannot be read, or the first field whose value is out of bounds.
pub open spec fn fen_failure(s: Seq<u8>) -> Seq<char> {
    match fen_fields(s) {
        None => fen_parse_failure(s),
        Some(f) => if f.placement.len() != 64 {
            "the placement does not cover 64 squares"@
        } else if placement_count(f.placement, 64) > 32 {
            "more than 32 pieces"@
        } else if f.en_passant matches Some(t) && !(rank_of(t) == 2 || rank_of(t) == 5) {
            "the en passant square is not on the third or sixth rank"@
        } else {
            "the fullmove number is out of range"@
        },
    }
}

/// The error for a text that is no usable FEN record: the text, and in
/// brackets why.
pub open spec fn invalid_fen_text(text: Seq<char>) -> Seq<char> {
    "Invalid FEN: "@ + text + " ("@ + fen_failure(vstd::utf8::encode_utf8(text)) + ")"@
}

/// The number of plies played before the given fullmove number, with the
/// given player to move.
pub fn plies_from_fullmove_number(fullmove_number: u32, player: Player) -> (r: u32)
    requires
        fullmove_number >= 1,
        plies_spec(fullmove_number as int, player) <= u32::MAX,
    ensures r == plies_spec(fullmove_number as int, player),
{
    (fullmove_number - 1) * 2 + if player == Player::Black { 1 } else { 0 }
}

/// The squares of one rank of a FEN placement, a8 side first.
pub struct FenRank(pub Vec<Option<Piece>>);

/// The position of the first byte at or after `i` that is not a space.
fn skip_spaces_exec(s: &[u8], i: usize) -> (j: usize)
    requires i <= s@.len(),
    ensures
        j == skip_spaces(s@, i as int),
        i <= j <= s@.len(),
{
    let mut j = i;
    while j < s.len() && (s[j] == 32 || s[j] == 9)
        invariant
            i <= j <= s@.len(),
            skip_spaces(s@, j as int) == skip_spaces(s@, i as int),
        decreases s@.len() - j,
    {
        j = j + 1;
    }
    j
}

/// The piece a letter of the placement stands for.
fn piece_from_byte(c: u8) -> (r: Option<Piece>)
    ensures r == fen_piece(c),
{
    let w = Player::White;
    let b = Player::Black;
    match c {
        82 => Some(Piece { player: w, kind: PieceKind::Rook }),
        78 => Some(Piece { player: w, kind: PieceKind::Knight }),
        66 => Some(Piece { player: w, kind: PieceKind::Bishop }),
        81 => Some(Piece { player: w, kind: PieceKind::Queen }),
        75 => Some(Piece { player: w, kind: PieceKind::King }),
        80 => Some(Piece { player: w, kind: PieceKind::Pawn }),
        114 => Some(Piece { player: b, kind: PieceKind::Rook }),
        110 => Some(Piece { player: b, kind: PieceKind::Knight }),
        98 => Some(Piece { player: b, kind: PieceKind::Bishop }),
        113 => Some(Piece { player: b, kind: PieceKind::Queen }),
        107 => Some(Piece { player: b, kind: PieceKind::King }),
        112 => Some(Piece { player: b, kind: PieceKind::Pawn }),
        _ => None,
    }
}

/// Reads the run of piece letters and digits of one rank starting at `i`.
pub fn fen_line(s: &[u8], i: usize) -> (r: (FenRank, usize))
    requires i <= s@.len(),
    ensures
        (r.0).0@ == line_items(s@, i as int).0,
        r.1 == line_items(s@, i as int).1,
        i <= r.1 <= s@.len(),
{
    let mut v: Vec<Option<Piece>> = Vec::new();
    let mut j = i;
    loop
        invariant
            i <= j <= s@.len(),
            v@ + line_items(s@, j as int).0 == line_items(s@, i as int).0,
            line_items(s@, j as int).1 == line_items(s@, i as int).1,
        ensures
            i <= j <= s@.len(),
            v@ == line_items(s@, i as int).0,
            j == line_items(s@, i as int).1,
        decreases s@.len() - j,
    {
        if j >= s.len() {
            proof { assert(v@ + Seq::<Option<Piece>>::empty() =~= v@); }
            break;
        }
        let c = s[j];
        let ghost vj = v@;
        match piece_from_byte(c) {
            Some(p) => {
                v.push(Some(p));
                proof {
                    let rest = line_items(s@, j + 1).0;
                    assert(vj + (seq![Some(p)] + rest) =~= v@ + rest);
                }
                j = j + 1;
            },
            None => {
                if 49 <= c && c <= 56 {
                    let n = c - 48;
                    let mut k: u8 = 0;
                    while k < n
                        invariant
                            k <= n,
                            n == empty_run(c),
                            v@ == vj + Seq::new(k as nat, |x: int| None::<Piece>),
                        decreases n - k,
                    {
                        let ghost vk = v@;
                        v.push(None);
                        proof {
                            assert(v@ =~= vj + Seq::new((k + 1) as nat, |x: int| None::<Piece>));
                        }
                        k = k + 1;
                    }
                    proof {
                        let rest = line_items(s@, j + 1).0;
                        assert(vj + (Seq::new(empty_run(c) as nat, |x: int| None::<Piece>) + rest) =~= v@ + rest);
                    }
                    j = j + 1;
                } else {
                    proof { assert(v@ + Seq::<Option<Piece>>::empty() =~= v@); }
                    break;
                }
            },
        }
    }
    (FenRank(v), j)
}

/// Reads `k` ranks separated by `/`, returning the squares with the last
/// rank read first.
fn fen_lines_exec(s: &[u8], i: usize, k: usize) -> (r: Option<(Vec<Option<Piece>>, usize)>)
    requires
        i <= s@.len(),
        k >= 1,
    ensures
        match r {
            None => fen_lines(s@, i as int, k as nat) is None,
            Some((v, e)) => fen_lines(s@, i as int, k as nat) == Some((v@, e as int)) && e <= s@.len(),
        },
    decreases k,
{
    let (line, end) = fen_line(s, i);
    let FenRank(mut items) = line;
    if end == i {
        return None;
    }
    if k <= 1 {
        return Some((items, end));
    }
    if end < s.len() && s[end] == 47 {
        match fen_lines_exec(s, end + 1, k - 1) {
            Some((mut rest, last)) => {
                let ghost r0 = rest@;
                rest.append(&mut items);
                Some((rest, last))
            },
            None => None,
        }
    } else {
        None
    }
}

/// Whether the digits from `i` to `j` are all digits.
pub open spec fn all_digits(s: Seq<u8>, i: int, j: int) -> bool {
    forall|k: int| i <= k < j ==> is_digit(#[trigger] s[k])
}

/// More digits never make a smaller number.
proof fn lemma_digits_value_monotone(s: Seq<u8>, i: int, j: int, e: int)
    requires
        i <= j <= e <= s.len(),
        0 <= i,
        all_digits(s, i, e),
    ensures digits_value(s, i, j) <= digits_value(s, i, e),
    decreases e - j,
{
    if j < e {
        lemma_digits_value_monotone(s, i, j, e - 1);
        assert(is_digit(s[e - 1]));
        assert(digits_value(s, i, e) == digits_value(s, i, e - 1) * 10 + (s[e - 1] - 48));
        assert(digits_value(s, i, e - 1) >= 0) by {
            lemma_digits_value_nonneg(s, i, e - 1);
        }
    }
}

/// A number of digits is not negative.
proof fn lemma_digits_value_nonneg(s: Seq<u8>, i: int, j: int)
    requires
        0 <= i,
        j <= s.len(),
        all_digits(s, i, j),
    ensures digits_value(s, i, j) >= 0,
    decreases j - i,
{
    if j > i {
        lemma_digits_value_nonneg(s, i, j - 1);
        assert(is_digit(s[j - 1]));
    }
}

/// The digits from `i` are digits up to where they end.
proof fn lemma_digits_end(s: Seq<u8>, i: int)
    requires 0 <= i <= s.len(),
    ensures
        i <= digits_end(s, i) <= s.len(),
        all_digits(s, i, digits_end(s, i)),
    decreases s.len() - i,
{
    if i < s.len() && is_digit(s[i]) {
        lemma_digits_end(s, i + 1);
    }
}

/// Reads a number that fits in 32 bits at `i`.
fn fen_number_exec(s: &[u8], i: usize) -> (r: Option<(u32, usize)>)
    requires i <= s@.len(),
    ensures
        match r {
            None => fen_number(s@, i as int) is None,
            Some((v, e)) => fen_number(s@, i as int) == Some((v as int, e as int)) && e <= s@.len(),
        },
{
    let mut j = i;
    let mut acc: u64 = 0;
    let mut overflow = false;
    proof { lemma_digits_end(s@, i as int); }
    while j < s.len() && 48 <= s[j] && s[j] <= 57
        invariant
            i <= j <= s@.len(),
            digits_end(s@, j as int) == digits_end(s@, i as int),
            all_digits(s@, i as int, j as int),
            !overflow ==> acc == digits_value(s@, i as int, j as int) && acc <= u32::MAX,
            overflow ==> digits_value(s@, i as int, j as int) > u32::MAX,
        decreases s@.len() - j,
    {
        let d = (s[j] - 48) as u64;
        proof {
            assert(digits_value(s@, i as int, j + 1) == digits_value(s@, i as int, j as int) * 10 + (s@[j as int] - 48));
            lemma_digits_value_nonneg(s@, i as int, j as int);
        }
        if !overflow {
            let next = acc * 10 + d;
            if next > 0xffff_ffff {
                overflow = true;
            } else {
                acc = next;
            }
        }
        j = j + 1;
    }
    proof {
        lemma_digits_end(s@, i as int);
    }
    if j == i || overflow {
        return None;
    }
    Some((acc as u32, j))
}

/// Reads the castling rights at `i`.
fn fen_castling_exec(s: &[u8], i: usize) -> (r: Option<([CastleRights; 2], usize)>)
    requires i <= s@.len(),
    ensures
        match r {
            None => fen_castling(s@, i as int) is None,
            Some((c, e)) => fen_castling(s@, i as int) == Some((c, e as int)) && e <= s@.len(),
        },
{
    if i < s.len() && s[i] == 45 {
        return Some(([CastleRights::none(), CastleRights::none()], i + 1));
    }
    let mut wk = false;
    let mut wq = false;
    let mut bk = false;
    let mut bq = false;
    let mut j = i;
    while j < s.len() && (s[j] == 75 || s[j] == 81 || s[j] == 107 || s[j] == 113)
        invariant
            i <= j <= s@.len(),
            castle_end(s@, j as int) == castle_end(s@, i as int),
            wk == has_letter(s@, i as int, j as int, 75),
            wq == has_letter(s@, i as int, j as int, 81),
            bk == has_letter(s@, i as int, j as int, 107),
            bq == has_letter(s@, i as int, j as int, 113),
        decreases s@.len() - j,
    {
        let c = s[j];
        proof {
            assert forall|l: u8| #[trigger] has_letter(s@, i as int, j + 1, l) == (has_letter(s@, i as int, j as int, l) || c == l) by {
                if has_letter(s@, i as int, j + 1, l) {
                    let k = choose|k: int| i <= k < j + 1 && s@[k] == l;
                    if k < j {
                        assert(has_letter(s@, i as int, j as int, l));
                    }
                }
                if c == l {
                    assert(s@[j as int] == l);
                }
                if has_letter(s@, i as int, j as int, l) {
                    let k = choose|k: int| i <= k < j && s@[k] == l;
                    assert(i <= k < j + 1 && s@[k] == l);
                }
            }
        }
        if c == 75 { wk = true; }
        if c == 81 { wq = true; }
        if c == 107 { bk = true; }
        if c == 113 { bq = true; }
        j = j + 1;
    }
    if j == i {
        return None;
    }
    Some(([CastleRights { king_side: wk, queen_side: wq }, CastleRights { king_side: bk, queen_side: bq }], j))
}

/// The square of an optional en passant target.
pub open spec fn ep_index(t: Option<Square>) -> Option<int> {
    match t {
        Some(sq) => Some(sq@),
        None => None,
    }
}

/// Reads the en passant target at `i`.
fn fen_en_passant_exec(s: &[u8], i: usize) -> (r: Option<(Option<Square>, usize)>)
    requires i <= s@.len(),
    ensures
        match r {
            None => fen_en_passant(s@, i as int) is None,
            Some((t, e)) => fen_en_passant(s@, i as int) == Some((ep_index(t), e as int)) && e <= s@.len(),
        },
{
    if i < s.len() && s[i] == 45 {
        return Some((None, i + 1));
    }
    if i < s.len() && i + 1 < s.len() && 97 <= s[i] && s[i] <= 104 && 49 <= s[i + 1] && s[i + 1] <= 56 {
        let file = (s[i] - 97) as usize;
        let rank = (s[i + 1] - 49) as usize;
        let sq = Square::from_idxs(file, rank);
        return Some((Some(sq), i + 2));
    }
    None
}

/// Reads an optional number after at least one space.
fn optional_number_exec(s: &[u8], i: usize, default: u32) -> (r: (u32, usize))
    requires i <= s@.len(),
    ensures
        (r.0 as int, r.1 as int) == optional_number(s@, i as int, default as int),
        r.1 <= s@.len(),
{
    let j = skip_spaces_exec(s, i);
    if j > i {
        if let Some((v, e)) = fen_number_exec(s, j) {
            return (v, e);
        }
    }
    (default, i)
}

/// The fields of the FEN record `s`, read, or the field that cannot be.
fn fen_parser(s: &[u8]) -> (r: Result<(Vec<Option<Piece>>, Player, [CastleRights; 2], Option<Square>, u32, u32), &'static str>)
    ensures
        match r {
            Err(m) => fen_fields(s@) is None && m@ == fen_parse_failure(s@),
            Ok((placement, player, rights, ep, half, full)) => fen_fields(s@) == Some(FenFields {
                placement: placement@,
                player,
                castle_rights: rights,
                en_passant: ep_index(ep),
                halfmove_clock: half as int,
                fullmove_number: full as int,
            }),
        },
{
    let (placement, e0) = match fen_lines_exec(s, 0, 8) {
        Some(x) => x,
        None => return Err("cannot read the piece placement"),
    };
    let i1 = skip_spaces_exec(s, e0);
    if i1 == e0 || i1 >= s.len() || !(s[i1] == 119 || s[i1] == 98) {
        return Err("cannot read the side to move");
    }
    let player = if s[i1] == 119 { Player::White } else { Player::Black };
    let e1 = i1 + 1;
    let i2 = skip_spaces_exec(s, e1);
    if i2 == e1 {
        return Err("cannot read the castling rights");
    }
    let (rights, e2) = match fen_castling_exec(s, i2) {
        Some(x) => x,
        None => return Err("cannot read the castling rights"),
    };
    let i3 = skip_spaces_exec(s, e2);
    if i3 == e2 {
        return Err("cannot read the en passant square");
    }
    let (ep, e3) = match fen_en_passant_exec(s, i3) {
        Some(x) => x,
        None => return Err("cannot read the en passant square"),
    };
    let (half, e4) = optional_number_exec(s, e3, 0);
    let (full, e5) = optional_number_exec(s, e4, 1);
    if skip_spaces_exec(s, e5) != s.len() {
        return Err("unexpected text after the record");
    }
    Ok((placement, player, rights, ep, half, full))
}

/// The number of pieces on the board.
fn count_pieces(board: &Board) -> (r: u32)
    ensures r == occupied_count(*board, 64),
{
    let mut c: u32 = 0;
    let mut i: usize = 0;
    while i < 64
        invariant
            i <= 64,
            c == occupied_count(*board, i as int),
            c <= i,
        decreases 64 - i,
    {
        if board.piece_at(Square::from_array_index(i)).is_some() {
            c = c + 1;
        }
        i = i + 1;
    }
    c
}

/// The occupied count of a board is that of its placement.
proof fn lemma_placement_count(board: Board, n: int)
    ensures occupied_count(board, n) == placement_count(board.placement(), n),
    decreases n,
{
    if n > 0 {
        lemma_placement_count(board, n - 1);
    }
}

/// The message for a record that cannot be used, with the reason.
fn invalid_fen(input: &str, reason: &str) -> (e: String)
    ensures e@ == "Invalid FEN: "@ + input@ + " ("@ + reason@ + ")"@,
{
    let mut e = String::from_str("Invalid FEN: ");
    e.append(input);
    e.append(" (");
    e.append(reason);
    e.append(")");
    e
}

/// Whether a game holds the fields of a FEN record.
pub open spec fn game_from_fields(g: Game, f: FenFields) -> bool {
    &&& g.wf()
    &&& g.board.placement() == f.placement
    &&& g.player == f.player
    &&& g.castle_rights == f.castle_rights
    &&& ep_index(g.en_passant_target) == f.en_passant
    &&& g.halfmove_clock == f.halfmove_clock
    &&& g.plies == plies_spec(f.fullmove_number, f.player)
    &&& g.history@.len() == 0
}

/// Reads a game from a FEN record. Succeeds exactly when the input is a
/// FEN record describing a position that a game can hold; the error
/// message repeats the input.
pub fn parse(input: &str) -> (r: Result<Game, String>)
    ensures
        match r {
            Ok(g) => fen_fields(input.spec_bytes()) matches Some(f) && fen_fields_ok(f) && game_from_fields(g, f),
            Err(e) => !(fen_fields(input.spec_bytes()) matches Some(f) && fen_fields_ok(f))
                && e@ == invalid_fen_text(input@),
        },
{
    let s = input.as_bytes();
    let (placement, player, rights, ep, half, full) = match fen_parser(s) {
        Ok(x) => x,
        Err(reason) => {
            let e = invalid_fen(input, reason);
            proof { assert(e@ =~= invalid_fen_text(input@)); }
            return Err(e);
        },
    };
    if placement.len() != 64 {
        let e = invalid_fen(input, "the placement does not cover 64 squares");
        proof { assert(e@ =~= invalid_fen_text(input@)); }
        return Err(e);
    }
    let mut squares: [Option<Piece>; 64] = [None; 64];
    let mut i: usize = 0;
    while i < 64
        invariant
            i <= 64,
            placement@.len() == 64,
            forall|k: int| 0 <= k < i ==> squares@[k] == placement@[k],
        decreases 64 - i,
    {
        squares[i] = placement[i];
        i = i + 1;
    }
    let board = Board::from_squares(squares);
    proof {
        assert(board.placement() =~= placement@);
        lemma_placement_count(board, 64);
    }
    if count_pieces(&board) > 32 {
        let e = invalid_fen(input, "more than 32 pieces");
        proof { assert(e@ =~= invalid_fen_text(input@)); }
        return Err(e);
    }
    if let Some(t) = ep {
        let r = t.idx() / 8;
        if r != 2 && r != 5 {
            let e = invalid_fen(input, "the en passant square is not on the third or sixth rank");
            proof { assert(e@ =~= invalid_fen_text(input@)); }
            return Err(e);
        }
    }
    if full == 0 {
        let e = invalid_fen(input, "the fullmove number is out of range");
        proof { assert(e@ =~= invalid_fen_text(input@)); }
        return Err(e);
    }
    let black: u64 = if player == Player::Black { 1 } else { 0 };
    if (full as u64 - 1) * 2 + black > 0xffff_ffff {
        let e = invalid_fen(input, "the fullmove number is out of range");
        proof { assert(e@ =~= invalid_fen_text(input@)); }
        return Err(e);
    }
    let plies = plies_from_fullmove_number(full, player);
    Ok(Game::from_state(board, player, rights, ep, half, plies))
}

impl Game {
    /// Reads a game from a FEN record; see `parse`.
    pub fn from_fen(fen: &str) -> (r: Result<Game, String>)
        ensures
            match r {
                Ok(g) => fen_fields(fen.spec_bytes()) matches Some(f) && fen_fields_ok(f) && game_from_fields(g, f),
                Err(e) => !(fen_fields(fen.spec_bytes()) matches Some(f) && fen_fields_ok(f))
                    && e@ == invalid_fen_text(fen@),
            },
    {
        parse(fen)
    }
}

} // verus!
