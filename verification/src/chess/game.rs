//! A game in progress: the position, whose turn it is, the castling rights,
//! the en passant target, the move clocks, and the history of earlier
//! positions so that moves can be undone.

use vstd::prelude::*;
use crate::chess::board::{Board, lemma_board_sum_same};
use crate::chess::moves::{Move, promotion_of_flags};
use crate::chess::piece::{Piece, PieceKind};
use crate::chess::player::Player;
use crate::chess::square::{Square, file_of, rank_of, on_board};
use crate::chess::zobrist::{
    placement_hash, hash_placement, key_spec, key, black_to_move_feature, castle_feature,
    en_passant_feature,
};
use crate::engine::eval::{IncrementalEvalFields, remove_tracked, set_tracked};
use crate::engine::eval::piece_square_tables::{occupied_count, count_term};
use crate::engine::eval::tapered_eval::phase_term;
use crate::engine::eval::piece_square_tables::pst_term;
use crate::chess::movegen::gen::{generate_moves, legal_move, checkers, king_square, promotions_in_order};

verus! {

/// Which ways a player may still castle.
#[derive(Debug, Clone, Copy, PartialEq, Eq, Structural)]
pub struct CastleRights {
    pub king_side: bool,
    pub queen_side: bool,
}

impl CastleRights {
    pub fn none() -> (r: Self)
        ensures r == (CastleRights { king_side: false, queen_side: false }),
    {
        CastleRights { king_side: false, queen_side: false }
    }

    pub open spec fn both_spec() -> Self {
        CastleRights { king_side: true, queen_side: true }
    }

    pub fn both() -> (r: Self)
        ensures r == Self::both_spec(),
    {
        CastleRights { king_side: true, queen_side: true }
    }

    pub fn can_castle(&self) -> (r: bool)
        ensures r == (self.king_side || self.queen_side),
    {
        self.king_side || self.queen_side
    }
}

/// The state of a game before a move, kept so that the move can be undone.
#[derive(Clone, Copy)]
pub struct HistoryEntry {
    /// The move made from this state; `None` for a null move.
    pub mv: Option<Move>,
    pub board: Board,
    pub player: Player,
    pub castle_rights: [CastleRights; 2],
    pub en_passant_target: Option<Square>,
    pub halfmove_clock: u32,
    pub plies: u32,
    pub zobrist: u64,
    pub incremental_eval: IncrementalEvalFields,
}

/// A game in progress.
pub struct Game {
    pub board: Board,
    /// The player to move.
    pub player: Player,
    /// The castling rights, White's first.
    pub castle_rights: [CastleRights; 2],
    /// The square a pawn that just moved two squares passed over.
    pub en_passant_target: Option<Square>,
    /// The number of plies since the last capture or pawn move.
    pub halfmove_clock: u32,
    /// The number of plies played since the start of the game.
    pub plies: u32,
    /// The states before each move, oldest first.
    pub history: Vec<HistoryEntry>,
    /// The hash of the position.
    pub zobrist: u64,
    pub incremental_eval: IncrementalEvalFields,
}

/// The xor of the keys of the features of a position besides its pieces.
pub open spec fn state_hash(player: Player, castle_rights: [CastleRights; 2], ep: Option<Square>) -> u64 {
    let b = if player == Player::Black { key_spec(black_to_move_feature() as u64) } else { 0u64 };
    let wk = if castle_rights[0].king_side { key_spec(castle_feature(Player::White, true) as u64) } else { 0u64 };
    let wq = if castle_rights[0].queen_side { key_spec(castle_feature(Player::White, false) as u64) } else { 0u64 };
    let bk = if castle_rights[1].king_side { key_spec(castle_feature(Player::Black, true) as u64) } else { 0u64 };
    let bq = if castle_rights[1].queen_side { key_spec(castle_feature(Player::Black, false) as u64) } else { 0u64 };
    let e = match ep {
        Some(t) => key_spec(en_passant_feature(file_of(t@)) as u64),
        None => 0u64,
    };
    b ^ wk ^ wq ^ bk ^ bq ^ e
}

/// The hash of a position.
pub open spec fn position_hash(board: Board, player: Player, castle_rights: [CastleRights; 2], ep: Option<Square>) -> u64 {
    placement_hash(board, 64) ^ state_hash(player, castle_rights, ep)
}

/// The bookkeeping of a state agrees with its position.
pub open spec fn state_wf(
    board: Board,
    player: Player,
    castle_rights: [CastleRights; 2],
    ep: Option<Square>,
    zobrist: u64,
    incremental_eval: IncrementalEvalFields,
) -> bool {
    &&& occupied_count(board, 64) <= 32
    &&& (ep matches Some(t) ==> rank_of(t@) == 2 || rank_of(t@) == 5)
    &&& zobrist == position_hash(board, player, castle_rights, ep)
    &&& incremental_eval.matches(board)
}

impl HistoryEntry {
    pub open spec fn wf(self) -> bool {
        state_wf(self.board, self.player, self.castle_rights, self.en_passant_target, self.zobrist, self.incremental_eval)
    }
}

/// The square of the rook that castles with the king landing on `dst`, and
/// the square it lands on.
pub open spec fn castle_rook_squares(dst: int) -> (int, int) {
    if file_of(dst) == 6 { (dst + 1, dst - 1) } else { (dst - 2, dst + 1) }
}

/// The corner square of the rook for a player's castling on one side.
pub open spec fn rook_corner(player: Player, kingside: bool) -> int {
    (if player == Player::White { 0int } else { 56int }) + if kingside { 7int } else { 0int }
}

impl Game {
    /// The piece that moves.
    pub open spec fn moving_piece(self, mv: Move) -> Piece {
        self.board.at(mv.src_spec())->0
    }

    /// Whether the move captures en passant.
    pub open spec fn is_en_passant_capture(self, mv: Move) -> bool {
        self.moving_piece(mv).kind == PieceKind::Pawn && (self.en_passant_target matches Some(t) && t@ == mv.dst_spec())
    }

    /// The square of the pawn taken en passant.
    pub open spec fn en_passant_victim(self, mv: Move) -> int {
        if self.player == Player::White { mv.dst_spec() - 8 } else { mv.dst_spec() + 8 }
    }

    /// Whether the move is a king moving two files onto the g or c file,
    /// that is, castling.
    pub open spec fn is_castle(self, mv: Move) -> bool {
        &&& self.moving_piece(mv).kind == PieceKind::King
        &&& (file_of(mv.dst_spec()) - file_of(mv.src_spec()) == 2 || file_of(mv.src_spec()) - file_of(mv.dst_spec()) == 2)
        &&& (file_of(mv.dst_spec()) == 6 || file_of(mv.dst_spec()) == 2)
    }

    /// The piece that stands on the destination after the move.
    pub open spec fn landing_piece(self, mv: Move) -> Piece {
        match promotion_of_flags(mv.flags_spec()) {
            Some(k) => Piece { player: self.moving_piece(mv).player, kind: k.spec_kind() },
            None => self.moving_piece(mv),
        }
    }

    /// The placement after the move, before any castling rook moves.
    pub open spec fn placement_before_rook(self, mv: Move) -> Seq<Option<Piece>> {
        let p1 = self.board.placement().update(mv.src_spec(), None);
        let p2 = if self.is_en_passant_capture(mv) { p1.update(self.en_passant_victim(mv), None) } else { p1 };
        p2.update(mv.dst_spec(), Some(self.landing_piece(mv)))
    }

    /// The placement after the move: the piece leaves its square, anything
    /// on the destination (or the pawn taken en passant) is removed, the
    /// piece (promoted, for a promotion) lands on the destination, and when
    /// castling the rook jumps to the other side of the king.
    pub open spec fn placement_after(self, mv: Move) -> Seq<Option<Piece>> {
        let p3 = self.placement_before_rook(mv);
        let (from, to) = castle_rook_squares(mv.dst_spec());
        if self.is_castle(mv) && p3[from] is Some && p3[to] is None {
            p3.update(from, None).update(to, p3[from])
        } else {
            p3
        }
    }

    /// A castling right after the move: lost when the king moves, or when a
    /// move starts or ends on the rook's corner.
    pub open spec fn right_after(self, mv: Move, player: Player, kingside: bool) -> bool {
        let before = if kingside { self.castle_rights[player.idx()].king_side } else { self.castle_rights[player.idx()].queen_side };
        &&& before
        &&& !(self.moving_piece(mv).kind == PieceKind::King && self.player == player)
        &&& mv.src_spec() != rook_corner(player, kingside)
        &&& mv.dst_spec() != rook_corner(player, kingside)
    }

    /// Whether the move is a pawn's double step from its starting rank.
    pub open spec fn is_double_push(self, mv: Move) -> bool {
        &&& self.moving_piece(mv).kind == PieceKind::Pawn
        &&& (mv.dst_spec() - mv.src_spec() == 16 || mv.src_spec() - mv.dst_spec() == 16)
        &&& (rank_of(mv.src_spec()) == 1 || rank_of(mv.src_spec()) == 6)
    }

    /// Whether the move resets the fifty-move counter.
    pub open spec fn resets_clock(self, mv: Move) -> bool {
        self.moving_piece(mv).kind == PieceKind::Pawn || self.board.at(mv.dst_spec()) is Some
            || self.is_en_passant_capture(mv)
    }

    /// The game's state is internally consistent.
    pub open spec fn wf(self) -> bool {
        &&& state_wf(self.board, self.player, self.castle_rights, self.en_passant_target, self.zobrist, self.incremental_eval)
        &&& forall|i: int| 0 <= i < self.history@.len() ==> (#[trigger] self.history@[i]).wf()
    }

    /// The state of this game as a history entry.
    pub open spec fn snapshot(self, mv: Option<Move>) -> HistoryEntry {
        HistoryEntry {
            mv,
            board: self.board,
            player: self.player,
            castle_rights: self.castle_rights,
            en_passant_target: self.en_passant_target,
            halfmove_clock: self.halfmove_clock,
            plies: self.plies,
            zobrist: self.zobrist,
            incremental_eval: self.incremental_eval,
        }
    }

    /// Whether this game is `earlier` with its last history entry restored.
    pub open spec fn restores(self, entry: HistoryEntry) -> bool {
        &&& self.board == entry.board
        &&& self.player == entry.player
        &&& self.castle_rights == entry.castle_rights
        &&& self.en_passant_target == entry.en_passant_target
        &&& self.halfmove_clock == entry.halfmove_clock
        &&& self.plies == entry.plies
        &&& self.zobrist == entry.zobrist
        &&& self.incremental_eval == entry.incremental_eval
    }
}

fn hash_state(player: Player, castle_rights: [CastleRights; 2], ep: Option<Square>) -> (h: u64)
    ensures h == state_hash(player, castle_rights, ep),
{
    let b = if player == Player::Black { key(768) } else { 0 };
    let wk = if castle_rights[0].king_side { key(769) } else { 0 };
    let wq = if castle_rights[0].queen_side { key(770) } else { 0 };
    let bk = if castle_rights[1].king_side { key(771) } else { 0 };
    let bq = if castle_rights[1].queen_side { key(772) } else { 0 };
    let e = match ep {
        Some(t) => key(773 + (t.idx() % 8) as u64),
        None => 0,
    };
    b ^ wk ^ wq ^ bk ^ bq ^ e
}

/// The hash of a position, computed from scratch.
pub fn hash_position(board: &Board, player: Player, castle_rights: [CastleRights; 2], ep: Option<Square>) -> (h: u64)
    ensures h == position_hash(*board, player, castle_rights, ep),
{
    hash_placement(board) ^ hash_state(player, castle_rights, ep)
}

/// Whether `after` is `before` with `mv` played: the pieces as the move
/// leaves them, the other player to move, the castling rights, the en
/// passant target and the clocks updated, and the position before the move
/// pushed onto the history.
pub open spec fn move_made(before: Game, mv: Move, after: Game) -> bool {
    &&& after.wf()
    &&& after.board.wf()
    &&& after.board.placement() == before.placement_after(mv)
    &&& after.player == before.player.opponent()
    &&& after.castle_rights[0] == (CastleRights {
        king_side: before.right_after(mv, Player::White, true),
        queen_side: before.right_after(mv, Player::White, false),
    })
    &&& after.castle_rights[1] == (CastleRights {
        king_side: before.right_after(mv, Player::Black, true),
        queen_side: before.right_after(mv, Player::Black, false),
    })
    &&& before.is_double_push(mv) ==> (after.en_passant_target matches Some(t)
        && t@ == (mv.src_spec() + mv.dst_spec()) / 2)
    &&& !before.is_double_push(mv) ==> after.en_passant_target is None
    &&& after.halfmove_clock == (if before.resets_clock(mv) {
        0
    } else if before.halfmove_clock == u32::MAX {
        u32::MAX as int
    } else {
        before.halfmove_clock + 1
    })
    &&& after.plies == (if before.plies == u32::MAX { u32::MAX as int } else { before.plies + 1 })
    &&& after.history@ == before.history@.push(before.snapshot(Some(mv)))
}

/// A move played in a position leads to one state: two games that are both
/// `before` with `mv` played agree in every field, their histories holding
/// the same entries.
pub proof fn lemma_move_made_determined(before: Game, mv: Move, a: Game, b: Game)
    requires
        move_made(before, mv, a),
        move_made(before, mv, b),
    ensures
        a.board == b.board,
        a.player == b.player,
        a.castle_rights == b.castle_rights,
        a.en_passant_target == b.en_passant_target,
        a.halfmove_clock == b.halfmove_clock,
        a.plies == b.plies,
        a.history@ == b.history@,
        a.zobrist == b.zobrist,
        a.incremental_eval == b.incremental_eval,
{
    Board::lemma_placement_determines(a.board, b.board);
    assert(a.castle_rights@ =~= b.castle_rights@);
    vstd::array::axiom_array_ext_equal(a.castle_rights, b.castle_rights);
    if let Some(t) = a.en_passant_target {
        Square::lemma_view_injective(t, b.en_passant_target->0);
    }
}

/// The state that playing `m` leads to: the one state (up to the entries of
/// its history) that `move_made` allows, when there is one.
pub open spec fn successor(g: Game, m: Move) -> Game {
    let placement = g.placement_after(m);
    let player = g.player.opponent();
    let white = CastleRights {
        king_side: g.right_after(m, Player::White, true),
        queen_side: g.right_after(m, Player::White, false),
    };
    let black = CastleRights {
        king_side: g.right_after(m, Player::Black, true),
        queen_side: g.right_after(m, Player::Black, false),
    };
    let double_push = g.is_double_push(m);
    let target = (m.src_spec() + m.dst_spec()) / 2;
    let halfmove = if g.resets_clock(m) {
        0
    } else if g.halfmove_clock == u32::MAX {
        u32::MAX as int
    } else {
        g.halfmove_clock + 1
    };
    let plies = if g.plies == u32::MAX { u32::MAX as int } else { g.plies + 1 };
    let history = g.history@.push(g.snapshot(Some(m)));
    choose|a: Game| {
        &&& a.wf()
        &&& a.board.wf()
        &&& a.board.placement() == placement
        &&& a.player == player
        &&& a.castle_rights[0] == white
        &&& a.castle_rights[1] == black
        &&& double_push ==> (a.en_passant_target matches Some(t) && t@ == target)
        &&& !double_push ==> a.en_passant_target is None
        &&& a.halfmove_clock == halfmove
        &&& a.plies == plies
        &&& a.history@ == history
    }
}

/// A game with `m` played is in the state `successor` names.
pub proof fn lemma_successor(g: Game, m: Move, after: Game)
    requires move_made(g, m, after),
    ensures same_state(after, successor(g, m)),
{
    let s = successor(g, m);
    assert(move_made(g, m, s));
    lemma_move_made_determined(g, m, after, s);
}

/// Games in the same state lead to the same state by a move.
pub proof fn lemma_successor_same(a: Game, b: Game, m: Move)
    requires same_state(a, b),
    ensures successor(a, m) == successor(b, m),
{
    assert(a.placement_after(m) == b.placement_after(m));
    assert(a.snapshot(Some(m)) == b.snapshot(Some(m)));
    assert(a.history@.push(a.snapshot(Some(m))) == b.history@.push(b.snapshot(Some(m))));
}

impl Game {
    /// A game in the given state, with no history.
    pub fn from_state(
        board: Board,
        player: Player,
        castle_rights: [CastleRights; 2],
        en_passant_target: Option<Square>,
        halfmove_clock: u32,
        plies: u32,
    ) -> (g: Game)
        requires
            occupied_count(board, 64) <= 32,
            en_passant_target matches Some(t) ==> rank_of(t@) == 2 || rank_of(t@) == 5,
        ensures
            g.wf(),
            g.board == board,
            g.player == player,
            g.castle_rights == castle_rights,
            g.en_passant_target == en_passant_target,
            g.halfmove_clock == halfmove_clock,
            g.plies == plies,
            g.history@.len() == 0,
    {
        let zobrist = hash_position(&board, player, castle_rights, en_passant_target);
        let incremental_eval = IncrementalEvalFields::init(&board);
        Game {
            board,
            player,
            castle_rights,
            en_passant_target,
            halfmove_clock,
            plies,
            history: Vec::new(),
            zobrist,
            incremental_eval,
        }
    }

    /// A copy of the game, history included.
    pub fn duplicate(&self) -> (g: Game)
        ensures
            g.board == self.board,
            g.player == self.player,
            g.castle_rights == self.castle_rights,
            g.en_passant_target == self.en_passant_target,
            g.halfmove_clock == self.halfmove_clock,
            g.plies == self.plies,
            g.history@ == self.history@,
            g.zobrist == self.zobrist,
            g.incremental_eval == self.incremental_eval,
    {
        let mut history: Vec<HistoryEntry> = Vec::new();
        let mut i: usize = 0;
        while i < self.history.len()
            invariant
                i <= self.history@.len(),
                history@ == self.history@.subrange(0, i as int),
            decreases self.history@.len() - i,
        {
            history.push(self.history[i]);
            i = i + 1;
        }
        proof { assert(history@ =~= self.history@.subrange(0, self.history@.len() as int)); }
        Game {
            board: self.board,
            player: self.player,
            castle_rights: self.castle_rights,
            en_passant_target: self.en_passant_target,
            halfmove_clock: self.halfmove_clock,
            plies: self.plies,
            history,
            zobrist: self.zobrist,
            incremental_eval: self.incremental_eval,
        }
    }

    fn save(&self, mv: Option<Move>) -> (e: HistoryEntry)
        ensures e == self.snapshot(mv),
    {
        HistoryEntry {
            mv,
            board: self.board,
            player: self.player,
            castle_rights: self.castle_rights,
            en_passant_target: self.en_passant_target,
            halfmove_clock: self.halfmove_clock,
            plies: self.plies,
            zobrist: self.zobrist,
            incremental_eval: self.incremental_eval,
        }
    }

    /// The board after the move, before any castling rook moves, with the
    /// evaluation fields kept in step.
    fn place_before_rook(&self, mv: Move, piece: Piece) -> (r: (Board, IncrementalEvalFields))
        requires
            self.wf(),
            self.board.at(mv.src_spec()) == Some(piece),
        ensures
            r.0.placement() == self.placement_before_rook(mv),
            r.1.matches(r.0),
            occupied_count(r.0, 64) <= 32,
    {
        let src = mv.src();
        let dst = mv.dst();
        let is_en_passant = piece.kind == PieceKind::Pawn && match self.en_passant_target {
            Some(t) => t.idx() == dst.idx(),
            None => false,
        };
        let landing = match mv.promotion() {
            Some(k) => Piece { player: piece.player, kind: k.kind() },
            None => piece,
        };
        let mut board = self.board;
        let mut fields = self.incremental_eval;
        proof { board.lemma_placement_len(); }
        let _ = remove_tracked(&mut board, &mut fields, src);
        if is_en_passant {
            proof {
                let t = self.en_passant_target->0;
                assert(rank_of(t@) == 2 || rank_of(t@) == 5);
            }
            let victim = match self.player {
                Player::White => Square::from_index(dst.idx() - 8),
                Player::Black => Square::from_index(dst.idx() + 8),
            };
            let _ = remove_tracked(&mut board, &mut fields, victim);
        }
        let _ = remove_tracked(&mut board, &mut fields, dst);
        set_tracked(&mut board, &mut fields, dst, landing);
        proof {
            assert(board.placement() =~= self.placement_before_rook(mv));
        }
        (board, fields)
    }

    /// The board after the move, with the evaluation fields kept in step.
    fn place_move(&self, mv: Move, piece: Piece) -> (r: (Board, IncrementalEvalFields))
        requires
            self.wf(),
            self.board.at(mv.src_spec()) == Some(piece),
        ensures
            r.0.placement() == self.placement_after(mv),
            r.1.matches(r.0),
            occupied_count(r.0, 64) <= 32,
    {
        let (mut board, mut fields) = self.place_before_rook(mv, piece);
        let src = mv.src();
        let dst = mv.dst();
        let sf = src.idx() % 8;
        let df = dst.idx() % 8;
        let is_castle = piece.kind == PieceKind::King && (df == sf + 2 || sf == df + 2) && (df == 6 || df == 2);
        proof { board.lemma_placement_len(); }
        if is_castle {
            let d = dst.idx();
            let (from, to) = if d % 8 == 6 {
                (Square::from_index(d + 1), Square::from_index(d - 1))
            } else {
                (Square::from_index(d - 2), Square::from_index(d + 1))
            };
            let ghost b1 = board;
            let rook = board.piece_at(from);
            let to_empty = board.piece_at(to).is_none();
            if rook.is_some() && to_empty {
                let r = remove_tracked(&mut board, &mut fields, from);
                proof {
                    b1.lemma_placement_len();
                    assert(from@ != to@);
                    assert(board.at(to@) is None);
                }
                match r {
                    Some(rp) => {
                        set_tracked(&mut board, &mut fields, to, rp);
                    },
                    None => {},
                }
                proof {
                    assert(board.placement() =~= b1.placement().update(from@, None).update(to@, b1.placement()[from@]));
                }
            }
        }
        (board, fields)
    }

    /// The castling rights after the move.
    fn rights_after_move(&self, mv: Move, piece: Piece) -> (r: [CastleRights; 2])
        requires self.board.at(mv.src_spec()) == Some(piece),
        ensures
            r[0] == (CastleRights {
                king_side: self.right_after(mv, Player::White, true),
                queen_side: self.right_after(mv, Player::White, false),
            }),
            r[1] == (CastleRights {
                king_side: self.right_after(mv, Player::Black, true),
                queen_side: self.right_after(mv, Player::Black, false),
            }),
    {
        let mut castle_rights = self.castle_rights;
        let si = mv.src().idx();
        let di = mv.dst().idx();
        if piece.kind == PieceKind::King {
            castle_rights[self.player.array_idx()] = CastleRights::none();
        }
        if si == 7 || di == 7 {
            castle_rights[0].king_side = false;
        }
        if si == 0 || di == 0 {
            castle_rights[0].queen_side = false;
        }
        if si == 63 || di == 63 {
            castle_rights[1].king_side = false;
        }
        if si == 56 || di == 56 {
            castle_rights[1].queen_side = false;
        }
        castle_rights
    }

    /// Plays a move of the player to move, whose source square holds a piece.
    pub fn make_move(&mut self, mv: Move)
        requires
            old(self).wf(),
            old(self).board.at(mv.src_spec()) is Some,
        ensures move_made(*old(self), mv, *final(self)),
    {
        let ghost g0h = self.history@;
        let entry = self.save(Some(mv));
        let src = mv.src();
        let dst = mv.dst();
        let piece = match self.board.piece_at(src) {
            Some(p) => p,
            None => {
                proof { assert(false); }
                return;
            }
        };
        let target_occupied = self.board.piece_at(dst).is_some();
        let is_en_passant = piece.kind == PieceKind::Pawn && match self.en_passant_target {
            Some(t) => t.idx() == dst.idx(),
            None => false,
        };
        let (board, fields) = self.place_move(mv, piece);
        let castle_rights = self.rights_after_move(mv, piece);

        let si = src.idx();
        let di = dst.idx();
        let sr = si / 8;
        let is_double_push = piece.kind == PieceKind::Pawn && (di == si + 16 || si == di + 16) && (sr == 1 || sr == 6);
        let en_passant_target = if is_double_push {
            Some(Square::from_index((si + di) / 2))
        } else {
            None
        };

        let halfmove_clock = if piece.kind == PieceKind::Pawn || target_occupied || is_en_passant {
            0
        } else {
            self.halfmove_clock.saturating_add(1)
        };
        let next_player = self.player.other();
        let zobrist = hash_position(&board, next_player, castle_rights, en_passant_target);

        self.history.push(entry);
        self.board = board;
        self.incremental_eval = fields;
        self.castle_rights = castle_rights;
        self.en_passant_target = en_passant_target;
        self.halfmove_clock = halfmove_clock;
        self.plies = self.plies.saturating_add(1);
        self.player = next_player;
        self.zobrist = zobrist;
        proof {
            use_type_invariant(&self.board);
            assert forall|i: int| 0 <= i < self.history@.len() implies (#[trigger] self.history@[i]).wf() by {
                if i < g0h.len() {
                    assert(self.history@[i] == g0h[i]);
                }
            }
        }
    }

    /// Undoes the last move (or null move), restoring the state before it.
    pub fn undo_move(&mut self)
        requires
            old(self).wf(),
            old(self).history@.len() > 0,
        ensures
            final(self).wf(),
            final(self).restores(old(self).history@.last()),
            final(self).history@ == old(self).history@.drop_last(),
    {
        let ghost h = self.history@;
        let entry = match self.history.pop() {
            Some(e) => e,
            None => {
                proof { assert(false); }
                return;
            }
        };
        proof {
            assert(entry == h.last());
            assert(entry.wf());
            assert forall|i: int| 0 <= i < self.history@.len() implies (#[trigger] self.history@[i]).wf() by {
                assert(self.history@[i] == h[i]);
            }
        }
        self.board = entry.board;
        self.player = entry.player;
        self.castle_rights = entry.castle_rights;
        self.en_passant_target = entry.en_passant_target;
        self.halfmove_clock = entry.halfmove_clock;
        self.plies = entry.plies;
        self.zobrist = entry.zobrist;
        self.incremental_eval = entry.incremental_eval;
    }

    /// Passes the turn to the opponent without moving a piece.
    pub fn make_null_move(&mut self)
        requires old(self).wf(),
        ensures
            final(self).wf(),
            final(self).board == old(self).board,
            final(self).player == old(self).player.opponent(),
            final(self).en_passant_target is None,
            final(self).castle_rights == old(self).castle_rights,
            final(self).history@ == old(self).history@.push(old(self).snapshot(None)),
    {
        let ghost g0h = self.history@;
        let entry = self.save(None);
        let next_player = self.player.other();
        let zobrist = hash_position(&self.board, next_player, self.castle_rights, None);
        self.history.push(entry);
        self.player = next_player;
        self.en_passant_target = None;
        self.halfmove_clock = self.halfmove_clock.saturating_add(1);
        self.plies = self.plies.saturating_add(1);
        self.zobrist = zobrist;
        proof {
            assert forall|i: int| 0 <= i < self.history@.len() implies (#[trigger] self.history@[i]).wf() by {
                if i < g0h.len() {
                    assert(self.history@[i] == g0h[i]);
                }
            }
        }
    }

    /// Undoes a null move.
    pub fn undo_null_move(&mut self)
        requires
            old(self).wf(),
            old(self).history@.len() > 0,
        ensures
            final(self).wf(),
            final(self).restores(old(self).history@.last()),
            final(self).history@ == old(self).history@.drop_last(),
    {
        self.undo_move();
    }
}

/// The kind of piece that starts on a file of the back rank.
pub open spec fn back_rank_kind(f: int) -> PieceKind {
    if f == 0 || f == 7 {
        PieceKind::Rook
    } else if f == 1 || f == 6 {
        PieceKind::Knight
    } else if f == 2 || f == 5 {
        PieceKind::Bishop
    } else if f == 3 {
        PieceKind::Queen
    } else {
        PieceKind::King
    }
}

/// The piece on a square in the starting position.
pub open spec fn start_piece(s: int) -> Option<Piece> {
    let r = rank_of(s);
    let f = file_of(s);
    if r == 0 {
        Some(Piece { player: Player::White, kind: back_rank_kind(f) })
    } else if r == 1 {
        Some(Piece { player: Player::White, kind: PieceKind::Pawn })
    } else if r == 6 {
        Some(Piece { player: Player::Black, kind: PieceKind::Pawn })
    } else if r == 7 {
        Some(Piece { player: Player::Black, kind: back_rank_kind(f) })
    } else {
        None
    }
}

/// A board whose middle four ranks are empty holds at most 32 pieces.
proof fn lemma_start_count(b: Board, n: int)
    requires
        0 <= n <= 64,
        forall|s: int| 16 <= s < 48 ==> #[trigger] b.at(s) is None,
    ensures occupied_count(b, n) <= (if n <= 16 { n } else if n <= 48 { 16 } else { n - 32 }),
    decreases n,
{
    if n > 0 {
        lemma_start_count(b, n - 1);
    }
}

impl Game {
    /// A game in the starting position, White to move, with every castling
    /// right and the clocks at zero.
    pub fn new() -> (g: Game)
        ensures
            g.wf(),
            g.board.placement() == Seq::new(64, |s: int| start_piece(s)),
            g.player == Player::White,
            g.castle_rights == [CastleRights::both_spec(), CastleRights::both_spec()],
            g.en_passant_target is None,
            g.halfmove_clock == 0,
            g.plies == 0,
            g.history@.len() == 0,
    {
        let back: [PieceKind; 8] = [
            PieceKind::Rook, PieceKind::Knight, PieceKind::Bishop, PieceKind::Queen,
            PieceKind::King, PieceKind::Bishop, PieceKind::Knight, PieceKind::Rook,
        ];
        let mut squares: [Option<Piece>; 64] = [None; 64];
        let mut i: usize = 0;
        while i < 64
            invariant
                i <= 64,
                back@ == seq![PieceKind::Rook, PieceKind::Knight, PieceKind::Bishop, PieceKind::Queen,
                    PieceKind::King, PieceKind::Bishop, PieceKind::Knight, PieceKind::Rook],
                forall|s: int| 0 <= s < i ==> squares@[s] == start_piece(s),
            decreases 64 - i,
        {
            let r = i / 8;
            let f = i % 8;
            let piece = if r == 0 {
                Some(Piece { player: Player::White, kind: back[f] })
            } else if r == 1 {
                Some(Piece { player: Player::White, kind: PieceKind::Pawn })
            } else if r == 6 {
                Some(Piece { player: Player::Black, kind: PieceKind::Pawn })
            } else if r == 7 {
                Some(Piece { player: Player::Black, kind: back[f] })
            } else {
                None
            };
            squares[i] = piece;
            i = i + 1;
        }
        let board = Board::from_squares(squares);
        proof {
            assert(board.placement() =~= Seq::new(64, |s: int| start_piece(s)));
            lemma_start_count(board, 64);
        }
        Game::from_state(board, Player::White, [CastleRights::both(), CastleRights::both()], None, 0, 0)
    }

    /// The legal moves of the player to move.
    pub fn moves(&self) -> (moves: Vec<Move>)
        requires
            self.wf(),
            self.board.set_of(self.player, PieceKind::King).len() == 1,
        ensures
            forall|m: Move| #[trigger] moves@.contains(m) <==> legal_move(*self, true, m),
            moves@.no_duplicates(),
            promotions_in_order(moves@),
    {
        generate_moves::<true>(self)
    }

    /// The legal captures (and promotions) of the player to move.
    pub fn captures(&self) -> (moves: Vec<Move>)
        requires
            self.wf(),
            self.board.set_of(self.player, PieceKind::King).len() == 1,
        ensures
            forall|m: Move| #[trigger] moves@.contains(m) <==> legal_move(*self, false, m),
            moves@.no_duplicates(),
            promotions_in_order(moves@),
    {
        generate_moves::<false>(self)
    }

    /// Whether the king of the player to move is attacked.
    pub fn is_king_in_check(&self) -> (r: bool)
        requires self.board.set_of(self.player, PieceKind::King).len() == 1,
        ensures r == !checkers(*self).is_empty(),
    {
        let r = self.board.king_in_check(self.player);
        let king = self.board.king(self.player).single();
        proof {
            let k = king_square(self.board, self.player);
            assert(self.board.set_of(self.player, PieceKind::King).contains(king@));
            assert(self.board.set_of(self.player, PieceKind::King).contains(k));
            assert(k == king@);
        }
        r
    }

    /// Whether the position (by its hash) occurred before in the game.
    pub fn is_repeated_position(&self) -> (r: bool)
        ensures r == exists|i: int| 0 <= i < self.history@.len() && (#[trigger] self.history@[i]).zobrist == self.zobrist,
    {
        let mut i: usize = 0;
        while i < self.history.len()
            invariant
                i <= self.history@.len(),
                forall|j: int| 0 <= j < i ==> (#[trigger] self.history@[j]).zobrist != self.zobrist,
            decreases self.history@.len() - i,
        {
            if self.history[i].zobrist == self.zobrist {
                return true;
            }
            i = i + 1;
        }
        false
    }

    /// Whether the game is drawn by the fifty-move rule: fifty moves by each
    /// player passed without a capture or a pawn move, and the last of them
    /// did not checkmate.
    pub fn is_stalemate_by_fifty_move_rule(&self) -> (r: bool)
        requires
            self.wf(),
            self.board.set_of(self.player, PieceKind::King).len() == 1,
        ensures
            r == (self.halfmove_clock >= 100 && !(!checkers(*self).is_empty()
                && forall|m: Move| !#[trigger] legal_move(*self, true, m))),
    {
        if self.halfmove_clock < 100 {
            return false;
        }
        if !self.is_king_in_check() {
            return true;
        }
        let moves = self.moves();
        proof {
            if moves.len() > 0 {
                assert(moves@.contains(moves@[0]));
            } else {
                assert forall|m: Move| !#[trigger] legal_move(*self, true, m) by {
                    if legal_move(*self, true, m) {
                        assert(moves@.contains(m));
                    }
                }
            }
        }
        moves.len() > 0
    }

    /// Whether neither player has material left to mate: no pawn, rook or
    /// queen on the board, and at most one knight or bishop.
    pub fn is_stalemate_by_insufficient_material(&self) -> (r: bool)
        ensures
            r == (self.board.kind_set(PieceKind::Pawn).is_empty()
                && self.board.kind_set(PieceKind::Rook).is_empty()
                && self.board.kind_set(PieceKind::Queen).is_empty()
                && self.board.kind_set(PieceKind::Knight).len() + self.board.kind_set(PieceKind::Bishop).len() <= 1),
    {
        let heavy = self.board.all_pawns().or(self.board.all_rooks()).or(self.board.all_queens());
        if heavy.any() {
            proof {
                let s = heavy@.choose();
                assert(heavy@.contains(s));
            }
            return false;
        }
        let knights = self.board.all_knights().count();
        let bishops = self.board.all_bishops().count();
        proof {
            assert(self.board.kind_set(PieceKind::Pawn) =~= Set::empty());
            assert(self.board.kind_set(PieceKind::Rook) =~= Set::empty());
            assert(self.board.kind_set(PieceKind::Queen) =~= Set::empty());
        }
        knights as u16 + bishops as u16 <= 1
    }
}

/// Whether the game is drawn by rule: its position occurred before, fifty
/// moves by each player passed without a capture or a pawn move (and the
/// last of them did not mate), or no pawn, rook or queen is left and at
/// most one knight or bishop.
#[verifier::opaque]
pub open spec fn drawn_by_rule(g: Game) -> bool {
    ||| exists|i: int| 0 <= i < g.history@.len() && (#[trigger] g.history@[i]).zobrist == g.zobrist
    ||| (g.halfmove_clock >= 100 && !(!checkers(g).is_empty() && forall|m: Move| !#[trigger] legal_move(g, true, m)))
    ||| (g.board.kind_set(PieceKind::Pawn).is_empty()
        && g.board.kind_set(PieceKind::Rook).is_empty()
        && g.board.kind_set(PieceKind::Queen).is_empty()
        && g.board.kind_set(PieceKind::Knight).len() + g.board.kind_set(PieceKind::Bishop).len() <= 1)
}

/// Whether two games are in the same position, and so have the same legal
/// moves: the same board, player to move, castling rights and en passant
/// target.
pub open spec fn same_position(a: Game, b: Game) -> bool {
    &&& a.board == b.board
    &&& a.player == b.player
    &&& a.castle_rights == b.castle_rights
    &&& a.en_passant_target == b.en_passant_target
}

/// Whether two games are in the same state, history included.
pub open spec fn same_state(a: Game, b: Game) -> bool {
    &&& a.board == b.board
    &&& a.player == b.player
    &&& a.castle_rights == b.castle_rights
    &&& a.en_passant_target == b.en_passant_target
    &&& a.halfmove_clock == b.halfmove_clock
    &&& a.plies == b.plies
    &&& a.zobrist == b.zobrist
    &&& a.incremental_eval == b.incremental_eval
    &&& a.history@ == b.history@
}

/// Undoing a move (or a null move, `mv` being `None`) restores the game
/// exactly as it was before the move.
pub proof fn lemma_make_undo(before: Game, after: Game, restored: Game, mv: Option<Move>)
    requires
        after.history@ == before.history@.push(before.snapshot(mv)),
        restored.restores(after.history@.last()),
        restored.history@ == after.history@.drop_last(),
    ensures same_state(restored, before),
{
    assert(after.history@.drop_last() =~= before.history@);
}

} // verus!
