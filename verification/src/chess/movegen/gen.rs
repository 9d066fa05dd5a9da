//! Legal move generation.
//!
//! The player's king may not be left in check: when in check, a move must
//! capture the checking piece or block its line (the check mask); pinned
//! pieces may only move along their pin ray; the king may only step onto
//! squares that no enemy piece attacks once the king has left its square.

use vstd::prelude::*;
use crate::chess::bitboard::{Bitboard, all_squares, shift_set, forward_dr, rank_set};
use crate::chess::bitboard::bitboards::{self, castle_squares_spec, king_start_index};
use crate::chess::board::Board;
use crate::chess::game::Game;
use crate::chess::movegen::attackers::{attackers_spec, attackers_in, lemma_attackers_in, generate_attackers_of, lemma_attackers_ignore_target};
use crate::chess::movegen::pins::{get_pins, orthogonal_pins, diagonal_pins};
use crate::chess::movegen::tables::{self, between_set};
use crate::chess::movegen::tables::attacks::{
    bishop_attack_set, rook_attack_set, knight_attack_set, king_attack_set, pawn_attack_set,
};
use crate::chess::moves::{Move, promotion_flags, promotion_of_flags};
use crate::chess::piece::{Piece, PieceKind, PromotionPieceKind};
use crate::chess::player::Player;
use crate::chess::square::{Square, on_board};

verus! {

/// Whether a flag value is allowed for a move of a kind: no flags for an
/// ordinary move; for a promotion, a queen promotion, or any promotion when
/// `under` allows underpromotions.
pub open spec fn flags_ok(promotes: bool, under: bool, flags: int) -> bool {
    if promotes {
        flags == promotion_flags(PromotionPieceKind::Queen) || (under && (
            flags == promotion_flags(PromotionPieceKind::Rook)
            || flags == promotion_flags(PromotionPieceKind::Knight)
            || flags == promotion_flags(PromotionPieceKind::Bishop)))
    } else {
        flags == 0
    }
}

/// Two moves with the same fields are the same move.
pub proof fn lemma_move_fields_eq(a: Move, b: Move)
    requires
        a.src_spec() == b.src_spec(),
        a.dst_spec() == b.dst_spec(),
        a.flags_spec() == b.flags_spec(),
    ensures a == b,
{
    let x = a.0;
    let y = b.0;
    assert(x % 64 == y % 64 && (x / 64) % 64 == (y / 64) % 64 && x / 4096 == y / 4096 ==> x == y) by (bit_vector);
}

/// Pushing an element adds exactly that element to what a sequence contains.
pub proof fn lemma_push_contains<A>(s: Seq<A>, x: A)
    ensures forall|y: A| #[trigger] s.push(x).contains(y) <==> (s.contains(y) || y == x),
{
    assert forall|y: A| #[trigger] s.push(x).contains(y) <==> (s.contains(y) || y == x) by {
        if s.contains(y) {
            let j = choose|j: int| 0 <= j < s.len() && s[j] == y;
            assert(s.push(x)[j] == y);
        }
        if y == x {
            assert(s.push(x)[s.len() as int] == x);
        }
        if s.push(x).contains(y) {
            let j = choose|j: int| 0 <= j < s.push(x).len() && s.push(x)[j] == y;
            if j < s.len() {
                assert(s[j] == y);
            }
        }
    }
}

/// The place of a promotion in the order in which the four promotions of a
/// pawn move are listed: queen, rook, knight, bishop; -1 for other moves.
pub open spec fn promotion_rank(m: Move) -> int {
    match promotion_of_flags(m.flags_spec()) {
        Some(PromotionPieceKind::Queen) => 0,
        Some(PromotionPieceKind::Rook) => 1,
        Some(PromotionPieceKind::Knight) => 2,
        Some(PromotionPieceKind::Bishop) => 3,
        None => -1,
    }
}

/// Whether a move may be listed before another: unless both are
/// promotions between the same squares, in which case the first comes
/// earlier in the order queen, rook, knight, bishop.
pub open spec fn listed_before(a: Move, b: Move) -> bool {
    (a.src_spec() == b.src_spec() && a.dst_spec() == b.dst_spec() && promotion_rank(a) >= 0 && promotion_rank(b) >= 0)
        ==> promotion_rank(a) < promotion_rank(b)
}

/// The promotions of each pawn move are listed queen, rook, knight,
/// bishop.
pub open spec fn promotions_in_order(s: Seq<Move>) -> bool {
    forall|i: int, j: int| 0 <= i < j < s.len() ==> listed_before(#[trigger] s[i], #[trigger] s[j])
}

/// Appends one move unless it is listed already, and states what the moves
/// contain afterwards.
fn push_one(moves: &mut Vec<Move>, m: Move)
    requires old(moves)@.no_duplicates(),
    ensures
        forall|y: Move| #[trigger] final(moves)@.contains(y) <==> (old(moves)@.contains(y) || y == m),
        final(moves)@.no_duplicates(),
        promotions_in_order(old(moves)@) && (forall|x: Move| #[trigger] old(moves)@.contains(x) ==> listed_before(x, m))
            ==> promotions_in_order(final(moves)@),
{
    let mut i: usize = 0;
    while i < moves.len()
        invariant
            i <= moves@.len(),
            moves@ == old(moves)@,
            old(moves)@.no_duplicates(),
            forall|k: int| 0 <= k < i ==> moves@[k] != m,
        decreases moves@.len() - i,
    {
        if moves[i] == m {
            proof { assert(moves@[i as int] == m); }
            return;
        }
        i = i + 1;
    }
    proof { lemma_push_contains(old(moves)@, m); }
    moves.push(m);
    proof {
        let a = old(moves)@;
        if promotions_in_order(a) && (forall|x: Move| #[trigger] a.contains(x) ==> listed_before(x, m)) {
            assert forall|i: int, j: int| 0 <= i < j < moves@.len() implies listed_before(#[trigger] moves@[i], #[trigger] moves@[j]) by {
                if j == a.len() {
                    assert(a.contains(a[i]));
                } else {
                    assert(moves@[i] == a[i] && moves@[j] == a[j]);
                }
            }
        }
    }
}

/// No promotion from `src` to a square of `dsts` is listed.
pub open spec fn fresh_promotions(s: Seq<Move>, src: int, dsts: Set<int>) -> bool {
    forall|x: Move| #[trigger] s.contains(x) && promotion_rank(x) >= 0 && x.src_spec() == src ==> !dsts.contains(x.dst_spec())
}

/// No listed promotion goes where a piece of the class could promote on
/// the same squares.
pub open spec fn class_fresh(s: Seq<Move>, board: Board, sets: MoveSets, class: MoveClass) -> bool {
    forall|x: Move| #[trigger] s.contains(x) && promotion_rank(x) >= 0
        ==> !class_dests(board, sets, class, x.src_spec()).contains(x.dst_spec())
}

/// Appends the moves from `src` to each square of `dsts`: ordinary moves, or
/// promotions (to a queen, then to a rook, knight and bishop when `under`).
fn push_moves(moves: &mut Vec<Move>, src: Square, dsts: Bitboard, promotes: bool, under: bool)
    requires old(moves)@.no_duplicates(),
    ensures
        final(moves)@.no_duplicates(),
        forall|m: Move| #[trigger] final(moves)@.contains(m) <==> (old(moves)@.contains(m) || (
            m.src_spec() == src@ && dsts@.contains(m.dst_spec()) && flags_ok(promotes, under, m.flags_spec()))),
        promotions_in_order(old(moves)@) && (promotes ==> fresh_promotions(old(moves)@, src@, dsts@))
            ==> promotions_in_order(final(moves)@),
{
    let ghost ordered = promotions_in_order(old(moves)@) && (promotes ==> fresh_promotions(old(moves)@, src@, dsts@));
    let v = dsts.squares();
    let mut i: usize = 0;
    while i < v.len()
        invariant
            moves@.no_duplicates(),
            ordered ==> promotions_in_order(moves@),
            ordered == (promotions_in_order(old(moves)@) && (promotes ==> fresh_promotions(old(moves)@, src@, dsts@))),
            forall|j: int, k: int| 0 <= j < k < v.len() ==> v[j]@ < v[k]@,
            i <= v.len(),
            forall|k: int| 0 <= k < v.len() ==> dsts@.contains(#[trigger] v[k]@),
            forall|t: int| dsts@.contains(t) ==> exists|k: int| 0 <= k < v.len() && #[trigger] v[k]@ == t,
            forall|m: Move| #[trigger] moves@.contains(m) <==> (old(moves)@.contains(m) || (
                m.src_spec() == src@ && flags_ok(promotes, under, m.flags_spec())
                && exists|k: int| 0 <= k < i && #[trigger] v[k]@ == m.dst_spec())),
        decreases v.len() - i,
    {
        let d = v[i];
        let ghost before = moves@;
        proof {
            if ordered && promotes {
                assert forall|x: Move| #[trigger] before.contains(x) && promotion_rank(x) >= 0 && x.src_spec() == src@
                    implies x.dst_spec() != d@ by {
                    if !old(moves)@.contains(x) {
                        let k = choose|k: int| 0 <= k < i && #[trigger] v[k]@ == x.dst_spec();
                        assert(v[k]@ < v[i as int]@);
                    } else {
                        assert(dsts@.contains(v[i as int]@));
                    }
                }
            }
        }
        if promotes {
            let q = Move::quiet_promotion(src, d, PromotionPieceKind::Queen);
            proof {
                if ordered {
                    assert forall|x: Move| #[trigger] before.contains(x) implies listed_before(x, q) by {}
                }
            }
            push_one(moves, q);
            let ghost after_q = moves@;
            if under {
                let r = Move::quiet_promotion(src, d, PromotionPieceKind::Rook);
                proof {
                    if ordered {
                        assert forall|x: Move| #[trigger] after_q.contains(x) implies listed_before(x, r) by {
                            assert(after_q.contains(x) <==> (before.contains(x) || x == q));
                        }
                    }
                }
                push_one(moves, r);
                let ghost after_r = moves@;
                let n = Move::quiet_promotion(src, d, PromotionPieceKind::Knight);
                proof {
                    if ordered {
                        assert forall|x: Move| #[trigger] after_r.contains(x) implies listed_before(x, n) by {
                            assert(after_r.contains(x) <==> (after_q.contains(x) || x == r));
                            assert(after_q.contains(x) <==> (before.contains(x) || x == q));
                        }
                    }
                }
                push_one(moves, n);
                let ghost after_n = moves@;
                let b = Move::quiet_promotion(src, d, PromotionPieceKind::Bishop);
                proof {
                    if ordered {
                        assert forall|x: Move| #[trigger] after_n.contains(x) implies listed_before(x, b) by {
                            assert(after_n.contains(x) <==> (after_r.contains(x) || x == n));
                            assert(after_r.contains(x) <==> (after_q.contains(x) || x == r));
                            assert(after_q.contains(x) <==> (before.contains(x) || x == q));
                        }
                    }
                }
                push_one(moves, b);
                proof {
                    assert forall|m: Move| #[trigger] moves@.contains(m) <==> (before.contains(m) || m == q || m == r || m == n || m == b) by {
                        assert(after_q.contains(m) <==> (before.contains(m) || m == q));
                        assert(after_r.contains(m) <==> (after_q.contains(m) || m == r));
                        assert(after_n.contains(m) <==> (after_r.contains(m) || m == n));
                    }
                    assert forall|m: Move| m.src_spec() == src@ && m.dst_spec() == d@ && flags_ok(promotes, under, m.flags_spec())
                        implies (m == q || m == r || m == n || m == b) by {
                        if m.flags_spec() == q.flags_spec() { lemma_move_fields_eq(m, q); }
                        if m.flags_spec() == r.flags_spec() { lemma_move_fields_eq(m, r); }
                        if m.flags_spec() == n.flags_spec() { lemma_move_fields_eq(m, n); }
                        if m.flags_spec() == b.flags_spec() { lemma_move_fields_eq(m, b); }
                    }
                }
            } else {
                proof {
                    assert forall|m: Move| m.src_spec() == src@ && m.dst_spec() == d@ && flags_ok(promotes, under, m.flags_spec())
                        implies m == q by {
                        lemma_move_fields_eq(m, q);
                    }
                }
            }
        } else {
            let mv = Move::new(src, d);
            proof {
                if ordered {
                    assert forall|x: Move| #[trigger] before.contains(x) implies listed_before(x, mv) by {}
                }
            }
            push_one(moves, mv);
            proof {
                assert forall|m: Move| m.src_spec() == src@ && m.dst_spec() == d@ && flags_ok(promotes, under, m.flags_spec())
                    implies m == mv by {
                    lemma_move_fields_eq(m, mv);
                }
            }
        }
        proof {
            assert forall|m: Move| #[trigger] moves@.contains(m) <==> (old(moves)@.contains(m) || (
                m.src_spec() == src@ && flags_ok(promotes, under, m.flags_spec())
                && exists|k: int| 0 <= k < i + 1 && #[trigger] v[k]@ == m.dst_spec())) by {
                if m.src_spec() == src@ && flags_ok(promotes, under, m.flags_spec()) && m.dst_spec() == d@ {
                    assert(v[i as int]@ == m.dst_spec());
                }
                if exists|k: int| 0 <= k < i + 1 && #[trigger] v[k]@ == m.dst_spec() {
                    let k = choose|k: int| 0 <= k < i + 1 && #[trigger] v[k]@ == m.dst_spec();
                    if k == i {
                        assert(m.dst_spec() == d@);
                    }
                }
            }
        }
        i = i + 1;
    }
}

/// The sets that legal move generation works from.
pub struct MoveSets {
    pub player: Player,
    /// The squares of the opponent's pieces.
    pub them: Set<int>,
    /// The occupied squares.
    pub occ: Set<int>,
    /// The squares a move other than a king move must land on (or, for en
    /// passant, capture on) to deal with a check.
    pub mask: Set<int>,
    pub orth: Set<int>,
    pub diag: Set<int>,
    pub king: int,
    /// Whether quiet moves are generated as well as captures.
    pub quiet: bool,
}

/// The squares a move may land on: an enemy piece, or an empty square when
/// quiet moves are generated.
pub open spec fn targets(s: MoveSets) -> Set<int> {
    if s.quiet { s.them.union(all_squares().difference(s.occ)) } else { s.them }
}

/// The square `n` ranks forward of `sq` for the player.
pub open spec fn ahead(s: MoveSets, sq: int, n: int) -> int {
    sq + 8 * n * forward_dr(s.player)
}

/// The rank from which the player's pawns promote.
pub open spec fn promote_rank(player: Player) -> Set<int> {
    rank_set(if player == Player::White { 6 } else { 1 })
}

/// The rank on which the player's pawns start.
pub open spec fn start_rank(player: Player) -> Set<int> {
    rank_set(if player == Player::White { 1 } else { 6 })
}

/// The groups of moves that are generated alike from a set of source squares.
#[derive(Clone, Copy, PartialEq, Eq, Structural)]
pub enum MoveClass {
    PawnPromotionCapture,
    PawnPromotionPush,
    PawnCapture,
    PawnPush,
    PawnDoublePush,
    Knight,
    DiagonalSlider,
    OrthogonalSlider,
}

/// The empty squares that block a check (when in check).
pub open spec fn push_squares(s: MoveSets) -> Set<int> {
    all_squares().difference(s.occ).intersect(s.mask)
}

/// The pawns that may push one square: not pinned diagonally, with a free
/// square ahead in the check mask.
pub open spec fn single_pushers(board: Board, s: MoveSets) -> Set<int> {
    board.set_of(s.player, PieceKind::Pawn).difference(s.diag)
        .intersect(shift_set(push_squares(s), 0, -forward_dr(s.player)))
}

/// The pawns that may capture: not pinned orthogonally.
pub open spec fn capturers(board: Board, s: MoveSets) -> Set<int> {
    board.set_of(s.player, PieceKind::Pawn).difference(s.orth)
}

/// The squares from which moves of a class are generated.
pub open spec fn class_sources(board: Board, s: MoveSets, class: MoveClass) -> Set<int> {
    let p = s.player;
    match class {
        MoveClass::PawnPromotionCapture => capturers(board, s).intersect(promote_rank(p)),
        MoveClass::PawnPromotionPush => single_pushers(board, s).intersect(promote_rank(p)),
        MoveClass::PawnCapture => capturers(board, s).difference(promote_rank(p)),
        MoveClass::PawnPush => single_pushers(board, s).difference(promote_rank(p)),
        MoveClass::PawnDoublePush => board.set_of(p, PieceKind::Pawn).difference(s.diag)
            .intersect(start_rank(p))
            .difference(shift_set(s.occ, 0, -forward_dr(p)))
            .intersect(shift_set(shift_set(push_squares(s), 0, -forward_dr(p)), 0, -forward_dr(p))),
        MoveClass::Knight => board.set_of(p, PieceKind::Knight).difference(s.orth.union(s.diag)),
        MoveClass::DiagonalSlider => board.set_of(p, PieceKind::Bishop).union(board.set_of(p, PieceKind::Queen))
            .difference(s.orth),
        MoveClass::OrthogonalSlider => board.set_of(p, PieceKind::Rook).union(board.set_of(p, PieceKind::Queen))
            .difference(s.diag),
    }
}

/// The squares that a pinned piece may still move to.
pub open spec fn pin_limit(pins: Set<int>, sq: int) -> Set<int> {
    if pins.contains(sq) { pins } else { all_squares() }
}

/// The squares a pawn on `sq` may capture on.
pub open spec fn pawn_capture_dests(s: MoveSets, sq: int) -> Set<int> {
    pawn_attack_set(sq, s.player).intersect(pin_limit(s.diag, sq)).intersect(s.them).intersect(s.mask)
}

/// The square `n` ranks ahead, unless an orthogonal pin forbids going there.
pub open spec fn push_dest(s: MoveSets, sq: int, n: int) -> Set<int> {
    if !s.orth.contains(sq) || s.orth.contains(ahead(s, sq, n)) { set![ahead(s, sq, n)] } else { Set::empty() }
}

/// The squares that a piece of a class on `sq` moves to.
pub open spec fn class_dests(board: Board, s: MoveSets, class: MoveClass, sq: int) -> Set<int> {
    match class {
        MoveClass::PawnPromotionCapture => pawn_capture_dests(s, sq),
        MoveClass::PawnPromotionPush => if s.orth.contains(sq) { Set::empty() } else { set![ahead(s, sq, 1)] },
        MoveClass::PawnCapture => pawn_capture_dests(s, sq),
        MoveClass::PawnPush => push_dest(s, sq, 1),
        MoveClass::PawnDoublePush => push_dest(s, sq, 2),
        MoveClass::Knight => knight_attack_set(sq).intersect(s.mask).intersect(targets(s)),
        MoveClass::DiagonalSlider => bishop_attack_set(sq, s.occ).intersect(s.mask).intersect(pin_limit(s.diag, sq))
            .intersect(targets(s)),
        MoveClass::OrthogonalSlider => rook_attack_set(sq, s.occ).intersect(s.mask).intersect(pin_limit(s.orth, sq))
            .intersect(targets(s)),
    }
}

/// Whether moves of a class are promotions.
pub open spec fn class_promotes(class: MoveClass) -> bool {
    class == MoveClass::PawnPromotionCapture || class == MoveClass::PawnPromotionPush
}

/// Whether underpromotions are generated for a class: always for captures,
/// and for pushes only with the quiet moves.
pub open spec fn class_under(s: MoveSets, class: MoveClass) -> bool {
    class == MoveClass::PawnPromotionCapture || s.quiet
}

/// Whether `m` is one of the moves of a class.
pub open spec fn class_move(board: Board, s: MoveSets, class: MoveClass, m: Move) -> bool {
    &&& class_sources(board, s, class).contains(m.src_spec())
    &&& class_dests(board, s, class, m.src_spec()).contains(m.dst_spec())
    &&& flags_ok(class_promotes(class), class_under(s, class), m.flags_spec())
}

/// What move generation keeps at hand while it runs.
pub struct MoveGenContext {
    pub player: Player,
    pub their_pieces: Bitboard,
    pub all_pieces: Bitboard,
    pub check_mask: Bitboard,
    pub orthogonal_pins: Bitboard,
    pub diagonal_pins: Bitboard,
    pub king: Square,
    pub quiet: bool,
}

impl MoveGenContext {
    pub open spec fn sets(self) -> MoveSets {
        MoveSets {
            player: self.player,
            them: self.their_pieces@,
            occ: self.all_pieces@,
            mask: self.check_mask@,
            orth: self.orthogonal_pins@,
            diag: self.diagonal_pins@,
            king: self.king@,
            quiet: self.quiet,
        }
    }

    /// The context describes the board.
    pub open spec fn wf(self, board: Board) -> bool {
        &&& self.their_pieces@ == board.player_set(self.player.opponent())
        &&& self.all_pieces@ == board.occupied_set()
    }
}

/// The source squares of a class, as a set of squares.
fn class_sources_exec(board: &Board, ctx: &MoveGenContext, class: MoveClass) -> (r: Bitboard)
    requires ctx.wf(*board),
    ensures r@ =~= class_sources(*board, ctx.sets(), class),
{
    let p = ctx.player;
    let pawns = board.pawns(p);
    let empty_in_mask = ctx.all_pieces.invert().and(ctx.check_mask);
    let promote = bitboards::pawn_back_rank(p.other());
    proof { crate::chess::player::lemma_other_involutive(p); }
    match class {
        MoveClass::PawnPromotionCapture => pawns.without(ctx.orthogonal_pins).and(promote),
        MoveClass::PawnPromotionPush => pawns.without(ctx.diagonal_pins).and(empty_in_mask.backward(p)).and(promote),
        MoveClass::PawnCapture => pawns.without(ctx.orthogonal_pins).without(promote),
        MoveClass::PawnPush => pawns.without(ctx.diagonal_pins).and(empty_in_mask.backward(p)).without(promote),
        MoveClass::PawnDoublePush => pawns.without(ctx.diagonal_pins)
            .and(bitboards::pawn_back_rank(p))
            .without(ctx.all_pieces.backward(p))
            .and(empty_in_mask.backward(p).backward(p)),
        MoveClass::Knight => board.knights(p).without(ctx.orthogonal_pins.or(ctx.diagonal_pins)),
        MoveClass::DiagonalSlider => board.diagonal_sliders(p).without(ctx.orthogonal_pins),
        MoveClass::OrthogonalSlider => board.orthogonal_sliders(p).without(ctx.diagonal_pins),
    }
}

/// The squares a move may land on, as a set of squares.
fn targets_exec(ctx: &MoveGenContext) -> (r: Bitboard)
    ensures r@ =~= targets(ctx.sets()),
{
    if ctx.quiet { ctx.their_pieces.or(ctx.all_pieces.invert()) } else { ctx.their_pieces }
}

/// The squares that a pinned piece may still move to, as a set of squares.
fn pin_limit_exec(pins: Bitboard, sq: Square) -> (r: Bitboard)
    ensures r@ =~= pin_limit(pins@, sq@),
{
    if pins.contains(sq) { pins } else { Bitboard::full() }
}

/// The destination squares of a piece of a class, as a set of squares.
fn class_dests_exec(board: &Board, ctx: &MoveGenContext, class: MoveClass, sq: Square) -> (r: Bitboard)
    requires
        ctx.wf(*board),
        class_sources(*board, ctx.sets(), class).contains(sq@),
    ensures r@ =~= class_dests(*board, ctx.sets(), class, sq@),
{
    let p = ctx.player;
    match class {
        MoveClass::PawnPromotionCapture | MoveClass::PawnCapture => tables::pawn_attacks(sq, p)
            .and(pin_limit_exec(ctx.diagonal_pins, sq)).and(ctx.their_pieces).and(ctx.check_mask),
        MoveClass::PawnPromotionPush => {
            let ahead1 = sq.forward(p);
            if ctx.orthogonal_pins.contains(sq) { Bitboard::empty() } else { ahead1.bb() }
        },
        MoveClass::PawnPush => {
            let ahead1 = sq.forward(p);
            if !ctx.orthogonal_pins.contains(sq) || ctx.orthogonal_pins.contains(ahead1) {
                ahead1.bb()
            } else {
                Bitboard::empty()
            }
        },
        MoveClass::PawnDoublePush => {
            let ahead1 = sq.forward(p);
            let ahead2 = ahead1.forward(p);
            if !ctx.orthogonal_pins.contains(sq) || ctx.orthogonal_pins.contains(ahead2) {
                ahead2.bb()
            } else {
                Bitboard::empty()
            }
        },
        MoveClass::Knight => tables::knight_attacks(sq).and(ctx.check_mask).and(targets_exec(ctx)),
        MoveClass::DiagonalSlider => tables::bishop_attacks(sq, ctx.all_pieces).and(ctx.check_mask)
            .and(pin_limit_exec(ctx.diagonal_pins, sq)).and(targets_exec(ctx)),
        MoveClass::OrthogonalSlider => tables::rook_attacks(sq, ctx.all_pieces).and(ctx.check_mask)
            .and(pin_limit_exec(ctx.orthogonal_pins, sq)).and(targets_exec(ctx)),
    }
}

/// Appends the moves of a class: for each source square in increasing
/// order, its captures and then its moves to empty squares.
fn push_class_moves(moves: &mut Vec<Move>, board: &Board, ctx: &MoveGenContext, class: MoveClass)
    requires
        ctx.wf(*board),
        old(moves)@.no_duplicates(),
    ensures
        final(moves)@.no_duplicates(),
        forall|m: Move| #[trigger] final(moves)@.contains(m) <==> (old(moves)@.contains(m) || class_move(*board, ctx.sets(), class, m)),
        promotions_in_order(old(moves)@) && (class_promotes(class) ==> class_fresh(old(moves)@, *board, ctx.sets(), class))
            ==> promotions_in_order(final(moves)@),
{
    let sources = class_sources_exec(board, ctx, class);
    let srcs = sources.squares();
    let promotes = class == MoveClass::PawnPromotionCapture || class == MoveClass::PawnPromotionPush;
    let under = class == MoveClass::PawnPromotionCapture || ctx.quiet;
    let ghost sets = ctx.sets();
    let ghost ordered = promotions_in_order(old(moves)@) && (class_promotes(class) ==> class_fresh(old(moves)@, *board, ctx.sets(), class));
    let mut i: usize = 0;
    while i < srcs.len()
        invariant
            moves@.no_duplicates(),
            i <= srcs.len(),
            ctx.wf(*board),
            sets == ctx.sets(),
            ordered == (promotions_in_order(old(moves)@) && (class_promotes(class) ==> class_fresh(old(moves)@, *board, sets, class))),
            ordered ==> promotions_in_order(moves@),
            forall|j: int, k: int| 0 <= j < k < srcs.len() ==> srcs[j]@ < srcs[k]@,
            sources@ =~= class_sources(*board, sets, class),
            promotes == class_promotes(class),
            under == class_under(sets, class),
            forall|k: int| 0 <= k < srcs.len() ==> sources@.contains(#[trigger] srcs[k]@),
            forall|t: int| sources@.contains(t) ==> exists|k: int| 0 <= k < srcs.len() && #[trigger] srcs[k]@ == t,
            forall|m: Move| #[trigger] moves@.contains(m) <==> (old(moves)@.contains(m) || (
                class_dests(*board, sets, class, m.src_spec()).contains(m.dst_spec())
                && flags_ok(promotes, under, m.flags_spec())
                && exists|k: int| 0 <= k < i && #[trigger] srcs[k]@ == m.src_spec())),
        decreases srcs.len() - i,
    {
        let sq = srcs[i];
        assert(sources@.contains(srcs[i as int]@));
        let dests = class_dests_exec(board, ctx, class, sq);
        let ghost before = moves@;
        let d1 = dests.and(ctx.their_pieces);
        proof {
            if ordered && promotes {
                assert forall|x: Move| #[trigger] before.contains(x) && promotion_rank(x) >= 0 && x.src_spec() == sq@
                    implies !d1@.contains(x.dst_spec()) by {
                    if !old(moves)@.contains(x) {
                        let k = choose|k: int| 0 <= k < i && #[trigger] srcs[k]@ == x.src_spec();
                        assert(srcs[k]@ < srcs[i as int]@);
                    } else {
                        assert(!class_dests(*board, sets, class, x.src_spec()).contains(x.dst_spec()));
                    }
                }
            }
        }
        push_moves(moves, sq, d1, promotes, under);
        let ghost middle = moves@;
        let d2 = dests.without(ctx.their_pieces);
        proof {
            if ordered && promotes {
                assert forall|x: Move| #[trigger] middle.contains(x) && promotion_rank(x) >= 0 && x.src_spec() == sq@
                    implies !d2@.contains(x.dst_spec()) by {
                    if before.contains(x) {
                        if !old(moves)@.contains(x) {
                            let k = choose|k: int| 0 <= k < i && #[trigger] srcs[k]@ == x.src_spec();
                            assert(srcs[k]@ < srcs[i as int]@);
                        } else {
                            assert(!class_dests(*board, sets, class, x.src_spec()).contains(x.dst_spec()));
                        }
                    } else {
                        assert(d1@.contains(x.dst_spec()));
                    }
                }
            }
        }
        push_moves(moves, sq, d2, promotes, under);
        proof {
            assert forall|m: Move| #[trigger] moves@.contains(m) <==> (old(moves)@.contains(m) || (
                class_dests(*board, sets, class, m.src_spec()).contains(m.dst_spec())
                && flags_ok(promotes, under, m.flags_spec())
                && exists|k: int| 0 <= k < i + 1 && #[trigger] srcs[k]@ == m.src_spec())) by {
                assert(middle.contains(m) <==> (before.contains(m) || (m.src_spec() == sq@
                    && dests@.intersect(ctx.their_pieces@).contains(m.dst_spec()) && flags_ok(promotes, under, m.flags_spec()))));
                if m.src_spec() == sq@ {
                    assert(srcs[i as int]@ == m.src_spec());
                }
                if exists|k: int| 0 <= k < i + 1 && #[trigger] srcs[k]@ == m.src_spec() {
                    let k = choose|k: int| 0 <= k < i + 1 && #[trigger] srcs[k]@ == m.src_spec();
                    if k == i {
                        assert(m.src_spec() == sq@);
                    }
                }
            }
        }
        i = i + 1;
    }
    proof {
        assert forall|m: Move| #[trigger] moves@.contains(m) <==> (old(moves)@.contains(m) || class_move(*board, sets, class, m)) by {
            if class_sources(*board, sets, class).contains(m.src_spec()) {
                let k = choose|k: int| 0 <= k < srcs.len() && #[trigger] srcs[k]@ == m.src_spec();
                assert(srcs[k]@ == m.src_spec());
            }
            if exists|k: int| 0 <= k < srcs.len() && #[trigger] srcs[k]@ == m.src_spec() {
                let k = choose|k: int| 0 <= k < srcs.len() && #[trigger] srcs[k]@ == m.src_spec();
                assert(sources@.contains(srcs[k]@));
            }
        }
    }
}

/// The placement of the board with the pieces on `squares` lifted off.
pub open spec fn lift(board: Board, squares: Set<int>) -> Seq<Option<Piece>> {
    Seq::new(64, |i: int| if squares.contains(i) { None } else { board.placement()[i] })
}

/// Whether no enemy piece attacks `target` once the pieces on `squares`
/// are lifted off the board.
pub open spec fn safe_without(board: Board, player: Player, squares: Set<int>, target: int) -> bool {
    attackers_in(lift(board, squares), player, target).is_empty()
}

/// Whether `m` is a king move: a step onto a target square that no enemy
/// piece attacks once the king has left its square.
pub open spec fn king_move(board: Board, s: MoveSets, m: Move) -> bool {
    &&& m.src_spec() == s.king
    &&& king_attack_set(s.king).intersect(targets(s)).contains(m.dst_spec())
    &&& safe_without(board, s.player, set![s.king], m.dst_spec())
    &&& m.flags_spec() == 0
}

/// The squares of `cands` that no enemy piece attacks in a placement.
pub open spec fn unattacked(pl: Seq<Option<Piece>>, player: Player, cands: Set<int>) -> Set<int> {
    cands.filter(|d: int| attackers_in(pl, player, d).is_empty())
}

/// The squares of `cands` that no enemy piece attacks on the board `lifted`.
fn safe_squares(lifted: &Board, player: Player, cands: Bitboard) -> (r: Bitboard)
    ensures
        r@ =~= unattacked(lifted.placement(), player, cands@),
{
    let v = cands.squares();
    let mut r = Bitboard::empty();
    let mut i: usize = 0;
    while i < v.len()
        invariant
            i <= v.len(),
            forall|k: int| 0 <= k < v.len() ==> cands@.contains(#[trigger] v[k]@),
            forall|t: int| cands@.contains(t) ==> exists|k: int| 0 <= k < v.len() && #[trigger] v[k]@ == t,
            forall|t: int| r@.contains(t) <==> (attackers_in(lifted.placement(), player, t).is_empty()
                && exists|k: int| 0 <= k < i && #[trigger] v[k]@ == t),
        decreases v.len() - i,
    {
        let d = v[i];
        let attackers = generate_attackers_of(lifted, player, d);
        proof { lemma_attackers_in(*lifted, player, d@); }
        let ghost old_r = r@;
        if attackers.is_empty() {
            r.set_inplace(d);
        }
        proof {
            assert forall|t: int| r@.contains(t) <==> (attackers_in(lifted.placement(), player, t).is_empty()
                && exists|k: int| 0 <= k < i + 1 && #[trigger] v[k]@ == t) by {
                if t == d@ {
                    assert(v[i as int]@ == t);
                }
                if exists|k: int| 0 <= k < i + 1 && #[trigger] v[k]@ == t {
                    let k = choose|k: int| 0 <= k < i + 1 && #[trigger] v[k]@ == t;
                    if k == i {
                        assert(t == d@);
                    }
                }
            }
        }
        i = i + 1;
    }
    proof {
        assert forall|t: int| r@.contains(t) <==> #[trigger] unattacked(lifted.placement(), player, cands@).contains(t) by {
            if cands@.contains(t) {
                let k = choose|k: int| 0 <= k < v.len() && #[trigger] v[k]@ == t;
                assert(v[k]@ == t);
            }
            if exists|k: int| 0 <= k < v.len() && #[trigger] v[k]@ == t {
                let k = choose|k: int| 0 <= k < v.len() && #[trigger] v[k]@ == t;
                assert(cands@.contains(v[k]@));
            }
        }
    }
    r
}

/// Appends the king's moves: captures first, then steps onto empty squares.
fn generate_king_moves(moves: &mut Vec<Move>, board: &Board, ctx: &MoveGenContext)
    requires
        ctx.wf(*board),
        old(moves)@.no_duplicates(),
    ensures
        final(moves)@.no_duplicates(),
        forall|m: Move| #[trigger] final(moves)@.contains(m) <==> (old(moves)@.contains(m) || king_move(*board, ctx.sets(), m)),
        promotions_in_order(old(moves)@) ==> promotions_in_order(final(moves)@),
{
    let king = ctx.king;
    let destinations = tables::king_attacks(king);
    // Squares behind the king, seen from a slider, are not safe: look at
    // the board with the king lifted off.
    let _ = king.idx();
    let mut board_without_king = *board;
    let ghost b0 = board_without_king;
    let _ = board_without_king.remove_at(king);
    proof {
        assert(b0 == *board);
        board.lemma_placement_len();
        assert(board_without_king.placement() == board.placement().update(king@, None));
        assert(board_without_king.placement().len() == 64);
        assert(lift(*board, set![king@]).len() == 64);
        assert forall|i: int| 0 <= i < 64 implies board_without_king.placement()[i] == #[trigger] lift(*board, set![king@])[i] by {
            if i == king@ {
                assert(set![king@].contains(i));
            } else {
                assert(!set![king@].contains(i));
            }
        }
        assert(board_without_king.placement() =~= lift(*board, set![king@]));
    }
    let captures = safe_squares(&board_without_king, ctx.player, destinations.and(ctx.their_pieces));
    let ghost before = moves@;
    push_moves(moves, king, captures, false, false);
    let ghost middle = moves@;
    if ctx.quiet {
        let quiets = safe_squares(&board_without_king, ctx.player, destinations.without(ctx.all_pieces));
        push_moves(moves, king, quiets, false, false);
    }
    proof {
        assert forall|m: Move| #[trigger] moves@.contains(m) <==> (old(moves)@.contains(m) || king_move(*board, ctx.sets(), m)) by {
            assert(middle.contains(m) <==> (before.contains(m) || (m.src_spec() == king@ && captures@.contains(m.dst_spec()) && m.flags_spec() == 0)));
        }
    }
}

/// Whether `m` captures en passant: a pawn not pinned orthogonally that
/// attacks the target square, which (or whose captured pawn) deals with any
/// check, moving along its diagonal pin if it has one, and not revealing
/// an attack on its king when both pawns leave the board.
pub open spec fn en_passant_move(board: Board, ep: Option<Square>, s: MoveSets, m: Move) -> bool {
    match ep {
        None => false,
        Some(t) => {
            let captured = ahead(s, t@, -1);
            &&& m.dst_spec() == t@
            &&& m.flags_spec() == 0
            &&& (s.mask.contains(t@) || s.mask.contains(captured))
            &&& capturers(board, s).contains(m.src_spec())
            &&& pawn_attack_set(t@, s.player.opponent()).contains(m.src_spec())
            &&& (!s.diag.contains(m.src_spec()) || s.diag.contains(t@))
            &&& safe_without(board, s.player, set![m.src_spec(), captured], s.king)
        },
    }
}

/// Appends the en passant captures.
fn generate_en_passant(moves: &mut Vec<Move>, board: &Board, ep: Option<Square>, ctx: &MoveGenContext)
    requires
        old(moves)@.no_duplicates(),
        ctx.wf(*board),
        ep matches Some(t) ==> (8 <= t@ < 56),
    ensures
        final(moves)@.no_duplicates(),
        forall|m: Move| #[trigger] final(moves)@.contains(m) <==> (old(moves)@.contains(m) || en_passant_move(*board, ep, ctx.sets(), m)),
        promotions_in_order(old(moves)@) ==> promotions_in_order(final(moves)@),
{
    let Some(target) = ep else {
        return;
    };
    let p = ctx.player;
    let captured_pawn = target.backward(p);
    if ctx.check_mask.and(target.bb().or(captured_pawn.bb())).is_empty() {
        proof {
            assert(!ctx.check_mask@.intersect(set![target@].union(set![captured_pawn@])).contains(target@));
            assert(!ctx.check_mask@.intersect(set![target@].union(set![captured_pawn@])).contains(captured_pawn@));
        }
        return;
    }
    let potential = board.pawns(p).without(ctx.orthogonal_pins).and(tables::pawn_attacks(target, p.other()));
    let v = potential.squares();
    let mut i: usize = 0;
    while i < v.len()
        invariant
            moves@.no_duplicates(),
            i <= v.len(),
            forall|k: int| 0 <= k < v.len() ==> potential@.contains(#[trigger] v[k]@),
            forall|t: int| potential@.contains(t) ==> exists|k: int| 0 <= k < v.len() && #[trigger] v[k]@ == t,
            potential@ =~= capturers(*board, ctx.sets()).intersect(pawn_attack_set(target@, p.opponent())),
            captured_pawn@ == ahead(ctx.sets(), target@, -1),
            ctx.check_mask@.contains(target@) || ctx.check_mask@.contains(captured_pawn@),
            ep == Some(target),
            p == ctx.player,
            promotions_in_order(old(moves)@) ==> promotions_in_order(moves@),
            forall|m: Move| #[trigger] moves@.contains(m) <==> (old(moves)@.contains(m) || (
                en_passant_move(*board, ep, ctx.sets(), m) && exists|k: int| 0 <= k < i && #[trigger] v[k]@ == m.src_spec())),
        decreases v.len() - i,
    {
        let src = v[i];
        let ghost before = moves@;
        if !ctx.diagonal_pins.contains(src) || ctx.diagonal_pins.contains(target) {
            // Taking en passant lifts two pawns off one rank, which may
            // open a line onto the king.
            let mut lifted = *board;
            let _ = lifted.remove_at(src);
            let _ = lifted.remove_at(captured_pawn);
            proof {
                board.lemma_placement_len();
                assert(lifted.placement() =~= lift(*board, set![src@, captured_pawn@]));
                lemma_attackers_in(lifted, p, ctx.king@);
            }
            let king_in_check = generate_attackers_of(&lifted, p, ctx.king).any();
            if !king_in_check {
                let mv = Move::new(src, target);
                proof {
                    assert forall|x: Move| #[trigger] moves@.contains(x) implies listed_before(x, mv) by {}
                }
                push_one(moves, mv);
                proof {
                    assert forall|m: Move| m.src_spec() == src@ && m.dst_spec() == target@ && m.flags_spec() == 0 implies m == mv by {
                        lemma_move_fields_eq(m, mv);
                    }
                }
            }
        }
        proof {
            assert forall|m: Move| #[trigger] moves@.contains(m) <==> (old(moves)@.contains(m) || (
                en_passant_move(*board, ep, ctx.sets(), m) && exists|k: int| 0 <= k < i + 1 && #[trigger] v[k]@ == m.src_spec())) by {
                if m.src_spec() == src@ {
                    assert(v[i as int]@ == m.src_spec());
                    assert(potential@.contains(src@));
                }
                if exists|k: int| 0 <= k < i + 1 && #[trigger] v[k]@ == m.src_spec() {
                    let k = choose|k: int| 0 <= k < i + 1 && #[trigger] v[k]@ == m.src_spec();
                    if k == i {
                        assert(m.src_spec() == src@);
                    }
                }
            }
        }
        i = i + 1;
    }
    proof {
        assert forall|m: Move| #[trigger] moves@.contains(m) <==> (old(moves)@.contains(m) || en_passant_move(*board, ep, ctx.sets(), m)) by {
            if en_passant_move(*board, ep, ctx.sets(), m) {
                assert(potential@.contains(m.src_spec()));
                let k = choose|k: int| 0 <= k < v.len() && #[trigger] v[k]@ == m.src_spec();
                assert(v[k]@ == m.src_spec());
            }
        }
    }
}

/// Whether the player may castle on a side: the right is kept, the squares
/// between king and rook are empty, and no enemy piece attacks the square
/// the king passes over or the one it lands on.
pub open spec fn castle_ok(game: Game, kingside: bool) -> bool {
    let p = game.player;
    let rights = game.castle_rights[p.idx()];
    let (empty, target, middle) = castle_squares_spec(kingside, p);
    &&& (if kingside { rights.king_side } else { rights.queen_side })
    &&& empty.intersect(game.board.occupied_set()).is_empty()
    &&& attackers_spec(game.board, p, middle).is_empty()
    &&& attackers_spec(game.board, p, target).is_empty()
}

/// Whether `m` is a castling move: the king's step of two files from its
/// starting square on a side where castling is allowed.
pub open spec fn castle_move(game: Game, m: Move) -> bool {
    &&& m.flags_spec() == 0
    &&& m.src_spec() == king_start_index(game.player)
    &&& ((castle_ok(game, true) && m.dst_spec() == castle_squares_spec(true, game.player).1)
        || (castle_ok(game, false) && m.dst_spec() == castle_squares_spec(false, game.player).1))
}

/// Appends the castling move on one side, if it is allowed.
fn generate_castle_move_for_side<const KINGSIDE: bool>(moves: &mut Vec<Move>, game: &Game, all_pieces: Bitboard)
    requires
        all_pieces@ == game.board.occupied_set(),
        old(moves)@.no_duplicates(),
    ensures
        final(moves)@.no_duplicates(),
        forall|m: Move| #[trigger] final(moves)@.contains(m) <==> (old(moves)@.contains(m) || (
            castle_ok(*game, KINGSIDE) && m.flags_spec() == 0 && m.src_spec() == king_start_index(game.player)
            && m.dst_spec() == castle_squares_spec(KINGSIDE, game.player).1)),
        promotions_in_order(old(moves)@) ==> promotions_in_order(final(moves)@),
{
    let p = game.player;
    let allowed = if KINGSIDE {
        game.castle_rights[p.array_idx()].king_side
    } else {
        game.castle_rights[p.array_idx()].queen_side
    };
    let king_start_square = match p {
        Player::White => Square::from_index(4),
        Player::Black => Square::from_index(60),
    };
    let (required_empty_squares, target_square, middle_square) = bitboards::castle_squares::<KINGSIDE>(p);
    if allowed && required_empty_squares.and(all_pieces).is_empty()
        && generate_attackers_of(&game.board, p, middle_square).is_empty()
        && generate_attackers_of(&game.board, p, target_square).is_empty()
    {
        let mv = Move::new(king_start_square, target_square);
        push_one(moves, mv);
        proof {
            assert forall|m: Move| m.flags_spec() == 0 && m.src_spec() == king_start_index(p)
                && m.dst_spec() == target_square@ implies m == mv by {
                lemma_move_fields_eq(m, mv);
            }
        }
    }
}

/// Appends the castling moves that are allowed.
fn generate_castles(moves: &mut Vec<Move>, game: &Game, all_pieces: Bitboard)
    requires
        all_pieces@ == game.board.occupied_set(),
        old(moves)@.no_duplicates(),
    ensures
        final(moves)@.no_duplicates(),
        forall|m: Move| #[trigger] final(moves)@.contains(m) <==> (old(moves)@.contains(m) || castle_move(*game, m)),
        promotions_in_order(old(moves)@) ==> promotions_in_order(final(moves)@),
{
    let ghost before = moves@;
    generate_castle_move_for_side::<true>(moves, game, all_pieces);
    let ghost middle = moves@;
    generate_castle_move_for_side::<false>(moves, game, all_pieces);
    proof {
        assert forall|m: Move| #[trigger] moves@.contains(m) <==> (before.contains(m) || castle_move(*game, m)) by {
            assert(middle.contains(m) <==> (before.contains(m) || (castle_ok(*game, true) && m.flags_spec() == 0
                && m.src_spec() == king_start_index(game.player) && m.dst_spec() == castle_squares_spec(true, game.player).1)));
        }
    }
}

/// Appends the pawn moves: promotions by capture, promotions by push,
/// captures, captures en passant and, with the quiet moves, single and
/// double pushes.
fn generate_pawn_moves(moves: &mut Vec<Move>, board: &Board, ep: Option<Square>, ctx: &MoveGenContext)
    requires
        old(moves)@.no_duplicates(),
        ctx.wf(*board),
        ep matches Some(t) ==> (8 <= t@ < 56),
    ensures
        final(moves)@.no_duplicates(),
        forall|m: Move| #[trigger] final(moves)@.contains(m) <==> (old(moves)@.contains(m)
            || class_move(*board, ctx.sets(), MoveClass::PawnPromotionCapture, m)
            || class_move(*board, ctx.sets(), MoveClass::PawnPromotionPush, m)
            || class_move(*board, ctx.sets(), MoveClass::PawnCapture, m)
            || en_passant_move(*board, ep, ctx.sets(), m)
            || (ctx.quiet && class_move(*board, ctx.sets(), MoveClass::PawnPush, m))
            || (ctx.quiet && class_move(*board, ctx.sets(), MoveClass::PawnDoublePush, m))),
        promotions_in_order(old(moves)@) && (forall|x: Move| #[trigger] old(moves)@.contains(x) ==> promotion_rank(x) < 0)
            ==> promotions_in_order(final(moves)@),
{
    let ghost m0 = moves@;
    push_class_moves(moves, board, ctx, MoveClass::PawnPromotionCapture);
    let ghost m1 = moves@;
    push_class_moves(moves, board, ctx, MoveClass::PawnPromotionPush);
    let ghost m2 = moves@;
    push_class_moves(moves, board, ctx, MoveClass::PawnCapture);
    let ghost m3 = moves@;
    generate_en_passant(moves, board, ep, ctx);
    let ghost m4 = moves@;
    if ctx.quiet {
        push_class_moves(moves, board, ctx, MoveClass::PawnPush);
        let ghost m5 = moves@;
        push_class_moves(moves, board, ctx, MoveClass::PawnDoublePush);
        proof {
            assert forall|m: Move| #[trigger] moves@.contains(m) implies m5.contains(m) || class_move(*board, ctx.sets(), MoveClass::PawnDoublePush, m) by {}
        }
    }
    proof {
        assert forall|m: Move| #[trigger] moves@.contains(m) <==> (m0.contains(m)
            || class_move(*board, ctx.sets(), MoveClass::PawnPromotionCapture, m)
            || class_move(*board, ctx.sets(), MoveClass::PawnPromotionPush, m)
            || class_move(*board, ctx.sets(), MoveClass::PawnCapture, m)
            || en_passant_move(*board, ep, ctx.sets(), m)
            || (ctx.quiet && class_move(*board, ctx.sets(), MoveClass::PawnPush, m))
            || (ctx.quiet && class_move(*board, ctx.sets(), MoveClass::PawnDoublePush, m))) by {
            assert(m1.contains(m) <==> (m0.contains(m) || class_move(*board, ctx.sets(), MoveClass::PawnPromotionCapture, m)));
            assert(m2.contains(m) <==> (m1.contains(m) || class_move(*board, ctx.sets(), MoveClass::PawnPromotionPush, m)));
            assert(m3.contains(m) <==> (m2.contains(m) || class_move(*board, ctx.sets(), MoveClass::PawnCapture, m)));
            assert(m4.contains(m) <==> (m3.contains(m) || en_passant_move(*board, ep, ctx.sets(), m)));
        }
    }
}

/// Appends the knight moves: pinned knights cannot move.
fn generate_knight_moves(moves: &mut Vec<Move>, board: &Board, ctx: &MoveGenContext)
    requires
        ctx.wf(*board),
        old(moves)@.no_duplicates(),
    ensures
        final(moves)@.no_duplicates(),
        forall|m: Move| #[trigger] final(moves)@.contains(m) <==> (old(moves)@.contains(m) || class_move(*board, ctx.sets(), MoveClass::Knight, m)),
        promotions_in_order(old(moves)@) ==> promotions_in_order(final(moves)@),
{
    push_class_moves(moves, board, ctx, MoveClass::Knight);
}

/// Appends the bishop and queen moves along diagonals.
fn generate_diagonal_slider_moves(moves: &mut Vec<Move>, board: &Board, ctx: &MoveGenContext)
    requires
        ctx.wf(*board),
        old(moves)@.no_duplicates(),
    ensures
        final(moves)@.no_duplicates(),
        forall|m: Move| #[trigger] final(moves)@.contains(m) <==> (old(moves)@.contains(m) || class_move(*board, ctx.sets(), MoveClass::DiagonalSlider, m)),
        promotions_in_order(old(moves)@) ==> promotions_in_order(final(moves)@),
{
    push_class_moves(moves, board, ctx, MoveClass::DiagonalSlider);
}

/// Appends the rook and queen moves along ranks and files.
fn generate_orthogonal_slider_moves(moves: &mut Vec<Move>, board: &Board, ctx: &MoveGenContext)
    requires
        ctx.wf(*board),
        old(moves)@.no_duplicates(),
    ensures
        final(moves)@.no_duplicates(),
        forall|m: Move| #[trigger] final(moves)@.contains(m) <==> (old(moves)@.contains(m) || class_move(*board, ctx.sets(), MoveClass::OrthogonalSlider, m)),
        promotions_in_order(old(moves)@) ==> promotions_in_order(final(moves)@),
{
    push_class_moves(moves, board, ctx, MoveClass::OrthogonalSlider);
}

/// The square of the player's king, on a board where the player has one king.
pub open spec fn king_square(board: Board, player: Player) -> int {
    choose|k: int| board.set_of(player, PieceKind::King).contains(k)
}

/// The squares of the enemy pieces that give check.
pub open spec fn checkers(game: Game) -> Set<int> {
    attackers_spec(game.board, game.player, king_square(game.board, game.player))
}

/// The squares that a move must land on to deal with a check: with one
/// checker, its square and the squares between it and the king; with none,
/// every square.
pub open spec fn check_mask(game: Game) -> Set<int> {
    let c = checkers(game);
    if c.len() == 1 {
        between_set(c.choose(), king_square(game.board, game.player)).union(c)
    } else {
        all_squares()
    }
}

/// The sets from which the moves of a game are generated.
pub open spec fn gen_sets(game: Game, quiet: bool) -> MoveSets {
    let b = game.board;
    let p = game.player;
    let k = king_square(b, p);
    MoveSets {
        player: p,
        them: b.player_set(p.opponent()),
        occ: b.occupied_set(),
        mask: check_mask(game),
        orth: orthogonal_pins(b, p, k),
        diag: diagonal_pins(b, p, k),
        king: k,
        quiet,
    }
}

/// The legal moves of the player to move (only the captures, promotions
/// and captures en passant unless `quiet`): in double check only king
/// moves; otherwise the moves of every kind, and castling when not in check.
pub open spec fn legal_move(game: Game, quiet: bool, m: Move) -> bool {
    let s = gen_sets(game, quiet);
    let b = game.board;
    if checkers(game).len() > 1 {
        king_move(b, s, m)
    } else {
        ||| class_move(b, s, MoveClass::PawnPromotionCapture, m)
        ||| class_move(b, s, MoveClass::PawnPromotionPush, m)
        ||| class_move(b, s, MoveClass::PawnCapture, m)
        ||| en_passant_move(b, game.en_passant_target, s, m)
        ||| (quiet && class_move(b, s, MoveClass::PawnPush, m))
        ||| (quiet && class_move(b, s, MoveClass::PawnDoublePush, m))
        ||| class_move(b, s, MoveClass::Knight, m)
        ||| class_move(b, s, MoveClass::DiagonalSlider, m)
        ||| class_move(b, s, MoveClass::OrthogonalSlider, m)
        ||| king_move(b, s, m)
        ||| (quiet && checkers(game).len() == 0 && castle_move(game, m))
    }
}

/// Every legal capture (or promotion, or capture en passant) is a legal
/// move.
pub proof fn lemma_captures_are_moves(game: Game, m: Move)
    requires legal_move(game, false, m),
    ensures legal_move(game, true, m),
{
}

/// The legal-move law for the steps of the king: a move of the king to a
/// square next to it is legal exactly when it is a plain move (no flags)
/// onto a square that holds no piece of the player, and no enemy piece
/// attacks the king on that square once the move is played.
pub proof fn law_king_steps(game: Game, m: Move)
    requires
        game.board.set_of(game.player, PieceKind::King).len() == 1,
        m.src_spec() == king_square(game.board, game.player),
        king_attack_set(m.src_spec()).contains(m.dst_spec()),
    ensures
        legal_move(game, true, m) <==> (m.flags_spec() == 0
            && !game.board.player_set(game.player).contains(m.dst_spec())
            && attackers_in(game.placement_after(m), game.player, m.dst_spec()).is_empty()),
{
    let b = game.board;
    let p = game.player;
    let s = gen_sets(game, true);
    let k = m.src_spec();
    let d = m.dst_spec();
    let kb = b.set_of(p, PieceKind::King);
    if kb.is_empty() {
        assert(kb =~= Set::empty());
    }
    assert(kb.contains(k));
    assert(b.at(k) == Some(Piece { player: p, kind: PieceKind::King }));
    assert(on_board(d) && d != k);
    // No class of pawn, knight or slider moves starts on the king's square.
    assert(!b.set_of(p, PieceKind::Pawn).contains(k));
    assert(!b.set_of(p, PieceKind::Knight).contains(k));
    assert(!b.set_of(p, PieceKind::Bishop).contains(k));
    assert(!b.set_of(p, PieceKind::Rook).contains(k));
    assert(!b.set_of(p, PieceKind::Queen).contains(k));
    assert(!class_move(b, s, MoveClass::PawnPromotionCapture, m));
    assert(!class_move(b, s, MoveClass::PawnPromotionPush, m));
    assert(!class_move(b, s, MoveClass::PawnCapture, m));
    assert(!class_move(b, s, MoveClass::PawnPush, m));
    assert(!class_move(b, s, MoveClass::PawnDoublePush, m));
    assert(!class_move(b, s, MoveClass::Knight, m));
    assert(!class_move(b, s, MoveClass::DiagonalSlider, m));
    assert(!class_move(b, s, MoveClass::OrthogonalSlider, m));
    assert(!en_passant_move(b, game.en_passant_target, s, m));
    // Castling lands two files away from the king, never next to it.
    assert(!castle_move(game, m));
    // The placement after the step is the board with the king lifted,
    // except on the square it lands on.
    let after = game.placement_after(m);
    let lifted = lift(b, set![k]);
    b.lemma_placement_len();
    assert(!game.is_castle(m));
    assert(!game.is_en_passant_capture(m));
    assert forall|x: int| 0 <= x < 64 && x != d implies after[x] == lifted[x] by {}
    lemma_attackers_ignore_target(after, lifted, p, d);
    assert(targets(s).contains(d) == !b.player_set(p).contains(d));
}

/// Every legal move other than castling starts on a square of a piece of
/// the player to move, and every one other than castling and en passant
/// ends on a square that holds no piece of that player.
pub proof fn lemma_legal_move_squares(game: Game, quiet: bool, m: Move)
    requires
        legal_move(game, quiet, m),
        game.board.set_of(game.player, PieceKind::King).len() == 1,
    ensures
        !castle_move(game, m) ==> game.board.player_set(game.player).contains(m.src_spec()),
        !castle_move(game, m) && !en_passant_move(game.board, game.en_passant_target, gen_sets(game, quiet), m)
            ==> !game.board.player_set(game.player).contains(m.dst_spec()),
{
    let b = game.board;
    let s = gen_sets(game, quiet);
    let p = game.player;
    let src = m.src_spec();
    let dst = m.dst_spec();
    let kb = b.set_of(p, PieceKind::King);
    assert(kb.len() != 0);
    if kb.is_empty() {
        assert(kb =~= Set::empty());
    }
    assert(kb.contains(s.king));
    assert(b.player_set(p).contains(s.king));
    assert(b.player_set(p).disjoint(s.them));
    if class_move(b, s, MoveClass::PawnPromotionPush, m) || class_move(b, s, MoveClass::PawnPush, m) {
        assert(shift_set(push_squares(s), 0, -forward_dr(p)).contains(src));
        assert(push_squares(s).contains(src + 8 * forward_dr(p)));
        assert(dst == ahead(s, src, 1));
    }
    if class_move(b, s, MoveClass::PawnDoublePush, m) {
        let once = shift_set(push_squares(s), 0, -forward_dr(p));
        assert(shift_set(once, 0, -forward_dr(p)).contains(src));
        assert(once.contains(src + 8 * forward_dr(p)));
        assert(push_squares(s).contains(src + 16 * forward_dr(p)));
        assert(dst == ahead(s, src, 2));
    }
}

/// The legal moves of the player to move; with `QUIET` false, only the
/// captures, the promotions by capture, the queen promotions by push and
/// the captures en passant.
pub fn generate_moves<const QUIET: bool>(game: &Game) -> (moves: Vec<Move>)
    requires
        game.wf(),
        game.board.set_of(game.player, PieceKind::King).len() == 1,
    ensures
        forall|m: Move| #[trigger] moves@.contains(m) <==> legal_move(*game, QUIET, m),
        moves@.no_duplicates(),
        promotions_in_order(moves@),
{
    let board = &game.board;
    let player = game.player;
    let their_pieces = board.occupancy_for(player.other());
    let all_pieces = board.occupancy();
    let king = board.king(player).single();
    let ghost k = king_square(game.board, player);
    proof {
        assert(game.board.set_of(player, PieceKind::King).contains(king@));
        assert(game.board.set_of(player, PieceKind::King).contains(k));
    }
    let mut moves: Vec<Move> = Vec::new();
    let checkers_bb = generate_attackers_of(board, player, king);
    let number_of_checkers = checkers_bb.count();

    // In double check only a king move can help.
    if number_of_checkers > 1 {
        let ctx = MoveGenContext {
            player,
            their_pieces,
            all_pieces,
            check_mask: Bitboard::full(),
            orthogonal_pins: Bitboard::empty(),
            diagonal_pins: Bitboard::empty(),
            king,
            quiet: QUIET,
        };
        generate_king_moves(&mut moves, board, &ctx);
        proof {
            assert forall|m: Move| #[trigger] moves@.contains(m) <==> legal_move(*game, QUIET, m) by {
                assert(king_move(*board, ctx.sets(), m) == king_move(*board, gen_sets(*game, QUIET), m));
            }
        }
        return moves;
    }

    let check_mask = if number_of_checkers == 1 {
        let checker_sq = checkers_bb.single();
        proof {
            assert(checkers(*game).contains(checker_sq@));
            assert(checkers(*game).contains(checkers(*game).choose()));
        }
        tables::between(checker_sq, king).or(checkers_bb)
    } else {
        Bitboard::full()
    };

    let (orthogonal_pins, diagonal_pins) = get_pins(board, player, king);
    let ctx = MoveGenContext {
        player,
        their_pieces,
        all_pieces,
        check_mask,
        orthogonal_pins,
        diagonal_pins,
        king,
        quiet: QUIET,
    };
    proof {
        assert(ctx.sets() == gen_sets(*game, QUIET));
        if let Some(t) = game.en_passant_target {
            assert(crate::chess::square::rank_of(t@) == 2 || crate::chess::square::rank_of(t@) == 5);
        }
    }
    let ghost m0 = moves@;
    generate_pawn_moves(&mut moves, board, game.en_passant_target, &ctx);
    let ghost m1 = moves@;
    generate_knight_moves(&mut moves, board, &ctx);
    let ghost m2 = moves@;
    generate_diagonal_slider_moves(&mut moves, board, &ctx);
    let ghost m3 = moves@;
    generate_orthogonal_slider_moves(&mut moves, board, &ctx);
    let ghost m4 = moves@;
    generate_king_moves(&mut moves, board, &ctx);
    let ghost m5 = moves@;
    if QUIET && !checkers_bb.any() {
        generate_castles(&mut moves, game, all_pieces);
    }
    proof {
        assert forall|m: Move| #[trigger] moves@.contains(m) <==> legal_move(*game, QUIET, m) by {
            assert(!m0.contains(m));
            assert(m1.contains(m) <==> m0.contains(m) || class_move(*board, ctx.sets(), MoveClass::PawnPromotionCapture, m)
                || class_move(*board, ctx.sets(), MoveClass::PawnPromotionPush, m)
                || class_move(*board, ctx.sets(), MoveClass::PawnCapture, m)
                || en_passant_move(*board, game.en_passant_target, ctx.sets(), m)
                || (ctx.quiet && class_move(*board, ctx.sets(), MoveClass::PawnPush, m))
                || (ctx.quiet && class_move(*board, ctx.sets(), MoveClass::PawnDoublePush, m)));
            assert(m2.contains(m) <==> m1.contains(m) || class_move(*board, ctx.sets(), MoveClass::Knight, m));
            assert(m3.contains(m) <==> m2.contains(m) || class_move(*board, ctx.sets(), MoveClass::DiagonalSlider, m));
            assert(m4.contains(m) <==> m3.contains(m) || class_move(*board, ctx.sets(), MoveClass::OrthogonalSlider, m));
            assert(m5.contains(m) <==> m4.contains(m) || king_move(*board, ctx.sets(), m));
        }
    }
    moves
}

} // verus!
