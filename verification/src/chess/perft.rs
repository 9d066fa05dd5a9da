//! Counting the positions reached by every sequence of legal moves of a
//! given length, to check the move generator against known counts.

use vstd::prelude::*;
use crate::chess::game::{Game, CastleRights, move_made, same_position};
use crate::chess::movegen::gen::legal_move;
use crate::chess::moves::Move;
use crate::chess::piece::PieceKind;
use crate::chess::player::Player;
use crate::chess::board::Board;
use crate::chess::square::Square;

verus! {

/// Whether the position can be searched on: it is consistent and the player
/// to move has exactly one king.
pub open spec fn searchable(game: Game) -> bool {
    game.wf() && game.board.set_of(game.player, PieceKind::King).len() == 1
}

/// Whether the player to move has no legal move.
pub open spec fn no_moves(game: Game) -> bool {
    forall|m: Move| !#[trigger] legal_move(game, true, m)
}

/// The legal moves of the player to move.
pub open spec fn legal_moves(game: Game) -> Set<Move> {
    Set::new(|m: Move| legal_move(game, true, m))
}

/// The legal moves listed without repeats number as many as there are.
proof fn lemma_listed_once(game: Game, moves: Seq<Move>)
    requires
        forall|m: Move| #[trigger] moves.contains(m) <==> legal_move(game, true, m),
        moves.no_duplicates(),
    ensures moves.len() == legal_moves(game).len(),
{
    assert(moves.to_set() =~= legal_moves(game));
    moves.unique_seq_to_set();
}

/// The position reached by playing `m`: the pieces as the move leaves
/// them, the other player to move, and the castling rights and en passant
/// target that follow. Only the position is pinned down; the clocks and the
/// history are not part of it.
pub open spec fn position_after(game: Game, m: Move) -> Game {
    let placement = game.placement_after(m);
    let player = game.player.opponent();
    let white = CastleRights {
        king_side: game.right_after(m, Player::White, true),
        queen_side: game.right_after(m, Player::White, false),
    };
    let black = CastleRights {
        king_side: game.right_after(m, Player::Black, true),
        queen_side: game.right_after(m, Player::Black, false),
    };
    let double_push = game.is_double_push(m);
    let target = (m.src_spec() + m.dst_spec()) / 2;
    choose|a: Game| {
        &&& a.board.wf()
        &&& a.board.placement() == placement
        &&& a.player == player
        &&& a.castle_rights[0] == white
        &&& a.castle_rights[1] == black
        &&& double_push ==> (a.en_passant_target matches Some(t) && t@ == target)
        &&& !double_push ==> a.en_passant_target is None
    }
}

/// Whether the player to move has exactly one king.
pub open spec fn one_king(game: Game) -> bool {
    game.board.set_of(game.player, PieceKind::King).len() == 1
}

/// The number of sequences of `depth` legal moves from the position that
/// start with `m`: none when the move's source square is empty or the
/// position it leads to has no single king to move.
pub open spec fn branch_count(game: Game, m: Move, depth: nat) -> int
    decreases depth, 1nat,
{
    if game.board.at(m.src_spec()) is Some && one_king(position_after(game, m)) {
        perft_count(position_after(game, m), depth)
    } else {
        0
    }
}

/// Adds the sequences of `depth` moves through a move to a running sum.
pub open spec fn add_branch(game: Game, depth: nat) -> spec_fn(int, Move) -> int
    decreases depth, 2nat,
{
    |acc: int, m: Move| acc + branch_count(game, m, depth)
}

/// The number of sequences of `depth` legal moves from the position, for a
/// depth of at least one: the legal moves themselves at depth one, and
/// otherwise the sum over the legal moves of the sequences through each.
pub open spec fn perft_count(game: Game, depth: nat) -> int
    decreases depth, 0nat,
{
    if depth <= 1 {
        legal_moves(game).len() as int
    } else {
        legal_moves(game).fold(0int, add_branch(game, (depth - 1) as nat))
    }
}

/// Summing over the moves does not depend on their order.
proof fn lemma_add_branch_commutative(game: Game, depth: nat)
    ensures vstd::set::fold::is_fun_commutative(add_branch(game, depth)),
{
    let f = add_branch(game, depth);
    assert forall|a1: Move, a2: Move, b: int| #[trigger] f(f(b, a2), a1) == f(f(b, a1), a2) by {}
}

/// The count of a position depends on the position only.
pub proof fn lemma_perft_same_position(a: Game, b: Game, depth: nat)
    requires same_position(a, b),
    ensures perft_count(a, depth) == perft_count(b, depth),
{
    assert(legal_moves(a) =~= legal_moves(b));
    if depth > 1 {
        let d = (depth - 1) as nat;
        assert forall|m: Move| position_after(a, m) == position_after(b, m) by {
            assert(a.placement_after(m) == b.placement_after(m));
        }
        assert(add_branch(a, d) =~= add_branch(b, d));
    }
}

/// `n`, or `usize::MAX` when `n` is larger.
pub open spec fn capped(n: int) -> int {
    if n > usize::MAX { usize::MAX as int } else { n }
}

/// The game after a move, when the move's source square holds a piece and
/// the player then to move has exactly one king.
fn game_after(game: &Game, mv: Move) -> (r: Option<Game>)
    requires game.wf(),
    ensures
        r matches Some(g) ==> searchable(g) && same_position(g, position_after(*game, mv))
            && game.board.at(mv.src_spec()) is Some,
        r is None ==> !(game.board.at(mv.src_spec()) is Some && one_king(position_after(*game, mv))),
{
    if game.board.piece_at(mv.src()).is_none() {
        return None;
    }
    let mut g = game.duplicate();
    proof {
        assert forall|i: int| 0 <= i < g.history@.len() implies (#[trigger] g.history@[i]).wf() by {
            assert(g.history@[i] == game.history@[i]);
        }
    }
    g.make_move(mv);
    proof {
        assert(move_made(*game, mv, g));
        lemma_position_after(*game, mv, g);
    }
    if g.board.king(g.player).count() == 1 {
        Some(g)
    } else {
        None
    }
}

/// A game with `m` played is in the position that `position_after` names.
proof fn lemma_position_after(game: Game, m: Move, g: Game)
    requires move_made(game, m, g),
    ensures same_position(g, position_after(game, m)),
{
    let a = position_after(game, m);
    let target = (m.src_spec() + m.dst_spec()) / 2;
    assert(g.en_passant_target is Some ==> g.en_passant_target->0@ == target);
    let b = a.board;
    Board::lemma_placement_determines(g.board, b);
    assert(g.castle_rights@ =~= a.castle_rights@);
    vstd::array::axiom_array_ext_equal(g.castle_rights, a.castle_rights);
    if let Some(t) = g.en_passant_target {
        Square::lemma_view_injective(t, a.en_passant_target->0);
    }
}

/// Playing a move with `make_move` reaches the position the count goes
/// through: the sequences through a move are those of the game the move
/// leads to (none when that game has no single king to move).
pub proof fn law_branch_through_make_move(game: Game, m: Move, after: Game, depth: nat)
    requires
        move_made(game, m, after),
        game.board.at(m.src_spec()) is Some,
    ensures
        branch_count(game, m, depth) == (if one_king(after) { perft_count(after, depth) } else { 0 }),
{
    lemma_position_after(game, m, after);
    lemma_perft_same_position(after, position_after(game, m), depth);
}

/// Adding one more move of a list without repeats adds its sequences to
/// the sum over the moves before it.
proof fn lemma_sum_step(game: Game, depth: nat, moves: Seq<Move>, i: int)
    requires
        0 <= i < moves.len(),
        moves.no_duplicates(),
    ensures
        moves.subrange(0, i + 1).to_set().fold(0int, add_branch(game, depth))
            == moves.subrange(0, i).to_set().fold(0int, add_branch(game, depth)) + branch_count(game, moves[i], depth),
{
    let f = add_branch(game, depth);
    let before = moves.subrange(0, i);
    let mv = moves[i];
    lemma_add_branch_commutative(game, depth);
    assert(moves.subrange(0, i + 1) =~= before.push(mv));
    before.lemma_push_to_set_commute(mv);
    vstd::seq_lib::seq_to_set_is_finite(before);
    if before.to_set().contains(mv) {
        let k = choose|k: int| 0 <= k < before.len() && before[k] == mv;
        assert(moves[k] == moves[i]);
    }
    vstd::set::fold::lemma_fold_insert(before.to_set(), 0int, f, mv);
}

/// The number of sequences of `depth` legal moves from the position (a
/// sequence that reaches a position with no single king to move ends
/// there), up to `usize::MAX`.
pub fn perft(depth: u8, game: &Game) -> (r: usize)
    requires
        depth >= 1,
        searchable(*game),
    ensures
        r == capped(perft_count(*game, depth as nat)),
        perft_count(*game, depth as nat) >= 0,
        no_moves(*game) ==> r == 0,
        depth == 1 ==> (r == 0 <==> no_moves(*game)),
    decreases depth,
{
    let moves = game.moves();
    proof {
        assert forall|m: Move| legal_move(*game, true, m) implies moves@.contains(m) by {}
        assert(moves@.to_set() =~= legal_moves(*game));
        moves@.unique_seq_to_set();
        if moves.len() > 0 {
            assert(moves@.contains(moves@[0]));
            assert(legal_move(*game, true, moves@[0]));
        }
        if !no_moves(*game) {
            let m = choose|m: Move| legal_move(*game, true, m);
            assert(moves@.contains(m));
        }
    }
    if depth == 1 {
        proof { lemma_listed_once(*game, moves@); }
        return moves.len();
    }
    let ghost d = (depth - 1) as nat;
    let ghost f = add_branch(*game, d);
    proof {
        lemma_add_branch_commutative(*game, d);
        assert(moves@.subrange(0, 0).to_set() =~= Set::<Move>::empty());
        vstd::set::fold::lemma_fold_empty(0int, f);
    }
    let mut total: usize = 0;
    let mut i: usize = 0;
    while i < moves.len()
        invariant
            i <= moves.len(),
            searchable(*game),
            depth >= 2,
            d == depth - 1,
            f == add_branch(*game, d),
            moves@.no_duplicates(),
            forall|m: Move| #[trigger] moves@.contains(m) <==> legal_move(*game, true, m),
            moves@.subrange(0, i as int).to_set().fold(0int, f) >= 0,
            total == capped(moves@.subrange(0, i as int).to_set().fold(0int, f)),
        decreases moves.len() - i,
    {
        let mv = moves[i];
        proof {
            assert(moves@.contains(moves@[i as int]));
            lemma_sum_step(*game, d, moves@, i as int);
        }
        match game_after(game, mv) {
            Some(g) => {
                let n = perft(depth - 1, &g);
                proof {
                    lemma_perft_same_position(g, position_after(*game, mv), d);
                    assert(branch_count(*game, mv, d) == perft_count(g, d));
                }
                total = total.saturating_add(n);
            },
            None => {
                proof { assert(branch_count(*game, mv, d) == 0); }
            },
        }
        i = i + 1;
    }
    proof {
        assert(moves@.subrange(0, moves@.len() as int) =~= moves@);
        assert(moves@.to_set() =~= legal_moves(*game));
        if no_moves(*game) {
            assert(legal_moves(*game) =~= Set::<Move>::empty());
        }
    }
    total
}

/// The sum of the sequences of `depth` moves through each move of a list.
pub open spec fn branch_total(game: Game, depth: nat, moves: Seq<Move>) -> int
    decreases moves.len(),
{
    if moves.len() == 0 {
        0
    } else {
        branch_total(game, depth, moves.drop_last()) + branch_count(game, moves.last(), depth)
    }
}

/// The moves of a list of counts.
pub open spec fn counted_moves(entries: Seq<(Move, usize)>) -> Seq<Move> {
    entries.map_values(|e: (Move, usize)| e.0)
}

/// For each legal move of the position, the move and the number of
/// sequences of `depth` legal moves that start with it (up to
/// `usize::MAX`); below depth one, the counts add up to `perft`'s.
pub fn perft_div(depth: u8, game: &Game) -> (r: Vec<(Move, usize)>)
    requires
        depth >= 1,
        searchable(*game),
    ensures
        forall|m: Move| (exists|k: int| 0 <= k < r.len() && #[trigger] r[k].0 == m) <==> legal_move(*game, true, m),
        forall|j: int, k: int| 0 <= j < k < r.len() ==> #[trigger] r[j].0 != #[trigger] r[k].0,
        r.len() == legal_moves(*game).len(),
        depth == 1 ==> forall|k: int| 0 <= k < r.len() ==> #[trigger] r[k].1 == 1,
        depth >= 2 ==> forall|k: int| 0 <= k < r.len() ==>
            #[trigger] r[k].1 == capped(branch_count(*game, r[k].0, (depth - 1) as nat)),
        depth >= 2 ==> branch_total(*game, (depth - 1) as nat, counted_moves(r@)) == perft_count(*game, depth as nat),
{
    let root_moves = game.moves();
    let ghost d = (depth - 1) as nat;
    let ghost f = add_branch(*game, d);
    proof {
        assert(root_moves@.subrange(0, 0).to_set() =~= Set::<Move>::empty());
        vstd::set::fold::lemma_fold_empty(0int, f);
    }
    let mut perft_for_moves: Vec<(Move, usize)> = Vec::new();
    let mut i: usize = 0;
    while i < root_moves.len()
        invariant
            i <= root_moves.len(),
            searchable(*game),
            depth >= 1,
            d == depth - 1,
            f == add_branch(*game, d),
            perft_for_moves.len() == i,
            forall|m: Move| #[trigger] root_moves@.contains(m) <==> legal_move(*game, true, m),
            root_moves@.no_duplicates(),
            forall|k: int| 0 <= k < i ==> #[trigger] perft_for_moves[k].0 == root_moves[k],
            depth == 1 ==> forall|k: int| 0 <= k < i ==> #[trigger] perft_for_moves[k].1 == 1,
            depth >= 2 ==> forall|k: int| 0 <= k < i ==>
                #[trigger] perft_for_moves[k].1 == capped(branch_count(*game, perft_for_moves[k].0, d)),
            branch_total(*game, d, root_moves@.subrange(0, i as int)) == root_moves@.subrange(0, i as int).to_set().fold(0int, f),
        decreases root_moves.len() - i,
    {
        let mv = root_moves[i];
        proof {
            lemma_sum_step(*game, d, root_moves@, i as int);
            assert(root_moves@.subrange(0, i + 1).drop_last() =~= root_moves@.subrange(0, i as int));
        }
        let count = if depth == 1 {
            1
        } else {
            match game_after(game, mv) {
                Some(g) => {
                    let n = perft(depth - 1, &g);
                    proof {
                        lemma_perft_same_position(g, position_after(*game, mv), d);
                    }
                    n
                },
                None => 0,
            }
        };
        perft_for_moves.push((mv, count));
        i = i + 1;
    }
    proof {
        assert forall|m: Move| (exists|k: int| 0 <= k < perft_for_moves.len() && #[trigger] perft_for_moves[k].0 == m)
            <==> legal_move(*game, true, m) by {
            if exists|k: int| 0 <= k < perft_for_moves.len() && #[trigger] perft_for_moves[k].0 == m {
                let k = choose|k: int| 0 <= k < perft_for_moves.len() && #[trigger] perft_for_moves[k].0 == m;
                assert(root_moves@[k] == m);
                assert(root_moves@.contains(m));
            }
            if legal_move(*game, true, m) {
                assert(root_moves@.contains(m));
                let k = choose|k: int| 0 <= k < root_moves@.len() && root_moves@[k] == m;
                assert(perft_for_moves[k].0 == m);
            }
        }
        lemma_listed_once(*game, root_moves@);
        assert(counted_moves(perft_for_moves@) =~= root_moves@);
        assert(root_moves@.subrange(0, root_moves@.len() as int) =~= root_moves@);
        assert forall|m: Move| legal_move(*game, true, m) implies root_moves@.contains(m) by {}
        assert(root_moves@.to_set() =~= legal_moves(*game));
    }
    perft_for_moves
}

} // verus!
