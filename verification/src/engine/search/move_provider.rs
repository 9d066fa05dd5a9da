//! Handing out the moves of a position one at a time, best first: the best
//! move of an earlier search, then the captures by score, then the killer
//! moves, then the quiet moves by score. Moves are generated only when
//! needed.

use vstd::prelude::*;
use crate::chess::game::{Game, same_position};
use crate::chess::movegen::gen::{generate_moves, legal_move};
use crate::chess::moves::Move;
use crate::chess::piece::PieceKind;
use crate::engine::search::move_ordering::{score_move_with_table, move_score};
use crate::engine::search::tables::HistoryTable;
use crate::engine::search::state::{PersistentState, SearchState};
use crate::engine::search::tables::KILLER_PLIES;

verus! {

/// The stages of handing out moves, in order.
#[derive(Debug, Clone, Copy, PartialEq, Eq, Structural)]
pub enum GenStage {
    BestMove,
    GenCaptures,
    Captures,
    GenQuiets,
    Killer1,
    Killer2,
    ScoreQuiets,
    Quiets,
    Done,
}

/// Whether a move is legal in a position, as a capture or as any move.
pub open spec fn yields(game: Game, m: Move) -> bool {
    legal_move(game, false, m) || legal_move(game, true, m)
}

/// Whether a provider may hand out a move from its list: a legal capture (or
/// promotion, or capture en passant) when it hands out captures only, and
/// otherwise any legal move.
pub open spec fn offered(only_captures: bool, game: Game, m: Move) -> bool {
    if only_captures { legal_move(game, false, m) } else { yields(game, m) }
}

/// The order of the stages.
pub open spec fn stage_rank(s: GenStage) -> int {
    match s {
        GenStage::BestMove => 0,
        GenStage::GenCaptures => 1,
        GenStage::Captures => 2,
        GenStage::GenQuiets => 3,
        GenStage::Killer1 => 4,
        GenStage::Killer2 => 5,
        GenStage::ScoreQuiets => 6,
        GenStage::Quiets => 7,
        GenStage::Done => 8,
    }
}

/// The score a move is ranked by: its ordering score, or zero for a move
/// whose source square is empty while its destination holds a piece.
pub open spec fn scored(game: Game, m: Move, first: Option<Move>, killers: [Option<Move>; 2], history: HistoryTable) -> int {
    if game.board.at(m.src_spec()) is Some || game.board.at(m.dst_spec()) is None {
        move_score(game, m, first, killers, history.score(game.player, m.src_spec(), m.dst_spec()))
    } else {
        0
    }
}

/// Hands out the moves of a position.
pub struct MoveProvider {
    moves: Vec<Move>,
    scores: Vec<i32>,
    previous_best_move: Option<Move>,
    only_captures: bool,
    stage: GenStage,
    idx: usize,
    captures_end: usize,
    position: Ghost<Game>,
    /// The killer moves the waiting moves were scored with.
    ranked_killers: Ghost<[Option<Move>; 2]>,
    /// The history table the waiting moves were scored with.
    ranked_history: Ghost<HistoryTable>,
}

impl MoveProvider {
    /// The move handed out first, if any.
    pub closed spec fn first_move(self) -> Option<Move> {
        self.previous_best_move
    }

    /// Whether only captures (and promotions) are handed out.
    pub closed spec fn captures_only(self) -> bool {
        self.only_captures
    }

    /// Whether `m` was handed out already.
    pub closed spec fn handed_out(self, m: Move) -> bool {
        ||| (self.stage != GenStage::BestMove && self.previous_best_move == Some(m))
        ||| exists|k: int| 0 <= k < self.idx && #[trigger] self.moves@[k] == m
    }

    /// The moves handed out so far.
    pub closed spec fn handed(self) -> Set<Move> {
        Set::new(|m: Move| self.handed_out(m))
    }

    /// Whether the captures were generated.
    pub closed spec fn generated(self) -> bool {
        self.stage != GenStage::BestMove && self.stage != GenStage::GenCaptures
    }

    /// Whether the quiet moves were generated too.
    pub closed spec fn quiets_generated(self) -> bool {
        ||| self.stage == GenStage::Killer1
        ||| self.stage == GenStage::Killer2
        ||| self.stage == GenStage::ScoreQuiets
        ||| self.stage == GenStage::Quiets
        ||| (self.stage == GenStage::Done && !self.only_captures)
    }

    /// The stage the provider is in.
    pub closed spec fn stage_of(self) -> GenStage {
        self.stage
    }

    /// The number of moves of the list not handed out yet.
    pub closed spec fn waiting_count(self) -> nat {
        (self.moves@.len() - self.idx) as nat
    }

    /// Whether moves are being handed out by score, best first: the
    /// captures, or the quiet moves after the killer moves.
    pub closed spec fn ranking(self) -> bool {
        self.stage == GenStage::Captures || self.stage == GenStage::Quiets
    }

    /// The move handed out last from the list.
    pub closed spec fn last_move(self) -> Move {
        self.moves@[self.idx - 1]
    }

    /// The score of the move handed out last from the list.
    pub closed spec fn last_score(self) -> int {
        self.scores@[self.idx - 1] as int
    }

    /// The scores of the moves of the list still waiting.
    pub closed spec fn waiting_scores(self) -> Seq<i32> {
        self.scores@.subrange(self.idx as int, self.moves@.len() as int)
    }

    /// The moves of the list still waiting.
    pub closed spec fn waiting_moves(self) -> Seq<Move> {
        self.moves@.subrange(self.idx as int, self.moves@.len() as int)
    }

    /// The killer moves the moves being ranked were scored with.
    pub closed spec fn ranked_killers(self) -> [Option<Move>; 2] {
        self.ranked_killers@
    }

    /// The history table the moves being ranked were scored with.
    pub closed spec fn ranked_history(self) -> HistoryTable {
        self.ranked_history@
    }

    /// The provider is consistent for the position `game`: the moves it
    /// holds are legal there, and once generated they include every legal
    /// capture and, unless it hands out captures only, every legal move.
    pub closed spec fn wf_for(self, game: Game) -> bool {
        &&& self.moves@.len() == self.scores@.len()
        &&& self.idx <= self.moves@.len()
        &&& self.captures_end <= self.moves@.len()
        &&& (self.stage == GenStage::BestMove || self.stage == GenStage::GenCaptures) ==> self.moves@.len() == 0 && self.idx == 0
        &&& self.stage == GenStage::Captures ==> self.idx <= self.captures_end
        &&& self.generated() ==> same_position(game, self.position@)
        &&& forall|i: int| 0 <= i < self.moves@.len() ==> offered(self.only_captures, self.position@, #[trigger] self.moves@[i])
        &&& self.only_captures ==> self.previous_best_move is None
        &&& self.generated() ==> forall|m: Move| #[trigger] legal_move(self.position@, false, m) ==> self.moves@.contains(m)
        &&& self.quiets_generated() ==> forall|m: Move| #[trigger] legal_move(self.position@, true, m) ==> self.moves@.contains(m)
        &&& self.only_captures ==> (self.stage == GenStage::BestMove || self.stage == GenStage::GenCaptures
            || self.stage == GenStage::Captures || self.stage == GenStage::Done)
        &&& self.only_captures && self.generated() ==> self.captures_end == self.moves@.len()
        &&& self.stage == GenStage::Done ==> self.idx == self.moves@.len()
        &&& (self.stage == GenStage::Captures || self.stage == GenStage::GenQuiets) ==> self.captures_end == self.moves@.len()
        &&& self.moves@.no_duplicates()
        &&& self.ranking() ==> forall|k: int| self.idx <= k < self.moves@.len() ==> #[trigger] self.scores@[k] as int
            == scored(self.position@, self.moves@[k], self.previous_best_move, self.ranked_killers@, self.ranked_history@)
    }

    /// A provider of all moves, `previous_best_move` first.
    pub fn new(previous_best_move: Option<Move>) -> (r: Self)
        ensures
            forall|g: Game| #[trigger] r.wf_for(g),
            r.first_move() == previous_best_move,
            !r.captures_only(),
            r.handed() == Set::<Move>::empty(),
            r.stage_of() == GenStage::BestMove,
    {
        MoveProvider {
            moves: Vec::new(),
            scores: Vec::new(),
            previous_best_move,
            only_captures: false,
            stage: GenStage::BestMove,
            idx: 0,
            captures_end: 0,
            position: Ghost(arbitrary()),
            ranked_killers: Ghost(arbitrary()),
            ranked_history: Ghost(arbitrary()),
        }
    }

    /// A provider of the captures only.
    pub fn new_loud() -> (r: Self)
        ensures
            forall|g: Game| #[trigger] r.wf_for(g),
            r.first_move() is None,
            r.captures_only(),
            r.handed() == Set::<Move>::empty(),
            r.stage_of() == GenStage::BestMove,
    {
        MoveProvider {
            moves: Vec::new(),
            scores: Vec::new(),
            previous_best_move: None,
            only_captures: true,
            stage: GenStage::BestMove,
            idx: 0,
            captures_end: 0,
            position: Ghost(arbitrary()),
            ranked_killers: Ghost(arbitrary()),
            ranked_history: Ghost(arbitrary()),
        }
    }

    /// Swaps two moves and their scores.
    fn swap(&mut self, a: usize, b: usize)
        requires
            a < old(self).moves@.len(),
            b < old(self).moves@.len(),
            old(self).moves@.len() == old(self).scores@.len(),
        ensures
            final(self).moves@ == old(self).moves@.update(a as int, old(self).moves@[b as int]).update(b as int, old(self).moves@[a as int]),
            final(self).scores@ == old(self).scores@.update(a as int, old(self).scores@[b as int]).update(b as int, old(self).scores@[a as int]),
            final(self).idx == old(self).idx,
            final(self).captures_end == old(self).captures_end,
            final(self).stage == old(self).stage,
            final(self).previous_best_move == old(self).previous_best_move,
            final(self).only_captures == old(self).only_captures,
            final(self).position == old(self).position,
            final(self).ranked_killers == old(self).ranked_killers,
            final(self).ranked_history == old(self).ranked_history,
    {
        let ma = self.moves[a];
        let mb = self.moves[b];
        self.moves.set(a, mb);
        self.moves.set(b, ma);
        let sa = self.scores[a];
        let sb = self.scores[b];
        self.scores.set(a, sb);
        self.scores.set(b, sa);
    }

    /// Scores the moves from `start` to `end`.
    fn score_moves(&mut self, start: usize, end: usize, game: &Game, persistent_state: &PersistentState, state: &SearchState, plies: u8)
        requires
            start <= end <= old(self).moves@.len(),
            old(self).moves@.len() == old(self).scores@.len(),
            persistent_state.wf(),
            state.wf(),
            plies < KILLER_PLIES,
        ensures
            final(self).moves@ == old(self).moves@,
            final(self).scores@.len() == old(self).scores@.len(),
            forall|k: int| start <= k < end ==> #[trigger] final(self).scores@[k] == scored(*game, old(self).moves@[k],
                old(self).previous_best_move, [state.killer_moves.killer_0(plies as int), state.killer_moves.killer_1(plies as int)],
                persistent_state.history_table),
            forall|k: int| 0 <= k < old(self).scores@.len() && !(start <= k < end) ==> #[trigger] final(self).scores@[k] == old(self).scores@[k],
            final(self).idx == old(self).idx,
            final(self).captures_end == old(self).captures_end,
            final(self).stage == old(self).stage,
            final(self).previous_best_move == old(self).previous_best_move,
            final(self).only_captures == old(self).only_captures,
            final(self).position == old(self).position,
            final(self).ranked_killers == old(self).ranked_killers,
            final(self).ranked_history == old(self).ranked_history,
    {
        let killers = [state.killer_moves.get_0(plies), state.killer_moves.get_1(plies)];
        let mut i = start;
        while i < end
            invariant
                start <= i <= end,
                end <= self.moves@.len(),
                self.moves@ == old(self).moves@,
                self.scores@.len() == old(self).scores@.len(),
                self.scores@.len() == self.moves@.len(),
                self.idx == old(self).idx,
                self.captures_end == old(self).captures_end,
                self.stage == old(self).stage,
                self.previous_best_move == old(self).previous_best_move,
                self.only_captures == old(self).only_captures,
                self.position == old(self).position,
                self.ranked_killers == old(self).ranked_killers,
                self.ranked_history == old(self).ranked_history,
                persistent_state.wf(),
                killers[0] == state.killer_moves.killer_0(plies as int),
                killers[1] == state.killer_moves.killer_1(plies as int),
                forall|k: int| start <= k < i ==> #[trigger] self.scores@[k] == scored(*game, old(self).moves@[k],
                    old(self).previous_best_move, [state.killer_moves.killer_0(plies as int), state.killer_moves.killer_1(plies as int)],
                    persistent_state.history_table),
                forall|k: int| 0 <= k < old(self).scores@.len() && !(start <= k < i) ==> #[trigger] self.scores@[k] == old(self).scores@[k],
            decreases end - i,
        {
            let mv = self.moves[i];
            let score = if game.board.piece_at(mv.src()).is_some() || game.board.piece_at(mv.dst()).is_none() {
                score_move_with_table(game, mv, self.previous_best_move, killers, &persistent_state.history_table)
            } else {
                0
            };
            self.scores.set(i, score);
            i = i + 1;
        }
    }

    /// Hands out the move at `idx` after swapping it with the one at `j`,
    /// which is not handed out yet.
    fn hand_out(&mut self, j: usize, Ghost(game): Ghost<Game>) -> (m: Move)
        requires
            old(self).wf_for(game),
            old(self).generated(),
            old(self).stage != GenStage::Done,
            old(self).idx <= j < old(self).moves@.len(),
            old(self).stage == GenStage::Captures ==> j < old(self).captures_end,
        ensures
            final(self).wf_for(game),
            m == old(self).moves@[j as int],
            final(self).idx == old(self).idx + 1,
            final(self).moves@[old(self).idx as int] == m,
            final(self).scores@ == old(self).scores@.update(old(self).idx as int, old(self).scores@[j as int]).update(j as int, old(self).scores@[old(self).idx as int]),
            final(self).moves@.len() == old(self).moves@.len(),
            final(self).captures_end == old(self).captures_end,
            final(self).stage == old(self).stage,
            final(self).previous_best_move == old(self).previous_best_move,
            final(self).only_captures == old(self).only_captures,
            final(self).position == old(self).position,
            final(self).ranked_killers == old(self).ranked_killers,
            final(self).ranked_history == old(self).ranked_history,
            yields(old(self).position@, m),
            offered(old(self).only_captures, old(self).position@, m),
            final(self).handed() == old(self).handed().insert(m),
            old(self).previous_best_move != Some(m) ==> !old(self).handed().contains(m),
    {
        let m = self.moves[j];
        proof { assert(offered(self.only_captures, self.position@, self.moves@[j as int])); }
        let ghost before = self.moves@;
        let ghost old_self = *self;
        let idx = self.idx;
        self.swap(idx, j);
        proof {
            assert forall|k: int| 0 <= k < self.moves@.len() implies offered(self.only_captures, self.position@, #[trigger] self.moves@[k]) by {
                if k == idx as int {
                    assert(self.moves@[k] == before[j as int]);
                } else if k == j as int {
                    assert(self.moves@[k] == before[idx as int]);
                } else {
                    assert(self.moves@[k] == before[k]);
                }
            }
            assert forall|x: Move| before.contains(x) implies #[trigger] self.moves@.contains(x) by {
                let k = choose|k: int| 0 <= k < before.len() && before[k] == x;
                if k == idx as int {
                    assert(self.moves@[j as int] == x);
                } else if k == j as int {
                    assert(self.moves@[idx as int] == x);
                } else {
                    assert(self.moves@[k] == x);
                }
            }
            let perm = |k: int| if k == idx as int { j as int } else if k == j as int { idx as int } else { k };
            assert forall|p: int, q: int| 0 <= p < self.moves@.len() && 0 <= q < self.moves@.len() && p != q
                implies self.moves@[p] != self.moves@[q] by {
                assert(self.moves@[p] == before[perm(p)]);
                assert(self.moves@[q] == before[perm(q)]);
            }
            if old_self.previous_best_move != Some(m) && old_self.handed().contains(m) {
                assert(old_self.handed_out(m));
                let k = choose|k: int| 0 <= k < old_self.idx && #[trigger] before[k] == m;
                assert(before[k] == before[j as int]);
            }
        }
        let n = self.moves.len();
        proof { assert(idx < n); }
        self.idx = self.idx + 1;
        proof {
            assert forall|x: Move| #[trigger] self.handed_out(x) <==> (old_self.handed_out(x) || x == m) by {
                if self.handed_out(x) && !(self.stage != GenStage::BestMove && self.previous_best_move == Some(x)) {
                    let k = choose|k: int| 0 <= k < self.idx && #[trigger] self.moves@[k] == x;
                    if k < idx {
                        assert(before[k] == x);
                    } else {
                        assert(x == m);
                    }
                }
                if old_self.handed_out(x) && !(old_self.stage != GenStage::BestMove && old_self.previous_best_move == Some(x)) {
                    let k = choose|k: int| 0 <= k < old_self.idx && #[trigger] before[k] == x;
                    assert(self.moves@[k] == x);
                }
                if x == m {
                    assert(self.moves@[idx as int] == x);
                }
            }
            assert(self.handed() =~= old_self.handed().insert(m));
            if self.ranking() {
                assert forall|k: int| self.idx <= k < self.moves@.len() implies #[trigger] self.scores@[k] as int
                    == scored(self.position@, self.moves@[k], self.previous_best_move, self.ranked_killers@, self.ranked_history@) by {
                    assert(old_self.wf_for(game));
                    if k == j as int {
                        assert(self.moves@[k] == before[idx as int]);
                        assert(self.scores@[k] == old_self.scores@[idx as int]);
                        assert(old_self.scores@[idx as int] as int == scored(old_self.position@, old_self.moves@[idx as int],
                            old_self.previous_best_move, old_self.ranked_killers@, old_self.ranked_history@));
                    } else {
                        assert(self.moves@[k] == before[k]);
                        assert(self.scores@[k] == old_self.scores@[k]);
                        assert(old_self.scores@[k] as int == scored(old_self.position@, old_self.moves@[k],
                            old_self.previous_best_move, old_self.ranked_killers@, old_self.ranked_history@));
                    }
                }
            }
        }
        m
    }

    /// The best scored move left before `limit`, skipping the move handed
    /// out first.
    fn next_best_move(&mut self, limit: usize, Ghost(game): Ghost<Game>) -> (r: Option<Move>)
        requires
            old(self).wf_for(game),
            old(self).generated(),
            old(self).stage != GenStage::Done,
            limit <= old(self).moves@.len(),
            old(self).idx <= limit,
            old(self).stage == GenStage::Captures ==> limit <= old(self).captures_end,
        ensures
            final(self).wf_for(game),
            final(self).idx <= limit,
            final(self).moves@.len() == old(self).moves@.len(),
            final(self).captures_end == old(self).captures_end,
            final(self).stage == old(self).stage,
            final(self).previous_best_move == old(self).previous_best_move,
            final(self).only_captures == old(self).only_captures,
            final(self).position == old(self).position,
            final(self).ranked_killers == old(self).ranked_killers,
            final(self).ranked_history == old(self).ranked_history,
            r matches Some(m) ==> yields(old(self).position@, m) && offered(old(self).only_captures, old(self).position@, m) && final(self).moves@.len() > 0,
            r matches Some(m) ==> final(self).handed() == old(self).handed().insert(m),
            r matches Some(m) ==> !old(self).handed().contains(m),
            r is None ==> final(self).idx == limit,
            r is None ==> final(self).handed() == old(self).handed(),
            r matches Some(m) ==> final(self).idx >= 1 && final(self).moves@[final(self).idx - 1] == m,
            r is Some ==> final(self).idx > old(self).idx,
            r is Some ==> forall|k: int| final(self).idx <= k < limit ==> #[trigger] final(self).scores@[k] <= final(self).scores@[final(self).idx - 1],
            r is Some && final(self).ranking() ==> final(self).scores@[final(self).idx - 1] as int
                == scored(final(self).position@, r->0, final(self).previous_best_move, final(self).ranked_killers@, final(self).ranked_history@),
    {
        loop
            invariant
                self.wf_for(game),
                self.generated(),
                self.stage != GenStage::Done,
                limit <= self.moves@.len(),
                self.idx <= limit,
                self.stage == GenStage::Captures ==> limit <= self.captures_end,
                self.moves@.len() == old(self).moves@.len(),
                self.captures_end == old(self).captures_end,
                self.stage == old(self).stage,
                self.previous_best_move == old(self).previous_best_move,
                self.only_captures == old(self).only_captures,
                self.position == old(self).position,
                self.ranked_killers == old(self).ranked_killers,
                self.ranked_history == old(self).ranked_history,
                self.handed() == old(self).handed(),
                old(self).idx <= self.idx,
            decreases limit - self.idx,
        {
            if self.idx == limit {
                return None;
            }
            let mut best_move_idx = self.idx;
            let mut best_move_score = self.scores[self.idx];
            let mut i = self.idx + 1;
            while i < limit
                invariant
                    self.idx < i <= limit,
                    limit <= self.scores@.len(),
                    self.idx <= best_move_idx < limit,
                    best_move_score == self.scores@[best_move_idx as int],
                    forall|k: int| self.idx <= k < i ==> #[trigger] self.scores@[k] <= best_move_score,
                decreases limit - i,
            {
                let move_score = self.scores[i];
                if move_score > best_move_score {
                    best_move_score = move_score;
                    best_move_idx = i;
                }
                i = i + 1;
            }
            let ghost before = *self;
            let best_move = self.hand_out(best_move_idx, Ghost(game));
            let is_first = match self.previous_best_move {
                Some(m) => m == best_move,
                None => false,
            };
            if !is_first {
                proof {
                    assert forall|k: int| self.idx <= k < limit implies #[trigger] self.scores@[k] <= self.scores@[self.idx - 1] by {
                        if k != best_move_idx as int {
                            assert(self.scores@[k] == before.scores@[k]);
                        }
                    }
                }
                return Some(best_move);
            }
            proof {
                assert(before.handed_out(best_move));
                assert(before.handed().insert(best_move) =~= before.handed());
            }
        }
    }

    /// Looks for a killer among the moves not handed out yet; when found,
    /// it is moved next in line and handed out, unless it was handed out
    /// first.
    fn take_killer(&mut self, killer: Move, Ghost(game): Ghost<Game>) -> (r: Option<Move>)
        requires
            old(self).wf_for(game),
            old(self).generated(),
            old(self).stage != GenStage::Captures,
            old(self).stage != GenStage::Done,
        ensures
            final(self).wf_for(game),
            final(self).moves@.len() == old(self).moves@.len(),
            final(self).captures_end == old(self).captures_end,
            final(self).stage == old(self).stage,
            final(self).previous_best_move == old(self).previous_best_move,
            final(self).only_captures == old(self).only_captures,
            final(self).position == old(self).position,
            final(self).ranked_killers == old(self).ranked_killers,
            final(self).ranked_history == old(self).ranked_history,
            r matches Some(m) ==> yields(old(self).position@, m) && offered(old(self).only_captures, old(self).position@, m) && final(self).moves@.len() > 0,
            r matches Some(m) ==> final(self).handed() == old(self).handed().insert(m),
            r matches Some(m) ==> !old(self).handed().contains(m),
            r is None ==> final(self).handed() == old(self).handed(),
            r matches Some(m) ==> m == killer,
            // The killer is handed out exactly when it waits in the list and
            // is not the move handed out first.
            r is Some <==> (old(self).previous_best_move != Some(killer)
                && exists|k: int| old(self).idx <= k < old(self).moves@.len() && #[trigger] old(self).moves@[k] == killer),
    {
        let mut i = self.idx;
        while i < self.moves.len()
            invariant
                self.wf_for(game),
                self.generated(),
                self.stage != GenStage::Captures,
                self.stage != GenStage::Done,
                self.idx <= i <= self.moves@.len(),
                self.moves@.len() == old(self).moves@.len(),
                self.captures_end == old(self).captures_end,
                self.stage == old(self).stage,
                self.previous_best_move == old(self).previous_best_move,
                self.only_captures == old(self).only_captures,
                self.position == old(self).position,
                self.ranked_killers == old(self).ranked_killers,
                self.ranked_history == old(self).ranked_history,
                self.handed() == old(self).handed(),
                old(self).previous_best_move != Some(killer) ==> self.moves@ == old(self).moves@ && self.idx == old(self).idx,
                old(self).previous_best_move != Some(killer) ==> forall|j: int| self.idx <= j < i ==> #[trigger] self.moves@[j] != killer,
            decreases self.moves@.len() - i,
        {
            if self.moves[i] == killer {
                let ghost before = *self;
                let m = self.hand_out(i, Ghost(game));
                let is_first = match self.previous_best_move {
                    Some(f) => f == killer,
                    None => false,
                };
                if !is_first {
                    return Some(killer);
                }
                proof {
                    assert(before.handed_out(m));
                    assert(before.handed().insert(m) =~= before.handed());
                }
            }
            i = i + 1;
        }
        None
    }

    /// The moves handed out stay the same when the first few moves held and
    /// the position in line stay the same, and the first move either counts
    /// in both or there is none.
    proof fn lemma_handed_same(a: Self, b: Self)
        requires
            a.idx == b.idx,
            a.idx <= a.moves@.len(),
            a.idx <= b.moves@.len(),
            forall|k: int| 0 <= k < a.idx ==> a.moves@[k] == b.moves@[k],
            a.previous_best_move == b.previous_best_move,
            (a.stage == GenStage::BestMove) == (b.stage == GenStage::BestMove) || a.previous_best_move is None,
        ensures a.handed() == b.handed(),
    {
        assert forall|x: Move| a.handed_out(x) <==> b.handed_out(x) by {
            if a.handed_out(x) && !(a.stage != GenStage::BestMove && a.previous_best_move == Some(x)) {
                let k = choose|k: int| 0 <= k < a.idx && #[trigger] a.moves@[k] == x;
                assert(b.moves@[k] == x);
            }
            if b.handed_out(x) && !(b.stage != GenStage::BestMove && b.previous_best_move == Some(x)) {
                let k = choose|k: int| 0 <= k < b.idx && #[trigger] b.moves@[k] == x;
                assert(a.moves@[k] == x);
            }
        }
        assert(a.handed() =~= b.handed());
    }

    /// The next move to try, or `None` when all were handed out. A move
    /// handed out is the one given as first, or a legal move; by the time
    /// `None` comes, every legal move (every legal capture, for a provider of
    /// captures only) was handed out.
    #[verifier::rlimit(40)]
    pub fn next(&mut self, game: &Game, persistent_state: &PersistentState, state: &SearchState, plies: u8) -> (r: Option<Move>)
        requires
            old(self).wf_for(*game),
            game.wf(),
            game.board.set_of(game.player, PieceKind::King).len() == 1,
            persistent_state.wf(),
            state.wf(),
            plies < KILLER_PLIES,
        ensures
            final(self).wf_for(*game),
            final(self).first_move() == old(self).first_move(),
            final(self).captures_only() == old(self).captures_only(),
            r matches Some(m) ==> (Some(m) == old(self).first_move() || yields(*game, m)),
            r matches Some(m) ==> final(self).handed() == old(self).handed().insert(m),
            r matches Some(m) ==> !old(self).handed().contains(m),
            r is None ==> final(self).handed() == old(self).handed(),
            r is None && !old(self).captures_only() ==> forall|m: Move| #[trigger] legal_move(*game, true, m) ==> old(self).handed().contains(m),
            r is None && old(self).captures_only() ==> forall|m: Move| #[trigger] legal_move(*game, false, m) ==> old(self).handed().contains(m),
            // While ranking, the move handed out scores at least as much as
            // every move still waiting.
            // The move handed out first is the one given as first, if any.
            old(self).stage_of() == GenStage::BestMove && old(self).first_move() is Some ==> r == old(self).first_move(),
            // A provider of captures hands out captures only.
            old(self).captures_only() ==> (r matches Some(m) ==> legal_move(*game, false, m)),
            // The stages only advance; the killer moves are handed out in
            // their stages, which come before the quiet moves by score.
            stage_rank(final(self).stage_of()) >= stage_rank(old(self).stage_of()),
            // Each move handed out brings the provider closer to its end.
            r is Some ==> stage_rank(final(self).stage_of()) > stage_rank(old(self).stage_of())
                || (final(self).stage_of() == old(self).stage_of() && final(self).waiting_count() < old(self).waiting_count()),
            r is Some && final(self).stage_of() == GenStage::Killer2 ==> r == state.killer_moves.killer_0(plies as int),
            r is Some && final(self).stage_of() == GenStage::ScoreQuiets ==> r == state.killer_moves.killer_1(plies as int),
            // While ranking, each waiting move scores its ordering score, with
            // the killer moves and history table of the call that began the
            // ranking; so does the move handed out.
            final(self).ranking() ==> forall|k: int| 0 <= k < final(self).waiting_moves().len() ==>
                #[trigger] final(self).waiting_scores()[k] as int == scored(*game, final(self).waiting_moves()[k],
                    final(self).first_move(), final(self).ranked_killers(), final(self).ranked_history()),
            final(self).ranking() && r is Some ==> final(self).last_score() == scored(*game, final(self).last_move(),
                final(self).first_move(), final(self).ranked_killers(), final(self).ranked_history()),
            final(self).ranking() && final(self).stage_of() != old(self).stage_of() ==>
                final(self).ranked_killers() == [state.killer_moves.killer_0(plies as int), state.killer_moves.killer_1(plies as int)]
                && final(self).ranked_history() == persistent_state.history_table,
            final(self).ranking() && final(self).stage_of() == old(self).stage_of() ==>
                final(self).ranked_killers() == old(self).ranked_killers() && final(self).ranked_history() == old(self).ranked_history(),
            final(self).ranking() ==> (r matches Some(m) ==> final(self).last_move() == m
                && forall|k: int| 0 <= k < final(self).waiting_scores().len() ==> #[trigger] final(self).waiting_scores()[k] <= final(self).last_score()),
    {
        let ghost start = *self;
        if self.stage == GenStage::BestMove {
            self.stage = GenStage::GenCaptures;
            if let Some(previous_best_move) = self.previous_best_move {
                proof {
                    assert forall|x: Move| #[trigger] self.handed_out(x) <==> (start.handed_out(x) || x == previous_best_move) by {}
                    assert(self.handed() =~= start.handed().insert(previous_best_move));
                }
                return Some(previous_best_move);
            }
            proof { Self::lemma_handed_same(start, *self); }
        }

        if self.stage == GenStage::GenCaptures {
            let ghost before_gen = *self;
            let captures = generate_moves::<false>(game);
            let mut i: usize = 0;
            self.position = Ghost(*game);
            while i < captures.len()
                invariant
                    i <= captures@.len(),
                    self.moves@.len() == i,
                    self.scores@.len() == i,
                    self.idx == 0,
                    self.captures_end <= self.moves@.len(),
                    self.stage == GenStage::GenCaptures,
                    self.previous_best_move == old(self).previous_best_move,
                    self.only_captures == old(self).only_captures,
                    self.position@ == *game,
                    forall|m: Move| #[trigger] captures@.contains(m) <==> legal_move(*game, false, m),
                    forall|k: int| 0 <= k < i ==> self.moves@[k] == captures@[k],
                decreases captures@.len() - i,
            {
                proof { assert(captures@.contains(captures@[i as int])); }
                self.moves.push(captures[i]);
                self.scores.push(0);
                i = i + 1;
            }
            self.captures_end = self.moves.len();
            self.stage = GenStage::Captures;
            proof {
                assert(self.moves@ =~= captures@);
                assert forall|k: int| 0 <= k < self.moves@.len() implies offered(self.only_captures, self.position@, #[trigger] self.moves@[k]) by {
                    assert(captures@.contains(captures@[k]));
                }
                Self::lemma_handed_same(before_gen, *self);
            }
            let end = self.captures_end;
            let ghost before_score = *self;
            self.score_moves(0, end, game, persistent_state, state, plies);
            self.ranked_killers = Ghost([state.killer_moves.killer_0(plies as int), state.killer_moves.killer_1(plies as int)]);
            self.ranked_history = Ghost(persistent_state.history_table);
            proof { Self::lemma_handed_same(before_score, *self); }
        }

        if self.stage == GenStage::Captures {
            let end = self.captures_end;
            if let Some(mv) = self.next_best_move(end, Ghost(*game)) {
                proof { lemma_same_position_legal(*game, self.position@, mv); }
                return Some(mv);
            }
            let ghost drained = *self;
            self.stage = if self.only_captures { GenStage::Done } else { GenStage::GenQuiets };
            proof { Self::lemma_handed_same(drained, *self); }
        }

        if self.stage == GenStage::GenQuiets {
            let all = generate_moves::<true>(game);
            let captures_end = self.captures_end;
            let mut quiets: Vec<Move> = Vec::new();
            let mut i: usize = 0;
            while i < all.len()
                invariant
                    i <= all@.len(),
                    self.wf_for(*game),
                    self.stage == GenStage::GenQuiets,
                    captures_end == self.captures_end,
                    captures_end == self.moves@.len(),
                    forall|m: Move| #[trigger] all@.contains(m) <==> legal_move(*game, true, m),
                    all@.no_duplicates(),
                    quiets@.no_duplicates(),
                    forall|k: int| 0 <= k < i ==> self.moves@.contains(#[trigger] all@[k]) || quiets@.contains(all@[k]),
                    forall|k: int| 0 <= k < quiets@.len() ==> !self.moves@.contains(#[trigger] quiets@[k]),
                    forall|k: int| 0 <= k < quiets@.len() ==> yields(self.position@, #[trigger] quiets@[k]),
                    forall|k: int| 0 <= k < quiets@.len() ==>
                        exists|jj: int| 0 <= jj < i && #[trigger] all@[jj] == #[trigger] quiets@[k],
                decreases all@.len() - i,
            {
                let mv = all[i];
                proof { assert(all@.contains(mv)); }
                let mut is_capture = false;
                let mut j: usize = 0;
                while j < captures_end
                    invariant
                        j <= captures_end,
                        captures_end <= self.moves@.len(),
                        is_capture ==> self.moves@.contains(mv),
                        !is_capture ==> forall|jj: int| 0 <= jj < j ==> self.moves@[jj] != mv,
                    decreases captures_end - j,
                {
                    if self.moves[j] == mv {
                        is_capture = true;
                        proof { assert(self.moves@[j as int] == mv); }
                    }
                    j = j + 1;
                }
                let ghost before = quiets@;
                if !is_capture {
                    proof {
                        lemma_same_position_legal(*game, self.position@, mv);
                        assert forall|k: int| 0 <= k < before.len() implies before[k] != mv by {
                            let jj = choose|jj: int| 0 <= jj < i && #[trigger] all@[jj] == #[trigger] before[k];
                            assert(all@[jj] != all@[i as int]);
                        }
                    }
                    quiets.push(mv);
                    proof {
                        assert forall|p: int, q: int| 0 <= p < quiets@.len() && 0 <= q < quiets@.len() && p != q
                            implies quiets@[p] != quiets@[q] by {
                            if p < before.len() && q < before.len() {
                                assert(quiets@[p] == before[p]);
                                assert(quiets@[q] == before[q]);
                            } else if p < before.len() {
                                assert(quiets@[p] == before[p]);
                            } else if q < before.len() {
                                assert(quiets@[q] == before[q]);
                            }
                        }
                    }
                }
                proof {
                    assert forall|k: int| 0 <= k < i + 1 implies self.moves@.contains(#[trigger] all@[k]) || quiets@.contains(all@[k]) by {
                        if k < i {
                            if before.contains(all@[k]) {
                                let kk = choose|kk: int| 0 <= kk < before.len() && before[kk] == all@[k];
                                assert(quiets@[kk] == all@[k]);
                            }
                        } else if !is_capture {
                            assert(quiets@[quiets@.len() - 1] == all@[k]);
                        }
                    }
                    assert forall|k: int| 0 <= k < quiets@.len() implies
                        exists|jj: int| 0 <= jj < i + 1 && #[trigger] all@[jj] == #[trigger] quiets@[k] by {
                        if k < before.len() {
                            assert(quiets@[k] == before[k]);
                            let jj = choose|jj: int| 0 <= jj < i && #[trigger] all@[jj] == #[trigger] before[k];
                            assert(all@[jj] == quiets@[k]);
                        } else {
                            assert(all@[i as int] == quiets@[k]);
                        }
                    }
                    assert forall|k: int| 0 <= k < quiets@.len() implies !self.moves@.contains(#[trigger] quiets@[k]) by {
                        if k < before.len() {
                            assert(quiets@[k] == before[k]);
                        }
                    }
                    assert forall|k: int| 0 <= k < quiets@.len() implies yields(self.position@, #[trigger] quiets@[k]) by {
                        if k < before.len() {
                            assert(quiets@[k] == before[k]);
                        }
                    }
                }
                i = i + 1;
            }
            let ghost gathered = *self;
            let ghost old_moves = self.moves@;
            let mut k: usize = 0;
            while k < quiets.len()
                invariant
                    k <= quiets@.len(),
                    self.moves@ == old_moves + quiets@.subrange(0, k as int),
                    self.scores@.len() == self.moves@.len(),
                    self.idx == gathered.idx,
                    self.idx <= old_moves.len(),
                    self.stage == gathered.stage,
                    self.captures_end == gathered.captures_end,
                    self.previous_best_move == gathered.previous_best_move,
                    self.only_captures == gathered.only_captures,
                    self.position == gathered.position,
                decreases quiets@.len() - k,
            {
                self.moves.push(quiets[k]);
                self.scores.push(0);
                proof { assert(self.moves@ =~= old_moves + quiets@.subrange(0, k + 1)); }
                k = k + 1;
            }
            self.stage = GenStage::Killer1;
            proof {
                assert(quiets@.subrange(0, quiets@.len() as int) =~= quiets@);
                assert(self.moves@ == old_moves + quiets@);
                assert forall|x: Move| old_moves.contains(x) implies #[trigger] self.moves@.contains(x) by {
                    let kk = choose|kk: int| 0 <= kk < old_moves.len() && old_moves[kk] == x;
                    assert(self.moves@[kk] == x);
                }
                assert forall|x: Move| quiets@.contains(x) implies #[trigger] self.moves@.contains(x) by {
                    let kk = choose|kk: int| 0 <= kk < quiets@.len() && quiets@[kk] == x;
                    assert(self.moves@[old_moves.len() + kk] == x);
                }
                assert forall|kk: int| 0 <= kk < self.moves@.len() implies offered(self.only_captures, self.position@, #[trigger] self.moves@[kk]) by {
                    if kk < old_moves.len() {
                        assert(self.moves@[kk] == old_moves[kk]);
                    } else {
                        assert(self.moves@[kk] == quiets@[kk - old_moves.len()]);
                    }
                }
                assert forall|p: int, q: int| 0 <= p < self.moves@.len() && 0 <= q < self.moves@.len() && p != q
                    implies self.moves@[p] != self.moves@[q] by {
                    let n = old_moves.len() as int;
                    if p < n && q < n {
                        assert(self.moves@[p] == old_moves[p]);
                        assert(self.moves@[q] == old_moves[q]);
                    } else if p >= n && q >= n {
                        assert(self.moves@[p] == quiets@[p - n]);
                        assert(self.moves@[q] == quiets@[q - n]);
                    } else if p < n {
                        assert(self.moves@[p] == old_moves[p]);
                        assert(self.moves@[q] == quiets@[q - n]);
                        assert(old_moves.contains(old_moves[p]));
                    } else {
                        assert(self.moves@[q] == old_moves[q]);
                        assert(self.moves@[p] == quiets@[p - n]);
                        assert(old_moves.contains(old_moves[q]));
                    }
                }
                assert forall|m: Move| #[trigger] legal_move(self.position@, true, m) implies self.moves@.contains(m) by {
                    lemma_same_position_legal_move(*game, self.position@, true, m);
                    assert(all@.contains(m));
                    let kk = all@.index_of(m);
                    assert(gathered.moves@.contains(all@[kk]) || quiets@.contains(all@[kk]));
                }
                assert forall|m: Move| #[trigger] legal_move(self.position@, false, m) implies self.moves@.contains(m) by {
                    assert(old_moves.contains(m));
                }
                Self::lemma_handed_same(gathered, *self);
            }
        }

        if self.stage == GenStage::Killer1 {
            let ghost before_stage = *self;
            self.stage = GenStage::Killer2;
            proof { Self::lemma_handed_same(before_stage, *self); }
            if let Some(killer1) = state.killer_moves.get_0(plies) {
                if let Some(mv) = self.take_killer(killer1, Ghost(*game)) {
                    proof { lemma_same_position_legal(*game, self.position@, mv); }
                    return Some(mv);
                }
            }
        }

        if self.stage == GenStage::Killer2 {
            let ghost before_stage = *self;
            self.stage = GenStage::ScoreQuiets;
            proof { Self::lemma_handed_same(before_stage, *self); }
            if let Some(killer2) = state.killer_moves.get_1(plies) {
                if let Some(mv) = self.take_killer(killer2, Ghost(*game)) {
                    proof { lemma_same_position_legal(*game, self.position@, mv); }
                    return Some(mv);
                }
            }
        }

        if self.stage == GenStage::ScoreQuiets {
            let ghost before_stage = *self;
            self.stage = GenStage::Quiets;
            let start_idx = self.idx;
            let end = self.moves.len();
            self.score_moves(start_idx, end, game, persistent_state, state, plies);
            self.ranked_killers = Ghost([state.killer_moves.killer_0(plies as int), state.killer_moves.killer_1(plies as int)]);
            self.ranked_history = Ghost(persistent_state.history_table);
            proof { Self::lemma_handed_same(before_stage, *self); }
        }

        if self.stage == GenStage::Quiets {
            let end = self.moves.len();
            if let Some(mv) = self.next_best_move(end, Ghost(*game)) {
                proof { lemma_same_position_legal(*game, self.position@, mv); }
                return Some(mv);
            }
            let ghost drained = *self;
            self.stage = GenStage::Done;
            proof { Self::lemma_handed_same(drained, *self); }
        }

        proof {
            let q = !start.only_captures;
            assert forall|m: Move| #[trigger] legal_move(*game, q, m) implies start.handed().contains(m) by {
                lemma_same_position_legal_move(*game, self.position@, q, m);
                assert(self.moves@.contains(m));
                let k = self.moves@.index_of(m);
                assert(self.moves@[k] == m);
                assert(self.handed_out(m));
                assert(self.handed().contains(m));
            }
        }
        None
    }
}

impl MoveProvider {
    /// A provider consistent for a position is consistent for the same
    /// position reached again.
    pub proof fn lemma_wf_for_same(self, a: Game, b: Game)
        requires
            self.wf_for(a),
            same_position(a, b),
        ensures self.wf_for(b),
    {
    }
}

/// Positions with the same placement, player, rights and target have the
/// same legal moves of each kind.
pub proof fn lemma_same_position_legal_move(a: Game, b: Game, quiet: bool, m: Move)
    requires same_position(a, b),
    ensures legal_move(a, quiet, m) == legal_move(b, quiet, m),
{
}

/// Positions with the same placement, player, rights and target have the
/// same legal moves.
pub proof fn lemma_same_position_legal(a: Game, b: Game, m: Move)
    requires same_position(a, b),
    ensures yields(a, m) == yields(b, m),
{
}

} // verus!
