//! Tables that order quiet moves: killer moves by ply, and a history score
//! per player and move.

use vstd::prelude::*;
use crate::chess::moves::Move;
use crate::chess::player::Player;

verus! {

/// The number of plies the killer table holds.
pub const KILLER_PLIES: usize = 255;

/// The greatest history score of a move.
pub const HISTORY_MAX_SCORE: i32 = 89_999;

/// For each ply, the last two quiet moves that caused a cutoff, newest first.
pub struct KillersTable {
    first: Vec<Option<Move>>,
    second: Vec<Option<Move>>,
}

impl KillersTable {
    /// The table holds an entry for each ply.
    pub closed spec fn wf(self) -> bool {
        self.first@.len() == KILLER_PLIES && self.second@.len() == KILLER_PLIES
    }

    /// The newest killer at a ply.
    pub closed spec fn killer_0(self, plies: int) -> Option<Move> {
        self.first@[plies]
    }

    /// The second newest killer at a ply.
    pub closed spec fn killer_1(self, plies: int) -> Option<Move> {
        self.second@[plies]
    }

    /// A table with no killers.
    pub fn new() -> (t: Self)
        ensures
            t.wf(),
            forall|p: int| 0 <= p < KILLER_PLIES ==> t.killer_0(p) is None && t.killer_1(p) is None,
    {
        let mut first: Vec<Option<Move>> = Vec::new();
        let mut second: Vec<Option<Move>> = Vec::new();
        let mut i: usize = 0;
        while i < KILLER_PLIES
            invariant
                i <= KILLER_PLIES,
                first@.len() == i,
                second@.len() == i,
                forall|p: int| 0 <= p < i ==> first@[p] is None && second@[p] is None,
            decreases KILLER_PLIES - i,
        {
            first.push(None);
            second.push(None);
            i = i + 1;
        }
        KillersTable { first, second }
    }

    pub fn get_0(&self, plies: u8) -> (r: Option<Move>)
        requires
            self.wf(),
            plies < KILLER_PLIES,
        ensures r == self.killer_0(plies as int),
    {
        self.first[plies as usize]
    }

    pub fn get_1(&self, plies: u8) -> (r: Option<Move>)
        requires
            self.wf(),
            plies < KILLER_PLIES,
        ensures r == self.killer_1(plies as int),
    {
        self.second[plies as usize]
    }

    /// Records a killer at a ply: unless it is the newest already, it
    /// becomes the newest and the newest becomes the second.
    pub fn try_push(&mut self, plies: u8, mv: Move)
        requires
            old(self).wf(),
            plies < KILLER_PLIES,
        ensures
            final(self).wf(),
            old(self).killer_0(plies as int) == Some(mv) ==> final(self).killer_0(plies as int) == Some(mv)
                && final(self).killer_1(plies as int) == old(self).killer_1(plies as int),
            old(self).killer_0(plies as int) != Some(mv) ==> final(self).killer_0(plies as int) == Some(mv)
                && final(self).killer_1(plies as int) == old(self).killer_0(plies as int),
            forall|p: int| 0 <= p < KILLER_PLIES && p != plies ==> final(self).killer_0(p) == old(self).killer_0(p)
                && final(self).killer_1(p) == old(self).killer_1(p),
    {
        let p = plies as usize;
        let killer_1 = self.first[p];
        let same = match killer_1 {
            Some(k) => k == mv,
            None => false,
        };
        if !same {
            self.second.set(p, killer_1);
            self.first.set(p, Some(mv));
        }
    }
}

/// The index of a player's move from `src` to `dst` in the history table.
pub open spec fn history_index(player: Player, src: int, dst: int) -> int {
    player.idx() * 4096 + src * 64 + dst
}

/// For each player and each pair of squares, how often moving between
/// them caused a cutoff, weighted by depth.
pub struct HistoryTable {
    scores: Vec<i32>,
}

impl HistoryTable {
    /// The table holds a score in range for each player and pair of squares.
    pub closed spec fn wf(self) -> bool {
        &&& self.scores@.len() == 8192
        &&& forall|i: int| 0 <= i < 8192 ==> 0 <= #[trigger] self.scores@[i] <= HISTORY_MAX_SCORE
    }

    /// The score of a player's move from `src` to `dst`.
    pub closed spec fn score(self, player: Player, src: int, dst: int) -> int {
        self.scores@[history_index(player, src, dst)] as int
    }

    /// A table with every score zero.
    pub fn new() -> (t: Self)
        ensures
            t.wf(),
            forall|p: Player, s: int, d: int| 0 <= s < 64 && 0 <= d < 64 ==> #[trigger] t.score(p, s, d) == 0,
    {
        let mut scores: Vec<i32> = Vec::new();
        let mut i: usize = 0;
        while i < 8192
            invariant
                i <= 8192,
                scores@.len() == i,
                forall|k: int| 0 <= k < i ==> scores@[k] == 0,
            decreases 8192 - i,
        {
            scores.push(0);
            i = i + 1;
        }
        HistoryTable { scores }
    }

    /// Sets every score to zero.
    pub fn reset(&mut self)
        ensures
            final(self).wf(),
            forall|p: Player, s: int, d: int| 0 <= s < 64 && 0 <= d < 64 ==> #[trigger] final(self).score(p, s, d) == 0,
    {
        *self = HistoryTable::new();
    }

    /// The bonus for a cutoff at a depth: its square.
    fn bonus(depth: u8) -> (r: i32)
        ensures r == depth * depth, 0 <= r <= 65025,
    {
        let d = depth as i32;
        proof {
            assert(d * d <= 255 * 255) by (nonlinear_arith) requires 0 <= d <= 255;
        }
        d * d
    }

    /// The score of a player's move.
    pub fn get(&self, player: Player, mv: Move) -> (r: i32)
        requires self.wf(),
        ensures
            r == self.score(player, mv.src_spec(), mv.dst_spec()),
            0 <= r <= HISTORY_MAX_SCORE,
    {
        let i = player.array_idx() * 4096 + mv.src().array_idx() * 64 + mv.dst().array_idx();
        self.scores[i]
    }

    /// Adds the bonus for a depth to a player's move, up to the greatest score.
    pub fn add_bonus_for(&mut self, player: Player, mv: Move, depth: u8)
        requires old(self).wf(),
        ensures
            final(self).wf(),
            final(self).score(player, mv.src_spec(), mv.dst_spec()) == (
                if old(self).score(player, mv.src_spec(), mv.dst_spec()) + depth * depth > HISTORY_MAX_SCORE {
                    HISTORY_MAX_SCORE as int
                } else {
                    old(self).score(player, mv.src_spec(), mv.dst_spec()) + depth * depth
                }),
            forall|p: Player, s: int, d: int| 0 <= s < 64 && 0 <= d < 64
                && !(p == player && s == mv.src_spec() && d == mv.dst_spec())
                ==> #[trigger] final(self).score(p, s, d) == old(self).score(p, s, d),
    {
        let bonus = Self::bonus(depth);
        let existing_score = self.get(player, mv);
        let sum = existing_score + bonus;
        let new_score = if sum > HISTORY_MAX_SCORE { HISTORY_MAX_SCORE } else { sum };
        let i = player.array_idx() * 4096 + mv.src().array_idx() * 64 + mv.dst().array_idx();
        self.scores.set(i, new_score);
        proof {
            assert forall|p: Player, s: int, d: int| 0 <= s < 64 && 0 <= d < 64
                && !(p == player && s == mv.src_spec() && d == mv.dst_spec())
                implies #[trigger] self.score(p, s, d) == old(self).score(p, s, d) by {
                assert(history_index(p, s, d) != i);
            }
        }
    }

    /// Divides every score by `decay_factor`.
    pub fn decay(&mut self, decay_factor: i32)
        requires
            old(self).wf(),
            decay_factor > 0,
        ensures
            final(self).wf(),
            forall|p: Player, s: int, d: int| 0 <= s < 64 && 0 <= d < 64
                ==> #[trigger] final(self).score(p, s, d) == old(self).score(p, s, d) / (decay_factor as int),
    {
        let ghost before = self.scores@;
        let mut i: usize = 0;
        while i < 8192
            invariant
                i <= 8192,
                decay_factor > 0,
                self.scores@.len() == 8192,
                before.len() == 8192,
                forall|k: int| 0 <= k < 8192 ==> 0 <= #[trigger] before[k] <= HISTORY_MAX_SCORE,
                forall|k: int| 0 <= k < i ==> self.scores@[k] == (before[k] as int) / (decay_factor as int),
                forall|k: int| i <= k < 8192 ==> self.scores@[k] == before[k],
                forall|k: int| 0 <= k < 8192 ==> 0 <= #[trigger] self.scores@[k] <= HISTORY_MAX_SCORE,
            decreases 8192 - i,
        {
            let v = self.scores[i];
            proof {
                assert(0 <= v / decay_factor <= v) by (nonlinear_arith) requires v >= 0i32, decay_factor > 0i32;
            }
            self.scores.set(i, v / decay_factor);
            i = i + 1;
        }
        proof {
            assert forall|p: Player, s: int, d: int| 0 <= s < 64 && 0 <= d < 64
                implies #[trigger] self.score(p, s, d) == old(self).score(p, s, d) / (decay_factor as int) by {
                assert(0 <= history_index(p, s, d) < 8192);
            }
        }
    }
}

} // verus!
