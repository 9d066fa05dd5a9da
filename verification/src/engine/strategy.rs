//! The ways the engine can choose its move.

use vstd::prelude::*;
use rand::seq::SliceRandom;
use crate::chess::game::Game;
use crate::chess::movegen::gen::legal_move;
use crate::chess::moves::Move;
use crate::chess::perft::{no_moves, searchable};
use crate::engine::search::Reporter;

verus! {

/// The strategies the engine knows by name.
#[derive(Debug, Clone, Copy, PartialEq, Eq, Structural)]
pub enum KnownStrategy {
    Main,
    Random,
    TopEval,
}

impl KnownStrategy {
    /// The strategy's name.
    pub fn to_string(&self) -> (r: &'static str)
        ensures
            r@ == match *self {
                KnownStrategy::Main => "Main"@,
                KnownStrategy::Random => "Random"@,
                KnownStrategy::TopEval => "TopEval"@,
            },
    {
        match self {
            KnownStrategy::Main => "Main",
            KnownStrategy::Random => "Random",
            KnownStrategy::TopEval => "TopEval",
        }
    }
}

/// Picks one of the moves at random.
///
/// Trusted: calls `SliceRandom::choose` of the `rand` crate with the
/// thread's generator, which (as its source shows) gives `None` for an
/// empty slice and otherwise an element at an index drawn below the
/// length. Which element comes out is left unsaid: it is chance.
#[verifier::external_body]
fn choose_move(moves: &Vec<Move>) -> (r: Option<Move>)
    ensures
        r is None <==> moves@.len() == 0,
        r matches Some(m) ==> moves@.contains(m),
{
    moves.as_slice().choose(&mut rand::thread_rng()).copied()
}

/// Plays a legal move chosen at random.
#[derive(Debug, Clone, Copy, Default)]
pub struct RandomMoveStrategy;

impl RandomMoveStrategy {
    /// Chooses one of the legal moves at random and reports it.
    pub fn go<R: Reporter>(&mut self, game: &Game, reporter: &R) -> (r: Move)
        requires
            searchable(*game),
            !no_moves(*game),
        ensures legal_move(*game, true, r),
    {
        let moves = game.moves();
        proof {
            let m = choose|m: Move| legal_move(*game, true, m);
            assert(moves@.contains(m));
        }
        match choose_move(&moves) {
            Some(mv) => {
                reporter.best_move(game, mv);
                mv
            },
            None => {
                proof { assert(moves@.len() == 0); }
                moves[0]
            },
        }
    }
}

} // verus!
