//! Attack sets of the pieces, and the squares between two squares.
//!
//! Sliding attacks are computed by walking the rays from the square, which
//! needs no precomputed table.

use vstd::prelude::*;
use crate::chess::bitboard::Bitboard;
use crate::chess::direction::{Direction, all};
use crate::chess::player::Player;
use crate::chess::square::Square;

pub mod attacks;

use attacks::{
    bishop_attack_set, rook_attack_set, knight_attack_set, king_attack_set, pawn_attack_set, ray_set,
    generate_ray,
};

verus! {

/// The squares attacked by a pawn of `player` on `s`.
pub fn pawn_attacks(s: Square, player: Player) -> (r: Bitboard)
    ensures r@ =~= pawn_attack_set(s@, player),
{
    attacks::generate_pawn_attacks(s, player)
}

/// The squares attacked by a knight on `s`.
pub fn knight_attacks(s: Square) -> (r: Bitboard)
    ensures r@ =~= knight_attack_set(s@),
{
    attacks::generate_knight_attacks(s)
}

/// The squares attacked by a king on `s`.
pub fn king_attacks(s: Square) -> (r: Bitboard)
    ensures r@ =~= king_attack_set(s@),
{
    attacks::generate_king_attacks(s)
}

/// The squares attacked by a bishop on `s` when `blockers` are occupied.
pub fn bishop_attacks(s: Square, blockers: Bitboard) -> (r: Bitboard)
    ensures r@ =~= bishop_attack_set(s@, blockers@),
{
    attacks::generate_bishop_attacks(s, blockers)
}

/// The squares attacked by a rook on `s` when `blockers` are occupied.
pub fn rook_attacks(s: Square, blockers: Bitboard) -> (r: Bitboard)
    ensures r@ =~= rook_attack_set(s@, blockers@),
{
    attacks::generate_rook_attacks(s, blockers)
}

/// The squares strictly between `a` and `b` along direction `d`, when `b`
/// lies on the ray from `a` in that direction; otherwise none.
pub open spec fn between_in(a: int, b: int, d: Direction) -> Set<int> {
    if ray_set(a, d, set![b]).contains(b) {
        ray_set(a, d, set![b]).remove(b)
    } else {
        Set::empty()
    }
}

/// The squares strictly between `a` and `b` when they share a rank, file or
/// diagonal; otherwise none.
pub open spec fn between_set(a: int, b: int) -> Set<int> {
    Set::new(
        |t: int|
            exists|d: Direction| #[trigger] between_in(a, b, d).contains(t),
    )
}

/// The squares strictly between two squares on a line.
pub fn between(a: Square, b: Square) -> (r: Bitboard)
    ensures r@ =~= between_set(a@, b@),
{
    let dirs = all();
    let target = b.bb();
    let mut r = Bitboard::empty();
    let mut i: usize = 0;
    while i < 8
        invariant
            i <= 8,
            target@ =~= set![b@],
            dirs@ == seq![Direction::North, Direction::NorthEast, Direction::East, Direction::SouthEast,
                Direction::South, Direction::SouthWest, Direction::West, Direction::NorthWest],
            forall|t: int| r@.contains(t) <==> exists|k: int| 0 <= k < i && #[trigger] between_in(a@, b@, dirs@[k]).contains(t),
        decreases 8 - i,
    {
        let ray = generate_ray(a, dirs[i], target);
        let ghost old_r = r@;
        if ray.contains(b) {
            r = r.or(ray.without(target));
        }
        proof {
            assert forall|t: int| r@.contains(t) <==> exists|k: int| 0 <= k < i + 1 && #[trigger] between_in(a@, b@, dirs@[k]).contains(t) by {
                if between_in(a@, b@, dirs@[i as int]).contains(t) {
                    assert(r@.contains(t));
                }
                if r@.contains(t) && !old_r.contains(t) {
                    assert(between_in(a@, b@, dirs@[i as int]).contains(t));
                }
            }
        }
        i = i + 1;
    }
    proof {
        assert forall|t: int| #[trigger] between_set(a@, b@).contains(t) implies r@.contains(t) by {
            let d = choose|d: Direction| #[trigger] between_in(a@, b@, d).contains(t);
            match d {
                Direction::North => assert(between_in(a@, b@, dirs@[0]).contains(t)),
                Direction::NorthEast => assert(between_in(a@, b@, dirs@[1]).contains(t)),
                Direction::East => assert(between_in(a@, b@, dirs@[2]).contains(t)),
                Direction::SouthEast => assert(between_in(a@, b@, dirs@[3]).contains(t)),
                Direction::South => assert(between_in(a@, b@, dirs@[4]).contains(t)),
                Direction::SouthWest => assert(between_in(a@, b@, dirs@[5]).contains(t)),
                Direction::West => assert(between_in(a@, b@, dirs@[6]).contains(t)),
                Direction::NorthWest => assert(between_in(a@, b@, dirs@[7]).contains(t)),
            }
        }
    }
    r
}

} // verus!
