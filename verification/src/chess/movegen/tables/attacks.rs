//! The squares that a piece attacks from a given square.

use vstd::prelude::*;
use crate::chess::bitboard::{Bitboard, shift_set, forward_dr, step_set, lemma_step_coords, lemma_shift_single, lemma_shift_step};
use crate::chess::direction::{Direction, cardinal, diagonal};
use crate::chess::player::Player;
use crate::chess::square::{Square, on_board, file_of, rank_of};

verus! {

/// `n` times the unit step `d` (which is -1, 0 or 1).
pub open spec fn times(n: int, d: int) -> int {
    if d == 1 {
        n
    } else if d == -1 {
        -n
    } else {
        0
    }
}

/// Whether the square `n` steps from `s` in direction `(df, dr)` is on the board.
pub open spec fn ray_ok(s: int, df: int, dr: int, n: int) -> bool {
    0 <= file_of(s) + times(n, df) < 8 && 0 <= rank_of(s) + times(n, dr) < 8
}

/// The square `n` steps from `s` in direction `(df, dr)`.
pub open spec fn ray_sq(s: int, df: int, dr: int, n: int) -> int {
    s + times(n, df) + 8 * times(n, dr)
}

/// Whether a sliding piece on `s` that moves in direction `d` attacks `t`
/// when the squares of `occ` are occupied: `t` lies on the ray and no
/// occupied square stands between `s` and `t`.
pub open spec fn ray_attacks(s: int, d: Direction, occ: Set<int>, t: int) -> bool {
    exists|n: int|
        1 <= n < 8 && ray_ok(s, d.df(), d.dr(), n) && t == ray_sq(s, d.df(), d.dr(), n) && (
        forall|m: int| 1 <= m < n ==> !occ.contains(#[trigger] ray_sq(s, d.df(), d.dr(), m)))
}

/// The direction pointing the other way.
pub open spec fn opposite(d: Direction) -> Direction {
    match d {
        Direction::North => Direction::South,
        Direction::NorthEast => Direction::SouthWest,
        Direction::East => Direction::West,
        Direction::SouthEast => Direction::NorthWest,
        Direction::South => Direction::North,
        Direction::SouthWest => Direction::NorthEast,
        Direction::West => Direction::East,
        Direction::NorthWest => Direction::SouthEast,
    }
}

/// A slider attacks along a line both ways: when one on `t` attacks `s`
/// along `d`, one on `s` attacks `t` along the opposite direction, past the
/// same empty squares.
pub proof fn lemma_ray_symmetric(t: int, d: Direction, occ: Set<int>, s: int)
    requires
        on_board(t),
        ray_attacks(t, d, occ, s),
    ensures
        on_board(s),
        ray_attacks(s, opposite(d), occ, t),
{
    let o = opposite(d);
    let n = choose|n: int|
        1 <= n < 8 && ray_ok(t, d.df(), d.dr(), n) && s == ray_sq(t, d.df(), d.dr(), n) && (
        forall|m: int| 1 <= m < n ==> !occ.contains(#[trigger] ray_sq(t, d.df(), d.dr(), m)));
    let a = times(n, d.df());
    let b = times(n, d.dr());
    assert(o.df() == -d.df() && o.dr() == -d.dr());
    assert(0 <= file_of(t) + a < 8 && 0 <= rank_of(t) + b < 8);
    assert(s == 8 * (rank_of(t) + b) + (file_of(t) + a));
    assert(file_of(s) == file_of(t) + a && rank_of(s) == rank_of(t) + b);
    assert(ray_ok(s, o.df(), o.dr(), n));
    assert(t == ray_sq(s, o.df(), o.dr(), n));
    assert forall|m: int| 1 <= m < n implies !occ.contains(#[trigger] ray_sq(s, o.df(), o.dr(), m)) by {
        assert(ray_sq(s, o.df(), o.dr(), m) == ray_sq(t, d.df(), d.dr(), n - m));
    }
}

/// The squares that a slider on `s` attacks along direction `d`.
pub open spec fn ray_set(s: int, d: Direction, occ: Set<int>) -> Set<int> {
    Set::new(|t: int| ray_attacks(s, d, occ, t))
}

/// The squares that a slider on `s` attacks along any of `dirs`.
pub open spec fn slide_set(s: int, dirs: Seq<Direction>, occ: Set<int>) -> Set<int> {
    Set::new(|t: int| exists|k: int| 0 <= k < dirs.len() && ray_attacks(s, #[trigger] dirs[k], occ, t))
}

/// The squares a bishop on `s` attacks.
pub open spec fn bishop_attack_set(s: int, occ: Set<int>) -> Set<int> {
    Set::new(
        |t: int|
            ray_attacks(s, Direction::NorthEast, occ, t) || ray_attacks(s, Direction::SouthEast, occ, t)
                || ray_attacks(s, Direction::SouthWest, occ, t) || ray_attacks(
                s,
                Direction::NorthWest,
                occ,
                t,
            ),
    )
}

/// The squares a rook on `s` attacks.
pub open spec fn rook_attack_set(s: int, occ: Set<int>) -> Set<int> {
    Set::new(
        |t: int|
            ray_attacks(s, Direction::North, occ, t) || ray_attacks(s, Direction::East, occ, t)
                || ray_attacks(s, Direction::South, occ, t) || ray_attacks(s, Direction::West, occ, t),
    )
}

/// The squares a knight on `s` attacks.
pub open spec fn knight_attack_set(s: int) -> Set<int> {
    Set::new(
        |t: int|
            on_board(t) && {
                let df = file_of(t) - file_of(s);
                let dr = rank_of(t) - rank_of(s);
                ((df == 1 || df == -1) && (dr == 2 || dr == -2)) || ((df == 2 || df == -2) && (dr == 1
                    || dr == -1))
            },
    )
}

/// The squares a king on `s` attacks.
pub open spec fn king_attack_set(s: int) -> Set<int> {
    Set::new(
        |t: int|
            on_board(t) && t != s && -1 <= file_of(t) - file_of(s) <= 1 && -1 <= rank_of(t) - rank_of(
                s,
            ) <= 1,
    )
}

/// The squares a pawn of `player` on `s` attacks.
pub open spec fn pawn_attack_set(s: int, player: Player) -> Set<int> {
    Set::new(
        |t: int|
            on_board(t) && (file_of(t) - file_of(s) == 1 || file_of(t) - file_of(s) == -1) && rank_of(t)
                - rank_of(s) == forward_dr(player),
    )
}

pub fn generate_pawn_attacks(square: Square, player: Player) -> (attacks: Bitboard)
    ensures attacks@ =~= pawn_attack_set(square@, player),
{
    let i = square.idx();
    let sq = square.bb();
    let ahead = sq.forward(player);
    let attacks = ahead.west().or(ahead.east());
    attacks
}

proof fn lemma_knight_steps(s: int)
    requires on_board(s),
    ensures
        knight_attack_set(s) =~= step_set(s, 1, 2).union(step_set(s, 2, 1)).union(step_set(s, 2, -1)).union(
            step_set(s, 1, -2),
        ).union(step_set(s, -1, -2)).union(step_set(s, -2, -1)).union(step_set(s, -2, 1)).union(
            step_set(s, -1, 2),
        ),
{
    let u = step_set(s, 1, 2).union(step_set(s, 2, 1)).union(step_set(s, 2, -1)).union(step_set(s, 1, -2)).union(
        step_set(s, -1, -2),
    ).union(step_set(s, -2, -1)).union(step_set(s, -2, 1)).union(step_set(s, -1, 2));
    assert forall|t: int| #[trigger] knight_attack_set(s).contains(t) implies u.contains(t) by {
        let df = file_of(t) - file_of(s);
        let dr = rank_of(t) - rank_of(s);
        assert(t == s + df + 8 * dr);
    }
    assert forall|t: int| #[trigger] u.contains(t) implies knight_attack_set(s).contains(t) by {
        if step_set(s, 1, 2).contains(t) { lemma_step_coords(s, 1, 2); }
        if step_set(s, 2, 1).contains(t) { lemma_step_coords(s, 2, 1); }
        if step_set(s, 2, -1).contains(t) { lemma_step_coords(s, 2, -1); }
        if step_set(s, 1, -2).contains(t) { lemma_step_coords(s, 1, -2); }
        if step_set(s, -1, -2).contains(t) { lemma_step_coords(s, -1, -2); }
        if step_set(s, -2, -1).contains(t) { lemma_step_coords(s, -2, -1); }
        if step_set(s, -2, 1).contains(t) { lemma_step_coords(s, -2, 1); }
        if step_set(s, -1, 2).contains(t) { lemma_step_coords(s, -1, 2); }
    }
}

pub fn generate_knight_attacks(square: Square) -> (attacks: Bitboard)
    ensures attacks@ =~= knight_attack_set(square@),
{
    let i = square.idx();
    let ghost s = square@;
    let sq = square.bb();
    proof {
        lemma_shift_single(s, 0, 1);
        lemma_shift_single(s, 1, 0);
        lemma_shift_single(s, 0, -1);
        lemma_shift_single(s, -1, 0);
        lemma_shift_step(s, 0, 1, 1, 1);
        lemma_shift_step(s, 1, 0, 1, 1);
        lemma_shift_step(s, 1, 0, 1, -1);
        lemma_shift_step(s, 0, -1, 1, -1);
        lemma_shift_step(s, 0, -1, -1, -1);
        lemma_shift_step(s, -1, 0, -1, -1);
        lemma_shift_step(s, -1, 0, -1, 1);
        lemma_shift_step(s, 0, 1, -1, 1);
        lemma_knight_steps(s);
    }
    let mut attacks = Bitboard::empty();

    // Going clockwise, starting at 12
    attacks = attacks.or(sq.north().north_east());
    attacks = attacks.or(sq.east().north_east());
    attacks = attacks.or(sq.east().south_east());
    attacks = attacks.or(sq.south().south_east());
    attacks = attacks.or(sq.south().south_west());
    attacks = attacks.or(sq.west().south_west());
    attacks = attacks.or(sq.west().north_west());
    attacks = attacks.or(sq.north().north_west());
    attacks
}

/// The file and rank change of one step in `direction`.
fn deltas(direction: Direction) -> (r: (i8, i8))
    ensures r.0 == direction.df(), r.1 == direction.dr(),
{
    match direction {
        Direction::North => (0, 1),
        Direction::NorthEast => (1, 1),
        Direction::East => (1, 0),
        Direction::SouthEast => (1, -1),
        Direction::South => (0, -1),
        Direction::SouthWest => (-1, -1),
        Direction::West => (-1, 0),
        Direction::NorthWest => (-1, 1),
    }
}

/// The squares a slider on `square` attacks along one direction: every
/// square up to and including the first occupied one.
pub fn generate_ray(square: Square, direction: Direction, pieces: Bitboard) -> (attacks: Bitboard)
    ensures attacks@ =~= ray_set(square@, direction, pieces@),
{
    let s = square.idx();
    let ghost sq = square@;
    let ghost df = direction.df();
    let ghost dr = direction.dr();
    let ghost occ = pieces@;
    let (dfx, drx) = deltas(direction);
    let mut f: i8 = (s % 8) as i8 + dfx;
    let mut r: i8 = (s / 8) as i8 + drx;
    let mut n: i8 = 1;
    let mut blocked = false;
    let mut attacks = Bitboard::empty();
    while !blocked && 0 <= f && f < 8 && 0 <= r && r < 8
        invariant
            1 <= n <= 8,
            sq == square@,
            0 <= sq < 64,
            df == direction.df(),
            dr == direction.dr(),
            dfx == df,
            drx == dr,
            occ == pieces@,
            f == file_of(sq) + times(n as int, df),
            r == rank_of(sq) + times(n as int, dr),
            forall|m: int| 1 <= m < n ==> ray_ok(sq, df, dr, m),
            forall|m: int| 1 <= m < n - 1 ==> !occ.contains(#[trigger] ray_sq(sq, df, dr, m)),
            !blocked ==> forall|m: int| 1 <= m < n ==> !occ.contains(#[trigger] ray_sq(sq, df, dr, m)),
            blocked ==> n >= 2 && occ.contains(ray_sq(sq, df, dr, n - 1)),
            forall|t: int| attacks@.contains(t) <==> exists|m: int| 1 <= m < n && t == #[trigger] ray_sq(sq, df, dr, m),
        decreases 8 - n,
    {
        proof {
            assert(n < 8) by {
                if n >= 8 {
                    assert(ray_ok(sq, df, dr, n as int));
                }
            }
            lemma_step_coords(sq, times(n as int, df), times(n as int, dr));
        }
        let t = Square::from_idxs(f as usize, r as usize);
        assert(t@ == ray_sq(sq, df, dr, n as int));
        attacks.set_inplace(t);
        proof {
            assert forall|u: int| attacks@.contains(u) <==> exists|m: int| 1 <= m < n + 1 && u == #[trigger] ray_sq(sq, df, dr, m) by {
                if u == t@ {
                    assert(u == ray_sq(sq, df, dr, n as int));
                }
            }
        }
        if pieces.contains(t) {
            blocked = true;
        }
        f = f + dfx;
        r = r + drx;
        n = n + 1;
    }
    proof {
        assert forall|u: int| #[trigger] ray_attacks(sq, direction, occ, u) implies attacks@.contains(u) by {
            let k = choose|k: int| 1 <= k < 8 && ray_ok(sq, df, dr, k) && u == ray_sq(sq, df, dr, k) && (
                forall|m: int| 1 <= m < k ==> !occ.contains(#[trigger] ray_sq(sq, df, dr, m)));
            if k >= n {
                if blocked {
                    assert(!occ.contains(ray_sq(sq, df, dr, n - 1)));
                } else {
                    assert(ray_ok(sq, df, dr, n as int));
                }
            }
        }
        assert forall|u: int| attacks@.contains(u) implies #[trigger] ray_attacks(sq, direction, occ, u) by {
            let m = choose|m: int| 1 <= m < n && u == #[trigger] ray_sq(sq, df, dr, m);
            assert(forall|j: int| 1 <= j < m ==> !occ.contains(#[trigger] ray_sq(sq, df, dr, j)));
        }
    }
    attacks
}

/// The squares a slider on `square` attacks along the given directions.
fn generate_sliding_attacks(square: Square, directions: &[Direction], pieces: Bitboard) -> (attacks: Bitboard)
    ensures attacks@ =~= slide_set(square@, directions@, pieces@),
{
    let mut attacks = Bitboard::empty();
    let mut i: usize = 0;
    while i < directions.len()
        invariant
            i <= directions@.len(),
            attacks@ =~= slide_set(square@, directions@.subrange(0, i as int), pieces@),
        decreases directions@.len() - i,
    {
        let ray = generate_ray(square, directions[i], pieces);
        proof {
            let prev = directions@.subrange(0, i as int);
            let next = directions@.subrange(0, i + 1);
            assert forall|t: int| #[trigger] slide_set(square@, next, pieces@).contains(t) == (slide_set(square@, prev, pieces@).contains(t) || ray@.contains(t)) by {
                if slide_set(square@, next, pieces@).contains(t) {
                    let k = choose|k: int| 0 <= k < next.len() && ray_attacks(square@, #[trigger] next[k], pieces@, t);
                    if k < i {
                        assert(prev[k] == next[k]);
                    }
                }
                if slide_set(square@, prev, pieces@).contains(t) {
                    let k = choose|k: int| 0 <= k < prev.len() && ray_attacks(square@, #[trigger] prev[k], pieces@, t);
                    assert(prev[k] == next[k]);
                }
                if ray@.contains(t) {
                    assert(next[i as int] == directions@[i as int]);
                }
            }
        }
        attacks = attacks.or(ray);
        i = i + 1;
    }
    proof {
        assert(directions@.subrange(0, directions@.len() as int) =~= directions@);
    }
    attacks
}

pub fn generate_bishop_attacks(square: Square, pieces: Bitboard) -> (attacks: Bitboard)
    ensures attacks@ =~= bishop_attack_set(square@, pieces@),
{
    let dirs = diagonal();
    let attacks = generate_sliding_attacks(square, dirs.as_slice(), pieces);
    proof {
        assert forall|t: int| #[trigger] attacks@.contains(t) == bishop_attack_set(square@, pieces@).contains(t) by {
            if ray_attacks(square@, Direction::NorthEast, pieces@, t) { assert(dirs@[0] == Direction::NorthEast); }
            if ray_attacks(square@, Direction::SouthEast, pieces@, t) { assert(dirs@[1] == Direction::SouthEast); }
            if ray_attacks(square@, Direction::SouthWest, pieces@, t) { assert(dirs@[2] == Direction::SouthWest); }
            if ray_attacks(square@, Direction::NorthWest, pieces@, t) { assert(dirs@[3] == Direction::NorthWest); }
        }
    }
    attacks
}

pub fn generate_rook_attacks(square: Square, pieces: Bitboard) -> (attacks: Bitboard)
    ensures attacks@ =~= rook_attack_set(square@, pieces@),
{
    let dirs = cardinal();
    let attacks = generate_sliding_attacks(square, dirs.as_slice(), pieces);
    proof {
        assert forall|t: int| #[trigger] attacks@.contains(t) == rook_attack_set(square@, pieces@).contains(t) by {
            if ray_attacks(square@, Direction::North, pieces@, t) { assert(dirs@[0] == Direction::North); }
            if ray_attacks(square@, Direction::East, pieces@, t) { assert(dirs@[1] == Direction::East); }
            if ray_attacks(square@, Direction::South, pieces@, t) { assert(dirs@[2] == Direction::South); }
            if ray_attacks(square@, Direction::West, pieces@, t) { assert(dirs@[3] == Direction::West); }
        }
    }
    attacks
}

pub fn generate_king_attacks(square: Square) -> (attacks: Bitboard)
    ensures attacks@ =~= king_attack_set(square@),
{
    let i = square.idx();
    let sq = square.bb();
    let mut attacks = Bitboard::empty();
    attacks = attacks.or(sq.north());
    attacks = attacks.or(sq.north_east());
    attacks = attacks.or(sq.east());
    attacks = attacks.or(sq.south_east());
    attacks = attacks.or(sq.south());
    attacks = attacks.or(sq.south_west());
    attacks = attacks.or(sq.west());
    attacks = attacks.or(sq.north_west());
    attacks
}

} // verus!
