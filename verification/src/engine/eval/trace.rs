//! Counts of how often each evaluation parameter applies to a position,
//! White's counted up and Black's down.

use vstd::prelude::*;
use crate::chess::player::Player;

verus! {

/// How often one parameter applies: White's uses minus Black's.
#[derive(Clone, Copy, Debug)]
pub struct TraceComponent(pub i32);

impl TraceComponent {
    /// A component that counts nothing yet.
    pub fn zero() -> (r: Self)
        ensures r.0 == 0,
    {
        TraceComponent(0)
    }

    /// Counts one use by `player`.
    pub fn incr(&mut self, player: Player)
        requires i32::MIN < old(self).0 < i32::MAX,
        ensures final(self).0 == old(self).0 + if player == Player::White { 1int } else { -1int },
    {
        self.add(player, 1);
    }

    /// Counts `n` uses by `player`.
    pub fn add(&mut self, player: Player, n: i32)
        requires
            n != i32::MIN,
            i32::MIN <= old(self).0 + (if player == Player::White { n as int } else { -n }) <= i32::MAX,
        ensures final(self).0 == old(self).0 + if player == Player::White { n as int } else { -n },
    {
        let multiplier: i32 = if player == Player::White { 1 } else { -1 };
        self.0 = self.0 + n * multiplier;
    }
}

/// The counts of every parameter of the evaluation.
pub struct Trace {
    pub material: [TraceComponent; 6],
    pub pawn_pst: [TraceComponent; 64],
    pub knight_pst: [TraceComponent; 64],
    pub bishop_pst: [TraceComponent; 64],
    pub rook_pst: [TraceComponent; 64],
    pub queen_pst: [TraceComponent; 64],
    pub king_pst: [TraceComponent; 64],
    pub passed_pawn_pst: [TraceComponent; 64],
    pub knight_mobility: [TraceComponent; 9],
    pub bishop_mobility: [TraceComponent; 14],
    pub rook_mobility: [TraceComponent; 15],
    pub queen_mobility: [TraceComponent; 28],
    pub attacked_king_squares: [TraceComponent; 9],
    pub bishop_pair: TraceComponent,
}

/// Whether every component of a list counts nothing.
pub open spec fn all_zero(s: Seq<TraceComponent>) -> bool {
    forall|i: int| 0 <= i < s.len() ==> (#[trigger] s[i]).0 == 0
}

impl Trace {
    /// A trace that counts nothing yet.
    pub fn new() -> (t: Self)
        ensures
            all_zero(t.material@), all_zero(t.pawn_pst@), all_zero(t.knight_pst@), all_zero(t.bishop_pst@),
            all_zero(t.rook_pst@), all_zero(t.queen_pst@), all_zero(t.king_pst@), all_zero(t.passed_pawn_pst@),
            all_zero(t.knight_mobility@), all_zero(t.bishop_mobility@), all_zero(t.rook_mobility@),
            all_zero(t.queen_mobility@), all_zero(t.attacked_king_squares@), t.bishop_pair.0 == 0,
    {
        let z = TraceComponent(0);
        Trace {
            material: [z; 6],
            pawn_pst: [z; 64],
            knight_pst: [z; 64],
            bishop_pst: [z; 64],
            rook_pst: [z; 64],
            queen_pst: [z; 64],
            king_pst: [z; 64],
            passed_pawn_pst: [z; 64],
            knight_mobility: [z; 9],
            bishop_mobility: [z; 14],
            rook_mobility: [z; 15],
            queen_mobility: [z; 28],
            attacked_king_squares: [z; 9],
            bishop_pair: z,
        }
    }
}

/// The number of parameters a trace counts.
pub const TRACE_SIZE: usize = 530;

/// A parameter that applies to a position: its position among all the
/// parameters, and its count.
#[derive(Clone, Copy, Debug, PartialEq, Eq)]
pub struct NonZeroCoefficient {
    pub idx: usize,
    pub value: i32,
}

impl NonZeroCoefficient {
    pub fn new(idx: usize, value: i32) -> (r: Self)
        ensures r.idx == idx, r.value == value,
    {
        NonZeroCoefficient { idx, value }
    }
}

/// All the counts of a trace, in the order of its fields.
pub open spec fn trace_values(t: Trace) -> Seq<TraceComponent> {
    t.material@ + t.pawn_pst@ + t.knight_pst@ + t.bishop_pst@ + t.rook_pst@ + t.queen_pst@
        + t.king_pst@ + t.passed_pawn_pst@ + t.knight_mobility@ + t.bishop_mobility@
        + t.rook_mobility@ + t.queen_mobility@ + t.attacked_king_squares@ + seq![t.bishop_pair]
}

/// The counts of `s` that are not zero, each with its position counted
/// from `offset`.
pub open spec fn non_zero_from(s: Seq<TraceComponent>, offset: int) -> Seq<NonZeroCoefficient>
    decreases s.len(),
{
    if s.len() == 0 {
        Seq::empty()
    } else {
        let rest = non_zero_from(s.drop_last(), offset);
        if s.last().0 != 0 {
            rest.push(NonZeroCoefficient { idx: (offset + s.len() - 1) as usize, value: s.last().0 })
        } else {
            rest
        }
    }
}

/// The non-zero counts of two lists one after the other are those of the
/// first, then those of the second counted on from the end of the first.
pub proof fn lemma_non_zero_concat(a: Seq<TraceComponent>, b: Seq<TraceComponent>, offset: int)
    ensures non_zero_from(a + b, offset) == non_zero_from(a, offset) + non_zero_from(b, offset + a.len()),
    decreases b.len(),
{
    if b.len() == 0 {
        assert(a + b =~= a);
        assert(non_zero_from(a, offset) + Seq::<NonZeroCoefficient>::empty() =~= non_zero_from(a, offset));
    } else {
        lemma_non_zero_concat(a, b.drop_last(), offset);
        assert((a + b).drop_last() =~= a + b.drop_last());
        assert((a + b).last() == b.last());
        let ra = non_zero_from(a, offset);
        let rb = non_zero_from(b.drop_last(), offset + a.len());
        if b.last().0 != 0 {
            assert((ra + rb).push(NonZeroCoefficient { idx: (offset + a.len() + b.len() - 1) as usize, value: b.last().0 })
                =~= ra + rb.push(NonZeroCoefficient { idx: (offset + a.len() + b.len() - 1) as usize, value: b.last().0 }));
        }
    }
}

/// Collects the non-zero counts of lists of components, numbering their
/// positions on from one list to the next.
pub struct CoefficientBuilder {
    value: Vec<NonZeroCoefficient>,
    idx: usize,
    seen: Ghost<Seq<TraceComponent>>,
}

impl CoefficientBuilder {
    /// The components added so far.
    pub closed spec fn components(self) -> Seq<TraceComponent> {
        self.seen@
    }

    /// The builder holds the non-zero counts of the components added so far.
    pub closed spec fn wf(self) -> bool {
        &&& self.value@ == non_zero_from(self.seen@, 0)
        &&& self.idx == self.seen@.len()
    }

    /// A builder with nothing added.
    pub fn new() -> (r: Self)
        ensures r.wf(), r.components() == Seq::<TraceComponent>::empty(),
    {
        CoefficientBuilder { value: Vec::new(), idx: 0, seen: Ghost(Seq::empty()) }
    }

    /// Adds the components of a list.
    pub fn add(&mut self, s: &[TraceComponent])
        requires
            old(self).wf(),
            old(self).components().len() + s@.len() <= TRACE_SIZE,
        ensures
            final(self).wf(),
            final(self).components() == old(self).components() + s@,
    {
        let ghost before = self.seen@;
        let base = self.idx;
        let mut i: usize = 0;
        proof { assert(s@.subrange(0, 0) =~= Seq::<TraceComponent>::empty()); }
        while i < s.len()
            invariant
                i <= s@.len(),
                base == before.len(),
                self.idx == base,
                base + s@.len() <= TRACE_SIZE,
                self.seen@ == before,
                self.value@ == non_zero_from(before, 0) + non_zero_from(s@.subrange(0, i as int), base as int),
            decreases s@.len() - i,
        {
            let coefficient = s[i].0;
            let ghost prefix = s@.subrange(0, i as int);
            let ghost next = s@.subrange(0, i + 1);
            proof {
                assert(next.drop_last() =~= prefix);
                assert(next.last() == s@[i as int]);
            }
            if coefficient != 0 {
                self.value.push(NonZeroCoefficient::new(base + i, coefficient));
                proof {
                    assert(self.value@ =~= non_zero_from(before, 0) + non_zero_from(next, base as int));
                }
            }
            i = i + 1;
        }
        self.idx = self.idx + s.len();
        proof {
            assert(s@.subrange(0, s@.len() as int) =~= s@);
            lemma_non_zero_concat(before, s@, 0);
        }
        self.seen = Ghost(before + s@);
    }

    /// The non-zero counts collected, once every parameter was added.
    pub fn get(&self) -> (r: Vec<NonZeroCoefficient>)
        requires
            self.wf(),
            self.components().len() == TRACE_SIZE,
        ensures r@ == non_zero_from(self.components(), 0),
    {
        let mut r: Vec<NonZeroCoefficient> = Vec::new();
        let mut i: usize = 0;
        while i < self.value.len()
            invariant
                i <= self.value@.len(),
                r@ == self.value@.subrange(0, i as int),
            decreases self.value@.len() - i,
        {
            r.push(self.value[i]);
            proof { assert(r@ =~= self.value@.subrange(0, i + 1)); }
            i = i + 1;
        }
        proof { assert(r@ =~= self.value@); }
        r
    }
}

impl Trace {
    /// The parameters that apply, with their counts, numbered in the order
    /// of the trace's fields.
    pub fn non_zero_coefficients(&self) -> (r: Vec<NonZeroCoefficient>)
        ensures r@ == non_zero_from(trace_values(*self), 0),
    {
        let mut builder = CoefficientBuilder::new();
        builder.add(&self.material);
        builder.add(&self.pawn_pst);
        builder.add(&self.knight_pst);
        builder.add(&self.bishop_pst);
        builder.add(&self.rook_pst);
        builder.add(&self.queen_pst);
        builder.add(&self.king_pst);
        builder.add(&self.passed_pawn_pst);
        builder.add(&self.knight_mobility);
        builder.add(&self.bishop_mobility);
        builder.add(&self.rook_mobility);
        builder.add(&self.queen_mobility);
        builder.add(&self.attacked_king_squares);
        let pair = [self.bishop_pair];
        builder.add(&pair);
        proof {
            assert(pair@ =~= seq![self.bishop_pair]);
            assert(builder.components() =~= trace_values(*self));
        }
        builder.get()
    }
}

} // verus!
