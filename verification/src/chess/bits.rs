//! Facts about the individual bits of a `u64`, on which the bitboard
//! contracts rest.

use vstd::prelude::*;
use vstd::std_specs::bits::{u64_trailing_zeros, axiom_u64_trailing_zeros};
use vstd::set_lib::{set_int_range, lemma_int_range};

verus! {

/// Whether bit `i` of `x` is set (bit 0 is the least significant).
pub open spec fn bit(x: u64, i: u64) -> bool {
    (x >> i) & 1u64 == 1u64
}

/// The set of bit positions in `0..64` that are set in `x`.
pub open spec fn bits_of(x: u64) -> Set<int> {
    set_int_range(0, 64).filter(|i: int| bit(x, i as u64))
}

pub proof fn lemma_bit_and(a: u64, b: u64, i: u64)
    requires i < 64,
    ensures bit(a & b, i) == (bit(a, i) && bit(b, i)),
{
    assert(((a & b) >> i) & 1u64 == 1u64 <==> (((a >> i) & 1u64 == 1u64) && ((b >> i) & 1u64 == 1u64))) by (bit_vector)
        requires i < 64;
}

pub proof fn lemma_bit_or(a: u64, b: u64, i: u64)
    requires i < 64,
    ensures bit(a | b, i) == (bit(a, i) || bit(b, i)),
{
    assert(((a | b) >> i) & 1u64 == 1u64 <==> (((a >> i) & 1u64 == 1u64) || ((b >> i) & 1u64 == 1u64))) by (bit_vector)
        requires i < 64;
}

pub proof fn lemma_bit_xor(a: u64, b: u64, i: u64)
    requires i < 64,
    ensures bit(a ^ b, i) == (bit(a, i) != bit(b, i)),
{
    assert(((a ^ b) >> i) & 1u64 == 1u64 <==> (((a >> i) & 1u64 == 1u64) != ((b >> i) & 1u64 == 1u64))) by (bit_vector)
        requires i < 64;
}

pub proof fn lemma_bit_not(a: u64, i: u64)
    requires i < 64,
    ensures bit(!a, i) == !bit(a, i),
{
    assert(((!a) >> i) & 1u64 == 1u64 <==> !((a >> i) & 1u64 == 1u64)) by (bit_vector)
        requires i < 64;
}

pub proof fn lemma_bit_shl(a: u64, k: u64, i: u64)
    requires i < 64, k < 64,
    ensures bit(a << k, i) == (i >= k && bit(a, (i - k) as u64)),
{
    assert(((a << k) >> i) & 1u64 == 1u64 <==> (i >= k && ((a >> ((i - k) as u64)) & 1u64 == 1u64))) by (bit_vector)
        requires i < 64, k < 64;
}

pub proof fn lemma_bit_shr(a: u64, k: u64, i: u64)
    requires i < 64, k < 64,
    ensures bit(a >> k, i) == (i + k < 64 && bit(a, (i + k) as u64)),
{
    assert(((a >> k) >> i) & 1u64 == 1u64 <==> (i + k < 64 && ((a >> ((i + k) as u64)) & 1u64 == 1u64))) by (bit_vector)
        requires i < 64, k < 64;
}

pub proof fn lemma_bit_zero(i: u64)
    requires i < 64,
    ensures !bit(0, i),
{
    assert(!((0u64 >> i) & 1u64 == 1u64)) by (bit_vector)
        requires i < 64;
}

pub proof fn lemma_bit_full(i: u64)
    requires i < 64,
    ensures bit(0xffff_ffff_ffff_ffffu64, i),
{
    assert((0xffff_ffff_ffff_ffffu64 >> i) & 1u64 == 1u64) by (bit_vector)
        requires i < 64;
}

pub proof fn lemma_bit_single(s: u64, i: u64)
    requires s < 64, i < 64,
    ensures bit(1u64 << s, i) == (i == s),
{
    assert(((1u64 << s) >> i) & 1u64 == 1u64 <==> i == s) by (bit_vector)
        requires s < 64, i < 64;
}

pub proof fn lemma_bits_of_finite(x: u64)
    ensures
        bits_of(x).finite(),
        bits_of(x).len() <= 64,
        bits_of(x).subset_of(set_int_range(0, 64)),
{
    lemma_int_range(0, 64);
    set_int_range(0, 64).lemma_len_filter(|i: int| bit(x, i as u64));
}

/// A word is zero exactly when none of its bits is set.
pub proof fn lemma_zero_iff_no_bits(x: u64)
    ensures (x == 0) == (bits_of(x) =~= Set::<int>::empty()),
{
    if x == 0 {
        assert forall|i: int| !bits_of(x).contains(i) by {
            if 0 <= i < 64 {
                lemma_bit_zero(i as u64);
            }
        }
    } else {
        axiom_u64_trailing_zeros(x);
        let t = u64_trailing_zeros(x);
        assert(t < 64);
        assert(bits_of(x).contains(t as int));
    }
}

/// The lowest set bit of a nonzero word is its count of trailing zeros.
pub proof fn lemma_trailing_zeros_is_min(x: u64)
    requires x != 0,
    ensures
        u64_trailing_zeros(x) < 64,
        bits_of(x).contains(u64_trailing_zeros(x) as int),
        forall|i: int| #[trigger] bits_of(x).contains(i) ==> u64_trailing_zeros(x) <= i,
{
    axiom_u64_trailing_zeros(x);
    let t = u64_trailing_zeros(x);
    assert forall|i: int| #[trigger] bits_of(x).contains(i) implies t <= i by {
        if i < t {
            assert((x >> (i as u64)) & 1u64 == 0u64);
        }
    }
}

/// Two words with the same bits are equal.
pub proof fn lemma_bits_ext(a: u64, b: u64)
    requires bits_of(a) =~= bits_of(b),
    ensures a == b,
{
    lemma_bits_ext_from(a, b, 0);
    assert(a >> 0u64 == a && b >> 0u64 == b) by (bit_vector);
}

proof fn lemma_bits_ext_from(a: u64, b: u64, k: u64)
    requires
        k < 64,
        bits_of(a) =~= bits_of(b),
    ensures a >> k == b >> k,
    decreases 63 - k,
{
    assert(bits_of(a).contains(k as int) == bits_of(b).contains(k as int));
    if k == 63 {
        assert(bit(a, 63) == bit(b, 63));
        assert(((a >> 63u64) & 1u64 == 1u64) == ((b >> 63u64) & 1u64 == 1u64) ==> a >> 63u64 == b >> 63u64) by (bit_vector);
    } else {
        lemma_bits_ext_from(a, b, (k + 1) as u64);
        assert(bit(a, k) == bit(b, k));
        assert(k < 63 && a >> ((k + 1) as u64) == b >> ((k + 1) as u64) && (((a >> k) & 1u64 == 1u64) == ((b >> k) & 1u64 == 1u64)) ==> a >> k == b >> k) by (bit_vector);
    }
}

} // verus!
