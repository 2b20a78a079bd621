//! Bits and byte lanes of a 128-bit value.
//!
//! A value has sixteen byte lanes: lane 0 is its least significant byte,
//! lane 15 its most significant.

use vstd::arithmetic::div_mod::{lemma_div_denominator, lemma_mod_breakdown};
use vstd::arithmetic::power2::{lemma2_to64, lemma_pow2_pos, lemma_pow2_unfold, pow2};
use vstd::prelude::*;

verus! {

/// The number of ones in the binary representation of `n`.
pub open spec fn popcount(n: nat) -> nat
    decreases n,
{
    if n == 0 {
        0
    } else {
        (n % 2) + popcount(n / 2)
    }
}

/// Byte lane `i` of `x`.
pub open spec fn lane(x: u128, i: nat) -> u8 {
    ((x >> ((8 * i) as u128)) & 0xff) as u8
}

/// The number of ones in byte lane `i` of `x`.
pub open spec fn ones(x: u128, i: nat) -> nat {
    popcount(lane(x, i) as nat)
}

/// The ones in all sixteen byte lanes of `x`.
pub open spec fn ones_in_lanes(x: u128) -> nat {
    ones(x, 0) + ones(x, 1) + ones(x, 2) + ones(x, 3) + ones(x, 4) + ones(x, 5) + ones(x, 6)
        + ones(x, 7) + ones(x, 8) + ones(x, 9) + ones(x, 10) + ones(x, 11) + ones(x, 12) + ones(
        x,
        13,
    ) + ones(x, 14) + ones(x, 15)
}

/// `u8::count_ones` of std, which std documents to return the number of
/// ones in the binary representation of the byte. Trusted, not proved.
pub assume_specification[ u8::count_ones ](x: u8) -> (r: u32)
    ensures
        r == popcount(x as nat),
;

/// `u128::count_ones` of std, which std documents to return the number
/// of ones in the binary representation of the value. Trusted, not
/// proved.
pub assume_specification[ u128::count_ones ](x: u128) -> (r: u32)
    ensures
        r == popcount(x as nat),
;

/// Read byte lane `i` of `x`.
pub fn byte_lane(x: u128, i: u32) -> (b: u8)
    requires
        i < 16,
    ensures
        b == lane(x, i as nat),
{
    let shift: u32 = 8 * i;
    let by: u128 = shift as u128;
    assert((x >> by) & 0xff <= 0xff) by (bit_vector);
    ((x >> shift) & 0xff) as u8
}

/// Count the ones in byte lane `i` of `x`.
pub fn lane_ones(x: u128, i: u32) -> (count: u32)
    requires
        i < 16,
    ensures
        count == ones(x, i as nat),
        count <= 8,
{
    let b = byte_lane(x, i);
    proof {
        lemma_popcount_byte(b);
    }
    b.count_ones()
}

/// A value below `2^bits` has at most `bits` ones.
pub proof fn lemma_popcount_bound(n: nat, bits: nat)
    requires
        n < pow2(bits),
    ensures
        popcount(n) <= bits,
    decreases bits,
{
    if bits == 0 {
        lemma2_to64();
    } else if n != 0 {
        lemma_pow2_unfold(bits);
        lemma_popcount_bound(n / 2, (bits - 1) as nat);
    }
}

/// A byte has at most eight ones.
pub proof fn lemma_popcount_byte(b: u8)
    ensures
        popcount(b as nat) <= 8,
{
    lemma2_to64();
    lemma_popcount_bound(b as nat, 8);
}

/// A value that is not zero has a one.
pub proof fn lemma_popcount_positive(n: nat)
    requires
        n > 0,
    ensures
        popcount(n) > 0,
    decreases n,
{
    if n % 2 == 0 {
        lemma_popcount_positive(n / 2);
    }
}

/// The ones of a value are those below bit `k` and those from bit `k` up.
pub proof fn lemma_popcount_split(n: nat, k: nat)
    ensures
        popcount(n) == popcount(n % pow2(k)) + popcount(n / pow2(k)),
    decreases k,
{
    lemma2_to64();
    if k == 0 {
    } else if n == 0 {
        lemma_pow2_pos(k);
    } else {
        let m = pow2((k - 1) as nat);
        lemma_pow2_unfold(k);
        lemma_pow2_pos((k - 1) as nat);
        lemma_popcount_split(n / 2, (k - 1) as nat);
        lemma_mod_breakdown(n as int, 2, m as int);
        lemma_div_denominator(n as int, 2, m as int);
        let low = n % (2 * m);
        assert(low == 2 * ((n / 2) % m) + n % 2);
        assert(low % 2 == n % 2);
        assert(low / 2 == (n / 2) % m);
    }
}

/// The ones from lane `i` up are those of lane `i` and those from the
/// next lane up.
proof fn lemma_lane_step(x: u128, i: nat)
    requires
        i < 16,
    ensures
        popcount((x >> ((8 * i) as u128)) as nat) == ones(x, i) + if i < 15 {
            popcount((x >> ((8 * (i + 1)) as u128)) as nat)
        } else {
            0
        },
{
    let k = i as u128;
    let upper = x >> ((8 * k) as u128);
    lemma2_to64();
    lemma_popcount_split(upper as nat, 8);
    assert(upper & 0xff == upper % 256) by (bit_vector);
    if i < 15 {
        assert(k < 15 ==> x >> ((8 * (k + 1)) as u128) == (x >> ((8 * k) as u128)) / 256)
            by (bit_vector);
    } else {
        assert((x >> 120) / 256 == 0) by (bit_vector);
    }
}

/// The ones of a value are the ones of its sixteen byte lanes.
pub proof fn lemma_popcount_by_lanes(x: u128)
    ensures
        popcount(x as nat) == ones_in_lanes(x),
{
    assert(x >> 0 == x) by (bit_vector);
    lemma_lane_step(x, 0);
    lemma_lane_step(x, 1);
    lemma_lane_step(x, 2);
    lemma_lane_step(x, 3);
    lemma_lane_step(x, 4);
    lemma_lane_step(x, 5);
    lemma_lane_step(x, 6);
    lemma_lane_step(x, 7);
    lemma_lane_step(x, 8);
    lemma_lane_step(x, 9);
    lemma_lane_step(x, 10);
    lemma_lane_step(x, 11);
    lemma_lane_step(x, 12);
    lemma_lane_step(x, 13);
    lemma_lane_step(x, 14);
    lemma_lane_step(x, 15);
}

/// Two values with the same lane `i` agree in the byte at that place.
proof fn lemma_same_lane(x: u128, y: u128, i: nat)
    requires
        i < 16,
        lane(x, i) == lane(y, i),
    ensures
        (x >> ((8 * i) as u128)) & 0xff == (y >> ((8 * i) as u128)) & 0xff,
{
    let by = (8 * i) as u128;
    assert((x >> by) & 0xff <= 0xff) by (bit_vector);
    assert((y >> by) & 0xff <= 0xff) by (bit_vector);
}

/// A value is its sixteen byte lanes: two values with the same lanes are
/// the same value.
pub proof fn lemma_lanes_determine(x: u128, y: u128)
    requires
        forall|i: nat| i < 16 ==> lane(x, i) == lane(y, i),
    ensures
        x == y,
{
    lemma_same_lane(x, y, 0);
    lemma_same_lane(x, y, 1);
    lemma_same_lane(x, y, 2);
    lemma_same_lane(x, y, 3);
    lemma_same_lane(x, y, 4);
    lemma_same_lane(x, y, 5);
    lemma_same_lane(x, y, 6);
    lemma_same_lane(x, y, 7);
    lemma_same_lane(x, y, 8);
    lemma_same_lane(x, y, 9);
    lemma_same_lane(x, y, 10);
    lemma_same_lane(x, y, 11);
    lemma_same_lane(x, y, 12);
    lemma_same_lane(x, y, 13);
    lemma_same_lane(x, y, 14);
    lemma_same_lane(x, y, 15);
    assert(x == y) by (bit_vector)
        requires
            (x >> 0u128) & 0xff == (y >> 0u128) & 0xff,
            (x >> 8u128) & 0xff == (y >> 8u128) & 0xff,
            (x >> 16u128) & 0xff == (y >> 16u128) & 0xff,
            (x >> 24u128) & 0xff == (y >> 24u128) & 0xff,
            (x >> 32u128) & 0xff == (y >> 32u128) & 0xff,
            (x >> 40u128) & 0xff == (y >> 40u128) & 0xff,
            (x >> 48u128) & 0xff == (y >> 48u128) & 0xff,
            (x >> 56u128) & 0xff == (y >> 56u128) & 0xff,
            (x >> 64u128) & 0xff == (y >> 64u128) & 0xff,
            (x >> 72u128) & 0xff == (y >> 72u128) & 0xff,
            (x >> 80u128) & 0xff == (y >> 80u128) & 0xff,
            (x >> 88u128) & 0xff == (y >> 88u128) & 0xff,
            (x >> 96u128) & 0xff == (y >> 96u128) & 0xff,
            (x >> 104u128) & 0xff == (y >> 104u128) & 0xff,
            (x >> 112u128) & 0xff == (y >> 112u128) & 0xff,
            (x >> 120u128) & 0xff == (y >> 120u128) & 0xff,
    ;
}

} // verus!
