//! What holds of every hash and of every difference.

use crate::bits::{
    lane, lemma_lanes_determine, lemma_popcount_by_lanes, lemma_popcount_positive, ones, popcount,
};
use crate::distance::{graduated, lane_cost, SIMILARITY_BOUND};
use crate::encoding::{
    accepted, fingerprint, head, laid_out, lemma_accepted_saturates, lemma_fingerprint_layout,
    pack, tail, FOLD_LIMIT, TAIL_LANES,
};
use crate::raw::{is_letter, letter_index, spec_map_first};
use crate::{lemma_difference_by_view, lemma_from_view, lemma_hash_by_view, lemma_sub_view};
use core::cmp::Ordering;
use vstd::prelude::*;
use vstd::std_specs::cmp::PartialOrdSpec;
use vstd::std_specs::convert::FromSpec;
use vstd::std_specs::ops::SubSpec;
use vstd::string::StringSliceAdditionalSpecFns;

verus! {

/// Every lane but lane 1.
pub const COUNTED_LANES: u128 = 0xffff_ffff_ffff_ffff_ffff_ffff_ffff_00ff;

/// Hashing is a function of the word: two hashes of the same word are
/// the same hash.
pub proof fn law_hash_deterministic(a: &str, b: &str, hash_a: crate::Hash, hash_b: crate::Hash)
    requires
        a@ == b@,
        hash_a@ == fingerprint(a.spec_bytes()),
        hash_b@ == fingerprint(b.spec_bytes()),
    ensures
        hash_a == hash_b,
{
    lemma_hash_by_view(hash_a, hash_b);
}

/// A hash turned into its integer and back is the same hash.
pub proof fn law_integer_round_trip(f: crate::Hash)
    ensures
        <crate::Hash as FromSpec<u128>>::from_spec(<u128 as FromSpec<crate::Hash>>::from_spec(f))
            == f,
{
    lemma_from_view(f@);
    lemma_hash_by_view(<crate::Hash as FromSpec<u128>>::from_spec(f@), f);
}

/// An integer turned into a hash and back is the same integer: every
/// integer is held by a hash.
pub proof fn law_hash_round_trip(value: u128)
    ensures
        <u128 as FromSpec<crate::Hash>>::from_spec(
            <crate::Hash as FromSpec<u128>>::from_spec(value),
        ) == value,
{
    lemma_from_view(value);
}

/// Hashes are ordered as the integers that they hold, and any two of
/// them are ordered.
pub proof fn law_ordered_as_integers(a: crate::Hash, b: crate::Hash)
    ensures
        a.partial_cmp_spec(&b) == Some(Ordering::Less) <==> a@ < b@,
        a.partial_cmp_spec(&b) == Some(Ordering::Equal) <==> a == b,
        a.partial_cmp_spec(&b) == Some(Ordering::Greater) <==> a@ > b@,
{
    lemma_hash_by_view(a, b);
}

/// The difference of a hash and itself is zero under every distance.
pub proof fn law_difference_identity(f: crate::Hash)
    ensures
        f.sub_spec(f)@ == 0,
        popcount(f.sub_spec(f)@ as nat) == 0,
        graduated(f.sub_spec(f)@) == 0,
{
    lemma_sub_view(f, f);
    let x = f@;
    assert(x ^ x == 0) by (bit_vector);
    lemma_graduated_zero();
}

/// The XOR distance is zero exactly between a hash and itself.
pub proof fn law_xor_zero_iff_same(a: crate::Hash, b: crate::Hash)
    ensures
        a.sub_spec(b)@ == 0 <==> a == b,
{
    lemma_sub_view(a, b);
    lemma_hash_by_view(a, b);
    let x = a@;
    let y = b@;
    assert(x ^ y == 0 <==> x == y) by (bit_vector);
}

/// The difference does not depend on the order of the two hashes.
pub proof fn law_difference_symmetric(a: crate::Hash, b: crate::Hash)
    ensures
        a.sub_spec(b)@ == b.sub_spec(a)@,
        a.sub_spec(b) == b.sub_spec(a),
{
    lemma_sub_view(a, b);
    lemma_sub_view(b, a);
    let x = a@;
    let y = b@;
    assert(x ^ y == y ^ x) by (bit_vector);
    lemma_difference_by_view(a.sub_spec(b), b.sub_spec(a));
}

/// No bits, no distance.
pub proof fn lemma_graduated_zero()
    ensures
        graduated(0) == 0,
{
    assert forall|i: nat| i < 16 implies #[trigger] lane_cost(0, i) == 0 by {
        let k = i as u128;
        assert(((0u128 >> ((8 * k) as u128)) & 0xff) == 0) by (bit_vector);
    }
}

/// Lane 1 is left out of the graduated distance: clearing it changes
/// nothing.
pub proof fn law_lane_one_not_counted(x: u128)
    ensures
        lane_cost(x, 1) == 0,
        graduated(x & COUNTED_LANES) == graduated(x),
{
    assert forall|i: nat| i < 16 && i != 1 implies lane(x & COUNTED_LANES, i) == lane(x, i) by {
        let k = i as u128;
        assert(k < 16 && k != 1 ==> (((x & COUNTED_LANES) >> ((8 * k) as u128)) & 0xff) == ((x >> ((
        8 * k) as u128)) & 0xff)) by (bit_vector);
    }
}

/// Two hashes that differ in lane 1 alone differ by the flat distance,
/// and not by the graduated one.
pub proof fn law_lane_one_excluded(a: crate::Hash, b: crate::Hash)
    requires
        a != b,
        (a@ ^ b@) & COUNTED_LANES == 0,
    ensures
        popcount(a.sub_spec(b)@ as nat) > 0,
        graduated(a.sub_spec(b)@) == 0,
{
    lemma_sub_view(a, b);
    law_xor_zero_iff_same(a, b);
    let d = a@ ^ b@;
    lemma_popcount_positive(d as nat);
    law_lane_one_not_counted(d);
    lemma_graduated_zero();
}

/// Two words that differ in their first byte alone have hashes that
/// differ in lane 15 alone, by the bits in which the classes of the two
/// first bytes differ, and each such bit adds 30 to the graduated
/// distance.
pub proof fn law_first_byte_confined(x: Seq<u8>, y: Seq<u8>)
    requires
        x.len() > 0,
        y.len() > 0,
        tail(x) == tail(y),
    ensures
        (fingerprint(x) ^ fingerprint(y)) & TAIL_LANES == 0,
        lane(fingerprint(x) ^ fingerprint(y), 15) == spec_map_first(x[0]) ^ spec_map_first(y[0]),
        graduated(fingerprint(x) ^ fingerprint(y)) == 30 * popcount(
            (spec_map_first(x[0]) ^ spec_map_first(y[0])) as nat,
        ),
{
    let class_x = spec_map_first(x[0]);
    let class_y = spec_map_first(y[0]);
    let folded = pack(accepted(tail(x)));
    let d = fingerprint(x) ^ fingerprint(y);
    assert(d & TAIL_LANES == 0 && (d >> 120) & 0xff == class_x ^ class_y) by (bit_vector)
        requires
            d == ((folded & TAIL_LANES) | ((class_x as u128) << 120)) ^ ((folded & TAIL_LANES) | ((
            class_y as u128) << 120)),
    ;
    assert forall|i: nat| i < 15 implies lane(d, i) == 0 by {
        let k = i as u128;
        assert(k < 15 && d & TAIL_LANES == 0 ==> (d >> ((8 * k) as u128)) & 0xff == 0)
            by (bit_vector);
    }
}

/// The first byte dominates: where the first bytes of two such words are
/// of different classes, the hashes differ in lane 15, and the graduated
/// distance is 30 or more, so that the words are not similar.
pub proof fn law_first_byte_dominates(x: Seq<u8>, y: Seq<u8>)
    requires
        x.len() > 0,
        y.len() > 0,
        tail(x) == tail(y),
        spec_map_first(x[0]) != spec_map_first(y[0]),
    ensures
        lane(fingerprint(x), 15) != lane(fingerprint(y), 15),
        fingerprint(x) != fingerprint(y),
        graduated(fingerprint(x) ^ fingerprint(y)) >= 30,
        !(graduated(fingerprint(x) ^ fingerprint(y)) < SIMILARITY_BOUND),
{
    let class_x = spec_map_first(x[0]);
    let class_y = spec_map_first(y[0]);
    lemma_fingerprint_layout(x);
    lemma_fingerprint_layout(y);
    law_first_byte_confined(x, y);
    assert(class_x ^ class_y != 0) by (bit_vector)
        requires
            class_x != class_y,
    ;
    lemma_popcount_positive((class_x ^ class_y) as nat);
}

/// Words are cut at the fold limit: two words that agree up to the byte
/// that emits code number `FOLD_LIMIT` have the same hash, whatever
/// follows in either.
pub proof fn law_truncation(x: Seq<u8>, y: Seq<u8>, shared: int)
    requires
        1 <= shared <= x.len(),
        shared <= y.len(),
        x.take(shared) == y.take(shared),
        accepted(tail(x.take(shared))).len() >= FOLD_LIMIT,
    ensures
        fingerprint(x) == fingerprint(y),
{
    assert(tail(x).take(shared - 1) =~= tail(x.take(shared)));
    assert(tail(y).take(shared - 1) =~= tail(y.take(shared)));
    lemma_accepted_saturates(tail(x), shared - 1);
    lemma_accepted_saturates(tail(y), shared - 1);
    assert(head(x) == x.take(shared).first());
    assert(head(y) == y.take(shared).first());
}

/// The flat distance counts what the graduated distance weighs: no bit
/// weighs more than 30, and every bit outside lane 1 weighs at least 1.
pub proof fn law_graduated_against_flat(x: u128)
    ensures
        graduated(x) <= 30 * popcount(x as nat),
        popcount(x as nat) <= graduated(x) + ones(x, 1),
{
    lemma_popcount_by_lanes(x);
}

/// In first position every letter has a class of its own: two letters of
/// one class are the same letter, but for its case.
pub proof fn law_first_class_tells_letters_apart(a: u8, b: u8)
    requires
        is_letter(a),
        is_letter(b),
        spec_map_first(a) == spec_map_first(b),
    ensures
        letter_index(a) == letter_index(b),
{
}

/// The layout says all there is to say of a hash: a value laid out as
/// the hash of `bytes` is that hash.
pub proof fn law_layout_determines_hash(hash: u128, bytes: Seq<u8>)
    requires
        laid_out(hash, bytes),
    ensures
        hash == fingerprint(bytes),
{
    lemma_fingerprint_layout(bytes);
    lemma_lanes_determine(hash, fingerprint(bytes));
}

} // verus!
