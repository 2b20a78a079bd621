//! A phonetic hash of words that keeps similar words close.
//!
//! `Hash::new` folds a word into 128 bits: the class of its first byte,
//! and below it the phones of the bytes that follow. The difference of two
//! hashes tells how far apart the words sound: `Difference::dist` weighs
//! each mismatch by its place in the word, `Difference::hamming` counts
//! them all alike, and `Difference::similar` draws the line.

use crate::bits::{lane_ones, popcount};
use crate::distance::{graduated, SIMILARITY_BOUND};
use crate::encoding::{encode, fingerprint, laid_out};
use core::cmp::Ordering;
use vstd::prelude::*;
use vstd::std_specs::ops::SubSpec;
use vstd::string::StringSliceAdditionalSpecFns;

pub mod bits;
pub mod distance;
pub mod encoding;
pub mod laws;
pub mod raw;

verus! {

/// A phonetic hash.
///
/// Lane 15 holds the class of the word's first byte. The lanes below hold
/// the codes of the bytes that follow, the last one accepted in lane 0.
/// Taking the difference of two hashes, with `-`, gives a `Difference`.
#[derive(Copy, Clone, Hash, PartialEq, Eq, Ord, Debug, Structural)]
pub struct Hash {
    hash: u128,
}

/// A hash is seen as the integer that it holds.
impl View for Hash {
    type V = u128;

    closed spec fn view(&self) -> u128 {
        self.hash
    }
}

impl Hash {
    /// Phonetically hash this string.
    ///
    /// The string is read as its bytes. Every string has a hash: the empty
    /// string is classified as the byte 0, and what follows the sixteenth
    /// accepted code is left out.
    pub fn new(string: &str) -> (h: Hash)
        ensures
            h@ == fingerprint(string.spec_bytes()),
            laid_out(h@, string.spec_bytes()),
    {
        Hash { hash: encode(string.as_bytes()) }
    }
}

/// Hashes are ordered as the integers that they hold.
impl PartialOrd for Hash {
    fn partial_cmp(&self, other: &Hash) -> (order: Option<Ordering>) {
        if self.hash < other.hash {
            Some(Ordering::Less)
        } else if self.hash == other.hash {
            Some(Ordering::Equal)
        } else {
            Some(Ordering::Greater)
        }
    }
}

impl vstd::std_specs::cmp::PartialOrdSpecImpl for Hash {
    open spec fn obeys_partial_cmp_spec() -> bool {
        true
    }

    open spec fn partial_cmp_spec(&self, other: &Hash) -> Option<Ordering> {
        if self@ < other@ {
            Some(Ordering::Less)
        } else if self@ == other@ {
            Some(Ordering::Equal)
        } else {
            Some(Ordering::Greater)
        }
    }
}

/// Get a `Hash` from the integer that it holds.
impl From<u128> for Hash {
    fn from(hash: u128) -> (h: Hash)
        ensures
            h@ == hash,
    {
        Hash { hash }
    }
}

impl vstd::std_specs::convert::FromSpecImpl<u128> for Hash {
    open spec fn obeys_from_spec() -> bool {
        true
    }

    closed spec fn from_spec(hash: u128) -> Hash {
        Hash { hash }
    }
}

/// Get the integer that a `Hash` holds.
impl From<Hash> for u128 {
    fn from(h: Hash) -> (hash: u128)
        ensures
            hash == h@,
    {
        h.hash
    }
}

impl vstd::std_specs::convert::FromSpecImpl<Hash> for u128 {
    open spec fn obeys_from_spec() -> bool {
        true
    }

    open spec fn from_spec(h: Hash) -> u128 {
        h@
    }
}

/// Calculate the difference of two hashes.
impl core::ops::Sub for Hash {
    type Output = Difference;

    fn sub(self, rhs: Hash) -> (d: Difference)
        ensures
            d@ == self@ ^ rhs@,
    {
        Difference { xor: self.hash ^ rhs.hash }
    }
}

impl vstd::std_specs::ops::SubSpecImpl for Hash {
    open spec fn obeys_sub_spec() -> bool {
        true
    }

    open spec fn sub_req(self, rhs: Hash) -> bool {
        true
    }

    closed spec fn sub_spec(self, rhs: Hash) -> Difference {
        Difference { xor: self@ ^ rhs@ }
    }
}

/// The difference between two words.
#[derive(Copy, Clone)]
pub struct Difference {
    xor: u128,
}

/// A difference is seen as the bits in which the two hashes differ.
impl View for Difference {
    type V = u128;

    closed spec fn view(&self) -> u128 {
        self.xor
    }
}

impl Difference {
    /// The "graduated" distance.
    ///
    /// This counts the differing bits of each byte lane and weighs them by
    /// the lane: a mismatch near the first byte of the word costs more
    /// than one far from it, and one in lane 1 costs nothing. For most
    /// uses this is the distance to prefer.
    pub fn dist(self) -> (d: u32)
        ensures
            d == graduated(self@),
    {
        let x = self.xor;
        lane_ones(x, 0) + lane_ones(x, 2) + lane_ones(x, 3) + lane_ones(x, 4) + lane_ones(x, 5) * 2
            + lane_ones(x, 6) * 3 + lane_ones(x, 7) * 8 + lane_ones(x, 8) * 12 + lane_ones(x, 9)
            * 13 + lane_ones(x, 10) * 14 + lane_ones(x, 11) * 18 + lane_ones(x, 12) * 20
            + lane_ones(x, 13) * 21 + lane_ones(x, 14) * 22 + lane_ones(x, 15) * 30
    }

    /// The XOR distance: the bits in which the two hashes differ.
    pub fn xor(self) -> (x: u128)
        ensures
            x == self@,
    {
        self.xor
    }

    /// The "flat" Hamming distance: the number of differing bits, each
    /// with the same weight, wherever in the word it stands.
    pub fn hamming(self) -> (h: u32)
        ensures
            h == popcount(self@ as nat),
    {
        self.xor.count_ones()
    }

    /// Does this difference constitute similarity?
    pub fn similar(self) -> (s: bool)
        ensures
            s == (graduated(self@) < SIMILARITY_BOUND),
    {
        self.dist() < SIMILARITY_BOUND
    }
}

/// Whether two words are similar: whether the graduated distance between
/// their hashes is below `SIMILARITY_BOUND`.
///
/// Deprecated: take the difference of the two hashes and ask it, as in
/// `(Hash::new(a) - Hash::new(b)).similar()`.
pub fn similar(a: &str, b: &str) -> (s: bool)
    ensures
        s == (graduated(fingerprint(a.spec_bytes()) ^ fingerprint(b.spec_bytes()))
            < SIMILARITY_BOUND),
{
    (Hash::new(a) - Hash::new(b)).similar()
}

/// A hash is the integer that it holds: two hashes with the same view are
/// the same hash.
pub proof fn lemma_hash_by_view(a: Hash, b: Hash)
    ensures
        a@ == b@ <==> a == b,
{
}

/// The hash made from an integer holds that integer.
pub proof fn lemma_from_view(value: u128)
    ensures
        <Hash as vstd::std_specs::convert::FromSpec<u128>>::from_spec(value)@ == value,
{
}

/// The difference of two hashes holds the bits in which they differ.
pub proof fn lemma_sub_view(a: Hash, b: Hash)
    ensures
        a.sub_spec(b)@ == a@ ^ b@,
{
}

/// A difference is the integer that it holds: two differences with the
/// same view are the same difference.
pub proof fn lemma_difference_by_view(d: Difference, e: Difference)
    ensures
        d@ == e@ <==> d == e,
{
}

} // verus!
