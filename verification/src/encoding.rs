//! How a word is folded into the 128 bits of its hash.

use crate::bits::lane;
use crate::raw::{filter, map_first, spec_filter, spec_map_first};
use vstd::prelude::*;

verus! {

/// The most codes that are folded from the bytes after the first.
pub const FOLD_LIMIT: usize = 16;

/// The fifteen low byte lanes: everything but the class of the first byte.
pub const TAIL_LANES: u128 = 0x00ff_ffff_ffff_ffff_ffff_ffff_ffff_ffff;

/// The first byte of a word, or 0 for the empty word.
pub open spec fn head(bytes: Seq<u8>) -> u8 {
    if bytes.len() == 0 {
        0
    } else {
        bytes.first()
    }
}

/// The bytes of a word after the first.
pub open spec fn tail(bytes: Seq<u8>) -> Seq<u8> {
    if bytes.len() == 0 {
        bytes
    } else {
        bytes.drop_first()
    }
}

/// The code emitted last, or 0 where none was emitted yet.
pub open spec fn last_code(codes: Seq<u8>) -> u8 {
    if codes.len() == 0 {
        0
    } else {
        codes.last()
    }
}

/// The codes that the bytes `rest` emit, in the order in which they are
/// accepted. Each byte is filtered against the code emitted before it, and
/// bytes that come after the code number `FOLD_LIMIT` are dropped.
pub open spec fn accepted(rest: Seq<u8>) -> Seq<u8>
    decreases rest.len(),
{
    if rest.len() == 0 {
        Seq::empty()
    } else {
        let before = accepted(rest.drop_last());
        if before.len() >= FOLD_LIMIT {
            before
        } else {
            match spec_filter(last_code(before), rest.last()) {
                Some(code) => before.push(code),
                None => before,
            }
        }
    }
}

/// The codes folded into one value: each code moves the earlier ones up by
/// one byte lane and takes lane 0. A code that leaves lane 15 is lost.
pub open spec fn pack(codes: Seq<u8>) -> u128
    decreases codes.len(),
{
    if codes.len() == 0 {
        0
    } else {
        (pack(codes.drop_last()) << 8) | (codes.last() as u128)
    }
}

/// The hash of the word `bytes`: the class of its first byte in lane 15,
/// and below it the codes that the other bytes emit.
pub open spec fn fingerprint(bytes: Seq<u8>) -> u128 {
    (pack(accepted(tail(bytes))) & TAIL_LANES) | ((spec_map_first(head(bytes)) as u128) << 120)
}

/// The code that lane `i` holds after `codes` were folded: the last code
/// in lane 0, the one before it in lane 1, and 0 where the codes end.
pub open spec fn code_in_lane(codes: Seq<u8>, i: nat) -> u8 {
    if i < codes.len() {
        codes[codes.len() - 1 - i]
    } else {
        0
    }
}

/// Whether `hash` is laid out as the hash of `bytes`: the class of the
/// first byte in lane 15, and in the lanes below the accepted codes, the
/// last one in lane 0.
pub open spec fn laid_out(hash: u128, bytes: Seq<u8>) -> bool {
    &&& lane(hash, 15) == spec_map_first(head(bytes))
    &&& forall|i: nat| i < 15 ==> #[trigger] lane(hash, i) == code_in_lane(accepted(tail(bytes)), i)
}

/// The progress marker after `count` codes: one bit that moves up by one
/// place with each code, and leaves the marker with code number
/// `FOLD_LIMIT`.
spec fn marker(count: nat) -> u16 {
    if count >= FOLD_LIMIT {
        0
    } else {
        1u16 << (count as u16)
    }
}

/// Fold the bytes after the first into one value.
fn fold(bytes: &[u8]) -> (res: u128)
    ensures
        res == pack(accepted(tail(bytes@))),
{
    let ghost rest = tail(bytes@);
    let mut res: u128 = 0;
    let mut n: u16 = 1;
    let mut b: usize = 1;
    proof {
        assert(rest.take(0) =~= Seq::<u8>::empty());
        assert(1u16 << 0u16 == 1) by (bit_vector);
    }
    while n != 0 && b < bytes.len()
        invariant
            rest == tail(bytes@),
            1 <= b,
            b - 1 <= rest.len(),
            res == pack(accepted(rest.take(b - 1))),
            n == marker(accepted(rest.take(b - 1)).len()),
        decreases bytes.len() - b,
    {
        let ghost before = accepted(rest.take(b - 1));
        proof {
            lemma_accepted_len(rest.take(b - 1));
            lemma_pack_low_byte(before);
            assert(rest.take(b as int).drop_last() =~= rest.take(b - 1));
            assert(rest.take(b as int).last() == bytes@[b as int]);
            if before.len() < FOLD_LIMIT {
                lemma_marker_step(before.len());
            }
        }
        let prev: u8 = (res & 0xff) as u8;
        match filter(prev, bytes[b]) {
            Some(code) => {
                res = (res << 8) | (code as u128);
                n = n << 1;
                proof {
                    assert(before.push(code).drop_last() =~= before);
                }
            },
            None => {},
        }
        b += 1;
    }
    proof {
        if n == 0 {
            lemma_accepted_len(rest.take(b - 1));
            if accepted(rest.take(b - 1)).len() < FOLD_LIMIT {
                lemma_marker_step(accepted(rest.take(b - 1)).len());
            }
            lemma_accepted_saturates(rest, b - 1);
        } else {
            assert(rest.take(b - 1) =~= rest);
        }
    }
    res
}

/// The hash of a word given as bytes, as the integer that holds it.
pub fn encode(bytes: &[u8]) -> (hash: u128)
    ensures
        hash == fingerprint(bytes@),
        laid_out(hash, bytes@),
{
    proof {
        lemma_fingerprint_layout(bytes@);
    }
    let first: u8 = if bytes.len() > 0 {
        bytes[0]
    } else {
        0
    };
    let class = map_first(first);
    let folded = fold(bytes);
    (folded & TAIL_LANES) | ((class as u128) << 120)
}

/// No more than `FOLD_LIMIT` codes are accepted.
pub proof fn lemma_accepted_len(rest: Seq<u8>)
    ensures
        accepted(rest).len() <= FOLD_LIMIT,
        accepted(rest).len() <= rest.len(),
    decreases rest.len(),
{
    if rest.len() > 0 {
        lemma_accepted_len(rest.drop_last());
    }
}

/// Once `FOLD_LIMIT` codes are accepted, further bytes change nothing.
pub proof fn lemma_accepted_saturates(rest: Seq<u8>, k: int)
    requires
        0 <= k <= rest.len(),
        accepted(rest.take(k)).len() >= FOLD_LIMIT,
    ensures
        accepted(rest) == accepted(rest.take(k)),
    decreases rest.len(),
{
    if k == rest.len() {
        assert(rest.take(k) =~= rest);
    } else {
        assert(rest.drop_last().take(k) =~= rest.take(k));
        lemma_accepted_saturates(rest.drop_last(), k);
    }
}

/// The low byte of the folded value is the code emitted last.
pub proof fn lemma_pack_low_byte(codes: Seq<u8>)
    ensures
        pack(codes) & 0xff == last_code(codes),
{
    if codes.len() == 0 {
        assert(0u128 & 0xff == 0) by (bit_vector);
    } else {
        let upper = pack(codes.drop_last());
        let code = codes.last();
        assert(((upper << 8) | (code as u128)) & 0xff == code) by (bit_vector);
    }
}

/// The marker is zero only when `FOLD_LIMIT` codes were accepted, and a
/// shift by one place takes it to the marker of the next count.
proof fn lemma_marker_step(count: nat)
    requires
        count < FOLD_LIMIT,
    ensures
        marker(count) != 0,
        marker(count) << 1 == marker(count + 1),
{
    let k = count as u16;
    assert(k < 16 ==> 1u16 << k != 0) by (bit_vector);
    assert(k < 15 ==> (1u16 << k) << 1 == 1u16 << ((k + 1) as u16)) by (bit_vector);
    assert((1u16 << 15) << 1 == 0) by (bit_vector);
}

/// Folding puts each code in the lane that `code_in_lane` names.
pub proof fn lemma_pack_lanes(codes: Seq<u8>, i: nat)
    requires
        i < 16,
    ensures
        lane(pack(codes), i) == code_in_lane(codes, i),
    decreases codes.len(),
{
    let k = i as u128;
    if codes.len() == 0 {
        assert(k < 16 ==> (0u128 >> ((8 * k) as u128)) & 0xff == 0) by (bit_vector);
    } else {
        let upper = pack(codes.drop_last());
        let code = codes.last();
        if i == 0 {
            assert((((upper << 8) | (code as u128)) >> 0) & 0xff == code) by (bit_vector);
        } else {
            let below = (i - 1) as u128;
            assert(below < 15 ==> (((upper << 8) | (code as u128)) >> ((8 * (below + 1)) as u128))
                & 0xff == (upper >> ((8 * below) as u128)) & 0xff) by (bit_vector);
            lemma_pack_lanes(codes.drop_last(), (i - 1) as nat);
        }
    }
}

/// A hash is laid out as `laid_out` says.
pub proof fn lemma_fingerprint_layout(bytes: Seq<u8>)
    ensures
        laid_out(fingerprint(bytes), bytes),
{
    let codes = accepted(tail(bytes));
    let folded = pack(codes);
    let class = spec_map_first(head(bytes));
    assert((((folded & TAIL_LANES) | ((class as u128) << 120)) >> 120) & 0xff == class)
        by (bit_vector);
    assert forall|i: nat| i < 15 implies #[trigger] lane(fingerprint(bytes), i) == code_in_lane(
        codes,
        i,
    ) by {
        let k = i as u128;
        assert(k < 15 ==> (((folded & TAIL_LANES) | ((class as u128) << 120)) >> ((8 * k) as u128))
            & 0xff == (folded >> ((8 * k) as u128)) & 0xff) by (bit_vector);
        lemma_pack_lanes(codes, i);
    }
}

} // verus!
