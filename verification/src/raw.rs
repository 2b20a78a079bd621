//! The phonetic classification table.
//!
//! Two constant tables per alphabet: one that classifies the first byte of a
//! word, where every letter keeps a code of its own, and one that gives the
//! phone of a later byte, where letters that sound alike share most bits.
//! The rest of the library reads the tables only through `map_first` and
//! `filter`, and through the two functions that say what these return.

use vstd::prelude::*;

verus! {

/// The first byte of the extended alphabet (0xDF to 0xFF).
pub const EXTENDED_START: u8 = 0xDF;

/// The phones of the letters `a` to `z`.
///
/// Each bit stands for one property of the phone:
///
/// | bit | property     | letters   |
/// |-----|--------------|-----------|
/// | 0   | discriminant | (tells similar phones apart) |
/// | 1   | nasal        | mn        |
/// | 2   | fricative    | fvsjxzhct |
/// | 3   | plosive      | pbtdcgqk  |
/// | 4   | dental       | tdnzs     |
/// | 5   | liquid       | lr        |
/// | 6   | labial       | bfpv      |
/// | 7   | confident    | lrxzq     |
///
/// Vowels are 0 (open) or 1 (close).
pub const PHONES: [u8; 26] = [
    0x00,  // a
    0x48,  // b
    0x0C,  // c
    0x18,  // d
    0x00,  // e
    0x44,  // f
    0x08,  // g
    0x04,  // h
    0x01,  // i
    0x05,  // j
    0x09,  // k
    0xA0,  // l
    0x02,  // m
    0x12,  // n
    0x00,  // o
    0x49,  // p
    0xA8,  // q
    0xA1,  // r
    0x14,  // s
    0x1D,  // t
    0x01,  // u
    0x45,  // v
    0x00,  // w
    0x84,  // x
    0x01,  // y
    0x94,  // z
];

/// The phones of the bytes 0xDF to 0xFF, read as letters of the extended
/// alphabet. Each is an approximation of the letter's usual sound.
pub const PHONES_EXTENDED: [u8; 33] = [
    0x15,  // 0xDF, a sharp s
    0x00,  // 0xE0
    0x00,  // 0xE1
    0x00,  // 0xE2
    0x00,  // 0xE3
    0x00,  // 0xE4
    0x01,  // 0xE5
    0x00,  // 0xE6
    0x95,  // 0xE7, a soft c
    0x01,  // 0xE8
    0x01,  // 0xE9
    0x01,  // 0xEA
    0x01,  // 0xEB
    0x01,  // 0xEC
    0x01,  // 0xED
    0x01,  // 0xEE
    0x01,  // 0xEF
    0x15,  // 0xF0, a soft t
    0x17,  // 0xF1, n followed by j
    0x00,  // 0xF2
    0x00,  // 0xF3
    0x00,  // 0xF4
    0x00,  // 0xF5
    0x01,  // 0xF6
    0xFF,  // 0xF7
    0x01,  // 0xF8
    0x01,  // 0xF9
    0x01,  // 0xFA
    0x01,  // 0xFB
    0x01,  // 0xFC
    0x01,  // 0xFD
    0x15,  // 0xFE, a soft t
    0x01,  // 0xFF
];

/// The classes of the letters `a` to `z` in first position. No two letters
/// share a class.
///
/// For a consonant, bits 0 to 6 are the properties nasal to confident of
/// `PHONES`. For a vowel, bit 7 is set and the other bits describe where in
/// the mouth it is formed.
pub const INJECTIVE_PHONES: [u8; 26] = [
    0x84,  // a
    0x24,  // b
    0x06,  // c
    0x0C,  // d
    0xD8,  // e
    0x22,  // f
    0x04,  // g
    0x02,  // h
    0xF8,  // i
    0x03,  // j
    0x05,  // k
    0x50,  // l
    0x01,  // m
    0x09,  // n
    0x94,  // o
    0x25,  // p
    0x54,  // q
    0x51,  // r
    0x0A,  // s
    0x0E,  // t
    0xE0,  // u
    0x23,  // v
    0x00,  // w
    0x42,  // x
    0xE4,  // y
    0x4A,  // z
];

/// The classes of the bytes 0xDF to 0xFF in first position.
pub const INJECTIVE_PHONES_EXTENDED: [u8; 33] = [
    0x0B,  // 0xDF
    0x85,  // 0xE0
    0x85,  // 0xE1
    0x80,  // 0xE2
    0x86,  // 0xE3
    0xA6,  // 0xE4
    0xC2,  // 0xE5
    0xA7,  // 0xE6
    0x54,  // 0xE7
    0xD9,  // 0xE8
    0xD9,  // 0xE9
    0xD9,  // 0xEA
    0xC6,  // 0xEB
    0xF9,  // 0xEC
    0xF9,  // 0xED
    0xF9,  // 0xEE
    0xF9,  // 0xEF
    0x0B,  // 0xF0
    0x0B,  // 0xF1
    0x95,  // 0xF2
    0x95,  // 0xF3
    0x95,  // 0xF4
    0x95,  // 0xF5
    0xDC,  // 0xF6
    0xFF,  // 0xF7
    0xDD,  // 0xF8
    0xE1,  // 0xF9
    0xE1,  // 0xFA
    0xE1,  // 0xFB
    0xE5,  // 0xFC
    0xE5,  // 0xFD
    0x0B,  // 0xFE
    0xE5,  // 0xFF
];

/// Whether `x` is a letter of the basic alphabet, in either case.
pub open spec fn is_letter(x: u8) -> bool {
    (0x41 <= x <= 0x5A) || (0x61 <= x <= 0x7A)
}

/// The place of the letter `x` in the basic alphabet: 0 for `a` or `A`,
/// 25 for `z` or `Z`.
pub open spec fn letter_index(x: u8) -> int
    recommends
        is_letter(x),
{
    if x <= 0x5A {
        x - 0x41
    } else {
        x - 0x61
    }
}

/// The class of a word whose first byte is `x`.
pub open spec fn spec_map_first(x: u8) -> u8 {
    if is_letter(x) {
        INJECTIVE_PHONES[letter_index(x)]
    } else if x >= EXTENDED_START {
        INJECTIVE_PHONES_EXTENDED[x - EXTENDED_START]
    } else {
        0
    }
}

/// The phone of the byte `x`, if it is a letter of either alphabet.
pub open spec fn spec_phone(x: u8) -> Option<u8> {
    if is_letter(x) {
        Some(PHONES[letter_index(x)])
    } else if x >= EXTENDED_START {
        Some(PHONES_EXTENDED[x - EXTENDED_START])
    } else {
        None
    }
}

/// Whether two codes are the same phone but for the discriminant bit.
pub open spec fn same_sound(a: u8, b: u8) -> bool {
    a / 2 == b / 2
}

/// What follows the code `prev` when the byte `x` is read: the phone of `x`,
/// unless `x` is no letter or its phone sounds like `prev`.
pub open spec fn spec_filter(prev: u8, x: u8) -> Option<u8> {
    match spec_phone(x) {
        Some(code) => if same_sound(prev, code) {
            None
        } else {
            Some(code)
        },
        None => None,
    }
}

/// The place of `x` in the basic alphabet, if it is a letter.
fn letter(x: u8) -> (r: Option<usize>)
    ensures
        r is Some <==> is_letter(x),
        r matches Some(i) ==> i == letter_index(x) && i < 26,
{
    if 0x41 <= x && x <= 0x5A {
        Some((x - 0x41) as usize)
    } else if 0x61 <= x && x <= 0x7A {
        Some((x - 0x61) as usize)
    } else {
        None
    }
}

/// Map the first byte of a word to its class.
///
/// A word without a first byte is classified as the byte 0.
pub fn map_first(x: u8) -> (class: u8)
    ensures
        class == spec_map_first(x),
{
    match letter(x) {
        Some(i) => INJECTIVE_PHONES[i],
        None => if x >= EXTENDED_START {
            INJECTIVE_PHONES_EXTENDED[(x - EXTENDED_START) as usize]
        } else {
            0
        },
    }
}

/// The phone of a byte that is not the first of its word.
fn phone(x: u8) -> (r: Option<u8>)
    ensures
        r == spec_phone(x),
{
    match letter(x) {
        Some(i) => Some(PHONES[i]),
        None => if x >= EXTENDED_START {
            Some(PHONES_EXTENDED[(x - EXTENDED_START) as usize])
        } else {
            None
        },
    }
}

/// Filter a byte that is not the first of its word.
///
/// Returns the code to emit after `prev`, the code emitted last (0 where
/// there is none yet), or `None` where the byte is silent: it is no letter,
/// or it repeats the sound of `prev`.
pub fn filter(prev: u8, x: u8) -> (code: Option<u8>)
    ensures
        code == spec_filter(prev, x),
{
    match phone(x) {
        Some(c) => {
            if prev / 2 == c / 2 {
                None
            } else {
                Some(c)
            }
        },
        None => None,
    }
}

} // verus!
