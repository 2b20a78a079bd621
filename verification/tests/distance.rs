use eudex::bits::{byte_lane, lane_ones};
use eudex::similar;

fn difference(a: u128, b: u128) -> eudex::Difference {
    eudex::Hash::from(a) - eudex::Hash::from(b)
}

fn between(a: &str, b: &str) -> eudex::Difference {
    eudex::Hash::new(a) - eudex::Hash::new(b)
}

const WEIGHTS: [u32; 16] = [1, 0, 1, 1, 1, 2, 3, 8, 12, 13, 14, 18, 20, 21, 22, 30];

#[test]
fn integer_round_trip() {
    for value in [0u128, 1, 0xa000, u128::MAX, 0x8400_0000_0000_0000_0000_0000_0000_0001] {
        let h = eudex::Hash::from(value);
        let back: u128 = h.into();
        assert_eq!(back, value);
        assert_eq!(eudex::Hash::from(back), h);
        assert_eq!(u128::from(h), value);
    }
    let h = eudex::Hash::new("round trip");
    let v: u128 = h.into();
    assert_eq!(eudex::Hash::from(v), h);
}

#[test]
fn hashes_are_ordered_as_their_integers() {
    assert!(eudex::Hash::from(1u128) < eudex::Hash::from(2u128));
    assert!(eudex::Hash::from(1u128 << 120) > eudex::Hash::from((1u128 << 120) - 1));
    assert!(eudex::Hash::from(7u128) <= eudex::Hash::from(7u128));
    let mut hashes = vec![
        eudex::Hash::new("reddit"),
        eudex::Hash::new("youtube"),
        eudex::Hash::new("hello"),
    ];
    hashes.sort();
    let sorted: Vec<u128> = hashes.into_iter().map(|h| h.into()).collect();
    assert_eq!(
        sorted,
        vec![
            0x0200_0000_0000_0000_0000_0000_0000_a000,
            0x5100_0000_0000_0000_0000_0000_0018_011d,
            0xe400_0000_0000_0000_0000_0000_1d01_4800,
        ]
    );
}

#[test]
fn difference_of_a_hash_and_itself_is_zero() {
    for value in [0u128, 5, u128::MAX, 0x0200_0000_0000_0000_0000_0000_0000_a000] {
        let d = difference(value, value);
        assert_eq!(d.xor(), 0);
        assert_eq!(d.hamming(), 0);
        assert_eq!(d.dist(), 0);
        assert!(d.similar());
    }
    let d = between("hello", "hello");
    assert_eq!(d.xor(), 0);
    assert_eq!(d.hamming(), 0);
    assert_eq!(d.dist(), 0);
    assert!(d.similar());
}

#[test]
fn difference_is_symmetric() {
    let a = 0x8400_0000_0000_0000_0000_0249_011d_00a1u128;
    let b = 0x5100_0000_0000_0000_0000_0000_0018_011du128;
    assert_eq!(difference(a, b).xor(), difference(b, a).xor());
    assert_eq!(difference(a, b).xor(), a ^ b);
    assert_eq!(difference(a, b).dist(), difference(b, a).dist());
    assert_eq!(difference(a, b).hamming(), difference(b, a).hamming());
    assert_eq!(between("lulz", "lol").xor(), between("lol", "lulz").xor());
}

#[test]
fn xor_is_the_bitwise_difference() {
    assert_eq!(difference(0b1100, 0b1010).xor(), 0b0110);
    assert_eq!(difference(u128::MAX, 0).xor(), u128::MAX);
    assert_eq!(between("lulz", "lol").xor(), 0xa034);
    assert_eq!(
        between("youtube", "reddit").xor(),
        0xb500_0000_0000_0000_0000_0000_1d19_491d
    );
}

#[test]
fn hamming_counts_every_bit_alike() {
    assert_eq!(difference(0, 0xff).hamming(), 8);
    assert_eq!(difference(0, 0xff00).hamming(), 8);
    assert_eq!(difference(0, u128::MAX).hamming(), 128);
    assert_eq!(difference(0, 1u128 << 127).hamming(), 1);
    assert_eq!(difference(0b1011, 0b0001).hamming(), 2);
    for lane in 0..16 {
        assert_eq!(difference(0, 1u128 << (8 * lane)).hamming(), 1);
        assert_eq!(difference(0, 0x81u128 << (8 * lane)).hamming(), 2);
    }
    assert_eq!(between("lulz", "lol").hamming(), 5);
    assert_eq!(between("youtube", "reddit").hamming(), 19);
}

#[test]
fn dist_weighs_each_lane() {
    for lane in 0..16 {
        let weight = WEIGHTS[lane];
        assert_eq!(difference(0, 1u128 << (8 * lane)).dist(), weight);
        assert_eq!(difference(0, 0x80u128 << (8 * lane)).dist(), weight);
        assert_eq!(difference(0, 0xffu128 << (8 * lane)).dist(), 8 * weight);
        assert_eq!(difference(0xffu128 << (8 * lane), 0x0fu128 << (8 * lane)).dist(), 4 * weight);
    }
}

#[test]
fn dist_adds_the_lanes_up() {
    assert_eq!(difference(0, u128::MAX).dist(), 8 * 167);
    assert_eq!(difference(0, 0x0100_0000_0000_0000_0000_0000_0000_0001).dist(), 31);
    assert_eq!(difference(0, 0x0301_0000_0000_0000_0000_0000_0000_0000).dist(), 82);
    assert_eq!(difference(0, 0x0000_0000_0000_0001_0100_0000_0000_0000).dist(), 20);
    assert_eq!(between("lulz", "lol").dist(), 3);
    assert_eq!(between("crack", "crakk").dist(), 6);
    assert_eq!(between("sad", "something").dist(), 10);
    assert_eq!(between("youtube", "reddit").dist(), 161);
    assert_eq!(between("a", "supercalifragilistic").dist(), 322);
}

#[test]
fn lane_one_is_not_counted() {
    for bits in [0x01u128, 0x80, 0xff, 0x5a] {
        let d = difference(0x1234, 0x1234 ^ (bits << 8));
        assert!(d.hamming() > 0);
        assert_eq!(d.hamming(), (bits as u8).count_ones());
        assert_eq!(d.dist(), 0);
        assert!(d.similar());
    }
    let d = between("jumpo", "jumbo");
    assert_eq!(d.xor(), 0x100);
    assert_eq!(d.hamming(), 1);
    assert_eq!(d.dist(), 0);
    assert_eq!(
        difference(u128::MAX, 0).dist(),
        difference(u128::MAX & !0xff00, 0).dist()
    );
}

#[test]
fn similar_is_a_distance_below_fifteen() {
    assert!(difference(0, 0).similar());
    assert_eq!(difference(0, 1u128 << 80).dist(), 14);
    assert!(difference(0, 1u128 << 80).similar());
    assert_eq!(difference(0, (1u128 << 80) | 1).dist(), 15);
    assert!(!difference(0, (1u128 << 80) | 1).similar());
    assert_eq!(difference(0, 1u128 << 88).dist(), 18);
    assert!(!difference(0, 1u128 << 88).similar());
    assert!(!difference(0, 1u128 << 120).similar());
    assert!(difference(0, 0xff00).similar());
}

#[test]
fn similar_words() {
    assert!(between("hello", "hello").similar());
    assert!(between("hello", "hellou").similar());
    assert!(between("lulz", "lol").similar());
    assert!(between("jumpo", "jumbo").similar());
    assert!(between("what", "wat").similar());
    assert!(between("yay", "yuy").similar());
    assert!(between("jesus", "jeuses").similar());
    assert!(between("", "").similar());
    assert!(between("crack", "crakk").similar());
    assert!(between("sad", "something").similar());
}

#[test]
fn unrelated_words_are_not_similar() {
    assert!(!between("youtube", "reddit").similar());
    assert!(!between("a", "supercalifragilistic").similar());
    assert!(!between("hello", "jello").similar());
}

#[test]
fn similar_compares_two_words() {
    assert!(similar("yay", "yuy"));
    assert!(similar("what", "wat"));
    assert!(similar("", ""));
    assert!(similar("jumpo", "jumbo"));
    assert!(similar("lol", "lulz"));
    assert!(!similar("youtube", "reddit"));
    assert!(!similar("a", "supercalifragilistic"));
    for (a, b) in [("hello", "hellou"), ("youtube", "reddit"), ("sad", "something")] {
        assert_eq!(similar(a, b), between(a, b).similar());
    }
}

#[test]
fn byte_lanes() {
    let x = 0x0f0e_0d0c_0b0a_0908_0706_0504_0302_0100u128;
    for lane in 0..16u32 {
        assert_eq!(byte_lane(x, lane), lane as u8);
        assert_eq!(lane_ones(x, lane), (lane as u8).count_ones());
    }
    assert_eq!(byte_lane(u128::MAX, 15), 0xff);
    assert_eq!(lane_ones(u128::MAX, 15), 8);
    assert_eq!(lane_ones(0xff00, 0), 0);
    assert_eq!(lane_ones(0xff00, 1), 8);
}
