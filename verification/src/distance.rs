//! The distances that are read from the difference of two hashes.

use crate::bits::ones;
use vstd::prelude::*;

verus! {

/// Below this graduated distance two words count as similar.
pub const SIMILARITY_BOUND: u32 = 15;

/// The weight of a differing bit in byte lane `i`. Lane 15, the class of
/// the first byte, weighs most; lane 1 is not counted.
pub open spec fn weight(i: nat) -> nat {
    if i == 0 {
        1
    } else if i == 1 {
        0
    } else if i <= 4 {
        1
    } else if i == 5 {
        2
    } else if i == 6 {
        3
    } else if i == 7 {
        8
    } else if i == 8 {
        12
    } else if i == 9 {
        13
    } else if i == 10 {
        14
    } else if i == 11 {
        18
    } else if i == 12 {
        20
    } else if i == 13 {
        21
    } else if i == 14 {
        22
    } else if i == 15 {
        30
    } else {
        0
    }
}

/// What byte lane `i` of `x` adds to the graduated distance.
pub open spec fn lane_cost(x: u128, i: nat) -> nat {
    weight(i) * ones(x, i)
}

/// The graduated distance of the difference `x`: the ones of each byte
/// lane, times the lane's weight.
pub open spec fn graduated(x: u128) -> nat {
    lane_cost(x, 0) + lane_cost(x, 1) + lane_cost(x, 2) + lane_cost(x, 3) + lane_cost(x, 4)
        + lane_cost(x, 5) + lane_cost(x, 6) + lane_cost(x, 7) + lane_cost(x, 8) + lane_cost(x, 9)
        + lane_cost(x, 10) + lane_cost(x, 11) + lane_cost(x, 12) + lane_cost(x, 13) + lane_cost(
        x,
        14,
    ) + lane_cost(x, 15)
}

} // verus!
