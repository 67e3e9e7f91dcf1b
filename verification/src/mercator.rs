//! The number of tiles and of pixels along an axis at a zoom level.

use vstd::prelude::*;

verus! {

/// The side of a tile in pixels.
pub const TILE_SIZE: i64 = 256;

/// The largest zoom level whose tile count fits a 64-bit signed integer.
pub const ZOOM_LEVEL_MAX: u8 = 62;

/// Two to the power `exponent`: the number of tiles along one axis at that
/// zoom level.
pub open spec fn two_to(exponent: nat) -> nat
    decreases exponent,
{
    if exponent == 0 {
        1
    } else {
        2 * two_to((exponent - 1) as nat)
    }
}

/// A larger exponent gives a larger power, and every power is positive.
pub proof fn lemma_two_to_monotonic(low: nat, high: nat)
    requires
        low <= high,
    ensures
        0 < two_to(low) <= two_to(high),
    decreases high,
{
    if high == 0 {
    } else if low < high {
        lemma_two_to_monotonic(low, (high - 1) as nat);
    } else {
        lemma_two_to_monotonic((low - 1) as nat, (high - 1) as nat);
    }
}

/// The power of a sum is the product of the powers.
pub proof fn lemma_two_to_adds(a: nat, b: nat)
    ensures
        two_to(a + b) == two_to(a) * two_to(b),
    decreases a,
{
    if a == 0 {
        assert(two_to(0) * two_to(b) == two_to(b)) by (nonlinear_arith)
            requires
                two_to(0) == 1,
        ;
    } else {
        lemma_two_to_adds((a - 1) as nat, b);
        let rest = two_to((a - 1) as nat);
        let other = two_to(b);
        assert((2 * rest) * other == 2 * (rest * other)) by (nonlinear_arith);
        assert(two_to(a + b) == 2 * two_to((a + b - 1) as nat));
    }
}

/// Some powers of two.
pub proof fn lemma_two_to_62()
    ensures
        two_to(62) == 0x4000_0000_0000_0000,
        two_to(54) == 0x40_0000_0000_0000,
        two_to(20) == 0x10_0000,
{
    lemma_two_to_adds(10, 10);
    lemma_two_to_adds(20, 20);
    lemma_two_to_adds(40, 14);
    lemma_two_to_adds(54, 8);
    assert(two_to(10) == 1024) by {
        reveal_with_fuel(two_to, 11);
    }
    assert(two_to(14) == 16384) by {
        reveal_with_fuel(two_to, 15);
    }
    assert(two_to(8) == 256) by {
        reveal_with_fuel(two_to, 9);
    }
    let power_10 = two_to(10);
    let power_20 = two_to(20);
    let power_40 = two_to(40);
    let power_14 = two_to(14);
    let power_54 = two_to(54);
    let power_8 = two_to(8);
    assert(power_10 * power_10 == 1048576) by (nonlinear_arith)
        requires
            power_10 == 1024,
    ;
    assert(power_20 * power_20 == 1099511627776) by (nonlinear_arith)
        requires
            power_20 == 1048576,
    ;
    assert(power_40 * power_14 == 18014398509481984) by (nonlinear_arith)
        requires
            power_40 == 1099511627776,
            power_14 == 16384,
    ;
    assert(power_54 * power_8 == 0x4000_0000_0000_0000) by (nonlinear_arith)
        requires
            power_54 == 18014398509481984,
            power_8 == 256,
    ;
}

/// The integer side of the spherical Mercator projection.
pub struct MercatorProjection;

impl MercatorProjection {
    /// The side of the whole map in pixels at a zoom level.
    pub fn get_map_size(zoom_level: u8) -> (size: i64)
        requires
            zoom_level <= 54,
        ensures
            size == 256 * two_to(zoom_level as nat),
    {
        proof {
            lemma_two_to_62();
            lemma_two_to_monotonic(zoom_level as nat, 54);
        }
        TILE_SIZE * Self::tile_count(zoom_level)
    }

    /// The number of tiles along one axis at a zoom level.
    pub fn tile_count(zoom_level: u8) -> (count: i64)
        requires
            zoom_level <= ZOOM_LEVEL_MAX,
        ensures
            count == two_to(zoom_level as nat),
    {
        let mut count: i64 = 1;
        let mut level: u8 = 0;
        while level < zoom_level
            invariant
                level <= zoom_level <= 62,
                count == two_to(level as nat),
            decreases zoom_level - level,
        {
            proof {
                lemma_two_to_62();
                lemma_two_to_monotonic((level + 1) as nat, 62);
            }
            count = count * 2;
            level = level + 1;
        }
        count
    }
}

} // verus!
