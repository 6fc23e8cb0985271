//! Fixed-point numbers: an `i64` that counts millionths.

use vstd::prelude::*;

verus! {

/// The fixed-point number that stands for 1.0.
pub const UNIT: i64 = 1_000_000;

/// Quotient of `a` by a positive `b`, rounded toward zero.
pub open spec fn tdiv(a: int, b: int) -> int {
    if a >= 0 {
        a / b
    } else {
        -((-a) / b)
    }
}

/// Product of two fixed-point numbers, rounded toward zero.
pub open spec fn fixed_product(a: int, b: int) -> int {
    tdiv(a * b, UNIT as int)
}

/// The product of a number with a share between 0 and 1 lies between 0 and
/// the number. The share 1 leaves the number as it is, the share 0 leaves
/// nothing of it.
pub proof fn lemma_product_with_share(value: int, share: int)
    requires
        0 <= share <= UNIT,
    ensures
        value >= 0 ==> 0 <= fixed_product(value, share) <= value,
        value <= 0 ==> value <= fixed_product(value, share) <= 0,
        share == UNIT ==> fixed_product(value, share) == value,
        share == 0 ==> fixed_product(value, share) == 0,
{
    let size = if value >= 0 {
        value
    } else {
        -value
    };
    assert(0 <= size * share <= size * UNIT) by (nonlinear_arith)
        requires
            0 <= size,
            0 <= share <= UNIT,
    ;
    assert(0 <= (size * share) / (UNIT as int) <= size) by (nonlinear_arith)
        requires
            0 <= size * share <= size * UNIT,
    ;
    assert((size * UNIT) / (UNIT as int) == size) by (nonlinear_arith);
    assert(size * 0 == 0 && value * 0 == 0) by (nonlinear_arith);
    assert(-(value * share) == (-value) * share) by (nonlinear_arith);
}

/// `v` limited to the interval from `lo` to `hi`.
pub open spec fn clamp_between(v: int, lo: int, hi: int) -> int {
    if v < lo {
        lo
    } else if v > hi {
        hi
    } else {
        v
    }
}

/// The 8-bit value of a colour channel: `channel * 255`, cut off below the
/// point, and held to `0..=255` for channels outside `[0, 1]`.
pub open spec fn channel_byte(channel: int) -> int {
    if channel <= 0 {
        0
    } else if channel >= UNIT {
        255
    } else {
        channel * 255 / (UNIT as int)
    }
}

/// Quantises a colour channel to 8 bits.
pub fn quantize(channel: i64) -> (byte: u8)
    ensures
        byte == channel_byte(channel as int),
{
    if channel <= 0 {
        0
    } else if channel >= UNIT {
        255
    } else {
        let scaled: i64 = channel * 255 / UNIT;
        scaled as u8
    }
}

} // verus!
