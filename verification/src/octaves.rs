//! Octaves: how often and how strongly each layer of noise is sampled.
//!
//! Octave `i` samples the noise at the frequency `lacunarity^i` and adds the
//! sample with the amplitude `persistance^i`. Both powers are built one
//! fixed-point product at a time, so each step rounds toward zero.

use crate::fixed::{clamp_between, fixed_product, lemma_product_with_share, tdiv, UNIT};
use crate::normalize::RAW_LIMIT;
use crate::offsets::{Point, OFFSET_LIMIT};
use vstd::prelude::*;

verus! {

/// The scale that stands in for one that is not positive: 0.0001.
pub const MIN_SCALE: i64 = 100;

/// The scale that is used for `scale`: itself if positive, else [`MIN_SCALE`].
pub open spec fn effective_scale(scale: int) -> int {
    if scale <= 0 {
        MIN_SCALE as int
    } else {
        scale
    }
}

/// The persistance that is used for `persistance`: held to `[0, 1]`.
pub open spec fn effective_persistance(persistance: int) -> int {
    clamp_between(persistance, 0, UNIT as int)
}

/// The lacunarity that is used for `lacunarity`: at least 1.
pub open spec fn effective_lacunarity(lacunarity: int) -> int {
    if lacunarity < UNIT {
        UNIT as int
    } else {
        lacunarity
    }
}

/// The scale that is used for `scale`.
pub fn clamp_scale(scale: i64) -> (used: i64)
    ensures
        used == effective_scale(scale as int),
        used > 0,
{
    if scale <= 0 {
        MIN_SCALE
    } else {
        scale
    }
}

/// The persistance that is used for `persistance`.
pub fn clamp_persistance(persistance: i64) -> (used: i64)
    ensures
        used == effective_persistance(persistance as int),
        0 <= used <= UNIT,
{
    if persistance < 0 {
        0
    } else if persistance > UNIT {
        UNIT
    } else {
        persistance
    }
}

/// The lacunarity that is used for `lacunarity`.
pub fn clamp_lacunarity(lacunarity: i64) -> (used: i64)
    ensures
        used == effective_lacunarity(lacunarity as int),
        used >= UNIT,
{
    if lacunarity < UNIT {
        UNIT
    } else {
        lacunarity
    }
}

/// `factor` to the power `exponent` in fixed point, one rounded product per
/// step.
pub open spec fn fixed_power(factor: int, exponent: nat) -> int
    decreases exponent,
{
    if exponent == 0 {
        UNIT as int
    } else {
        fixed_product(fixed_power(factor, (exponent - 1) as nat), factor)
    }
}

/// All of the first `count` powers of `factor` are `i64` values.
pub open spec fn powers_fit(factor: int, count: nat) -> bool {
    forall|exponent: nat|
        exponent < count ==> i64::MIN <= #[trigger] fixed_power(factor, exponent) <= i64::MAX
}

/// Powers of a factor between 0 and 1 stay between 0 and 1.
pub proof fn lemma_power_of_fraction(factor: int, exponent: nat)
    requires
        0 <= factor <= UNIT,
    ensures
        0 <= fixed_power(factor, exponent) <= UNIT,
    decreases exponent,
{
    if exponent > 0 {
        let before = fixed_power(factor, (exponent - 1) as nat);
        lemma_power_of_fraction(factor, (exponent - 1) as nat);
        assert(0 <= before * factor <= UNIT * UNIT) by (nonlinear_arith)
            requires
                0 <= before <= UNIT,
                0 <= factor <= UNIT,
        ;
    }
}

/// The first `count` powers of `factor`, or `None` where one of them is no
/// `i64` value.
pub fn power_table(factor: i64, count: u32) -> (result: Option<Vec<i64>>)
    ensures
        result is Some <==> powers_fit(factor as int, count as nat),
        result matches Some(table) ==> {
            &&& table@.len() == count
            &&& forall|k: int|
                0 <= k < count ==> #[trigger] table@[k] == fixed_power(factor as int, k as nat)
        },
{
    let mut table: Vec<i64> = Vec::new();
    let mut current: i64 = UNIT;
    let mut exponent: u32 = 0;
    while exponent < count
        invariant
            exponent <= count,
            table@.len() == exponent,
            exponent < count ==> current == fixed_power(factor as int, exponent as nat),
            forall|k: int|
                0 <= k < exponent ==> #[trigger] table@[k] == fixed_power(factor as int, k as nat),
        decreases count - exponent,
    {
        table.push(current);
        exponent = exponent + 1;
        if exponent < count {
            assert(-0x4000_0000_0000_0000_0000_0000_0000_0000 <= current * factor
                <= 0x4000_0000_0000_0000_0000_0000_0000_0000) by (nonlinear_arith)
                requires
                    -0x8000_0000_0000_0000 <= current <= 0x8000_0000_0000_0000,
                    -0x8000_0000_0000_0000 <= factor <= 0x8000_0000_0000_0000,
            ;
            let next: i128 = (current as i128) * (factor as i128) / (UNIT as i128);
            assert(next == fixed_power(factor as int, exponent as nat));
            if next < i64::MIN as i128 || next > i64::MAX as i128 {
                return None;
            }
            current = next as i64;
        }
    }
    proof {
        assert forall|e: nat| e < count implies i64::MIN <= #[trigger] fixed_power(
            factor as int,
            e,
        ) <= i64::MAX by {
            assert(table@[e as int] == fixed_power(factor as int, e));
        }
    }
    Some(table)
}

/// How far cell `index` lies from the middle of `extent` cells: the
/// fixed-point value of `index - extent / 2`.
pub open spec fn centered(index: int, extent: int) -> int {
    (2 * index - extent) * (UNIT / 2)
}

/// Where an octave samples cell `index` along one axis: the cell's distance
/// from the middle, divided by the scale, times the octave's frequency, moved
/// by the octave's offset. The quotient is rounded toward zero.
pub open spec fn sample_coordinate(
    index: int,
    extent: int,
    scale: int,
    frequency: int,
    offset: int,
) -> int {
    tdiv(centered(index, extent) * frequency, effective_scale(scale)) + offset
}

/// Sampling is centred on the middle of the grid: without the offset, the
/// cells at equal distances on the two sides of the middle are sampled at
/// places that mirror each other.
pub proof fn law_sampling_is_centred(
    index: int,
    extent: int,
    scale: int,
    frequency: int,
    offset: int,
)
    ensures
        sample_coordinate(extent - index, extent, scale, frequency, offset) - offset == -(
        sample_coordinate(index, extent, scale, frequency, offset) - offset),
{
    let near = centered(index, extent) * frequency;
    let far = centered(extent - index, extent) * frequency;
    assert(far == -near) by (nonlinear_arith)
        requires
            near == ((2 * index - extent) * (UNIT / 2)) * frequency,
            far == ((2 * (extent - index) - extent) * (UNIT / 2)) * frequency,
    ;
}

/// Where an octave samples the cell `(x, y)` of a `width` by `height` grid.
pub open spec fn sample_point(
    x: int,
    y: int,
    width: int,
    height: int,
    scale: int,
    frequency: int,
    offset: Point,
) -> Point {
    Point {
        x: sample_coordinate(x, width, scale, frequency, offset.x as int) as i128,
        y: sample_coordinate(y, height, scale, frequency, offset.y as int) as i128,
    }
}

/// Computes one coordinate of a sample point.
pub fn coordinate(index: u32, extent: u32, scale: i64, frequency: i64, offset: i128) -> (at: i128)
    requires
        -OFFSET_LIMIT <= offset <= OFFSET_LIMIT,
    ensures
        at == sample_coordinate(
            index as int,
            extent as int,
            scale as int,
            frequency as int,
            offset as int,
        ),
{
    let used_scale: i128 = clamp_scale(scale) as i128;
    let middle: i128 = (2 * (index as i128) - (extent as i128)) * 500_000;
    assert(-0x10_0000_0000_0000_0000_0000_0000_0000 <= middle * frequency
        <= 0x10_0000_0000_0000_0000_0000_0000_0000) by (nonlinear_arith)
        requires
            -0x10_0000_0000_0000 <= middle <= 0x10_0000_0000_0000,
            -0x8000_0000_0000_0000 <= frequency <= 0x8000_0000_0000_0000,
    ;
    let moved: i128 = middle * (frequency as i128);
    let scaled: i128 = moved / used_scale;
    assert(-0x10_0000_0000_0000_0000_0000_0000_0000 <= scaled
        <= 0x10_0000_0000_0000_0000_0000_0000_0000) by (nonlinear_arith)
        requires
            -0x10_0000_0000_0000_0000_0000_0000_0000 <= moved
                <= 0x10_0000_0000_0000_0000_0000_0000_0000,
            used_scale >= 1,
            scaled == tdiv(moved as int, used_scale as int),
    ;
    scaled + offset
}

/// A sample moved from the range that starts at 0 to the one around it:
/// `2 * sample - 1`.
pub open spec fn rescaled(sample: int) -> int {
    2 * sample - UNIT
}

/// What octave `octave` adds to a height.
pub open spec fn octave_term(sample: int, persistance: int, octave: nat) -> int {
    fixed_product(rescaled(sample), fixed_power(effective_persistance(persistance), octave))
}

/// The height that the octave samples of one cell add up to, before the map
/// is normalised.
pub open spec fn raw_height(samples: Seq<i64>, persistance: int) -> int
    decreases samples.len(),
{
    if samples.len() == 0 {
        0
    } else {
        raw_height(samples.drop_last(), persistance) + octave_term(
            samples.last() as int,
            persistance,
            (samples.len() - 1) as nat,
        )
    }
}

/// With an amplitude between 0 and 1, the term of an octave is no larger
/// than its rescaled sample can be.
pub proof fn lemma_term_bound(sample: i64, amplitude: int)
    requires
        0 <= amplitude <= UNIT,
    ensures
        -0x2_0000_0000_0000_0000 <= fixed_product(rescaled(sample as int), amplitude)
            <= 0x2_0000_0000_0000_0000,
{
    lemma_product_with_share(rescaled(sample as int), amplitude);
}

/// The raw height of `n` octaves is no larger than `n` terms can be.
pub proof fn lemma_raw_height_bound(samples: Seq<i64>, persistance: int)
    ensures
        -0x2_0000_0000_0000_0000 * samples.len() <= raw_height(samples, persistance)
            <= 0x2_0000_0000_0000_0000 * samples.len(),
    decreases samples.len(),
{
    if samples.len() > 0 {
        lemma_raw_height_bound(samples.drop_last(), persistance);
        let octave = (samples.len() - 1) as nat;
        lemma_power_of_fraction(effective_persistance(persistance), octave);
        lemma_term_bound(samples.last(), fixed_power(effective_persistance(persistance), octave));
    }
}

/// Adds up the octaves of one cell: sample `i`, rescaled, weighs
/// `persistance^i`.
pub fn raw_height_of(samples: &[i64], persistance: i64) -> (height: i128)
    requires
        samples.len() <= u32::MAX,
    ensures
        height == raw_height(samples@, persistance as int),
        -RAW_LIMIT <= height <= RAW_LIMIT,
{
    let factor: i64 = clamp_persistance(persistance);
    let mut height: i128 = 0;
    let mut amplitude: i64 = UNIT;
    let mut octave: usize = 0;
    while octave < samples.len()
        invariant
            octave <= samples.len() <= u32::MAX,
            factor == effective_persistance(persistance as int),
            0 <= amplitude <= UNIT,
            amplitude == fixed_power(factor as int, octave as nat),
            height == raw_height(samples@.take(octave as int), persistance as int),
        decreases samples.len() - octave,
    {
        let sample: i64 = samples[octave];
        let value: i128 = 2 * (sample as i128) - (UNIT as i128);
        proof {
            lemma_term_bound(sample, amplitude as int);
            lemma_raw_height_bound(samples@.take(octave as int), persistance as int);
            assert(samples@.take(octave + 1).drop_last() =~= samples@.take(octave as int));
            assert(-0x2_0000_0000_0000_0000 * 1_000_000 <= value * amplitude
                <= 0x2_0000_0000_0000_0000 * 1_000_000) by (nonlinear_arith)
                requires
                    -0x2_0000_0000_0000_0000 <= value <= 0x2_0000_0000_0000_0000,
                    0 <= amplitude <= 1_000_000,
            ;
        }
        let term: i128 = value * (amplitude as i128) / (UNIT as i128);
        height = height + term;
        proof {
            lemma_power_of_fraction(factor as int, (octave + 1) as nat);
        }
        amplitude = ((amplitude as i128) * (factor as i128) / (UNIT as i128)) as i64;
        octave = octave + 1;
    }
    assert(samples@.take(samples.len() as int) =~= samples@);
    proof {
        lemma_raw_height_bound(samples@, persistance as int);
    }
    height
}

} // verus!
