use fractal_map::fixed::UNIT;
use fractal_map::octaves::{
    clamp_lacunarity, clamp_persistance, clamp_scale, coordinate, power_table, raw_height_of,
    MIN_SCALE,
};

#[test]
fn scale_that_is_not_positive_becomes_the_least_scale() {
    assert_eq!(MIN_SCALE, 100);
    assert_eq!(clamp_scale(0), 100);
    assert_eq!(clamp_scale(-1), 100);
    assert_eq!(clamp_scale(i64::MIN), 100);
    assert_eq!(clamp_scale(1), 1);
    assert_eq!(clamp_scale(50 * UNIT), 50 * UNIT);
}

#[test]
fn persistance_is_held_to_the_unit_interval() {
    assert_eq!(clamp_persistance(-1), 0);
    assert_eq!(clamp_persistance(0), 0);
    assert_eq!(clamp_persistance(500_000), 500_000);
    assert_eq!(clamp_persistance(UNIT), UNIT);
    assert_eq!(clamp_persistance(UNIT + 1), UNIT);
}

#[test]
fn lacunarity_is_one_at_least() {
    assert_eq!(clamp_lacunarity(0), UNIT);
    assert_eq!(clamp_lacunarity(UNIT - 1), UNIT);
    assert_eq!(clamp_lacunarity(UNIT), UNIT);
    assert_eq!(clamp_lacunarity(2 * UNIT), 2 * UNIT);
}

#[test]
fn powers_of_two_and_of_a_half() {
    assert_eq!(
        power_table(2 * UNIT, 4),
        Some(vec![1_000_000, 2_000_000, 4_000_000, 8_000_000])
    );
    assert_eq!(power_table(UNIT / 2, 4), Some(vec![1_000_000, 500_000, 250_000, 125_000]));
    assert_eq!(power_table(2 * UNIT, 0), Some(vec![]));
    assert_eq!(power_table(i64::MAX, 1), Some(vec![1_000_000]));
}

#[test]
fn powers_round_toward_zero() {
    assert_eq!(power_table(333_333, 3), Some(vec![1_000_000, 333_333, 111_110]));
    assert_eq!(power_table(-333_333, 3), Some(vec![1_000_000, -333_333, 111_110]));
    assert_eq!(power_table(-1_500_001, 2), Some(vec![1_000_000, -1_500_001]));
}

#[test]
fn powers_that_overflow_have_no_table() {
    assert_eq!(
        power_table(100 * UNIT, 7).unwrap()[6],
        1_000_000_000_000_000_000
    );
    assert_eq!(power_table(100 * UNIT, 8), None);
    assert_eq!(power_table(i64::MAX, 2), Some(vec![1_000_000, i64::MAX]));
    assert_eq!(power_table(i64::MAX, 3), None);
    assert!(power_table(2 * UNIT, 44).is_some());
    assert_eq!(power_table(2 * UNIT, 45), None);
}

#[test]
fn coordinate_is_centred_scaled_and_moved() {
    // (0 - 4 / 2) / 10 * 1 + 0 = -0.2
    assert_eq!(coordinate(0, 4, 10 * UNIT, UNIT, 0), -200_000);
    // (3 - 4 / 2) / 10 * 2 + 0.5 = 0.7
    assert_eq!(coordinate(3, 4, 10 * UNIT, 2 * UNIT, 500_000), 700_000);
    // (2 - 5 / 2) / 4 * 1 - 1 = -1.125
    assert_eq!(coordinate(2, 5, 4 * UNIT, UNIT, -UNIT as i128), -1_125_000);
    // the middle of an even grid
    assert_eq!(coordinate(2, 4, 10 * UNIT, 8 * UNIT, 17), 17);
}

#[test]
fn coordinate_uses_the_least_scale_for_scale_zero() {
    // (1 - 0) / 0.0001 = 10000
    assert_eq!(coordinate(1, 0, 0, UNIT, 0), 10_000 * UNIT as i128);
    assert_eq!(coordinate(1, 0, -7, UNIT, 0), coordinate(1, 0, 100, UNIT, 0));
    assert_eq!(coordinate(7, 3, 0, 3 * UNIT, 5), coordinate(7, 3, 100, 3 * UNIT, 5));
}

#[test]
fn coordinate_rounds_toward_zero_on_both_sides() {
    // (1 - 1.5) / 3 = -0.1666..., (2 - 1.5) / 3 = 0.1666...
    assert_eq!(coordinate(1, 3, 3 * UNIT, UNIT, 0), -166_666);
    assert_eq!(coordinate(2, 3, 3 * UNIT, UNIT, 0), 166_666);
}

#[test]
fn coordinate_holds_the_widest_grid_and_frequency() {
    let at = coordinate(u32::MAX, 0, 1, i64::MAX, 0);
    assert_eq!(at, 2 * i128::from(u32::MAX) * 500_000 * i128::from(i64::MAX));
}

#[test]
fn raw_height_of_one_octave_is_the_rescaled_sample() {
    assert_eq!(raw_height_of(&vec![750_000], 500_000), 500_000);
    assert_eq!(raw_height_of(&vec![0], 500_000), -1_000_000);
    assert_eq!(raw_height_of(&vec![-1_000_000], 500_000), -3_000_000);
    assert_eq!(raw_height_of(&[], 500_000), 0);
}

#[test]
fn raw_height_weighs_octaves_by_persistance() {
    // 0.5 + (2 * 0.25 - 1) * 0.5 = 0.25
    assert_eq!(raw_height_of(&vec![750_000, 250_000], 500_000), 250_000);
    // 1 + 1 * 0.5 + 1 * 0.25 = 1.75
    assert_eq!(raw_height_of(&vec![UNIT, UNIT, UNIT], 500_000), 1_750_000);
    // persistance above 1 counts as 1, below 0 as 0
    assert_eq!(raw_height_of(&vec![UNIT, UNIT, UNIT], 3 * UNIT), 3_000_000);
    assert_eq!(raw_height_of(&vec![UNIT, UNIT, UNIT], -UNIT), 1_000_000);
}

#[test]
fn raw_height_holds_extreme_samples() {
    let top = raw_height_of(&vec![i64::MAX, i64::MAX], UNIT);
    assert_eq!(top, 2 * (2 * i128::from(i64::MAX) - 1_000_000));
    let bottom = raw_height_of(&vec![i64::MIN], UNIT);
    assert_eq!(bottom, 2 * i128::from(i64::MIN) - 1_000_000);
}

#[test]
fn coordinates_mirror_each_other_across_the_middle() {
    for (index, extent) in [(0u32, 4u32), (1, 4), (0, 5), (1, 5), (2, 5), (3, 7)] {
        let near = coordinate(index, extent, 3 * UNIT, 2 * UNIT, 1_234);
        let far = coordinate(extent - index, extent, 3 * UNIT, 2 * UNIT, 1_234);
        assert_eq!(far - 1_234, -(near - 1_234));
    }
}
