use noise::{NoiseFn, Perlin};

use fractal_map::fixed::UNIT;
use fractal_map::map::{OutOfBounds, WorldMap};
use fractal_map::noise_map::GenerationError;

fn plain(x: i128, y: i128) -> i64 {
    (x + 1000 * y) as i64
}

#[test]
fn plain_map_samples_every_cell_at_its_place() {
    // scale 2: cell (x, y) is sampled at (x / 2, y / 2)
    let map = WorldMap::generate(3, 2, 2 * UNIT, &plain).unwrap();
    assert_eq!(map._width(), 3);
    assert_eq!(map._height(), 2);
    assert_eq!(map.get(0, 0), Ok(0));
    assert_eq!(map.get(1, 0), Ok(500_000));
    assert_eq!(map.get(2, 0), Ok(1_000_000));
    assert_eq!(map.get(0, 1), Ok(500_000_000));
    assert_eq!(map.get(2, 1), Ok(501_000_000));
}

#[test]
fn plain_map_refuses_places_outside_the_grid() {
    let map = WorldMap::generate(3, 2, UNIT, &plain).unwrap();
    assert_eq!(map.get(3, 0), Err(OutOfBounds { x: 3, y: 0 }));
    assert_eq!(map.get(0, 2), Err(OutOfBounds { x: 0, y: 2 }));
    assert_eq!(map.get(3, 1), Err(OutOfBounds { x: 3, y: 1 }));
    assert_eq!(map.get(u32::MAX, u32::MAX), Err(OutOfBounds { x: u32::MAX, y: u32::MAX }));
    assert!(map.get(2, 1).is_ok());
}

#[test]
fn plain_map_with_scale_zero_uses_the_least_scale() {
    let sampler = |x: i128, y: i128| (x / 1_000_000 + y / 1_000_000) as i64;
    let zero = WorldMap::generate(2, 2, 0, &sampler).unwrap();
    // 1 / 0.0001 = 10000
    assert_eq!(zero.get(1, 0), Ok(10_000));
    assert_eq!(zero.get(1, 1), Ok(20_000));
    let negative = WorldMap::generate(2, 2, -5, &sampler).unwrap();
    let least = WorldMap::generate(2, 2, 100, &sampler).unwrap();
    for y in 0..2 {
        for x in 0..2 {
            assert_eq!(negative.get(x, y), least.get(x, y));
            assert_eq!(zero.get(x, y), least.get(x, y));
        }
    }
}

#[test]
fn plain_map_rounds_coordinates_toward_zero() {
    let sampler = |x: i128, _y: i128| x as i64;
    let map = WorldMap::generate(3, 1, 3 * UNIT, &sampler).unwrap();
    assert_eq!(map.get(1, 0), Ok(333_333));
    assert_eq!(map.get(2, 0), Ok(666_666));
}

#[test]
fn plain_map_of_an_empty_grid_has_no_cells() {
    let map = WorldMap::generate(0, 4, UNIT, &plain).unwrap();
    assert_eq!(map._width(), 0);
    assert_eq!(map._height(), 4);
    assert_eq!(map.get(0, 0), Err(OutOfBounds { x: 0, y: 0 }));
}

#[test]
fn plain_map_refuses_too_large_a_grid() {
    let result = WorldMap::generate(65536, 65536, UNIT, &plain);
    assert!(matches!(result, Err(GenerationError::GridTooLarge)));
    let result = WorldMap::generate(32768, 32768, UNIT, &plain);
    assert!(matches!(result, Err(GenerationError::GridTooLarge)));
}

#[test]
fn plain_map_of_perlin_noise() {
    let perlin = Perlin::new();
    let sampler = |x: i128, y: i128| {
        let value = perlin.get([x as f64 / 1_000_000.0, y as f64 / 1_000_000.0]);
        (value * 1_000_000.0).round() as i64
    };
    let map = WorldMap::generate(5, 4, 2_500_000, &sampler).unwrap();
    for y in 0..4u32 {
        for x in 0..5u32 {
            let expected = perlin.get([f64::from(x) / 2.5, f64::from(y) / 2.5]);
            let ours = map.get(x, y).unwrap() as f64 / 1_000_000.0;
            assert!((ours - expected).abs() < 0.000_01);
        }
    }
}

#[test]
fn map_of_values_needs_one_value_for_every_cell() {
    let map = WorldMap::from_values(2, 3, vec![1, 2, 3, 4, 5, 6]).unwrap();
    assert_eq!(map._width(), 2);
    assert_eq!(map._height(), 3);
    assert_eq!(map.get(0, 0), Ok(1));
    assert_eq!(map.get(1, 0), Ok(2));
    assert_eq!(map.get(0, 1), Ok(3));
    assert_eq!(map.get(1, 2), Ok(6));
    assert!(WorldMap::from_values(2, 3, vec![1, 2, 3, 4, 5]).is_none());
    assert!(WorldMap::from_values(2, 3, vec![1, 2, 3, 4, 5, 6, 7]).is_none());
    assert!(WorldMap::from_values(0, 0, vec![]).is_some());
    assert!(WorldMap::from_values(0, 3, vec![1]).is_none());
    assert!(WorldMap::from_values(u32::MAX, u32::MAX, vec![]).is_none());
}
