use std::cell::Cell;

use noise::{NoiseFn, OpenSimplex, Seedable};

use fractal_map::fixed::UNIT;
use fractal_map::map_generator::{DrawMode, Edit, MapGenerator};
use fractal_map::noise_map::{generate, GenerationError};
use fractal_map::offsets::Vec2;
use fractal_map::seed::calculate_u32_seed_from_str;
use fractal_map::terrain::{colors_by_region, Color};
use fractal_map::texture::{get_texture_for_color_map, get_texture_for_height_map};

fn ripple(x: i128, y: i128) -> i64 {
    ((x / 1000 + 3 * (y / 1000)).rem_euclid(2001) * 1000 - 1_000_000) as i64
}

fn small() -> MapGenerator {
    let mut generator = MapGenerator::default();
    generator.update_map_generator(vec![Edit::MapSize(6), Edit::NoiseScale(2 * UNIT)]);
    generator
}

#[test]
fn default_generator_settings() {
    let generator = MapGenerator::default();
    assert_eq!(generator.map_size, 256);
    assert_eq!(generator.seed, "wizard tower");
    assert_eq!(generator.noise_scale, 50 * UNIT);
    assert_eq!(generator.octaves, 4);
    assert_eq!(generator.persistance, 500_000);
    assert_eq!(generator.lacunarity, 2 * UNIT);
    assert_eq!(generator.offset, Vec2::zero());
    assert_eq!(generator.draw_mode, DrawMode::NoiseMap);
    assert!(generator.changed);
    assert!(generator.cached_texture.data.is_empty());
}

#[test]
fn default_generator_bands() {
    let generator = MapGenerator::default();
    let bands: Vec<(&str, i64, Color)> = generator
        .regions
        .iter()
        .map(|band| (band.name.as_str(), band.height, band.color))
        .collect();
    assert_eq!(
        bands,
        vec![
            ("Water", 500_000, Color::blue()),
            ("Sand", 550_000, Color::yellow()),
            ("Grass", 800_000, Color::green()),
            ("Mountain", 900_000, Color::maroon()),
            ("Peak", 1_000_000, Color::white()),
        ]
    );
}

#[test]
fn default_draw_mode_is_the_colour_map() {
    assert_eq!(DrawMode::default(), DrawMode::ColorMap);
}

#[test]
fn noise_seed_is_the_seed_of_the_phrase() {
    let generator = MapGenerator::default();
    assert_eq!(generator.noise_seed(), calculate_u32_seed_from_str("wizard tower"));
}

#[test]
fn noise_map_of_the_settings() {
    let generator = small();
    let field = generator.generate_noise_map(&ripple).unwrap();
    let seed = calculate_u32_seed_from_str("wizard tower");
    let expected =
        generate(6, 6, seed, 2 * UNIT, 4, UNIT / 2, 2 * UNIT, Vec2::zero(), &ripple).unwrap();
    assert_eq!(field, expected);
    assert_eq!(field.len(), 36);
}

#[test]
fn texture_of_the_default_generator_with_simplex_noise() {
    let mut generator = MapGenerator::default();
    let simplex = OpenSimplex::new().set_seed(generator.noise_seed());
    let sampler = |x: i128, y: i128| {
        let value = simplex.get([x as f64 / 1_000_000.0, y as f64 / 1_000_000.0]);
        (value * 1_000_000.0).round() as i64
    };
    let texture = generator.validate_then_get_texture(&sampler).unwrap();
    assert_eq!(texture.width, 256);
    assert_eq!(texture.height, 256);
    assert_eq!(texture.data.len(), 256 * 256 * 4);
    assert!(texture.data.chunks(4).all(|pixel| pixel[0] == pixel[1]
        && pixel[1] == pixel[2]
        && pixel[3] == 255));
    assert!(texture.data.contains(&0));
    assert!(!generator.changed);
    assert_eq!(generator.cached_texture, texture);
}

#[test]
fn texture_in_greys() {
    let mut generator = small();
    let texture = generator.validate_then_get_texture(&ripple).unwrap();
    let field = generator.generate_noise_map(&ripple).unwrap();
    assert_eq!(texture, get_texture_for_height_map(&field, 6, 6));
    assert_eq!(texture.data.len(), 6 * 6 * 4);
}

#[test]
fn texture_in_terrain_colours() {
    let mut generator = small();
    generator.update_map_generator(vec![Edit::Mode(DrawMode::ColorMap)]);
    let texture = generator.validate_then_get_texture(&ripple).unwrap();
    let field = generator.generate_noise_map(&ripple).unwrap();
    let colors = colors_by_region(&field, &generator.regions);
    assert_eq!(texture, get_texture_for_color_map(&colors, 6, 6));
    // the highest cell is 1 and no band lies above it: black
    let top = field.iter().position(|height| *height == UNIT).unwrap();
    assert_eq!(&texture.data[4 * top..4 * top + 4], &[0, 0, 0, 255]);
    // the lowest cell is 0: water, blue
    let bottom = field.iter().position(|height| *height == 0).unwrap();
    assert_eq!(&texture.data[4 * bottom..4 * bottom + 4], &[0, 0, 255, 255]);
}

#[test]
fn texture_is_kept_until_a_setting_is_edited() {
    let calls = Cell::new(0u32);
    let sampler = |x: i128, y: i128| {
        calls.set(calls.get() + 1);
        ripple(x, y)
    };
    let mut generator = small();
    let first = generator.validate_then_get_texture(&sampler).unwrap();
    assert_eq!(calls.get(), 6 * 6 * 4);
    assert!(!generator.changed);
    let second = generator.validate_then_get_texture(&sampler).unwrap();
    assert_eq!(calls.get(), 6 * 6 * 4);
    assert_eq!(second, first);

    generator.update_map_generator(vec![]);
    assert!(!generator.changed);
    generator.update_map_generator(vec![Edit::Octaves(2)]);
    assert!(generator.changed);
    let third = generator.validate_then_get_texture(&sampler).unwrap();
    assert_eq!(calls.get(), 6 * 6 * 4 + 6 * 6 * 2);
    assert_ne!(third, first);
    assert_eq!(generator.cached_texture, third);
}

#[test]
fn settings_are_put_right_before_the_map_is_made() {
    let mut generator = small();
    generator.update_map_generator(vec![
        Edit::MapSize(0),
        Edit::Lacunarity(UNIT / 2),
        Edit::Persistance(7 * UNIT),
    ]);
    let texture = generator.validate_then_get_texture(&ripple).unwrap();
    assert_eq!(generator.map_size, 1);
    assert_eq!(generator.lacunarity, UNIT);
    assert_eq!(generator.persistance, UNIT);
    assert_eq!(texture.width, 1);
    assert_eq!(texture.height, 1);
    assert_eq!(texture.data, vec![0, 0, 0, 255]);

    generator.update_map_generator(vec![Edit::Persistance(-1)]);
    assert!(generator.validate_then_get_texture(&ripple).is_ok());
    assert_eq!(generator.persistance, 0);
}

#[test]
fn settings_are_left_alone_while_nothing_was_edited() {
    let mut generator = small();
    assert!(generator.validate_then_get_texture(&ripple).is_ok());
    generator.lacunarity = 0;
    generator.map_size = 0;
    let kept = generator.cached_texture.copy();
    assert_eq!(generator.validate_then_get_texture(&ripple), Ok(kept));
    assert_eq!(generator.lacunarity, 0);
    assert_eq!(generator.map_size, 0);
}

#[test]
fn a_map_that_cannot_be_made_leaves_the_texture() {
    let mut generator = small();
    let first = generator.validate_then_get_texture(&ripple).unwrap();
    generator.update_map_generator(vec![Edit::Lacunarity(100 * UNIT), Edit::Octaves(8)]);
    assert_eq!(
        generator.validate_then_get_texture(&ripple),
        Err(GenerationError::FrequencyOverflow)
    );
    assert!(generator.changed);
    assert_eq!(generator.cached_texture, first);
    generator.update_map_generator(vec![Edit::MapSize(40_000)]);
    assert_eq!(generator.validate_then_get_texture(&ripple), Err(GenerationError::GridTooLarge));
    generator.update_map_generator(vec![Edit::MapSize(2), Edit::Octaves(u32::MAX)]);
    assert_eq!(
        generator.validate_then_get_texture(&ripple),
        Err(GenerationError::TooManyOctaves)
    );
}

#[test]
fn edits_change_their_setting() {
    let mut generator = MapGenerator::default();
    generator.changed = false;
    generator.update_map_generator(vec![
        Edit::Seed(String::from("supok")),
        Edit::OffsetX(1_250_000),
        Edit::OffsetY(-3),
        Edit::MapSize(100),
        Edit::NoiseScale(25 * UNIT),
        Edit::Octaves(7),
        Edit::Persistance(400_000),
        Edit::Lacunarity(3 * UNIT),
        Edit::Mode(DrawMode::ColorMap),
    ]);
    assert_eq!(generator.seed, "supok");
    assert_eq!(generator.offset, Vec2::new(1_250_000, -3));
    assert_eq!(generator.map_size, 100);
    assert_eq!(generator.noise_scale, 25 * UNIT);
    assert_eq!(generator.octaves, 7);
    assert_eq!(generator.persistance, 400_000);
    assert_eq!(generator.lacunarity, 3 * UNIT);
    assert_eq!(generator.draw_mode, DrawMode::ColorMap);
    assert!(generator.changed);
    assert_eq!(generator.regions, MapGenerator::default().regions);
}

#[test]
fn later_edits_win() {
    let mut generator = MapGenerator::default();
    generator.update_map_generator(vec![Edit::Octaves(2), Edit::OffsetX(5), Edit::Octaves(9)]);
    assert_eq!(generator.octaves, 9);
    assert_eq!(generator.offset, Vec2::new(5, 0));
}

#[test]
fn a_frame_without_edits_counts_as_unedited() {
    let mut generator = MapGenerator::default();
    assert!(generator.changed);
    generator.update_map_generator(vec![]);
    assert!(!generator.changed);
    assert_eq!(generator.map_size, 256);
}

#[test]
fn seed_phrase_decides_the_offsets_of_the_map() {
    let mut first = small();
    let mut second = small();
    second.update_map_generator(vec![Edit::Seed(String::from("supok"))]);
    assert_ne!(first.noise_seed(), second.noise_seed());
    let a = first.validate_then_get_texture(&ripple).unwrap();
    let b = second.validate_then_get_texture(&ripple).unwrap();
    assert_ne!(a, b);
}
