use fractal_map::fixed::UNIT;
use fractal_map::terrain::{classify, colors_by_height, colors_by_region, Color, TerrainType};

fn three_bands() -> Vec<TerrainType> {
    vec![
        TerrainType::new("Blue", 150_000, Color::blue()),
        TerrainType::new("Green", 600_000, Color::green()),
        TerrainType::new("White", 1_000_000, Color::white()),
    ]
}

#[test]
fn heights_fall_into_the_first_band_above_them() {
    let regions = three_bands();
    assert_eq!(classify(&regions, 100_000), Color::blue());
    assert_eq!(classify(&regions, 150_000), Color::green());
    assert_eq!(classify(&regions, 990_000), Color::white());
    assert_eq!(classify(&regions, 1_000_000), Color::black());
}

#[test]
fn band_bounds_are_exclusive() {
    let regions = three_bands();
    assert_eq!(classify(&regions, 149_999), Color::blue());
    assert_eq!(classify(&regions, 599_999), Color::green());
    assert_eq!(classify(&regions, 600_000), Color::white());
    assert_eq!(classify(&regions, 999_999), Color::white());
    assert_eq!(classify(&regions, 0), Color::blue());
    assert_eq!(classify(&regions, -5), Color::blue());
    assert_eq!(classify(&regions, i64::MAX), Color::black());
}

#[test]
fn no_bands_means_black() {
    assert_eq!(classify(&[], 0), Color::black());
    assert_eq!(classify(&[], UNIT), Color::black());
}

#[test]
fn first_match_wins_whatever_the_order() {
    let regions = vec![
        TerrainType::new("High", 900_000, Color::white()),
        TerrainType::new("Low", 100_000, Color::blue()),
    ];
    assert_eq!(classify(&regions, 50_000), Color::white());
    assert_eq!(classify(&regions, 500_000), Color::white());
    assert_eq!(classify(&regions, 900_000), Color::black());
    let twice = vec![
        TerrainType::new("One", 500_000, Color::green()),
        TerrainType::new("Two", 500_000, Color::yellow()),
    ];
    assert_eq!(classify(&twice, 499_999), Color::green());
    assert_eq!(classify(&twice, 500_000), Color::black());
}

#[test]
fn colours_are_fixed_point_channels() {
    assert_eq!(Color::black(), Color { r: 0, g: 0, b: 0, a: UNIT });
    assert_eq!(Color::white(), Color { r: UNIT, g: UNIT, b: UNIT, a: UNIT });
    assert_eq!(Color::blue(), Color { r: 0, g: 0, b: UNIT, a: UNIT });
    assert_eq!(Color::yellow(), Color { r: UNIT, g: UNIT, b: 0, a: UNIT });
    assert_eq!(Color::green(), Color { r: 0, g: UNIT, b: 0, a: UNIT });
    assert_eq!(Color::maroon(), Color { r: 500_000, g: 0, b: 0, a: UNIT });
    assert_eq!(Color::rgb(1, 2, 3), Color { r: 1, g: 2, b: 3, a: UNIT });
    assert_eq!(Color::rgba(1, 2, 3, 4), Color { r: 1, g: 2, b: 3, a: 4 });
    assert_eq!(Color::gray(250_000), Color { r: 250_000, g: 250_000, b: 250_000, a: UNIT });
}

#[test]
fn a_band_holds_what_it_was_made_of() {
    let band = TerrainType::new("Sand", 550_000, Color::yellow());
    assert_eq!(band.name, "Sand");
    assert_eq!(band.height, 550_000);
    assert_eq!(band.color, Color::yellow());
}

#[test]
fn default_band_is_nameless_low_and_white() {
    let band = TerrainType::default();
    assert_eq!(band.name, "");
    assert_eq!(band.height, 0);
    assert_eq!(band.color, Color::white());
}

#[test]
fn a_map_is_coloured_cell_by_cell() {
    let regions = three_bands();
    let colors = colors_by_region(&[100_000, 150_000, 990_000, 1_000_000], &regions);
    assert_eq!(colors, vec![Color::blue(), Color::green(), Color::white(), Color::black()]);
    assert_eq!(colors_by_region(&[], &regions), vec![]);
}

#[test]
fn a_map_is_greyed_cell_by_cell() {
    let colors = colors_by_height(&[0, 500_000, UNIT]);
    assert_eq!(colors, vec![Color::gray(0), Color::gray(500_000), Color::gray(UNIT)]);
    assert_eq!(colors[1], Color { r: 500_000, g: 500_000, b: 500_000, a: UNIT });
}

#[test]
fn rising_bands_take_the_heights_between_them() {
    let regions = three_bands();
    for height in [150_000, 300_000, 599_999] {
        assert_eq!(classify(&regions, height), regions[1].color);
    }
    for height in [600_000, 800_000, 999_999] {
        assert_eq!(classify(&regions, height), regions[2].color);
    }
    for height in [i64::MIN, -1, 0, 149_999] {
        assert_eq!(classify(&regions, height), regions[0].color);
    }
}
