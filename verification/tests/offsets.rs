use rand::{Rng, RngCore, SeedableRng};
use rand_chacha::ChaCha8Rng;

use fractal_map::offsets::{
    make_octave_offsets, offsets_from_stream, read_word, spread_word, Point, Vec2, MAX_OCTAVES,
    OFFSET_RANGE,
};

#[test]
fn read_word_is_little_endian() {
    let bytes: Vec<u8> = vec![0x01, 0x02, 0x03, 0x04, 0x05, 0x06, 0x07, 0x08, 0xff];
    assert_eq!(read_word(&bytes, 0), 0x0807_0605_0403_0201);
    assert_eq!(read_word(&bytes, 1), 0xff08_0706_0504_0302);
    let ones: Vec<u8> = vec![0xff; 8];
    assert_eq!(read_word(&ones, 0), u64::MAX);
}

#[test]
fn spread_word_covers_the_interval() {
    assert_eq!(OFFSET_RANGE, 100_000_000_000);
    assert_eq!(spread_word(0), -100_000_000_000);
    assert_eq!(spread_word(0xfff), -100_000_000_000);
    assert_eq!(spread_word(1 << 63), 0);
    assert_eq!(spread_word(1 << 62), -50_000_000_000);
    assert_eq!(spread_word(3 << 62), 50_000_000_000);
    assert_eq!(spread_word(u64::MAX), 99_999_999_999);
}

#[test]
fn offsets_follow_the_chacha8_stream() {
    let table = make_octave_offsets(42, Vec2::zero(), 3).unwrap();
    assert_eq!(table.len(), 3);
    let mut rng = ChaCha8Rng::seed_from_u64(42);
    for entry in &table {
        let x = spread_word(rng.next_u64());
        let y = spread_word(rng.next_u64());
        assert_eq!(*entry, Point { x: i128::from(x), y: i128::from(y) });
    }
    let zero = Point { x: -100_000_000_000, y: -100_000_000_000 };
    assert_ne!(table[0], zero);
    assert_ne!(table[0], table[1]);
}

#[test]
fn offsets_agree_with_uniform_floats() {
    let table = make_octave_offsets(7, Vec2::zero(), 8).unwrap();
    let mut rng = ChaCha8Rng::seed_from_u64(7);
    for entry in &table {
        let x: f64 = rng.gen_range(-100000.0, 100000.0);
        let y: f64 = rng.gen_range(-100000.0, 100000.0);
        assert!((entry.x as f64 / 1_000_000.0 - x).abs() < 0.000_002);
        assert!((entry.y as f64 / 1_000_000.0 - y).abs() < 0.000_002);
    }
}

#[test]
fn offsets_are_moved_by_the_callers_offset() {
    let plain = make_octave_offsets(9, Vec2::zero(), 4).unwrap();
    let moved = make_octave_offsets(9, Vec2::new(1_500_000, -2_000_000), 4).unwrap();
    for (a, b) in plain.iter().zip(moved.iter()) {
        assert_eq!(b.x, a.x + 1_500_000);
        assert_eq!(b.y, a.y - 2_000_000);
    }
    let far = make_octave_offsets(9, Vec2::new(i64::MAX, i64::MIN), 1).unwrap();
    assert_eq!(far[0].x, plain_first(9).x + i128::from(i64::MAX));
    assert_eq!(far[0].y, plain_first(9).y + i128::from(i64::MIN));
}

fn plain_first(seed: u32) -> Point {
    make_octave_offsets(seed, Vec2::zero(), 1).unwrap()[0]
}

#[test]
fn offsets_depend_on_the_seed_alone() {
    let first = make_octave_offsets(1, Vec2::zero(), 5).unwrap();
    let again = make_octave_offsets(1, Vec2::zero(), 5).unwrap();
    let other = make_octave_offsets(2, Vec2::zero(), 5).unwrap();
    assert_eq!(first, again);
    assert_ne!(first, other);
}

#[test]
fn no_octaves_no_offsets() {
    assert_eq!(make_octave_offsets(3, Vec2::zero(), 0), Some(vec![]));
}

#[test]
fn too_many_octaves_have_no_table() {
    assert_eq!(MAX_OCTAVES, 268_435_455);
    assert_eq!(make_octave_offsets(3, Vec2::zero(), MAX_OCTAVES + 1), None);
    assert_eq!(make_octave_offsets(3, Vec2::zero(), u32::MAX), None);
}

#[test]
fn zero_offset_is_the_origin() {
    assert_eq!(Vec2::zero(), Vec2 { x: 0, y: 0 });
    assert_eq!(Vec2::new(3, -4), Vec2 { x: 3, y: -4 });
}

#[test]
fn offsets_are_read_out_of_the_stream() {
    let mut bytes: Vec<u8> = vec![0; 32];
    // octave 0: x from the word 2^63, y from the word 0
    bytes[7] = 0x80;
    // octave 1: x from the word 2^62, y from the word 3 * 2^62
    bytes[16 + 7] = 0x40;
    bytes[24 + 7] = 0xc0;
    let table = offsets_from_stream(&bytes, Vec2::new(5, -7), 2);
    assert_eq!(
        table,
        vec![
            Point { x: 5, y: -100_000_000_007 },
            Point { x: -49_999_999_995, y: 49_999_999_993 },
        ]
    );
    assert_eq!(offsets_from_stream(&[], Vec2::new(5, -7), 0), vec![]);
}
