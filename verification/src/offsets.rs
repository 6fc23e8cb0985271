//! The per-octave offsets that a seed stands for.
//!
//! Octave `i` of a map samples the noise at a place of its own. The place is
//! drawn from the ChaCha8 stream of the seed: 16 bytes per octave, eight for
//! each axis, read as a little-endian word. The top 52 bits of the word, as a
//! fraction of one, pick a point of `[-100000, 100000)`; the caller's own
//! offset is added to it.

use rand::{RngCore, SeedableRng};
use rand_chacha::ChaCha8Rng;
use vstd::prelude::*;

verus! {

/// Half the width of the interval that octave offsets are drawn from: 100000.
pub const OFFSET_RANGE: i64 = 100_000_000_000;

/// Bytes of the stream that one octave uses.
pub const BYTES_PER_OCTAVE: usize = 16;

/// The largest number of octaves whose bytes can be counted in 32 bits.
pub const MAX_OCTAVES: u32 = 0x0FFF_FFFF;

/// A point of the noise plane, in fixed-point coordinates.
#[derive(Clone, Copy, Debug, PartialEq, Eq, Structural)]
pub struct Point {
    pub x: i128,
    pub y: i128,
}

/// An offset chosen by the caller, in fixed-point coordinates.
#[derive(Clone, Copy, Debug, PartialEq, Eq, Structural)]
pub struct Vec2 {
    pub x: i64,
    pub y: i64,
}

impl Vec2 {
    /// The offset that moves nothing.
    pub fn zero() -> (v: Vec2)
        ensures
            v == (Vec2 { x: 0, y: 0 }),
    {
        Vec2 { x: 0, y: 0 }
    }

    /// The offset by `x` and `y`.
    pub fn new(x: i64, y: i64) -> (v: Vec2)
        ensures
            v == (Vec2 { x, y }),
    {
        Vec2 { x, y }
    }
}

/// The largest magnitude of an octave offset's coordinate: more than an `i64`
/// offset of the caller and a drawn offset add up to.
pub const OFFSET_LIMIT: i128 = 0x1_0000_0000_0000_0000;

/// An octave offset whose coordinates are within [`OFFSET_LIMIT`].
pub open spec fn offset_in_range(offset: Point) -> bool {
    &&& -OFFSET_LIMIT <= offset.x <= OFFSET_LIMIT
    &&& -OFFSET_LIMIT <= offset.y <= OFFSET_LIMIT
}

/// The first `len` bytes of the ChaCha8 stream that `seed` starts.
pub uninterp spec fn chacha8_stream(seed: u64, len: nat) -> Seq<u8>;

/// `ChaCha8Rng::seed_from_u64` followed by `fill_bytes` on a buffer of `len`
/// bytes. Trusted: the generator fills the whole buffer, and what it writes
/// depends on `seed` and `len` alone.
#[verifier::external_body]
fn chacha8_bytes(seed: u64, len: usize) -> (bytes: Vec<u8>)
    ensures
        bytes@ == chacha8_stream(seed, len as nat),
        bytes@.len() == len,
{
    let mut bytes = vec![0u8; len];
    ChaCha8Rng::seed_from_u64(seed).fill_bytes(&mut bytes);
    bytes
}

/// The little-endian 64-bit word that starts at `bytes[at]`.
pub open spec fn word_at(bytes: Seq<u8>, at: int) -> int {
    bytes[at] + 0x100 * bytes[at + 1] + 0x1_0000 * bytes[at + 2] + 0x100_0000 * bytes[at + 3]
        + 0x1_0000_0000 * bytes[at + 4] + 0x100_0000_0000 * bytes[at + 5] + 0x1_0000_0000_0000
        * bytes[at + 6] + 0x100_0000_0000_0000 * bytes[at + 7]
}

/// The point of `[-100000, 100000)` that a 64-bit word picks: its top 52
/// bits, as a fraction of the interval's width, rounded down.
pub open spec fn spread(word: int) -> int {
    (word / 0x1000) * (2 * OFFSET_RANGE) / 0x10_0000_0000_0000 - OFFSET_RANGE
}

/// The offset of octave `octave` that a stream of bytes stands for, moved by
/// the caller's own offset: the octave's first word gives `x`, its second
/// gives `y`.
pub open spec fn offset_in_stream(stream: Seq<u8>, offset: Vec2, octave: int) -> Point {
    Point {
        x: (spread(word_at(stream, 16 * octave)) + offset.x) as i128,
        y: (spread(word_at(stream, 16 * octave + 8)) + offset.y) as i128,
    }
}

/// The offset of octave `octave` among `octaves`, for a seed and the caller's
/// own offset.
pub open spec fn octave_offset(seed: u32, offset: Vec2, octaves: nat, octave: int) -> Point {
    offset_in_stream(chacha8_stream(seed as u64, 16 * octaves), offset, octave)
}

/// The table of octave offsets.
pub open spec fn octave_offsets(seed: u32, offset: Vec2, octaves: nat) -> Seq<Point> {
    Seq::new(octaves, |octave: int| octave_offset(seed, offset, octaves, octave))
}

/// Reads the little-endian word at `bytes[at]`.
pub fn read_word(bytes: &[u8], at: usize) -> (word: u64)
    requires
        at + 8 <= bytes.len(),
    ensures
        word == word_at(bytes@, at as int),
{
    let b0: u64 = bytes[at] as u64;
    let b1: u64 = bytes[at + 1] as u64;
    let b2: u64 = bytes[at + 2] as u64;
    let b3: u64 = bytes[at + 3] as u64;
    let b4: u64 = bytes[at + 4] as u64;
    let b5: u64 = bytes[at + 5] as u64;
    let b6: u64 = bytes[at + 6] as u64;
    let b7: u64 = bytes[at + 7] as u64;
    b0 + 0x100 * b1 + 0x1_0000 * b2 + 0x100_0000 * b3 + 0x1_0000_0000 * b4 + 0x100_0000_0000 * b5
        + 0x1_0000_0000_0000 * b6 + 0x100_0000_0000_0000 * b7
}

/// Maps a word to its point of `[-100000, 100000)`.
pub fn spread_word(word: u64) -> (value: i64)
    ensures
        value == spread(word as int),
        -OFFSET_RANGE <= value < OFFSET_RANGE,
{
    let fraction: u128 = (word / 0x1000) as u128;
    let scaled: u128 = fraction * 200_000_000_000 / 0x10_0000_0000_0000;
    (scaled as i64) - OFFSET_RANGE
}

/// Reads the offsets of `octaves` octaves out of a stream of 16 bytes for
/// each, and moves them by the caller's own offset.
pub fn offsets_from_stream(bytes: &[u8], offset: Vec2, octaves: u32) -> (table: Vec<Point>)
    requires
        bytes@.len() == 16 * octaves,
    ensures
        table@.len() == octaves,
        forall|k: int|
            0 <= k < octaves ==> #[trigger] table@[k] == offset_in_stream(bytes@, offset, k),
        forall|k: int| 0 <= k < octaves ==> offset_in_range(#[trigger] table@[k]),
{
    let count: usize = bytes.len();
    let mut table: Vec<Point> = Vec::new();
    let mut octave: u32 = 0;
    while octave < octaves
        invariant
            octave <= octaves,
            count == bytes@.len() == 16 * octaves,
            table@.len() == octave,
            forall|k: int|
                0 <= k < octave ==> #[trigger] table@[k] == offset_in_stream(bytes@, offset, k),
            forall|k: int| 0 <= k < octave ==> offset_in_range(#[trigger] table@[k]),
        decreases octaves - octave,
    {
        let at: usize = (octave as usize) * BYTES_PER_OCTAVE;
        let x: i64 = spread_word(read_word(bytes, at));
        let y: i64 = spread_word(read_word(bytes, at + 8));
        table.push(Point { x: x as i128 + offset.x as i128, y: y as i128 + offset.y as i128 });
        octave = octave + 1;
    }
    table
}

/// Builds the table of octave offsets: entry `i` is where octave `i` of a map
/// with this seed is moved to. There is no table for more than
/// [`MAX_OCTAVES`] octaves.
pub fn make_octave_offsets(seed: u32, offset: Vec2, octaves: u32) -> (result: Option<Vec<Point>>)
    ensures
        result is Some <==> octaves <= MAX_OCTAVES,
        result matches Some(table) ==> {
            &&& table@ == octave_offsets(seed, offset, octaves as nat)
            &&& forall|k: int| 0 <= k < table@.len() ==> offset_in_range(#[trigger] table@[k])
        },
{
    if octaves > MAX_OCTAVES {
        return None;
    }
    let bytes = chacha8_bytes(seed as u64, (octaves as usize) * BYTES_PER_OCTAVE);
    let table = offsets_from_stream(bytes.as_slice(), offset, octaves);
    assert(table@ =~= octave_offsets(seed, offset, octaves as nat));
    Some(table)
}

} // verus!
