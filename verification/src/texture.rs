//! Pixel buffers: a map's colours as RGBA bytes.

use crate::fixed::{channel_byte, quantize};
use crate::terrain::{colors_by_height, gray_colors, Color};
use vstd::prelude::*;

verus! {

/// A two-dimensional image of `width` by `height` pixels, row by row, four
/// bytes to the pixel: red, green, blue, alpha.
#[derive(Clone, Debug, PartialEq, Eq)]
pub struct Texture {
    pub width: u32,
    pub height: u32,
    pub data: Vec<u8>,
}

/// Channel `channel` of a colour: 0 is red, 1 green, 2 blue, and 3 alpha.
pub open spec fn channel_of(color: Color, channel: int) -> i64 {
    if channel == 0 {
        color.r
    } else if channel == 1 {
        color.g
    } else if channel == 2 {
        color.b
    } else {
        color.a
    }
}

/// The bytes of a sequence of colours: byte `4 * k + c` is channel `c` of
/// colour `k`, quantised.
pub open spec fn pixel_bytes(colors: Seq<Color>) -> Seq<u8> {
    Seq::new(
        4 * colors.len(),
        |at: int| channel_byte(channel_of(colors[at / 4], at % 4) as int) as u8,
    )
}

impl Texture {
    /// The texture holds four bytes for each of its pixels.
    pub open spec fn well_formed(&self) -> bool {
        self.data@.len() == 4 * (self.width * self.height)
    }

    /// A texture without pixels.
    pub fn empty() -> (texture: Texture)
        ensures
            texture.width == 0,
            texture.height == 0,
            texture.data@ == Seq::<u8>::empty(),
            texture.well_formed(),
    {
        Texture { width: 0, height: 0, data: Vec::new() }
    }

    /// A texture with the same pixels.
    pub fn copy(&self) -> (texture: Texture)
        ensures
            texture.width == self.width,
            texture.height == self.height,
            texture.data@ == self.data@,
    {
        let data = self.data.clone();
        assert(data@ =~= self.data@);
        Texture { width: self.width, height: self.height, data }
    }
}

/// Lays a map's colours out as a texture: pixel `(x, y)` is `color_map[y *
/// width + x]`, each channel quantised to a byte.
pub fn get_texture_for_color_map(color_map: &[Color], width: u32, height: u32) -> (texture:
    Texture)
    requires
        color_map@.len() == width * height,
    ensures
        texture.width == width,
        texture.height == height,
        texture.data@ == pixel_bytes(color_map@),
        texture.data@.len() == 4 * (width * height),
        texture.well_formed(),
{
    let mut data: Vec<u8> = Vec::new();
    let mut cell: usize = 0;
    while cell < color_map.len()
        invariant
            cell <= color_map@.len(),
            data@.len() == 4 * cell,
            forall|at: int|
                0 <= at < 4 * cell ==> #[trigger] data@[at] == channel_byte(
                    channel_of(color_map@[at / 4], at % 4) as int,
                ),
        decreases color_map@.len() - cell,
    {
        let color: Color = color_map[cell];
        data.push(quantize(color.r));
        data.push(quantize(color.g));
        data.push(quantize(color.b));
        data.push(quantize(color.a));
        cell = cell + 1;
    }
    assert(data@ =~= pixel_bytes(color_map@));
    Texture { width, height, data }
}

/// Lays a map out as a grey texture: pixel `(x, y)` shows the height
/// `height_map[y * width + x]` on its three colour channels, fully opaque.
pub fn get_texture_for_height_map(height_map: &[i64], width: u32, height: u32) -> (texture:
    Texture)
    requires
        height_map@.len() == width * height,
    ensures
        texture.width == width,
        texture.height == height,
        texture.data@ == pixel_bytes(gray_colors(height_map@)),
        texture.data@.len() == 4 * (width * height),
        texture.well_formed(),
{
    let height_map_colors = colors_by_height(height_map);
    get_texture_for_color_map(height_map_colors.as_slice(), width, height)
}

} // verus!
