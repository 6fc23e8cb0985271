//! Terrain bands: which colour a height is shown in.
//!
//! A band reaches from the band before it up to its own height, which it
//! does not include. The bands of a list are tried in the order of the list
//! and the first one whose height lies above the height in question gives
//! the colour. A height that no band lies above is shown in black.

use crate::fixed::UNIT;
use vstd::prelude::*;

verus! {

/// A colour with an alpha channel. Each channel is a fixed-point number,
/// nominally in `[0, 1]`.
#[derive(Clone, Copy, Debug, PartialEq, Eq, Structural)]
pub struct Color {
    pub r: i64,
    pub g: i64,
    pub b: i64,
    pub a: i64,
}

/// Opaque black, the colour of a height above every band.
pub open spec fn black() -> Color {
    Color { r: 0, g: 0, b: 0, a: UNIT }
}

/// The grey of a height: the height on each colour channel, fully opaque.
pub open spec fn gray(height: i64) -> Color {
    Color { r: height, g: height, b: height, a: UNIT }
}

impl Color {
    pub fn rgba(r: i64, g: i64, b: i64, a: i64) -> (color: Color)
        ensures
            color == (Color { r, g, b, a }),
    {
        Color { r, g, b, a }
    }

    /// An opaque colour.
    pub fn rgb(r: i64, g: i64, b: i64) -> (color: Color)
        ensures
            color == (Color { r, g, b, a: UNIT }),
    {
        Color { r, g, b, a: UNIT }
    }

    pub fn black() -> (color: Color)
        ensures
            color == black(),
    {
        Color::rgb(0, 0, 0)
    }

    pub fn white() -> (color: Color)
        ensures
            color == (Color { r: UNIT, g: UNIT, b: UNIT, a: UNIT }),
    {
        Color::rgb(UNIT, UNIT, UNIT)
    }

    pub fn blue() -> (color: Color)
        ensures
            color == (Color { r: 0, g: 0, b: UNIT, a: UNIT }),
    {
        Color::rgb(0, 0, UNIT)
    }

    pub fn yellow() -> (color: Color)
        ensures
            color == (Color { r: UNIT, g: UNIT, b: 0, a: UNIT }),
    {
        Color::rgb(UNIT, UNIT, 0)
    }

    pub fn green() -> (color: Color)
        ensures
            color == (Color { r: 0, g: UNIT, b: 0, a: UNIT }),
    {
        Color::rgb(0, UNIT, 0)
    }

    pub fn maroon() -> (color: Color)
        ensures
            color == (Color { r: 500_000, g: 0, b: 0, a: UNIT }),
    {
        Color::rgb(UNIT / 2, 0, 0)
    }

    /// The grey of a height.
    pub fn gray(height: i64) -> (color: Color)
        ensures
            color == gray(height),
    {
        Color::rgba(height, height, height, UNIT)
    }
}

/// A terrain band: the heights below `height` that no earlier band takes are
/// shown in `color`.
#[derive(Clone, Debug, PartialEq, Eq)]
pub struct TerrainType {
    pub name: String,
    pub height: i64,
    pub color: Color,
}

impl TerrainType {
    pub fn new(name: &str, height: i64, color: Color) -> (band: TerrainType)
        ensures
            band.name@ == name@,
            band.height == height,
            band.color == color,
    {
        TerrainType { name: name.to_owned(), height, color }
    }
}

impl Default for TerrainType {
    /// A band without a name, of height 0, in white.
    fn default() -> (band: TerrainType)
        ensures
            band.name@ == Seq::<char>::empty(),
            band.height == 0,
            band.color == (Color { r: UNIT, g: UNIT, b: UNIT, a: UNIT }),
    {
        TerrainType { name: String::new(), height: 0, color: Color::white() }
    }
}

/// The colour of `height` under `regions`: that of the first band whose
/// height lies above it, or black.
pub open spec fn classified(regions: Seq<TerrainType>, height: i64) -> Color
    decreases regions.len(),
{
    if regions.len() == 0 {
        black()
    } else if height < regions[0].height {
        regions[0].color
    } else {
        classified(regions.skip(1), height)
    }
}

/// Band `k` is the one that takes `height`: it lies above the height and no
/// band before it does.
pub open spec fn takes(regions: Seq<TerrainType>, height: i64, k: int) -> bool {
    &&& 0 <= k < regions.len()
    &&& height < regions[k].height
    &&& forall|j: int| 0 <= j < k ==> height >= (#[trigger] regions[j]).height
}

/// No band takes `height`.
pub open spec fn above_all(regions: Seq<TerrainType>, height: i64) -> bool {
    forall|j: int| 0 <= j < regions.len() ==> height >= (#[trigger] regions[j]).height
}

/// The colour of a height is that of the band that takes it.
pub proof fn lemma_classified_taken(regions: Seq<TerrainType>, height: i64, k: int)
    requires
        takes(regions, height, k),
    ensures
        classified(regions, height) == regions[k].color,
    decreases regions.len(),
{
    if k > 0 {
        let rest = regions.skip(1);
        assert(height >= regions[0].height);
        assert(rest[k - 1] == regions[k]);
        assert forall|j: int| 0 <= j < k - 1 implies height >= (#[trigger] rest[j]).height by {
            assert(rest[j] == regions[j + 1]);
        }
        lemma_classified_taken(rest, height, k - 1);
    }
}

/// The colour of a height that no band takes is black.
pub proof fn lemma_classified_above_all(regions: Seq<TerrainType>, height: i64)
    requires
        above_all(regions, height),
    ensures
        classified(regions, height) == black(),
    decreases regions.len(),
{
    if regions.len() > 0 {
        let rest = regions.skip(1);
        assert(height >= regions[0].height);
        assert forall|j: int| 0 <= j < rest.len() implies height >= (#[trigger] rest[j]).height by {
            assert(rest[j] == regions[j + 1]);
        }
        lemma_classified_above_all(rest, height);
    }
}

/// Where the bands rise, each takes the heights from the band before it up
/// to its own height: a height that is at least the height of band `k - 1`
/// and below the height of band `k` has the colour of band `k`. The first
/// band takes every height below its own.
pub proof fn law_rising_bands(regions: Seq<TerrainType>, height: i64, k: int)
    requires
        forall|i: int, j: int|
            0 <= i <= j < regions.len() ==> (#[trigger] regions[i]).height <= (
            #[trigger] regions[j]).height,
        0 <= k < regions.len(),
        k > 0 ==> regions[k - 1].height <= height,
        height < regions[k].height,
    ensures
        classified(regions, height) == regions[k].color,
{
    assert forall|j: int| 0 <= j < k implies height >= (#[trigger] regions[j]).height by {
        assert(regions[j].height <= regions[k - 1].height);
    }
    lemma_classified_taken(regions, height, k);
}

/// Finds the colour of a height: the bands are tried in order, and the first
/// whose height lies above `height` gives it. If none does the colour is
/// black.
pub fn classify(regions: &[TerrainType], height: i64) -> (color: Color)
    ensures
        color == classified(regions@, height),
        above_all(regions@, height) ==> color == black(),
        forall|k: int| takes(regions@, height, k) ==> color == regions@[k].color,
{
    let mut k: usize = 0;
    while k < regions.len()
        invariant
            k <= regions@.len(),
            forall|j: int| 0 <= j < k ==> height >= (#[trigger] regions@[j]).height,
        decreases regions@.len() - k,
    {
        if height < regions[k].height {
            proof {
                assert(takes(regions@, height, k as int));
                lemma_classified_taken(regions@, height, k as int);
                assert forall|other: int| takes(regions@, height, other) implies regions@[k as int].color
                    == regions@[other].color by {
                    if other < k {
                        assert(height >= regions@[other].height);
                    } else if other > k {
                        assert(height >= regions@[k as int].height);
                    }
                }
            }
            return regions[k].color;
        }
        k = k + 1;
    }
    proof {
        assert(above_all(regions@, height));
        lemma_classified_above_all(regions@, height);
        assert forall|other: int| takes(regions@, height, other) implies false by {
            assert(height >= regions@[other].height);
        }
    }
    Color::black()
}

/// The colours of a map: each height in the colour of its band.
pub open spec fn region_colors(noise_map: Seq<i64>, regions: Seq<TerrainType>) -> Seq<Color> {
    Seq::new(noise_map.len(), |cell: int| classified(regions, noise_map[cell]))
}

/// The greys of a map.
pub open spec fn gray_colors(height_map: Seq<i64>) -> Seq<Color> {
    Seq::new(height_map.len(), |cell: int| gray(height_map[cell]))
}

/// Colours every height of a map by its band.
pub fn colors_by_region(noise_map: &[i64], regions: &[TerrainType]) -> (colors: Vec<Color>)
    ensures
        colors@ == region_colors(noise_map@, regions@),
{
    let mut colors: Vec<Color> = Vec::new();
    let mut cell: usize = 0;
    while cell < noise_map.len()
        invariant
            cell <= noise_map@.len(),
            colors@.len() == cell,
            forall|k: int|
                0 <= k < cell ==> #[trigger] colors@[k] == classified(regions@, noise_map@[k]),
        decreases noise_map@.len() - cell,
    {
        colors.push(classify(regions, noise_map[cell]));
        cell = cell + 1;
    }
    assert(colors@ =~= region_colors(noise_map@, regions@));
    colors
}

/// Colours every height of a map in its grey.
pub fn colors_by_height(height_map: &[i64]) -> (colors: Vec<Color>)
    ensures
        colors@ == gray_colors(height_map@),
{
    let mut colors: Vec<Color> = Vec::new();
    let mut cell: usize = 0;
    while cell < height_map.len()
        invariant
            cell <= height_map@.len(),
            colors@.len() == cell,
            forall|k: int| 0 <= k < cell ==> #[trigger] colors@[k] == gray(height_map@[k]),
        decreases height_map@.len() - cell,
    {
        colors.push(Color::gray(height_map[cell]));
        cell = cell + 1;
    }
    assert(colors@ =~= gray_colors(height_map@));
    colors
}

} // verus!
