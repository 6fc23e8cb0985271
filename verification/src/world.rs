//! A world: the settings of a map, the map, and its picture in a window.
//!
//! The window is 1800 pixels wide and 1008 high. The map is shown in a
//! square in the middle of it that takes nine tenths of the height; the rest
//! of the window is sky. A pixel of the square shows the cell that lies
//! under it when the map is stretched over the square.

use crate::fixed::{channel_byte, clamp_between, quantize, UNIT};
use crate::grid::cell_index;
use crate::map::WorldMap;
use crate::noise_map::{generate, generated, generation_error, GenerationError};
use crate::octaves::{fixed_power, powers_fit};
use crate::offsets::Vec2;
use crate::seed::{calculate_u32_seed_from_str, seed_of};
use vstd::prelude::*;

verus! {

/// The width of the window, in pixels.
pub const WINDOW_WIDTH: u32 = 1800;

/// The height of the window, in pixels.
pub const WINDOW_HEIGHT: u32 = 1008;

/// The side of the square that shows the map.
pub const MAP_SIDE: u32 = 900;

/// The column of the window in which the square starts.
pub const MAP_START_X: u32 = 450;

/// The row of the window in which the square starts.
pub const MAP_START_Y: u32 = 54;

/// One edit of a world's settings, by the slider or field of that name.
#[derive(Clone, Debug, PartialEq, Eq)]
pub enum WorldEdit {
    MapSize(u32),
    Seed(String),
    NoiseScale(i64),
    Octaves(u32),
    Persistance(i64),
    Lacunarity(i64),
}

/// The settings of a world.
pub struct WorldSettings {
    pub map_size: u32,
    pub seed: Seq<char>,
    pub noise_scale: i64,
    pub octaves: u32,
    pub persistance: i64,
    pub lacunarity: i64,
    pub offset: Vec2,
}

/// The settings after one edit. A slider holds its value to its range: the
/// map size to 10 to 1000, the scale to 0 to 100, the octaves to 0 to 10, the
/// persistance to 0 to 1 and the lacunarity to 1 to 100.
pub open spec fn world_edited(settings: WorldSettings, edit: WorldEdit) -> WorldSettings {
    match edit {
        WorldEdit::MapSize(map_size) => WorldSettings {
            map_size: clamp_between(map_size as int, 10, 1000) as u32,
            ..settings
        },
        WorldEdit::Seed(seed) => WorldSettings { seed: seed@, ..settings },
        WorldEdit::NoiseScale(noise_scale) => WorldSettings {
            noise_scale: clamp_between(noise_scale as int, 0, 100 * UNIT) as i64,
            ..settings
        },
        WorldEdit::Octaves(octaves) => WorldSettings {
            octaves: clamp_between(octaves as int, 0, 10) as u32,
            ..settings
        },
        WorldEdit::Persistance(persistance) => WorldSettings {
            persistance: clamp_between(persistance as int, 0, UNIT as int) as i64,
            ..settings
        },
        WorldEdit::Lacunarity(lacunarity) => WorldSettings {
            lacunarity: clamp_between(lacunarity as int, UNIT as int, 100 * UNIT) as i64,
            ..settings
        },
    }
}

/// The settings after a run of edits, the first edit first.
pub open spec fn world_edited_by_all(settings: WorldSettings, edits: Seq<WorldEdit>) -> WorldSettings
    decreases edits.len(),
{
    if edits.len() == 0 {
        settings
    } else {
        world_edited(world_edited_by_all(settings, edits.drop_last()), edits.last())
    }
}

/// The pixel at `(x, y)` of the window lies in the square that shows the map.
pub open spec fn inside_the_box(x: int, y: int) -> bool {
    &&& MAP_START_X <= x < MAP_START_X + MAP_SIDE
    &&& MAP_START_Y <= y < MAP_START_Y + MAP_SIDE
}

/// The colour of the sky, as red, green, blue and alpha.
pub open spec fn sky(channel: int) -> u8 {
    if channel == 0 {
        0x48
    } else if channel == 1 {
        0xb2
    } else if channel == 2 {
        0xe8
    } else {
        0xff
    }
}

/// The cell of a side of `cells` cells that lies under pixel `pixel` of the
/// square.
pub open spec fn cell_under(pixel: int, cells: int) -> int {
    pixel * cells / (MAP_SIDE as int)
}

/// Channel `channel` of pixel number `pixel` of the window: the grey of the
/// cell under it inside the square, as far as the map has a cell there, and
/// the sky elsewhere.
pub open spec fn window_byte(map: WorldMap, pixel: int, channel: int) -> u8 {
    let x = pixel % (WINDOW_WIDTH as int);
    let y = pixel / (WINDOW_WIDTH as int);
    let column = cell_under(x - MAP_START_X, map.width() as int);
    let row = cell_under(y - MAP_START_Y, map.height() as int);
    if inside_the_box(x, y) && column < map.width() && row < map.height() {
        if channel == 3 {
            0xff
        } else {
            channel_byte(map.values()[cell_index(column, row, map.width() as int)] as int) as u8
        }
    } else {
        sky(channel)
    }
}

/// A frame after the window was drawn into it: every whole pixel of the
/// frame is drawn, and bytes that make no whole pixel stay.
pub open spec fn drawn(frame: Seq<u8>, map: WorldMap) -> Seq<u8> {
    Seq::new(
        frame.len(),
        |at: int|
            if at / 4 < frame.len() / 4 {
                window_byte(map, at / 4, at % 4)
            } else {
                frame[at]
            },
    )
}

/// The settings of a map and the map of them.
pub struct World {
    pub map_size: u32,
    pub seed: String,
    pub noise_scale: i64,
    pub octaves: u32,
    pub persistance: i64,
    pub lacunarity: i64,
    pub offset: Vec2,
    pub map: WorldMap,
}

/// Four octaves of lacunarity 2 have frequencies within reach.
proof fn lemma_default_frequencies_fit()
    ensures
        powers_fit(2 * UNIT, 4),
{
    reveal_with_fuel(fixed_power, 5);
    assert forall|exponent: nat| exponent < 4 implies i64::MIN <= #[trigger] fixed_power(
        2 * UNIT,
        exponent,
    ) <= i64::MAX by {
        assert(fixed_power(2 * UNIT, 0) == 1_000_000);
        assert(fixed_power(2 * UNIT, 1) == 2_000_000);
        assert(fixed_power(2 * UNIT, 2) == 4_000_000);
        assert(fixed_power(2 * UNIT, 3) == 8_000_000);
    }
}

impl World {
    /// The settings that edits change.
    pub open spec fn settings(&self) -> WorldSettings {
        WorldSettings {
            map_size: self.map_size,
            seed: self.seed@,
            noise_scale: self.noise_scale,
            octaves: self.octaves,
            persistance: self.persistance,
            lacunarity: self.lacunarity,
            offset: self.offset,
        }
    }

    /// `map` is a map of the settings `settings`.
    pub open spec fn is_map_of<S: Fn(i128, i128) -> i64>(
        settings: WorldSettings,
        sampler: &S,
        map: WorldMap,
    ) -> bool {
        &&& map.width() == settings.map_size
        &&& map.height() == settings.map_size
        &&& generated(
            sampler,
            settings.map_size,
            settings.map_size,
            seed_of(settings.seed),
            settings.noise_scale,
            settings.octaves,
            settings.persistance,
            settings.lacunarity,
            settings.offset,
            map.values(),
        )
    }

    /// The error that stands against a map of the settings `settings`.
    pub open spec fn error_of(settings: WorldSettings) -> Option<GenerationError> {
        generation_error(
            settings.map_size,
            settings.map_size,
            settings.octaves,
            settings.lacunarity,
        )
    }

    /// Makes the map of the world's settings.
    fn make_map<S: Fn(i128, i128) -> i64>(&self, sampler: &S) -> (result: Result<
        WorldMap,
        GenerationError,
    >)
        requires
            forall|x: i128, y: i128| call_requires(sampler, (x, y)),
        ensures
            match result {
                Ok(map) => Self::error_of(self.settings()) is None && Self::is_map_of(
                    self.settings(),
                    sampler,
                    map,
                ),
                Err(error) => Self::error_of(self.settings()) == Some(error),
            },
    {
        let field = generate(
            self.map_size,
            self.map_size,
            calculate_u32_seed_from_str(self.seed.as_str()),
            self.noise_scale,
            self.octaves,
            self.persistance,
            self.lacunarity,
            self.offset,
            sampler,
        )?;
        match WorldMap::from_values(self.map_size, self.map_size, field) {
            Some(map) => Ok(map),
            None => Err(GenerationError::GridTooLarge),
        }
    }

    /// A world of 100 by 100 cells of the seed phrase "supok", at the scale
    /// 25, in four octaves of persistance 0.5 and lacunarity 2, and its map.
    pub fn new<S: Fn(i128, i128) -> i64>(sampler: &S) -> (world: World)
        requires
            forall|x: i128, y: i128| call_requires(sampler, (x, y)),
        ensures
            world.map_size == 100,
            world.seed@ == "supok"@,
            world.noise_scale == 25 * UNIT,
            world.octaves == 4,
            world.persistance == UNIT / 2,
            world.lacunarity == 2 * UNIT,
            world.offset == (Vec2 { x: 0, y: 0 }),
            Self::is_map_of(world.settings(), sampler, world.map),
    {
        let map_size: u32 = 100;
        let noise_scale: i64 = (map_size as i64) * UNIT / 4;
        let empty = WorldMap::from_values(0, 0, Vec::new());
        let mut world = World {
            map_size,
            seed: "supok".to_owned(),
            noise_scale,
            octaves: 4,
            persistance: UNIT / 2,
            lacunarity: 2 * UNIT,
            offset: Vec2::zero(),
            map: empty.unwrap(),
        };
        proof {
            lemma_default_frequencies_fit();
        }
        let made = world.make_map(sampler);
        world.map = made.unwrap();
        world
    }

    /// Nothing in a world changes by itself.
    pub fn update(&mut self)
        ensures
            *final(self) == *old(self),
    {
    }

    /// Takes the edits of one frame, in their order, and makes the map anew
    /// if there was an edit. Where no map can be made of the edited settings
    /// the world keeps the map that it had.
    pub fn update_on_gui<S: Fn(i128, i128) -> i64>(&mut self, edits: Vec<WorldEdit>, sampler: &S) -> (result:
        Result<(), GenerationError>)
        requires
            forall|x: i128, y: i128| call_requires(sampler, (x, y)),
        ensures
            final(self).settings() == world_edited_by_all(old(self).settings(), edits@),
            edits@.len() == 0 ==> result is Ok && final(self).map == old(self).map,
            edits@.len() > 0 ==> match result {
                Ok(_) => {
                    &&& Self::error_of(final(self).settings()) is None
                    &&& Self::is_map_of(final(self).settings(), sampler, final(self).map)
                },
                Err(error) => {
                    &&& Self::error_of(final(self).settings()) == Some(error)
                    &&& final(self).map == old(self).map
                },
            },
    {
        let mut k: usize = 0;
        while k < edits.len()
            invariant
                k <= edits@.len(),
                self.settings() == world_edited_by_all(old(self).settings(), edits@.take(k as int)),
                self.map == old(self).map,
            decreases edits@.len() - k,
        {
            assert(edits@.take(k + 1).drop_last() =~= edits@.take(k as int));
            assert(edits@.take(k + 1).last() == edits@[k as int]);
            match &edits[k] {
                WorldEdit::MapSize(map_size) => {
                    self.map_size = if *map_size < 10 {
                        10
                    } else if *map_size > 1000 {
                        1000
                    } else {
                        *map_size
                    };
                },
                WorldEdit::Seed(seed) => {
                    self.seed = seed.clone();
                },
                WorldEdit::NoiseScale(noise_scale) => {
                    self.noise_scale = if *noise_scale < 0 {
                        0
                    } else if *noise_scale > 100 * UNIT {
                        100 * UNIT
                    } else {
                        *noise_scale
                    };
                },
                WorldEdit::Octaves(octaves) => {
                    self.octaves = if *octaves > 10 {
                        10
                    } else {
                        *octaves
                    };
                },
                WorldEdit::Persistance(persistance) => {
                    self.persistance = if *persistance < 0 {
                        0
                    } else if *persistance > UNIT {
                        UNIT
                    } else {
                        *persistance
                    };
                },
                WorldEdit::Lacunarity(lacunarity) => {
                    self.lacunarity = if *lacunarity < UNIT {
                        UNIT
                    } else if *lacunarity > 100 * UNIT {
                        100 * UNIT
                    } else {
                        *lacunarity
                    };
                },
            }
            k = k + 1;
        }
        assert(edits@.take(edits@.len() as int) =~= edits@);
        if edits.len() > 0 {
            match self.make_map(sampler) {
                Ok(map) => {
                    self.map = map;
                },
                Err(error) => {
                    return Err(error);
                },
            }
        }
        Ok(())
    }

    /// Draws the window into a frame of RGBA pixels, row by row.
    pub fn draw(&self, frame: &mut [u8])
        ensures
            final(frame)@ == drawn(old(frame)@, self.map),
            final(frame)@.len() == old(frame)@.len(),
    {
        let bytes: usize = frame.len();
        let pixels: usize = bytes / 4;
        let width: u32 = self.map._width();
        let height: u32 = self.map._height();
        let mut pixel: usize = 0;
        while pixel < pixels
            invariant
                pixel <= pixels,
                pixels == bytes / 4,
                bytes == old(frame)@.len(),
                frame@.len() == old(frame)@.len(),
                width == self.map.width(),
                height == self.map.height(),
                forall|at: int|
                    0 <= at < 4 * pixel ==> #[trigger] frame@[at] == window_byte(
                        self.map,
                        at / 4,
                        at % 4,
                    ),
                forall|at: int|
                    4 * pixel <= at < frame@.len() ==> #[trigger] frame@[at] == old(frame)@[at],
            decreases pixels - pixel,
        {
            let x: usize = pixel % (WINDOW_WIDTH as usize);
            let y: usize = pixel / (WINDOW_WIDTH as usize);
            let mut grey: Option<u8> = None;
            if x >= MAP_START_X as usize && x < (MAP_START_X + MAP_SIDE) as usize && y
                >= MAP_START_Y as usize && y < (MAP_START_Y + MAP_SIDE) as usize {
                let across: u64 = (x - MAP_START_X as usize) as u64;
                let down: u64 = (y - MAP_START_Y as usize) as u64;
                assert(0 <= across * width <= 900 * 0xFFFF_FFFF && 0 <= down * height <= 900
                    * 0xFFFF_FFFF) by (nonlinear_arith)
                    requires
                        0 <= across <= 900,
                        0 <= down <= 900,
                        0 <= width <= 0xFFFF_FFFF,
                        0 <= height <= 0xFFFF_FFFF,
                ;
                let column: u64 = across * (width as u64) / (MAP_SIDE as u64);
                let row: u64 = down * (height as u64) / (MAP_SIDE as u64);
                assert(column == cell_under(x - MAP_START_X, width as int));
                assert(row == cell_under(y - MAP_START_Y, height as int));
                if column < width as u64 && row < height as u64 {
                    match self.map.get(column as u32, row as u32) {
                        Ok(value) => {
                            grey = Some(quantize(value));
                        },
                        Err(_) => {},
                    }
                }
            }
            let ghost before = frame@;
            let at: usize = pixel * 4;
            match grey {
                Some(byte) => {
                    frame[at] = byte;
                    frame[at + 1] = byte;
                    frame[at + 2] = byte;
                    frame[at + 3] = 0xff;
                },
                None => {
                    frame[at] = 0x48;
                    frame[at + 1] = 0xb2;
                    frame[at + 2] = 0xe8;
                    frame[at + 3] = 0xff;
                },
            }
            proof {
                assert forall|k: int| 0 <= k < 4 * (pixel + 1) implies #[trigger] frame@[k]
                    == window_byte(self.map, k / 4, k % 4) by {
                    if k < 4 * pixel {
                        assert(frame@[k] == before[k]);
                    } else {
                        assert(k / 4 == pixel as int);
                    }
                }
            }
            pixel = pixel + 1;
        }
        assert(frame@ =~= drawn(old(frame)@, self.map));
    }
}

} // verus!
