//! The map generator's settings, and the texture that shows its map.
//!
//! A generator holds the settings of one map, the drawing mode and the
//! terrain bands. It keeps the texture that it made last, and makes a new one
//! only after a setting was edited.

use crate::fixed::UNIT;
use crate::noise_map::{generate, generated, generation_error, GenerationError};
use crate::octaves::{
    clamp_lacunarity, clamp_persistance, effective_lacunarity, effective_persistance,
};
use crate::offsets::Vec2;
use crate::seed::{calculate_u32_seed_from_str, seed_of};
use crate::terrain::{colors_by_region, gray_colors, region_colors, Color, TerrainType};
use crate::texture::{
    get_texture_for_color_map, get_texture_for_height_map, pixel_bytes, Texture,
};
use vstd::prelude::*;

verus! {

/// How a map is shown.
#[derive(Clone, Copy, Debug, PartialEq, Eq, Structural)]
pub enum DrawMode {
    /// Each height in its grey.
    NoiseMap,
    /// Each height in the colour of its terrain band.
    ColorMap,
}

impl Default for DrawMode {
    fn default() -> (mode: DrawMode)
        ensures
            mode == DrawMode::ColorMap,
    {
        DrawMode::ColorMap
    }
}

/// One edit of a generator's settings.
#[derive(Clone, Debug, PartialEq, Eq)]
pub enum Edit {
    Seed(String),
    OffsetX(i64),
    OffsetY(i64),
    MapSize(u32),
    NoiseScale(i64),
    Octaves(u32),
    Persistance(i64),
    Lacunarity(i64),
    Mode(DrawMode),
}

/// The settings that an edit can change.
pub struct Settings {
    pub map_size: u32,
    pub seed: Seq<char>,
    pub noise_scale: i64,
    pub octaves: u32,
    pub persistance: i64,
    pub lacunarity: i64,
    pub offset: Vec2,
    pub draw_mode: DrawMode,
}

/// The settings after one edit.
pub open spec fn edited(settings: Settings, edit: Edit) -> Settings {
    match edit {
        Edit::Seed(seed) => Settings { seed: seed@, ..settings },
        Edit::OffsetX(x) => Settings { offset: Vec2 { x, y: settings.offset.y }, ..settings },
        Edit::OffsetY(y) => Settings { offset: Vec2 { x: settings.offset.x, y }, ..settings },
        Edit::MapSize(map_size) => Settings { map_size, ..settings },
        Edit::NoiseScale(noise_scale) => Settings { noise_scale, ..settings },
        Edit::Octaves(octaves) => Settings { octaves, ..settings },
        Edit::Persistance(persistance) => Settings { persistance, ..settings },
        Edit::Lacunarity(lacunarity) => Settings { lacunarity, ..settings },
        Edit::Mode(draw_mode) => Settings { draw_mode, ..settings },
    }
}

/// The settings after a run of edits, the first edit first.
pub open spec fn edited_by_all(settings: Settings, edits: Seq<Edit>) -> Settings
    decreases edits.len(),
{
    if edits.len() == 0 {
        settings
    } else {
        edited(edited_by_all(settings, edits.drop_last()), edits.last())
    }
}

/// The bytes that show a map in a drawing mode.
pub open spec fn shown(field: Seq<i64>, draw_mode: DrawMode, regions: Seq<TerrainType>) -> Seq<
    u8,
> {
    match draw_mode {
        DrawMode::NoiseMap => pixel_bytes(gray_colors(field)),
        DrawMode::ColorMap => pixel_bytes(region_colors(field, regions)),
    }
}

/// A map of a seed phrase and the settings of a generator.
pub struct MapGenerator {
    pub map_size: u32,
    pub seed: String,
    pub noise_scale: i64,
    pub octaves: u32,
    pub persistance: i64,
    pub lacunarity: i64,
    pub offset: Vec2,
    pub draw_mode: DrawMode,
    pub regions: Vec<TerrainType>,
    /// A setting was edited since the texture was made.
    pub changed: bool,
    pub cached_texture: Texture,
}

impl Default for MapGenerator {
    /// A map of 256 by 256 cells of the seed phrase "wizard tower", at the
    /// scale 50, in four octaves of persistance 0.5 and lacunarity 2, shown
    /// in greys. The bands are water below 0.5, sand below 0.55, grass below
    /// 0.8, mountain below 0.9 and peak below 1.
    fn default() -> (generator: MapGenerator)
        ensures
            generator.map_size == 256,
            generator.seed@ == "wizard tower"@,
            generator.noise_scale == 50 * UNIT,
            generator.octaves == 4,
            generator.persistance == UNIT / 2,
            generator.lacunarity == 2 * UNIT,
            generator.offset == (Vec2 { x: 0, y: 0 }),
            generator.draw_mode == DrawMode::NoiseMap,
            generator.changed,
            generator.cached_texture.data@ == Seq::<u8>::empty(),
            generator.regions@.len() == 5,
            generator.regions@[0].name@ == "Water"@,
            generator.regions@[0].height == 500_000,
            generator.regions@[0].color == (Color { r: 0, g: 0, b: UNIT, a: UNIT }),
            generator.regions@[1].name@ == "Sand"@,
            generator.regions@[1].height == 550_000,
            generator.regions@[1].color == (Color { r: UNIT, g: UNIT, b: 0, a: UNIT }),
            generator.regions@[2].name@ == "Grass"@,
            generator.regions@[2].height == 800_000,
            generator.regions@[2].color == (Color { r: 0, g: UNIT, b: 0, a: UNIT }),
            generator.regions@[3].name@ == "Mountain"@,
            generator.regions@[3].height == 900_000,
            generator.regions@[3].color == (Color { r: 500_000, g: 0, b: 0, a: UNIT }),
            generator.regions@[4].name@ == "Peak"@,
            generator.regions@[4].height == 1_000_000,
            generator.regions@[4].color == (Color { r: UNIT, g: UNIT, b: UNIT, a: UNIT }),
    {
        let mut regions: Vec<TerrainType> = Vec::new();
        regions.push(TerrainType::new("Water", 500_000, Color::blue()));
        regions.push(TerrainType::new("Sand", 550_000, Color::yellow()));
        regions.push(TerrainType::new("Grass", 800_000, Color::green()));
        regions.push(TerrainType::new("Mountain", 900_000, Color::maroon()));
        regions.push(TerrainType::new("Peak", 1_000_000, Color::white()));
        MapGenerator {
            map_size: 256,
            seed: "wizard tower".to_owned(),
            noise_scale: 50 * UNIT,
            octaves: 4,
            persistance: UNIT / 2,
            lacunarity: 2 * UNIT,
            offset: Vec2::zero(),
            draw_mode: DrawMode::NoiseMap,
            regions,
            changed: true,
            cached_texture: Texture::empty(),
        }
    }
}

impl MapGenerator {
    /// The settings that edits change.
    pub open spec fn settings(&self) -> Settings {
        Settings {
            map_size: self.map_size,
            seed: self.seed@,
            noise_scale: self.noise_scale,
            octaves: self.octaves,
            persistance: self.persistance,
            lacunarity: self.lacunarity,
            offset: self.offset,
            draw_mode: self.draw_mode,
        }
    }

    /// The seed that the seed phrase stands for. The sampler of the
    /// generator's map is to be made of it.
    pub fn noise_seed(&self) -> (seed: u32)
        ensures
            seed == seed_of(self.seed@),
    {
        calculate_u32_seed_from_str(self.seed.as_str())
    }

    /// `field` is a map of the generator's settings.
    pub open spec fn is_map<S: Fn(i128, i128) -> i64>(&self, sampler: &S, field: Seq<i64>) -> bool {
        generated(
            sampler,
            self.map_size,
            self.map_size,
            seed_of(self.seed@),
            self.noise_scale,
            self.octaves,
            self.persistance,
            self.lacunarity,
            self.offset,
            field,
        )
    }

    /// The error that stands against a map of the generator's settings.
    pub open spec fn map_error(&self) -> Option<GenerationError> {
        generation_error(self.map_size, self.map_size, self.octaves, self.lacunarity)
    }

    /// Makes the square map of the settings.
    pub fn generate_noise_map<S: Fn(i128, i128) -> i64>(&self, sampler: &S) -> (result: Result<
        Vec<i64>,
        GenerationError,
    >)
        requires
            forall|x: i128, y: i128| call_requires(sampler, (x, y)),
        ensures
            match result {
                Ok(field) => {
                    &&& self.map_error() is None
                    &&& self.is_map(sampler, field@)
                    &&& field@.len() == self.map_size * self.map_size
                },
                Err(error) => self.map_error() == Some(error),
            },
    {
        generate(
            self.map_size,
            self.map_size,
            calculate_u32_seed_from_str(self.seed.as_str()),
            self.noise_scale,
            self.octaves,
            self.persistance,
            self.lacunarity,
            self.offset,
            sampler,
        )
    }

    /// The texture of the generator's map.
    ///
    /// While no setting was edited this is the texture that was made last.
    /// Otherwise the settings are put right first: the map is one cell wide
    /// at least, the lacunarity is 1 at least and the persistance lies in
    /// `[0, 1]`. Then the map is made and shown in the drawing mode, the
    /// texture is kept, and the generator counts as unedited. Where no map
    /// can be made the generator keeps the texture that it had and still
    /// counts as edited.
    pub fn validate_then_get_texture<S: Fn(i128, i128) -> i64>(&mut self, sampler: &S) -> (result:
        Result<Texture, GenerationError>)
        requires
            forall|x: i128, y: i128| call_requires(sampler, (x, y)),
        ensures
            !old(self).changed ==> {
                &&& *final(self) == *old(self)
                &&& result matches Ok(texture)
                &&& texture.width == old(self).cached_texture.width
                &&& texture.height == old(self).cached_texture.height
                &&& texture.data@ == old(self).cached_texture.data@
            },
            old(self).changed ==> {
                &&& final(self).map_size == if old(self).map_size < 1 {
                    1u32
                } else {
                    old(self).map_size
                }
                &&& final(self).lacunarity == effective_lacunarity(old(self).lacunarity as int)
                &&& final(self).persistance == effective_persistance(old(self).persistance as int)
                &&& final(self).seed == old(self).seed
                &&& final(self).noise_scale == old(self).noise_scale
                &&& final(self).octaves == old(self).octaves
                &&& final(self).offset == old(self).offset
                &&& final(self).draw_mode == old(self).draw_mode
                &&& final(self).regions == old(self).regions
                &&& match result {
                    Ok(texture) => {
                        &&& final(self).map_error() is None
                        &&& !final(self).changed
                        &&& texture.width == final(self).map_size
                        &&& texture.height == final(self).map_size
                        &&& texture.data@.len() == 4 * (final(self).map_size * final(self).map_size)
                        &&& exists|field: Seq<i64>|
                            final(self).is_map(sampler, field) && texture.data@ == #[trigger] shown(
                                field,
                                final(self).draw_mode,
                                final(self).regions@,
                            )
                        &&& final(self).cached_texture.width == texture.width
                        &&& final(self).cached_texture.height == texture.height
                        &&& final(self).cached_texture.data@ == texture.data@
                    },
                    Err(error) => {
                        &&& final(self).map_error() == Some(error)
                        &&& final(self).changed
                        &&& final(self).cached_texture == old(self).cached_texture
                    },
                }
            },
    {
        if !self.changed {
            return Ok(self.cached_texture.copy());
        }
        if self.map_size < 1 {
            self.map_size = 1;
        }
        self.lacunarity = clamp_lacunarity(self.lacunarity);
        self.persistance = clamp_persistance(self.persistance);

        let noise_map = match self.generate_noise_map(sampler) {
            Ok(field) => field,
            Err(error) => {
                return Err(error);
            },
        };
        let width = self.map_size;
        let height = self.map_size;
        let texture = match self.draw_mode {
            DrawMode::NoiseMap => get_texture_for_height_map(noise_map.as_slice(), width, height),
            DrawMode::ColorMap => {
                let noise_map_colors = colors_by_region(
                    noise_map.as_slice(),
                    self.regions.as_slice(),
                );
                get_texture_for_color_map(noise_map_colors.as_slice(), width, height)
            },
        };
        assert(texture.data@ == shown(noise_map@, self.draw_mode, self.regions@));
        self.cached_texture = texture.copy();
        self.changed = false;
        proof {
            assert(self.is_map(sampler, noise_map@));
            assert(texture.data@ == shown(noise_map@, self.draw_mode, self.regions@));
        }
        Ok(texture)
    }

    /// Takes the edits of one frame, in their order. The generator counts as
    /// edited afterwards if there was an edit, and as unedited if there was
    /// none.
    pub fn update_map_generator(&mut self, edits: Vec<Edit>)
        ensures
            final(self).settings() == edited_by_all(old(self).settings(), edits@),
            final(self).changed == (edits@.len() > 0),
            final(self).regions == old(self).regions,
            final(self).cached_texture == old(self).cached_texture,
    {
        let mut k: usize = 0;
        while k < edits.len()
            invariant
                k <= edits@.len(),
                self.settings() == edited_by_all(old(self).settings(), edits@.take(k as int)),
                self.regions == old(self).regions,
                self.cached_texture == old(self).cached_texture,
            decreases edits@.len() - k,
        {
            assert(edits@.take(k + 1).drop_last() =~= edits@.take(k as int));
            assert(edits@.take(k + 1).last() == edits@[k as int]);
            match &edits[k] {
                Edit::Seed(seed) => {
                    self.seed = seed.clone();
                },
                Edit::OffsetX(x) => {
                    self.offset = Vec2::new(*x, self.offset.y);
                },
                Edit::OffsetY(y) => {
                    self.offset = Vec2::new(self.offset.x, *y);
                },
                Edit::MapSize(map_size) => {
                    self.map_size = *map_size;
                },
                Edit::NoiseScale(noise_scale) => {
                    self.noise_scale = *noise_scale;
                },
                Edit::Octaves(octaves) => {
                    self.octaves = *octaves;
                },
                Edit::Persistance(persistance) => {
                    self.persistance = *persistance;
                },
                Edit::Lacunarity(lacunarity) => {
                    self.lacunarity = *lacunarity;
                },
                Edit::Mode(draw_mode) => {
                    self.draw_mode = *draw_mode;
                },
            }
            k = k + 1;
        }
        assert(edits@.take(edits@.len() as int) =~= edits@);
        self.changed = edits.len() > 0;
    }
}

} // verus!
