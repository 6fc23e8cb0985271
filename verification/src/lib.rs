//! Fractal noise maps in fixed-point arithmetic.
//!
//! A map is a row-major grid of heights. Each height is the sum of several
//! octaves of a coherent-noise sampler, normalised over the whole grid into
//! `[0, 1]`, and can then be masked, classified into terrain bands and
//! projected to RGBA bytes. Every real number is held as an `i64` that counts
//! millionths (see [`fixed`]).

pub mod fixed;
pub mod grid;
pub mod map;
pub mod map_generator;
pub mod mask;
pub mod noise_map;
pub mod normalize;
pub mod octaves;
pub mod offsets;
pub mod seed;
pub mod terrain;
pub mod texture;
pub mod world;
