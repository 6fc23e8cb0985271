//! The fractal map generator.
//!
//! A map is made in three steps. Every cell of the grid is sampled once per
//! octave, at a place that depends on the cell, the scale, the octave's
//! frequency and the octave's offset. The samples of a cell are added up,
//! each weighed by its octave's amplitude. Last the heights are normalised
//! over the whole grid.
//!
//! The sampler is the caller's: a function from a point of the noise plane to
//! a value that is nominally within `[-1, 1]`, all in fixed point.

use crate::fixed::UNIT;
use crate::grid::{cell_count, cell_index, lemma_cell_index, MAX_CELLS};
use crate::normalize::{law_normalized_bounds, normalize, normalized, widened, RAW_LIMIT};
use crate::octaves::{
    clamp_lacunarity, coordinate, effective_lacunarity, fixed_power, power_table, powers_fit,
    raw_height, raw_height_of, sample_point, MIN_SCALE,
};
use crate::offsets::{
    make_octave_offsets, octave_offset, octave_offsets, offset_in_range, Point, Vec2, MAX_OCTAVES,
};
use vstd::prelude::*;

verus! {

/// Why no map can be made of some parameters.
#[derive(Clone, Copy, Debug, PartialEq, Eq, Structural)]
pub enum GenerationError {
    /// The grid has more than [`MAX_CELLS`] cells.
    GridTooLarge,
    /// There are more than [`MAX_OCTAVES`] octaves.
    TooManyOctaves,
    /// The frequency of some octave is no `i64` value.
    FrequencyOverflow,
}

/// The error that stands against a map of these parameters, if any. The
/// grid's size is looked at first, then the number of octaves, then their
/// frequencies.
pub open spec fn generation_error(width: u32, height: u32, octaves: u32, lacunarity: i64) -> Option<
    GenerationError,
> {
    if width * height > MAX_CELLS {
        Some(GenerationError::GridTooLarge)
    } else if octaves > MAX_OCTAVES {
        Some(GenerationError::TooManyOctaves)
    } else if !powers_fit(effective_lacunarity(lacunarity as int), octaves as nat) {
        Some(GenerationError::FrequencyOverflow)
    } else {
        None
    }
}

/// Where octave `octave` samples cell `cell` of a map. Cells are counted row
/// by row; the octave's frequency is the lacunarity to the power `octave`.
pub open spec fn octave_sample_point(
    width: u32,
    height: u32,
    seed: u32,
    scale: i64,
    octaves: u32,
    lacunarity: i64,
    offset: Vec2,
    cell: int,
    octave: int,
) -> Point {
    sample_point(
        cell % (width as int),
        cell / (width as int),
        width as int,
        height as int,
        scale as int,
        fixed_power(effective_lacunarity(lacunarity as int), octave as nat),
        octave_offset(seed, offset, octaves as nat, octave),
    )
}

/// Cells are counted row by row: the cell `(x, y)` has the number `y * width
/// + x`, and is sampled as the cell in column `x` of row `y`.
pub proof fn law_cells_are_row_major(
    width: u32,
    height: u32,
    seed: u32,
    scale: i64,
    octaves: u32,
    lacunarity: i64,
    offset: Vec2,
    x: int,
    y: int,
    octave: int,
)
    requires
        0 <= x < width,
        0 <= y < height,
    ensures
        0 <= cell_index(x, y, width as int) < width * height,
        octave_sample_point(
            width,
            height,
            seed,
            scale,
            octaves,
            lacunarity,
            offset,
            cell_index(x, y, width as int),
            octave,
        ) == sample_point(
            x,
            y,
            width as int,
            height as int,
            scale as int,
            fixed_power(effective_lacunarity(lacunarity as int), octave as nat),
            octave_offset(seed, offset, octaves as nat, octave),
        ),
{
    lemma_cell_index(x, y, width as int, height as int);
}

/// `table` holds, for every cell and octave of a map, a value that `sampler`
/// gives at that octave's sample point of the cell.
pub open spec fn sampled<S: Fn(i128, i128) -> i64>(
    sampler: &S,
    width: u32,
    height: u32,
    seed: u32,
    scale: i64,
    octaves: u32,
    lacunarity: i64,
    offset: Vec2,
    table: Seq<Seq<i64>>,
) -> bool {
    &&& table.len() == width * height
    &&& forall|cell: int| 0 <= cell < table.len() ==> (#[trigger] table[cell]).len() == octaves
    &&& forall|cell: int, octave: int|
        0 <= cell < table.len() && 0 <= octave < octaves ==> {
            let at = octave_sample_point(
                width,
                height,
                seed,
                scale,
                octaves,
                lacunarity,
                offset,
                cell,
                octave,
            );
            call_ensures(sampler, (at.x, at.y), #[trigger] table[cell][octave])
        }
}

/// The raw height of every cell of a table of samples.
pub open spec fn raw_heights(table: Seq<Seq<i64>>, persistance: i64) -> Seq<int> {
    Seq::new(table.len(), |cell: int| raw_height(table[cell], persistance as int))
}

/// The map that a table of samples makes.
pub open spec fn heights_of(table: Seq<Seq<i64>>, persistance: i64) -> Seq<i64> {
    normalized(raw_heights(table, persistance))
}

/// `field` is a map of these parameters: the map of some table of values
/// that `sampler` gives at the sample points.
pub open spec fn generated<S: Fn(i128, i128) -> i64>(
    sampler: &S,
    width: u32,
    height: u32,
    seed: u32,
    scale: i64,
    octaves: u32,
    persistance: i64,
    lacunarity: i64,
    offset: Vec2,
    field: Seq<i64>,
) -> bool {
    exists|table: Seq<Seq<i64>>|
        sampled(sampler, width, height, seed, scale, octaves, lacunarity, offset, table)
            && field == #[trigger] heights_of(table, persistance)
}

/// `sampler` gives one value at each point.
pub open spec fn deterministic<S: Fn(i128, i128) -> i64>(sampler: &S) -> bool {
    forall|x: i128, y: i128, first: i64, second: i64|
        #[trigger] call_ensures(sampler, (x, y), first) && #[trigger] call_ensures(
            sampler,
            (x, y),
            second,
        ) ==> first == second
}

/// With a sampler that gives one value at each point, the parameters decide
/// the map: two maps of the same parameters are equal.
pub proof fn law_generation_is_deterministic<S: Fn(i128, i128) -> i64>(
    sampler: &S,
    width: u32,
    height: u32,
    seed: u32,
    scale: i64,
    octaves: u32,
    persistance: i64,
    lacunarity: i64,
    offset: Vec2,
    first: Seq<i64>,
    second: Seq<i64>,
)
    requires
        deterministic(sampler),
        generated(
            sampler,
            width,
            height,
            seed,
            scale,
            octaves,
            persistance,
            lacunarity,
            offset,
            first,
        ),
        generated(
            sampler,
            width,
            height,
            seed,
            scale,
            octaves,
            persistance,
            lacunarity,
            offset,
            second,
        ),
    ensures
        first == second,
{
    let a = choose|table: Seq<Seq<i64>>|
        sampled(sampler, width, height, seed, scale, octaves, lacunarity, offset, table) && first
            == #[trigger] heights_of(table, persistance);
    let b = choose|table: Seq<Seq<i64>>|
        sampled(sampler, width, height, seed, scale, octaves, lacunarity, offset, table) && second
            == #[trigger] heights_of(table, persistance);
    assert forall|cell: int| 0 <= cell < a.len() implies #[trigger] a[cell] == b[cell] by {
        assert(a[cell].len() == b[cell].len());
        assert forall|octave: int| 0 <= octave < octaves implies #[trigger] a[cell][octave]
            == b[cell][octave] by {
            let at = octave_sample_point(
                width,
                height,
                seed,
                scale,
                octaves,
                lacunarity,
                offset,
                cell,
                octave,
            );
            assert(call_ensures(sampler, (at.x, at.y), a[cell][octave]));
            assert(call_ensures(sampler, (at.x, at.y), b[cell][octave]));
        }
        assert(a[cell] =~= b[cell]);
    }
    assert(a =~= b);
}

/// A scale that is not positive makes the maps that the scale 0.0001 makes.
pub proof fn law_scale_is_clamped<S: Fn(i128, i128) -> i64>(
    sampler: &S,
    width: u32,
    height: u32,
    seed: u32,
    scale: i64,
    octaves: u32,
    persistance: i64,
    lacunarity: i64,
    offset: Vec2,
    field: Seq<i64>,
)
    requires
        scale <= 0,
    ensures
        generated(
            sampler,
            width,
            height,
            seed,
            scale,
            octaves,
            persistance,
            lacunarity,
            offset,
            field,
        ) == generated(
            sampler,
            width,
            height,
            seed,
            MIN_SCALE,
            octaves,
            persistance,
            lacunarity,
            offset,
            field,
        ),
{
    assert forall|table: Seq<Seq<i64>>|
        sampled(sampler, width, height, seed, scale, octaves, lacunarity, offset, table)
            == sampled(
            sampler,
            width,
            height,
            seed,
            MIN_SCALE,
            octaves,
            lacunarity,
            offset,
            table,
        ) by {
        assert forall|cell: int, octave: int|
            octave_sample_point(
                width,
                height,
                seed,
                scale,
                octaves,
                lacunarity,
                offset,
                cell,
                octave,
            ) == octave_sample_point(
                width,
                height,
                seed,
                MIN_SCALE,
                octaves,
                lacunarity,
                offset,
                cell,
                octave,
            ) by {}
    }
    if generated(
        sampler,
        width,
        height,
        seed,
        scale,
        octaves,
        persistance,
        lacunarity,
        offset,
        field,
    ) {
        let table = choose|table: Seq<Seq<i64>>|
            sampled(sampler, width, height, seed, scale, octaves, lacunarity, offset, table)
                && field == #[trigger] heights_of(table, persistance);
        assert(sampled(
            sampler,
            width,
            height,
            seed,
            MIN_SCALE,
            octaves,
            lacunarity,
            offset,
            table,
        ));
    }
    if generated(
        sampler,
        width,
        height,
        seed,
        MIN_SCALE,
        octaves,
        persistance,
        lacunarity,
        offset,
        field,
    ) {
        let table = choose|table: Seq<Seq<i64>>|
            sampled(sampler, width, height, seed, MIN_SCALE, octaves, lacunarity, offset, table)
                && field == #[trigger] heights_of(table, persistance);
        assert(sampled(sampler, width, height, seed, scale, octaves, lacunarity, offset, table));
    }
}

/// A map has a height for every cell of its grid, each in `[0, 1]`. Unless
/// its heights are all equal, the least of them is 0 and the greatest is 1.
pub proof fn law_map_bounds<S: Fn(i128, i128) -> i64>(
    sampler: &S,
    width: u32,
    height: u32,
    seed: u32,
    scale: i64,
    octaves: u32,
    persistance: i64,
    lacunarity: i64,
    offset: Vec2,
    field: Seq<i64>,
)
    requires
        generated(
            sampler,
            width,
            height,
            seed,
            scale,
            octaves,
            persistance,
            lacunarity,
            offset,
            field,
        ),
    ensures
        field.len() == width * height,
        forall|cell: int| 0 <= cell < field.len() ==> 0 <= #[trigger] field[cell] <= UNIT,
        (exists|i: int, j: int| 0 <= i < field.len() && 0 <= j < field.len() && field[i] != field[j])
            ==> {
            &&& exists|cell: int| 0 <= cell < field.len() && #[trigger] field[cell] == 0
            &&& exists|cell: int| 0 <= cell < field.len() && #[trigger] field[cell] == UNIT
        },
{
    let table = choose|table: Seq<Seq<i64>>|
        sampled(sampler, width, height, seed, scale, octaves, lacunarity, offset, table) && field
            == #[trigger] heights_of(table, persistance);
    let raw = raw_heights(table, persistance);
    law_normalized_bounds(raw);
    if exists|i: int, j: int| 0 <= i < field.len() && 0 <= j < field.len() && field[i] != field[j] {
        let (i, j) = choose|i: int, j: int|
            0 <= i < field.len() && 0 <= j < field.len() && field[i] != field[j];
        if raw[i] == raw[j] {
            assert(normalized(raw)[i] == normalized(raw)[j]);
        }
        assert(raw[i] != raw[j]);
    }
}

/// Samples every octave of one cell.
fn sample_cell<S: Fn(i128, i128) -> i64>(
    sampler: &S,
    cell: u32,
    width: u32,
    height: u32,
    scale: i64,
    frequencies: &Vec<i64>,
    offsets: &Vec<Point>,
) -> (samples: Vec<i64>)
    requires
        width > 0,
        forall|x: i128, y: i128| call_requires(sampler, (x, y)),
        frequencies@.len() == offsets@.len(),
        forall|k: int| 0 <= k < offsets@.len() ==> offset_in_range(#[trigger] offsets@[k]),
    ensures
        samples@.len() == offsets@.len(),
        forall|octave: int|
            0 <= octave < samples@.len() ==> {
                let at = sample_point(
                    (cell % width) as int,
                    (cell / width) as int,
                    width as int,
                    height as int,
                    scale as int,
                    frequencies@[octave] as int,
                    offsets@[octave],
                );
                call_ensures(sampler, (at.x, at.y), #[trigger] samples@[octave])
            },
{
    let x: u32 = cell % width;
    let y: u32 = cell / width;
    let mut samples: Vec<i64> = Vec::new();
    let mut octave: usize = 0;
    while octave < offsets.len()
        invariant
            octave <= offsets@.len(),
            width > 0,
            x == cell % width,
            y == cell / width,
            forall|x: i128, y: i128| call_requires(sampler, (x, y)),
            frequencies@.len() == offsets@.len(),
            forall|k: int| 0 <= k < offsets@.len() ==> offset_in_range(#[trigger] offsets@[k]),
            samples@.len() == octave,
            forall|k: int|
                0 <= k < octave ==> {
                    let at = sample_point(
                        x as int,
                        y as int,
                        width as int,
                        height as int,
                        scale as int,
                        frequencies@[k] as int,
                        offsets@[k],
                    );
                    call_ensures(sampler, (at.x, at.y), #[trigger] samples@[k])
                },
        decreases offsets@.len() - octave,
    {
        let frequency: i64 = frequencies[octave];
        let moved: Point = offsets[octave];
        assert(offset_in_range(offsets@[octave as int]));
        let at_x: i128 = coordinate(x, width, scale, frequency, moved.x);
        let at_y: i128 = coordinate(y, height, scale, frequency, moved.y);
        let sample: i64 = sampler(at_x, at_y);
        samples.push(sample);
        octave = octave + 1;
    }
    samples
}

/// Makes the noise map of a `width` by `height` grid, row by row.
///
/// Every cell is sampled once for each octave, at the octave's sample point
/// of the cell; the samples of a cell are added up by [`raw_height_of`] and
/// the heights of all cells are normalised by [`normalize`]. So the heights
/// of the map lie in `[0, 1]`; unless all are equal, the lowest is 0 and the
/// highest 1. With no octaves, or with a sampler that gives the same value
/// everywhere, every height is 0.
///
/// A scale that is not positive counts as 0.0001, the persistance is held to
/// `[0, 1]` and the lacunarity to at least 1. The seed picks the octaves'
/// offsets. A sampler that is to depend on the seed is the caller's to make
/// of it; `sampler` must be callable at every point, and nothing else is
/// asked of it.
///
/// No map is made of a grid of more than [`MAX_CELLS`] cells, of more than
/// [`MAX_OCTAVES`] octaves, or of octaves whose frequencies outgrow `i64`;
/// the error says which of these it is, the first of them that holds.
pub fn generate<S: Fn(i128, i128) -> i64>(
    width: u32,
    height: u32,
    seed: u32,
    scale: i64,
    octaves: u32,
    persistance: i64,
    lacunarity: i64,
    offset: Vec2,
    sampler: &S,
) -> (result: Result<Vec<i64>, GenerationError>)
    requires
        forall|x: i128, y: i128| call_requires(sampler, (x, y)),
    ensures
        match result {
            Ok(field) => {
                &&& generation_error(width, height, octaves, lacunarity) is None
                &&& generated(
                    sampler,
                    width,
                    height,
                    seed,
                    scale,
                    octaves,
                    persistance,
                    lacunarity,
                    offset,
                    field@,
                )
                &&& field@.len() == width * height
                &&& forall|cell: int| 0 <= cell < field@.len() ==> 0 <= #[trigger] field@[cell] <= UNIT
            },
            Err(error) => generation_error(width, height, octaves, lacunarity) == Some(error),
        },
{
    let cells: u64 = cell_count(width, height);
    if cells > MAX_CELLS as u64 {
        return Err(GenerationError::GridTooLarge);
    }
    let offsets = match make_octave_offsets(seed, offset, octaves) {
        Some(table) => table,
        None => {
            return Err(GenerationError::TooManyOctaves);
        },
    };
    let frequencies = match power_table(clamp_lacunarity(lacunarity), octaves) {
        Some(table) => table,
        None => {
            return Err(GenerationError::FrequencyOverflow);
        },
    };
    let count: u32 = cells as u32;
    let mut raw: Vec<i128> = Vec::new();
    let ghost mut table: Seq<Seq<i64>> = Seq::empty();
    let mut cell: u32 = 0;
    while cell < count
        invariant
            cell <= count,
            count == width * height,
            forall|x: i128, y: i128| call_requires(sampler, (x, y)),
            octaves <= MAX_OCTAVES,
            offsets@ == octave_offsets(seed, offset, octaves as nat),
            forall|k: int| 0 <= k < offsets@.len() ==> offset_in_range(#[trigger] offsets@[k]),
            frequencies@.len() == octaves,
            forall|k: int|
                0 <= k < octaves ==> #[trigger] frequencies@[k] == fixed_power(
                    effective_lacunarity(lacunarity as int),
                    k as nat,
                ),
            raw@.len() == cell,
            table.len() == cell,
            forall|k: int| 0 <= k < cell ==> (#[trigger] table[k]).len() == octaves,
            forall|k: int, octave: int|
                0 <= k < cell && 0 <= octave < octaves ==> {
                    let at = octave_sample_point(
                        width,
                        height,
                        seed,
                        scale,
                        octaves,
                        lacunarity,
                        offset,
                        k,
                        octave,
                    );
                    call_ensures(sampler, (at.x, at.y), #[trigger] table[k][octave])
                },
            forall|k: int|
                0 <= k < cell ==> #[trigger] raw@[k] == raw_height(table[k], persistance as int)
                    && -RAW_LIMIT <= raw@[k] <= RAW_LIMIT,
        decreases count - cell,
    {
        let samples = sample_cell(sampler, cell, width, height, scale, &frequencies, &offsets);
        let height_of_cell: i128 = raw_height_of(samples.as_slice(), persistance);
        raw.push(height_of_cell);
        proof {
            let ghost before = table;
            table = table.push(samples@);
            assert forall|k: int, octave: int|
                0 <= k < cell + 1 && 0 <= octave < octaves implies {
                let at = octave_sample_point(
                    width,
                    height,
                    seed,
                    scale,
                    octaves,
                    lacunarity,
                    offset,
                    k,
                    octave,
                );
                call_ensures(sampler, (at.x, at.y), #[trigger] table[k][octave])
            } by {
                if k < cell {
                    assert(table[k] == before[k]);
                } else {
                    assert(table[k] == samples@);
                    assert(offsets@[octave] == octave_offset(seed, offset, octaves as nat, octave));
                }
            }
            assert forall|k: int| 0 <= k < cell + 1 implies (#[trigger] table[k]).len()
                == octaves by {
                if k < cell {
                    assert(table[k] == before[k]);
                }
            }
            assert forall|k: int| 0 <= k < cell + 1 implies #[trigger] raw@[k] == raw_height(
                table[k],
                persistance as int,
            ) && -RAW_LIMIT <= raw@[k] <= RAW_LIMIT by {
                if k < cell {
                    assert(table[k] == before[k]);
                }
            }
        }
        cell = cell + 1;
    }
    let field = normalize(raw.as_slice());
    proof {
        assert(widened(raw@) =~= raw_heights(table, persistance));
        assert(sampled(sampler, width, height, seed, scale, octaves, lacunarity, offset, table));
        assert(field@ == heights_of(table, persistance));
    }
    Ok(field)
}

} // verus!
