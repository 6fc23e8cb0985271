//! A plain map: one sample to the cell, neither layered nor normalised.

use crate::fixed::{tdiv, UNIT};
use crate::grid::{cell_count, cell_index, index_of, lemma_cell_index, MAX_CELLS};
use crate::noise_map::GenerationError;
use crate::octaves::{clamp_scale, effective_scale};
use vstd::prelude::*;

verus! {

/// A place outside the grid was asked for.
#[derive(Clone, Copy, Debug, PartialEq, Eq, Structural)]
pub struct OutOfBounds {
    pub x: u32,
    pub y: u32,
}

/// A grid of samples, row by row.
pub struct WorldMap {
    width: u32,
    _height: u32,
    values: Vec<i64>,
}

/// Where a plain map samples the cells of index `index` along one axis: the
/// index divided by the scale.
pub open spec fn plain_coordinate(index: int, scale: int) -> int {
    tdiv(index * (UNIT * UNIT), effective_scale(scale))
}

impl WorldMap {
    #[verifier::type_invariant]
    spec fn well_formed(self) -> bool {
        self.values@.len() == self.width * self._height
    }

    /// The number of cells in a row.
    pub closed spec fn width(&self) -> u32 {
        self.width
    }

    /// The number of rows.
    pub closed spec fn height(&self) -> u32 {
        self._height
    }

    /// The samples, row by row.
    pub closed spec fn values(&self) -> Seq<i64> {
        self.values@
    }

    /// The map of a field of values, or `None` unless there is one value for
    /// every cell of the grid.
    pub fn from_values(width: u32, height: u32, values: Vec<i64>) -> (result: Option<WorldMap>)
        ensures
            result is Some <==> values@.len() == width * height,
            result matches Some(map) ==> {
                &&& map.width() == width
                &&& map.height() == height
                &&& map.values() == values@
            },
    {
        let cells: u64 = cell_count(width, height);
        let count: usize = values.len();
        if count as u64 == cells {
            Some(WorldMap { width, _height: height, values })
        } else {
            None
        }
    }

    /// Samples a `width` by `height` grid: cell `(x, y)` holds what `sampler`
    /// gives at `(x / scale, y / scale)`. A scale that is not positive counts
    /// as 0.0001.
    pub fn generate<S: Fn(i128, i128) -> i64>(width: u32, height: u32, scale: i64, sampler: &S) -> (result:
        Result<WorldMap, GenerationError>)
        requires
            forall|x: i128, y: i128| call_requires(sampler, (x, y)),
        ensures
            result is Ok <==> width * height <= MAX_CELLS,
            result matches Err(error) ==> error == GenerationError::GridTooLarge,
            result matches Ok(map) ==> {
                &&& map.width() == width
                &&& map.height() == height
                &&& map.values().len() == width * height
                &&& forall|cell: int|
                    0 <= cell < width * height ==> call_ensures(
                        sampler,
                        (
                            plain_coordinate(cell % (width as int), scale as int) as i128,
                            plain_coordinate(cell / (width as int), scale as int) as i128,
                        ),
                        #[trigger] map.values()[cell],
                    )
            },
    {
        let cells: u64 = cell_count(width, height);
        if cells > MAX_CELLS as u64 {
            return Err(GenerationError::GridTooLarge);
        }
        let count: u32 = cells as u32;
        let used_scale: i128 = clamp_scale(scale) as i128;
        let mut values: Vec<i64> = Vec::new();
        let mut cell: u32 = 0;
        while cell < count
            invariant
                cell <= count,
                count == width * height,
                used_scale == effective_scale(scale as int),
                forall|x: i128, y: i128| call_requires(sampler, (x, y)),
                values@.len() == cell,
                forall|k: int|
                    0 <= k < cell ==> call_ensures(
                        sampler,
                        (
                            plain_coordinate(k % (width as int), scale as int) as i128,
                            plain_coordinate(k / (width as int), scale as int) as i128,
                        ),
                        #[trigger] values@[k],
                    ),
            decreases count - cell,
        {
            assert(width > 0) by (nonlinear_arith)
                requires
                    cell < width * height,
            ;
            let x: i128 = (cell % width) as i128;
            let y: i128 = (cell / width) as i128;
            assert(UNIT * UNIT == 1_000_000_000_000) by (nonlinear_arith);
            let at_x: i128 = x * 1_000_000_000_000 / used_scale;
            let at_y: i128 = y * 1_000_000_000_000 / used_scale;
            let sample: i64 = sampler(at_x, at_y);
            values.push(sample);
            cell = cell + 1;
        }
        Ok(WorldMap { width, _height: height, values })
    }

    pub fn _width(&self) -> (width: u32)
        ensures
            width == self.width(),
    {
        self.width
    }

    pub fn _height(&self) -> (height: u32)
        ensures
            height == self.height(),
    {
        self._height
    }

    /// The sample of cell `(x, y)`, or the error for a place outside the
    /// grid.
    pub fn get(&self, x: u32, y: u32) -> (result: Result<i64, OutOfBounds>)
        ensures
            result is Ok <==> x < self.width() && y < self.height(),
            result matches Ok(value) ==> value == self.values()[cell_index(
                x as int,
                y as int,
                self.width() as int,
            )],
            result matches Err(error) ==> error == (OutOfBounds { x, y }),
    {
        proof {
            use_type_invariant(self);
        }
        match index_of(x, y, self.width, self._height) {
            Some(cell) => {
                let count: usize = self.values.len();
                proof {
                    lemma_cell_index(x as int, y as int, self.width as int, self._height as int);
                    assert(cell < count);
                }
                let at: usize = cell as usize;
                Ok(self.values[at])
            },
            None => Err(OutOfBounds { x, y }),
        }
    }
}

} // verus!
