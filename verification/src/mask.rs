//! The radial mask: heights fall off toward the rim of the map.
//!
//! The mask is centred on the cell `(width / 2, height / 2)`. Its outer
//! radius is half the smaller side of the grid. Heights within the inner
//! radius are kept, heights at or beyond the outer radius become 0, and
//! between the two a height keeps the share that its distance to the outer
//! radius is of the distance between the radii.

use crate::fixed::{fixed_product, lemma_product_with_share, UNIT};
use crate::grid::{cell_index, lemma_cell_index};
use vstd::prelude::*;

verus! {

/// `root` is the square root of `n`, rounded down.
pub open spec fn is_floor_root(n: int, root: int) -> bool {
    &&& 0 <= root
    &&& root * root <= n
    &&& n < (root + 1) * (root + 1)
}

/// The square root of `n`, rounded down.
pub open spec fn floor_root(n: int) -> int {
    choose|root: int| is_floor_root(n, root)
}

/// A number has one rounded-down square root at most.
pub proof fn lemma_floor_root_unique(n: int, a: int, b: int)
    requires
        is_floor_root(n, a),
        is_floor_root(n, b),
    ensures
        a == b,
{
    if a < b {
        assert((a + 1) * (a + 1) <= b * b) by (nonlinear_arith)
            requires
                0 <= a,
                a + 1 <= b,
        ;
    } else if b < a {
        assert((b + 1) * (b + 1) <= a * a) by (nonlinear_arith)
            requires
                0 <= b,
                b + 1 <= a,
        ;
    }
}

/// The square root of a number, rounded down.
pub fn isqrt(n: u128) -> (root: u64)
    ensures
        is_floor_root(n as int, root as int),
        root == floor_root(n as int),
{
    let mut low: u128 = 0;
    let mut high: u128 = 0x1_0000_0000_0000_0000;
    assert(0x1_0000_0000_0000_0000 * 0x1_0000_0000_0000_0000
        == 0x1_0000_0000_0000_0000_0000_0000_0000_0000) by (nonlinear_arith);
    while high - low > 1
        invariant
            low < high <= 0x1_0000_0000_0000_0000,
            low * low <= n < high * high,
        decreases high - low,
    {
        let middle: u128 = low + (high - low) / 2;
        assert(middle * middle <= 0xFFFF_FFFF_FFFF_FFFF * 0xFFFF_FFFF_FFFF_FFFF)
            by (nonlinear_arith)
            requires
                0 <= middle <= 0xFFFF_FFFF_FFFF_FFFF,
        ;
        let square: u128 = middle * middle;
        if square <= n {
            low = middle;
        } else {
            high = middle;
        }
    }
    proof {
        assert(is_floor_root(n as int, low as int));
        lemma_floor_root_unique(n as int, low as int, floor_root(n as int));
    }
    low as u64
}

/// The square of the distance between the cell `(x, y)` and the centre of
/// the grid.
pub open spec fn distance_squared(x: int, y: int, width: int, height: int) -> int {
    (x - width / 2) * (x - width / 2) + (y - height / 2) * (y - height / 2)
}

/// The smaller side of the grid: twice the outer radius of the mask.
pub open spec fn diameter(width: int, height: int) -> int {
    if width < height {
        width
    } else {
        height
    }
}

/// How much of its height a cell loses whose distance from the centre has
/// the square `distance_squared`: all of it at or beyond the outer radius,
/// nothing at or inside the inner radius, and between them the share that
/// the cell's distance from the inner radius is of the distance between the
/// radii. The cell's distance is rounded down to a fixed-point number.
pub open spec fn falloff(distance_squared: int, inner_radius: int, diameter: int) -> int {
    if 4 * distance_squared >= diameter * diameter {
        UNIT as int
    } else if inner_radius >= 0 && distance_squared * (UNIT * UNIT) <= inner_radius
        * inner_radius {
        0
    } else {
        (floor_root(distance_squared * (UNIT * UNIT)) - inner_radius) * UNIT / (diameter * (UNIT
            / 2) - inner_radius)
    }
}

/// The height that the mask leaves of `height` at cell `(x, y)`.
pub open spec fn masked_height(
    height: i64,
    x: int,
    y: int,
    width: int,
    grid_height: int,
    inner_radius: int,
) -> int {
    fixed_product(
        height as int,
        UNIT - falloff(
            distance_squared(x, y, width, grid_height),
            inner_radius,
            diameter(width, grid_height),
        ),
    )
}

/// A map under the mask.
pub open spec fn masked(noise_map: Seq<i64>, width: int, height: int, inner_radius: int) -> Seq<
    i64,
> {
    Seq::new(
        noise_map.len(),
        |cell: int|
            masked_height(noise_map[cell], cell % width, cell / width, width, height, inner_radius)
                as i64,
    )
}

/// The falloff is a share: it lies in `[0, 1]`.
pub proof fn lemma_falloff_is_share(distance_squared: int, inner_radius: int, diameter: int)
    requires
        0 <= distance_squared,
        0 <= diameter,
    ensures
        0 <= falloff(distance_squared, inner_radius, diameter) <= UNIT,
{
    let wide = distance_squared * (UNIT * UNIT);
    if 4 * distance_squared >= diameter * diameter {
    } else if inner_radius >= 0 && wide <= inner_radius * inner_radius {
    } else {
        lemma_root_between(distance_squared, inner_radius, diameter);
        let near = floor_root(wide) - inner_radius;
        let far = diameter * (UNIT / 2) - inner_radius;
        assert(0 <= near * UNIT / far <= UNIT) by (nonlinear_arith)
            requires
                0 <= near < far,
        ;
    }
}

/// Between the radii, the rounded distance lies at or above the inner radius
/// and below the outer one.
pub proof fn lemma_root_between(distance_squared: int, inner_radius: int, diameter: int)
    requires
        0 <= distance_squared,
        0 <= diameter,
        4 * distance_squared < diameter * diameter,
        !(inner_radius >= 0 && distance_squared * (UNIT * UNIT) <= inner_radius * inner_radius),
    ensures
        is_floor_root(
            distance_squared * (UNIT * UNIT),
            floor_root(distance_squared * (UNIT * UNIT)),
        ),
        inner_radius <= floor_root(distance_squared * (UNIT * UNIT)) < diameter * (UNIT / 2),
{
    let wide = distance_squared * (UNIT * UNIT);
    assert(wide >= 0) by (nonlinear_arith)
        requires
            distance_squared >= 0,
            wide == distance_squared * (UNIT * UNIT),
    ;
    lemma_floor_root_exists(wide);
    let root = floor_root(wide);
    let outer = diameter * (UNIT / 2);
    if root >= outer {
        assert(4 * wide >= diameter * diameter * (UNIT * UNIT)) by (nonlinear_arith)
            requires
                root * root <= wide,
                root >= outer,
                outer == diameter * (UNIT / 2),
                diameter >= 0,
        ;
        assert(4 * wide < diameter * diameter * (UNIT * UNIT)) by (nonlinear_arith)
            requires
                4 * distance_squared < diameter * diameter,
                wide == distance_squared * (UNIT * UNIT),
        ;
    }
    if inner_radius >= 0 && root < inner_radius {
        assert((root + 1) * (root + 1) <= inner_radius * inner_radius) by (nonlinear_arith)
            requires
                0 <= root,
                root + 1 <= inner_radius,
        ;
    }
}

/// Every number that is not negative has a rounded-down square root.
pub proof fn lemma_floor_root_exists(n: int)
    requires
        0 <= n,
    ensures
        is_floor_root(n, floor_root(n)),
    decreases n,
{
    if n == 0 {
        assert(is_floor_root(0, 0));
    } else {
        lemma_floor_root_exists(n - 1);
        let before = floor_root(n - 1);
        if n < (before + 1) * (before + 1) {
            assert(is_floor_root(n, before));
        } else {
            assert((before + 2) * (before + 2) > (before + 1) * (before + 1)) by (nonlinear_arith)
                requires
                    before >= 0,
            ;
            assert(is_floor_root(n, before + 1));
        }
    }
}

/// A cell at or beyond the outer radius is left with the height 0.
pub proof fn lemma_mask_clears_beyond_outer(
    height: i64,
    x: int,
    y: int,
    width: int,
    grid_height: int,
    inner_radius: int,
)
    requires
        4 * distance_squared(x, y, width, grid_height) >= diameter(width, grid_height) * diameter(
            width,
            grid_height,
        ),
    ensures
        masked_height(height, x, y, width, grid_height, inner_radius) == 0,
{
    lemma_product_with_share(height as int, 0);
}

/// A cell at or inside the inner radius, and inside the outer one, keeps its
/// height.
pub proof fn lemma_mask_keeps_within_inner(
    height: i64,
    x: int,
    y: int,
    width: int,
    grid_height: int,
    inner_radius: int,
)
    requires
        4 * distance_squared(x, y, width, grid_height) < diameter(width, grid_height) * diameter(
            width,
            grid_height,
        ),
        inner_radius >= 0,
        distance_squared(x, y, width, grid_height) * (UNIT * UNIT) <= inner_radius * inner_radius,
    ensures
        masked_height(height, x, y, width, grid_height, inner_radius) == height,
{
    lemma_product_with_share(height as int, UNIT as int);
}

/// The mask leaves the centre cell of a map as it is, whatever the inner
/// radius, as long as that is not negative.
pub proof fn law_mask_keeps_centre(
    noise_map: Seq<i64>,
    width: int,
    height: int,
    inner_radius: int,
)
    requires
        1 <= width,
        1 <= height,
        noise_map.len() == width * height,
        0 <= inner_radius,
    ensures
        0 <= cell_index(width / 2, height / 2, width) < noise_map.len(),
        masked(noise_map, width, height, inner_radius)[cell_index(width / 2, height / 2, width)]
            == noise_map[cell_index(width / 2, height / 2, width)],
{
    let centre = cell_index(width / 2, height / 2, width);
    lemma_cell_index(width / 2, height / 2, width, height);
    let side = diameter(width, height);
    assert(side * side > 0) by (nonlinear_arith)
        requires
            side >= 1,
    ;
    assert(inner_radius * inner_radius >= 0) by (nonlinear_arith);
    assert(distance_squared(width / 2, height / 2, width, height) == 0) by (nonlinear_arith);
    lemma_mask_keeps_within_inner(
        noise_map[centre],
        width / 2,
        height / 2,
        width,
        height,
        inner_radius,
    );
}

/// The corner of a grid lies at or beyond the outer radius, unless the grid
/// is one cell or three by three cells.
pub proof fn lemma_corner_is_outside(width: int, height: int)
    requires
        1 <= width,
        1 <= height,
        !(width == height && (width == 1 || width == 3)),
    ensures
        4 * distance_squared(0, 0, width, height) >= diameter(width, height) * diameter(
            width,
            height,
        ),
{
    let a = width / 2;
    let b = height / 2;
    let side = diameter(width, height);
    assert(distance_squared(0, 0, width, height) == a * a + b * b) by (nonlinear_arith)
        requires
            distance_squared(0, 0, width, height) == (0 - a) * (0 - a) + (0 - b) * (0 - b),
    ;
    assert(a * a >= 0 && b * b >= 0) by (nonlinear_arith);
    if width < height {
        assert(2 * b >= width);
        assert(4 * (b * b) >= width * width) by (nonlinear_arith)
            requires
                2 * b >= width,
                width >= 1,
        ;
    } else if height < width {
        assert(2 * a >= height);
        assert(4 * (a * a) >= height * height) by (nonlinear_arith)
            requires
                2 * a >= height,
                height >= 1,
        ;
    } else if width % 2 == 0 {
        assert(4 * (a * a) == width * width) by (nonlinear_arith)
            requires
                2 * a == width,
        ;
    } else {
        assert(a >= 2);
        assert(8 * (a * a) >= (2 * a + 1) * (2 * a + 1)) by (nonlinear_arith)
            requires
                a >= 2,
        ;
        assert(width * width == (2 * a + 1) * (2 * a + 1)) by (nonlinear_arith)
            requires
                width == 2 * a + 1,
        ;
    }
}

/// The mask leaves nothing of the height in the corner of a map, whatever
/// the inner radius. (In a map of one cell the corner is the centre; in a map
/// of three by three cells it lies just inside the outer radius.)
pub proof fn law_mask_clears_corner(
    noise_map: Seq<i64>,
    width: int,
    height: int,
    inner_radius: int,
)
    requires
        1 <= width,
        1 <= height,
        noise_map.len() == width * height,
        !(width == height && (width == 1 || width == 3)),
    ensures
        0 < noise_map.len(),
        masked(noise_map, width, height, inner_radius)[0] == 0,
{
    assert(width * height >= 1) by (nonlinear_arith)
        requires
            1 <= width,
            1 <= height,
    ;
    lemma_corner_is_outside(width, height);
    lemma_mask_clears_beyond_outer(noise_map[0], 0, 0, width, height, inner_radius);
}

/// Applies the radial mask to a map.
pub fn radial_mask(noise_map: &[i64], width: u32, height: u32, inner_radius: i64) -> (result: Vec<
    i64,
>)
    requires
        noise_map@.len() == width * height,
    ensures
        result@ == masked(noise_map@, width as int, height as int, inner_radius as int),
        result@.len() == noise_map@.len(),
{
    let mut result: Vec<i64> = Vec::new();
    let side: u32 = if width < height {
        width
    } else {
        height
    };
    let outer: i128 = (side as i128) * 500_000;
    let inner: i128 = inner_radius as i128;
    let mut cell: usize = 0;
    while cell < noise_map.len()
        invariant
            cell <= noise_map@.len(),
            noise_map@.len() == width * height,
            side == diameter(width as int, height as int),
            outer == side * (UNIT / 2),
            0 <= outer <= 0x8_0000_0000_0000,
            inner == inner_radius,
            result@.len() == cell,
            forall|k: int|
                0 <= k < cell ==> #[trigger] result@[k] == masked_height(
                    noise_map@[k],
                    k % (width as int),
                    k / (width as int),
                    width as int,
                    height as int,
                    inner_radius as int,
                ),
        decreases noise_map@.len() - cell,
    {
        assert(width > 0) by (nonlinear_arith)
            requires
                cell < width * height,
        ;
        let x: i128 = (cell % (width as usize)) as i128;
        let y: i128 = (cell / (width as usize)) as i128;
        assert(y < height) by (nonlinear_arith)
            requires
                y == (cell as int) / (width as int),
                cell < width * height,
                width > 0,
        ;
        let dx: i128 = x - (width / 2) as i128;
        let dy: i128 = y - (height / 2) as i128;
        assert(0 <= dx * dx <= 0x1_0000_0000 * 0x1_0000_0000) by (nonlinear_arith)
            requires
                -0x1_0000_0000 <= dx <= 0x1_0000_0000,
        ;
        assert(0 <= dy * dy <= 0x1_0000_0000 * 0x1_0000_0000) by (nonlinear_arith)
            requires
                -0x1_0000_0000 <= dy <= 0x1_0000_0000,
        ;
        let far: i128 = dx * dx + dy * dy;
        assert(far == distance_squared(x as int, y as int, width as int, height as int));
        assert(0 <= side * side <= 0x1_0000_0000 * 0x1_0000_0000) by (nonlinear_arith)
            requires
                0 <= side <= 0x1_0000_0000,
        ;
        assert(0 <= inner * inner <= 0x8000_0000_0000_0000 * 0x8000_0000_0000_0000)
            by (nonlinear_arith)
            requires
                -0x8000_0000_0000_0000 <= inner <= 0x8000_0000_0000_0000,
        ;
        assert(far * (UNIT * UNIT) == far * 1_000_000_000_000 && 0 <= far * 1_000_000_000_000
            <= 0x2_0000_0000_0000_0000 * 1_000_000_000_000) by (nonlinear_arith)
            requires
                0 <= far <= 0x2_0000_0000_0000_0000,
        ;
        let wide: i128 = far * 1_000_000_000_000;
        let lost: i128 = if 4 * far >= (side as i128) * (side as i128) {
            UNIT as i128
        } else if inner >= 0 && wide <= inner * inner {
            0
        } else {
            proof {
                lemma_root_between(far as int, inner as int, side as int);
            }
            let root: i128 = isqrt(wide as u128) as i128;
            let near: i128 = root - inner;
            assert(0 <= near * UNIT <= 0x1_0000_0000_0000_0000_0000 * 1_000_000)
                by (nonlinear_arith)
                requires
                    0 <= near <= 0x1_0000_0000_0000_0000_0000,
            ;
            near * (UNIT as i128) / (outer - inner)
        };
        assert(lost == falloff(far as int, inner as int, side as int));
        proof {
            lemma_falloff_is_share(far as int, inner as int, side as int);
        }
        let kept: i128 = (UNIT as i128) - lost;
        let value: i128 = noise_map[cell] as i128;
        assert(-0x8000_0000_0000_0000 * 1_000_000 <= value * kept <= 0x8000_0000_0000_0000
            * 1_000_000) by (nonlinear_arith)
            requires
                -0x8000_0000_0000_0000 <= value <= 0x8000_0000_0000_0000,
                0 <= kept <= 1_000_000,
        ;
        let left: i128 = value * kept / (UNIT as i128);
        proof {
            lemma_product_with_share(value as int, kept as int);
            vstd::arithmetic::div_mod::lemma_fundamental_div_mod(cell as int, width as int);
        }
        result.push(left as i64);
        cell = cell + 1;
    }
    assert(result@ =~= masked(noise_map@, width as int, height as int, inner_radius as int));
    result
}

} // verus!
