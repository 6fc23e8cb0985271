//! Normalisation of a height field to `[0, 1]` by its own extremes.

use crate::fixed::UNIT;
use vstd::prelude::*;

verus! {

/// The largest magnitude of a raw height that can be normalised: `2^100`.
pub const RAW_LIMIT: i128 = 0x10_0000_0000_0000_0000_0000_0000;

/// The least of `values`, which are not empty.
pub open spec fn lowest(values: Seq<int>) -> int
    decreases values.len(),
{
    if values.len() <= 1 {
        values[0]
    } else if values.last() < lowest(values.drop_last()) {
        values.last()
    } else {
        lowest(values.drop_last())
    }
}

/// The greatest of `values`, which are not empty.
pub open spec fn highest(values: Seq<int>) -> int
    decreases values.len(),
{
    if values.len() <= 1 {
        values[0]
    } else if values.last() > highest(values.drop_last()) {
        values.last()
    } else {
        highest(values.drop_last())
    }
}

/// Where `raw` lies between `low` and `high`, as a fraction of their
/// distance rounded down. Where the two are one, nothing lies between them
/// and the fraction is 0.
pub open spec fn normalized_height(raw: int, low: int, high: int) -> int {
    if high <= low {
        0
    } else {
        (raw - low) * UNIT / (high - low)
    }
}

/// The field `raw`, each height normalised between the least and the greatest
/// of them. A flat field comes out as all zeros.
pub open spec fn normalized(raw: Seq<int>) -> Seq<i64> {
    Seq::new(
        raw.len(),
        |cell: int| normalized_height(raw[cell], lowest(raw), highest(raw)) as i64,
    )
}

/// The values of `raw` as mathematical integers.
pub open spec fn widened(raw: Seq<i128>) -> Seq<int> {
    Seq::new(raw.len(), |cell: int| raw[cell] as int)
}

/// `lowest` is a lower bound of the values and one of them.
pub proof fn lemma_lowest(values: Seq<int>)
    requires
        values.len() > 0,
    ensures
        forall|k: int| 0 <= k < values.len() ==> lowest(values) <= #[trigger] values[k],
        exists|k: int| 0 <= k < values.len() && #[trigger] values[k] == lowest(values),
    decreases values.len(),
{
    if values.len() > 1 {
        let front = values.drop_last();
        lemma_lowest(front);
        let k = choose|k: int| 0 <= k < front.len() && #[trigger] front[k] == lowest(front);
        assert(values[k] == front[k]);
        assert(values[values.len() - 1] == values.last());
        assert forall|j: int| 0 <= j < values.len() implies lowest(values) <= #[trigger] values[j] by {
            if j < front.len() {
                assert(values[j] == front[j]);
            }
        }
    } else {
        assert(values[0] == lowest(values));
    }
}

/// `highest` is an upper bound of the values and one of them.
pub proof fn lemma_highest(values: Seq<int>)
    requires
        values.len() > 0,
    ensures
        forall|k: int| 0 <= k < values.len() ==> highest(values) >= #[trigger] values[k],
        exists|k: int| 0 <= k < values.len() && #[trigger] values[k] == highest(values),
    decreases values.len(),
{
    if values.len() > 1 {
        let front = values.drop_last();
        lemma_highest(front);
        let k = choose|k: int| 0 <= k < front.len() && #[trigger] front[k] == highest(front);
        assert(values[k] == front[k]);
        assert(values[values.len() - 1] == values.last());
        assert forall|j: int| 0 <= j < values.len() implies highest(values) >= #[trigger] values[j] by {
            if j < front.len() {
                assert(values[j] == front[j]);
            }
        }
    } else {
        assert(values[0] == highest(values));
    }
}

/// A normalised height lies in `[0, 1]`; the least height is normalised to 0
/// and, unless the field is flat, the greatest to 1.
pub proof fn lemma_normalized_height(raw: int, low: int, high: int)
    requires
        low <= raw <= high,
    ensures
        0 <= normalized_height(raw, low, high) <= UNIT,
        normalized_height(low, low, high) == 0,
        low < high ==> normalized_height(high, low, high) == UNIT,
{
    if low < high {
        let range = high - low;
        let part = raw - low;
        assert(0 <= part * UNIT <= range * UNIT) by (nonlinear_arith)
            requires
                0 <= part <= range,
        ;
        assert(0 <= (part * UNIT) / range <= UNIT) by (nonlinear_arith)
            requires
                0 <= part * UNIT <= range * UNIT,
                range > 0,
        ;
        assert((range * UNIT) / range == UNIT) by (nonlinear_arith)
            requires
                range > 0,
        ;
        assert((low - low) * UNIT / range == 0) by (nonlinear_arith)
            requires
                range > 0,
        ;
    }
}

/// Every normalised height lies in `[0, 1]`. Unless the raw heights are all
/// equal, the least normalised height is 0 and the greatest is 1.
pub proof fn law_normalized_bounds(raw: Seq<int>)
    ensures
        forall|k: int| 0 <= k < raw.len() ==> 0 <= #[trigger] normalized(raw)[k] <= UNIT,
        (exists|i: int, j: int| 0 <= i < raw.len() && 0 <= j < raw.len() && raw[i] != raw[j]) ==> {
            &&& exists|k: int| 0 <= k < raw.len() && #[trigger] normalized(raw)[k] == 0
            &&& exists|k: int| 0 <= k < raw.len() && #[trigger] normalized(raw)[k] == UNIT
        },
{
    if raw.len() > 0 {
        lemma_lowest(raw);
        lemma_highest(raw);
        let low = lowest(raw);
        let high = highest(raw);
        assert forall|k: int| 0 <= k < raw.len() implies 0 <= #[trigger] normalized(raw)[k]
            <= UNIT by {
            lemma_normalized_height(raw[k], low, high);
        }
        if exists|i: int, j: int| 0 <= i < raw.len() && 0 <= j < raw.len() && raw[i] != raw[j] {
            let (i, j) = choose|i: int, j: int|
                0 <= i < raw.len() && 0 <= j < raw.len() && raw[i] != raw[j];
            assert(low <= raw[i] <= high && low <= raw[j] <= high);
            assert(low < high);
            let at_low = choose|k: int| 0 <= k < raw.len() && #[trigger] raw[k] == low;
            let at_high = choose|k: int| 0 <= k < raw.len() && #[trigger] raw[k] == high;
            lemma_normalized_height(raw[at_low], low, high);
            lemma_normalized_height(raw[at_high], low, high);
            assert(normalized(raw)[at_low] == 0);
            assert(normalized(raw)[at_high] == UNIT);
        }
    }
}

/// A field whose raw heights are all equal is normalised to zeros.
pub proof fn law_flat_field(raw: Seq<int>)
    requires
        forall|i: int, j: int| 0 <= i < raw.len() && 0 <= j < raw.len() ==> raw[i] == raw[j],
    ensures
        forall|k: int| 0 <= k < raw.len() ==> #[trigger] normalized(raw)[k] == 0,
{
    if raw.len() > 0 {
        lemma_lowest(raw);
        lemma_highest(raw);
        let at_low = choose|k: int| 0 <= k < raw.len() && #[trigger] raw[k] == lowest(raw);
        let at_high = choose|k: int| 0 <= k < raw.len() && #[trigger] raw[k] == highest(raw);
        assert(raw[at_low] == raw[at_high]);
    }
}

/// Normalises a field of raw heights: each becomes its place between the
/// least and the greatest height of the field, from 0 to 1. A field whose
/// heights are all equal becomes all zeros.
pub fn normalize(raw: &[i128]) -> (field: Vec<i64>)
    requires
        forall|k: int| 0 <= k < raw@.len() ==> -RAW_LIMIT <= #[trigger] raw@[k] <= RAW_LIMIT,
    ensures
        field@ == normalized(widened(raw@)),
        field@.len() == raw@.len(),
        forall|k: int| 0 <= k < field@.len() ==> 0 <= #[trigger] field@[k] <= UNIT,
{
    let count = raw.len();
    let mut field: Vec<i64> = Vec::new();
    if count == 0 {
        assert(field@ =~= normalized(widened(raw@)));
        return field;
    }
    let ghost wide = widened(raw@);
    let mut low: i128 = raw[0];
    let mut high: i128 = raw[0];
    let mut cell: usize = 1;
    assert(wide.take(1).len() == 1);
    while cell < count
        invariant
            1 <= cell <= count,
            count == raw@.len(),
            wide == widened(raw@),
            low == lowest(wide.take(cell as int)),
            high == highest(wide.take(cell as int)),
            -RAW_LIMIT <= low <= high <= RAW_LIMIT,
            forall|k: int| 0 <= k < raw@.len() ==> -RAW_LIMIT <= #[trigger] raw@[k] <= RAW_LIMIT,
        decreases count - cell,
    {
        let value: i128 = raw[cell];
        assert(wide.take(cell + 1).drop_last() =~= wide.take(cell as int));
        assert(wide.take(cell + 1).last() == value);
        if value < low {
            low = value;
        }
        if value > high {
            high = value;
        }
        cell = cell + 1;
    }
    assert(wide.take(count as int) =~= wide);
    proof {
        lemma_lowest(wide);
        lemma_highest(wide);
    }
    let range: i128 = high - low;
    let mut cell: usize = 0;
    while cell < count
        invariant
            cell <= count,
            count == raw@.len(),
            wide == widened(raw@),
            low == lowest(wide),
            high == highest(wide),
            range == high - low,
            -RAW_LIMIT <= low <= high <= RAW_LIMIT,
            forall|k: int| 0 <= k < wide.len() ==> low <= #[trigger] wide[k] <= high,
            field@.len() == cell,
            forall|k: int|
                0 <= k < cell ==> #[trigger] field@[k] == normalized_height(
                    wide[k],
                    low as int,
                    high as int,
                ) && 0 <= field@[k] <= UNIT,
        decreases count - cell,
    {
        let value: i128 = raw[cell];
        assert(wide[cell as int] == value);
        proof {
            lemma_normalized_height(value as int, low as int, high as int);
        }
        if range == 0 {
            field.push(0);
        } else {
            let part: i128 = value - low;
            assert(0 <= part * UNIT <= 0x20_0000_0000_0000_0000_0000_0000 * 1_000_000)
                by (nonlinear_arith)
                requires
                    0 <= part <= 0x20_0000_0000_0000_0000_0000_0000,
            ;
            let placed: i128 = part * (UNIT as i128) / range;
            field.push(placed as i64);
        }
        cell = cell + 1;
    }
    assert(field@ =~= normalized(wide));
    field
}

} // verus!
