//! Choosing the rows and the kinds of slots from what was measured in the image.
use vstd::prelude::*;

use crate::fingerprint::{luma, luma601_u8};
use crate::item::ItemKind;
use crate::single::{round, rounding_is_close, single, small_numbers_are_kept};
use crate::slot::SlotKind;
use crate::vision::Frame;

verus! {

/// The most rows of a list.
pub const LIST_MAX_ROWS: usize = 10;

/// The score at this place is above the one before it, not below the one after it, and not zero.
pub open spec fn is_peak(scores: Seq<u32>, index: int) -> bool {
    &&& 0 <= index < scores.len()
    &&& scores[index] > 0
    &&& index > 0 ==> scores[index] > scores[index - 1]
    &&& index + 1 < scores.len() ==> scores[index] >= scores[index + 1]
}

/// The peaks among the first `count` scores.
pub open spec fn peaks(scores: Seq<u32>, count: int) -> Seq<usize>
    decreases count,
{
    if count <= 0 {
        Seq::empty()
    } else if is_peak(scores, count - 1) {
        peaks(scores, count - 1).push((count - 1) as usize)
    } else {
        peaks(scores, count - 1)
    }
}

/// Where the scores of the rows are highest. The scores are ranks: any numbers that compare as the
/// measured scores do, with zero for a score of zero.
pub fn local_maxima(scores: &Vec<u32>) -> (found: Vec<usize>)
    ensures
        found@ == peaks(scores@, scores@.len() as int),
{
    let mut found: Vec<usize> = Vec::new();
    let mut index: usize = 0;
    while index < scores.len()
        invariant
            index <= scores@.len(),
            found@ == peaks(scores@, index as int),
        decreases scores@.len() - index,
    {
        assert(scores@.len() == scores.len());
        let rises = index == 0 || scores[index] > scores[index - 1];
        let stays = index + 1 >= scores.len() || scores[index] >= scores[index + 1];
        if scores[index] > 0 && rises && stays {
            found.push(index);
        }
        index = index + 1;
    }
    found
}

/// The first of the highest scores is at this place.
pub open spec fn is_highest(scores: Seq<u32>, index: int) -> bool {
    &&& 0 <= index < scores.len()
    &&& forall|other: int|
        0 <= other < scores.len() ==> if other < index {
            (#[trigger] scores[other]) < scores[index]
        } else {
            scores[other] <= scores[index]
        }
}

/// The row of the home: the first with the highest score, if that reaches the threshold. The
/// scores and the threshold are ranks.
pub fn best_row(scores: &Vec<u32>, threshold: u32) -> (best: Option<usize>)
    ensures
        match best {
            Some(index) => is_highest(scores@, index as int) && scores@[index as int] >= threshold,
            None => forall|index: int|
                0 <= index < scores@.len() ==> (#[trigger] scores@[index]) < threshold,
        },
{
    if scores.len() == 0 {
        return None;
    }
    let mut best: usize = 0;
    let mut index: usize = 1;
    while index < scores.len()
        invariant
            best < index <= scores@.len(),
            forall|other: int|
                0 <= other < index ==> if other < best {
                    (#[trigger] scores@[other]) < scores@[best as int]
                } else {
                    scores@[other] <= scores@[best as int]
                },
        decreases scores@.len() - index,
    {
        if scores[index] > scores[best] {
            best = index;
        }
        index = index + 1;
    }
    if scores[best] >= threshold {
        Some(best)
    } else {
        None
    }
}

/// The places of the scores that reach the threshold, among the first `count`.
pub open spec fn reaching(scores: Seq<u32>, threshold: u32, count: int) -> Seq<usize>
    decreases count,
{
    if count <= 0 {
        Seq::empty()
    } else if scores[count - 1] >= threshold {
        reaching(scores, threshold, count - 1).push((count - 1) as usize)
    } else {
        reaching(scores, threshold, count - 1)
    }
}

/// The rows of a page that are strong enough to count, in their order. The scores and the
/// threshold are ranks.
pub fn eligible_rows(scores: &Vec<u32>, threshold: u32) -> (found: Vec<usize>)
    ensures
        found@ == reaching(scores@, threshold, scores@.len() as int),
{
    let mut found: Vec<usize> = Vec::new();
    let mut index: usize = 0;
    while index < scores.len()
        invariant
            index <= scores@.len(),
            found@ == reaching(scores@, threshold, index as int),
        decreases scores@.len() - index,
    {
        if scores[index] >= threshold {
            found.push(index);
        }
        index = index + 1;
    }
    found
}

/// How many of four values are above `value`.
pub open spec fn count_above(values: [u32; 4], value: u32) -> int {
    (if values[0] > value {
        1int
    } else {
        0
    }) + (if values[1] > value {
        1int
    } else {
        0
    }) + (if values[2] > value {
        1int
    } else {
        0
    }) + (if values[3] > value {
        1int
    } else {
        0
    })
}

/// How many of four values are at least `value`.
pub open spec fn count_from(values: [u32; 4], value: u32) -> int {
    (if values[0] >= value {
        1int
    } else {
        0
    }) + (if values[1] >= value {
        1int
    } else {
        0
    }) + (if values[2] >= value {
        1int
    } else {
        0
    }) + (if values[3] >= value {
        1int
    } else {
        0
    })
}

/// The second highest of four values.
pub fn second_highest(values: [u32; 4]) -> (second: u32)
    ensures
        values@.contains(second),
        count_above(values, second) <= 1,
        count_from(values, second) >= 2,
{
    let mut high = values[0];
    let mut low = values[1];
    if low > high {
        high = values[1];
        low = values[0];
    }
    if values[2] > high {
        low = high;
        high = values[2];
    } else if values[2] > low {
        low = values[2];
    }
    if values[3] > high {
        low = high;
    } else if values[3] > low {
        low = values[3];
    }
    assert(values@[0] == values[0] && values@[1] == values[1] && values@[2] == values[2]
        && values@[3] == values[3]);
    low
}

/// How many rows before row `index` are far enough from it, counted on from `start`.
pub open spec fn reach(ys: Seq<i32>, min_gap: int, index: int, start: int) -> int
    decreases index - start,
{
    if start < index && ys[index] - ys[start] >= min_gap {
        reach(ys, min_gap, index, start + 1)
    } else {
        start
    }
}

/// How many of the first rows can stand before row `index`. What can stand before a row can stand
/// before the next one.
pub open spec fn compatible(ys: Seq<i32>, min_gap: int, index: int) -> int
    decreases index + 1,
{
    if index < 0 {
        0
    } else {
        reach(ys, min_gap, index, compatible(ys, min_gap, index - 1))
    }
}

proof fn reach_is_bounded(ys: Seq<i32>, min_gap: int, index: int, start: int)
    requires
        0 <= start,
        start <= index,
    ensures
        start <= reach(ys, min_gap, index, start) <= index,
        forall|at: int|
            start <= at < reach(ys, min_gap, index, start) ==> ys[index] - #[trigger] ys[at]
                >= min_gap,
    decreases index - start,
{
    if start < index && ys[index] - ys[start] >= min_gap {
        reach_is_bounded(ys, min_gap, index, start + 1);
    }
}

/// Where the rows are in order, all rows that can stand before another are far enough from it.
pub proof fn compatible_rows_are_apart(ys: Seq<i32>, min_gap: int, index: int, earlier: int)
    requires
        0 <= index < ys.len(),
        forall|i: int, j: int| 0 <= i <= j < ys.len() ==> ys[i] <= ys[j],
        0 <= earlier < compatible(ys, min_gap, index),
    ensures
        compatible(ys, min_gap, index) <= index,
        ys[index] - ys[earlier] >= min_gap,
    decreases index,
{
    compatible_is_bounded(ys, min_gap, index);
    compatible_is_bounded(ys, min_gap, index - 1);
    let start = compatible(ys, min_gap, index - 1);
    reach_is_bounded(ys, min_gap, index, start);
    if earlier < start {
        compatible_rows_are_apart(ys, min_gap, index - 1, earlier);
        assert(ys[index - 1] <= ys[index]);
    }
}

proof fn compatible_is_bounded(ys: Seq<i32>, min_gap: int, index: int)
    ensures
        index >= 0 ==> 0 <= compatible(ys, min_gap, index) <= index,
        index < 0 ==> compatible(ys, min_gap, index) == 0,
    decreases index + 1,
{
    if index >= 0 {
        compatible_is_bounded(ys, min_gap, index - 1);
        let start = compatible(ys, min_gap, index - 1);
        reach_is_bounded(ys, min_gap, index, start);
    }
}

/// For each row, how many of the first rows can stand before it.
pub fn compatible_rows(ys: &Vec<i32>, min_gap: i32) -> (counts: Vec<usize>)
    ensures
        counts@.len() == ys@.len(),
        forall|i: int|
            0 <= i < ys@.len() ==> #[trigger] counts@[i] == compatible(ys@, min_gap as int, i),
{
    let mut counts: Vec<usize> = Vec::new();
    let mut previous: usize = 0;
    let mut index: usize = 0;
    while index < ys.len()
        invariant
            index <= ys@.len(),
            counts@.len() == index,
            previous == compatible(ys@, min_gap as int, index - 1),
            previous <= index,
            forall|i: int|
                0 <= i < index ==> #[trigger] counts@[i] == compatible(ys@, min_gap as int, i),
        decreases ys@.len() - index,
    {
        let ghost start = previous as int;
        while previous < index && ys[index] as i64 - ys[previous] as i64 >= min_gap as i64
            invariant
                index < ys@.len(),
                previous <= index,
                reach(ys@, min_gap as int, index as int, start) == reach(
                    ys@,
                    min_gap as int,
                    index as int,
                    previous as int,
                ),
            decreases index - previous,
        {
            previous = previous + 1;
        }
        counts.push(previous);
        index = index + 1;
    }
    counts
}

/// The rows that are chosen among the first `rows`, at most `left` of them, where `taken` says of
/// each number of rows and of chosen rows whether the last row is among them.
pub open spec fn traced(
    taken: Seq<bool>,
    before: Seq<usize>,
    stride: int,
    rows: int,
    left: int,
) -> Seq<usize>
    decreases rows,
{
    if rows <= 0 || left <= 0 {
        Seq::empty()
    } else if taken[rows * stride + left] {
        let rest = before[rows - 1] as int;
        traced(
            taken,
            before,
            stride,
            if rest < rows {
                rest
            } else {
                0
            },
            left - 1,
        ).push((rows - 1) as usize)
    } else {
        traced(taken, before, stride, rows - 1, left)
    }
}

/// Reads the chosen rows off the table.
pub fn trace_rows(taken: &Vec<bool>, before: &Vec<usize>, stride: usize, most: usize) -> (chosen:
    Vec<usize>)
    requires
        most < stride,
        (before@.len() + 1) * stride <= taken@.len(),
        forall|i: int| 0 <= i < before@.len() ==> #[trigger] before@[i] <= i,
    ensures
        chosen@ == traced(taken@, before@, stride as int, before@.len() as int, most as int),
{
    let ghost all = traced(taken@, before@, stride as int, before@.len() as int, most as int);
    let mut chosen: Vec<usize> = Vec::new();
    let mut rows: usize = before.len();
    let mut left: usize = most;
    assert(traced(taken@, before@, stride as int, rows as int, left as int) + chosen@ =~= all);
    while rows > 0 && left > 0
        invariant
            rows <= before@.len(),
            left < stride,
            (before@.len() + 1) * stride <= taken@.len(),
            taken@.len() == taken.len(),
            forall|i: int| 0 <= i < before@.len() ==> #[trigger] before@[i] <= i,
            traced(taken@, before@, stride as int, rows as int, left as int) + chosen@ == all,
        decreases rows,
    {
        assert(taken@.len() == taken.len());
        assert(rows * stride + left < taken@.len() && 0 <= rows * stride) by (nonlinear_arith)
            requires
                0 < rows <= before@.len(),
                0 <= left < stride,
                (before@.len() + 1) * stride <= taken@.len(),
        ;
        let ghost rest = traced(taken@, before@, stride as int, rows as int, left as int);
        if taken[rows * stride + left] {
            let next: usize = before[rows - 1];
            chosen.insert(0, rows - 1);
            assert(rest.drop_last() + chosen@ =~= all);
            assert(rest.drop_last() =~= traced(
                taken@,
                before@,
                stride as int,
                next as int,
                left - 1,
            ));
            rows = next;
            left = left - 1;
        } else {
            rows = rows - 1;
        }
    }
    assert(traced(taken@, before@, stride as int, rows as int, left as int) + chosen@ =~= chosen@);
    chosen
}

proof fn traced_lies_below(
    taken: Seq<bool>,
    before: Seq<usize>,
    stride: int,
    rows: int,
    left: int,
)
    requires
        rows <= before.len() <= usize::MAX,
    ensures
        traced(taken, before, stride, rows, left).len() <= if left < 0 {
            0
        } else {
            left
        },
        forall|at: int|
            0 <= at < traced(taken, before, stride, rows, left).len() ==> (#[trigger] traced(
                taken,
                before,
                stride,
                rows,
                left,
            )[at]) < rows,
    decreases rows,
{
    if rows > 0 && left > 0 {
        if taken[rows * stride + left] {
            let rest = before[rows - 1] as int;
            let next = if rest < rows {
                rest
            } else {
                0
            };
            traced_lies_below(taken, before, stride, next, left - 1);
            let all = traced(taken, before, stride, rows, left);
            let front = traced(taken, before, stride, next, left - 1);
            assert forall|at: int| 0 <= at < all.len() implies (#[trigger] all[at]) < rows by {
                if at < front.len() {
                    assert(all[at] == front[at]);
                }
            }
        } else {
            traced_lies_below(taken, before, stride, rows - 1, left);
        }
    }
}

/// The chosen rows are in order, at most as many as asked for, and far enough from each other.
pub proof fn chosen_rows_are_apart(
    ys: Seq<i32>,
    min_gap: int,
    taken: Seq<bool>,
    before: Seq<usize>,
    stride: int,
    rows: int,
    left: int,
    first: int,
    second: int,
)
    requires
        0 <= rows <= ys.len() <= usize::MAX,
        0 <= left,
        before.len() == ys.len(),
        forall|i: int, j: int| 0 <= i <= j < ys.len() ==> ys[i] <= ys[j],
        forall|i: int|
            0 <= i < before.len() ==> #[trigger] before[i] == compatible(ys, min_gap, i),
        0 <= first < second < traced(taken, before, stride, rows, left).len(),
    ensures
        traced(taken, before, stride, rows, left).len() <= left,
        traced(taken, before, stride, rows, left)[first] < traced(
            taken,
            before,
            stride,
            rows,
            left,
        )[second] < rows,
        ys[traced(taken, before, stride, rows, left)[second] as int] - ys[traced(
            taken,
            before,
            stride,
            rows,
            left,
        )[first] as int] >= min_gap,
    decreases rows,
{
    let all = traced(taken, before, stride, rows, left);
    traced_lies_below(taken, before, stride, rows, left);
    if taken[rows * stride + left] {
        let rest = before[rows - 1] as int;
        compatible_is_bounded(ys, min_gap, rows - 1);
        assert(rest == compatible(ys, min_gap, rows - 1));
        assert(rest < rows);
        let front = traced(taken, before, stride, rest, left - 1);
        traced_lies_below(taken, before, stride, rest, left - 1);
        assert(all =~= front.push((rows - 1) as usize));
        assert(all[first] == front[first]);
        if second < front.len() {
            assert(all[second] == front[second]);
            chosen_rows_are_apart(
                ys,
                min_gap,
                taken,
                before,
                stride,
                rest,
                left - 1,
                first,
                second,
            );
        } else {
            assert(all[second] == rows - 1);
            assert(front[first] < rest);
            compatible_rows_are_apart(ys, min_gap, rows - 1, front[first] as int);
        }
    } else {
        chosen_rows_are_apart(
            ys,
            min_gap,
            taken,
            before,
            stride,
            rows - 1,
            left,
            first,
            second,
        );
    }
}

/// The columns of a row that hold something: up to the last that is supported, but at least one.
pub fn occupied_columns(supported: [bool; 4]) -> (count: usize)
    ensures
        count == if supported[3] {
            4int
        } else if supported[2] {
            3
        } else if supported[1] {
            2
        } else {
            1
        },
{
    if supported[3] {
        4
    } else if supported[2] {
        3
    } else if supported[1] {
        2
    } else {
        1
    }
}

/// A row that was found in a list.
#[derive(Clone, Copy, Debug, PartialEq, Eq, Structural)]
pub struct ListRow {
    pub occupied_columns: usize,
    /// The row lies where the first row of the list does.
    pub tops_the_list: bool,
}

/// A cell of a list.
#[derive(Clone, Copy, Debug, PartialEq, Eq, Structural)]
pub struct ListCell {
    pub row: u32,
    pub col: u32,
    pub kind: SlotKind,
}

/// What stands in a cell. The first cell of the boosters stands for having none.
pub open spec fn cell_kind(item_kind: ItemKind, row: ListRow, col: int) -> SlotKind {
    match item_kind {
        ItemKind::Stratagem => SlotKind::Stratagem,
        ItemKind::Booster => if row.tops_the_list && col == 0 {
            SlotKind::NoBoosterOption
        } else {
            SlotKind::Booster
        },
    }
}

/// The columns of a row that become cells.
pub open spec fn used_columns(row: ListRow) -> int {
    if row.occupied_columns < 4 {
        row.occupied_columns as int
    } else {
        4
    }
}

/// The first `count` cells of a row.
pub open spec fn row_cells(item_kind: ItemKind, row: ListRow, index: int, count: int) -> Seq<
    ListCell,
>
    decreases count,
{
    if count <= 0 {
        Seq::empty()
    } else {
        row_cells(item_kind, row, index, count - 1).push(
            ListCell {
                row: index as u32,
                col: (count - 1) as u32,
                kind: cell_kind(item_kind, row, count - 1),
            },
        )
    }
}

/// The cells of the first `count` rows.
pub open spec fn list_cells_of(item_kind: ItemKind, rows: Seq<ListRow>, count: int) -> Seq<ListCell>
    decreases count,
{
    if count <= 0 {
        Seq::empty()
    } else {
        list_cells_of(item_kind, rows, count - 1) + row_cells(
            item_kind,
            rows[count - 1],
            count - 1,
            used_columns(rows[count - 1]),
        )
    }
}

/// The cells of a list, row by row.
pub fn list_rows_to_slots(rows: &Vec<ListRow>, item_kind: ItemKind) -> (cells: Vec<ListCell>)
    requires
        rows@.len() <= u32::MAX,
    ensures
        cells@ == list_cells_of(item_kind, rows@, rows@.len() as int),
{
    let mut cells: Vec<ListCell> = Vec::new();
    let mut index: usize = 0;
    while index < rows.len()
        invariant
            index <= rows@.len() <= u32::MAX,
            cells@ == list_cells_of(item_kind, rows@, index as int),
        decreases rows@.len() - index,
    {
        let row = rows[index];
        let ghost start = cells@;
        let mut col: usize = 0;
        assert(start + row_cells(item_kind, row, index as int, 0) =~= start);
        while col < row.occupied_columns && col < 4
            invariant
                col <= 4,
                index < rows@.len() <= u32::MAX,
                col <= used_columns(row),
                cells@ == start + row_cells(item_kind, row, index as int, col as int),
            decreases 4 - col,
        {
            let kind = match item_kind {
                ItemKind::Stratagem => SlotKind::Stratagem,
                ItemKind::Booster => if row.tops_the_list && col == 0 {
                    SlotKind::NoBoosterOption
                } else {
                    SlotKind::Booster
                },
            };
            let ghost done = row_cells(item_kind, row, index as int, col as int);
            cells.push(ListCell { row: index as u32, col: col as u32, kind });
            assert(cells@ =~= start + done.push(
                ListCell { row: index as u32, col: col as u32, kind },
            ));
            col = col + 1;
        }
        index = index + 1;
    }
    cells
}

/// The kinds of the slots of the loadout home, given which stratagem slots hold something and what
/// the booster slot is.
pub fn home_kinds(content: [bool; 4], booster: SlotKind) -> (kinds: Vec<SlotKind>)
    ensures
        kinds@.len() == 5,
        forall|col: int|
            0 <= col < 4 ==> #[trigger] kinds@[col] == if content[col] {
                SlotKind::Stratagem
            } else {
                SlotKind::StratagemEmpty
            },
        kinds@[4] == booster,
{
    let mut kinds: Vec<SlotKind> = Vec::new();
    let mut col: usize = 0;
    while col < 4
        invariant
            col <= 4,
            kinds@.len() == col,
            forall|done: int|
                0 <= done < col ==> #[trigger] kinds@[done] == if content[done] {
                    SlotKind::Stratagem
                } else {
                    SlotKind::StratagemEmpty
                },
        decreases 4 - col,
    {
        kinds.push(
            if content[col] {
                SlotKind::Stratagem
            } else {
                SlotKind::StratagemEmpty
            },
        );
        col = col + 1;
    }
    kinds.push(booster);
    kinds
}

/// A row of pixels of the booster slot: what lies in the hexagon, in the inner one that leaves a
/// ring, and in the core. Each span ends before its end.
#[derive(Clone, Copy, Debug, PartialEq, Eq, Structural)]
pub struct BoosterRow {
    pub content_start: u32,
    pub content_end: u32,
    pub inner_start: u32,
    pub inner_end: u32,
    pub core_start: u32,
    pub core_end: u32,
}

/// Pixels of the booster slot.
#[derive(Clone, Copy, Debug, PartialEq, Eq, Structural)]
pub struct BoosterCounts {
    pub content: u32,
    pub yellow: u32,
    pub ring: u32,
    pub ring_yellow: u32,
    pub core: u32,
    pub core_dark: u32,
}

/// The brightest pixel of a core that counts as dark.
pub const MAX_CORE_LUMA: u8 = 90;

/// Numbers from `low` on, before `high`, that have a property.
pub open spec fn tally(property: spec_fn(int) -> bool, low: int, high: int) -> int
    decreases high - low,
{
    if high <= low {
        0
    } else {
        tally(property, low, high - 1) + if property(high - 1) {
            1int
        } else {
            0
        }
    }
}

pub open spec fn within(start: u32, end: u32, x: int) -> bool {
    start <= x < end
}

/// The pixel is yellow.
pub open spec fn is_yellow(yellow: Seq<bool>, width: int, x: int, y: int) -> bool {
    yellow[y * width + x]
}

/// The pixel is dark.
pub open spec fn is_dark(image: Frame, x: int, y: int) -> bool {
    let pixel = image.pixel(x, y);
    luma(pixel.r as int, pixel.g as int, pixel.b as int) <= 90
}

/// The counts are those of a row of pixels up to `end`, and others.
pub open spec fn counts_row(
    counts: BoosterCounts,
    others: BoosterCounts,
    image: Frame,
    yellow: Seq<bool>,
    row: BoosterRow,
    y: int,
    end: int,
) -> bool {
    let width = image.spec_width() as int;
    let start = row.content_start as int;
    &&& counts.content == others.content + (end - start)
    &&& counts.yellow == others.yellow + tally(|x: int| is_yellow(yellow, width, x, y), start, end)
    &&& counts.ring == others.ring + tally(
        |x: int| !within(row.inner_start, row.inner_end, x),
        start,
        end,
    )
    &&& counts.ring_yellow == others.ring_yellow + tally(
        |x: int| !within(row.inner_start, row.inner_end, x) && is_yellow(yellow, width, x, y),
        start,
        end,
    )
    &&& counts.core == others.core + tally(
        |x: int| within(row.core_start, row.core_end, x),
        start,
        end,
    )
    &&& counts.core_dark == others.core_dark + tally(
        |x: int| within(row.core_start, row.core_end, x) && is_dark(image, x, y),
        start,
        end,
    )
}

/// A row of pixels lies inside the image.
pub open spec fn row_fits(image: Frame, row: BoosterRow) -> bool {
    row.content_start <= row.content_end <= image.spec_width()
}

/// None of the counts is above `most`.
pub open spec fn counts_within(counts: BoosterCounts, most: int) -> bool {
    counts.content <= most && counts.yellow <= most && counts.ring <= most && counts.ring_yellow
        <= most && counts.core <= most && counts.core_dark <= most
}

fn count_row(
    counts: BoosterCounts,
    image: &Frame,
    yellow: &Vec<bool>,
    row: BoosterRow,
    y: u32,
) -> (counted: BoosterCounts)
    requires
        row_fits(*image, row),
        y < image.spec_height(),
        yellow@.len() == image.spec_width() as int * image.spec_height() as int,
        counts_within(counts, u32::MAX - image.spec_width()),
    ensures
        counts_row(
            counted,
            counts,
            *image,
            yellow@,
            row,
            y as int,
            row.content_end as int,
        ),
        forall|most: int|
            counts_within(counts, most) ==> #[trigger] counts_within(
                counted,
                most + image.spec_width(),
            ),
{
    let width = image.width();
    let mut counted = counts;
    let mut x: u32 = row.content_start;
    while x < row.content_end
        invariant
            row_fits(*image, row),
            width == image.spec_width(),
            row.content_start <= x <= row.content_end,
            y < image.spec_height(),
            yellow@.len() == image.spec_width() as int * image.spec_height() as int,
            yellow@.len() == yellow.len(),
            counts_within(counts, u32::MAX - width),
            counts_row(counted, counts, *image, yellow@, row, y as int, x as int),
            counted.content <= counts.content + (x - row.content_start),
            counted.yellow <= counts.yellow + (x - row.content_start),
            counted.ring <= counts.ring + (x - row.content_start),
            counted.ring_yellow <= counts.ring_yellow + (x - row.content_start),
            counted.core <= counts.core + (x - row.content_start),
            counted.core_dark <= counts.core_dark + (x - row.content_start),
        decreases row.content_end - x,
    {
        assert(yellow@.len() == yellow.len());
        assert(0 <= y as int * width as int && y as int * width as int + x < yellow@.len())
            by (nonlinear_arith)
            requires
                0 <= y < image.spec_height(),
                0 <= x < width,
                width == image.spec_width(),
                yellow@.len() == image.spec_width() as int * image.spec_height() as int,
        ;
        let pixel = image.get_pixel(x, y);
        let bright = yellow[y as usize * width as usize + x as usize];
        counted.content = counted.content + 1;
        if bright {
            counted.yellow = counted.yellow + 1;
        }
        if !(row.inner_start <= x && x < row.inner_end) {
            counted.ring = counted.ring + 1;
            if bright {
                counted.ring_yellow = counted.ring_yellow + 1;
            }
        }
        if row.core_start <= x && x < row.core_end {
            counted.core = counted.core + 1;
            if luma601_u8(pixel.r, pixel.g, pixel.b) <= MAX_CORE_LUMA {
                counted.core_dark = counted.core_dark + 1;
            }
        }
        x = x + 1;
    }
    counted
}

/// The sum over the first `count` rows of pixels below `top` of what `of_row` gives for a row and
/// its height.
pub open spec fn sum_rows(
    of_row: spec_fn(BoosterRow, int) -> int,
    top: int,
    rows: Seq<BoosterRow>,
    count: int,
) -> int
    decreases count,
{
    if count <= 0 {
        0
    } else {
        sum_rows(of_row, top, rows, count - 1) + of_row(rows[count - 1], top + count - 1)
    }
}

/// The counts of the first `count` rows of pixels below `top`.
pub open spec fn are_counts(
    counts: BoosterCounts,
    image: Frame,
    yellow: Seq<bool>,
    top: int,
    rows: Seq<BoosterRow>,
    count: int,
) -> bool {
    let width = image.spec_width() as int;
    &&& counts.content == sum_rows(
        |row: BoosterRow, y: int| row.content_end - row.content_start,
        top,
        rows,
        count,
    )
    &&& counts.yellow == sum_rows(
        |row: BoosterRow, y: int|
            tally(
                |x: int| is_yellow(yellow, width, x, y),
                row.content_start as int,
                row.content_end as int,
            ),
        top,
        rows,
        count,
    )
    &&& counts.ring == sum_rows(
        |row: BoosterRow, y: int|
            tally(
                |x: int| !within(row.inner_start, row.inner_end, x),
                row.content_start as int,
                row.content_end as int,
            ),
        top,
        rows,
        count,
    )
    &&& counts.ring_yellow == sum_rows(
        |row: BoosterRow, y: int|
            tally(
                |x: int|
                    !within(row.inner_start, row.inner_end, x) && is_yellow(yellow, width, x, y),
                row.content_start as int,
                row.content_end as int,
            ),
        top,
        rows,
        count,
    )
    &&& counts.core == sum_rows(
        |row: BoosterRow, y: int|
            tally(
                |x: int| within(row.core_start, row.core_end, x),
                row.content_start as int,
                row.content_end as int,
            ),
        top,
        rows,
        count,
    )
    &&& counts.core_dark == sum_rows(
        |row: BoosterRow, y: int|
            tally(
                |x: int| within(row.core_start, row.core_end, x) && is_dark(image, x, y),
                row.content_start as int,
                row.content_end as int,
            ),
        top,
        rows,
        count,
    )
}

/// Counts the pixels of the booster slot, whose rows lie below `top`. `yellow` says of each pixel of
/// the image, row by row, whether it is yellow.
pub fn count_booster_pixels(
    image: &Frame,
    yellow: &Vec<bool>,
    top: u32,
    rows: &Vec<BoosterRow>,
) -> (counts: BoosterCounts)
    requires
        top + rows@.len() <= image.spec_height(),
        yellow@.len() == image.spec_width() as int * image.spec_height() as int,
        (rows@.len() + 1) * image.spec_width() <= u32::MAX,
        forall|at: int| 0 <= at < rows@.len() ==> row_fits(*image, #[trigger] rows@[at]),
    ensures
        are_counts(counts, *image, yellow@, top as int, rows@, rows@.len() as int),
{
    let ghost width = image.spec_width() as int;
    let mut counts = BoosterCounts {
        content: 0,
        yellow: 0,
        ring: 0,
        ring_yellow: 0,
        core: 0,
        core_dark: 0,
    };
    let mut index: usize = 0;
    while index < rows.len()
        invariant
            index <= rows@.len(),
            width == image.spec_width(),
            top + rows@.len() <= image.spec_height(),
            yellow@.len() == image.spec_width() as int * image.spec_height() as int,
            (rows@.len() + 1) * width <= u32::MAX,
            forall|at: int| 0 <= at < rows@.len() ==> row_fits(*image, #[trigger] rows@[at]),
            are_counts(counts, *image, yellow@, top as int, rows@, index as int),
            counts_within(counts, index * width),
        decreases rows@.len() - index,
    {
        assert(index * width <= u32::MAX - width && (index + 1) * width == index * width + width)
            by (nonlinear_arith)
            requires
                0 <= index < rows@.len(),
                0 <= width,
                (rows@.len() + 1) * width <= u32::MAX,
        ;
        let y: u32 = top + index as u32;
        let ghost others = counts;
        assert(row_fits(*image, rows@[index as int]));
        counts = count_row(counts, image, yellow, rows[index], y);
        proof {
            assert(counts_within(others, index * width));
            assert(counts_within(counts, index * width + width));
        }
        index = index + 1;
    }
    counts
}

/// At least a share of the pixels is counted. The share, in units of 2 to the power of -27, and its
/// product with the number of pixels are numbers of single precision.
pub open spec fn reaches(count: int, pixels: int, share: int) -> bool {
    0x800_0000 * single(count) >= single(share * single(pixels))
}

/// The least share of yellow pixels of a booster: 0.35.
pub const MIN_YELLOW_SHARE: u32 = 0x2cc_cccc;

/// The least share of yellow pixels of the ring of a booster: 0.8.
pub const MIN_RING_YELLOW_SHARE: u32 = 0x666_6668;

/// The least share of dark pixels of the core of a booster: 0.1.
pub const MIN_CORE_DARK_SHARE: u32 = 0xcc_cccd;

fn is_reached(count: u32, pixels: u32, share: u32) -> (reached: bool)
    ensures
        reached == reaches(count as int, pixels as int, share as int),
{
    let part = round(count as i128);
    let whole = round(pixels as i128);
    assert(0 <= share * whole <= 0x1_0000_0000 * 0x2_0000_0000) by (nonlinear_arith)
        requires
            0 <= share <= 0xffff_ffff,
            0 <= whole <= 0x2_0000_0000,
    ;
    0x800_0000 * part >= round(share as i128 * whole)
}

/// A booster shows where at least 35 of 100 pixels are yellow, 80 of 100 pixels of the ring, and 10
/// of 100 pixels of the core are dark.
pub open spec fn shows_booster(counts: BoosterCounts) -> bool {
    &&& counts.content > 0
    &&& counts.ring > 0
    &&& counts.core > 0
    &&& reaches(counts.yellow as int, counts.content as int, MIN_YELLOW_SHARE as int)
    &&& reaches(counts.ring_yellow as int, counts.ring as int, MIN_RING_YELLOW_SHARE as int)
    &&& reaches(counts.core_dark as int, counts.core as int, MIN_CORE_DARK_SHARE as int)
}

/// Whether the booster slot of the loadout home is filled.
pub fn home_booster_kind(counts: BoosterCounts) -> (kind: SlotKind)
    ensures
        kind == if shows_booster(counts) {
            SlotKind::HomeBooster
        } else {
            SlotKind::HomeBoosterEmpty
        },
{
    if counts.content > 0 && counts.ring > 0 && counts.core > 0 && is_reached(
        counts.yellow,
        counts.content,
        MIN_YELLOW_SHARE,
    ) && is_reached(counts.ring_yellow, counts.ring, MIN_RING_YELLOW_SHARE) && is_reached(
        counts.core_dark,
        counts.core,
        MIN_CORE_DARK_SHARE,
    ) {
        SlotKind::HomeBooster
    } else {
        SlotKind::HomeBoosterEmpty
    }
}

/// The places in `found` are in order, and just those with a property among the first `count`.
pub open spec fn are_places(found: Seq<usize>, property: spec_fn(int) -> bool, count: int) -> bool {
    &&& forall|left: int, right: int|
        0 <= left < right < found.len() ==> #[trigger] found[left] < #[trigger] found[right]
    &&& forall|at: int|
        0 <= at < found.len() ==> 0 <= #[trigger] found[at] < count && property(found[at] as int)
    &&& forall|place: int|
        0 <= place < count && #[trigger] property(place) ==> found.contains(place as usize)
}

proof fn one_more_place(found: Seq<usize>, property: spec_fn(int) -> bool, count: int)
    requires
        0 <= count <= usize::MAX,
        are_places(found, property, count),
    ensures
        property(count) ==> are_places(found.push(count as usize), property, count + 1),
        !property(count) ==> are_places(found, property, count + 1),
{
    if property(count) {
        let more = found.push(count as usize);
        assert forall|place: int| 0 <= place < count + 1 && #[trigger] property(place) implies more
            .contains(place as usize) by {
            if place < count {
                let at = choose|at: int| 0 <= at < found.len() && found[at] == place as usize;
                assert(found.contains(place as usize));
                assert(more[at] == place as usize);
            } else {
                assert(more[found.len() as int] == count as usize);
            }
        }
    }
}

/// The peaks are all the places whose score is not zero, above the one before and not below the one
/// after.
pub proof fn peaks_are_local_maxima(scores: Seq<u32>, count: int)
    requires
        0 <= count <= scores.len() <= usize::MAX,
    ensures
        are_places(
            peaks(scores, count),
            |place: int|
                {
                    &&& scores[place] > 0
                    &&& place == 0 || scores[place - 1] < scores[place]
                    &&& place == scores.len() - 1 || scores[place + 1] <= scores[place]
                },
            count,
        ),
    decreases count,
{
    if count > 0 {
        peaks_are_local_maxima(scores, count - 1);
        one_more_place(
            peaks(scores, count - 1),
            |place: int|
                {
                    &&& scores[place] > 0
                    &&& place == 0 || scores[place - 1] < scores[place]
                    &&& place == scores.len() - 1 || scores[place + 1] <= scores[place]
                },
            count - 1,
        );
    }
}

/// The rows that count are all those whose score reaches the threshold.
pub proof fn eligible_rows_reach_the_threshold(scores: Seq<u32>, threshold: u32, count: int)
    requires
        0 <= count <= scores.len() <= usize::MAX,
    ensures
        are_places(
            reaching(scores, threshold, count),
            |place: int| threshold <= scores[place],
            count,
        ),
    decreases count,
{
    if count > 0 {
        eligible_rows_reach_the_threshold(scores, threshold, count - 1);
        one_more_place(
            reaching(scores, threshold, count - 1),
            |place: int| threshold <= scores[place],
            count - 1,
        );
    }
}

proof fn reach_stops_at_a_close_row(ys: Seq<i32>, min_gap: int, index: int, start: int)
    requires
        start <= index,
    ensures
        reach(ys, min_gap, index, start) == index || (start <= reach(ys, min_gap, index, start)
            < index && ys[index] - ys[reach(ys, min_gap, index, start)] < min_gap),
    decreases index - start,
{
    if start < index && ys[index] - ys[start] >= min_gap {
        reach_stops_at_a_close_row(ys, min_gap, index, start + 1);
    }
}

/// Of rows in order, just those can stand before a row that lie at least the gap above it.
pub proof fn the_gap_decides_what_stands_before(
    ys: Seq<i32>,
    min_gap: int,
    index: int,
    earlier: int,
)
    requires
        0 <= earlier < index < ys.len(),
        forall|i: int, j: int| 0 <= i <= j < ys.len() ==> ys[i] <= ys[j],
    ensures
        earlier < compatible(ys, min_gap, index) <==> ys[index] - ys[earlier] >= min_gap,
{
    compatible_is_bounded(ys, min_gap, index);
    compatible_is_bounded(ys, min_gap, index - 1);
    if earlier < compatible(ys, min_gap, index) {
        compatible_rows_are_apart(ys, min_gap, index, earlier);
    } else {
        let start = compatible(ys, min_gap, index - 1);
        reach_stops_at_a_close_row(ys, min_gap, index, start);
        let stop = compatible(ys, min_gap, index);
        assert(ys[stop] <= ys[earlier]);
    }
}

/// The last chosen row is the lowest that the table takes, and none of the rows below it is taken.
/// The rows before it are chosen among those that can stand before it, one fewer of them.
pub proof fn the_table_names_the_chosen_rows(
    taken: Seq<bool>,
    before: Seq<usize>,
    stride: int,
    rows: int,
    left: int,
)
    requires
        0 <= rows <= before.len() <= usize::MAX,
        0 < left,
        forall|i: int| 0 <= i < before.len() ==> #[trigger] before[i] <= i,
    ensures
        ({
            let chosen = traced(taken, before, stride, rows, left);
            let is_taken = |row: int| taken[(row + 1) * stride + left];
            &&& chosen.len() == 0 <==> forall|row: int|
                0 <= row < rows ==> !#[trigger] is_taken(row)
            &&& chosen.len() > 0 ==> {
                let last = chosen.last() as int;
                &&& 0 <= last < rows
                &&& is_taken(last)
                &&& forall|row: int| last < row < rows ==> !#[trigger] is_taken(row)
                &&& chosen.drop_last() == traced(
                    taken,
                    before,
                    stride,
                    before[last] as int,
                    left - 1,
                )
            }
        }),
    decreases rows,
{
    let is_taken = |row: int| taken[(row + 1) * stride + left];
    if rows > 0 {
        assert(is_taken(rows - 1) == taken[rows * stride + left]);
        if taken[rows * stride + left] {
            let rest = before[rows - 1] as int;
            let front = traced(taken, before, stride, rest, left - 1);
            assert(front.push((rows - 1) as usize).drop_last() =~= front);
        } else {
            the_table_names_the_chosen_rows(taken, before, stride, rows - 1, left);
        }
    }
}

/// The columns of a row that hold something, at most the four of the list.
pub open spec fn columns_of(row: ListRow) -> int {
    vstd::math::min(row.occupied_columns as int, 4)
}

/// The sum of the columns of the first `count` rows.
pub open spec fn total_columns(rows: Seq<ListRow>, count: int) -> int
    decreases count,
{
    if count <= 0 {
        0
    } else {
        columns_of(rows[count - 1]) + total_columns(rows, count - 1)
    }
}

proof fn row_has_its_cells(item_kind: ItemKind, row: ListRow, index: int, count: int)
    requires
        0 <= count <= 4,
        0 <= index <= u32::MAX,
    ensures
        row_cells(item_kind, row, index, count).len() == count,
        forall|col: int|
            0 <= col < count ==> {
                let cell = #[trigger] row_cells(item_kind, row, index, count)[col];
                &&& cell.row == index
                &&& cell.col == col
                &&& cell.kind == SlotKind::NoBoosterOption <==> item_kind == ItemKind::Booster
                    && row.tops_the_list && col == 0
                &&& cell.kind != SlotKind::NoBoosterOption ==> cell.kind.selectable_for(item_kind)
            },
    decreases count,
{
    if count > 0 {
        row_has_its_cells(item_kind, row, index, count - 1);
    }
}

/// A list has a cell just where a row has a column that holds something, one of the four of the
/// list, and there one only. Each cell can be picked but the first one of the boosters, which stands
/// for having none. There are as many cells as columns that hold something.
pub proof fn cells_fill_the_columns(item_kind: ItemKind, rows: Seq<ListRow>, count: int)
    requires
        0 <= count <= rows.len() <= u32::MAX,
    ensures
        ({
            let cells = list_cells_of(item_kind, rows, count);
            &&& cells.len() == total_columns(rows, count)
            &&& forall|at: int|
                0 <= at < cells.len() ==> {
                    let cell = #[trigger] cells[at];
                    &&& cell.row < count
                    &&& cell.col < 4
                    &&& cell.col < rows[cell.row as int].occupied_columns
                    &&& cell.kind == SlotKind::NoBoosterOption <==> item_kind == ItemKind::Booster
                        && rows[cell.row as int].tops_the_list && cell.col == 0
                    &&& cell.kind != SlotKind::NoBoosterOption ==> cell.kind.selectable_for(
                        item_kind,
                    )
                }
            &&& forall|row: int, col: int|
                0 <= row < count && 0 <= col < 4 && col < rows[row].occupied_columns
                    ==> #[trigger] has_cell(cells, row, col)
            &&& forall|left: int, right: int|
                0 <= left < right < cells.len() ==> {
                    let first = #[trigger] cells[left];
                    let second = #[trigger] cells[right];
                    first.row < second.row || (first.row == second.row && first.col < second.col)
                }
        }),
    decreases count,
{
    if count > 0 {
        cells_fill_the_columns(item_kind, rows, count - 1);
        let index = count - 1;
        let row = rows[index];
        let before = list_cells_of(item_kind, rows, index);
        let columns = used_columns(row);
        let more = row_cells(item_kind, row, index, columns);
        let cells = list_cells_of(item_kind, rows, count);
        row_has_its_cells(item_kind, row, index, columns);
        assert(cells == before + more);
        assert(forall|at: int| 0 <= at < before.len() ==> cells[at] == before[at]);
        assert(forall|at: int|
            before.len() <= at < cells.len() ==> cells[at] == more[at - before.len()]);
        assert forall|r: int, c: int|
            0 <= r < count && 0 <= c < 4 && c < rows[r].occupied_columns implies #[trigger] has_cell(
            cells,
            r,
            c,
        ) by {
            if r < index {
                assert(has_cell(before, r, c));
                let at = choose|at: int|
                    0 <= at < before.len() && (#[trigger] before[at]).row == r && before[at].col
                        == c;
                assert(cells[at].row == r && cells[at].col == c);
            } else {
                let at = before.len() + c;
                assert(cells[at] == more[c]);
                assert(cells[at].row == r && cells[at].col == c);
            }
        }
    }
}

/// There is a cell at this row and column.
pub open spec fn has_cell(cells: Seq<ListCell>, row: int, col: int) -> bool {
    exists|at: int| 0 <= at < cells.len() && (#[trigger] cells[at]).row == row && cells[at].col == col
}

/// Every number either has a property or not, and a range counts what its parts count.
pub proof fn tallies_add_up(property: spec_fn(int) -> bool, low: int, middle: int, high: int)
    requires
        low <= middle <= high,
    ensures
        tally(property, low, high) == tally(property, low, middle) + tally(property, middle, high),
        tally(property, low, high) + tally(|x: int| !property(x), low, high) == high - low,
        0 <= tally(property, low, high),
        (forall|x: int| low <= x < high ==> #[trigger] property(x)) ==> tally(property, low, high)
            == high - low,
        (forall|x: int| low <= x < high ==> !#[trigger] property(x)) ==> tally(property, low, high)
            == 0,
    decreases high - low,
{
    if low < high {
        if middle < high {
            tallies_add_up(property, low, middle, high - 1);
        } else {
            tallies_add_up(property, low, high - 1, high - 1);
        }
        let last = high - 1;
        let other = |x: int| !property(x);
        assert(other(last) == !property(last));
    }
}

/// A gray pixel is dark up to a brightness of 90. Of the colors green counts most and blue least.
pub proof fn dark_pixels_are_dim(image: Frame, x: int, y: int)
    ensures
        ({
            let pixel = image.pixel(x, y);
            &&& pixel.r == pixel.g && pixel.g == pixel.b ==> (is_dark(image, x, y) <==> pixel.r
                <= 90)
            &&& is_dark(image, x, y) <==> 77 * pixel.r + 150 * pixel.g + 29 * pixel.b < 23168
        }),
{
}

/// The highest score is not exceeded, and is the first of its kind.
pub proof fn highest_scores_are_not_exceeded(scores: Seq<u32>, index: int, other: int)
    requires
        is_highest(scores, index),
        0 <= other < scores.len(),
    ensures
        scores[other] <= scores[index],
        scores[other] == scores[index] ==> index <= other,
        is_highest(scores, other) ==> other == index,
{
    assert(scores[other] <= scores[index]);
    if is_highest(scores, other) && other != index {
        assert(scores[index] <= scores[other]);
    }
}

proof fn shares_are_reached(count: int, pixels: int, share: int, percent: int)
    requires
        0 <= count <= pixels < 0x1_0000,
        0 < pixels,
        0 < percent <= 100,
        -400 <= 100 * share - 0x800_0000 * percent <= 400,
    ensures
        reaches(count, pixels, share) ==> 100 * count >= percent * pixels,
        100 * count > percent * pixels ==> reaches(count, pixels, share),
{
    small_numbers_are_kept(count);
    small_numbers_are_kept(pixels);
    let product = share * pixels;
    assert(0 <= product && 100 * product <= 0x800_0000 * (percent * pixels) + 400 * pixels && 100
        * product >= 0x800_0000 * (percent * pixels) - 400 * pixels) by (nonlinear_arith)
        requires
            product == share * pixels,
            0 < pixels,
            0 < percent <= 100,
            -400 <= 100 * share - 0x800_0000 * percent <= 400,
    ;
    assert(percent * pixels <= 100 * pixels) by (nonlinear_arith)
        requires
            percent <= 100,
            0 < pixels,
    ;
    rounding_is_close(product);
}

/// A booster shows where at least 35 of 100 pixels are yellow, 80 of 100 of those of the ring, and
/// 10 of 100 of those of the core are dark.
pub proof fn boosters_are_told_by_their_shares(counts: BoosterCounts)
    requires
        counts.yellow <= counts.content < 0x1_0000,
        counts.ring_yellow <= counts.ring < 0x1_0000,
        counts.core_dark <= counts.core < 0x1_0000,
        0 < counts.content,
        0 < counts.ring,
        0 < counts.core,
    ensures
        shows_booster(counts) ==> 100 * counts.yellow >= 35 * counts.content && 100
            * counts.ring_yellow >= 80 * counts.ring && 100 * counts.core_dark >= 10 * counts.core,
        100 * counts.yellow > 35 * counts.content && 100 * counts.ring_yellow > 80 * counts.ring
            && 100 * counts.core_dark > 10 * counts.core ==> shows_booster(counts),
{
    shares_are_reached(
        counts.yellow as int,
        counts.content as int,
        MIN_YELLOW_SHARE as int,
        35,
    );
    shares_are_reached(
        counts.ring_yellow as int,
        counts.ring as int,
        MIN_RING_YELLOW_SHARE as int,
        80,
    );
    shares_are_reached(
        counts.core_dark as int,
        counts.core as int,
        MIN_CORE_DARK_SHARE as int,
        10,
    );
}

/// Each of four values is counted once, whichever place it has.
pub proof fn each_value_is_counted_once(values: [u32; 4], value: u32, at: int)
    requires
        0 <= at < 4,
    ensures
        (forall|other: int| 0 <= other < 4 ==> (#[trigger] values[other] > value <==> other == at))
            ==> count_above(values, value) == 1,
        (forall|other: int| 0 <= other < 4 ==> (#[trigger] values[other] >= value <==> other == at))
            ==> count_from(values, value) == 1,
        (forall|other: int| 0 <= other < 4 ==> (#[trigger] values[other] > value <==> other != at))
            ==> count_above(values, value) == 3,
        (forall|other: int| 0 <= other < 4 ==> (#[trigger] values[other] >= value <==> other != at))
            ==> count_from(values, value) == 3,
        (forall|other: int| 0 <= other < 4 ==> #[trigger] values[other] == value) ==> count_above(
            values,
            value,
        ) == 0 && count_from(values, value) == 4,
{
    assert(at == 0 || at == 1 || at == 2 || at == 3);
}

} // verus!
