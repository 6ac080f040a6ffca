//! A temporary map of the list: where each recognized item stands in rows and columns.
use vstd::hash_map::StringHashMap;
use vstd::prelude::*;
use vstd::string::*;

use crate::item::ItemKind;
use crate::vision::{RoiObservation, Slot};

use super::scroll::ScrollDirection;

verus! {

/// A place in the list. Row zero is the top row of the page that the map started from.
#[derive(Clone, Copy, Debug, PartialEq, Eq, Structural)]
pub struct GridPosition {
    pub row: i128,
    pub col: u32,
}

/// What to do to bring an item into view.
#[derive(Clone, Copy, Debug, PartialEq, Eq, Structural)]
pub enum NavigationHint {
    /// The item lies outside the page in this direction, or is unknown.
    Scroll(ScrollDirection),
    /// The item is mapped to the outermost visible row of this side.
    Recenter(ScrollDirection),
    /// The item is mapped to the inside of the page.
    ExpectedVisible,
}

/// The items met so far, and the list row that the top row of the current page stands for.
pub struct ListMap {
    row_base: i128,
    items: StringHashMap<GridPosition>,
    moves: Ghost<nat>,
}

/// How often a map can be moved before a row number could leave its range.
pub open spec fn max_moves() -> nat {
    0x1_0000_0000_0000_0000_0000
}

/// The map after the recognized items of `slots` were entered at `row_base`, a later slot
/// replacing an earlier one with the same item.
pub open spec fn recorded(
    items: Map<Seq<char>, GridPosition>,
    row_base: int,
    slots: Seq<Slot>,
    item_kind: ItemKind,
) -> Map<Seq<char>, GridPosition>
    decreases slots.len(),
{
    if slots.len() == 0 {
        items
    } else {
        let before = recorded(items, row_base, slots.drop_last(), item_kind);
        let slot = slots.last();
        if slot.kind.selectable_for(item_kind) && slot.item() is Some {
            before.insert(
                slot.item()->0,
                GridPosition { row: (row_base + slot.row) as i128, col: slot.col },
            )
        } else {
            before
        }
    }
}

/// The rows that a mapped item in its mapped column puts the top of the page at, slot by slot.
pub open spec fn alignments(
    items: Map<Seq<char>, GridPosition>,
    slots: Seq<Slot>,
    item_kind: ItemKind,
) -> Seq<int>
    decreases slots.len(),
{
    if slots.len() == 0 {
        Seq::empty()
    } else {
        let before = alignments(items, slots.drop_last(), item_kind);
        let slot = slots.last();
        if slot.kind.selectable_for(item_kind) && slot.item() is Some && items.contains_key(
            slot.item()->0,
        ) && items[slot.item()->0].col == slot.col {
            before.push(items[slot.item()->0].row - slot.row)
        } else {
            before
        }
    }
}

/// How often `value` occurs.
pub open spec fn occurrences(values: Seq<int>, value: int) -> nat
    decreases values.len(),
{
    if values.len() == 0 {
        0
    } else {
        occurrences(values.drop_last(), value) + if values.last() == value {
            1nat
        } else {
            0nat
        }
    }
}

/// Among the first `count` values, the one at `index` occurs most often in all of `values`, and
/// no later one of them occurs as often.
pub open spec fn leads(values: Seq<int>, count: int, index: int) -> bool {
    &&& 0 <= index < count
    &&& forall|other: int|
        0 <= other < count ==> if other <= index {
            occurrences(values, #[trigger] values[other]) <= occurrences(values, values[index])
        } else {
            occurrences(values, values[other]) < occurrences(values, values[index])
        }
}

/// The value that occurs most often, the last one met of several.
pub open spec fn dominant(values: Seq<int>) -> int {
    values[choose|index: int| leads(values, values.len() as int, index)]
}

proof fn dominant_is_at(values: Seq<int>, index: int)
    requires
        leads(values, values.len() as int, index),
    ensures
        dominant(values) == values[index],
{
    let other = choose|i: int| leads(values, values.len() as int, i);
    assert(occurrences(values, values[other]) <= occurrences(values, values[index]));
}

/// The first and the last row of the selectable slots.
pub open spec fn row_range(slots: Seq<Slot>, item_kind: ItemKind) -> Option<(int, int)>
    decreases slots.len(),
{
    if slots.len() == 0 {
        None
    } else {
        let before = row_range(slots.drop_last(), item_kind);
        let row = slots.last().row as int;
        if !slots.last().kind.selectable_for(item_kind) {
            before
        } else {
            match before {
                None => Some((row, row)),
                Some((low, high)) => Some(
                    (
                        if row < low {
                            row
                        } else {
                            low
                        },
                        if row > high {
                            row
                        } else {
                            high
                        },
                    ),
                ),
            }
        }
    }
}

/// What the map advises for `item_id` while `slots` are visible.
pub open spec fn hint_for(
    items: Map<Seq<char>, GridPosition>,
    row_base: int,
    item_id: Seq<char>,
    slots: Seq<Slot>,
    item_kind: ItemKind,
) -> NavigationHint {
    if !items.contains_key(item_id) {
        NavigationHint::Scroll(ScrollDirection::Down)
    } else {
        let row = items[item_id].row;
        match row_range(slots, item_kind) {
            None => NavigationHint::ExpectedVisible,
            Some((low, high)) => if row < row_base + low {
                NavigationHint::Scroll(ScrollDirection::Up)
            } else if row > row_base + high {
                NavigationHint::Scroll(ScrollDirection::Down)
            } else if low != high && row == row_base + low {
                NavigationHint::Recenter(ScrollDirection::Up)
            } else if low != high && row == row_base + high {
                NavigationHint::Recenter(ScrollDirection::Down)
            } else {
                NavigationHint::ExpectedVisible
            },
        }
    }
}

/// The row of the top of the page after a turn in `direction` to a page that shares no mapped
/// item with the map: the new rows follow the old ones without a gap.
pub open spec fn extended_base(
    row_base: int,
    previous: Seq<Slot>,
    current: Seq<Slot>,
    item_kind: ItemKind,
    direction: ScrollDirection,
) -> Option<int> {
    match (row_range(previous, item_kind), row_range(current, item_kind)) {
        (Some((previous_low, previous_high)), Some((current_low, current_high))) => Some(
            match direction {
                ScrollDirection::Down => row_base + previous_high + 1 - current_low,
                ScrollDirection::Up => row_base + previous_low - 1 - current_high,
            },
        ),
        _ => None,
    }
}

pub open spec fn row_limit(moves: nat) -> int {
    moves as int * 0x1_0000_0000
}

pub open spec fn rows_within(
    items: Map<Seq<char>, GridPosition>,
    row_base: int,
    moves: nat,
) -> bool {
    &&& -row_limit(moves) <= row_base <= row_limit(moves)
    &&& forall|item_id: Seq<char>| #[trigger]
        items.contains_key(item_id) ==> -row_limit(moves) <= items[item_id].row < row_limit(moves)
            + 0x1_0000_0000
}

proof fn recorded_within(
    items: Map<Seq<char>, GridPosition>,
    row_base: int,
    slots: Seq<Slot>,
    item_kind: ItemKind,
    moves: nat,
)
    requires
        rows_within(items, row_base, moves),
        moves <= max_moves(),
    ensures
        rows_within(recorded(items, row_base, slots, item_kind), row_base, moves),
    decreases slots.len(),
{
    if slots.len() > 0 {
        recorded_within(items, row_base, slots.drop_last(), item_kind, moves);
    }
}

proof fn alignments_within(
    items: Map<Seq<char>, GridPosition>,
    row_base: int,
    slots: Seq<Slot>,
    item_kind: ItemKind,
    moves: nat,
)
    requires
        rows_within(items, row_base, moves),
    ensures
        forall|index: int|
            0 <= index < alignments(items, slots, item_kind).len() ==> -row_limit(moves + 1)
                <= #[trigger] alignments(items, slots, item_kind)[index] <= row_limit(moves + 1),
    decreases slots.len(),
{
    if slots.len() > 0 {
        alignments_within(items, row_base, slots.drop_last(), item_kind, moves);
        let before = alignments(items, slots.drop_last(), item_kind);
        let all = alignments(items, slots, item_kind);
        assert forall|index: int| 0 <= index < all.len() implies -row_limit(moves + 1)
            <= #[trigger] all[index] <= row_limit(moves + 1) by {
            if index < before.len() {
                assert(all[index] == before[index]);
            } else {
                assert(items.contains_key(slots.last().item()->0));
            }
        }
    }
}

proof fn row_range_within(slots: Seq<Slot>, item_kind: ItemKind)
    ensures
        row_range(slots, item_kind) matches Some((low, high)) ==> 0 <= low <= high <= u32::MAX,
    decreases slots.len(),
{
    if slots.len() > 0 {
        row_range_within(slots.drop_last(), item_kind);
    }
}

fn count_value(values: &Vec<i128>, value: i128) -> (count: usize)
    ensures
        count == occurrences(values@.map_values(|v: i128| v as int), value as int),
{
    let ghost all = values@.map_values(|v: i128| v as int);
    let mut count: usize = 0;
    let mut index: usize = 0;
    while index < values.len()
        invariant
            index <= values.len(),
            all == values@.map_values(|v: i128| v as int),
            count <= index,
            count == occurrences(all.take(index as int), value as int),
        decreases values.len() - index,
    {
        assert(all.take(index + 1).drop_last() =~= all.take(index as int));
        if values[index] == value {
            count = count + 1;
        }
        index = index + 1;
    }
    assert(all.take(all.len() as int) =~= all);
    count
}

/// The value that occurs most often, the last one met of several; nothing for no values.
pub fn dominant_value(values: &Vec<i128>) -> (value: Option<i128>)
    ensures
        match value {
            Some(found) => values@.len() > 0 && found == dominant(
                values@.map_values(|v: i128| v as int),
            ),
            None => values@.len() == 0,
        },
{
    let ghost all = values@.map_values(|v: i128| v as int);
    if values.len() == 0 {
        return None;
    }
    let mut best: usize = 0;
    let mut best_count: usize = count_value(values, values[0]);
    let mut index: usize = 1;
    while index < values.len()
        invariant
            1 <= index <= values.len(),
            best < index,
            all == values@.map_values(|v: i128| v as int),
            best_count == occurrences(all, all[best as int]),
            forall|other: int|
                0 <= other < index ==> if other <= best {
                    occurrences(all, #[trigger] all[other]) <= best_count
                } else {
                    occurrences(all, all[other]) < best_count
                },
        decreases values.len() - index,
    {
        let count: usize = count_value(values, values[index]);
        if count >= best_count {
            best = index;
            best_count = count;
        }
        index = index + 1;
    }
    proof {
        assert(leads(all, all.len() as int, best as int));
        dominant_is_at(all, best as int);
    }
    Some(values[best])
}

/// The first and the last row of the selectable slots of a page.
pub fn local_row_range(page: &RoiObservation, item_kind: ItemKind) -> (range: Option<(u32, u32)>)
    ensures
        match range {
            Some((low, high)) => row_range(page.slots@, item_kind) == Some(
                (low as int, high as int),
            ),
            None => row_range(page.slots@, item_kind) is None,
        },
{
    let ghost slots = page.slots@;
    let mut range: Option<(u32, u32)> = None;
    let mut index: usize = 0;
    while index < page.slots.len()
        invariant
            index <= page.slots.len(),
            slots == page.slots@,
            match range {
                Some((low, high)) => row_range(slots.take(index as int), item_kind) == Some(
                    (low as int, high as int),
                ),
                None => row_range(slots.take(index as int), item_kind) is None,
            },
        decreases page.slots.len() - index,
    {
        assert(slots.take(index + 1).drop_last() =~= slots.take(index as int));
        let row: u32 = page.slots[index].row;
        if page.slots[index].kind.is_selectable_item_for(item_kind) {
            range = match range {
                None => Some((row, row)),
                Some((low, high)) => Some(
                    (
                        if row < low {
                            row
                        } else {
                            low
                        },
                        if row > high {
                            row
                        } else {
                            high
                        },
                    ),
                ),
            };
        }
        index = index + 1;
    }
    assert(slots.take(slots.len() as int) =~= slots);
    range
}

impl ListMap {
    /// The mapped items.
    pub closed spec fn items(&self) -> Map<Seq<char>, GridPosition> {
        self.items@
    }

    /// The row that the top of the current page stands for.
    pub closed spec fn base(&self) -> int {
        self.row_base as int
    }

    /// How often the map was moved.
    pub closed spec fn moves(&self) -> nat {
        self.moves@
    }

    /// Every row number is in range.
    pub open spec fn wf(&self) -> bool {
        rows_within(self.items(), self.base(), self.moves())
    }

    pub fn new(page: &RoiObservation, item_kind: ItemKind) -> (map: Self)
        ensures
            map.wf(),
            map.moves() == 0,
            map.base() == 0,
            map.items() == recorded(Map::empty(), 0, page.slots@, item_kind),
    {
        let mut map = ListMap { row_base: 0, items: StringHashMap::new(), moves: Ghost(0) };
        map.record_current(page, item_kind);
        map
    }

    /// Enters the recognized items of the current page.
    pub fn record_current(&mut self, page: &RoiObservation, item_kind: ItemKind)
        requires
            old(self).wf(),
            old(self).moves() <= max_moves(),
        ensures
            final(self).wf(),
            final(self).moves() == old(self).moves(),
            final(self).base() == old(self).base(),
            final(self).items() == recorded(
                old(self).items(),
                old(self).base(),
                page.slots@,
                item_kind,
            ),
    {
        let ghost slots = page.slots@;
        let ghost start = self.items();
        let ghost base = self.base();
        let mut index: usize = 0;
        while index < page.slots.len()
            invariant
                index <= page.slots.len(),
                slots == page.slots@,
                base == old(self).base(),
                self.base() == base,
                self.moves() == old(self).moves(),
                -row_limit(max_moves()) <= base <= row_limit(max_moves()),
                start == old(self).items(),
                self.items() == recorded(start, base, slots.take(index as int), item_kind),
            decreases page.slots.len() - index,
        {
            assert(slots.take(index + 1).drop_last() =~= slots.take(index as int));
            let slot = &page.slots[index];
            if slot.kind.is_selectable_item_for(item_kind) {
                if let Some(classification) = &slot.classification {
                    let row: i128 = self.row_base + slot.row as i128;
                    self.items.insert(
                        classification.item_id.clone(),
                        GridPosition { row, col: slot.col },
                    );
                }
            }
            index = index + 1;
        }
        assert(slots.take(slots.len() as int) =~= slots);
        proof {
            recorded_within(start, base, slots, item_kind, self.moves());
        }
    }

    /// Moves the map to where the mapped items of `page` agree it is, if any of them is visible
    /// in its mapped column, and enters the items of `page` there.
    pub fn relocalize(&mut self, page: &RoiObservation, item_kind: ItemKind) -> (found: bool)
        requires
            old(self).wf(),
            old(self).moves() < max_moves(),
        ensures
            final(self).wf(),
            found == (alignments(old(self).items(), page.slots@, item_kind).len() > 0),
            found ==> {
                let base = dominant(alignments(old(self).items(), page.slots@, item_kind));
                &&& final(self).base() == base
                &&& final(self).moves() == old(self).moves() + 1
                &&& final(self).items() == recorded(
                    old(self).items(),
                    base,
                    page.slots@,
                    item_kind,
                )
            },
            !found ==> final(self).base() == old(self).base() && final(self).items()
                == old(self).items() && final(self).moves() == old(self).moves(),
    {
        let ghost slots = page.slots@;
        let ghost items = self.items();
        let ghost all = alignments(items, slots, item_kind);
        proof {
            alignments_within(items, self.base(), slots, item_kind, self.moves());
        }
        let mut candidates: Vec<i128> = Vec::new();
        let mut index: usize = 0;
        while index < page.slots.len()
            invariant
                index <= page.slots.len(),
                slots == page.slots@,
                items == self.items(),
                rows_within(items, self.base(), self.moves()),
                self.moves() < max_moves(),
                candidates@.map_values(|v: i128| v as int) == alignments(
                    items,
                    slots.take(index as int),
                    item_kind,
                ),
            decreases page.slots.len() - index,
        {
            assert(slots.take(index + 1).drop_last() =~= slots.take(index as int));
            let slot = &page.slots[index];
            if slot.kind.is_selectable_item_for(item_kind) {
                if let Some(classification) = &slot.classification {
                    if let Some(mapped) = self.items.get(classification.item_id.as_str()) {
                        if mapped.col == slot.col {
                            let ghost before = candidates@;
                            let aligned: i128 = mapped.row - slot.row as i128;
                            candidates.push(aligned);
                            assert(candidates@.map_values(|v: i128| v as int)
                                =~= before.map_values(|v: i128| v as int).push(aligned as int));
                        }
                    }
                }
            }
            index = index + 1;
        }
        assert(slots.take(slots.len() as int) =~= slots);
        match dominant_value(&candidates) {
            None => false,
            Some(row_base) => {
                proof {
                    dominant_exists(all, all.len() as int);
                    let at = choose|i: int| leads(all, all.len() as int, i);
                    dominant_is_at(all, at);
                    assert(all[at] == row_base);
                }
                self.row_base = row_base;
                self.moves = Ghost((self.moves@ + 1) as nat);
                self.record_current(page, item_kind);
                true
            },
        }
    }

    /// Moves the map after a page turn: by shared items if there are any, otherwise as if the
    /// new rows followed the old ones.
    pub fn advance(
        &mut self,
        previous: &RoiObservation,
        current: &RoiObservation,
        item_kind: ItemKind,
        direction: ScrollDirection,
    )
        requires
            old(self).wf(),
            old(self).moves() < max_moves(),
        ensures
            final(self).wf(),
            final(self).moves() <= old(self).moves() + 1,
            ({
                let shared = alignments(old(self).items(), current.slots@, item_kind);
                let extended = extended_base(
                    old(self).base(),
                    previous.slots@,
                    current.slots@,
                    item_kind,
                    direction,
                );
                if shared.len() > 0 {
                    &&& final(self).base() == dominant(shared)
                    &&& final(self).items() == recorded(
                        old(self).items(),
                        dominant(shared),
                        current.slots@,
                        item_kind,
                    )
                } else if extended is Some {
                    &&& final(self).base() == extended->0
                    &&& final(self).items() == recorded(
                        old(self).items(),
                        extended->0,
                        current.slots@,
                        item_kind,
                    )
                } else {
                    &&& final(self).base() == old(self).base()
                    &&& final(self).items() == old(self).items()
                }
            }),
    {
        if self.relocalize(current, item_kind) {
            return;
        }
        proof {
            row_range_within(previous.slots@, item_kind);
            row_range_within(current.slots@, item_kind);
        }
        let (previous_low, previous_high) = match local_row_range(previous, item_kind) {
            Some(range) => range,
            None => return,
        };
        let (current_low, current_high) = match local_row_range(current, item_kind) {
            Some(range) => range,
            None => return,
        };
        self.row_base = match direction {
            ScrollDirection::Down => self.row_base + previous_high as i128 + 1 - current_low as i128,
            ScrollDirection::Up => self.row_base + previous_low as i128 - 1 - current_high as i128,
        };
        self.moves = Ghost((self.moves@ + 1) as nat);
        self.record_current(current, item_kind);
    }

    /// What to do to bring `item_id` into view.
    pub fn navigation_hint(
        &self,
        item_id: &String,
        page: &RoiObservation,
        item_kind: ItemKind,
    ) -> (hint: NavigationHint)
        requires
            self.wf(),
            self.moves() <= max_moves(),
        ensures
            hint == hint_for(self.items(), self.base(), item_id@, page.slots@, item_kind),
    {
        let target: GridPosition = match self.items.get(item_id.as_str()) {
            Some(position) => *position,
            None => return NavigationHint::Scroll(ScrollDirection::Down),
        };
        let (low, high) = match local_row_range(page, item_kind) {
            Some(range) => range,
            None => return NavigationHint::ExpectedVisible,
        };
        let visible_min: i128 = self.row_base + low as i128;
        let visible_max: i128 = self.row_base + high as i128;
        if target.row < visible_min {
            NavigationHint::Scroll(ScrollDirection::Up)
        } else if target.row > visible_max {
            NavigationHint::Scroll(ScrollDirection::Down)
        } else if low != high && target.row == visible_min {
            NavigationHint::Recenter(ScrollDirection::Up)
        } else if low != high && target.row == visible_max {
            NavigationHint::Recenter(ScrollDirection::Down)
        } else {
            NavigationHint::ExpectedVisible
        }
    }
}

proof fn dominant_exists(values: Seq<int>, count: int)
    requires
        0 < count <= values.len(),
    ensures
        exists|index: int| leads(values, count, index),
    decreases count,
{
    if count == 1 {
        assert(leads(values, 1, 0));
    } else {
        let last = count - 1;
        dominant_exists(values, last);
        let index = choose|i: int| leads(values, last, i);
        if occurrences(values, values[last]) >= occurrences(values, values[index]) {
            assert(leads(values, count, last));
        } else {
            assert(leads(values, count, index));
        }
    }
}

/// An item recognized on a recorded page is mapped afterwards, to the row and column where its
/// last recognition on the page stood.
pub proof fn recorded_items_are_mapped(
    items: Map<Seq<char>, GridPosition>,
    row_base: int,
    slots: Seq<Slot>,
    item_kind: ItemKind,
    index: int,
)
    requires
        0 <= index < slots.len(),
        slots[index].kind.selectable_for(item_kind),
        slots[index].item() is Some,
        forall|later: int|
            index < later < slots.len() ==> !(#[trigger] slots[later]).shows(
                slots[index].item()->0,
                item_kind,
            ),
    ensures
        recorded(items, row_base, slots, item_kind).contains_key(slots[index].item()->0),
        recorded(items, row_base, slots, item_kind)[slots[index].item()->0] == (GridPosition {
            row: (row_base + slots[index].row) as i128,
            col: slots[index].col,
        }),
    decreases slots.len(),
{
    let front = slots.drop_last();
    if index < front.len() {
        assert(front[index] == slots[index]);
        assert forall|later: int| index < later < front.len() implies !(
        #[trigger] front[later]).shows(front[index].item()->0, item_kind) by {
            assert(!slots[later].shows(slots[index].item()->0, item_kind));
        }
        recorded_items_are_mapped(items, row_base, front, item_kind, index);
        assert(!slots[slots.len() - 1].shows(slots[index].item()->0, item_kind));
    }
}

/// Items that are not recognized on a recorded page keep their place in the map.
pub proof fn recording_keeps_other_items(
    items: Map<Seq<char>, GridPosition>,
    row_base: int,
    slots: Seq<Slot>,
    item_kind: ItemKind,
    item_id: Seq<char>,
)
    requires
        forall|index: int|
            0 <= index < slots.len() ==> !(#[trigger] slots[index]).shows(item_id, item_kind),
    ensures
        recorded(items, row_base, slots, item_kind).contains_key(item_id) == items.contains_key(
            item_id,
        ),
        items.contains_key(item_id) ==> recorded(items, row_base, slots, item_kind)[item_id]
            == items[item_id],
    decreases slots.len(),
{
    if slots.len() > 0 {
        assert forall|index: int| 0 <= index < slots.drop_last().len() implies !(
        #[trigger] slots.drop_last()[index]).shows(item_id, item_kind) by {
            assert(!slots[index].shows(item_id, item_kind));
        }
        recording_keeps_other_items(items, row_base, slots.drop_last(), item_kind, item_id);
        assert(!slots[slots.len() - 1].shows(item_id, item_kind));
    }
}

/// The rows of the selectable slots lie within their range, both ends of which are such rows.
/// Without a selectable slot there is no range.
pub proof fn rows_span_their_range(slots: Seq<Slot>, item_kind: ItemKind)
    ensures
        row_range(slots, item_kind) is None <==> forall|index: int|
            0 <= index < slots.len() ==> !(#[trigger] slots[index]).kind.selectable_for(item_kind),
        row_range(slots, item_kind) matches Some((low, high)) ==> {
            &&& forall|index: int|
                0 <= index < slots.len() && (#[trigger] slots[index]).kind.selectable_for(item_kind)
                    ==> low <= slots[index].row <= high
            &&& exists|index: int|
                0 <= index < slots.len() && (#[trigger] slots[index]).kind.selectable_for(item_kind)
                    && slots[index].row == low
            &&& exists|index: int|
                0 <= index < slots.len() && (#[trigger] slots[index]).kind.selectable_for(item_kind)
                    && slots[index].row == high
        },
    decreases slots.len(),
{
    if slots.len() > 0 {
        let front = slots.drop_last();
        let last = slots.len() - 1;
        rows_span_their_range(front, item_kind);
        assert(forall|index: int| 0 <= index < front.len() ==> front[index] == slots[index]);
        if let Some((low, high)) = row_range(front, item_kind) {
            let first = choose|index: int|
                0 <= index < front.len() && (#[trigger] front[index]).kind.selectable_for(item_kind)
                    && front[index].row == low;
            let second = choose|index: int|
                0 <= index < front.len() && (#[trigger] front[index]).kind.selectable_for(item_kind)
                    && front[index].row == high;
            assert(slots[first].kind.selectable_for(item_kind) && slots[first].row == low);
            assert(slots[second].kind.selectable_for(item_kind) && slots[second].row == high);
        } else if slots[last].kind.selectable_for(item_kind) {
            assert(slots[last].row == slots.last().row);
        }
        assert forall|index: int| 0 <= index < slots.len() && (
        #[trigger] slots[index]).kind.selectable_for(item_kind) implies row_range(
            slots,
            item_kind,
        ) is Some by {
            if index < last {
                assert(front[index].kind.selectable_for(item_kind));
            }
        }
    }
}

/// A visible selectable slot stands for this row of the list.
pub open spec fn is_visible_row(
    row_base: int,
    slots: Seq<Slot>,
    item_kind: ItemKind,
    row: int,
) -> bool {
    exists|index: int|
        0 <= index < slots.len() && (#[trigger] slots[index]).kind.selectable_for(item_kind)
            && row_base + slots[index].row == row
}

/// A hint leads towards the item: down where it is mapped below every visible row, up where it is
/// mapped above every visible row, and nowhere else. A mapped item at the outermost of several
/// visible rows is to be brought inside from that side. An unknown item is looked for further down.
pub proof fn hints_lead_towards_the_item(
    items: Map<Seq<char>, GridPosition>,
    row_base: int,
    item_id: Seq<char>,
    slots: Seq<Slot>,
    item_kind: ItemKind,
)
    ensures
        ({
            let hint = hint_for(items, row_base, item_id, slots, item_kind);
            let visible = |row: int| is_visible_row(row_base, slots, item_kind, row);
            let row = items[item_id].row as int;
            let below_all = forall|other: int| #[trigger] visible(other) ==> other < row;
            let above_all = forall|other: int| #[trigger] visible(other) ==> row < other;
            let any = exists|other: int| #[trigger] visible(other);
            let lower = exists|other: int| #[trigger] visible(other) && other > row;
            let upper = exists|other: int| #[trigger] visible(other) && other < row;
            &&& !items.contains_key(item_id) ==> hint == NavigationHint::Scroll(
                ScrollDirection::Down,
            )
            &&& items.contains_key(item_id) && !any ==> hint == NavigationHint::ExpectedVisible
            &&& items.contains_key(item_id) && any ==> {
                &&& hint == NavigationHint::Scroll(ScrollDirection::Down) <==> below_all
                &&& hint == NavigationHint::Scroll(ScrollDirection::Up) <==> above_all
                &&& hint == NavigationHint::Recenter(ScrollDirection::Up) <==> visible(row) && lower
                    && !upper
                &&& hint == NavigationHint::Recenter(ScrollDirection::Down) <==> visible(row)
                    && upper && !lower
                &&& hint == NavigationHint::ExpectedVisible <==> (upper && lower) || (visible(row)
                    && !upper && !lower)
            }
        }),
{
    rows_span_their_range(slots, item_kind);
    let visible = |row: int| is_visible_row(row_base, slots, item_kind, row);
    if let Some((low, high)) = row_range(slots, item_kind) {
        assert(visible(row_base + low));
        assert(visible(row_base + high));
        assert forall|row: int| #[trigger] visible(row) implies row_base + low <= row <= row_base
            + high by {
            let index = choose|index: int|
                0 <= index < slots.len() && (#[trigger] slots[index]).kind.selectable_for(item_kind)
                    && row_base + slots[index].row == row;
            assert(low <= slots[index].row <= high);
        }
    } else {
        assert forall|row: int| !#[trigger] visible(row) by {
            if visible(row) {
                let index = choose|index: int|
                    0 <= index < slots.len() && (#[trigger] slots[index]).kind.selectable_for(
                        item_kind,
                    ) && row_base + slots[index].row == row;
                assert(slots[index].kind.selectable_for(item_kind));
            }
        }
    }
}

/// An item is so many rows away from the nearest visible row.
pub open spec fn is_rows_away(
    row_base: int,
    slots: Seq<Slot>,
    item_kind: ItemKind,
    row: int,
    away: int,
) -> bool {
    &&& is_visible_row(row_base, slots, item_kind, row + away) || is_visible_row(
        row_base,
        slots,
        item_kind,
        row - away,
    )
    &&& forall|other: int| #[trigger]
        is_visible_row(row_base, slots, item_kind, other) ==> other <= row - away || other >= row
            + away
}

/// Turning the page in the hinted direction brings the rows that are shown nearer to the item,
/// where the rows after the turn follow those before it.
pub proof fn hinted_turns_lessen_the_distance(
    items: Map<Seq<char>, GridPosition>,
    row_base: int,
    item_id: Seq<char>,
    previous: Seq<Slot>,
    current: Seq<Slot>,
    item_kind: ItemKind,
    direction: ScrollDirection,
    before: int,
    after: int,
)
    requires
        items.contains_key(item_id),
        hint_for(items, row_base, item_id, previous, item_kind) == NavigationHint::Scroll(direction),
        extended_base(row_base, previous, current, item_kind, direction) is Some,
        0 <= before,
        0 <= after,
        is_rows_away(row_base, previous, item_kind, items[item_id].row as int, before),
        is_rows_away(
            extended_base(row_base, previous, current, item_kind, direction)->0,
            current,
            item_kind,
            items[item_id].row as int,
            after,
        ),
    ensures
        after < before,
{
    let row = items[item_id].row as int;
    let next = extended_base(row_base, previous, current, item_kind, direction)->0;
    rows_span_their_range(previous, item_kind);
    rows_span_their_range(current, item_kind);
    range_is_visible(row_base, previous, item_kind);
    range_is_visible(next, current, item_kind);
}

proof fn range_is_visible(row_base: int, slots: Seq<Slot>, item_kind: ItemKind)
    ensures
        row_range(slots, item_kind) matches Some((low, high)) ==> {
            &&& is_visible_row(row_base, slots, item_kind, row_base + low)
            &&& is_visible_row(row_base, slots, item_kind, row_base + high)
            &&& forall|row: int| #[trigger]
                is_visible_row(row_base, slots, item_kind, row) ==> row_base + low <= row
                    <= row_base + high
        },
{
    rows_span_their_range(slots, item_kind);
}

/// A turn without a shared item puts the new rows right behind the old ones: below them on a turn
/// down, above them on a turn up, with no row between.
pub proof fn extended_rows_adjoin(
    row_base: int,
    previous: Seq<Slot>,
    current: Seq<Slot>,
    item_kind: ItemKind,
    direction: ScrollDirection,
)
    ensures
        extended_base(row_base, previous, current, item_kind, direction) is Some <==> (exists|
            row: int,
        |
            is_visible_row(row_base, previous, item_kind, row)) && (exists|row: int|
            is_visible_row(0, current, item_kind, row)),
        extended_base(row_base, previous, current, item_kind, direction) matches Some(next) ==> {
            &&& forall|old_row: int, new_row: int|
                #![trigger is_visible_row(row_base, previous, item_kind, old_row), is_visible_row(next, current, item_kind, new_row)]
                is_visible_row(row_base, previous, item_kind, old_row) && is_visible_row(
                    next,
                    current,
                    item_kind,
                    new_row,
                ) ==> match direction {
                    ScrollDirection::Down => old_row < new_row,
                    ScrollDirection::Up => new_row < old_row,
                }
            &&& exists|old_row: int, new_row: int|
                #![trigger is_visible_row(row_base, previous, item_kind, old_row), is_visible_row(next, current, item_kind, new_row)]
                is_visible_row(row_base, previous, item_kind, old_row) && is_visible_row(
                    next,
                    current,
                    item_kind,
                    new_row,
                ) && (new_row - old_row == 1 || old_row - new_row == 1)
        },
{
    rows_span_their_range(previous, item_kind);
    rows_span_their_range(current, item_kind);
    range_is_visible(row_base, previous, item_kind);
    range_is_visible(0, current, item_kind);
    if let Some(next) = extended_base(row_base, previous, current, item_kind, direction) {
        range_is_visible(next, current, item_kind);
        let (previous_low, previous_high) = row_range(previous, item_kind)->0;
        let (current_low, current_high) = row_range(current, item_kind)->0;
        let (old_row, new_row) = match direction {
            ScrollDirection::Down => (row_base + previous_high, next + current_low),
            ScrollDirection::Up => (row_base + previous_low, next + current_high),
        };
        assert(is_visible_row(row_base, previous, item_kind, old_row));
        assert(is_visible_row(next, current, item_kind, new_row));
    }
}

/// An alignment is where a visible item and the map agree: some selectable slot shows a mapped item
/// in its mapped column, in the row that puts the item at its mapped row. Each such slot gives one.
pub proof fn alignments_agree_with_the_map(
    items: Map<Seq<char>, GridPosition>,
    slots: Seq<Slot>,
    item_kind: ItemKind,
)
    ensures
        forall|base: int| #[trigger]
            alignments(items, slots, item_kind).contains(base) <==> exists|index: int|
                {
                    &&& 0 <= index < slots.len()
                    &&& (#[trigger] slots[index]).kind.selectable_for(item_kind)
                    &&& slots[index].classification matches Some(shown) && items.contains_key(
                        shown.item_id@,
                    ) && items[shown.item_id@] == (GridPosition {
                        row: (base + slots[index].row) as i128,
                        col: slots[index].col,
                    }) && items[shown.item_id@].row == base + slots[index].row
                },
        alignments(items, slots, item_kind).len() <= slots.len(),
    decreases slots.len(),
{
    if slots.len() > 0 {
        let front = slots.drop_last();
        let last = slots.len() - 1;
        alignments_agree_with_the_map(items, front, item_kind);
        let before = alignments(items, front, item_kind);
        let all = alignments(items, slots, item_kind);
        assert(forall|index: int| 0 <= index < front.len() ==> front[index] == slots[index]);
        assert forall|base: int| #[trigger] all.contains(base) <==> exists|index: int|
            {
                &&& 0 <= index < slots.len()
                &&& (#[trigger] slots[index]).kind.selectable_for(item_kind)
                &&& slots[index].classification matches Some(shown) && items.contains_key(
                    shown.item_id@,
                ) && items[shown.item_id@] == (GridPosition {
                    row: (base + slots[index].row) as i128,
                    col: slots[index].col,
                }) && items[shown.item_id@].row == base + slots[index].row
            } by {
            if before.contains(base) {
                let at = choose|at: int| 0 <= at < before.len() && before[at] == base;
                assert(all[at] == base);
                let index = choose|index: int|
                    {
                        &&& 0 <= index < front.len()
                        &&& (#[trigger] front[index]).kind.selectable_for(item_kind)
                        &&& front[index].classification matches Some(shown) && items.contains_key(
                            shown.item_id@,
                        ) && items[shown.item_id@] == (GridPosition {
                            row: (base + front[index].row) as i128,
                            col: front[index].col,
                        }) && items[shown.item_id@].row == base + front[index].row
                    };
                assert(slots[index] == front[index]);
            } else if all.contains(base) {
                let at = choose|at: int| 0 <= at < all.len() && all[at] == base;
                if at < before.len() {
                    assert(before[at] == base);
                }
                assert(slots[last] == slots.last());
            } else {
                if exists|index: int|
                    {
                        &&& 0 <= index < slots.len()
                        &&& (#[trigger] slots[index]).kind.selectable_for(item_kind)
                        &&& slots[index].classification matches Some(shown) && items.contains_key(
                            shown.item_id@,
                        ) && items[shown.item_id@] == (GridPosition {
                            row: (base + slots[index].row) as i128,
                            col: slots[index].col,
                        }) && items[shown.item_id@].row == base + slots[index].row
                    } {
                    let index = choose|index: int|
                        {
                            &&& 0 <= index < slots.len()
                            &&& (#[trigger] slots[index]).kind.selectable_for(item_kind)
                            &&& slots[index].classification matches Some(shown)
                                && items.contains_key(shown.item_id@) && items[shown.item_id@] == (
                            GridPosition {
                                row: (base + slots[index].row) as i128,
                                col: slots[index].col,
                            }) && items[shown.item_id@].row == base + slots[index].row
                        };
                    if index == last {
                        assert(all[all.len() - 1] == base);
                    } else {
                        assert(front[index] == slots[index]);
                    }
                }
            }
        }
    }
}

/// How often a value occurs is its count in the collection of the values.
pub proof fn occurrences_are_counted(values: Seq<int>, value: int)
    ensures
        occurrences(values, value) == values.to_multiset().count(value),
    decreases values.len(),
{
    broadcast use vstd::seq_lib::group_to_multiset_ensures;

    if values.len() > 0 {
        occurrences_are_counted(values.drop_last(), value);
        assert(values =~= values.drop_last().push(values.last()));
        vstd::seq_lib::to_multiset_build(values.drop_last(), values.last());
    }
}

/// The value that the map moves to is one of those given, and none is given more often.
pub proof fn the_majority_decides(values: Seq<int>)
    requires
        values.len() > 0,
    ensures
        values.contains(dominant(values)),
        forall|value: int| #[trigger]
            values.to_multiset().count(value) <= values.to_multiset().count(dominant(values)),
{
    broadcast use vstd::seq_lib::group_to_multiset_ensures;

    dominant_exists(values, values.len() as int);
    let index = choose|index: int| leads(values, values.len() as int, index);
    dominant_is_at(values, index);
    occurrences_are_counted(values, dominant(values));
    assert forall|value: int| #[trigger] values.to_multiset().count(value)
        <= values.to_multiset().count(dominant(values)) by {
        occurrences_are_counted(values, value);
        if values.contains(value) {
            let other = choose|other: int| 0 <= other < values.len() && values[other] == value;
            assert(occurrences(values, values[other]) <= occurrences(values, values[index]));
        }
    }
}

/// A page that was entered is found where it was entered: its items, each in one slot, put it at
/// the row where it stood.
pub proof fn entered_pages_are_found_again(
    items: Map<Seq<char>, GridPosition>,
    row_base: int,
    slots: Seq<Slot>,
    item_kind: ItemKind,
)
    requires
        i128::MIN <= row_base <= i128::MAX - u32::MAX,
        exists|index: int|
            0 <= index < slots.len() && (#[trigger] slots[index]).kind.selectable_for(item_kind)
                && slots[index].classification is Some,
        forall|left: int, right: int|
            #![trigger slots[left], slots[right]]
            0 <= left < right < slots.len() && slots[left].kind.selectable_for(item_kind)
                && slots[right].kind.selectable_for(item_kind) && slots[left].classification is Some
                && slots[right].classification is Some ==> slots[left].classification->0.item_id@
                != slots[right].classification->0.item_id@,
    ensures
        alignments(recorded(items, row_base, slots, item_kind), slots, item_kind).len() > 0,
        dominant(alignments(recorded(items, row_base, slots, item_kind), slots, item_kind))
            == row_base,
{
    let map = recorded(items, row_base, slots, item_kind);
    let all = alignments(map, slots, item_kind);
    alignments_agree_with_the_map(map, slots, item_kind);
    let seen = choose|index: int|
        0 <= index < slots.len() && (#[trigger] slots[index]).kind.selectable_for(item_kind)
            && slots[index].classification is Some;
    assert forall|index: int| 0 <= index < slots.len() && (
    #[trigger] slots[index]).kind.selectable_for(item_kind) && slots[index].classification is Some
        implies map.contains_key(slots[index].classification->0.item_id@)
        && map[slots[index].classification->0.item_id@] == (GridPosition {
        row: (row_base + slots[index].row) as i128,
        col: slots[index].col,
    }) by {
        assert forall|later: int| index < later < slots.len() implies !(
        #[trigger] slots[later]).shows(slots[index].item()->0, item_kind) by {
            assert(slots[index].kind.selectable_for(item_kind));
        }
        recorded_items_are_mapped(items, row_base, slots, item_kind, index);
    }
    assert(all.contains(row_base));
    the_majority_decides(all);
    let found = dominant(all);
    assert(all.contains(found));
}

} // verus!
