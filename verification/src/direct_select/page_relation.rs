//! How the page after an input relates to the page before it.
use vstd::prelude::*;
use vstd::string::*;

use crate::item::ItemKind;
use crate::single::{
    ratio_is_close, round, round_ratio, rounding_is_close, single, single_ratio,
    small_numbers_are_kept,
};
use crate::stats::{all_within, interpolated_median, ints, twice_median, twice_median_between};
use crate::vision::{RoiObservation, Slot};

use super::scroll::ScrollDirection;

verus! {

/// Twice the movement that still counts as none, in subpixels: two pixels of detection jitter.
pub const PAGE_SHIFT_JITTER: i128 = 0x400_0000;

/// More than twice any movement between two slots, in subpixels.
pub const MAX_TWICE_SHIFT: i128 = 0x20_0000_0000_0000_0000;

/// A measured movement of the page.
#[derive(Clone, Copy, Debug, PartialEq, Eq, Structural)]
pub struct PageShift {
    /// Twice the movement in the direction of the turn, in subpixels.
    pub directed_shift: i128,
    /// Height of the page in pixels.
    pub page_height: u32,
}

/// Twice the movement of a full turn, in subpixels: 338 pixels for a page of 832 pixels. It is
/// computed in single precision.
pub open spec fn full_turn(page_height: int) -> int {
    single_ratio(0x200_0000 * single(338 * single(page_height)), 832)
}

impl PageShift {
    /// A turn is short if it moved the page by less than eight tenths of a full turn. The ratio of
    /// the two is one of single precision, as is 0.8. It is taken in units of which 2 to the power
    /// of 53 are one.
    pub open spec fn short(self) -> bool {
        self.page_height > 0 && single_ratio(
            0x20_0000_0000_0000 * self.directed_shift,
            full_turn(self.page_height as int),
        ) < 0x19_9999_a000_0000
    }

    pub fn is_short(&self) -> (short: bool)
        requires
            0 <= self.directed_shift <= MAX_TWICE_SHIFT,
        ensures
            short == self.short(),
    {
        if self.page_height == 0 {
            return false;
        }
        let height = round(self.page_height as i128);
        let scaled = round(338 * height);
        let full = round_ratio(0x200_0000 * scaled as u128, 832);
        round_ratio(0x20_0000_0000_0000 * self.directed_shift as u128, full) < 0x19_9999_a000_0000
    }
}

#[derive(Clone, Copy, Debug, PartialEq, Eq, Structural)]
pub enum PageRelation {
    SameViewport,
    Shifted(PageShift),
    DifferentViewport,
    Uncertain,
}

/// A selectable slot in which an item was recognized.
pub open spec fn is_identity(slot: Slot, item_kind: ItemKind) -> bool {
    slot.kind.selectable_for(item_kind) && slot.classification is Some
}

pub open spec fn has_identity(slots: Seq<Slot>, item_kind: ItemKind) -> bool {
    exists|index: int| 0 <= index < slots.len() && is_identity(#[trigger] slots[index], item_kind)
}

/// How far two slots are apart horizontally, in subpixels.
pub open spec fn column_distance(left: Slot, right: Slot) -> int {
    let distance = single(left.center_x - right.center_x);
    if distance < 0 {
        -distance
    } else {
        distance
    }
}

/// The slot at `index` shows the same item in the same column and is still free.
pub open spec fn can_pair(
    previous: Slot,
    current: Seq<Slot>,
    used: Seq<bool>,
    item_kind: ItemKind,
    index: int,
) -> bool {
    &&& 0 <= index < current.len()
    &&& !used[index]
    &&& is_identity(current[index], item_kind)
    &&& current[index].item() == previous.item()
    &&& current[index].col == previous.col
}

/// The slot at `index` is the horizontally closest one to pair with, the first of equals.
pub open spec fn pairs_with(
    previous: Slot,
    current: Seq<Slot>,
    used: Seq<bool>,
    item_kind: ItemKind,
    index: int,
) -> bool {
    &&& can_pair(previous, current, used, item_kind, index)
    &&& forall|other: int| #[trigger]
        can_pair(previous, current, used, item_kind, other) ==> if other < index {
            column_distance(current[index], previous) < column_distance(current[other], previous)
        } else {
            column_distance(current[index], previous) <= column_distance(current[other], previous)
        }
}

pub open spec fn partner(
    previous: Slot,
    current: Seq<Slot>,
    used: Seq<bool>,
    item_kind: ItemKind,
) -> Option<int> {
    if exists|index: int| pairs_with(previous, current, used, item_kind, index) {
        Some(choose|index: int| pairs_with(previous, current, used, item_kind, index))
    } else {
        None
    }
}

/// The slots of the current page that were paired, and the vertical movement of each pair: the
/// slots of the previous page take their partners in order, each partner once. The movement is a
/// difference of single precision.
pub open spec fn pairing(previous: Seq<Slot>, current: Seq<Slot>, item_kind: ItemKind) -> (
    Seq<bool>,
    Seq<int>,
)
    decreases previous.len(),
{
    if previous.len() == 0 {
        (Seq::new(current.len(), |index: int| false), Seq::empty())
    } else {
        let (used, shifts) = pairing(previous.drop_last(), current, item_kind);
        let slot = previous.last();
        if !is_identity(slot, item_kind) {
            (used, shifts)
        } else {
            match partner(slot, current, used, item_kind) {
                Some(index) => (
                    used.update(index, true),
                    shifts.push(single(current[index].center_y - slot.center_y)),
                ),
                None => (used, shifts),
            }
        }
    }
}

/// Twice the median vertical movement of the items that both pages show. The sum of two middle
/// movements is one of single precision.
pub open spec fn common_shift(
    previous: Seq<Slot>,
    current: Seq<Slot>,
    item_kind: ItemKind,
) -> Option<int> {
    let shifts = pairing(previous, current, item_kind).1;
    if shifts.len() == 0 {
        None
    } else {
        Some(single(twice_median(shifts)))
    }
}

/// Twice the movement in the direction of the turn: content moves up on a turn down.
pub open spec fn directed(shift: int, direction: ScrollDirection) -> int {
    match direction {
        ScrollDirection::Down => -shift,
        ScrollDirection::Up => shift,
    }
}

pub open spec fn relation_of(
    previous: Seq<Slot>,
    page_height: u32,
    current: Seq<Slot>,
    item_kind: ItemKind,
    direction: ScrollDirection,
) -> PageRelation {
    if !has_identity(previous, item_kind) || !has_identity(current, item_kind) {
        PageRelation::Uncertain
    } else {
        match common_shift(previous, current, item_kind) {
            None => PageRelation::DifferentViewport,
            Some(shift) => if -PAGE_SHIFT_JITTER <= shift <= PAGE_SHIFT_JITTER {
                PageRelation::SameViewport
            } else if directed(shift, direction) <= PAGE_SHIFT_JITTER {
                PageRelation::Uncertain
            } else {
                PageRelation::Shifted(
                    PageShift { directed_shift: directed(shift, direction) as i128, page_height },
                )
            },
        }
    }
}

fn is_identity_slot(slot: &Slot, item_kind: ItemKind) -> (identity: bool)
    ensures
        identity == is_identity(*slot, item_kind),
{
    slot.kind.is_selectable_item_for(item_kind) && slot.classification.is_some()
}

fn any_identity_slot(slots: &Vec<Slot>, item_kind: ItemKind) -> (found: bool)
    ensures
        found == has_identity(slots@, item_kind),
{
    let mut index: usize = 0;
    while index < slots.len()
        invariant
            index <= slots.len(),
            forall|other: int|
                0 <= other < index ==> !is_identity(#[trigger] slots@[other], item_kind),
        decreases slots.len() - index,
    {
        if is_identity_slot(&slots[index], item_kind) {
            return true;
        }
        index = index + 1;
    }
    false
}

fn horizontal_distance(left: &Slot, right: &Slot) -> (distance: i128)
    ensures
        distance == column_distance(*left, *right),
{
    let distance = round(left.center_x as i128 - right.center_x as i128);
    if distance < 0 {
        -distance
    } else {
        distance
    }
}

proof fn partner_is(
    previous: Slot,
    current: Seq<Slot>,
    used: Seq<bool>,
    item_kind: ItemKind,
    index: int,
)
    requires
        pairs_with(previous, current, used, item_kind, index),
    ensures
        partner(previous, current, used, item_kind) == Some(index),
{
    let other = choose|i: int| pairs_with(previous, current, used, item_kind, i);
    assert(can_pair(previous, current, used, item_kind, other));
    assert(can_pair(previous, current, used, item_kind, index));
}

fn find_partner(
    previous: &Slot,
    current: &Vec<Slot>,
    used: &Vec<bool>,
    item_kind: ItemKind,
) -> (found: Option<usize>)
    requires
        used@.len() == current@.len(),
    ensures
        match found {
            Some(index) => partner(*previous, current@, used@, item_kind) == Some(index as int)
                && index < current@.len(),
            None => partner(*previous, current@, used@, item_kind) is None,
        },
{
    let mut best: Option<usize> = None;
    let mut index: usize = 0;
    while index < current.len()
        invariant
            index <= current.len(),
            used@.len() == current@.len(),
            match best {
                Some(chosen) => {
                    &&& chosen < index
                    &&& can_pair(*previous, current@, used@, item_kind, chosen as int)
                    &&& forall|other: int|
                        other < index && #[trigger] can_pair(
                            *previous,
                            current@,
                            used@,
                            item_kind,
                            other,
                        ) ==> if other < chosen {
                            column_distance(current@[chosen as int], *previous) < column_distance(
                                current@[other],
                                *previous,
                            )
                        } else {
                            column_distance(current@[chosen as int], *previous)
                                <= column_distance(current@[other], *previous)
                        }
                },
                None => forall|other: int|
                    other < index ==> !#[trigger] can_pair(
                        *previous,
                        current@,
                        used@,
                        item_kind,
                        other,
                    ),
            },
        decreases current.len() - index,
    {
        let slot = &current[index];
        let same_item = match (&slot.classification, &previous.classification) {
            (Some(left), Some(right)) => left.item_id == right.item_id,
            (None, None) => true,
            _ => false,
        };
        if !used[index] && is_identity_slot(slot, item_kind) && same_item && slot.col
            == previous.col {
            assert(can_pair(*previous, current@, used@, item_kind, index as int));
            match best {
                Some(chosen) => {
                    if horizontal_distance(slot, previous) < horizontal_distance(
                        &current[chosen],
                        previous,
                    ) {
                        best = Some(index);
                    }
                },
                None => {
                    best = Some(index);
                },
            }
        }
        index = index + 1;
    }
    proof {
        match best {
            Some(chosen) => {
                assert(pairs_with(*previous, current@, used@, item_kind, chosen as int));
                partner_is(*previous, current@, used@, item_kind, chosen as int);
            },
            None => {
                if exists|i: int| pairs_with(*previous, current@, used@, item_kind, i) {
                    let i = choose|i: int| pairs_with(*previous, current@, used@, item_kind, i);
                    assert(can_pair(*previous, current@, used@, item_kind, i));
                }
            },
        }
    }
    best
}

/// Twice the median vertical movement of the items that both pages show.
pub fn common_identity_vertical_shift(
    previous_slots: &Vec<Slot>,
    current: &RoiObservation,
    item_kind: ItemKind,
) -> (shift: Option<i128>)
    ensures
        match shift {
            Some(twice) => common_shift(previous_slots@, current.slots@, item_kind) == Some(
                twice as int,
            ),
            None => common_shift(previous_slots@, current.slots@, item_kind) is None,
        },
        shift matches Some(twice) ==> -MAX_TWICE_SHIFT <= twice <= MAX_TWICE_SHIFT,
{
    let ghost previous = previous_slots@;
    let ghost slots = current.slots@;
    let mut used: Vec<bool> = vec![false; current.slots.len()];
    let mut shifts: Vec<i128> = Vec::new();
    let mut index: usize = 0;
    proof {
        assert(previous.take(0) =~= Seq::empty());
        assert(used@ =~= pairing(previous.take(0), slots, item_kind).0);
        assert(ints(shifts@) =~= pairing(previous.take(0), slots, item_kind).1);
    }
    while index < previous_slots.len()
        invariant
            index <= previous_slots.len(),
            previous == previous_slots@,
            slots == current.slots@,
            used@.len() == slots.len(),
            used@ == pairing(previous.take(index as int), slots, item_kind).0,
            ints(shifts@) == pairing(previous.take(index as int), slots, item_kind).1,
            all_within(shifts@, 0x4_0000_0000_0000_0000),
        decreases previous_slots.len() - index,
    {
        let ghost before = shifts@;
        assert(previous.take(index + 1).drop_last() =~= previous.take(index as int));
        let slot = &previous_slots[index];
        if is_identity_slot(slot, item_kind) {
            if let Some(found) = find_partner(slot, &current.slots, &used, item_kind) {
                used.set(found, true);
                let shift = round(
                    current.slots[found].center_y as i128 - slot.center_y as i128,
                );
                shifts.push(shift);
                assert(ints(shifts@) =~= ints(before).push(shift as int));
            }
        }
        index = index + 1;
    }
    assert(previous.take(previous.len() as int) =~= previous);
    let median = interpolated_median(&shifts);
    proof {
        assert(ints(shifts@).len() == shifts@.len());
        if shifts@.len() > 0 {
            twice_median_between(shifts@, -0x4_0000_0000_0000_0000, 0x4_0000_0000_0000_0000);
        }
    }
    match median {
        Some(twice) => Some(round(twice)),
        None => None,
    }
}

/// How the page after a turn in `direction` relates to the page before it.
pub fn compare_page_turn(
    previous: &RoiObservation,
    current: &RoiObservation,
    item_kind: ItemKind,
    direction: ScrollDirection,
) -> (relation: PageRelation)
    ensures
        relation == relation_of(
            previous.slots@,
            previous.image.spec_height(),
            current.slots@,
            item_kind,
            direction,
        ),
        relation matches PageRelation::Shifted(shift) ==> 0 < shift.directed_shift
            <= MAX_TWICE_SHIFT,
{
    if !any_identity_slot(&previous.slots, item_kind) || !any_identity_slot(
        &current.slots,
        item_kind,
    ) {
        return PageRelation::Uncertain;
    }
    let shift: i128 = match common_identity_vertical_shift(&previous.slots, current, item_kind) {
        Some(shift) => shift,
        None => return PageRelation::DifferentViewport,
    };
    if -PAGE_SHIFT_JITTER <= shift && shift <= PAGE_SHIFT_JITTER {
        return PageRelation::SameViewport;
    }
    let directed_shift: i128 = match direction {
        ScrollDirection::Down => -shift,
        ScrollDirection::Up => shift,
    };
    if directed_shift <= PAGE_SHIFT_JITTER {
        return PageRelation::Uncertain;
    }
    PageRelation::Shifted(PageShift { directed_shift, page_height: previous.image.height() })
}

/// A turn is only ever reported as a movement in its own direction, and a movement that one
/// direction reports the opposite direction does not.
pub proof fn turns_move_one_way(
    previous: Seq<Slot>,
    page_height: u32,
    current: Seq<Slot>,
    item_kind: ItemKind,
)
    ensures
        !(relation_of(previous, page_height, current, item_kind, ScrollDirection::Down) is Shifted
            && relation_of(
            previous,
            page_height,
            current,
            item_kind,
            ScrollDirection::Up,
        ) is Shifted),
{
}

/// Two slots show the same recognized item in the same column, and both can be picked.
pub open spec fn show_the_same(previous: Slot, current: Slot, item_kind: ItemKind) -> bool {
    &&& previous.kind.selectable_for(item_kind) && current.kind.selectable_for(item_kind)
    &&& previous.classification is Some && current.classification is Some
    &&& previous.classification->0.item_id@ == current.classification->0.item_id@
    &&& previous.col == current.col
}

/// The movement is that of an item which both pages show in the same column: the difference of the
/// heights of its centers, after less before.
pub open spec fn is_movement(
    previous: Seq<Slot>,
    current: Seq<Slot>,
    item_kind: ItemKind,
    shift: int,
) -> bool {
    exists|before: int, after: int|
        #![trigger previous[before], current[after]]
        {
            &&& 0 <= before < previous.len()
            &&& 0 <= after < current.len()
            &&& show_the_same(previous[before], current[after], item_kind)
            &&& shift == single(current[after].center_y - previous[before].center_y)
        }
}

proof fn partners_show_the_same(
    previous: Slot,
    current: Seq<Slot>,
    used: Seq<bool>,
    item_kind: ItemKind,
)
    requires
        previous.kind.selectable_for(item_kind),
        previous.classification is Some,
    ensures
        partner(previous, current, used, item_kind) matches Some(index) ==> 0 <= index
            < current.len() && !used[index] && show_the_same(previous, current[index], item_kind),
{
    if exists|index: int| pairs_with(previous, current, used, item_kind, index) {
        let index = choose|index: int| pairs_with(previous, current, used, item_kind, index);
        assert(can_pair(previous, current, used, item_kind, index));
    }
}

proof fn free_slots_find_a_partner(
    previous: Slot,
    current: Seq<Slot>,
    used: Seq<bool>,
    item_kind: ItemKind,
    other: int,
)
    requires
        0 <= other < current.len(),
        !used[other],
        show_the_same(previous, current[other], item_kind),
    ensures
        partner(previous, current, used, item_kind) is Some,
{
    let eligible = |at: int| can_pair(previous, current, used, item_kind, at);
    let key = |at: int| column_distance(current[at], previous);
    assert(eligible(other));
    let index = closest_pair_exists(eligible, key, current.len() as int, other);
    assert(eligible(index));
    assert forall|at: int| #[trigger]
        can_pair(previous, current, used, item_kind, at) implies if at < index {
        column_distance(current[index], previous) < column_distance(current[at], previous)
    } else {
        column_distance(current[index], previous) <= column_distance(current[at], previous)
    } by {
        assert(eligible(at));
        assert(key(at) == column_distance(current[at], previous));
        assert(key(index) == column_distance(current[index], previous));
    }
    assert(pairs_with(previous, current, used, item_kind, index));
}

proof fn closest_pair_exists(
    eligible: spec_fn(int) -> bool,
    key: spec_fn(int) -> int,
    count: int,
    other: int,
) -> (index: int)
    requires
        0 <= other < count,
        eligible(other),
    ensures
        0 <= index < count,
        eligible(index),
        forall|at: int|
            0 <= at < count && #[trigger] eligible(at) ==> if at < index {
                key(index) < key(at)
            } else {
                key(index) <= key(at)
            },
    decreases count,
{
    let last = count - 1;
    if exists|at: int| 0 <= at < last && #[trigger] eligible(at) {
        let at = choose|at: int| 0 <= at < last && #[trigger] eligible(at);
        let front = closest_pair_exists(eligible, key, last, at);
        if eligible(last) && key(last) < key(front) {
            last
        } else {
            front
        }
    } else {
        last
    }
}

proof fn pairs_are_movements(previous: Seq<Slot>, current: Seq<Slot>, item_kind: ItemKind)
    ensures
        pairing(previous, current, item_kind).0.len() == current.len(),
        pairing(previous, current, item_kind).1.len() <= previous.len(),
        forall|at: int|
            0 <= at < pairing(previous, current, item_kind).1.len() ==> is_movement(
                previous,
                current,
                item_kind,
                #[trigger] pairing(previous, current, item_kind).1[at],
            ),
        (exists|index: int|
            0 <= index < current.len() && #[trigger] pairing(previous, current, item_kind).0[index])
            ==> pairing(previous, current, item_kind).1.len() > 0,
        (exists|before: int, after: int|
            #![trigger previous[before], current[after]]
            0 <= before < previous.len() && 0 <= after < current.len() && show_the_same(
                previous[before],
                current[after],
                item_kind,
            )) ==> pairing(previous, current, item_kind).1.len() > 0,
    decreases previous.len(),
{
    if previous.len() > 0 {
        let front = previous.drop_last();
        let slot = previous.last();
        let last = previous.len() - 1;
        pairs_are_movements(front, current, item_kind);
        let (used, shifts) = pairing(front, current, item_kind);
        let all = pairing(previous, current, item_kind).1;
        assert(forall|at: int| 0 <= at < front.len() ==> front[at] == previous[at]);
        assert(previous[last] == slot);
        if slot.kind.selectable_for(item_kind) && slot.classification is Some {
            partners_show_the_same(slot, current, used, item_kind);
        }
        assert forall|at: int| 0 <= at < all.len() implies is_movement(
            previous,
            current,
            item_kind,
            #[trigger] all[at],
        ) by {
            if at < shifts.len() {
                assert(all[at] == shifts[at]);
                let (before, after) = choose|before: int, after: int|
                    #![trigger front[before], current[after]]
                    {
                        &&& 0 <= before < front.len()
                        &&& 0 <= after < current.len()
                        &&& show_the_same(front[before], current[after], item_kind)
                        &&& shifts[at] == single(
                            current[after].center_y - front[before].center_y,
                        )
                    };
                assert(previous[before] == front[before]);
                assert(show_the_same(previous[before], current[after], item_kind));
            } else {
                let index = partner(slot, current, used, item_kind)->0;
                assert(show_the_same(previous[last], current[index], item_kind));
            }
        }
        if exists|before: int, after: int|
            #![trigger previous[before], current[after]]
            0 <= before < previous.len() && 0 <= after < current.len() && show_the_same(
                previous[before],
                current[after],
                item_kind,
            ) {
            let (before, after) = choose|before: int, after: int|
                #![trigger previous[before], current[after]]
                0 <= before < previous.len() && 0 <= after < current.len() && show_the_same(
                    previous[before],
                    current[after],
                    item_kind,
                );
            if before < last {
                assert(show_the_same(front[before], current[after], item_kind));
            } else if used[after] {
                assert(pairing(front, current, item_kind).0[after]);
            } else {
                free_slots_find_a_partner(slot, current, used, item_kind, after);
            }
        }
    } else {
        assert(pairing(previous, current, item_kind).0 =~= Seq::new(
            current.len(),
            |index: int| false,
        ));
    }
}

/// A movement is measured just where both pages show the same item in the same column. It lies
/// between the movements of such items: where all of these moved by the same, it is that one.
pub proof fn shared_items_measure_the_movement(
    previous: Seq<Slot>,
    current: Seq<Slot>,
    item_kind: ItemKind,
    low: int,
    high: int,
)
    requires
        forall|before: int, after: int|
            #![trigger previous[before], current[after]]
            0 <= before < previous.len() && 0 <= after < current.len() && show_the_same(
                previous[before],
                current[after],
                item_kind,
            ) ==> low <= single(current[after].center_y - previous[before].center_y) <= high,
        -0x80_0000 < low <= high < 0x80_0000,
    ensures
        common_shift(previous, current, item_kind) is Some <==> exists|before: int, after: int|
            #![trigger previous[before], current[after]]
            0 <= before < previous.len() && 0 <= after < current.len() && show_the_same(
                previous[before],
                current[after],
                item_kind,
            ),
        common_shift(previous, current, item_kind) matches Some(shift) ==> 2 * low <= shift <= 2
            * high,
{
    pairs_are_movements(previous, current, item_kind);
    let shifts = pairing(previous, current, item_kind).1;
    if shifts.len() > 0 {
        assert(is_movement(previous, current, item_kind, shifts[0]));
        let (before, after) = choose|before: int, after: int|
            #![trigger previous[before], current[after]]
            {
                &&& 0 <= before < previous.len()
                &&& 0 <= after < current.len()
                &&& show_the_same(previous[before], current[after], item_kind)
                &&& shifts[0] == single(current[after].center_y - previous[before].center_y)
            };
        assert(show_the_same(previous[before], current[after], item_kind));
        let values = shifts.map_values(|shift: int| shift as i128);
        assert forall|at: int| 0 <= at < values.len() implies low <= #[trigger] values[at] <= high by {
            assert(is_movement(previous, current, item_kind, shifts[at]));
            let (before, after) = choose|before: int, after: int|
                #![trigger previous[before], current[after]]
                {
                    &&& 0 <= before < previous.len()
                    &&& 0 <= after < current.len()
                    &&& show_the_same(previous[before], current[after], item_kind)
                    &&& shifts[at] == single(current[after].center_y - previous[before].center_y)
                };
            assert(low <= single(current[after].center_y - previous[before].center_y) <= high);
        }
        assert(ints(values) =~= shifts) by {
            assert forall|at: int| 0 <= at < shifts.len() implies ints(values)[at] == shifts[at] by {
                assert(is_movement(previous, current, item_kind, shifts[at]));
                assert(low <= values[at] <= high);
                let (before, after) = choose|before: int, after: int|
                    #![trigger previous[before], current[after]]
                    {
                        &&& 0 <= before < previous.len()
                        &&& 0 <= after < current.len()
                        &&& show_the_same(previous[before], current[after], item_kind)
                        &&& shifts[at] == single(
                            current[after].center_y - previous[before].center_y,
                        )
                    };
                assert(low <= single(current[after].center_y - previous[before].center_y) <= high);
            }
        }
        twice_median_between(values, low, high);
        small_numbers_are_kept(twice_median(shifts));
    }
}

/// The partner of a slot is the one that lies horizontally closest, up to a rounding that is far
/// below a pixel.
pub proof fn partners_lie_closest(
    previous: Slot,
    current: Seq<Slot>,
    used: Seq<bool>,
    item_kind: ItemKind,
    other: int,
)
    requires
        partner(previous, current, used, item_kind) is Some,
        0 <= other < current.len(),
        !used[other],
        show_the_same(previous, current[other], item_kind),
        previous.center_x < 0x20_0000_0000,
        forall|index: int|
            0 <= index < current.len() ==> (#[trigger] current[index]).center_x < 0x20_0000_0000,
    ensures
        ({
            let found = current[partner(previous, current, used, item_kind)->0];
            let off = found.center_x - previous.center_x;
            let other_off = current[other].center_x - previous.center_x;
            &&& 0 <= off ==> off <= other_off + 0x4000 || off <= 0x4000 - other_off
            &&& off <= 0 ==> -off <= other_off + 0x4000 || -off <= 0x4000 - other_off
        }),
{
    let index = choose|index: int| pairs_with(previous, current, used, item_kind, index);
    assert(can_pair(previous, current, used, item_kind, other));
    assert(can_pair(previous, current, used, item_kind, index));
    assert(current[index].center_x < 0x20_0000_0000 && current[other].center_x < 0x20_0000_0000);
    let off = current[index].center_x - previous.center_x;
    let other_off = current[other].center_x - previous.center_x;
    if off < 0 {
        rounding_is_close(-off);
    } else {
        rounding_is_close(off);
    }
    if other_off < 0 {
        rounding_is_close(-other_off);
    } else {
        rounding_is_close(other_off);
    }
}

/// How pages are related: they cannot be where one of them shows no recognized item; they differ
/// where they share none; they are the same where what they share moved by at most two pixels; a
/// turn is measured where it moved against its direction, content upwards on a turn down and
/// downwards on a turn up, by just that much; and a movement the other way is not trusted.
pub proof fn pages_move_against_the_turn(
    previous: Seq<Slot>,
    page_height: u32,
    current: Seq<Slot>,
    item_kind: ItemKind,
    direction: ScrollDirection,
)
    ensures
        ({
            let relation = relation_of(previous, page_height, current, item_kind, direction);
            let shift = common_shift(previous, current, item_kind);
            let both = has_identity(previous, item_kind) && has_identity(current, item_kind);
            let two_pixels = 2 * (2 * 0x100_0000);
            &&& !both ==> relation is Uncertain
            &&& both ==> (relation is DifferentViewport <==> shift is None)
            &&& both && shift is Some ==> {
                let up = -shift->0;
                &&& relation is SameViewport <==> -two_pixels <= up <= two_pixels
                &&& direction == ScrollDirection::Down ==> (relation is Shifted <==> up > two_pixels)
                &&& direction == ScrollDirection::Up ==> (relation is Shifted <==> up < -two_pixels)
                &&& relation matches PageRelation::Shifted(moved) ==> moved.page_height
                    == page_height && (i128::MIN < up <= i128::MAX ==> moved.directed_shift == if direction
                    == ScrollDirection::Down {
                    up
                } else {
                    -up
                })
            }
        }),
        has_identity(current, item_kind) <==> exists|index: int|
            0 <= index < current.len() && (#[trigger] current[index]).kind.selectable_for(item_kind)
                && current[index].classification is Some,
{
    if exists|index: int|
        0 <= index < current.len() && (#[trigger] current[index]).kind.selectable_for(item_kind)
            && current[index].classification is Some {
        let index = choose|index: int|
            0 <= index < current.len() && (#[trigger] current[index]).kind.selectable_for(item_kind)
                && current[index].classification is Some;
        assert(is_identity(current[index], item_kind));
    }
    if has_identity(current, item_kind) {
        let index = choose|index: int|
            0 <= index < current.len() && is_identity(#[trigger] current[index], item_kind);
        assert(current[index].classification is Some);
    }
}

/// A turn is short where it moved the page by less than eight tenths of a full turn, which is 338
/// pixels for a page of 832, up to one part in a thousand.
pub proof fn short_turns_fall_behind(shift: PageShift)
    requires
        0 < shift.page_height <= 0x8000,
        0x400 <= shift.directed_shift,
    ensures
        ({
            let moved = 832 * (10 * shift.directed_shift);
            let full = 338 * (8 * (0x200_0000 * shift.page_height));
            &&& shift.short() ==> 999 * moved <= 1000 * full
            &&& !shift.short() ==> 1000 * moved >= 999 * full
        }),
{
    let height = shift.page_height as int;
    let moved = shift.directed_shift as int;
    small_numbers_are_kept(height);
    small_numbers_are_kept(338 * height);
    let whole = 0x200_0000 * (338 * height);
    ratio_is_close(whole, 832);
    let turn = full_turn(height);
    assert(turn == single_ratio(whole, 832));
    assert(0 < turn <= 0x100_0000_0000);
    let scaled = 0x20_0000_0000_0000 * moved;
    ratio_is_close(scaled, turn);
    let ratio = single_ratio(scaled, turn);
    if ratio < 0x19_9999_a000_0000 {
        assert(ratio * turn <= 0x19_9999_a000_0000 * turn) by (nonlinear_arith)
            requires
                ratio < 0x19_9999_a000_0000,
                0 < turn,
        ;
    } else {
        assert(ratio * turn >= 0x19_9999_a000_0000 * turn) by (nonlinear_arith)
            requires
                ratio >= 0x19_9999_a000_0000,
                0 < turn,
        ;
    }
}

} // verus!
