//! Which visible slot is clicked next.
use vstd::prelude::*;
use vstd::string::*;

use crate::item::ItemKind;
use crate::single::{round, single, small_numbers_are_kept};
use crate::vision::{Classification, RoiObservation, Slot};

verus! {

/// A slot to click and the item it shows.
#[derive(Debug)]
pub struct DirectClickTarget {
    pub item_id: String,
    pub slot: Slot,
}

/// Order of two recognitions: by gate quality, then by margin, then by score.
pub open spec fn ranked_below(left: Classification, right: Classification) -> bool {
    ||| left.gate_quality < right.gate_quality
    ||| left.gate_quality == right.gate_quality && left.match_margin < right.match_margin
    ||| left.gate_quality == right.gate_quality && left.match_margin == right.match_margin
        && left.match_score < right.match_score
}

/// `index` is the best recognition of `item_id` among the selectable slots, the last of equals.
pub open spec fn is_best_match(
    slots: Seq<Slot>,
    item_id: Seq<char>,
    item_kind: ItemKind,
    index: int,
) -> bool {
    &&& 0 <= index < slots.len()
    &&& slots[index].shows(item_id, item_kind)
    &&& forall|other: int|
        0 <= other < slots.len() && (#[trigger] slots[other]).shows(item_id, item_kind) ==> {
            let chosen = slots[index].classification->0;
            let rival = slots[other].classification->0;
            if other <= index {
                !ranked_below(chosen, rival)
            } else {
                ranked_below(rival, chosen)
            }
        }
}

/// The slot to click for `item_id`, if the item is visible.
pub open spec fn visible_slot(slots: Seq<Slot>, item_id: Seq<char>, item_kind: ItemKind) -> Option<
    Slot,
> {
    if exists|index: int| is_best_match(slots, item_id, item_kind, index) {
        Some(slots[choose|index: int| is_best_match(slots, item_id, item_kind, index)])
    } else {
        None
    }
}

/// At most one slot is the best match, so the slot to click is determined by the observation.
pub proof fn best_match_is_unique(
    slots: Seq<Slot>,
    item_id: Seq<char>,
    item_kind: ItemKind,
    left: int,
    right: int,
)
    requires
        is_best_match(slots, item_id, item_kind, left),
        is_best_match(slots, item_id, item_kind, right),
    ensures
        left == right,
{
    assert(slots[left].shows(item_id, item_kind));
    assert(slots[right].shows(item_id, item_kind));
}

/// A slot is found exactly when some selectable slot shows the item, and it then shows the item.
pub proof fn visible_slot_shows_the_item(slots: Seq<Slot>, item_id: Seq<char>, item_kind: ItemKind)
    ensures
        visible_slot(slots, item_id, item_kind) is Some <==> exists|index: int|
            0 <= index < slots.len() && (#[trigger] slots[index]).shows(item_id, item_kind),
        visible_slot(slots, item_id, item_kind) matches Some(slot) ==> slots.contains(slot)
            && slot.shows(item_id, item_kind),
{
    if exists|index: int|
        0 <= index < slots.len() && (#[trigger] slots[index]).shows(item_id, item_kind) {
        best_match_exists(slots, item_id, item_kind, slots.len() as int);
        assert(slots.take(slots.len() as int) =~= slots);
        let best = choose|index: int|
            is_best_match(slots.take(slots.len() as int), item_id, item_kind, index);
        assert(is_best_match(slots, item_id, item_kind, best));
    }
}

proof fn best_match_exists(slots: Seq<Slot>, item_id: Seq<char>, item_kind: ItemKind, count: int)
    requires
        0 <= count <= slots.len(),
        exists|index: int|
            0 <= index < count && (#[trigger] slots[index]).shows(item_id, item_kind),
    ensures
        exists|index: int| is_best_match(slots.take(count), item_id, item_kind, index),
    decreases count,
{
    let last = count - 1;
    let before = slots.take(last);
    let upto = slots.take(count);
    if exists|index: int|
        0 <= index < last && (#[trigger] slots[index]).shows(item_id, item_kind) {
        best_match_exists(slots, item_id, item_kind, last);
        let best = choose|index: int| is_best_match(before, item_id, item_kind, index);
        assert(forall|i: int| 0 <= i < last ==> before[i] == upto[i]);
        if slots[last].shows(item_id, item_kind) && !ranked_below(
            slots[last].classification->0,
            slots[best].classification->0,
        ) {
            assert forall|other: int|
                0 <= other < upto.len() && (#[trigger] upto[other]).shows(
                    item_id,
                    item_kind,
                ) implies !ranked_below(
                upto[last].classification->0,
                upto[other].classification->0,
            ) by {
                if other < last {
                    assert(before[other].shows(item_id, item_kind));
                }
            }
            assert(is_best_match(upto, item_id, item_kind, last));
        } else {
            assert forall|other: int|
                0 <= other < upto.len() && (#[trigger] upto[other]).shows(
                    item_id,
                    item_kind,
                ) implies {
                let chosen = upto[best].classification->0;
                let rival = upto[other].classification->0;
                if other <= best {
                    !ranked_below(chosen, rival)
                } else {
                    ranked_below(rival, chosen)
                }
            } by {
                if other < last {
                    assert(before[other].shows(item_id, item_kind));
                }
            }
            assert(is_best_match(upto, item_id, item_kind, best));
        }
    } else {
        assert(upto[last].shows(item_id, item_kind));
        assert forall|other: int|
            0 <= other < upto.len() && (#[trigger] upto[other]).shows(
                item_id,
                item_kind,
            ) implies other == last by {
            assert(slots[other].shows(item_id, item_kind));
        }
        assert(is_best_match(upto, item_id, item_kind, last));
    }
}

fn ranks_below(left: &Classification, right: &Classification) -> (below: bool)
    ensures
        below == ranked_below(*left, *right),
{
    if left.gate_quality != right.gate_quality {
        left.gate_quality < right.gate_quality
    } else if left.match_margin != right.match_margin {
        left.match_margin < right.match_margin
    } else {
        left.match_score < right.match_score
    }
}

fn shows_item(slot: &Slot, item_id: &String, item_kind: ItemKind) -> (shown: bool)
    ensures
        shown == slot.shows(item_id@, item_kind),
{
    if !slot.kind.is_selectable_item_for(item_kind) {
        return false;
    }
    match &slot.classification {
        Some(classification) => classification.item_id == *item_id,
        None => false,
    }
}

/// The best visible recognition of `item_id`.
pub fn find_visible_target(
    result: &RoiObservation,
    item_id: &String,
    item_kind: ItemKind,
) -> (target: Option<DirectClickTarget>)
    ensures
        match target {
            Some(found) => visible_slot(result.slots@, item_id@, item_kind) == Some(found.slot)
                && found.item_id@ == item_id@,
            None => visible_slot(result.slots@, item_id@, item_kind) is None,
        },
{
    let ghost slots = result.slots@;
    let mut best: Option<usize> = None;
    let mut index: usize = 0;
    while index < result.slots.len()
        invariant
            index <= result.slots.len(),
            slots == result.slots@,
            match best {
                Some(chosen) => is_best_match(
                    slots.take(index as int),
                    item_id@,
                    item_kind,
                    chosen as int,
                ),
                None => forall|other: int|
                    0 <= other < index ==> !(#[trigger] slots[other]).shows(item_id@, item_kind),
            },
        decreases result.slots.len() - index,
    {
        let ghost before = slots.take(index as int);
        let ghost upto = slots.take(index + 1);
        assert(forall|i: int| 0 <= i < index ==> before[i] == upto[i]);
        let ghost previous = best;
        if shows_item(&result.slots[index], item_id, item_kind) {
            match best {
                Some(chosen) => {
                    let improves = match (
                        &result.slots[chosen].classification,
                        &result.slots[index].classification,
                    ) {
                        (Some(current), Some(candidate)) => !ranks_below(candidate, current),
                        _ => false,
                    };
                    if improves {
                        best = Some(index);
                    }
                },
                None => {
                    best = Some(index);
                },
            }
        }
        proof {
            if let Some(chosen) = best {
                assert forall|other: int|
                    0 <= other < upto.len() && (#[trigger] upto[other]).shows(
                        item_id@,
                        item_kind,
                    ) implies {
                    let kept = upto[chosen as int].classification->0;
                    let rival = upto[other].classification->0;
                    if other <= chosen {
                        !ranked_below(kept, rival)
                    } else {
                        ranked_below(rival, kept)
                    }
                } by {
                    if other < index {
                        assert(before[other] == slots[other]);
                        assert(slots[other].shows(item_id@, item_kind));
                    }
                }
                assert(is_best_match(upto, item_id@, item_kind, chosen as int));
            }
        }
        index = index + 1;
    }
    assert(slots.take(slots.len() as int) =~= slots);
    match best {
        Some(chosen) => {
            proof {
                let other = choose|i: int| is_best_match(slots, item_id@, item_kind, i);
                best_match_is_unique(slots, item_id@, item_kind, chosen as int, other);
            }
            Some(DirectClickTarget { item_id: item_id.clone(), slot: result.slots[chosen].clone() })
        },
        None => {
            proof {
                visible_slot_shows_the_item(slots, item_id@, item_kind);
            }
            None
        },
    }
}

/// Twice the height of the middle of a frame, in single precision.
pub open spec fn twice_middle(slot: Slot) -> int {
    single(2 * single(slot.y as int) + single(slot.h as int))
}

/// Reading order of two slots: by the middle of the frame from the top, then from the left.
pub open spec fn reads_before(left: Slot, right: Slot) -> bool {
    ||| twice_middle(left) < twice_middle(right)
    ||| twice_middle(left) == twice_middle(right) && left.spec_center().0 < right.spec_center().0
}

/// `pick` is the first of the `remaining` items whose visible slot comes first in reading order.
pub open spec fn is_next_pick(
    slots: Seq<Slot>,
    remaining: Seq<String>,
    item_kind: ItemKind,
    pick: int,
) -> bool {
    &&& 0 <= pick < remaining.len()
    &&& visible_slot(slots, remaining[pick]@, item_kind) is Some
    &&& forall|other: int|
        0 <= other < remaining.len() && visible_slot(
            slots,
            (#[trigger] remaining[other])@,
            item_kind,
        ) is Some ==> {
            let chosen = visible_slot(slots, remaining[pick]@, item_kind)->0;
            let rival = visible_slot(slots, remaining[other]@, item_kind)->0;
            if other < pick {
                reads_before(chosen, rival)
            } else {
                !reads_before(rival, chosen)
            }
        }
}

fn find_twice_middle(slot: &Slot) -> (middle: i128)
    ensures
        middle == twice_middle(*slot),
{
    round(2 * round(slot.y as i128) + round(slot.h as i128))
}

fn is_read_before(left: &Slot, right: &Slot) -> (before: bool)
    ensures
        before == reads_before(*left, *right),
{
    let left_middle = find_twice_middle(left);
    let right_middle = find_twice_middle(right);
    if left_middle != right_middle {
        left_middle < right_middle
    } else {
        left.center().0 < right.center().0
    }
}

/// The visible one of the `remaining` items that comes first in reading order.
pub fn next_visible_target(
    result: &RoiObservation,
    remaining: &Vec<String>,
    item_kind: ItemKind,
) -> (target: Option<DirectClickTarget>)
    ensures
        match target {
            Some(found) => exists|pick: int|
                {
                    &&& #[trigger] is_next_pick(result.slots@, remaining@, item_kind, pick)
                    &&& found.item_id@ == remaining@[pick]@
                    &&& visible_slot(result.slots@, remaining@[pick]@, item_kind) == Some(
                        found.slot,
                    )
                },
            None => forall|other: int|
                0 <= other < remaining@.len() ==> visible_slot(
                    result.slots@,
                    (#[trigger] remaining@[other])@,
                    item_kind,
                ) is None,
        },
{
    let ghost slots = result.slots@;
    let mut best: Option<DirectClickTarget> = None;
    let ghost mut pick: int = 0;
    let mut index: usize = 0;
    while index < remaining.len()
        invariant
            index <= remaining.len(),
            slots == result.slots@,
            match best {
                Some(found) => {
                    &&& is_next_pick(slots, remaining@.take(index as int), item_kind, pick)
                    &&& found.item_id@ == remaining@[pick]@
                    &&& visible_slot(slots, remaining@[pick]@, item_kind) == Some(found.slot)
                },
                None => forall|other: int|
                    0 <= other < index ==> visible_slot(
                        slots,
                        (#[trigger] remaining@[other])@,
                        item_kind,
                    ) is None,
            },
        decreases remaining.len() - index,
    {
        let ghost before = remaining@.take(index as int);
        let ghost upto = remaining@.take(index + 1);
        assert(forall|i: int| 0 <= i < index ==> before[i] == upto[i]);
        if let Some(candidate) = find_visible_target(result, &remaining[index], item_kind) {
            let replace = match &best {
                Some(found) => is_read_before(&candidate.slot, &found.slot),
                None => true,
            };
            if replace {
                best = Some(candidate);
                proof {
                    pick = index as int;
                }
            }
        }
        proof {
            if best is Some {
                assert forall|other: int|
                    0 <= other < upto.len() && visible_slot(
                        slots,
                        (#[trigger] upto[other])@,
                        item_kind,
                    ) is Some implies {
                    let chosen = visible_slot(slots, upto[pick]@, item_kind)->0;
                    let rival = visible_slot(slots, upto[other]@, item_kind)->0;
                    if other < pick {
                        reads_before(chosen, rival)
                    } else {
                        !reads_before(rival, chosen)
                    }
                } by {
                    if other < index {
                        assert(before[other] == remaining@[other]);
                    }
                }
            }
        }
        index = index + 1;
    }
    assert(remaining@.take(remaining@.len() as int) =~= remaining@);
    best
}

/// The slot that is clicked for an item is the one where it was recognized with the highest quality;
/// among equals the one with the widest margin, then the highest score, then the last one.
pub proof fn the_surest_recognition_is_clicked(
    slots: Seq<Slot>,
    item_id: Seq<char>,
    item_kind: ItemKind,
    other: int,
)
    requires
        0 <= other < slots.len(),
        slots[other].kind.selectable_for(item_kind),
        slots[other].classification matches Some(found) && found.item_id@ == item_id,
    ensures
        visible_slot(slots, item_id, item_kind) is Some,
        exists|index: int|
            {
                &&& 0 <= index < slots.len()
                &&& visible_slot(slots, item_id, item_kind) == Some(#[trigger] slots[index])
                &&& slots[index].classification is Some
                &&& slots[index].classification->0.item_id@ == item_id
                &&& ({
                    let chosen = slots[index].classification->0;
                    let rival = slots[other].classification->0;
                    &&& rival.gate_quality <= chosen.gate_quality
                    &&& rival.gate_quality == chosen.gate_quality ==> rival.match_margin
                        <= chosen.match_margin
                    &&& rival.gate_quality == chosen.gate_quality && rival.match_margin
                        == chosen.match_margin ==> rival.match_score <= chosen.match_score
                    &&& rival.gate_quality == chosen.gate_quality && rival.match_margin
                        == chosen.match_margin && rival.match_score == chosen.match_score ==> other
                        <= index
                })
            },
{
    visible_slot_shows_the_item(slots, item_id, item_kind);
    assert(slots[other].shows(item_id, item_kind));
    let index = choose|index: int| is_best_match(slots, item_id, item_kind, index);
    assert(visible_slot(slots, item_id, item_kind) == Some(slots[index]));
    assert(slots[index].shows(item_id, item_kind));
}

/// An item that no selectable slot shows is not clicked.
pub proof fn unseen_items_are_not_clicked(slots: Seq<Slot>, item_id: Seq<char>, item_kind: ItemKind)
    requires
        forall|index: int|
            0 <= index < slots.len() && (#[trigger] slots[index]).kind.selectable_for(item_kind)
                && slots[index].classification is Some ==> slots[index].classification->0.item_id@
                != item_id,
    ensures
        visible_slot(slots, item_id, item_kind) is None,
{
    visible_slot_shows_the_item(slots, item_id, item_kind);
}

/// Slots are read from the top by the middle of their frames, and from the left by their centers
/// where these are equally high.
pub proof fn upper_slots_are_read_first(left: Slot, right: Slot)
    requires
        left.y < 0x20_0000,
        left.h < 0x20_0000,
        right.y < 0x20_0000,
        right.h < 0x20_0000,
    ensures
        2 * left.y + left.h < 2 * right.y + right.h ==> reads_before(left, right) && !reads_before(
            right,
            left,
        ),
        2 * left.y + left.h == 2 * right.y + right.h ==> (reads_before(left, right)
            <==> left.spec_center().0 < right.spec_center().0),
{
    small_numbers_are_kept(left.y as int);
    small_numbers_are_kept(left.h as int);
    small_numbers_are_kept(right.y as int);
    small_numbers_are_kept(right.h as int);
    small_numbers_are_kept(2 * left.y + left.h);
    small_numbers_are_kept(2 * right.y + right.h);
}

/// The item that is picked next is visible, and none of the visible ones that remain stands above
/// it, nor to the left of it at the same height. Of items in one slot the first is picked.
pub proof fn the_first_visible_item_is_picked(
    slots: Seq<Slot>,
    remaining: Seq<String>,
    item_kind: ItemKind,
    pick: int,
    other: int,
)
    requires
        is_next_pick(slots, remaining, item_kind, pick),
        0 <= other < remaining.len(),
        visible_slot(slots, remaining[other]@, item_kind) is Some,
        forall|index: int|
            0 <= index < slots.len() ==> (#[trigger] slots[index]).y < 0x20_0000 && slots[index].h
                < 0x20_0000,
    ensures
        0 <= pick < remaining.len(),
        visible_slot(slots, remaining[pick]@, item_kind) is Some,
        ({
            let chosen = visible_slot(slots, remaining[pick]@, item_kind)->0;
            let rival = visible_slot(slots, remaining[other]@, item_kind)->0;
            &&& 2 * chosen.y + chosen.h <= 2 * rival.y + rival.h
            &&& 2 * chosen.y + chosen.h == 2 * rival.y + rival.h ==> chosen.spec_center().0
                <= rival.spec_center().0
            &&& 2 * chosen.y + chosen.h == 2 * rival.y + rival.h && chosen.spec_center().0
                == rival.spec_center().0 ==> pick <= other
        }),
{
    visible_slot_shows_the_item(slots, remaining[pick]@, item_kind);
    visible_slot_shows_the_item(slots, remaining[other]@, item_kind);
    let chosen = visible_slot(slots, remaining[pick]@, item_kind)->0;
    let rival = visible_slot(slots, remaining[other]@, item_kind)->0;
    assert(remaining[other]@ == remaining[other]@);
    let at = choose|at: int| 0 <= at < slots.len() && slots[at] == chosen;
    let from = choose|from: int| 0 <= from < slots.len() && slots[from] == rival;
    assert(slots[at].y < 0x20_0000 && slots[from].y < 0x20_0000);
    upper_slots_are_read_first(chosen, rival);
    upper_slots_are_read_first(rival, chosen);
}

} // verus!
