//! Clicking one item: placing the cursor, clicking, and telling whether the click took effect.
use vstd::prelude::*;
use vstd::string::*;

use crate::item::ItemKind;
use crate::loadout::{detect_ui_state, ui_state_of, UiState};
use crate::single::{round, rounding_is_close, single};
use crate::vision::{RoiObservation, Slot};

use super::click_plan::{find_visible_target, visible_slot, DirectClickTarget};
use super::hover::{
    border_center_line_score, border_error, border_score, has_border, HoverError, HoverSample,
};
use super::page_navigation::PageSnapshot;
use super::page_relation::{
    common_identity_vertical_shift, common_shift, MAX_TWICE_SHIFT, PAGE_SHIFT_JITTER,
};

verus! {

/// Milliseconds that a mouse button is held.
pub const CLICK_HOLD_MS: u64 = 45;

/// Clicks on one item before giving up.
pub const MAX_TARGET_CLICK_ATTEMPTS: usize = 3;

/// Cursor placements on one item before giving up.
pub const MAX_HOVER_RELOCATIONS: usize = 4;

/// Pixels that a slot may lie off without having moved.
pub const TARGET_POSITION_TOLERANCE: u32 = 2;

/// Milliseconds to wait for a click to take effect.
pub const POST_CLICK_CONFIRM_TIMEOUT: u64 = 400;

/// Frames to look at before a click counts as without effect.
pub const POST_CLICK_MIN_OBSERVATIONS: u32 = 2;

/// Milliseconds to wait for the loadout home once the list has changed.
pub const TERMINAL_SETTLE_TIMEOUT: u64 = 600;

pub open spec fn apart(left: u32, right: u32) -> bool {
    left - right > 2 || right - left > 2
}

/// The slot lies more than two pixels from where it was.
pub open spec fn slot_moved(before: Slot, after: Slot) -> bool {
    apart(before.x, after.x) || apart(before.y, after.y)
}

fn beyond_tolerance(left: u32, right: u32) -> (beyond: bool)
    ensures
        beyond == apart(left, right),
{
    if left <= right {
        right - left > TARGET_POSITION_TOLERANCE
    } else {
        left - right > TARGET_POSITION_TOLERANCE
    }
}

fn has_moved(before: &Slot, after: &Slot) -> (moved: bool)
    ensures
        moved == slot_moved(*before, *after),
{
    beyond_tolerance(before.x, after.x) || beyond_tolerance(before.y, after.y)
}

/// What to do next to bring the cursor to rest on the target.
#[derive(Clone, Copy, Debug, PartialEq, Eq, Structural)]
pub enum PlacementStep {
    /// Place the cursor on the target again.
    PlaceCursor,
    /// The target lies still: wait for its highlight.
    AwaitHover,
    /// The cursor rests on the highlighted target.
    Ready,
    /// The target is no longer visible.
    LostTarget,
    /// The target did not come to rest.
    OutOfAttempts,
}

/// Placing the cursor on an item that may move under it.
#[derive(Debug)]
pub struct HoverPlacement {
    pub target: DirectClickTarget,
    /// Number of the placement under way, from one.
    pub relocation: usize,
    pub viewport_repositioned: bool,
    /// The highlight of the target failed to show at least once.
    pub hover_failed: bool,
}

impl HoverPlacement {
    pub open spec fn wf(self) -> bool {
        1 <= self.relocation <= 4
    }

    pub fn new(target: DirectClickTarget) -> (placement: Self)
        ensures
            placement.wf(),
            placement.target == target,
            placement.relocation == 1,
            !placement.viewport_repositioned,
            !placement.hover_failed,
    {
        HoverPlacement {
            target,
            relocation: 1,
            viewport_repositioned: false,
            hover_failed: false,
        }
    }

    /// Judges the page that shows after the cursor was placed on the target.
    pub fn see_page(&mut self, page: &RoiObservation, item_kind: ItemKind) -> (step: PlacementStep)
        requires
            old(self).wf(),
        ensures
            final(self).wf(),
            final(self).hover_failed == old(self).hover_failed,
            final(self).target.item_id@ == old(self).target.item_id@,
            match visible_slot(page.slots@, old(self).target.item_id@, item_kind) {
                None => step == PlacementStep::LostTarget && *final(self) == *old(self),
                Some(slot) => {
                    let moved = slot_moved(old(self).target.slot, slot);
                    &&& final(self).target.slot == slot
                    &&& final(self).viewport_repositioned == (old(self).viewport_repositioned
                        || moved)
                    &&& if !moved {
                        step == PlacementStep::AwaitHover
                            && final(self).relocation == old(self).relocation
                    } else if old(self).relocation < 4 {
                        step == PlacementStep::PlaceCursor
                            && final(self).relocation == old(self).relocation + 1
                    } else {
                        step == PlacementStep::OutOfAttempts
                            && final(self).relocation == old(self).relocation
                    }
                },
            },
    {
        let relocated = match find_visible_target(page, &self.target.item_id, item_kind) {
            Some(target) => target,
            None => return PlacementStep::LostTarget,
        };
        let moved = has_moved(&self.target.slot, &relocated.slot);
        self.target = relocated;
        if !moved {
            return PlacementStep::AwaitHover;
        }
        self.viewport_repositioned = true;
        self.next_placement()
    }

    /// Judges the wait for the highlight.
    pub fn see_hover(&mut self, confirmed: bool) -> (step: PlacementStep)
        requires
            old(self).wf(),
        ensures
            final(self).wf(),
            final(self).target == old(self).target,
            final(self).viewport_repositioned == old(self).viewport_repositioned,
            final(self).hover_failed == (old(self).hover_failed || !confirmed),
            if confirmed {
                step == PlacementStep::Ready && final(self).relocation == old(self).relocation
            } else if old(self).relocation < 4 {
                step == PlacementStep::PlaceCursor
                    && final(self).relocation == old(self).relocation + 1
            } else {
                step == PlacementStep::OutOfAttempts
                    && final(self).relocation == old(self).relocation
            },
    {
        if confirmed {
            return PlacementStep::Ready;
        }
        self.hover_failed = true;
        self.next_placement()
    }

    fn next_placement(&mut self) -> (step: PlacementStep)
        requires
            old(self).wf(),
        ensures
            final(self).wf(),
            final(self).target == old(self).target,
            final(self).viewport_repositioned == old(self).viewport_repositioned,
            final(self).hover_failed == old(self).hover_failed,
            if old(self).relocation < 4 {
                step == PlacementStep::PlaceCursor
                    && final(self).relocation == old(self).relocation + 1
            } else {
                step == PlacementStep::OutOfAttempts
                    && final(self).relocation == old(self).relocation
            },
    {
        if self.relocation < MAX_HOVER_RELOCATIONS {
            self.relocation = self.relocation + 1;
            PlacementStep::PlaceCursor
        } else {
            PlacementStep::OutOfAttempts
        }
    }
}

/// Twice the distance, in subpixels, of a slot's center from a predicted height, as a difference of
/// single precision.
pub open spec fn row_offset(slot: Slot, twice_predicted: int) -> int {
    let offset = single(2 * slot.center_y - twice_predicted);
    if offset < 0 {
        -offset
    } else {
        offset
    }
}

pub open spec fn in_column(slot: Slot, item_kind: ItemKind, col: u32) -> bool {
    slot.kind.selectable_for(item_kind) && slot.col == col
}

/// `index` is the selectable slot of the column that lies closest to the predicted height, the
/// first of equals.
pub open spec fn is_closest_row(
    slots: Seq<Slot>,
    item_kind: ItemKind,
    col: u32,
    twice_predicted: int,
    index: int,
) -> bool {
    &&& 0 <= index < slots.len()
    &&& in_column(slots[index], item_kind, col)
    &&& forall|other: int|
        0 <= other < slots.len() && in_column(#[trigger] slots[other], item_kind, col) ==> if other
            < index {
            row_offset(slots[index], twice_predicted) < row_offset(slots[other], twice_predicted)
        } else {
            row_offset(slots[index], twice_predicted) <= row_offset(slots[other], twice_predicted)
        }
}

/// The slot that shows the clicked item after the page moved by half of `twice_shift`: the slot
/// where the item is recognized, or else the closest slot of its column, at most four pixels off.
pub open spec fn tracked_slot(
    slots: Seq<Slot>,
    item_kind: ItemKind,
    item_id: Seq<char>,
    clicked: Slot,
    twice_shift: int,
) -> Option<Slot> {
    let predicted = single(2 * clicked.center_y + twice_shift);
    if visible_slot(slots, item_id, item_kind) is Some {
        visible_slot(slots, item_id, item_kind)
    } else if exists|index: int| #[trigger]
        is_closest_row(slots, item_kind, clicked.col, predicted, index) && row_offset(
            slots[index],
            predicted,
        ) <= 0x800_0000 {
        Some(
            slots[choose|index: int| #[trigger]
                is_closest_row(slots, item_kind, clicked.col, predicted, index)],
        )
    } else {
        None
    }
}

/// The slot that shows the clicked item after the page moved.
pub fn track_post_click_slot(
    page: &RoiObservation,
    item_kind: ItemKind,
    clicked_target: &DirectClickTarget,
    twice_shift: i128,
) -> (slot: Option<Slot>)
    requires
        -MAX_TWICE_SHIFT <= twice_shift <= MAX_TWICE_SHIFT,
    ensures
        slot == tracked_slot(
            page.slots@,
            item_kind,
            clicked_target.item_id@,
            clicked_target.slot,
            twice_shift as int,
        ),
{
    if let Some(target) = find_visible_target(page, &clicked_target.item_id, item_kind) {
        return Some(target.slot);
    }
    let ghost slots = page.slots@;
    let predicted = round(2 * clicked_target.slot.center_y as i128 + twice_shift);
    let col: u32 = clicked_target.slot.col;
    let mut best: Option<usize> = None;
    let mut best_offset: i128 = 0;
    let mut index: usize = 0;
    while index < page.slots.len()
        invariant
            index <= slots.len(),
            slots == page.slots@,
            col == clicked_target.slot.col,
            -0x100_0000_0000_0000_0000 <= predicted <= 0x100_0000_0000_0000_0000,
            match best {
                Some(chosen) => {
                    &&& chosen < index
                    &&& in_column(slots[chosen as int], item_kind, col)
                    &&& best_offset == row_offset(slots[chosen as int], predicted as int)
                    &&& forall|other: int|
                        0 <= other < index && in_column(#[trigger] slots[other], item_kind, col)
                            ==> if other < chosen {
                            best_offset < row_offset(slots[other], predicted as int)
                        } else {
                            best_offset <= row_offset(slots[other], predicted as int)
                        }
                },
                None => forall|other: int|
                    0 <= other < index ==> !in_column(#[trigger] slots[other], item_kind, col),
            },
        decreases slots.len() - index,
    {
        let slot = &page.slots[index];
        if slot.kind.is_selectable_item_for(item_kind) && slot.col == col {
            let signed = round(2 * slot.center_y as i128 - predicted);
            let offset: i128 = if signed < 0 {
                -signed
            } else {
                signed
            };
            let closer = match best {
                Some(_) => offset < best_offset,
                None => true,
            };
            if closer {
                best = Some(index);
                best_offset = offset;
            }
        }
        index = index + 1;
    }
    match best {
        Some(chosen) => {
            proof {
                assert(is_closest_row(slots, item_kind, col, predicted as int, chosen as int));
                assert forall|other: int| #[trigger]
                    is_closest_row(slots, item_kind, col, predicted as int, other) implies other
                    == chosen by {
                    assert(in_column(slots[other], item_kind, col));
                    assert(in_column(slots[chosen as int], item_kind, col));
                }
            }
            if best_offset <= 0x800_0000 {
                Some(page.slots[chosen].clone())
            } else {
                None
            }
        },
        None => {
            proof {
                assert forall|other: int| !#[trigger] is_closest_row(
                    slots,
                    item_kind,
                    col,
                    predicted as int,
                    other,
                ) by {
                    if 0 <= other < slots.len() {
                        assert(!in_column(slots[other], item_kind, col));
                    }
                }
            }
            None
        },
    }
}

/// What a click on an item that stays in the list led to.
#[derive(Debug)]
pub enum PostClickObservation {
    /// The item was selected. `moved` tells that the page moved with it.
    Selected { page: PageSnapshot, moved: bool },
    /// The item looks as before. The score is in quarters.
    Unchanged { slot: Slot, page: PageSnapshot, after_score: i128 },
}

/// How a look at the page after a click ends.
#[derive(Debug)]
pub enum PostClickStep {
    Continue,
    Observed(PostClickObservation),
    /// The clicked slot has no kind of item.
    NoItemKind,
    /// The clicked item could not be found again in time.
    CannotTrack,
    /// The frame of the found slot cannot be sampled.
    Unreadable(HoverError),
}

/// Watching the page after a click.
#[derive(Clone, Copy, Debug, PartialEq, Eq, Structural)]
pub struct PostClickWatch {
    pub started: u64,
    pub observation: u32,
}

/// The page moved by more than two pixels.
pub open spec fn page_moved(shift: Option<int>) -> bool {
    shift matches Some(twice) && (twice > PAGE_SHIFT_JITTER || twice < -PAGE_SHIFT_JITTER)
}

impl PostClickWatch {
    /// Enough time has passed and enough frames were seen to call the click without effect.
    pub open spec fn is_over(self, now: int) -> bool {
        now - self.started >= 400 && self.observation >= 2
    }

    pub fn new(now: u64) -> (watch: Self)
        ensures
            watch == (PostClickWatch { started: now, observation: 0 }),
    {
        PostClickWatch { started: now, observation: 0 }
    }

    /// Judges one page: a moved page or a darker slot means that the item was selected.
    pub fn step(
        &mut self,
        page: PageSnapshot,
        clicked_target: &DirectClickTarget,
        before: &HoverSample,
        before_slots: &Vec<Slot>,
        now: u64,
    ) -> (step: PostClickStep)
        requires
            old(self).observation < u32::MAX,
            0 <= before.target_score <= 1020,
        ensures
            final(self).started == old(self).started,
            final(self).observation == old(self).observation + 1,
            match clicked_target.slot.kind.spec_classification_kind() {
                None => step is NoItemKind,
                Some(item_kind) => {
                    let shift = common_shift(before_slots@, page.roi.slots@, item_kind);
                    let found = tracked_slot(
                        page.roi.slots@,
                        item_kind,
                        clicked_target.item_id@,
                        clicked_target.slot,
                        if shift is Some {
                            shift->0
                        } else {
                            0
                        },
                    );
                    if page_moved(shift) {
                        step == PostClickStep::Observed(
                            PostClickObservation::Selected { page, moved: true },
                        )
                    } else if found is None {
                        if final(self).is_over(now as int) {
                            step is CannotTrack
                        } else {
                            step is Continue
                        }
                    } else if !has_border(page.roi.image, found->0) {
                        step == PostClickStep::Unreadable(
                            border_error(page.roi.image, found->0),
                        )
                    } else {
                        let after = border_score(page.roi.image, found->0);
                        if (HoverSample { target_score: after as i128 }).dimmer_than(*before) {
                            step == PostClickStep::Observed(
                                PostClickObservation::Selected { page, moved: false },
                            )
                        } else if final(self).is_over(now as int) {
                            step == PostClickStep::Observed(
                                PostClickObservation::Unchanged {
                                    slot: found->0,
                                    page,
                                    after_score: after as i128,
                                },
                            )
                        } else {
                            step is Continue
                        }
                    }
                },
            },
    {
        self.observation = self.observation + 1;
        let item_kind = match clicked_target.slot.kind.classification_kind() {
            Some(item_kind) => item_kind,
            None => return PostClickStep::NoItemKind,
        };
        let over = now >= self.started && now - self.started >= POST_CLICK_CONFIRM_TIMEOUT
            && self.observation >= POST_CLICK_MIN_OBSERVATIONS;
        let shift = common_identity_vertical_shift(before_slots, &page.roi, item_kind);
        let twice_shift: i128 = match shift {
            Some(twice) => twice,
            None => 0,
        };
        if twice_shift > PAGE_SHIFT_JITTER || twice_shift < -PAGE_SHIFT_JITTER {
            return PostClickStep::Observed(PostClickObservation::Selected { page, moved: true });
        }
        let slot = match track_post_click_slot(&page.roi, item_kind, clicked_target, twice_shift) {
            Some(slot) => slot,
            None => return if over {
                PostClickStep::CannotTrack
            } else {
                PostClickStep::Continue
            },
        };
        let after_score: i128 = match border_center_line_score(&page.roi.image, &slot) {
            Ok(score) => score,
            Err(error) => return PostClickStep::Unreadable(error),
        };
        let sample = HoverSample { target_score: after_score };
        if sample.is_dimmer_than(before) {
            PostClickStep::Observed(PostClickObservation::Selected { page, moved: false })
        } else if over {
            PostClickStep::Observed(PostClickObservation::Unchanged { slot, page, after_score })
        } else {
            PostClickStep::Continue
        }
    }
}

/// How a wait for the loadout home goes on.
#[derive(Clone, Copy, Debug, PartialEq, Eq, Structural)]
pub enum TerminalHomeStep {
    Continue,
    /// The loadout home is shown, with its slots filled.
    Home,
    TimedOut,
}

/// Waiting for the loadout home after the final click.
#[derive(Clone, Copy, Debug, PartialEq, Eq, Structural)]
pub struct TerminalHomeWatch {
    pub started: u64,
    pub timeout: u64,
}

impl TerminalHomeWatch {
    pub fn new(timeout: u64, now: u64) -> (watch: Self)
        ensures
            watch == (TerminalHomeWatch { started: now, timeout }),
    {
        TerminalHomeWatch { started: now, timeout }
    }

    /// Judges one look: the page that was seen, where slots were found on it. A filled home ends
    /// the wait even when the time is over.
    pub fn step(&self, seen: Option<&RoiObservation>, now: u64) -> (step: TerminalHomeStep)
        ensures
            step == if seen matches Some(page) && ui_state_of(page.layout, page.slots@)
                == UiState::HomeFilled {
                TerminalHomeStep::Home
            } else if now >= self.started && now - self.started >= self.timeout {
                TerminalHomeStep::TimedOut
            } else {
                TerminalHomeStep::Continue
            },
    {
        if let Some(page) = seen {
            if detect_ui_state(page) == UiState::HomeFilled {
                return TerminalHomeStep::Home;
            }
        }
        if now >= self.started && now - self.started >= self.timeout {
            TerminalHomeStep::TimedOut
        } else {
            TerminalHomeStep::Continue
        }
    }
}

/// Whether the final click left its item where and as bright as it was: the slot to click again,
/// or nothing if the item has moved, dimmed or gone.
pub fn unchanged_terminal_target(
    page: &RoiObservation,
    item_kind: ItemKind,
    clicked_target: &DirectClickTarget,
    before: &HoverSample,
) -> (retry: Result<Option<DirectClickTarget>, HoverError>)
    requires
        0 <= before.target_score <= 1020,
    ensures
        match visible_slot(page.slots@, clicked_target.item_id@, item_kind) {
            None => retry == Ok::<Option<DirectClickTarget>, HoverError>(None),
            Some(slot) => if !has_border(page.image, slot) {
                retry == Err::<Option<DirectClickTarget>, HoverError>(
                    border_error(page.image, slot),
                )
            } else if slot_moved(clicked_target.slot, slot) || (HoverSample {
                target_score: border_score(page.image, slot) as i128,
            }).dimmer_than(*before) {
                retry == Ok::<Option<DirectClickTarget>, HoverError>(None)
            } else {
                retry matches Ok(Some(target)) && target.slot == slot && target.item_id@
                    == clicked_target.item_id@
            },
        },
{
    let target = match find_visible_target(page, &clicked_target.item_id, item_kind) {
        Some(target) => target,
        None => return Ok(None),
    };
    let moved = has_moved(&clicked_target.slot, &target.slot);
    let score: i128 = match border_center_line_score(&page.image, &target.slot) {
        Ok(score) => score,
        Err(error) => return Err(error),
    };
    let sample = HoverSample { target_score: score };
    if moved || sample.is_dimmer_than(before) {
        Ok(None)
    } else {
        Ok(Some(target))
    }
}

/// A slot has moved just where it lies three pixels or more from where it was, in either direction.
/// It does not matter which of the two places came first.
pub proof fn small_moves_are_no_moves(before: Slot, after: Slot)
    ensures
        slot_moved(before, after) == slot_moved(after, before),
        !slot_moved(before, before),
        !slot_moved(before, after) <==> {
            &&& before.x <= after.x + 2 && after.x <= before.x + 2
            &&& before.y <= after.y + 2 && after.y <= before.y + 2
        },
{
}

/// How far a slot lies from a predicted height is what lies between them, up to a rounding that is
/// far below a pixel.
pub proof fn offsets_are_distances(slot: Slot, predicted: int)
    requires
        slot.center_y < 0x20_0000_0000,
        -0x40_0000_0000 < predicted < 0x40_0000_0000,
    ensures
        row_offset(slot, predicted) >= 0,
        row_offset(slot, predicted) <= 2 * slot.center_y - predicted + 0x8000 || row_offset(
            slot,
            predicted,
        ) <= predicted - 2 * slot.center_y + 0x8000,
        row_offset(slot, predicted) >= 2 * slot.center_y - predicted - 0x8000,
        row_offset(slot, predicted) >= predicted - 2 * slot.center_y - 0x8000,
{
    let exact = 2 * slot.center_y - predicted;
    if exact < 0 {
        rounding_is_close(-exact);
    } else {
        rounding_is_close(exact);
    }
}

/// Where a clicked item is found again: in the slot where it is recognized, if it is; otherwise in
/// the slot of its column that lies closest to where it has to be after the page moved, at most four
/// pixels off.
pub proof fn clicked_items_are_found_in_their_column(
    slots: Seq<Slot>,
    item_kind: ItemKind,
    item_id: Seq<char>,
    clicked: Slot,
    twice_shift: int,
    other: int,
)
    requires
        0 <= other < slots.len(),
        slots[other].kind.selectable_for(item_kind),
        slots[other].col == clicked.col,
        clicked.center_y < 0x10_0000_0000,
        -0x10_0000_0000 < twice_shift < 0x10_0000_0000,
        forall|index: int|
            0 <= index < slots.len() ==> (#[trigger] slots[index]).center_y < 0x10_0000_0000,
    ensures
        visible_slot(slots, item_id, item_kind) is Some ==> tracked_slot(
            slots,
            item_kind,
            item_id,
            clicked,
            twice_shift,
        ) == visible_slot(slots, item_id, item_kind),
        visible_slot(slots, item_id, item_kind) is None ==> match tracked_slot(
            slots,
            item_kind,
            item_id,
            clicked,
            twice_shift,
        ) {
            Some(found) => {
                let off = 2 * found.center_y - (2 * clicked.center_y + twice_shift);
                let other_off = 2 * slots[other].center_y - (2 * clicked.center_y + twice_shift);
                &&& slots.contains(found)
                &&& found.kind.selectable_for(item_kind)
                &&& found.col == clicked.col
                &&& -0x801_0000 <= off <= 0x801_0000
                &&& (0 <= off ==> off <= other_off + 0x2_0000 || off <= 0x2_0000 - other_off)
                &&& (off <= 0 ==> -off <= other_off + 0x2_0000 || -off <= 0x2_0000 - other_off)
            },
            None => {
                let other_off = 2 * slots[other].center_y - (2 * clicked.center_y + twice_shift);
                other_off > 0x7ff_0000 || other_off < -0x7ff_0000
            },
        },
{
    let aim = 2 * clicked.center_y + twice_shift;
    let predicted = single(aim);
    if aim < 0 {
        rounding_is_close(-aim);
    } else {
        rounding_is_close(aim);
    }
    assert(slots[other].center_y < 0x10_0000_0000);
    assert(in_column(slots[other], item_kind, clicked.col));
    offsets_are_distances(slots[other], predicted);
    if visible_slot(slots, item_id, item_kind) is None {
        closest_row_exists(slots, item_kind, clicked.col, predicted, other);
        let index = choose|index: int| #[trigger]
            is_closest_row(slots, item_kind, clicked.col, predicted, index);
        assert(slots[index].center_y < 0x10_0000_0000);
        offsets_are_distances(slots[index], predicted);
        assert(row_offset(slots[index], predicted) <= row_offset(slots[other], predicted));
        assert(slots.contains(slots[index]));
        assert forall|left: int| #[trigger]
            is_closest_row(slots, item_kind, clicked.col, predicted, left) implies left == index by {
            assert(in_column(slots[left], item_kind, clicked.col));
            assert(in_column(slots[index], item_kind, clicked.col));
        }
    }
}

/// The first of the eligible places with the lowest key.
spec fn is_first_lowest(
    eligible: spec_fn(int) -> bool,
    key: spec_fn(int) -> int,
    count: int,
    index: int,
) -> bool {
    &&& 0 <= index < count
    &&& eligible(index)
    &&& forall|at: int|
        0 <= at < count && #[trigger] eligible(at) ==> if at < index {
            key(index) < key(at)
        } else {
            key(index) <= key(at)
        }
}

proof fn first_lowest_exists(
    eligible: spec_fn(int) -> bool,
    key: spec_fn(int) -> int,
    count: int,
    other: int,
) -> (index: int)
    requires
        0 <= other < count,
        eligible(other),
    ensures
        is_first_lowest(eligible, key, count, index),
    decreases count,
{
    let last = count - 1;
    if exists|at: int| 0 <= at < last && #[trigger] eligible(at) {
        let at = choose|at: int| 0 <= at < last && #[trigger] eligible(at);
        let front = first_lowest_exists(eligible, key, last, at);
        if eligible(last) && key(last) < key(front) {
            last
        } else {
            front
        }
    } else {
        last
    }
}

proof fn closest_row_exists(
    slots: Seq<Slot>,
    item_kind: ItemKind,
    col: u32,
    predicted: int,
    other: int,
)
    requires
        0 <= other < slots.len(),
        in_column(slots[other], item_kind, col),
    ensures
        exists|index: int| #[trigger] is_closest_row(slots, item_kind, col, predicted, index),
{
    let eligible = |at: int| in_column(slots[at], item_kind, col);
    let key = |at: int| row_offset(slots[at], predicted);
    let index = first_lowest_exists(eligible, key, slots.len() as int, other);
    assert forall|at: int| 0 <= at < slots.len() && in_column(
        #[trigger] slots[at],
        item_kind,
        col,
    ) implies if at < index {
        row_offset(slots[index], predicted) < row_offset(slots[at], predicted)
    } else {
        row_offset(slots[index], predicted) <= row_offset(slots[at], predicted)
    } by {
        assert(eligible(at));
        assert(key(at) == row_offset(slots[at], predicted));
        assert(key(index) == row_offset(slots[index], predicted));
    }
    assert(eligible(index));
    assert(is_closest_row(slots, item_kind, col, predicted, index));
}

/// A page has moved just where what both pages show lies more than two pixels off.
pub proof fn two_pixels_are_no_move(shift: Option<int>)
    ensures
        page_moved(shift) <==> shift is Some && (shift->0 > 2 * (2 * 0x100_0000) || shift->0 < -2 * (2
            * 0x100_0000)),
{
}

/// A click is called without effect after four tenths of a second and two looks, not before.
pub proof fn clicks_have_time_to_take_effect(watch: PostClickWatch, now: int)
    ensures
        watch.is_over(now) <==> now >= watch.started + 400 && watch.observation > 1,
{
}

} // verus!
