//! Turning pages: when an input has moved the page, and when it has not.
use vstd::prelude::*;

use crate::fingerprint::{distance_of, fingerprint_distance, fingerprint_of, image_fingerprint};
use crate::item::ItemKind;
use crate::slot::SlotKind;
use crate::vision::{RoiObservation, Slot};

use super::page_relation::{compare_page_turn, relation_of, PageRelation};
use super::scroll::PageTurnInput;

verus! {

/// Milliseconds after a full turn from which a still page counts as not moved.
pub const PAGE_TURN_NO_MOVEMENT_GRACE: u64 = 250;

/// The same after a nudge.
pub const PAGE_BOUNDARY_NUDGE_NO_MOVEMENT_GRACE: u64 = 200;

/// Looks at a still page that are needed to report that it did not move.
pub const PAGE_TURN_NO_MOVEMENT_FRAMES: usize = 2;

/// Mean brightness change from which a frame counts as changed.
pub const PAGE_CHANGE_THRESHOLD: u32 = 6;

/// A recognized page and its fingerprint.
#[derive(Debug)]
pub struct PageSnapshot {
    pub roi: RoiObservation,
    pub signature: Vec<u8>,
}

/// The kind of a slot on a booster page that may not be the top page: only the page that was
/// opened first is known to show the "no booster" cell.
pub open spec fn later_page_kind(kind: SlotKind, item_kind: ItemKind) -> SlotKind {
    if item_kind == ItemKind::Booster && kind == SlotKind::NoBoosterOption {
        SlotKind::Booster
    } else {
        kind
    }
}

/// Reads the "no booster" cell of a later booster page as an ordinary booster cell.
pub fn read_as_later_page(slots: &mut Vec<Slot>, item_kind: ItemKind)
    ensures
        final(slots)@ == old(slots)@.map_values(
            |slot: Slot| Slot { kind: later_page_kind(slot.kind, item_kind), ..slot },
        ),
{
    let ghost before = slots@;
    let mut index: usize = 0;
    while index < slots.len()
        invariant
            index <= slots@.len(),
            slots@.len() == before.len(),
            before == old(slots)@,
            forall|other: int|
                0 <= other < index ==> #[trigger] slots@[other] == (Slot {
                    kind: later_page_kind(before[other].kind, item_kind),
                    ..before[other]
                }),
            forall|other: int| index <= other < before.len() ==> slots@[other] == before[other],
        decreases slots@.len() - index,
    {
        if item_kind == ItemKind::Booster && slots[index].kind == SlotKind::NoBoosterOption {
            let mut slot = slots[index].clone();
            slot.kind = SlotKind::Booster;
            slots.set(index, slot);
        }
        index = index + 1;
    }
    assert(slots@ =~= before.map_values(
        |slot: Slot| Slot { kind: later_page_kind(slot.kind, item_kind), ..slot },
    ));
}

/// A page with its fingerprint.
pub fn finish_direct_page(roi: RoiObservation) -> (page: PageSnapshot)
    requires
        roi.image.spec_width() > 0,
        roi.image.spec_height() > 0,
    ensures
        page.roi == roi,
        page.signature@ == fingerprint_of(roi.image),
{
    let signature = image_fingerprint(&roi.image);
    PageSnapshot { roi, signature }
}

/// Milliseconds after which a page that still looks the same counts as not moved.
pub open spec fn grace_of(input: PageTurnInput) -> int {
    if input is Nudge {
        200
    } else {
        250
    }
}

/// Why a frame is to be recognized.
#[derive(Clone, Copy, Debug, PartialEq, Eq, Structural)]
pub struct ScanReason {
    /// The frame differs from the last page that was recognized as unmoved.
    pub changed: bool,
    /// The page had time to move.
    pub grace_over: bool,
}

/// How a look at the page ends.
#[derive(Debug)]
pub enum PageTurnStep {
    /// Look again.
    Continue,
    /// The page moved. The shift is twice the movement in subpixels, where it could be measured.
    Moved { page: PageSnapshot, short: bool, directed_shift: Option<i128> },
    /// The page did not move.
    NoMovement(PageSnapshot),
}

/// Watching the page after a wheel input.
pub struct PageTurnWatch {
    input: PageTurnInput,
    started: u64,
    visual_reference: Vec<u8>,
    same_viewport_frames: usize,
}

/// The relation that decides: a page that could not be related counts as unmoved as long as the
/// frame has not changed.
pub open spec fn settled_relation(relation: PageRelation, changed: bool) -> PageRelation {
    if !changed && (relation is DifferentViewport || relation is Uncertain) {
        PageRelation::SameViewport
    } else {
        relation
    }
}

impl PageTurnWatch {
    pub closed spec fn input(&self) -> PageTurnInput {
        self.input
    }

    pub closed spec fn started(&self) -> int {
        self.started as int
    }

    /// Fingerprint of the last page that was recognized as unmoved.
    pub closed spec fn reference(&self) -> Seq<u8> {
        self.visual_reference@
    }

    /// How many frames were recognized as unmoved.
    pub closed spec fn same_frames(&self) -> nat {
        self.same_viewport_frames as nat
    }

    /// Starts to watch at the time of the input.
    pub fn new(current_page: &PageSnapshot, input: PageTurnInput, now: u64) -> (watch: Self)
        ensures
            watch.input() == input,
            watch.started() == now,
            watch.reference() == current_page.signature@,
            watch.same_frames() == 0,
    {
        let visual_reference = copy_bytes(&current_page.signature);
        PageTurnWatch { input, started: now, visual_reference, same_viewport_frames: 0 }
    }

    /// Whether a frame with this fingerprint is worth recognizing: nothing is recognized while
    /// the frame is unchanged and the page may still be about to move.
    pub fn wants_scan(&self, signature: &Vec<u8>, now: u64) -> (reason: Option<ScanReason>)
        requires
            self.reference().len() <= 0xff_ffff_ffff_ffff,
        ensures
            ({
                let changed = !distance_of(self.reference(), signature@).below(6);
                let grace_over = now - self.started() >= grace_of(self.input());
                reason == if changed || grace_over {
                    Some(ScanReason { changed, grace_over })
                } else {
                    None
                }
            }),
    {
        let grace: u64 = if self.input.is_nudge() {
            PAGE_BOUNDARY_NUDGE_NO_MOVEMENT_GRACE
        } else {
            PAGE_TURN_NO_MOVEMENT_GRACE
        };
        let distance = fingerprint_distance(&self.visual_reference, signature);
        let changed = !distance.is_below(PAGE_CHANGE_THRESHOLD);
        let grace_over = now >= self.started && now - self.started >= grace;
        if changed || grace_over {
            Some(ScanReason { changed, grace_over })
        } else {
            None
        }
    }

    /// Judges a recognized frame.
    pub fn judge(
        &mut self,
        current_page: &PageSnapshot,
        candidate: PageSnapshot,
        item_kind: ItemKind,
        reason: ScanReason,
    ) -> (step: PageTurnStep)
        requires
            old(self).same_frames() < usize::MAX,
        ensures
            final(self).input() == old(self).input(),
            final(self).started() == old(self).started(),
            ({
                let relation = settled_relation(
                    relation_of(
                        current_page.roi.slots@,
                        current_page.roi.image.spec_height(),
                        candidate.roi.slots@,
                        item_kind,
                        old(self).input().spec_direction(),
                    ),
                    reason.changed,
                );
                match relation {
                    PageRelation::Shifted(shift) => {
                        &&& step == (PageTurnStep::Moved {
                            page: candidate,
                            short: shift.short(),
                            directed_shift: Some(shift.directed_shift),
                        })
                        &&& final(self).same_frames() == old(self).same_frames()
                        &&& final(self).reference() == old(self).reference()
                    },
                    PageRelation::DifferentViewport | PageRelation::Uncertain => {
                        &&& step == (PageTurnStep::Moved {
                            page: candidate,
                            short: false,
                            directed_shift: None,
                        })
                        &&& final(self).same_frames() == old(self).same_frames()
                        &&& final(self).reference() == old(self).reference()
                    },
                    PageRelation::SameViewport => {
                        &&& final(self).same_frames() == old(self).same_frames() + 1
                        &&& final(self).reference() == candidate.signature@
                        &&& if reason.grace_over && final(self).same_frames() >= 2 {
                            step is NoMovement && step->NoMovement_0.roi == candidate.roi
                                && step->NoMovement_0.signature@ == candidate.signature@
                        } else {
                            step is Continue
                        }
                    },
                }
            }),
    {
        let direction = self.input.direction();
        let compared = compare_page_turn(&current_page.roi, &candidate.roi, item_kind, direction);
        let relation = match compared {
            PageRelation::DifferentViewport | PageRelation::Uncertain => if reason.changed {
                compared
            } else {
                PageRelation::SameViewport
            },
            _ => compared,
        };
        match relation {
            PageRelation::Shifted(shift) => PageTurnStep::Moved {
                page: candidate,
                short: shift.is_short(),
                directed_shift: Some(shift.directed_shift),
            },
            PageRelation::DifferentViewport | PageRelation::Uncertain => PageTurnStep::Moved {
                page: candidate,
                short: false,
                directed_shift: None,
            },
            PageRelation::SameViewport => {
                self.same_viewport_frames = self.same_viewport_frames + 1;
                if reason.grace_over && self.same_viewport_frames >= PAGE_TURN_NO_MOVEMENT_FRAMES {
                    self.visual_reference = copy_bytes(&candidate.signature);
                    PageTurnStep::NoMovement(candidate)
                } else {
                    self.visual_reference = candidate.signature;
                    PageTurnStep::Continue
                }
            },
        }
    }
}

fn copy_bytes(bytes: &Vec<u8>) -> (copy: Vec<u8>)
    ensures
        copy@ == bytes@,
{
    let mut copy: Vec<u8> = Vec::new();
    let mut index: usize = 0;
    while index < bytes.len()
        invariant
            index <= bytes@.len(),
            copy@ == bytes@.take(index as int),
        decreases bytes@.len() - index,
    {
        copy.push(bytes[index]);
        index = index + 1;
        assert(bytes@.take(index as int) =~= bytes@.take(index - 1).push(bytes@[index - 1]));
    }
    assert(bytes@.take(bytes@.len() as int) =~= bytes@);
    copy
}

/// On a later booster page every cell can be picked; elsewhere cells stay what they are.
pub proof fn later_pages_show_boosters_only(kind: SlotKind, item_kind: ItemKind)
    ensures
        item_kind == ItemKind::Stratagem ==> later_page_kind(kind, item_kind) == kind,
        kind != SlotKind::NoBoosterOption ==> later_page_kind(kind, item_kind) == kind,
        later_page_kind(SlotKind::NoBoosterOption, ItemKind::Booster).selectable_for(
            ItemKind::Booster,
        ),
{
}

/// A careful turn is given less time than a full one: 200 milliseconds in place of 250.
pub proof fn nudges_show_sooner(input: PageTurnInput)
    ensures
        input is Nudge ==> grace_of(input) == 200,
        input is Full ==> grace_of(input) == 250,
{
}

/// A frame that has not changed is never taken for another page: only a measured movement counts. A
/// frame that has changed is judged as it was compared.
pub proof fn unchanged_frames_have_not_moved(relation: PageRelation, changed: bool)
    ensures
        changed ==> settled_relation(relation, changed) == relation,
        !changed ==> settled_relation(relation, changed) is SameViewport || settled_relation(
            relation,
            changed,
        ) == relation && relation is Shifted,
        relation is Shifted || relation is SameViewport ==> settled_relation(relation, changed)
            == relation,
{
}

} // verus!
