//! Picking all items of a preset from an open list.
use vstd::prelude::*;
use vstd::string::*;

use crate::app_events::AppEvent;
use crate::item::ItemKind;
use crate::text::{decimal, push_decimal, text_of};
use crate::vision::Slot;

use super::click_plan::{
    find_visible_target, is_next_pick, next_visible_target, visible_slot, DirectClickTarget,
};
use super::list_map::{
    alignments, dominant, extended_base, hint_for, recorded, ListMap, NavigationHint,
};
use super::page_navigation::PageSnapshot;
use super::scroll::{PageTurnInput, ScrollDirection};

verus! {

/// Wheel inputs between two selected items before giving up.
pub const MAX_WHEEL_INPUTS: u32 = 20;

/// A page turn that is to be made.
#[derive(Clone, Copy, Debug, PartialEq, Eq, Structural)]
pub struct PageTurn {
    pub input: PageTurnInput,
    /// The item is mapped to the edge of the page, and the turn is to bring it inside.
    pub recenter: bool,
}

/// Why an item could not be picked.
#[derive(Debug)]
pub enum SelectionFailure {
    /// Not found within the allowed number of wheel inputs.
    WheelInputsExhausted { item_id: String },
    /// The map puts the item inside the page, but it was not recognized there.
    MappedNotRecognized { item_id: String },
    /// The end of the list was reached.
    BoundaryReached { item_id: String, recentered: bool, direction: ScrollDirection },
    /// Selecting the item moved the page to where nothing is mapped.
    LandmarksLost { item_id: String },
}

/// Why the item of a failure could not be found at the end of a list.
pub open spec fn boundary_reason(recentered: bool) -> &'static str {
    if recentered {
        " could not be recognized after recentering before the "
    } else {
        " was not found before the "
    }
}

impl SelectionFailure {
    pub open spec fn spec_message(&self, item_kind: ItemKind) -> Seq<char> {
        match self {
            SelectionFailure::WheelInputsExhausted { item_id } => item_kind.spec_label()@
                + " preset item "@ + item_id@ + " not found after "@ + decimal(
                MAX_WHEEL_INPUTS as nat,
            ) + " wheel inputs"@,
            SelectionFailure::MappedNotRecognized { item_id } => "mapped target item "@ + item_id@
                + " was not recognized in its expected visible row"@,
            SelectionFailure::BoundaryReached { item_id, recentered, direction } => "target item "@
                + item_id@ + boundary_reason(*recentered)@ + direction.spec_boundary_label()@
                + " of the "@ + item_kind.spec_label()@ + " list"@,
            SelectionFailure::LandmarksLost { item_id } => "target item "@ + item_id@
                + " changed the viewport without a shared landmark for the temporary list map"@,
        }
    }

    /// The message of a selection from a list of this kind.
    pub fn message(&self, item_kind: ItemKind) -> (message: String)
        ensures
            message@ == self.spec_message(item_kind),
    {
        match self {
            SelectionFailure::WheelInputsExhausted { item_id } => {
                let mut message = text_of(item_kind.label());
                message.append(" preset item ");
                message.append(item_id.as_str());
                message.append(" not found after ");
                push_decimal(&mut message, MAX_WHEEL_INPUTS as u64);
                message.append(" wheel inputs");
                message
            },
            SelectionFailure::MappedNotRecognized { item_id } => {
                let mut message = text_of("mapped target item ");
                message.append(item_id.as_str());
                message.append(" was not recognized in its expected visible row");
                message
            },
            SelectionFailure::BoundaryReached { item_id, recentered, direction } => {
                let mut message = text_of("target item ");
                message.append(item_id.as_str());
                if *recentered {
                    message.append(" could not be recognized after recentering before the ");
                } else {
                    message.append(" was not found before the ");
                }
                message.append(direction.boundary_label());
                message.append(" of the ");
                message.append(item_kind.label());
                message.append(" list");
                message
            },
            SelectionFailure::LandmarksLost { item_id } => {
                let mut message = text_of("target item ");
                message.append(item_id.as_str());
                message.append(
                    " changed the viewport without a shared landmark for the temporary list map",
                );
                message
            },
        }
    }
}

/// What is to be done next.
#[derive(Debug)]
pub enum SelectionStep {
    /// Click this item.
    Click { target: DirectClickTarget, final_requested_item: bool },
    /// Turn the page.
    Turn(PageTurn),
    Fail(SelectionFailure),
}

/// Where the selection of an item ended.
#[derive(Debug)]
pub enum TargetSelectionOutcome {
    /// The list is still open.
    List { page: PageSnapshot, viewport_repositioned: bool },
    /// The loadout home came back.
    Home,
}

/// What a page turn led to.
#[derive(Debug)]
pub enum PageTurnResult {
    Moved { page: PageSnapshot, short: bool },
    NoMovement(PageSnapshot),
}

/// How the selection goes on.
pub enum SelectionProgress {
    Continue(ListSelection),
    Finished,
    Failed(SelectionFailure),
}

/// The selection of the items of a preset.
pub struct ListSelection {
    item_kind: ItemKind,
    apply_in_saved_order: bool,
    requested: usize,
    remaining: Vec<String>,
    wheel_attempts: u32,
    boundary_candidate: Option<ScrollDirection>,
    page: PageSnapshot,
    list_map: ListMap,
}

/// The texts of a list of items.
pub open spec fn names(items: Seq<String>) -> Seq<Seq<char>> {
    items.map_values(|item: String| item@)
}

/// The items other than `item_id`, in their order.
pub open spec fn without(items: Seq<Seq<char>>, item_id: Seq<char>) -> Seq<Seq<char>>
    decreases items.len(),
{
    if items.len() == 0 {
        items
    } else if items.last() == item_id {
        without(items.drop_last(), item_id)
    } else {
        without(items.drop_last(), item_id).push(items.last())
    }
}

proof fn without_is_shorter(items: Seq<Seq<char>>, item_id: Seq<char>)
    ensures
        without(items, item_id).len() <= items.len(),
        items.contains(item_id) ==> without(items, item_id).len() < items.len(),
    decreases items.len(),
{
    if items.len() > 0 {
        let front = items.drop_last();
        without_is_shorter(front, item_id);
        if items.last() != item_id && items.contains(item_id) {
            let index = choose|index: int| 0 <= index < items.len() && items[index] == item_id;
            assert(front[index] == item_id);
        }
    }
}

proof fn without_keeps_the_others(items: Seq<Seq<char>>, item_id: Seq<char>)
    ensures
        forall|other: Seq<char>| #[trigger]
            without(items, item_id).contains(other) <==> items.contains(other) && other != item_id,
    decreases items.len(),
{
    if items.len() > 0 {
        let front = items.drop_last();
        let last = items.last();
        let rest = without(front, item_id);
        without_keeps_the_others(front, item_id);
        assert forall|other: Seq<char>| #[trigger]
            without(items, item_id).contains(other) <==> items.contains(other) && other
                != item_id by {
            assert(items =~= front.push(last));
            vstd::seq_lib::lemma_seq_contains_after_push(front, last, other);
            vstd::seq_lib::lemma_seq_contains_after_push(rest, last, other);
            assert(front.push(last).contains(other) <==> front.contains(other) || other == last);
            assert(rest.push(last).contains(other) <==> rest.contains(other) || other == last);
        }
    }
}

/// Every item of a selection is reported once: where no item is asked for twice, each report of a
/// selected item takes that item, and only that one, off the items that remain.
pub proof fn items_are_reported_once(items: Seq<Seq<char>>, item_id: Seq<char>)
    requires
        items.no_duplicates(),
        items.contains(item_id),
    ensures
        without(items, item_id).len() + 1 == items.len(),
        without(items, item_id).no_duplicates(),
        !without(items, item_id).contains(item_id),
        forall|other: Seq<char>|
            other != item_id && items.contains(other) ==> #[trigger] without(
                items,
                item_id,
            ).contains(other),
    decreases items.len(),
{
    broadcast use vstd::seq_lib::group_seq_properties;

    let front = items.drop_last();
    let last = items.last();
    assert(items =~= front.push(last));
    without_keeps_the_others(items, item_id);
    without_keeps_the_others(front, item_id);
    assert(!front.contains(last)) by {
        assert forall|at: int| 0 <= at < front.len() implies front[at] != last by {
            assert(items[at] != items[items.len() - 1]);
        }
    }
    if last == item_id {
        without_absent(front, item_id);
    } else {
        items_are_reported_once(front, item_id);
        let rest = without(front, item_id);
        assert(!rest.contains(last));
    }
}

proof fn without_absent(items: Seq<Seq<char>>, item_id: Seq<char>)
    requires
        !items.contains(item_id),
    ensures
        without(items, item_id) == items,
    decreases items.len(),
{
    if items.len() > 0 {
        let front = items.drop_last();
        assert forall|at: int| 0 <= at < front.len() implies front[at] != item_id by {
            assert(items[at] == front[at]);
        }
        without_absent(front, item_id);
        assert(items[items.len() - 1] == items.last());
        assert(items =~= front.push(items.last()));
    }
}

fn remove_item(items: &Vec<String>, item_id: &String) -> (rest: Vec<String>)
    ensures
        names(rest@) == without(names(items@), item_id@),
{
    let mut rest: Vec<String> = Vec::new();
    let mut index: usize = 0;
    assert(names(items@).take(0) =~= Seq::empty());
    assert(names(rest@) =~= Seq::empty());
    while index < items.len()
        invariant
            index <= items@.len(),
            names(rest@) == without(names(items@).take(index as int), item_id@),
        decreases items@.len() - index,
    {
        let ghost before = rest@;
        assert(names(items@).take(index + 1).drop_last() =~= names(items@).take(index as int));
        if items[index] != *item_id {
            rest.push(items[index].clone());
            assert(names(rest@) =~= names(before).push(items@[index as int]@));
        }
        index = index + 1;
    }
    assert(names(items@).take(items@.len() as int) =~= names(items@));
    rest
}

/// The page turn that a hint asks for: a careful one to recenter or where the end of the list is
/// expected, a full one otherwise.
pub open spec fn turn_for(
    hint: NavigationHint,
    boundary_candidate: Option<ScrollDirection>,
) -> Option<PageTurn> {
    match hint {
        NavigationHint::Scroll(direction) => Some(
            PageTurn {
                input: if boundary_candidate == Some(direction) {
                    PageTurnInput::Nudge(direction)
                } else {
                    PageTurnInput::Full(direction)
                },
                recenter: false,
            },
        ),
        NavigationHint::Recenter(direction) => Some(
            PageTurn { input: PageTurnInput::Nudge(direction), recenter: true },
        ),
        NavigationHint::ExpectedVisible => None,
    }
}

impl ListSelection {
    pub closed spec fn kind(&self) -> ItemKind {
        self.item_kind
    }

    pub closed spec fn in_saved_order(&self) -> bool {
        self.apply_in_saved_order
    }

    /// Number of items that were asked for.
    pub closed spec fn requested(&self) -> nat {
        self.requested as nat
    }

    /// The items that are still to be selected.
    pub closed spec fn items(&self) -> Seq<String> {
        self.remaining@
    }

    /// Wheel inputs since the last selected item.
    pub closed spec fn wheel(&self) -> nat {
        self.wheel_attempts as nat
    }

    /// The direction in which the end of the list is expected next.
    pub closed spec fn boundary(&self) -> Option<ScrollDirection> {
        self.boundary_candidate
    }

    pub closed spec fn current(&self) -> PageSnapshot {
        self.page
    }

    pub closed spec fn map(&self) -> ListMap {
        self.list_map
    }

    pub open spec fn slots(&self) -> Seq<Slot> {
        self.current().roi.slots@
    }

    /// Items remain, and the map has been moved no more often than pages were turned
    /// and items selected.
    pub open spec fn wf(&self) -> bool {
        &&& 0 < self.items().len() <= self.requested() <= usize::MAX
        &&& self.wheel() <= 20
        &&& self.map().wf()
        &&& self.map().moves() <= 21 * (self.requested() - self.items().len()) + self.wheel()
    }

    /// A bound of the clicks and page turns that are still to come.
    pub open spec fn steps_left(&self) -> int {
        21 * self.items().len() - self.wheel()
    }

    /// Starts on the page that the list opened with, and reports what was asked for.
    pub fn new(
        items: Vec<String>,
        item_kind: ItemKind,
        page: PageSnapshot,
        apply_in_saved_order: bool,
    ) -> (started: (Self, AppEvent))
        requires
            items@.len() > 0,
        ensures
            started.1 == (AppEvent::ListSelectionStarted {
                item_kind,
                requested_items: items@.len() as usize,
            }),
            started.0.wf(),
            started.0.kind() == item_kind,
            started.0.in_saved_order() == apply_in_saved_order,
            started.0.requested() == items@.len(),
            started.0.items() == items@,
            started.0.wheel() == 0,
            started.0.boundary() is None,
            started.0.current() == page,
            started.0.map().base() == 0,
            started.0.map().items() == recorded(Map::empty(), 0, page.roi.slots@, item_kind),
    {
        let list_map = ListMap::new(&page.roi, item_kind);
        let requested_items = items.len();
        let event = AppEvent::ListSelectionStarted { item_kind, requested_items };
        let selection = ListSelection {
            item_kind,
            apply_in_saved_order,
            requested: requested_items,
            remaining: items,
            wheel_attempts: 0,
            boundary_candidate: None,
            page,
            list_map,
        };
        (selection, event)
    }

    /// The page that is looked at.
    pub fn page(&self) -> (page: &PageSnapshot)
        ensures
            *page == self.current(),
    {
        &self.page
    }

    /// The item to click on the current page: the first remaining one in saved order, otherwise
    /// the visible one that comes first in reading order.
    pub open spec fn is_pick(&self, item_id: Seq<char>) -> bool {
        if self.in_saved_order() {
            item_id == self.items()[0]@ && visible_slot(
                self.slots(),
                self.items()[0]@,
                self.kind(),
            ) is Some
        } else {
            exists|pick: int| #[trigger]
                is_next_pick(self.slots(), self.items(), self.kind(), pick) && item_id
                    == self.items()[pick]@
        }
    }

    /// Nothing on the current page is to be clicked.
    pub open spec fn nothing_to_pick(&self) -> bool {
        if self.in_saved_order() {
            visible_slot(self.slots(), self.items()[0]@, self.kind()) is None
        } else {
            forall|other: int|
                0 <= other < self.items().len() ==> visible_slot(
                    self.slots(),
                    (#[trigger] self.items()[other])@,
                    self.kind(),
                ) is None
        }
    }

    /// What the map advises for the first remaining item.
    pub open spec fn hint(&self) -> NavigationHint {
        hint_for(
            self.map().items(),
            self.map().base(),
            self.items()[0]@,
            self.slots(),
            self.kind(),
        )
    }

    /// Decides what to do on the current page.
    pub fn decide(&self) -> (step: SelectionStep)
        requires
            self.wf(),
        ensures
            match step {
                SelectionStep::Click { target, final_requested_item } => {
                    &&& self.is_pick(target.item_id@)
                    &&& visible_slot(self.slots(), target.item_id@, self.kind()) == Some(
                        target.slot,
                    )
                    &&& final_requested_item == (self.items().len() == 1)
                },
                SelectionStep::Turn(turn) => {
                    &&& self.nothing_to_pick()
                    &&& self.wheel() < 20
                    &&& turn_for(self.hint(), self.boundary()) == Some(turn)
                },
                SelectionStep::Fail(SelectionFailure::WheelInputsExhausted { item_id }) => {
                    &&& self.nothing_to_pick()
                    &&& self.wheel() == 20
                    &&& item_id@ == self.items()[0]@
                },
                SelectionStep::Fail(SelectionFailure::MappedNotRecognized { item_id }) => {
                    &&& self.nothing_to_pick()
                    &&& self.wheel() < 20
                    &&& self.hint() is ExpectedVisible
                    &&& item_id@ == self.items()[0]@
                },
                SelectionStep::Fail(_) => false,
            },
    {
        let target = if self.apply_in_saved_order {
            find_visible_target(&self.page.roi, &self.remaining[0], self.item_kind)
        } else {
            next_visible_target(&self.page.roi, &self.remaining, self.item_kind)
        };
        if let Some(target) = target {
            return SelectionStep::Click {
                target,
                final_requested_item: self.remaining.len() == 1,
            };
        }
        if self.wheel_attempts >= MAX_WHEEL_INPUTS {
            return SelectionStep::Fail(
                SelectionFailure::WheelInputsExhausted { item_id: self.remaining[0].clone() },
            );
        }
        let hint = self.list_map.navigation_hint(
            &self.remaining[0],
            &self.page.roi,
            self.item_kind,
        );
        match hint {
            NavigationHint::Scroll(direction) => {
                let expected = match self.boundary_candidate {
                    Some(candidate) => candidate == direction,
                    None => false,
                };
                let input = if expected {
                    PageTurnInput::Nudge(direction)
                } else {
                    PageTurnInput::Full(direction)
                };
                SelectionStep::Turn(PageTurn { input, recenter: false })
            },
            NavigationHint::Recenter(direction) => SelectionStep::Turn(
                PageTurn { input: PageTurnInput::Nudge(direction), recenter: true },
            ),
            NavigationHint::ExpectedVisible => SelectionStep::Fail(
                SelectionFailure::MappedNotRecognized { item_id: self.remaining[0].clone() },
            ),
        }
    }

    /// Takes note that an item was selected, and reports it. While the list is open, other items
    /// have to remain.
    pub fn item_selected(
        self,
        item_id: &String,
        outcome: TargetSelectionOutcome,
    ) -> (noted: (SelectionProgress, AppEvent))
        requires
            self.wf(),
            names(self.items()).contains(item_id@),
            outcome is Home <==> self.items().len() == 1,
            outcome is List ==> without(names(self.items()), item_id@).len() > 0,
        ensures
            noted.1 == AppEvent::ItemSelected,
            match outcome {
                TargetSelectionOutcome::Home => noted.0 is Finished,
                TargetSelectionOutcome::List { page, viewport_repositioned } => {
                    let shared = alignments(self.map().items(), page.roi.slots@, self.kind());
                    if shared.len() == 0 && viewport_repositioned {
                        noted.0 matches SelectionProgress::Failed(failure) && failure matches
                            SelectionFailure::LandmarksLost { item_id: lost } && lost@ == item_id@
                    } else {
                        noted.0 matches SelectionProgress::Continue(next) && {
                            let base = if shared.len() > 0 {
                                dominant(shared)
                            } else {
                                self.map().base()
                            };
                            &&& next.wf()
                            &&& next.steps_left() < self.steps_left()
                            &&& next.kind() == self.kind()
                            &&& next.in_saved_order() == self.in_saved_order()
                            &&& next.requested() == self.requested()
                            &&& names(next.items()) == without(names(self.items()), item_id@)
                            &&& next.wheel() == 0
                            &&& next.boundary() is None
                            &&& next.current() == page
                            &&& next.map().base() == base
                            &&& next.map().items() == recorded(
                                self.map().items(),
                                base,
                                page.roi.slots@,
                                self.kind(),
                            )
                        }
                    }
                },
            },
    {
        let mut next = self;
        proof {
            without_is_shorter(names(self.items()), item_id@);
        }
        next.remaining = remove_item(&next.remaining, item_id);
        let progress = match outcome {
            TargetSelectionOutcome::Home => SelectionProgress::Finished,
            TargetSelectionOutcome::List { page, viewport_repositioned } => {
                assert(names(next.remaining@).len() == next.remaining@.len());
                if !next.list_map.relocalize(&page.roi, next.item_kind) {
                    if viewport_repositioned {
                        let lost = SelectionFailure::LandmarksLost { item_id: item_id.clone() };
                        return (SelectionProgress::Failed(lost), AppEvent::ItemSelected);
                    }
                    next.list_map.record_current(&page.roi, next.item_kind);
                }
                next.page = page;
                next.wheel_attempts = 0;
                next.boundary_candidate = None;
                SelectionProgress::Continue(next)
            },
        };
        (progress, AppEvent::ItemSelected)
    }

    /// Takes note of what a page turn led to.
    pub fn page_turned(self, turn: PageTurn, result: PageTurnResult) -> (progress:
        SelectionProgress)
        requires
            self.wf(),
            self.wheel() < 20,
        ensures
            match result {
                PageTurnResult::NoMovement(page) if turn.input is Nudge => {
                    progress matches SelectionProgress::Failed(failure) && failure matches
                        SelectionFailure::BoundaryReached { item_id, recentered, direction }
                        && item_id@ == self.items()[0]@ && recentered == turn.recenter && direction
                        == turn.input.spec_direction()
                },
                PageTurnResult::NoMovement(page) => {
                    progress matches SelectionProgress::Continue(next) && {
                        &&& next.wf()
                        &&& next.steps_left() < self.steps_left()
                        &&& next.kind() == self.kind()
                        &&& next.in_saved_order() == self.in_saved_order()
                        &&& next.requested() == self.requested()
                        &&& next.items() == self.items()
                        &&& next.wheel() == self.wheel() + 1
                        &&& next.boundary() == Some(turn.input.spec_direction())
                        &&& next.current() == page
                        &&& next.map().base() == self.map().base()
                        &&& next.map().items() == recorded(
                            self.map().items(),
                            self.map().base(),
                            page.roi.slots@,
                            self.kind(),
                        )
                    }
                },
                PageTurnResult::Moved { page, short } => {
                    progress matches SelectionProgress::Continue(next) && {
                        let direction = turn.input.spec_direction();
                        let shared = alignments(self.map().items(), page.roi.slots@, self.kind());
                        let extended = extended_base(
                            self.map().base(),
                            self.slots(),
                            page.roi.slots@,
                            self.kind(),
                            direction,
                        );
                        &&& next.wf()
                        &&& next.steps_left() < self.steps_left()
                        &&& next.kind() == self.kind()
                        &&& next.in_saved_order() == self.in_saved_order()
                        &&& next.requested() == self.requested()
                        &&& next.items() == self.items()
                        &&& next.wheel() == self.wheel() + 1
                        &&& next.boundary() == if turn.input is Full && short {
                            Some(direction)
                        } else {
                            None
                        }
                        &&& next.current() == page
                        &&& if shared.len() > 0 || extended is Some {
                            let base = if shared.len() > 0 {
                                dominant(shared)
                            } else {
                                extended->0
                            };
                            next.map().base() == base && next.map().items() == recorded(
                                self.map().items(),
                                base,
                                page.roi.slots@,
                                self.kind(),
                            )
                        } else {
                            next.map().base() == self.map().base() && next.map().items()
                                == self.map().items()
                        }
                    }
                },
            },
    {
        let mut next = self;
        let direction = turn.input.direction();
        next.wheel_attempts = next.wheel_attempts + 1;
        match result {
            PageTurnResult::Moved { page, short } => {
                next.list_map.advance(&next.page.roi, &page.roi, next.item_kind, direction);
                next.page = page;
                next.boundary_candidate = if turn.input.is_full() && short {
                    Some(direction)
                } else {
                    None
                };
                SelectionProgress::Continue(next)
            },
            PageTurnResult::NoMovement(page) => {
                next.list_map.record_current(&page.roi, next.item_kind);
                next.page = page;
                if turn.input.is_nudge() {
                    return SelectionProgress::Failed(
                        SelectionFailure::BoundaryReached {
                            item_id: next.remaining[0].clone(),
                            recentered: turn.recenter,
                            direction,
                        },
                    );
                }
                next.boundary_candidate = Some(direction);
                SelectionProgress::Continue(next)
            },
        }
    }
}

/// A page is turned in the direction of the hint. It is turned carefully to recenter an item, or
/// where the end of the list is expected in that direction, and fully otherwise. An item that is
/// expected on the page leads to no turn.
pub proof fn pages_are_turned_as_hinted(
    hint: NavigationHint,
    boundary_candidate: Option<ScrollDirection>,
)
    ensures
        turn_for(hint, boundary_candidate) is None <==> hint == NavigationHint::ExpectedVisible,
        hint matches NavigationHint::Scroll(direction) ==> turn_for(
            hint,
            boundary_candidate,
        ) matches Some(turn) && turn.input.spec_direction() == direction && !turn.recenter && (
        turn.input is Nudge <==> boundary_candidate == Some(direction)),
        hint matches NavigationHint::Recenter(direction) ==> turn_for(
            hint,
            boundary_candidate,
        ) matches Some(turn) && turn.input == PageTurnInput::Nudge(direction) && turn.recenter,
{
}

/// Either some item is to be clicked on a page or none. In saved order it is the first one that
/// remains, and only where it is visible; otherwise any that remains and is visible will be.
pub proof fn visible_items_are_clicked(selection: ListSelection, item_id: Seq<char>)
    requires
        selection.items().len() > 0,
    ensures
        selection.is_pick(item_id) ==> !selection.nothing_to_pick(),
        selection.is_pick(item_id) ==> visible_slot(
            selection.slots(),
            item_id,
            selection.kind(),
        ) is Some && exists|at: int|
            0 <= at < selection.items().len() && (#[trigger] selection.items()[at])@ == item_id,
        selection.in_saved_order() ==> (selection.is_pick(item_id) <==> item_id
            == selection.items()[0]@ && visible_slot(
            selection.slots(),
            item_id,
            selection.kind(),
        ) is Some),
        selection.nothing_to_pick() ==> visible_slot(
            selection.slots(),
            selection.items()[0]@,
            selection.kind(),
        ) is None,
        !selection.in_saved_order() && selection.nothing_to_pick() ==> forall|at: int|
            0 <= at < selection.items().len() ==> visible_slot(
                selection.slots(),
                (#[trigger] selection.items()[at])@,
                selection.kind(),
            ) is None,
        selection.in_saved_order() && visible_slot(
            selection.slots(),
            selection.items()[0]@,
            selection.kind(),
        ) is None ==> selection.nothing_to_pick(),
{
    if selection.is_pick(item_id) {
        if selection.in_saved_order() {
            assert(selection.items()[0]@ == item_id);
        } else {
            let pick = choose|pick: int| #[trigger]
                is_next_pick(selection.slots(), selection.items(), selection.kind(), pick)
                    && item_id == selection.items()[pick]@;
            assert(selection.items()[pick]@ == item_id);
        }
    }
}

/// The hint that a selection follows is the one of its map for the first item that remains.
pub proof fn hints_are_for_the_first_item(selection: ListSelection)
    ensures
        selection.hint() == hint_for(
            selection.map().items(),
            selection.map().base(),
            selection.items()[0]@,
            selection.current().roi.slots@,
            selection.kind(),
        ),
        MAX_WHEEL_INPUTS == 20,
{
}

/// Taking an item off keeps all others, in their order.
pub proof fn other_items_stay_in_order(
    items: Seq<Seq<char>>,
    item_id: Seq<char>,
    left: int,
    right: int,
)
    requires
        0 <= left < right < items.len(),
        items[left] != item_id,
        items[right] != item_id,
    ensures
        exists|first: int, second: int|
            {
                &&& 0 <= first < second < without(items, item_id).len()
                &&& #[trigger] without(items, item_id)[first] == items[left]
                &&& #[trigger] without(items, item_id)[second] == items[right]
            },
        !without(items, item_id).contains(item_id),
    decreases items.len(),
{
    let front = items.drop_last();
    let rest = without(front, item_id);
    without_keeps_the_others(items, item_id);
    without_keeps_the_others(front, item_id);
    let all = without(items, item_id);
    if right < front.len() {
        assert(front[left] == items[left] && front[right] == items[right]);
        other_items_stay_in_order(front, item_id, left, right);
        let (first, second) = choose|first: int, second: int|
            {
                &&& 0 <= first < second < rest.len()
                &&& #[trigger] rest[first] == front[left]
                &&& #[trigger] rest[second] == front[right]
            };
        assert(all[first] == rest[first] && all[second] == rest[second]);
    } else {
        assert(front[left] == items[left]);
        assert(front.contains(items[left]));
        assert(rest.contains(items[left]));
        let first = choose|first: int| 0 <= first < rest.len() && rest[first] == items[left];
        assert(all =~= rest.push(items.last()));
        assert(all[first] == items[left] && all[rest.len() as int] == items[right]);
    }
}

} // verus!
