//! Clicking one item until the click has taken effect.
use vstd::prelude::*;
use vstd::string::*;

use crate::vision::Slot;

use super::click_plan::DirectClickTarget;
use super::hover::HoverSample;
use super::page_navigation::PageSnapshot;
use super::target::{
    PostClickObservation, MAX_TARGET_CLICK_ATTEMPTS, POST_CLICK_CONFIRM_TIMEOUT,
    TERMINAL_SETTLE_TIMEOUT,
};

verus! {

/// What is to be done next, or how the clicking ended.
#[derive(Debug)]
pub enum ClickAction {
    /// Click where the cursor rests.
    Click,
    /// Wait for the filled loadout home, for at most this many milliseconds.
    AwaitHome { timeout: u64 },
    /// See whether the item looks as it did before the click.
    CheckTarget,
    /// Watch the page for a sign that the item was selected.
    Observe,
    /// The item was selected and the list stayed open.
    Selected { page: PageSnapshot, viewport_repositioned: bool },
    /// The last item was selected and the loadout home came back.
    ReturnedHome,
    Fail(ClickFailure),
}

#[derive(Clone, Copy, Debug, PartialEq, Eq, Structural)]
pub enum ClickFailure {
    /// The list changed but the loadout home did not come back.
    NotReturnedHome,
    /// The last item looked the same after every click.
    FinalUnchanged,
    /// The item neither moved nor dimmed. Scores before and after, in quarters.
    NeitherMovedNorDimmed { before: i128, after: i128 },
}

#[derive(Clone, Copy, Debug, PartialEq, Eq, Structural)]
pub enum ClickPhase {
    Click,
    AwaitHome,
    CheckTarget,
    AwaitSettledHome,
    Observe,
    Over,
}

/// What came of an action.
#[derive(Debug)]
pub enum ClickEvent {
    Clicked,
    /// Whether the loadout home came back.
    Home(bool),
    /// The slot to click again, if the item looks the same.
    Retry(Option<DirectClickTarget>),
    PostClick(PostClickObservation),
}

/// An event answers the action of a phase.
pub open spec fn answers(phase: ClickPhase, event: ClickEvent) -> bool {
    match phase {
        ClickPhase::Click => event is Clicked,
        ClickPhase::AwaitHome | ClickPhase::AwaitSettledHome => event is Home,
        ClickPhase::CheckTarget => event is Retry,
        ClickPhase::Observe => event is PostClick,
        ClickPhase::Over => false,
    }
}

/// The clicks on one item.
#[derive(Debug)]
pub struct TargetSelection {
    pub target: DirectClickTarget,
    /// Score of the highlighted item before the first click.
    pub before: HoverSample,
    /// Slots of the page before the next click.
    pub before_slots: Vec<Slot>,
    pub viewport_repositioned: bool,
    /// No other item remains to be selected.
    pub final_requested_item: bool,
    /// Number of the click, from one.
    pub attempt: usize,
    pub phase: ClickPhase,
    /// Score after the last click without effect, in quarters.
    pub last_after_score: Option<i128>,
}

impl TargetSelection {
    pub open spec fn wf(self) -> bool {
        &&& 1 <= self.attempt <= 3
        &&& match self.phase {
            ClickPhase::AwaitHome | ClickPhase::CheckTarget | ClickPhase::AwaitSettledHome =>
                self.final_requested_item,
            ClickPhase::Observe => !self.final_requested_item,
            _ => true,
        }
    }

    /// A bound of the actions that are still to come.
    pub open spec fn actions_left(self) -> int {
        (3 - self.attempt) * 4 + match self.phase {
            ClickPhase::Click => 4int,
            ClickPhase::AwaitHome => 3,
            ClickPhase::CheckTarget => 2,
            ClickPhase::Observe => 1,
            ClickPhase::AwaitSettledHome => 1,
            ClickPhase::Over => -8,
        }
    }

    /// Starts with the cursor at rest on the highlighted target.
    pub fn new(
        target: DirectClickTarget,
        before: HoverSample,
        before_slots: Vec<Slot>,
        viewport_repositioned: bool,
        final_requested_item: bool,
    ) -> (selection: Self)
        ensures
            selection.wf(),
            selection == (TargetSelection {
                target,
                before,
                before_slots,
                viewport_repositioned,
                final_requested_item,
                attempt: 1,
                phase: ClickPhase::Click,
                last_after_score: None,
            }),
    {
        TargetSelection {
            target,
            before,
            before_slots,
            viewport_repositioned,
            final_requested_item,
            attempt: 1,
            phase: ClickPhase::Click,
            last_after_score: None,
        }
    }

    /// What the failure of the last click is called.
    pub open spec fn exhausted(self) -> ClickFailure {
        if self.final_requested_item {
            ClickFailure::FinalUnchanged
        } else {
            ClickFailure::NeitherMovedNorDimmed {
                before: self.before.target_score,
                after: match self.last_after_score {
                    Some(score) => score,
                    None => self.before.target_score,
                },
            }
        }
    }

    /// After a click without effect: the next click, or failure after the third.
    pub open spec fn retried(before: Self, after: Self, action: ClickAction) -> bool {
        if before.attempt < 3 {
            after.attempt == before.attempt + 1 && after.phase == ClickPhase::Click && action
                == ClickAction::Click
        } else {
            after.attempt == before.attempt && after.phase == ClickPhase::Over && action
                == ClickAction::Fail(after.exhausted())
        }
    }

    fn retry(&mut self) -> (action: ClickAction)
        requires
            old(self).wf(),
        ensures
            Self::retried(*old(self), *final(self), action),
            final(self).wf(),
            final(self).target == old(self).target,
            final(self).before == old(self).before,
            final(self).before_slots == old(self).before_slots,
            final(self).viewport_repositioned == old(self).viewport_repositioned,
            final(self).final_requested_item == old(self).final_requested_item,
            final(self).last_after_score == old(self).last_after_score,
    {
        if self.attempt < MAX_TARGET_CLICK_ATTEMPTS {
            self.attempt = self.attempt + 1;
            self.phase = ClickPhase::Click;
            return ClickAction::Click;
        }
        self.phase = ClickPhase::Over;
        if self.final_requested_item {
            ClickAction::Fail(ClickFailure::FinalUnchanged)
        } else {
            let after: i128 = match self.last_after_score {
                Some(score) => score,
                None => self.before.target_score,
            };
            ClickAction::Fail(
                ClickFailure::NeitherMovedNorDimmed { before: self.before.target_score, after },
            )
        }
    }

    /// Takes the outcome of the current action and names the next one.
    pub fn step(&mut self, event: ClickEvent) -> (action: ClickAction)
        requires
            old(self).wf(),
            answers(old(self).phase, event),
        ensures
            final(self).wf(),
            final(self).actions_left() < old(self).actions_left(),
            final(self).before == old(self).before,
            final(self).final_requested_item == old(self).final_requested_item,
            !(event is PostClick) ==> final(self).before_slots == old(self).before_slots
                && final(self).viewport_repositioned == old(self).viewport_repositioned
                && final(self).last_after_score == old(self).last_after_score,
            !(event is PostClick) && !(event is Retry) ==> final(self).target == old(self).target,
            match event {
                ClickEvent::Clicked => {
                    &&& final(self).attempt == old(self).attempt
                    &&& if old(self).final_requested_item {
                        action == (ClickAction::AwaitHome { timeout: 400 }) && final(self).phase
                            == ClickPhase::AwaitHome
                    } else {
                        action == ClickAction::Observe && final(self).phase == ClickPhase::Observe
                    }
                },
                ClickEvent::Home(came_back) => {
                    &&& final(self).attempt == old(self).attempt
                    &&& if came_back {
                        action == ClickAction::ReturnedHome && final(self).phase
                            == ClickPhase::Over
                    } else if old(self).phase == ClickPhase::AwaitHome {
                        action == ClickAction::CheckTarget && final(self).phase
                            == ClickPhase::CheckTarget
                    } else {
                        action == ClickAction::Fail(ClickFailure::NotReturnedHome)
                            && final(self).phase == ClickPhase::Over
                    }
                },
                ClickEvent::Retry(Some(target)) => {
                    &&& final(self).target == target
                    &&& Self::retried(*old(self), *final(self), action)
                },
                ClickEvent::Retry(None) => {
                    &&& final(self).target == old(self).target
                    &&& final(self).attempt == old(self).attempt
                    &&& action == (ClickAction::AwaitHome { timeout: 600 })
                    &&& final(self).phase == ClickPhase::AwaitSettledHome
                },
                ClickEvent::PostClick(PostClickObservation::Selected { page, moved }) => {
                    &&& final(self).phase == ClickPhase::Over
                    &&& final(self).target == old(self).target
                    &&& final(self).attempt == old(self).attempt
                    &&& action == (ClickAction::Selected {
                        page,
                        viewport_repositioned: old(self).viewport_repositioned || moved,
                    })
                },
                ClickEvent::PostClick(
                    PostClickObservation::Unchanged { slot, page, after_score },
                ) => {
                    &&& final(self).target.slot == slot
                    &&& final(self).target.item_id == old(self).target.item_id
                    &&& final(self).before_slots == page.roi.slots
                    &&& final(self).last_after_score == Some(after_score)
                    &&& final(self).viewport_repositioned == old(self).viewport_repositioned
                    &&& Self::retried(*old(self), *final(self), action)
                },
            },
    {
        match event {
            ClickEvent::Clicked => {
                if self.final_requested_item {
                    self.phase = ClickPhase::AwaitHome;
                    ClickAction::AwaitHome { timeout: POST_CLICK_CONFIRM_TIMEOUT }
                } else {
                    self.phase = ClickPhase::Observe;
                    ClickAction::Observe
                }
            },
            ClickEvent::Home(came_back) => {
                if came_back {
                    self.phase = ClickPhase::Over;
                    ClickAction::ReturnedHome
                } else if self.phase == ClickPhase::AwaitHome {
                    self.phase = ClickPhase::CheckTarget;
                    ClickAction::CheckTarget
                } else {
                    self.phase = ClickPhase::Over;
                    ClickAction::Fail(ClickFailure::NotReturnedHome)
                }
            },
            ClickEvent::Retry(Some(target)) => {
                self.target = target;
                self.retry()
            },
            ClickEvent::Retry(None) => {
                self.phase = ClickPhase::AwaitSettledHome;
                ClickAction::AwaitHome { timeout: TERMINAL_SETTLE_TIMEOUT }
            },
            ClickEvent::PostClick(PostClickObservation::Selected { page, moved }) => {
                self.phase = ClickPhase::Over;
                ClickAction::Selected {
                    page,
                    viewport_repositioned: self.viewport_repositioned || moved,
                }
            },
            ClickEvent::PostClick(
                PostClickObservation::Unchanged { slot, page, after_score },
            ) => {
                self.target.slot = slot;
                self.before_slots = page.roi.slots;
                self.last_after_score = Some(after_score);
                self.retry()
            },
        }
    }
}

/// A click without effect is repeated until there were three; then the selection fails, saying of
/// the last item that it did not change, and of others the scores before and after.
pub proof fn three_clicks_are_made(
    before: TargetSelection,
    after: TargetSelection,
    action: ClickAction,
)
    requires
        before.wf(),
        after.final_requested_item == before.final_requested_item,
        TargetSelection::retried(before, after, action),
    ensures
        action is Click <==> before.attempt == 1 || before.attempt == 2,
        action is Click ==> after.attempt == before.attempt + 1 && after.phase == ClickPhase::Click,
        action is Fail <==> before.attempt == 3,
        action is Fail ==> after.phase == ClickPhase::Over,
        action matches ClickAction::Fail(failure) ==> if before.final_requested_item {
            failure is FinalUnchanged
        } else {
            failure matches ClickFailure::NeitherMovedNorDimmed { before: score, after: last }
                && score == after.before.target_score && (after.last_after_score matches Some(shown)
                ==> last == shown) && (after.last_after_score is None ==> last == score)
        },
{
}

/// Each phase is answered by one kind of event, and an event can answer some phase only.
pub proof fn phases_take_their_answers(phase: ClickPhase, event: ClickEvent)
    ensures
        phase == ClickPhase::Over ==> !answers(phase, event),
        answers(phase, event) && event is Clicked ==> phase == ClickPhase::Click,
        answers(phase, event) && event is Retry ==> phase == ClickPhase::CheckTarget,
        answers(phase, event) && event is PostClick ==> phase == ClickPhase::Observe,
        answers(phase, event) && event is Home ==> phase == ClickPhase::AwaitHome || phase
            == ClickPhase::AwaitSettledHome,
        event is Clicked ==> answers(ClickPhase::Click, event),
        event is Retry ==> answers(ClickPhase::CheckTarget, event),
        event is PostClick ==> answers(ClickPhase::Observe, event),
        event is Home ==> answers(ClickPhase::AwaitHome, event) && answers(
            ClickPhase::AwaitSettledHome,
            event,
        ),
{
}

} // verus!
