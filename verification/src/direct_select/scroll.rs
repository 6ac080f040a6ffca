//! Directions of a list and the wheel inputs that turn its pages.
use vstd::prelude::*;

verus! {

#[derive(Clone, Copy, Debug, PartialEq, Eq, Structural)]
pub enum ScrollDirection {
    Up,
    Down,
}

impl ScrollDirection {
    /// The name of the end of the list in this direction.
    pub open spec fn spec_boundary_label(self) -> &'static str {
        match self {
            ScrollDirection::Up => "top",
            ScrollDirection::Down => "bottom",
        }
    }

    pub fn boundary_label(self) -> (name: &'static str)
        ensures
            name@ == self.spec_boundary_label()@,
    {
        match self {
            ScrollDirection::Up => "top",
            ScrollDirection::Down => "bottom",
        }
    }
}

/// Wheel notches of a full page turn.
pub const PAGE_SCROLL_NOTCHES: i32 = 5;

/// Wheel notches of a careful nudge at a suspected end of the list.
pub const PAGE_BOUNDARY_PROBE_NOTCHES: i32 = 1;

/// How far a page is turned.
#[derive(Clone, Copy, Debug, PartialEq, Eq, Structural)]
pub enum PageTurnInput {
    Full(ScrollDirection),
    Nudge(ScrollDirection),
}

impl PageTurnInput {
    pub open spec fn spec_direction(self) -> ScrollDirection {
        match self {
            PageTurnInput::Full(direction) => direction,
            PageTurnInput::Nudge(direction) => direction,
        }
    }

    pub fn direction(self) -> (direction: ScrollDirection)
        ensures
            direction == self.spec_direction(),
    {
        match self {
            PageTurnInput::Full(direction) => direction,
            PageTurnInput::Nudge(direction) => direction,
        }
    }

    pub fn is_full(self) -> (full: bool)
        ensures
            full == (self is Full),
    {
        match self {
            PageTurnInput::Full(_) => true,
            PageTurnInput::Nudge(_) => false,
        }
    }

    pub fn is_nudge(self) -> (nudge: bool)
        ensures
            nudge == (self is Nudge),
    {
        match self {
            PageTurnInput::Full(_) => false,
            PageTurnInput::Nudge(_) => true,
        }
    }

    /// Wheel notches of the input: positive turns the wheel up.
    pub open spec fn spec_scroll_notches(self) -> int {
        let magnitude: int = if self is Full {
            5
        } else {
            1
        };
        match self.spec_direction() {
            ScrollDirection::Up => magnitude,
            ScrollDirection::Down => -magnitude,
        }
    }

    pub fn scroll_notches(self) -> (notches: i32)
        ensures
            notches == self.spec_scroll_notches(),
    {
        let magnitude: i32 = match self {
            PageTurnInput::Full(_) => PAGE_SCROLL_NOTCHES,
            PageTurnInput::Nudge(_) => PAGE_BOUNDARY_PROBE_NOTCHES,
        };
        match self.direction() {
            ScrollDirection::Up => magnitude,
            ScrollDirection::Down => -magnitude,
        }
    }
}

/// The wheel turns up for a turn up and down for a turn down, opposite turns cancel out, and a full
/// turn is five careful ones.
pub proof fn the_wheel_turns_the_way_of_the_page(direction: ScrollDirection)
    ensures
        direction == ScrollDirection::Up <==> PageTurnInput::Full(direction).spec_scroll_notches()
            > 0,
        PageTurnInput::Full(direction).spec_scroll_notches() == 5 * PageTurnInput::Nudge(
            direction,
        ).spec_scroll_notches(),
        PageTurnInput::Nudge(ScrollDirection::Up).spec_scroll_notches() + PageTurnInput::Nudge(
            ScrollDirection::Down,
        ).spec_scroll_notches() == 0,
        PageTurnInput::Nudge(ScrollDirection::Up).spec_scroll_notches() == 1,
        PageTurnInput::Full(direction).spec_direction() == direction,
        PageTurnInput::Nudge(direction).spec_direction() == direction,
{
}

/// The list ends at its top above and at its bottom below.
pub proof fn ends_are_named_by_their_side()
    ensures
        ScrollDirection::Up.spec_boundary_label()@ == "top"@,
        ScrollDirection::Down.spec_boundary_label()@ == "bottom"@,
{
}

} // verus!
