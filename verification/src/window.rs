//! Windows as the program sees them, and the points inside them.
use vstd::prelude::*;
use vstd::string::*;

verus! {

/// A point of a window's client area, in pixels from its top left corner.
#[derive(Clone, Copy, Debug, PartialEq, Eq, Structural)]
pub struct ClientPoint {
    pub x: u64,
    pub y: u64,
}

/// Where the client area of a window lies in its captured frame.
#[derive(Clone, Copy, Debug, PartialEq, Eq, Structural)]
pub struct ClientCrop {
    pub x: u32,
    pub y: u32,
    pub w: u32,
    pub h: u32,
}

/// What is known of a window.
#[derive(Debug)]
pub struct WindowTarget {
    pub handle: i64,
    pub title: String,
    /// Top left corner of the client area on the screen.
    pub origin_x: i32,
    pub origin_y: i32,
    pub client_w: u32,
    pub client_h: u32,
}

/// The part of the screen that all monitors cover together.
#[derive(Clone, Copy, Debug, PartialEq, Eq, Structural)]
pub struct VirtualScreen {
    pub left: i32,
    pub top: i32,
    pub width: i32,
    pub height: i32,
}

/// The nearest number to `value` from `low` to `high`.
pub open spec fn clamped(value: int, low: int, high: int) -> int {
    if value < low {
        low
    } else if value > high {
        high
    } else {
        value
    }
}

/// The nearest number to `value` from `low` to `high`.
pub fn clamp(value: i64, low: i64, high: i64) -> (nearest: i64)
    requires
        low <= high,
    ensures
        nearest == clamped(value as int, low as int, high as int),
{
    if value < low {
        low
    } else if value > high {
        high
    } else {
        value
    }
}

/// The title of the game's window.
pub const GAME_WINDOW_TITLE: &'static str = "HELLDIVERS\u{2122} 2";

/// Looks at the game's window before giving up.
pub const WINDOW_LOOKUP_ATTEMPTS: usize = 10;

/// Milliseconds between two looks.
pub const WINDOW_LOOKUP_RETRY_DELAY: u64 = 50;

/// Why the game's window was not found.
#[derive(Debug)]
pub enum WindowError {
    /// The foreground window could not be inspected.
    NoForegroundWindow,
    /// Another window is in the foreground.
    OtherWindow { title: String },
}

/// The game's window, if it is in the foreground.
pub fn find_game_window_once(foreground: Option<WindowTarget>) -> (window: Result<
    WindowTarget,
    WindowError,
>)
    ensures
        match foreground {
            None => window matches Err(WindowError::NoForegroundWindow),
            Some(target) => if target.title@ == "HELLDIVERS\u{2122} 2"@ {
                window == Ok::<WindowTarget, WindowError>(target)
            } else {
                window matches Err(WindowError::OtherWindow { title }) && title == target.title
            },
        },
{
    match foreground {
        None => Err(WindowError::NoForegroundWindow),
        Some(target) => {
            let expected = String::from_str("HELLDIVERS\u{2122} 2");
            if target.title == expected {
                Ok(target)
            } else {
                Err(WindowError::OtherWindow { title: target.title })
            }
        },
    }
}

/// What to do after a look at the foreground window.
#[derive(Debug)]
pub enum LookupStep {
    Found(WindowTarget),
    /// Look again after this many milliseconds.
    RetryAfter(u64),
    Failed(WindowError),
}

/// Looking for the game's window a limited number of times.
#[derive(Clone, Copy, Debug, PartialEq, Eq, Structural)]
pub struct WindowLookup {
    /// Looks taken so far.
    pub attempts: usize,
}

impl WindowLookup {
    pub fn new() -> (lookup: Self)
        ensures
            lookup.attempts == 0,
    {
        WindowLookup { attempts: 0 }
    }

    /// Judges one look: the first nine failures lead to another look, the tenth to an error.
    pub fn step(&mut self, looked: Result<WindowTarget, WindowError>) -> (step: LookupStep)
        requires
            old(self).attempts < 10,
        ensures
            final(self).attempts == old(self).attempts + 1,
            match looked {
                Ok(window) => step == LookupStep::Found(window),
                Err(error) => if final(self).attempts < 10 {
                    step == LookupStep::RetryAfter(50)
                } else {
                    step == LookupStep::Failed(error)
                },
            },
    {
        self.attempts = self.attempts + 1;
        match looked {
            Ok(window) => LookupStep::Found(window),
            Err(error) => if self.attempts < WINDOW_LOOKUP_ATTEMPTS {
                LookupStep::RetryAfter(WINDOW_LOOKUP_RETRY_DELAY)
            } else {
                LookupStep::Failed(error)
            },
        }
    }
}

/// The nearest number lies in the range, and no other number of the range lies nearer.
pub proof fn the_nearest_number_is_kept(value: int, low: int, high: int, other: int)
    requires
        low <= high,
        low <= other <= high,
    ensures
        low <= clamped(value, low, high) <= high,
        value <= clamped(value, low, high) ==> value <= other ==> clamped(value, low, high) <= other,
        value >= clamped(value, low, high) ==> value >= other ==> clamped(value, low, high) >= other,
        value == other ==> clamped(value, low, high) == value,
{
}

} // verus!
