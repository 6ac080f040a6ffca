//! Input at points of the captured region.
use vstd::prelude::*;

use crate::capture::CaptureRegion;
use crate::input::Key;
use crate::input_session::{
    click_steps, move_input, screen_in_range, tap_steps, InjectedInput, InputError, InputSession,
    InputStep,
};
use crate::vision::ImageRect;
use crate::window::{ClientPoint, VirtualScreen, WindowTarget};

verus! {

/// The captured region of a window and the input that goes to it.
pub struct AutomationSession<'a> {
    region: CaptureRegion<'a>,
    input: InputSession,
}

/// The point of the window under a point of the region.
pub open spec fn client_point(rect: ImageRect, point: (u32, u32)) -> ClientPoint {
    ClientPoint { x: (rect.x + point.0) as u64, y: (rect.y + point.1) as u64 }
}

impl<'a> AutomationSession<'a> {
    pub closed spec fn rect(&self) -> ImageRect {
        self.region.rect
    }

    pub closed spec fn session(&self) -> InputSession {
        self.input
    }

    pub fn new(region: CaptureRegion<'a>, target: WindowTarget, focused: bool) -> (session: Result<
        Self,
        InputError,
    >)
        ensures
            match session {
                Ok(started) => {
                    &&& focused
                    &&& started.rect() == region.rect
                    &&& started.session().window() == target
                    &&& started.session().held_keys().len() == 0
                    &&& !started.session().button_down()
                },
                Err(error) => !focused && error == InputError::TargetLost,
            },
    {
        match InputSession::new(target, focused) {
            Ok(input) => Ok(AutomationSession { region, input }),
            Err(error) => Err(error),
        }
    }

    pub fn move_cursor(&self, point: (u32, u32), screen: VirtualScreen, focused: bool) -> (input:
        Result<InjectedInput, InputError>)
        requires
            screen_in_range(screen),
        ensures
            input == if focused {
                Ok::<InjectedInput, InputError>(
                    move_input(self.session().window(), client_point(self.rect(), point), screen),
                )
            } else {
                Err(InputError::TargetLost)
            },
    {
        self.input.move_cursor(self.region.map_to_client(point), screen, focused)
    }

    pub fn click(&self, point: (u32, u32), screen: VirtualScreen, hold_ms: u64, focused: bool) -> (
    steps: Result<Vec<InputStep>, InputError>)
        requires
            screen_in_range(screen),
        ensures
            match steps {
                Ok(planned) => focused && planned@ == seq![
                    InputStep::Send(
                        move_input(
                            self.session().window(),
                            client_point(self.rect(), point),
                            screen,
                        ),
                    ),
                    InputStep::Wait(30),
                ] + click_steps(hold_ms),
                Err(error) => !focused && error == InputError::TargetLost,
            },
    {
        self.input.click(self.region.map_to_client(point), screen, hold_ms, focused)
    }

    pub fn click_current(&self, hold_ms: u64, focused: bool) -> (steps: Result<
        Vec<InputStep>,
        InputError,
    >)
        ensures
            match steps {
                Ok(planned) => focused && planned@ == click_steps(hold_ms),
                Err(error) => !focused && error == InputError::TargetLost,
            },
    {
        self.input.click_current(hold_ms, focused)
    }

    /// Turns the wheel by `delta` notches.
    pub fn scroll(&self, delta: i32, focused: bool) -> (input: Result<InjectedInput, InputError>)
        requires
            -17895697 <= delta <= 17895697,
        ensures
            input == if focused {
                Ok::<InjectedInput, InputError>(
                    InjectedInput::Wheel { delta: (120 * delta) as i32 },
                )
            } else {
                Err(InputError::TargetLost)
            },
    {
        self.input.scroll(delta, focused)
    }

    pub fn tap_key(&self, key: Key, hold_ms: u64, focused: bool) -> (steps: Result<
        Vec<InputStep>,
        InputError,
    >)
        ensures
            match steps {
                Ok(planned) => focused && planned@ == tap_steps(key, hold_ms),
                Err(error) => !focused && error == InputError::TargetLost,
            },
    {
        self.input.tap_key(key, hold_ms, focused)
    }

    /// The session of the input, to take note of what was sent.
    pub fn into_input(self) -> (input: InputSession)
        ensures
            input == self.session(),
    {
        self.input
    }
}

/// The point of the window moves with the point of the region, and with the region itself.
pub proof fn points_move_with_the_region(rect: ImageRect, point: (u32, u32), other: (u32, u32))
    ensures
        client_point(rect, point).x - client_point(rect, other).x == point.0 - other.0,
        client_point(rect, point).y - client_point(rect, other).y == point.1 - other.1,
        client_point(rect, (0, 0)).x == rect.x && client_point(rect, (0, 0)).y == rect.y,
{
}

} // verus!
