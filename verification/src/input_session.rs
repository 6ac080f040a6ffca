//! Injected keyboard and mouse input, and what of it is still held down.
use vstd::prelude::*;

use crate::input::Key;
use crate::window::{clamp, clamped, ClientPoint, VirtualScreen, WindowTarget};

verus! {

/// Milliseconds between moving the cursor and clicking.
pub const CLICK_MOVE_SETTLE_DELAY: u64 = 30;

/// Wheel movement of one notch.
pub const WHEEL_DELTA: i32 = 120;

/// An input event for the system.
#[derive(Clone, Copy, Debug, PartialEq, Eq, Structural)]
pub enum InjectedInput {
    Keyboard { key: Key, scan_code: u16, up: bool, extended: bool },
    LeftDown,
    LeftUp,
    /// Turns the wheel; positive is away from the user.
    Wheel { delta: i32 },
    /// Moves the cursor, in the units of the whole virtual screen.
    MoveTo { dx: i32, dy: i32 },
}

/// The press or the release of a key.
pub open spec fn key_input(key: Key, up: bool) -> InjectedInput {
    InjectedInput::Keyboard { key, scan_code: key.scan() as u16, up, extended: key.extended() }
}

pub fn keyboard_input(key: Key, up: bool) -> (input: InjectedInput)
    ensures
        input == key_input(key, up),
{
    InjectedInput::Keyboard { key, scan_code: key.scan_code(), up, extended: key.is_extended() }
}

/// A step of an input sequence.
#[derive(Clone, Copy, Debug, PartialEq, Eq, Structural)]
pub enum InputStep {
    Send(InjectedInput),
    /// Wait this many milliseconds.
    Wait(u64),
}

#[derive(Clone, Copy, Debug, PartialEq, Eq, Structural)]
pub enum InputError {
    /// The window of the session no longer takes input.
    TargetLost,
    /// The system did not take the input.
    NotAccepted,
}

/// What was pressed by injected input and not released.
#[derive(Debug)]
pub struct InjectedInputState {
    pub keys: Vec<Key>,
    pub left_mouse_down: bool,
}

/// The keys and the button that are held after an accepted input.
pub open spec fn held_after(keys: Seq<Key>, left_down: bool, input: InjectedInput) -> (
    Seq<Key>,
    bool,
) {
    match input {
        InjectedInput::Keyboard { key, scan_code, up, extended } => (
            if up {
                keys_without(keys, key)
            } else if keys.contains(key) {
                keys
            } else {
                keys.push(key)
            },
            left_down,
        ),
        InjectedInput::LeftDown => (keys, true),
        InjectedInput::LeftUp => (keys, false),
        _ => (keys, left_down),
    }
}

pub open spec fn keys_without(keys: Seq<Key>, key: Key) -> Seq<Key>
    decreases keys.len(),
{
    if keys.len() == 0 {
        keys
    } else if keys.last() == key {
        keys_without(keys.drop_last(), key)
    } else {
        keys_without(keys.drop_last(), key).push(keys.last())
    }
}

/// The keys and the button that are held after a sequence of accepted inputs.
pub open spec fn held_after_all(
    keys: Seq<Key>,
    left_down: bool,
    steps: Seq<InputStep>,
) -> (Seq<Key>, bool)
    decreases steps.len(),
{
    if steps.len() == 0 {
        (keys, left_down)
    } else {
        let before = held_after_all(keys, left_down, steps.drop_last());
        match steps.last() {
            InputStep::Send(input) => held_after(before.0, before.1, input),
            InputStep::Wait(_) => before,
        }
    }
}

/// The steps of pressing and releasing a key.
pub open spec fn tap_steps(key: Key, hold_ms: u64) -> Seq<InputStep> {
    seq![
        InputStep::Send(key_input(key, false)),
        InputStep::Wait(hold_ms),
        InputStep::Send(key_input(key, true)),
    ]
}

/// The steps of a click where the cursor rests.
pub open spec fn click_steps(hold_ms: u64) -> Seq<InputStep> {
    seq![
        InputStep::Send(InjectedInput::LeftDown),
        InputStep::Wait(hold_ms),
        InputStep::Send(InjectedInput::LeftUp),
    ]
}

/// A position along a side of the virtual screen in units of 65535 per side.
pub open spec fn normalized(value: int, size: int) -> int {
    if size <= 1 {
        0
    } else {
        value * 65535 / (size - 1)
    }
}

pub fn normalize_absolute_mouse_coord(value: i32, size: i32) -> (unit: i32)
    requires
        0 <= value < size || size <= 1,
    ensures
        unit == normalized(value as int, size as int),
        0 <= unit <= 65535,
{
    if size <= 1 {
        return 0;
    }
    proof {
        normalized_range(value as int, size as int);
    }
    ((value as i64 * 65535) / (size as i64 - 1)) as i32
}

/// Positions on the screen become units from 0 to 65535, the first pixel 0 and the last 65535.
pub proof fn normalized_range(value: int, size: int)
    requires
        0 <= value < size,
    ensures
        0 <= normalized(value, size) <= 65535,
        normalized(0, size) == 0,
        size > 1 ==> normalized(size - 1, size) == 65535,
{
    if size > 1 {
        let d = size - 1;
        assert(0 <= value * 65535 / d <= 65535 && d * 65535 / d == 65535) by (nonlinear_arith)
            requires
                0 <= value <= d,
                d > 0,
        ;
    }
}

/// A pixel further along never gets a smaller unit.
pub proof fn normalized_is_monotone(left: int, right: int, size: int)
    requires
        0 <= left <= right < size,
    ensures
        normalized(left, size) <= normalized(right, size),
{
    if size > 1 {
        let d = size - 1;
        assert(left * 65535 / d <= right * 65535 / d) by (nonlinear_arith)
            requires
                0 <= left <= right,
                d > 0,
        ;
    }
}

/// The width or height that the system reports, at least one.
pub open spec fn extent(size: i32) -> int {
    if size > 1 {
        size as int
    } else {
        1
    }
}

/// The unit of a screen coordinate, moved onto the virtual screen if it lies outside.
pub open spec fn screen_unit(coordinate: int, start: i32, size: i32) -> int {
    normalized(clamped(coordinate, start as int, start + extent(size) - 1) - start, extent(size))
}

fn to_screen_unit(coordinate: i64, start: i32, size: i32) -> (unit: i32)
    requires
        start + extent(size) - 1 <= i32::MAX,
    ensures
        unit == screen_unit(coordinate as int, start, size),
        0 <= unit <= 65535,
{
    let length: i32 = if size > 1 {
        size
    } else {
        1
    };
    let inside: i64 = clamp(coordinate, start as i64, start as i64 + length as i64 - 1);
    normalize_absolute_mouse_coord((inside - start as i64) as i32, length)
}

/// The virtual screen ends within the range of screen coordinates.
pub open spec fn screen_in_range(screen: VirtualScreen) -> bool {
    &&& screen.left + extent(screen.width) - 1 <= i32::MAX
    &&& screen.top + extent(screen.height) - 1 <= i32::MAX
}

/// The move to a point of a window's client area.
pub open spec fn move_input(
    target: WindowTarget,
    point: ClientPoint,
    screen: VirtualScreen,
) -> InjectedInput {
    InjectedInput::MoveTo {
        dx: screen_unit(target.origin_x + point.x, screen.left, screen.width) as i32,
        dy: screen_unit(target.origin_y + point.y, screen.top, screen.height) as i32,
    }
}

/// Input to one window. `focused` tells with each call whether the window still takes input.
#[derive(Debug)]
pub struct InputSession {
    target: WindowTarget,
    injected: InjectedInputState,
}

impl InputSession {
    pub closed spec fn window(&self) -> WindowTarget {
        self.target
    }

    /// The keys that were pressed and not released.
    pub closed spec fn held_keys(&self) -> Seq<Key> {
        self.injected.keys@
    }

    pub closed spec fn button_down(&self) -> bool {
        self.injected.left_mouse_down
    }

    pub fn new(target: WindowTarget, focused: bool) -> (session: Result<Self, InputError>)
        ensures
            match session {
                Ok(started) => {
                    &&& focused
                    &&& started.window() == target
                    &&& started.held_keys().len() == 0
                    &&& !started.button_down()
                },
                Err(error) => !focused && error == InputError::TargetLost,
            },
    {
        if !focused {
            return Err(InputError::TargetLost);
        }
        Ok(
            InputSession {
                target,
                injected: InjectedInputState { keys: Vec::new(), left_mouse_down: false },
            },
        )
    }

    /// Turns the wheel by `notches`.
    pub fn scroll(&self, notches: i32, focused: bool) -> (input: Result<InjectedInput, InputError>)
        requires
            -17895697 <= notches <= 17895697,
        ensures
            input == if focused {
                Ok::<InjectedInput, InputError>(
                    InjectedInput::Wheel { delta: (120 * notches) as i32 },
                )
            } else {
                Err(InputError::TargetLost)
            },
    {
        if focused {
            Ok(InjectedInput::Wheel { delta: notches * WHEEL_DELTA })
        } else {
            Err(InputError::TargetLost)
        }
    }

    /// Moves the cursor to a point of the window.
    pub fn move_cursor(&self, point: ClientPoint, screen: VirtualScreen, focused: bool) -> (input:
        Result<InjectedInput, InputError>)
        requires
            screen_in_range(screen),
            point.x <= 0x1_ffff_ffff,
            point.y <= 0x1_ffff_ffff,
        ensures
            input == if focused {
                Ok::<InjectedInput, InputError>(move_input(self.window(), point, screen))
            } else {
                Err(InputError::TargetLost)
            },
    {
        if !focused {
            return Err(InputError::TargetLost);
        }
        let x: i64 = self.target.origin_x as i64 + point.x as i64;
        let y: i64 = self.target.origin_y as i64 + point.y as i64;
        Ok(
            InjectedInput::MoveTo {
                dx: to_screen_unit(x, screen.left, screen.width),
                dy: to_screen_unit(y, screen.top, screen.height),
            },
        )
    }

    /// Clicks where the cursor rests.
    pub fn click_current(&self, hold_ms: u64, focused: bool) -> (steps: Result<
        Vec<InputStep>,
        InputError,
    >)
        ensures
            match steps {
                Ok(planned) => focused && planned@ == click_steps(hold_ms),
                Err(error) => !focused && error == InputError::TargetLost,
            },
    {
        if !focused {
            return Err(InputError::TargetLost);
        }
        let mut steps: Vec<InputStep> = Vec::new();
        steps.push(InputStep::Send(InjectedInput::LeftDown));
        steps.push(InputStep::Wait(hold_ms));
        steps.push(InputStep::Send(InjectedInput::LeftUp));
        assert(steps@ =~= click_steps(hold_ms));
        Ok(steps)
    }

    /// Moves to a point of the window, waits for the cursor to settle, and clicks.
    pub fn click(&self, point: ClientPoint, screen: VirtualScreen, hold_ms: u64, focused: bool) -> (
    steps: Result<Vec<InputStep>, InputError>)
        requires
            screen_in_range(screen),
            point.x <= 0x1_ffff_ffff,
            point.y <= 0x1_ffff_ffff,
        ensures
            match steps {
                Ok(planned) => focused && planned@ == seq![
                    InputStep::Send(move_input(self.window(), point, screen)),
                    InputStep::Wait(30),
                ] + click_steps(hold_ms),
                Err(error) => !focused && error == InputError::TargetLost,
            },
    {
        let movement = match self.move_cursor(point, screen, focused) {
            Ok(input) => input,
            Err(error) => return Err(error),
        };
        let mut steps: Vec<InputStep> = Vec::new();
        steps.push(InputStep::Send(movement));
        steps.push(InputStep::Wait(CLICK_MOVE_SETTLE_DELAY));
        let ghost start = steps@;
        match self.click_current(hold_ms, focused) {
            Ok(mut clicking) => {
                steps.append(&mut clicking);
                assert(start =~= seq![
                    InputStep::Send(move_input(self.window(), point, screen)),
                    InputStep::Wait(30),
                ]);
                Ok(steps)
            },
            Err(error) => Err(error),
        }
    }

    /// Presses and releases a key.
    pub fn tap_key(&self, key: Key, hold_ms: u64, focused: bool) -> (steps: Result<
        Vec<InputStep>,
        InputError,
    >)
        ensures
            match steps {
                Ok(planned) => focused && planned@ == tap_steps(key, hold_ms),
                Err(error) => !focused && error == InputError::TargetLost,
            },
    {
        if !focused {
            return Err(InputError::TargetLost);
        }
        let mut steps: Vec<InputStep> = Vec::new();
        steps.push(InputStep::Send(keyboard_input(key, false)));
        steps.push(InputStep::Wait(hold_ms));
        steps.push(InputStep::Send(keyboard_input(key, true)));
        assert(steps@ =~= tap_steps(key, hold_ms));
        Ok(steps)
    }

    /// Takes note of an input that was handed to the system.
    pub fn sent(&mut self, input: InjectedInput, accepted: bool) -> (result: Result<
        (),
        InputError,
    >)
        ensures
            final(self).window() == old(self).window(),
            ({
                let held = held_after(old(self).held_keys(), old(self).button_down(), input);
                if accepted {
                    &&& result is Ok
                    &&& final(self).held_keys() == held.0
                    &&& final(self).button_down() == held.1
                } else {
                    &&& result == Err::<(), InputError>(InputError::NotAccepted)
                    &&& final(self).held_keys() == old(self).held_keys()
                    &&& final(self).button_down() == old(self).button_down()
                }
            }),
    {
        if !accepted {
            return Err(InputError::NotAccepted);
        }
        match input {
            InjectedInput::Keyboard { key, scan_code: _, up, extended: _ } => {
                if up {
                    self.injected.keys = released(&self.injected.keys, key);
                } else if !crate::input::is_pressed(key, &self.injected.keys) {
                    self.injected.keys.push(key);
                }
            },
            InjectedInput::LeftDown => {
                self.injected.left_mouse_down = true;
            },
            InjectedInput::LeftUp => {
                self.injected.left_mouse_down = false;
            },
            _ => {},
        }
        Ok(())
    }

    /// The inputs that release everything still held: the button first, then the keys in the
    /// opposite order of their presses. Nothing counts as held afterwards.
    pub fn release_held_inputs(&mut self) -> (inputs: Vec<InjectedInput>)
        ensures
            final(self).window() == old(self).window(),
            final(self).held_keys().len() == 0,
            !final(self).button_down(),
            inputs@ == releases(old(self).held_keys(), old(self).button_down()),
    {
        let mut inputs: Vec<InjectedInput> = Vec::new();
        if self.injected.left_mouse_down {
            inputs.push(InjectedInput::LeftUp);
        }
        let ghost keys = self.injected.keys@;
        let ghost start = inputs@;
        let mut index: usize = self.injected.keys.len();
        assert(key_releases(keys.skip(keys.len() as int)) =~= Seq::empty());
        while index > 0
            invariant
                index <= keys.len(),
                keys == self.injected.keys@,
                inputs@ == start + key_releases(keys.skip(index as int)),
            decreases index,
        {
            index = index - 1;
            inputs.push(keyboard_input(self.injected.keys[index], true));
            proof {
                assert(keys.skip(index as int).drop_first() =~= keys.skip(index + 1));
                assert(inputs@ =~= start + key_releases(keys.skip(index as int)));
            }
        }
        assert(keys.skip(0) =~= keys);
        self.injected = InjectedInputState { keys: Vec::new(), left_mouse_down: false };
        inputs
    }
}

/// The releases of keys, the last pressed first.
pub open spec fn key_releases(keys: Seq<Key>) -> Seq<InjectedInput>
    decreases keys.len(),
{
    if keys.len() == 0 {
        Seq::empty()
    } else {
        key_releases(keys.drop_first()).push(key_input(keys.first(), true))
    }
}

pub open spec fn releases(keys: Seq<Key>, left_down: bool) -> Seq<InjectedInput> {
    (if left_down {
        seq![InjectedInput::LeftUp]
    } else {
        Seq::empty()
    }) + key_releases(keys)
}

fn released(keys: &Vec<Key>, key: Key) -> (rest: Vec<Key>)
    ensures
        rest@ == keys_without(keys@, key),
{
    let mut rest: Vec<Key> = Vec::new();
    let mut index: usize = 0;
    assert(keys@.take(0) =~= Seq::empty());
    while index < keys.len()
        invariant
            index <= keys@.len(),
            rest@ == keys_without(keys@.take(index as int), key),
        decreases keys@.len() - index,
    {
        assert(keys@.take(index + 1).drop_last() =~= keys@.take(index as int));
        if keys[index] != key {
            rest.push(keys[index]);
        }
        index = index + 1;
    }
    assert(keys@.take(keys@.len() as int) =~= keys@);
    rest
}

proof fn absent_key_is_not_removed(keys: Seq<Key>, key: Key)
    requires
        !keys.contains(key),
    ensures
        keys_without(keys, key) == keys,
    decreases keys.len(),
{
    if keys.len() > 0 {
        let front = keys.drop_last();
        assert(!front.contains(key)) by {
            if front.contains(key) {
                let i = choose|i: int| 0 <= i < front.len() && front[i] == key;
                assert(keys[i] == key);
            }
        }
        assert(keys[keys.len() - 1] != key);
        absent_key_is_not_removed(front, key);
        assert(front.push(keys.last()) =~= keys);
    }
}

/// Tapping a key that is not held leaves everything held as it was.
pub proof fn tap_leaves_nothing_held(keys: Seq<Key>, left_down: bool, key: Key, hold_ms: u64)
    requires
        !keys.contains(key),
    ensures
        held_after_all(keys, left_down, tap_steps(key, hold_ms)) == (keys, left_down),
{
    let steps = tap_steps(key, hold_ms);
    let first = steps.drop_last().drop_last();
    assert(first =~= seq![InputStep::Send(key_input(key, false))]);
    assert(first.drop_last() =~= Seq::empty());
    assert(held_after_all(keys, left_down, Seq::empty()) == (keys, left_down));
    assert(held_after_all(keys, left_down, first) == (keys.push(key), left_down));
    assert(held_after_all(keys, left_down, steps.drop_last()) == (keys.push(key), left_down));
    assert(keys.push(key).drop_last() =~= keys);
    absent_key_is_not_removed(keys, key);
    assert(keys_without(keys.push(key), key) == keys);
}

/// A click leaves the button up and the held keys as they were.
pub proof fn click_leaves_the_button_up(keys: Seq<Key>, left_down: bool, hold_ms: u64)
    ensures
        held_after_all(keys, left_down, click_steps(hold_ms)) == (keys, false),
{
    let steps = click_steps(hold_ms);
    let first = steps.drop_last().drop_last();
    assert(first =~= seq![InputStep::Send(InjectedInput::LeftDown)]);
    assert(first.drop_last() =~= Seq::empty());
    assert(held_after_all(keys, left_down, Seq::empty()) == (keys, left_down));
    assert(held_after_all(keys, left_down, first) == (keys, true));
    assert(held_after_all(keys, left_down, steps.drop_last()) == (keys, true));
}

/// A pressed key is held until it is released, once however often it is pressed; the others are not
/// touched. The button is held from its press to its release, and moving the cursor or turning the
/// wheel holds nothing.
pub proof fn presses_are_held_until_released(
    keys: Seq<Key>,
    left_down: bool,
    input: InjectedInput,
    other: Key,
)
    ensures
        held_after(keys, left_down, input).0.contains(other) <==> match input {
            InjectedInput::Keyboard { key, scan_code, up, extended } => if key == other {
                !up
            } else {
                keys.contains(other)
            },
            _ => keys.contains(other),
        },
        keys.no_duplicates() ==> held_after(keys, left_down, input).0.no_duplicates(),
        held_after(keys, left_down, input).1 <==> input == InjectedInput::LeftDown || (left_down
            && input != InjectedInput::LeftUp),
{
    let after = held_after(keys, left_down, input).0;
    match input {
        InjectedInput::Keyboard { key, scan_code, up, extended } => {
            if up {
                released_keys_are_gone(keys, key, other);
            } else if !keys.contains(key) {
                assert(after == keys.push(key));
                assert(after[keys.len() as int] == key);
                if keys.contains(other) {
                    let at = choose|at: int| 0 <= at < keys.len() && keys[at] == other;
                    assert(after[at] == other);
                }
            }
        },
        _ => {},
    }
}

proof fn released_keys_are_gone(keys: Seq<Key>, key: Key, other: Key)
    ensures
        keys_without(keys, key).contains(other) <==> keys.contains(other) && other != key,
        keys.no_duplicates() ==> keys_without(keys, key).no_duplicates(),
    decreases keys.len(),
{
    if keys.len() > 0 {
        let front = keys.drop_last();
        let last = keys.last();
        released_keys_are_gone(front, key, other);
        released_keys_are_gone(front, key, last);
        let (some, rest) = (keys_without(front, key), keys_without(keys, key));
        assert(keys.contains(other) <==> front.contains(other) || other == last) by {
            if keys.contains(other) {
                let at = choose|at: int| 0 <= at < keys.len() && keys[at] == other;
                assert(at < front.len() ==> front[at] == other);
            }
            if front.contains(other) {
                let at = choose|at: int| 0 <= at < front.len() && front[at] == other;
                assert(keys[at] == other);
            }
            assert(keys[keys.len() - 1] == last);
        }
        if last != key {
            assert(rest == some.push(last));
            assert(rest[some.len() as int] == last);
            if some.contains(other) {
                let at = choose|at: int| 0 <= at < some.len() && some[at] == other;
                assert(rest[at] == other);
            }
            if rest.contains(other) && other != last {
                let at = choose|at: int| 0 <= at < rest.len() && rest[at] == other;
                assert(some[at] == other);
            }
        }
        if keys.no_duplicates() {
            assert(front.no_duplicates()) by {
                assert forall|left: int, right: int|
                    0 <= left < front.len() && 0 <= right < front.len() && left != right implies front[left]
                    != front[right] by {
                    assert(keys[left] != keys[right]);
                }
            }
            assert(!front.contains(last)) by {
                if front.contains(last) {
                    let at = choose|at: int| 0 <= at < front.len() && front[at] == last;
                    assert(keys[at] == keys[keys.len() - 1]);
                }
            }
        }
    }
}

/// Everything that is held is released, the button first and the keys in the opposite order of their
/// presses, each with its own codes.
pub proof fn held_keys_are_released_backwards(keys: Seq<Key>, left_down: bool, at: int)
    requires
        0 <= at < keys.len(),
    ensures
        ({
            let inputs = releases(keys, left_down);
            let first: int = if left_down {
                1
            } else {
                0
            };
            let key = keys[keys.len() - 1 - at];
            &&& inputs.len() == first + keys.len()
            &&& left_down ==> inputs[0] == InjectedInput::LeftUp
            &&& inputs[first + at] == (InjectedInput::Keyboard {
                key,
                scan_code: key.scan() as u16,
                up: true,
                extended: key.extended(),
            })
        }),
{
    key_releases_go_backwards(keys, at);
}

proof fn key_releases_go_backwards(keys: Seq<Key>, at: int)
    requires
        0 <= at < keys.len(),
    ensures
        key_releases(keys).len() == keys.len(),
        key_releases(keys)[at] == key_input(keys[keys.len() - 1 - at], true),
    decreases keys.len(),
{
    let rest = keys.drop_first();
    if rest.len() > 0 {
        key_releases_go_backwards(
            rest,
            if at < rest.len() {
                at
            } else {
                0
            },
        );
    } else {
        assert(key_releases(rest).len() == 0);
    }
}

/// The cursor is moved onto the screen: its left edge and all before it are 0, its right edge and
/// all beyond 65535, and a point further right is never further left in between.
pub proof fn moves_stay_on_the_screen(left: int, right: int, start: i32, size: i32)
    requires
        left <= right,
        size > 1,
    ensures
        0 <= screen_unit(left, start, size) <= screen_unit(right, start, size) <= 65535,
        left <= start ==> screen_unit(left, start, size) == 0,
        right >= start + size - 1 ==> screen_unit(right, start, size) == 65535,
{
    let low = clamped(left, start as int, start + size - 1) - start;
    let high = clamped(right, start as int, start + size - 1) - start;
    normalized_range(low, size as int);
    normalized_range(high, size as int);
    normalized_is_monotone(low, high, size as int);
}

/// A move follows the point: across goes by the column and the left edge of the window, down by the
/// row and its top, each on its own side of the screen.
pub proof fn moves_follow_the_point(
    target: WindowTarget,
    point: ClientPoint,
    other: ClientPoint,
    screen: VirtualScreen,
)
    requires
        screen.width > 1,
        screen.height > 1,
        point.x <= other.x,
        point.y <= other.y,
    ensures
        move_input(target, point, screen) matches InjectedInput::MoveTo { dx, dy } ==> (move_input(
            target,
            other,
            screen,
        ) matches InjectedInput::MoveTo { dx: other_dx, dy: other_dy } ==> {
            &&& 0 <= dx <= other_dx <= 65535
            &&& 0 <= dy <= other_dy <= 65535
            &&& point.x == other.x ==> dx == other_dx
            &&& point.y == other.y ==> dy == other_dy
            &&& target.origin_x + point.x <= screen.left ==> dx == 0
            &&& target.origin_y + point.y <= screen.top ==> dy == 0
            &&& target.origin_x + other.x >= screen.left + screen.width - 1 ==> other_dx == 65535
            &&& target.origin_y + other.y >= screen.top + screen.height - 1 ==> other_dy == 65535
        }),
        move_input(target, point, screen) is MoveTo,
{
    moves_stay_on_the_screen(
        target.origin_x + point.x,
        target.origin_x + other.x,
        screen.left,
        screen.width,
    );
    moves_stay_on_the_screen(
        target.origin_y + point.y,
        target.origin_y + other.y,
        screen.top,
        screen.height,
    );
}

/// A tap presses the key and releases it after the wait, and a click the button: both with the same
/// key or button at the start and at the end.
pub proof fn presses_come_before_releases(key: Key, hold_ms: u64, held: Seq<Key>, left_down: bool)
    ensures
        tap_steps(key, hold_ms).len() == 3,
        held_after_all(held, left_down, tap_steps(key, hold_ms).take(2)).0.contains(key),
        !held_after_all(held, left_down, tap_steps(key, hold_ms)).0.contains(key),
        tap_steps(key, hold_ms)[1] == InputStep::Wait(hold_ms),
        click_steps(hold_ms).len() == 3,
        held_after_all(held, left_down, click_steps(hold_ms).take(2)).1,
        !held_after_all(held, left_down, click_steps(hold_ms)).1,
        click_steps(hold_ms)[1] == InputStep::Wait(hold_ms),
{
    reveal_with_fuel(held_after_all, 4);
    let tap = tap_steps(key, hold_ms);
    let click = click_steps(hold_ms);
    assert(tap.take(2).drop_last() =~= tap.take(1));
    assert(tap.take(1).drop_last() =~= Seq::<InputStep>::empty());
    assert(tap.drop_last() =~= tap.take(2));
    assert(click.take(2).drop_last() =~= click.take(1));
    assert(click.take(1).drop_last() =~= Seq::<InputStep>::empty());
    assert(click.drop_last() =~= click.take(2));
    presses_are_held_until_released(held, left_down, key_input(key, false), key);
    let down = held_after(held, left_down, key_input(key, false));
    presses_are_held_until_released(down.0, down.1, key_input(key, true), key);
}

} // verus!
