//! Keys, hotkey modifiers and the hotkeys made of them.
use vstd::prelude::*;
use vstd::string::*;

use crate::platform::{ascii_lower, same_ignoring_case};
use crate::text::{decimal, digit_char, text_of};

verus! {

#[derive(Clone, Copy, Debug, PartialEq, Eq, Structural)]
pub enum Key {
    B,
    Digit0,
    Digit1,
    Digit2,
    Digit3,
    Digit4,
    Digit5,
    Digit6,
    Digit7,
    Digit8,
    Digit9,
    Numpad0,
    Numpad1,
    Numpad2,
    Numpad3,
    Numpad4,
    Numpad5,
    Numpad6,
    Numpad7,
    Numpad8,
    Numpad9,
    F1,
    F2,
    F3,
    F4,
    F5,
    F6,
    F7,
    F8,
    F9,
    F10,
    F11,
    F12,
    LCtrl,
    RCtrl,
    LShift,
    RShift,
    LAlt,
    RAlt,
    LWin,
    RWin,
}

impl Key {
    /// The digit, number pad and function keys can trigger a preset.
    pub open spec fn triggers_preset(self) -> bool {
        self.number() is Some
    }

    /// The number on a digit, number pad or function key.
    pub open spec fn number(self) -> Option<int> {
        match self {
            Key::Digit0 | Key::Numpad0 => Some(0),
            Key::Digit1 | Key::Numpad1 => Some(1),
            Key::Digit2 | Key::Numpad2 => Some(2),
            Key::Digit3 | Key::Numpad3 => Some(3),
            Key::Digit4 | Key::Numpad4 => Some(4),
            Key::Digit5 | Key::Numpad5 => Some(5),
            Key::Digit6 | Key::Numpad6 => Some(6),
            Key::Digit7 | Key::Numpad7 => Some(7),
            Key::Digit8 | Key::Numpad8 => Some(8),
            Key::Digit9 | Key::Numpad9 => Some(9),
            Key::F1 => Some(1),
            Key::F2 => Some(2),
            Key::F3 => Some(3),
            Key::F4 => Some(4),
            Key::F5 => Some(5),
            Key::F6 => Some(6),
            Key::F7 => Some(7),
            Key::F8 => Some(8),
            Key::F9 => Some(9),
            Key::F10 => Some(10),
            Key::F11 => Some(11),
            Key::F12 => Some(12),
            _ => None,
        }
    }

    pub open spec fn is_digit(self) -> bool {
        match self {
            Key::Digit0 | Key::Digit1 | Key::Digit2 | Key::Digit3 | Key::Digit4
            | Key::Digit5 | Key::Digit6 | Key::Digit7 | Key::Digit8 | Key::Digit9 => true,
            _ => false,
        }
    }

    pub open spec fn is_numpad(self) -> bool {
        match self {
            Key::Numpad0 | Key::Numpad1 | Key::Numpad2 | Key::Numpad3 | Key::Numpad4
            | Key::Numpad5 | Key::Numpad6 | Key::Numpad7 | Key::Numpad8 | Key::Numpad9 => true,
            _ => false,
        }
    }

    /// The function keys F1 to F12.
    pub open spec fn on_function_row(self) -> bool {
        self.number() is Some && !self.is_digit() && !self.is_numpad()
    }

    pub fn is_preset_key(self) -> (preset_key: bool)
        ensures
            preset_key == self.triggers_preset(),
    {
        match self {
            Key::B
            | Key::LCtrl
            | Key::RCtrl
            | Key::LShift
            | Key::RShift
            | Key::LAlt
            | Key::RAlt
            | Key::LWin
            | Key::RWin => false,
            _ => true,
        }
    }

    pub fn is_function_key(self) -> (function_key: bool)
        ensures
            function_key == self.on_function_row(),
    {
        match self {
            Key::F1 | Key::F2 | Key::F3 | Key::F4 | Key::F5
            | Key::F6 | Key::F7 | Key::F8 | Key::F9 | Key::F10
            | Key::F11 | Key::F12 => true,
            _ => false,
        }
    }

    /// The name of a function key in the configuration file.
    pub open spec fn config_name(self) -> Option<&'static str> {
        match self {
            Key::F1 => Some("f1"),
            Key::F2 => Some("f2"),
            Key::F3 => Some("f3"),
            Key::F4 => Some("f4"),
            Key::F5 => Some("f5"),
            Key::F6 => Some("f6"),
            Key::F7 => Some("f7"),
            Key::F8 => Some("f8"),
            Key::F9 => Some("f9"),
            Key::F10 => Some("f10"),
            Key::F11 => Some("f11"),
            Key::F12 => Some("f12"),
            _ => None,
        }
    }

    /// The key has this name in the configuration file.
    pub open spec fn is_named(self, name: Seq<char>) -> bool {
        self.config_name() matches Some(own) && own@ == name
    }

    /// The function key with this name in the configuration file.
    pub fn from_config_name(name: &str) -> (key: Option<Key>)
        ensures
            match key {
                Some(found) => found.is_named(name@),
                None => forall|other: Key| !#[trigger] other.is_named(name@),
            },
    {
        let wanted = text_of(name);
        if wanted == text_of("f1") {
            Some(Key::F1)
        } else if wanted == text_of("f2") {
            Some(Key::F2)
        } else if wanted == text_of("f3") {
            Some(Key::F3)
        } else if wanted == text_of("f4") {
            Some(Key::F4)
        } else if wanted == text_of("f5") {
            Some(Key::F5)
        } else if wanted == text_of("f6") {
            Some(Key::F6)
        } else if wanted == text_of("f7") {
            Some(Key::F7)
        } else if wanted == text_of("f8") {
            Some(Key::F8)
        } else if wanted == text_of("f9") {
            Some(Key::F9)
        } else if wanted == text_of("f10") {
            Some(Key::F10)
        } else if wanted == text_of("f11") {
            Some(Key::F11)
        } else if wanted == text_of("f12") {
            Some(Key::F12)
        } else {
            None
        }
    }

    /// The name shown to the user.
    pub open spec fn spec_name(self) -> &'static str {
        match self {
            Key::B => "B",
            Key::Digit0 => "0",
            Key::Digit1 => "1",
            Key::Digit2 => "2",
            Key::Digit3 => "3",
            Key::Digit4 => "4",
            Key::Digit5 => "5",
            Key::Digit6 => "6",
            Key::Digit7 => "7",
            Key::Digit8 => "8",
            Key::Digit9 => "9",
            Key::Numpad0 => "Num0",
            Key::Numpad1 => "Num1",
            Key::Numpad2 => "Num2",
            Key::Numpad3 => "Num3",
            Key::Numpad4 => "Num4",
            Key::Numpad5 => "Num5",
            Key::Numpad6 => "Num6",
            Key::Numpad7 => "Num7",
            Key::Numpad8 => "Num8",
            Key::Numpad9 => "Num9",
            Key::F1 => "F1",
            Key::F2 => "F2",
            Key::F3 => "F3",
            Key::F4 => "F4",
            Key::F5 => "F5",
            Key::F6 => "F6",
            Key::F7 => "F7",
            Key::F8 => "F8",
            Key::F9 => "F9",
            Key::F10 => "F10",
            Key::F11 => "F11",
            Key::F12 => "F12",
            Key::LCtrl => "LCtrl",
            Key::RCtrl => "RCtrl",
            Key::LShift => "LShift",
            Key::RShift => "RShift",
            Key::LAlt => "LAlt",
            Key::RAlt => "RAlt",
            Key::LWin => "LWin",
            Key::RWin => "RWin",
        }
    }

    pub fn name(self) -> (name: &'static str)
        ensures
            name@ == self.spec_name()@,
    {
        match self {
            Key::B => "B",
            Key::Digit0 => "0",
            Key::Digit1 => "1",
            Key::Digit2 => "2",
            Key::Digit3 => "3",
            Key::Digit4 => "4",
            Key::Digit5 => "5",
            Key::Digit6 => "6",
            Key::Digit7 => "7",
            Key::Digit8 => "8",
            Key::Digit9 => "9",
            Key::Numpad0 => "Num0",
            Key::Numpad1 => "Num1",
            Key::Numpad2 => "Num2",
            Key::Numpad3 => "Num3",
            Key::Numpad4 => "Num4",
            Key::Numpad5 => "Num5",
            Key::Numpad6 => "Num6",
            Key::Numpad7 => "Num7",
            Key::Numpad8 => "Num8",
            Key::Numpad9 => "Num9",
            Key::F1 => "F1",
            Key::F2 => "F2",
            Key::F3 => "F3",
            Key::F4 => "F4",
            Key::F5 => "F5",
            Key::F6 => "F6",
            Key::F7 => "F7",
            Key::F8 => "F8",
            Key::F9 => "F9",
            Key::F10 => "F10",
            Key::F11 => "F11",
            Key::F12 => "F12",
            Key::LCtrl => "LCtrl",
            Key::RCtrl => "RCtrl",
            Key::LShift => "LShift",
            Key::RShift => "RShift",
            Key::LAlt => "LAlt",
            Key::RAlt => "RAlt",
            Key::LWin => "LWin",
            Key::RWin => "RWin",
        }
    }

    /// The hardware code of the key. The two Ctrl keys share one, and so do the two Alt keys.
    pub open spec fn scan(self) -> int {
        match self {
            Key::B => 0x30,
            Key::Digit0 => 0x0B,
            Key::Numpad0 => 0x52,
            Key::Numpad1 => 0x4F,
            Key::Numpad2 => 0x50,
            Key::Numpad3 => 0x51,
            Key::Numpad4 => 0x4B,
            Key::Numpad5 => 0x4C,
            Key::Numpad6 => 0x4D,
            Key::Numpad7 => 0x47,
            Key::Numpad8 => 0x48,
            Key::Numpad9 => 0x49,
            Key::F11 => 0x57,
            Key::F12 => 0x58,
            Key::LCtrl | Key::RCtrl => 0x1D,
            Key::LShift => 0x2A,
            Key::RShift => 0x36,
            Key::LAlt | Key::RAlt => 0x38,
            Key::LWin => 0x5B,
            Key::RWin => 0x5C,
            _ => if self.is_digit() {
                0x01 + self.number()->0
            } else {
                0x3A + self.number()->0
            },
        }
    }

    pub fn scan_code(self) -> (code: u16)
        ensures
            code == self.scan(),
    {
        match self {
            Key::B => 0x30,
            Key::Digit0 => 0x0B,
            Key::Digit1 => 0x02,
            Key::Digit2 => 0x03,
            Key::Digit3 => 0x04,
            Key::Digit4 => 0x05,
            Key::Digit5 => 0x06,
            Key::Digit6 => 0x07,
            Key::Digit7 => 0x08,
            Key::Digit8 => 0x09,
            Key::Digit9 => 0x0A,
            Key::Numpad0 => 0x52,
            Key::Numpad1 => 0x4F,
            Key::Numpad2 => 0x50,
            Key::Numpad3 => 0x51,
            Key::Numpad4 => 0x4B,
            Key::Numpad5 => 0x4C,
            Key::Numpad6 => 0x4D,
            Key::Numpad7 => 0x47,
            Key::Numpad8 => 0x48,
            Key::Numpad9 => 0x49,
            Key::F1 => 0x3B,
            Key::F2 => 0x3C,
            Key::F3 => 0x3D,
            Key::F4 => 0x3E,
            Key::F5 => 0x3F,
            Key::F6 => 0x40,
            Key::F7 => 0x41,
            Key::F8 => 0x42,
            Key::F9 => 0x43,
            Key::F10 => 0x44,
            Key::F11 => 0x57,
            Key::F12 => 0x58,
            Key::LCtrl => 0x1D,
            Key::RCtrl => 0x1D,
            Key::LShift => 0x2A,
            Key::RShift => 0x36,
            Key::LAlt => 0x38,
            Key::RAlt => 0x38,
            Key::LWin => 0x5B,
            Key::RWin => 0x5C,
        }
    }

    /// The code by which the system knows the key: consecutive within each group of keys.
    pub open spec fn virtual_code(self) -> int {
        match self {
            Key::B => 0x42,
            Key::LShift => 0xA0,
            Key::RShift => 0xA1,
            Key::LCtrl => 0xA2,
            Key::RCtrl => 0xA3,
            Key::LAlt => 0xA4,
            Key::RAlt => 0xA5,
            Key::LWin => 0x5B,
            Key::RWin => 0x5C,
            _ => if self.is_digit() {
                0x30 + self.number()->0
            } else if self.is_numpad() {
                0x60 + self.number()->0
            } else {
                0x6F + self.number()->0
            },
        }
    }

    pub fn virtual_key(self) -> (code: u32)
        ensures
            code == self.virtual_code(),
    {
        match self {
            Key::B => 0x42,
            Key::Digit0 => 0x30,
            Key::Digit1 => 0x31,
            Key::Digit2 => 0x32,
            Key::Digit3 => 0x33,
            Key::Digit4 => 0x34,
            Key::Digit5 => 0x35,
            Key::Digit6 => 0x36,
            Key::Digit7 => 0x37,
            Key::Digit8 => 0x38,
            Key::Digit9 => 0x39,
            Key::Numpad0 => 0x60,
            Key::Numpad1 => 0x61,
            Key::Numpad2 => 0x62,
            Key::Numpad3 => 0x63,
            Key::Numpad4 => 0x64,
            Key::Numpad5 => 0x65,
            Key::Numpad6 => 0x66,
            Key::Numpad7 => 0x67,
            Key::Numpad8 => 0x68,
            Key::Numpad9 => 0x69,
            Key::F1 => 0x70,
            Key::F2 => 0x71,
            Key::F3 => 0x72,
            Key::F4 => 0x73,
            Key::F5 => 0x74,
            Key::F6 => 0x75,
            Key::F7 => 0x76,
            Key::F8 => 0x77,
            Key::F9 => 0x78,
            Key::F10 => 0x79,
            Key::F11 => 0x7A,
            Key::F12 => 0x7B,
            Key::LCtrl => 0xA2,
            Key::RCtrl => 0xA3,
            Key::LShift => 0xA0,
            Key::RShift => 0xA1,
            Key::LAlt => 0xA4,
            Key::RAlt => 0xA5,
            Key::LWin => 0x5B,
            Key::RWin => 0x5C,
        }
    }

    /// Keys whose hardware code is sent with the extended prefix.
    pub open spec fn extended(self) -> bool {
        self == Key::RCtrl || self == Key::RAlt || self == Key::LWin || self == Key::RWin
    }

    pub fn is_extended(self) -> (extended: bool)
        ensures
            extended == self.extended(),
    {
        self == Key::RCtrl || self == Key::RAlt || self == Key::LWin || self == Key::RWin
    }
}

/// The hardware code together with the extended prefix names one key.
pub proof fn scan_codes_name_one_key(left: Key, right: Key)
    requires
        left.scan() == right.scan(),
        left.extended() == right.extended(),
    ensures
        left == right,
{
}

/// The virtual code names one key.
pub proof fn virtual_codes_name_one_key(left: Key, right: Key)
    requires
        left.virtual_code() == right.virtual_code(),
    ensures
        left == right,
{
}

/// Whether `key` is among the pressed keys.
pub fn is_pressed(key: Key, pressed: &Vec<Key>) -> (down: bool)
    ensures
        down == pressed@.contains(key),
{
    let mut index: usize = 0;
    while index < pressed.len()
        invariant
            index <= pressed@.len(),
            forall|earlier: int| 0 <= earlier < index ==> pressed@[earlier] != key,
        decreases pressed@.len() - index,
    {
        if pressed[index] == key {
            return true;
        }
        index = index + 1;
    }
    false
}

#[derive(Clone, Copy, Debug, PartialEq, Eq, Structural)]
pub enum HotkeyModifier {
    Shift,
    Ctrl,
    Alt,
    Win,
}

impl HotkeyModifier {
    /// The name in the configuration file.
    pub open spec fn spec_name(self) -> &'static str {
        match self {
            HotkeyModifier::Shift => "shift",
            HotkeyModifier::Ctrl => "ctrl",
            HotkeyModifier::Alt => "alt",
            HotkeyModifier::Win => "win",
        }
    }

    /// The modifier with this name in the configuration file.
    pub fn from_name(name: &str) -> (modifier: Option<HotkeyModifier>)
        ensures
            match modifier {
                Some(found) => found.spec_name()@ == name@,
                None => forall|other: HotkeyModifier| (#[trigger] other.spec_name())@ != name@,
            },
    {
        let wanted = text_of(name);
        if wanted == text_of("shift") {
            Some(HotkeyModifier::Shift)
        } else if wanted == text_of("ctrl") {
            Some(HotkeyModifier::Ctrl)
        } else if wanted == text_of("alt") {
            Some(HotkeyModifier::Alt)
        } else if wanted == text_of("win") {
            Some(HotkeyModifier::Win)
        } else {
            None
        }
    }

    pub fn name(self) -> (name: &'static str)
        ensures
            name@ == self.spec_name()@,
    {
        match self {
            HotkeyModifier::Shift => "shift",
            HotkeyModifier::Ctrl => "ctrl",
            HotkeyModifier::Alt => "alt",
            HotkeyModifier::Win => "win",
        }
    }

    /// The name shown to the user.
    pub open spec fn spec_display_name(self) -> &'static str {
        match self {
            HotkeyModifier::Shift => "Shift",
            HotkeyModifier::Ctrl => "Ctrl",
            HotkeyModifier::Alt => "Alt",
            HotkeyModifier::Win => "Win",
        }
    }

    pub fn display_name(self) -> (name: &'static str)
        ensures
            name@ == self.spec_display_name()@,
    {
        match self {
            HotkeyModifier::Shift => "Shift",
            HotkeyModifier::Ctrl => "Ctrl",
            HotkeyModifier::Alt => "Alt",
            HotkeyModifier::Win => "Win",
        }
    }

    /// The left and the right key of the modifier.
    pub open spec fn keys(self) -> (Key, Key) {
        match self {
            HotkeyModifier::Shift => (Key::LShift, Key::RShift),
            HotkeyModifier::Ctrl => (Key::LCtrl, Key::RCtrl),
            HotkeyModifier::Alt => (Key::LAlt, Key::RAlt),
            HotkeyModifier::Win => (Key::LWin, Key::RWin),
        }
    }

    pub fn release_keys(self) -> (keys: (Key, Key))
        ensures
            keys == self.keys(),
    {
        match self {
            HotkeyModifier::Shift => (Key::LShift, Key::RShift),
            HotkeyModifier::Ctrl => (Key::LCtrl, Key::RCtrl),
            HotkeyModifier::Alt => (Key::LAlt, Key::RAlt),
            HotkeyModifier::Win => (Key::LWin, Key::RWin),
        }
    }

    /// The flag by which a hotkey with this modifier is registered.
    pub open spec fn flag(self) -> int {
        match self {
            HotkeyModifier::Alt => 1,
            HotkeyModifier::Ctrl => 2,
            HotkeyModifier::Shift => 4,
            HotkeyModifier::Win => 8,
        }
    }

    pub fn hotkey_modifiers(self) -> (flag: u32)
        ensures
            flag == self.flag(),
    {
        match self {
            HotkeyModifier::Alt => 1,
            HotkeyModifier::Ctrl => 2,
            HotkeyModifier::Shift => 4,
            HotkeyModifier::Win => 8,
        }
    }

    /// One of the two keys of the modifier is pressed.
    pub open spec fn held(self, pressed: Seq<Key>) -> bool {
        pressed.contains(self.keys().0) || pressed.contains(self.keys().1)
    }

    pub fn is_down(self, pressed: &Vec<Key>) -> (down: bool)
        ensures
            down == self.held(pressed@),
    {
        let (left, right) = self.release_keys();
        is_pressed(left, pressed) || is_pressed(right, pressed)
    }
}

/// Why modifiers cannot be used.
#[derive(Clone, Copy, Debug, PartialEq, Eq, Structural)]
pub enum ModifiersError {
    /// More modifiers than there are.
    TooMany { given: usize },
    Duplicate { modifier: HotkeyModifier },
}

/// Up to four different modifiers, in the order in which they were given.
#[derive(Clone, Copy, Debug)]
pub struct HotkeyModifiers {
    values: [Option<HotkeyModifier>; 4],
    count: usize,
}

/// `index` holds the first modifier that was given before.
pub open spec fn is_first_repeat(values: Seq<HotkeyModifier>, index: int) -> bool {
    &&& 0 <= index < values.len()
    &&& values.take(index).contains(values[index])
    &&& values.take(index).no_duplicates()
}

/// The keys of the modifiers, the left key of each before its right key.
pub open spec fn keys_of(values: Seq<HotkeyModifier>) -> Seq<Key>
    decreases values.len(),
{
    if values.len() == 0 {
        Seq::empty()
    } else {
        keys_of(values.drop_last()).push(values.last().keys().0).push(values.last().keys().1)
    }
}

/// The shown names of the modifiers, each followed by a plus sign.
pub open spec fn names_of(values: Seq<HotkeyModifier>) -> Seq<char>
    decreases values.len(),
{
    if values.len() == 0 {
        Seq::empty()
    } else {
        names_of(values.drop_last()) + values.last().spec_display_name()@ + " + "@
    }
}

/// The sum of the flags of the modifiers.
pub open spec fn flags_of(values: Seq<HotkeyModifier>) -> int
    decreases values.len(),
{
    if values.len() == 0 {
        0
    } else {
        flags_of(values.drop_last()) + values.last().flag()
    }
}

impl View for HotkeyModifiers {
    type V = Seq<HotkeyModifier>;

    closed spec fn view(&self) -> Seq<HotkeyModifier> {
        Seq::new(self.count as nat, |index: int| self.values@[index]->0)
    }
}

impl HotkeyModifiers {
    #[verifier::type_invariant]
    spec fn filled(&self) -> bool {
        &&& self.count <= 4
        &&& forall|index: int| 0 <= index < self.count ==> self.values@[index] is Some
        &&& self@.no_duplicates()
    }

    pub fn new(values: Vec<HotkeyModifier>) -> (modifiers: Result<Self, ModifiersError>)
        ensures
            match modifiers {
                Ok(accepted) => {
                    &&& accepted@ == values@
                    &&& values@.len() <= 4
                    &&& values@.no_duplicates()
                },
                Err(ModifiersError::TooMany { given }) => values@.len() > 4 && given
                    == values@.len(),
                Err(ModifiersError::Duplicate { modifier }) => values@.len() <= 4 && exists|
                    index: int,
                | #[trigger]
                    is_first_repeat(values@, index) && modifier == values@[index],
            },
    {
        if values.len() > 4 {
            return Err(ModifiersError::TooMany { given: values.len() });
        }
        let mut slots: [Option<HotkeyModifier>; 4] = [None, None, None, None];
        let mut index: usize = 0;
        while index < values.len()
            invariant
                index <= values@.len() <= 4,
                forall|i: int| 0 <= i < index ==> slots@[i] == Some(values@[i]),
                values@.take(index as int).no_duplicates(),
            decreases values@.len() - index,
        {
            let modifier = values[index];
            let ghost done = values@.take(index as int);
            let mut earlier: usize = 0;
            while earlier < index
                invariant
                    earlier <= index < values@.len(),
                    modifier == values@[index as int],
                    done == values@.take(index as int),
                    done.no_duplicates(),
                    values@.len() <= 4,
                    forall|i: int| 0 <= i < earlier ==> done[i] != modifier,
                decreases index - earlier,
            {
                if values[earlier] == modifier {
                    assert(done[earlier as int] == modifier);
                    assert(is_first_repeat(values@, index as int));
                    return Err(ModifiersError::Duplicate { modifier });
                }
                earlier = earlier + 1;
            }
            slots[index] = Some(modifier);
            proof {
                let next = values@.take(index + 1);
                assert forall|i: int, j: int|
                    0 <= i < next.len() && 0 <= j < next.len() && i != j implies next[i]
                    != next[j] by {
                    if i < index && j < index {
                        assert(done[i] != done[j]);
                    } else if i < index {
                        assert(done[i] != modifier);
                    } else {
                        assert(done[j] != modifier);
                    }
                }
            }
            index = index + 1;
        }
        assert(values@.take(values@.len() as int) =~= values@);
        let ghost shown = Seq::new(values@.len(), |i: int| slots@[i]->0);
        assert(shown =~= values@);
        let modifiers = HotkeyModifiers { values: slots, count: values.len() };
        Ok(modifiers)
    }

    fn at(&self, index: usize) -> (modifier: HotkeyModifier)
        requires
            index < self@.len(),
        ensures
            modifier == self@[index as int],
    {
        proof {
            use_type_invariant(self);
        }
        match self.values[index] {
            Some(modifier) => modifier,
            None => HotkeyModifier::Shift,
        }
    }

    fn len(&self) -> (count: usize)
        ensures
            count == self@.len(),
            count <= 4,
            self@.no_duplicates(),
    {
        proof {
            use_type_invariant(self);
        }
        self.count
    }

    /// The modifiers in order.
    pub fn iter(&self) -> (values: Vec<HotkeyModifier>)
        ensures
            values@ == self@,
    {
        let count: usize = self.len();
        let mut values: Vec<HotkeyModifier> = Vec::new();
        let mut index: usize = 0;
        while index < count
            invariant
                index <= count == self@.len(),
                values@ == self@.take(index as int),
            decreases count - index,
        {
            values.push(self.at(index));
            index = index + 1;
            assert(self@.take(index as int) =~= self@.take(index - 1).push(self@[index - 1]));
        }
        assert(self@.take(self@.len() as int) =~= self@);
        values
    }

    /// The keys that have to be up for the modifiers to be released.
    pub fn release_keys(&self) -> (keys: Vec<Key>)
        ensures
            keys@ == keys_of(self@),
    {
        let count: usize = self.len();
        let mut keys: Vec<Key> = Vec::new();
        let mut index: usize = 0;
        assert(self@.take(0) =~= Seq::empty());
        while index < count
            invariant
                index <= count == self@.len(),
                keys@ == keys_of(self@.take(index as int)),
            decreases count - index,
        {
            let (left, right) = self.at(index).release_keys();
            keys.push(left);
            keys.push(right);
            assert(self@.take(index + 1).drop_last() =~= self@.take(index as int));
            index = index + 1;
        }
        assert(self@.take(self@.len() as int) =~= self@);
        keys
    }

    /// The shown name of a hotkey with these modifiers.
    pub fn label_with_key(&self, key: Key) -> (label: String)
        ensures
            label@ == names_of(self@) + key.spec_name()@,
    {
        let count: usize = self.len();
        let mut label = text_of("");
        let mut index: usize = 0;
        proof {
            reveal_strlit("");
            assert(self@.take(0) =~= Seq::empty());
            assert(label@ =~= Seq::empty());
        }
        while index < count
            invariant
                index <= count == self@.len(),
                label@ == names_of(self@.take(index as int)),
            decreases count - index,
        {
            label.append(self.at(index).display_name());
            label.append(" + ");
            assert(self@.take(index + 1).drop_last() =~= self@.take(index as int));
            index = index + 1;
        }
        assert(self@.take(self@.len() as int) =~= self@);
        label.append(key.name());
        label
    }

    /// The flags by which a hotkey with these modifiers is registered: those of the modifiers,
    /// and the one that suppresses repetition.
    pub fn hotkey_modifiers(&self) -> (flags: u32)
        ensures
            flags == 0x4000 + flags_of(self@),
    {
        let count: usize = self.len();
        let mut flags: u32 = 0x4000;
        let mut index: usize = 0;
        assert(self@.take(0) =~= Seq::empty());
        while index < count
            invariant
                index <= count == self@.len(),
                count <= 4,
                flags == 0x4000 + flags_of(self@.take(index as int)),
                flags <= 0x4000 + 8 * index,
            decreases count - index,
        {
            flags = flags + self.at(index).hotkey_modifiers();
            assert(self@.take(index + 1).drop_last() =~= self@.take(index as int));
            index = index + 1;
        }
        assert(self@.take(self@.len() as int) =~= self@);
        flags
    }

    /// All modifiers are held. Without modifiers there is nothing to hold.
    pub open spec fn held(&self, pressed: Seq<Key>) -> bool {
        self@.len() > 0 && forall|index: int|
            0 <= index < self@.len() ==> (#[trigger] self@[index]).held(pressed)
    }

    pub fn is_down(&self, pressed: &Vec<Key>) -> (down: bool)
        ensures
            down == self.held(pressed@),
    {
        let count: usize = self.len();
        if count == 0 {
            return false;
        }
        let mut index: usize = 0;
        while index < count
            invariant
                index <= count == self@.len(),
                forall|i: int| 0 <= i < index ==> (#[trigger] self@[i]).held(pressed@),
            decreases count - index,
        {
            if !self.at(index).is_down(pressed) {
                assert(!self@[index as int].held(pressed@));
                return false;
            }
            index = index + 1;
        }
        true
    }
}

/// A hotkey and the number it is registered under.
#[derive(Clone, Copy, Debug)]
pub struct HotkeySpec {
    pub id: i32,
    pub modifiers: HotkeyModifiers,
    pub key: Key,
}

impl HotkeySpec {
    pub fn label(&self) -> (label: String)
        ensures
            label@ == names_of(self.modifiers@) + self.key.spec_name()@,
    {
        self.modifiers.label_with_key(self.key)
    }
}

/// A function key is named by an F and its number, in small letters in the configuration file; a
/// number pad key by its digit after Num; and a digit key by its digit. No other key has a name in
/// the configuration file.
pub proof fn keys_are_named_by_their_numbers(key: Key)
    ensures
        key.config_name() is Some <==> key.on_function_row(),
        key.on_function_row() ==> key.number() is Some && 1 <= key.number()->0 <= 12,
        key.on_function_row() ==> key.config_name()->0@ == "f"@ + decimal(key.number()->0 as nat),
        key.on_function_row() ==> key.spec_name()@ == "F"@ + decimal(key.number()->0 as nat),
        key.is_numpad() ==> key.number() is Some && key.spec_name()@ == "Num"@ + decimal(
            key.number()->0 as nat,
        ),
        key.is_digit() ==> key.number() is Some && key.spec_name()@ == decimal(
            key.number()->0 as nat,
        ),
{
    reveal_strlit("f");
    reveal_strlit("F");
    reveal_strlit("Num");
    reveal_with_fuel(decimal, 2);
    assert(digit_char(0) == '0' && digit_char(1) == '1' && digit_char(2) == '2' && digit_char(3)
        == '3' && digit_char(4) == '4');
    assert(digit_char(5) == '5' && digit_char(6) == '6' && digit_char(7) == '7' && digit_char(8)
        == '8' && digit_char(9) == '9');
    function_names(key);
    pad_names(key);
}

proof fn function_names(key: Key)
    ensures
        key.on_function_row() ==> key.config_name()->0@ == "f"@ + decimal(key.number()->0 as nat),
        key.on_function_row() ==> key.spec_name()@ == "F"@ + decimal(key.number()->0 as nat),
{
    reveal_strlit("f");
    reveal_strlit("F");
    reveal_strlit("f1");
    reveal_strlit("f2");
    reveal_strlit("f3");
    reveal_strlit("f4");
    reveal_strlit("f5");
    reveal_strlit("f6");
    reveal_strlit("f7");
    reveal_strlit("f8");
    reveal_strlit("f9");
    reveal_strlit("f10");
    reveal_strlit("f11");
    reveal_strlit("f12");
    reveal_strlit("F1");
    reveal_strlit("F2");
    reveal_strlit("F3");
    reveal_strlit("F4");
    reveal_strlit("F5");
    reveal_strlit("F6");
    reveal_strlit("F7");
    reveal_strlit("F8");
    reveal_strlit("F9");
    reveal_strlit("F10");
    reveal_strlit("F11");
    reveal_strlit("F12");
    reveal_with_fuel(decimal, 2);
    assert(digit_char(0) == '0' && digit_char(1) == '1' && digit_char(2) == '2' && digit_char(3)
        == '3' && digit_char(4) == '4');
    assert(digit_char(5) == '5' && digit_char(6) == '6' && digit_char(7) == '7' && digit_char(8)
        == '8' && digit_char(9) == '9');
    if key.on_function_row() {
        assert(key.config_name()->0@ =~= "f"@ + decimal(key.number()->0 as nat));
        assert(key.spec_name()@ =~= "F"@ + decimal(key.number()->0 as nat));
    }
}

proof fn pad_names(key: Key)
    ensures
        key.is_numpad() ==> key.spec_name()@ == "Num"@ + decimal(key.number()->0 as nat),
        key.is_digit() ==> key.spec_name()@ == decimal(key.number()->0 as nat),
{
    reveal_strlit("Num");
    reveal_strlit("Num0");
    reveal_strlit("Num1");
    reveal_strlit("Num2");
    reveal_strlit("Num3");
    reveal_strlit("Num4");
    reveal_strlit("Num5");
    reveal_strlit("Num6");
    reveal_strlit("Num7");
    reveal_strlit("Num8");
    reveal_strlit("Num9");
    reveal_strlit("0");
    reveal_strlit("1");
    reveal_strlit("2");
    reveal_strlit("3");
    reveal_strlit("4");
    reveal_strlit("5");
    reveal_strlit("6");
    reveal_strlit("7");
    reveal_strlit("8");
    reveal_strlit("9");
    reveal_with_fuel(decimal, 2);
    assert(digit_char(0) == '0' && digit_char(1) == '1' && digit_char(2) == '2' && digit_char(3)
        == '3' && digit_char(4) == '4');
    assert(digit_char(5) == '5' && digit_char(6) == '6' && digit_char(7) == '7' && digit_char(8)
        == '8' && digit_char(9) == '9');
    if key.is_numpad() {
        assert(key.spec_name()@ =~= "Num"@ + decimal(key.number()->0 as nat));
    }
    if key.is_digit() {
        assert(key.spec_name()@ =~= decimal(key.number()->0 as nat));
    }
}

/// Each group of keys has its numbers once: 0 to 9 on the digit and number pad keys, 1 to 12 on the
/// function keys. The next number is the next code for the system, and the groups do not overlap.
pub proof fn numbered_keys_are_consecutive(left: Key, right: Key)
    requires
        left.number() is Some,
        right.number() is Some,
        left.is_digit() == right.is_digit(),
        left.is_numpad() == right.is_numpad(),
    ensures
        left.virtual_code() - right.virtual_code() == left.number()->0 - right.number()->0,
        left.number() == right.number() ==> left == right,
        !(left.is_digit() && left.is_numpad()),
        left.triggers_preset(),
        left.is_digit() || left.is_numpad() ==> 0 <= left.number()->0 <= 9,
{
}

/// The keys of a modifier are named after it, with an L for the left and an R for the right one. A
/// modifier is held with either of them, and with no other key.
pub proof fn modifiers_are_held_with_their_keys(modifier: HotkeyModifier, pressed: Seq<Key>)
    ensures
        modifier.keys().0.spec_name()@ == "L"@ + modifier.spec_display_name()@,
        modifier.keys().1.spec_name()@ == "R"@ + modifier.spec_display_name()@,
        modifier.held(pressed) <==> exists|at: int|
            0 <= at < pressed.len() && (#[trigger] pressed[at] == modifier.keys().0 || pressed[at]
                == modifier.keys().1),
{
    reveal_strlit("L");
    reveal_strlit("R");
    reveal_strlit("Shift");
    reveal_strlit("Ctrl");
    reveal_strlit("Alt");
    reveal_strlit("Win");
    reveal_strlit("LShift");
    reveal_strlit("LCtrl");
    reveal_strlit("LAlt");
    reveal_strlit("LWin");
    reveal_strlit("RShift");
    reveal_strlit("RCtrl");
    reveal_strlit("RAlt");
    reveal_strlit("RWin");
    assert(modifier.keys().0.spec_name()@ =~= "L"@ + modifier.spec_display_name()@);
    assert(modifier.keys().1.spec_name()@ =~= "R"@ + modifier.spec_display_name()@);
    if exists|at: int|
        0 <= at < pressed.len() && (#[trigger] pressed[at] == modifier.keys().0 || pressed[at]
            == modifier.keys().1) {
        let at = choose|at: int|
            0 <= at < pressed.len() && (#[trigger] pressed[at] == modifier.keys().0 || pressed[at]
                == modifier.keys().1);
        assert(pressed.contains(pressed[at]));
    }
}

/// The name of a modifier in the configuration file is the shown one in small letters, and no two
/// share one.
pub proof fn modifiers_are_told_apart(left: HotkeyModifier, right: HotkeyModifier)
    ensures
        left.spec_name()@ == right.spec_name()@ ==> left == right,
        left.flag() == right.flag() ==> left == right,
        same_ignoring_case(left.spec_name()@, right.spec_display_name()@) <==> left == right,
{
    reveal_strlit("shift");
    reveal_strlit("ctrl");
    reveal_strlit("alt");
    reveal_strlit("win");
    reveal_strlit("Shift");
    reveal_strlit("Ctrl");
    reveal_strlit("Alt");
    reveal_strlit("Win");
    let (small, shown) = (left.spec_name()@, right.spec_display_name()@);
    assert("alt"@[0] == 'a' && "win"@[0] == 'w');
    if left != right && small.len() == shown.len() {
        assert(ascii_lower(small[0]) != ascii_lower(shown[0]));
    }
}

/// Each modifier has a flag of its own among four: those of different modifiers add up without
/// overlap, so that the sum tells which modifiers are meant.
pub proof fn flags_do_not_overlap(values: Seq<HotkeyModifier>, modifier: HotkeyModifier)
    requires
        values.no_duplicates(),
    ensures
        0 <= flags_of(values) <= 15,
        values.contains(modifier) <==> (flags_of(values) / modifier.flag()) % 2 == 1,
    decreases values.len(),
{
    let (alt, ctrl, shift, win) = (
        HotkeyModifier::Alt,
        HotkeyModifier::Ctrl,
        HotkeyModifier::Shift,
        HotkeyModifier::Win,
    );
    flags_count_the_modifiers(values);
    let a: int = if values.contains(alt) {
        1
    } else {
        0
    };
    let c: int = if values.contains(ctrl) {
        1
    } else {
        0
    };
    let s: int = if values.contains(shift) {
        1
    } else {
        0
    };
    let w: int = if values.contains(win) {
        1
    } else {
        0
    };
    let sum = flags_of(values);
    assert(sum == a + 2 * c + 4 * s + 8 * w);
    assert(sum % 2 == a && (sum / 2) % 2 == c && (sum / 4) % 2 == s && (sum / 8) % 2 == w);
    assert(sum / 1 == sum);
    match modifier {
        HotkeyModifier::Alt => assert(sum / modifier.flag() == sum / 1),
        HotkeyModifier::Ctrl => assert(sum / modifier.flag() == sum / 2),
        HotkeyModifier::Shift => assert(sum / modifier.flag() == sum / 4),
        HotkeyModifier::Win => assert(sum / modifier.flag() == sum / 8),
    }
}

proof fn flags_count_the_modifiers(values: Seq<HotkeyModifier>)
    requires
        values.no_duplicates(),
    ensures
        flags_of(values) == (if values.contains(HotkeyModifier::Alt) {
            1int
        } else {
            0
        }) + (if values.contains(HotkeyModifier::Ctrl) {
            2int
        } else {
            0
        }) + (if values.contains(HotkeyModifier::Shift) {
            4int
        } else {
            0
        }) + (if values.contains(HotkeyModifier::Win) {
            8int
        } else {
            0
        }),
    decreases values.len(),
{
    if values.len() > 0 {
        let front = values.drop_last();
        let last = values.last();
        assert forall|left: int, right: int|
            0 <= left < front.len() && 0 <= right < front.len() && left != right implies front[left]
            != front[right] by {
            assert(values[left] != values[right]);
        }
        flags_count_the_modifiers(front);
        assert(!front.contains(last)) by {
            if front.contains(last) {
                let at = choose|at: int| 0 <= at < front.len() && front[at] == last;
                assert(values[at] == values[values.len() - 1]);
            }
        }
        assert forall|other: HotkeyModifier| #[trigger] values.contains(other) == (front.contains(
            other,
        ) || other == last) by {
            if values.contains(other) {
                let at = choose|at: int| 0 <= at < values.len() && values[at] == other;
                assert(at < front.len() ==> front[at] == other);
            }
            if front.contains(other) {
                let at = choose|at: int| 0 <= at < front.len() && front[at] == other;
                assert(values[at] == other);
            }
            if other == last {
                assert(values[values.len() - 1] == other);
            }
        }
        assert(values.contains(HotkeyModifier::Alt) == (front.contains(HotkeyModifier::Alt)
            || HotkeyModifier::Alt == last));
        assert(values.contains(HotkeyModifier::Ctrl) == (front.contains(HotkeyModifier::Ctrl)
            || HotkeyModifier::Ctrl == last));
        assert(values.contains(HotkeyModifier::Shift) == (front.contains(HotkeyModifier::Shift)
            || HotkeyModifier::Shift == last));
        assert(values.contains(HotkeyModifier::Win) == (front.contains(HotkeyModifier::Win)
            || HotkeyModifier::Win == last));
    }
}

/// Every modifier has both its keys among those to release, the left one before the right one, in
/// the order of the modifiers.
pub proof fn both_keys_are_released(values: Seq<HotkeyModifier>, at: int)
    requires
        0 <= at < values.len(),
    ensures
        keys_of(values).len() == 2 * values.len(),
        keys_of(values)[2 * at] == values[at].keys().0,
        keys_of(values)[2 * at + 1] == values[at].keys().1,
    decreases values.len(),
{
    let front = values.drop_last();
    if at < front.len() {
        both_keys_are_released(front, at);
        assert(front[at] == values[at]);
    } else if front.len() > 0 {
        both_keys_are_released(front, 0);
    } else {
        assert(keys_of(front).len() == 0);
    }
}

/// The names of modifiers stand one after another, each followed by a plus sign between spaces.
pub proof fn names_stand_in_order(left: Seq<HotkeyModifier>, right: Seq<HotkeyModifier>)
    ensures
        names_of(left + right) == names_of(left) + names_of(right),
        right.len() == 1 ==> names_of(right) == right[0].spec_display_name()@ + seq![' ', '+', ' '],
    decreases right.len(),
{
    reveal_strlit(" + ");
    if right.len() == 0 {
        assert(left + right =~= left);
        assert(names_of(left) + names_of(right) =~= names_of(left));
    } else {
        names_stand_in_order(left, right.drop_last());
        let both = left + right;
        assert(both.drop_last() =~= left + right.drop_last());
        assert(both.last() == right.last());
        assert(names_of(both) =~= names_of(left) + names_of(right));
        if right.len() == 1 {
            assert(right.drop_last().len() == 0);
            assert(names_of(right) =~= right[0].spec_display_name()@ + seq![' ', '+', ' ']);
        }
    }
}

/// Modifiers are held with one key of each of them. Where there are none, nothing is held.
pub proof fn all_modifiers_are_held(modifiers: HotkeyModifiers, pressed: Seq<Key>)
    ensures
        modifiers@.len() == 0 ==> !modifiers.held(pressed),
        modifiers@.len() > 0 ==> (modifiers.held(pressed) <==> forall|at: int|
            0 <= at < modifiers@.len() ==> pressed.contains((#[trigger] modifiers@[at]).keys().0)
                || pressed.contains(modifiers@[at].keys().1)),
{
    if modifiers@.len() > 0 && (forall|at: int|
        0 <= at < modifiers@.len() ==> pressed.contains((#[trigger] modifiers@[at]).keys().0)
            || pressed.contains(modifiers@[at].keys().1)) {
        assert forall|at: int| 0 <= at < modifiers@.len() implies (#[trigger] modifiers@[at]).held(
            pressed,
        ) by {
            assert(pressed.contains(modifiers@[at].keys().0) || pressed.contains(
                modifiers@[at].keys().1,
            ));
        }
    }
}

/// The extended prefix tells the right key of a modifier from the left one where both have the same
/// hardware code. Both keys of Windows have it, and no other key does.
pub proof fn extended_keys_belong_to_modifiers(key: Key, modifier: HotkeyModifier)
    ensures
        key.extended() ==> key.number() is None && key != Key::B,
        modifier.keys().0.scan() == modifier.keys().1.scan() ==> !modifier.keys().0.extended()
            && modifier.keys().1.extended(),
        modifier == HotkeyModifier::Win ==> modifier.keys().0.extended()
            && modifier.keys().1.extended(),
        modifier == HotkeyModifier::Shift ==> !modifier.keys().0.extended()
            && !modifier.keys().1.extended(),
        HotkeyModifier::Ctrl.keys().1.extended() && HotkeyModifier::Alt.keys().1.extended(),
{
}

/// The hardware codes follow the rows of the keyboard: the digits from 1 to 0, the function keys
/// from F1 to F10 and from F11 to F12, and on the number pad the three keys of a row, each row four
/// codes before the one below it.
pub proof fn scan_codes_follow_the_rows(left: Key, right: Key)
    requires
        left.number() is Some,
        right.number() is Some,
        left.is_digit() == right.is_digit(),
        left.is_numpad() == right.is_numpad(),
        left.number()->0 > 0,
        left.number()->0 < right.number()->0,
    ensures
        left.is_digit() ==> right.scan() - left.scan() == right.number()->0 - left.number()->0,
        left.is_digit() ==> Key::Digit0.scan() - right.scan() == 10 - right.number()->0,
        left.on_function_row() && (right.number()->0 <= 10 || left.number()->0 == 11)
            ==> right.scan() - left.scan() == right.number()->0 - left.number()->0,
        left.is_numpad() && (left.number()->0 - 1) / 3 == (right.number()->0 - 1) / 3
            ==> right.scan() - left.scan() == right.number()->0 - left.number()->0,
        left.is_numpad() && right.number()->0 - left.number()->0 == 3 ==> left.scan() - right.scan()
            == 4,
{
}

} // verus!
