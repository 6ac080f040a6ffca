//! Texts and message boxes of the operating system.
use vstd::prelude::*;
use vstd::string::*;

use crate::text::chars_of;

verus! {

/// The code units of a character.
pub open spec fn units_of(character: char) -> Seq<u16> {
    let code = character as u32;
    if code < 0x1_0000 {
        seq![code as u16]
    } else {
        seq![
            (0xd800 + (code - 0x1_0000) / 0x400) as u16,
            (0xdc00 + (code - 0x1_0000) % 0x400) as u16,
        ]
    }
}

/// The code units of a text.
pub open spec fn encoded(text: Seq<char>) -> Seq<u16>
    decreases text.len(),
{
    if text.len() == 0 {
        Seq::empty()
    } else {
        encoded(text.drop_last()) + units_of(text.last())
    }
}

/// The code units of a text, and a zero that ends it.
pub fn wide_null(text: &str) -> (units: Vec<u16>)
    ensures
        units@ == encoded(text@).push(0),
{
    let chars = chars_of(text);
    let mut units: Vec<u16> = Vec::new();
    let mut index: usize = 0;
    while index < chars.len()
        invariant
            index <= chars@.len(),
            chars@ == text@,
            units@ == encoded(text@.take(index as int)),
        decreases chars@.len() - index,
    {
        assert(text@.take(index + 1).drop_last() =~= text@.take(index as int));
        let code: u32 = chars[index] as u32;
        let ghost before = units@;
        if code < 0x1_0000 {
            units.push(code as u16);
        } else {
            units.push((0xd800 + (code - 0x1_0000) / 0x400) as u16);
            units.push((0xdc00 + (code - 0x1_0000) % 0x400) as u16);
        }
        assert(units@ =~= before + units_of(chars@[index as int]));
        index = index + 1;
    }
    assert(text@.take(text@.len() as int) =~= text@);
    units.push(0);
    units
}

pub open spec fn is_high_surrogate(unit: u16) -> bool {
    0xd800 <= unit < 0xdc00
}

pub open spec fn is_low_surrogate(unit: u16) -> bool {
    0xdc00 <= unit < 0xe000
}

/// The text of code units, with a replacement character for each surrogate without its other half.
pub open spec fn decoded(units: Seq<u16>) -> Seq<char>
    decreases units.len(),
{
    if units.len() == 0 {
        Seq::empty()
    } else if !is_high_surrogate(units[0]) && !is_low_surrogate(units[0]) {
        seq![units[0] as char] + decoded(units.skip(1))
    } else if is_high_surrogate(units[0]) && units.len() >= 2 && is_low_surrogate(units[1]) {
        seq![(0x1_0000 + (units[0] - 0xd800) * 0x400 + (units[1] - 0xdc00)) as char] + decoded(
            units.skip(2),
        )
    } else {
        seq!['\u{fffd}'] + decoded(units.skip(1))
    }
}

/// Decodes with `String::from_utf16_lossy` of std, which replaces invalid code units by the
/// replacement character.
#[verifier::external_body]
fn from_utf16_lossy(units: &[u16]) -> (text: String)
    ensures
        text@ == decoded(units@),
{
    String::from_utf16_lossy(units)
}

/// The code units before the first zero.
pub open spec fn before_zero(units: Seq<u16>) -> Seq<u16>
    decreases units.len(),
{
    if units.len() == 0 || units[0] == 0 {
        Seq::empty()
    } else {
        seq![units[0]] + before_zero(units.skip(1))
    }
}

proof fn before_first_zero(units: Seq<u16>, end: int)
    requires
        0 <= end <= units.len(),
        forall|at: int| 0 <= at < end ==> units[at] != 0,
        end == units.len() || units[end] == 0,
    ensures
        before_zero(units) == units.take(end),
    decreases units.len(),
{
    if end > 0 {
        let rest = units.skip(1);
        assert forall|at: int| 0 <= at < end - 1 implies rest[at] != 0 by {
            assert(rest[at] == units[at + 1]);
        }
        before_first_zero(rest, end - 1);
        assert(units.take(end) =~= seq![units[0]] + rest.take(end - 1));
    } else {
        assert(units.take(0) =~= Seq::empty());
    }
}

/// The text of code units that a zero may end.
pub fn wide_string(units: &Vec<u16>) -> (text: String)
    ensures
        text@ == decoded(before_zero(units@)),
{
    let mut kept: Vec<u16> = Vec::new();
    while kept.len() < units.len() && units[kept.len()] != 0
        invariant
            kept@.len() <= units@.len(),
            kept@ == units@.take(kept@.len() as int),
            forall|at: int| 0 <= at < kept@.len() ==> units@[at] != 0,
        decreases units@.len() - kept@.len(),
    {
        let ghost count = kept@.len() as int;
        kept.push(units[kept.len()]);
        assert(kept@ =~= units@.take(count + 1));
    }
    proof {
        before_first_zero(units@, kept@.len() as int);
    }
    from_utf16_lossy(kept.as_slice())
}

/// The letter in lower case, if it is one of the alphabet's capitals.
pub open spec fn ascii_lower(character: char) -> int {
    if 'A' <= character && character <= 'Z' {
        character as int + 32
    } else {
        character as int
    }
}

/// The texts differ at most in the case of letters of the alphabet.
pub open spec fn same_ignoring_case(left: Seq<char>, right: Seq<char>) -> bool {
    left.len() == right.len() && forall|at: int|
        0 <= at < left.len() ==> ascii_lower(#[trigger] left[at]) == ascii_lower(right[at])
}

fn lower_code(character: char) -> (code: u32)
    ensures
        code == ascii_lower(character),
{
    if 'A' <= character && character <= 'Z' {
        character as u32 + 32
    } else {
        character as u32
    }
}

pub fn eq_ignore_ascii_case(left: &str, right: &str) -> (same: bool)
    ensures
        same == same_ignoring_case(left@, right@),
{
    let left_chars = chars_of(left);
    let right_chars = chars_of(right);
    if left_chars.len() != right_chars.len() {
        return false;
    }
    let mut index: usize = 0;
    while index < left_chars.len()
        invariant
            left_chars@ == left@,
            right_chars@ == right@,
            left@.len() == right@.len(),
            index <= left@.len(),
            forall|at: int|
                0 <= at < index ==> ascii_lower(#[trigger] left@[at]) == ascii_lower(right@[at]),
        decreases left@.len() - index,
    {
        if lower_code(left_chars[index]) != lower_code(right_chars[index]) {
            assert(ascii_lower(left@[index as int]) != ascii_lower(right@[index as int]));
            return false;
        }
        index = index + 1;
    }
    true
}

/// A text compares equal to itself, and in either order.
pub proof fn ignoring_case_is_symmetric(left: Seq<char>, right: Seq<char>)
    ensures
        same_ignoring_case(left, left),
        same_ignoring_case(left, right) == same_ignoring_case(right, left),
{
    if same_ignoring_case(left, right) {
        assert forall|at: int| 0 <= at < right.len() implies ascii_lower(#[trigger] right[at])
            == ascii_lower(left[at]) by {
            assert(ascii_lower(left[at]) == ascii_lower(right[at]));
        }
    }
    if same_ignoring_case(right, left) {
        assert forall|at: int| 0 <= at < left.len() implies ascii_lower(#[trigger] left[at])
            == ascii_lower(right[at]) by {
            assert(ascii_lower(right[at]) == ascii_lower(left[at]));
        }
    }
}

proof fn encoded_from_front(text: Seq<char>)
    requires
        text.len() > 0,
    ensures
        encoded(text) == units_of(text[0]) + encoded(text.skip(1)),
    decreases text.len(),
{
    let rest = text.skip(1);
    if rest.len() == 0 {
        assert(text.drop_last() =~= Seq::empty());
        assert(encoded(text.drop_last()) =~= Seq::empty());
        assert(encoded(text) =~= units_of(text[0]));
        assert(units_of(text[0]) + encoded(rest) =~= units_of(text[0]));
    } else {
        let front = text.drop_last();
        encoded_from_front(front);
        assert(front.skip(1) =~= rest.drop_last());
        assert(encoded(text) =~= units_of(text[0]) + (encoded(rest.drop_last()) + units_of(
            text.last(),
        )));
    }
}

proof fn decodes_character(character: char, rest: Seq<u16>)
    ensures
        decoded(units_of(character) + rest) == seq![character] + decoded(rest),
{
    let units = units_of(character) + rest;
    let code = character as u32;
    if code < 0x1_0000 {
        assert(units[0] == code);
        assert(units.skip(1) =~= rest);
        assert(units[0] as char == character);
    } else {
        let offset = code - 0x1_0000;
        assert(units[0] == 0xd800 + offset / 0x400);
        assert(units[1] == 0xdc00 + offset % 0x400);
        assert(units.skip(2) =~= rest);
        assert((offset / 0x400) * 0x400 + offset % 0x400 == offset);
        assert((0x1_0000 + (units[0] - 0xd800) * 0x400 + (units[1] - 0xdc00)) as char == character);
    }
}

/// Decoding gives back what was encoded.
pub proof fn encoding_is_undone(text: Seq<char>)
    ensures
        decoded(encoded(text)) == text,
    decreases text.len(),
{
    if text.len() > 0 {
        encoded_from_front(text);
        decodes_character(text[0], encoded(text.skip(1)));
        encoding_is_undone(text.skip(1));
        assert(seq![text[0]] + text.skip(1) =~= text);
    }
}

/// A message box: texts that end with a zero, and the flags of the box.
#[derive(Debug)]
pub struct MessageBox {
    pub title: Vec<u16>,
    pub message: Vec<u16>,
    pub flags: u32,
}

/// The icon of an error.
pub const MB_ICONERROR: u32 = 0x10;

/// The icon of a notice.
pub const MB_ICONINFORMATION: u32 = 0x40;

/// The box comes to the foreground.
pub const MB_SETFOREGROUND: u32 = 0x1_0000;

pub open spec fn is_box(
    shown: MessageBox,
    title: Seq<char>,
    message: Seq<char>,
    icon: int,
) -> bool {
    &&& shown.title@ == encoded(title).push(0)
    &&& shown.message@ == encoded(message).push(0)
    &&& shown.flags == 0x1_0000 + icon
}

fn show_message(title: &str, message: &str, icon: u32) -> (shown: MessageBox)
    requires
        icon <= 0x40,
    ensures
        is_box(shown, title@, message@, icon as int),
{
    MessageBox {
        title: wide_null(title),
        message: wide_null(message),
        flags: MB_SETFOREGROUND + icon,
    }
}

pub fn show_error(title: &str, message: &str) -> (shown: MessageBox)
    ensures
        is_box(shown, title@, message@, 0x10),
{
    show_message(title, message, MB_ICONERROR)
}

pub fn show_notice(title: &str, message: &str) -> (shown: MessageBox)
    ensures
        is_box(shown, title@, message@, 0x40),
{
    show_message(title, message, MB_ICONINFORMATION)
}

/// The name of the mark by which one instance in a login session sees another.
pub const INSTANCE_MARK: &'static str = "Local\\HD2PresetHelper";

/// The only instance of the program, as long as the handle of its mark is open.
#[derive(Debug)]
pub struct SingleInstance {
    pub handle: i64,
}

impl SingleInstance {
    /// The handle of the mark was opened; another instance may have made the mark before.
    pub fn try_acquire(handle: i64, already_running: bool) -> (instance: Option<SingleInstance>)
        ensures
            match instance {
                Some(only) => !already_running && only.handle == handle,
                None => already_running,
            },
    {
        if already_running {
            None
        } else {
            Some(SingleInstance { handle })
        }
    }
}

/// The units before the first zero: none of them is zero, and what follows is one, or nothing.
pub proof fn texts_end_at_a_zero(units: Seq<u16>)
    ensures
        before_zero(units).len() <= units.len(),
        forall|at: int|
            0 <= at < before_zero(units).len() ==> #[trigger] before_zero(units)[at] == units[at]
                && units[at] != 0,
        before_zero(units).len() < units.len() ==> units[before_zero(units).len() as int] == 0,
    decreases units.len(),
{
    if units.len() > 0 && units[0] != 0 {
        let rest = units.skip(1);
        texts_end_at_a_zero(rest);
        let front = before_zero(units);
        assert(front == seq![units[0]] + before_zero(rest));
        assert forall|at: int| 0 <= at < front.len() implies #[trigger] front[at] == units[at]
            && units[at] != 0 by {
            if at > 0 {
                assert(front[at] == before_zero(rest)[at - 1]);
                assert(rest[at - 1] == units[at]);
            }
        }
        if front.len() < units.len() {
            assert(rest[before_zero(rest).len() as int] == units[front.len() as int]);
        }
    } else {
        assert(before_zero(units) == Seq::<u16>::empty());
    }
}

/// A text reaches the system and comes back as it was, whatever stands behind the zero that ends it.
pub proof fn ended_texts_come_back(text: Seq<char>, rest: Seq<u16>)
    requires
        forall|at: int| 0 <= at < text.len() ==> #[trigger] text[at] != '\0',
    ensures
        decoded(before_zero(encoded(text).push(0) + rest)) == text,
{
    let units = encoded(text);
    units_are_not_zero(text);
    let all = units.push(0) + rest;
    assert forall|at: int| 0 <= at < units.len() implies all[at] != 0 by {
        assert(all[at] == units[at]);
    }
    before_first_zero(all, units.len() as int);
    assert(all.take(units.len() as int) =~= units);
    encoding_is_undone(text);
}

proof fn character_units_are_not_zero(character: char)
    requires
        character != '\0',
    ensures
        forall|at: int|
            0 <= at < units_of(character).len() ==> #[trigger] units_of(character)[at] != 0,
{
    let code = character as u32;
    assert(code != 0);
    assert(code <= 0x10_ffff);
}

proof fn units_are_not_zero(text: Seq<char>)
    requires
        forall|at: int| 0 <= at < text.len() ==> #[trigger] text[at] != '\0',
    ensures
        forall|at: int| 0 <= at < encoded(text).len() ==> #[trigger] encoded(text)[at] != 0,
    decreases text.len(),
{
    if text.len() > 0 {
        let front = text.drop_last();
        assert forall|at: int| 0 <= at < front.len() implies #[trigger] front[at] != '\0' by {
            assert(front[at] == text[at]);
        }
        units_are_not_zero(front);
        let last = text.last();
        assert(text[text.len() - 1] != '\0');
        character_units_are_not_zero(last);
        let units = encoded(text);
        let end = units_of(last);
        assert(units == encoded(front) + end);
        assert forall|at: int| 0 <= at < units.len() implies #[trigger] units[at] != 0 by {
            if at < encoded(front).len() {
                assert(units[at] == encoded(front)[at]);
            } else {
                assert(units[at] == end[at - encoded(front).len()]);
            }
        }
    }
}

/// Two letters of the alphabet compare equal where they are the same or one is the capital of the
/// other; every other character compares equal to itself only.
pub proof fn capitals_equal_their_letters(left: char, right: char)
    ensures
        same_ignoring_case(seq![left], seq![right]) <==> {
            ||| left == right
            ||| 'A' <= left && left <= 'Z' && right as int - left as int == 32
            ||| 'A' <= right && right <= 'Z' && left as int - right as int == 32
        },
{
    let (one, other) = (seq![left], seq![right]);
    assert(one[0] == left && other[0] == right);
    if same_ignoring_case(one, other) {
        assert(ascii_lower(one[0]) == ascii_lower(other[0]));
    }
    assert(left as u32 == right as u32 ==> left == right);
}

/// Texts are compared character by character.
pub proof fn texts_are_compared_in_parts(
    left: Seq<char>,
    right: Seq<char>,
    left_end: Seq<char>,
    right_end: Seq<char>,
)
    requires
        left.len() == right.len(),
    ensures
        same_ignoring_case(left + left_end, right + right_end) <==> same_ignoring_case(left, right)
            && same_ignoring_case(left_end, right_end),
{
    let (one, other) = (left + left_end, right + right_end);
    if same_ignoring_case(one, other) {
        assert forall|at: int| 0 <= at < left.len() implies ascii_lower(#[trigger] left[at])
            == ascii_lower(right[at]) by {
            assert(ascii_lower(one[at]) == ascii_lower(other[at]));
        }
        assert forall|at: int| 0 <= at < left_end.len() implies ascii_lower(#[trigger] left_end[at])
            == ascii_lower(right_end[at]) by {
            assert(ascii_lower(one[left.len() + at]) == ascii_lower(other[left.len() + at]));
        }
    }
}

/// A message box shows its title and its message, each decoded to what it was given, and comes to
/// the foreground with its icon.
pub proof fn boxes_show_their_texts(
    shown: MessageBox,
    title: Seq<char>,
    message: Seq<char>,
    icon: int,
)
    requires
        is_box(shown, title, message, icon),
        0 <= icon < 0x1_0000,
    ensures
        shown.title@.last() == 0 && decoded(shown.title@.drop_last()) == title,
        shown.message@.last() == 0 && decoded(shown.message@.drop_last()) == message,
        shown.flags / 0x1_0000 == 1 && shown.flags % 0x1_0000 == icon,
{
    encoding_is_undone(title);
    encoding_is_undone(message);
    assert(shown.title@.drop_last() =~= encoded(title));
    assert(shown.message@.drop_last() =~= encoded(message));
}

} // verus!
