//! Building message text.
use vstd::prelude::*;
use vstd::string::*;

verus! {

/// The decimal digit of `d`.
pub open spec fn digit_char(d: nat) -> char {
    (('0' as u32) + d) as char
}

/// The decimal numeral of `n`, without leading zeros.
pub open spec fn decimal(n: nat) -> Seq<char>
    decreases n,
{
    if n < 10 {
        seq![digit_char(n)]
    } else {
        decimal(n / 10).push(digit_char(n % 10))
    }
}

fn digit_text(d: u64) -> (text: &'static str)
    requires
        d < 10,
    ensures
        text@ == seq![digit_char(d as nat)],
{
    proof {
        reveal_strlit("0");
        reveal_strlit("1");
        reveal_strlit("2");
        reveal_strlit("3");
        reveal_strlit("4");
        reveal_strlit("5");
        reveal_strlit("6");
        reveal_strlit("7");
        reveal_strlit("8");
        reveal_strlit("9");
    }
    if d == 0 {
        "0"
    } else if d == 1 {
        "1"
    } else if d == 2 {
        "2"
    } else if d == 3 {
        "3"
    } else if d == 4 {
        "4"
    } else if d == 5 {
        "5"
    } else if d == 6 {
        "6"
    } else if d == 7 {
        "7"
    } else if d == 8 {
        "8"
    } else {
        "9"
    }
}

/// Appends the decimal numeral of `n`.
pub fn push_decimal(text: &mut String, n: u64)
    ensures
        final(text)@ == old(text)@ + decimal(n as nat),
    decreases n,
{
    if n >= 10 {
        push_decimal(text, n / 10);
    }
    text.append(digit_text(n % 10));
    assert(text@ =~= old(text)@ + decimal(n as nat));
}

/// A string with the given text.
pub fn text_of(part: &str) -> (text: String)
    ensures
        text@ == part@,
{
    String::from_str(part)
}

/// The characters of a text.
pub fn chars_of(text: &str) -> (chars: Vec<char>)
    ensures
        chars@ == text@,
{
    let mut chars: Vec<char> = Vec::new();
    for character in walk: text.chars()
        invariant
            walk.seq() == text@,
            chars@ == text@.take(walk.index() as int),
    {
        assert(text@.take(walk.index() + 1) =~= text@.take(walk.index() as int).push(character));
        chars.push(character);
    }
    assert(text@.take(text@.len() as int) =~= text@);
    chars
}

/// One text comes before another in the order of their characters.
pub open spec fn comes_before(left: Seq<char>, right: Seq<char>) -> bool
    decreases left.len(),
{
    if left.len() == 0 || right.len() == 0 {
        left.len() < right.len()
    } else if left[0] == right[0] {
        comes_before(left.skip(1), right.skip(1))
    } else {
        (left[0] as u32) < (right[0] as u32)
    }
}

/// Whether one text comes before another.
pub fn is_before(left: &str, right: &str) -> (before: bool)
    ensures
        before == comes_before(left@, right@),
{
    let first = chars_of(left);
    let second = chars_of(right);
    let mut index: usize = 0;
    assert(left@.skip(0) =~= left@ && right@.skip(0) =~= right@);
    while index < first.len() && index < second.len()
        invariant
            first@ == left@,
            second@ == right@,
            index <= first@.len(),
            index <= second@.len(),
            comes_before(left@, right@) == comes_before(
                left@.skip(index as int),
                right@.skip(index as int),
            ),
        decreases first@.len() - index,
    {
        assert(left@.skip(index as int).skip(1) =~= left@.skip(index + 1));
        assert(right@.skip(index as int).skip(1) =~= right@.skip(index + 1));
        if first[index] != second[index] {
            return (first[index] as u32) < (second[index] as u32);
        }
        index = index + 1;
    }
    first.len() < second.len()
}

/// No text comes before itself, and a chain of texts keeps its order.
pub proof fn order_is_strict(first: Seq<char>, second: Seq<char>, third: Seq<char>)
    ensures
        !comes_before(first, first),
        comes_before(first, second) && comes_before(second, third) ==> comes_before(first, third),
    decreases first.len(),
{
    if first.len() > 0 {
        order_is_strict(first.skip(1), second.skip(1), third.skip(1));
    }
}

/// Of two different texts, one comes before the other.
pub proof fn order_is_total(left: Seq<char>, right: Seq<char>)
    ensures
        left == right || comes_before(left, right) || comes_before(right, left),
    decreases left.len(),
{
    if left.len() > 0 && right.len() > 0 && left[0] == right[0] {
        order_is_total(left.skip(1), right.skip(1));
        if left.skip(1) == right.skip(1) {
            assert(left =~= seq![left[0]] + left.skip(1));
            assert(right =~= seq![right[0]] + right.skip(1));
        }
    } else if left.len() == 0 && right.len() == 0 {
        assert(left =~= right);
    } else if left.len() > 0 && right.len() > 0 {
        codes_tell_apart(left[0], right[0]);
    }
}

proof fn codes_tell_apart(left: char, right: char)
    ensures
        left as u32 == right as u32 ==> left == right,
{
}

/// White space as the Unicode standard lists it.
pub open spec fn is_space(character: char) -> bool {
    let code = character as u32;
    ||| 0x9 <= code <= 0xd
    ||| code == 0x20
    ||| code == 0x85
    ||| code == 0xa0
    ||| code == 0x1680
    ||| 0x2000 <= code <= 0x200a
    ||| code == 0x2028
    ||| code == 0x2029
    ||| code == 0x202f
    ||| code == 0x205f
    ||| code == 0x3000
}

fn is_white_space(character: char) -> (space: bool)
    ensures
        space == is_space(character),
{
    let code: u32 = character as u32;
    (0x9 <= code && code <= 0xd) || code == 0x20 || code == 0x85 || code == 0xa0 || code == 0x1680
        || (0x2000 <= code && code <= 0x200a) || code == 0x2028 || code == 0x2029 || code == 0x202f
        || code == 0x205f || code == 0x3000
}

/// Control characters as the Unicode standard lists them.
pub open spec fn is_control_char(character: char) -> bool {
    let code = character as u32;
    code < 0x20 || 0x7f <= code < 0xa0
}

pub fn has_control(text: &str) -> (found: bool)
    ensures
        found == exists|at: int|
            0 <= at < text@.len() && is_control_char(#[trigger] text@[at]),
{
    let chars = chars_of(text);
    let mut index: usize = 0;
    while index < chars.len()
        invariant
            index <= chars@.len(),
            chars@ == text@,
            forall|at: int| 0 <= at < index ==> !is_control_char(#[trigger] text@[at]),
        decreases chars@.len() - index,
    {
        let code: u32 = chars[index] as u32;
        if code < 0x20 || (0x7f <= code && code < 0xa0) {
            assert(is_control_char(text@[index as int]));
            return true;
        }
        index = index + 1;
    }
    false
}

/// The text without the white space at its end.
pub open spec fn trimmed_end(text: Seq<char>) -> Seq<char>
    decreases text.len(),
{
    if text.len() > 0 && is_space(text.last()) {
        trimmed_end(text.drop_last())
    } else {
        text
    }
}

/// The text without the white space at its start.
pub open spec fn trimmed_start(text: Seq<char>) -> Seq<char>
    decreases text.len(),
{
    if text.len() > 0 && is_space(text.first()) {
        trimmed_start(text.drop_first())
    } else {
        text
    }
}

/// The text without the white space around it.
pub open spec fn trimmed(text: Seq<char>) -> Seq<char> {
    trimmed_end(trimmed_start(text))
}

fn trim_chars<'a>(text: &'a str, chars: &Vec<char>, from: usize, to: usize) -> (part: &'a str)
    requires
        chars@ == text@,
        from <= to <= chars@.len(),
    ensures
        part@ == trimmed(text@.subrange(from as int, to as int)),
{
    let ghost whole = text@.subrange(from as int, to as int);
    let mut start: usize = from;
    while start < to && is_white_space(chars[start])
        invariant
            from <= start <= to <= chars@.len(),
            chars@ == text@,
            trimmed_start(whole) == trimmed_start(text@.subrange(start as int, to as int)),
        decreases to - start,
    {
        assert(text@.subrange(start as int, to as int).drop_first() =~= text@.subrange(
            start + 1,
            to as int,
        ));
        start = start + 1;
    }
    let ghost middle = text@.subrange(start as int, to as int);
    assert(trimmed_start(whole) == middle);
    let mut end: usize = to;
    while end > start && is_white_space(chars[end - 1])
        invariant
            start <= end <= to <= chars@.len(),
            chars@ == text@,
            trimmed_end(middle) == trimmed_end(text@.subrange(start as int, end as int)),
        decreases end,
    {
        assert(text@.subrange(start as int, end as int).drop_last() =~= text@.subrange(
            start as int,
            end - 1,
        ));
        end = end - 1;
    }
    assert(trimmed_end(middle) == text@.subrange(start as int, end as int));
    text.substring_char(start, end)
}

/// The text without the white space around it.
pub fn trim(text: &str) -> (part: &str)
    ensures
        part@ == trimmed(text@),
{
    let chars = chars_of(text);
    assert(text@.subrange(0, text@.len() as int) =~= text@);
    trim_chars(text, &chars, 0, chars.len())
}

/// The text up to its first line feed.
pub open spec fn first_line(text: Seq<char>) -> Seq<char>
    decreases text.len(),
{
    if text.len() == 0 || text.first() == '\n' {
        Seq::empty()
    } else {
        seq![text.first()] + first_line(text.drop_first())
    }
}

proof fn first_line_is_prefix(text: Seq<char>, end: int)
    requires
        0 <= end <= text.len(),
        forall|at: int| 0 <= at < end ==> text[at] != '\n',
        end < text.len() ==> text[end] == '\n',
    ensures
        first_line(text) == text.take(end),
    decreases text.len(),
{
    if end > 0 {
        first_line_is_prefix(text.drop_first(), end - 1);
        assert(seq![text.first()] + text.drop_first().take(end - 1) =~= text.take(end));
    } else {
        assert(text.take(0) =~= Seq::empty());
    }
}

/// The first line of an error message, without the white space around it.
pub fn first_error_line(error: &str) -> (line: &str)
    ensures
        line@ == trimmed(first_line(error@)),
{
    let chars = chars_of(error);
    let mut end: usize = 0;
    while end < chars.len() && chars[end] != '\n'
        invariant
            end <= chars@.len(),
            chars@ == error@,
            forall|at: int| 0 <= at < end ==> error@[at] != '\n',
        decreases chars@.len() - end,
    {
        end = end + 1;
    }
    proof {
        first_line_is_prefix(error@, end as int);
        assert(error@.take(end as int) =~= error@.subrange(0, end as int));
    }
    trim_chars(error, &chars, 0, end)
}

/// Longest text that the overlay shows of an error.
pub const MAX_ERROR_CHARS: usize = 70;

/// The first line of an error, cut to seventy characters with an ellipsis.
pub open spec fn compacted(error: Seq<char>) -> Seq<char> {
    let line = trimmed(first_line(error));
    if line.len() <= 70 {
        line
    } else {
        line.take(67) + seq!['.', '.', '.']
    }
}

/// The first line of an error, cut to seventy characters with an ellipsis.
pub fn compact_error(error: &str) -> (text: String)
    ensures
        text@ == compacted(error@),
{
    let line = first_error_line(error);
    if line.unicode_len() <= MAX_ERROR_CHARS {
        return text_of(line);
    }
    let mut value = text_of(line.substring_char(0, MAX_ERROR_CHARS - 3));
    proof {
        reveal_strlit("...");
        assert(line@.subrange(0, 67) =~= line@.take(67));
        assert("..."@ =~= seq!['.', '.', '.']);
    }
    value.append("...");
    value
}

/// A compacted error is never longer than seventy characters.
pub proof fn compacted_is_short(error: Seq<char>)
    ensures
        compacted(error).len() <= 70,
{
}

/// The number that decimal digits name.
pub open spec fn number_of(digits: Seq<char>) -> int
    decreases digits.len(),
{
    if digits.len() == 0 {
        0
    } else {
        10 * number_of(digits.drop_last()) + (digits.last() as int - 0x30)
    }
}

/// A numeral names its number in digits, without a leading zero.
pub proof fn numerals_name_their_number(n: nat)
    ensures
        number_of(decimal(n)) == n,
        decimal(n).len() > 0,
        forall|at: int|
            0 <= at < decimal(n).len() ==> '0' <= #[trigger] decimal(n)[at] && decimal(n)[at] <= '9',
        n > 0 ==> decimal(n)[0] != '0',
        n == 0 ==> decimal(n).len() == 1,
    decreases n,
{
    digits_are_in_order(n % 10);
    if n < 10 {
        digits_are_in_order(n);
        let digits = decimal(n);
        assert(digits == seq![digit_char(n)]);
        assert(digits.drop_last() =~= Seq::<char>::empty());
        assert(number_of(digits.drop_last()) == 0);
    } else {
        numerals_name_their_number(n / 10);
        let front = decimal(n / 10);
        let digits = decimal(n);
        assert(digits == front.push(digit_char(n % 10)));
        assert(digits.drop_last() =~= front);
        assert(digits[0] == front[0]);
        assert forall|at: int| 0 <= at < digits.len() implies '0' <= #[trigger] digits[at]
            && digits[at] <= '9' by {
            if at < front.len() {
                assert(digits[at] == front[at]);
            }
        }
    }
}

proof fn digits_are_in_order(d: nat)
    requires
        d < 10,
    ensures
        digit_char(d) as int == 0x30 + d,
        '0' <= digit_char(d) && digit_char(d) <= '9',
        d > 0 ==> digit_char(d) != '0',
{
    if d == 0 {
        assert(digit_char(0) == '0');
    } else if d == 1 {
        assert(digit_char(1) == '1');
    } else if d == 2 {
        assert(digit_char(2) == '2');
    } else if d == 3 {
        assert(digit_char(3) == '3');
    } else if d == 4 {
        assert(digit_char(4) == '4');
    } else if d == 5 {
        assert(digit_char(5) == '5');
    } else if d == 6 {
        assert(digit_char(6) == '6');
    } else if d == 7 {
        assert(digit_char(7) == '7');
    } else if d == 8 {
        assert(digit_char(8) == '8');
    } else {
        assert(digit_char(9) == '9');
    }
}

/// The control characters are the two blocks of thirty-two that the standards set apart, and delete.
pub proof fn control_characters_come_in_blocks(character: char)
    ensures
        is_control_char(character) <==> character as u32 / 32 == 0 || character as u32 / 32 == 4
            || character as u32 == 127,
{
}

/// Trimming takes white space off both ends and nothing else: what is left neither starts nor ends
/// with it, and what was taken is nothing but white space.
pub proof fn trimming_takes_white_space_only(text: Seq<char>)
    ensures
        exists|from: int, to: int|
            #![trigger text.subrange(from, to)]
            {
                &&& 0 <= from <= to <= text.len()
                &&& trimmed(text) == text.subrange(from, to)
                &&& forall|at: int| 0 <= at < from ==> is_space(#[trigger] text[at])
                &&& forall|at: int| to <= at < text.len() ==> is_space(#[trigger] text[at])
            },
        trimmed(text).len() > 0 ==> !is_space(trimmed(text).first()) && !is_space(
            trimmed(text).last(),
        ),
{
    let from = trimming_the_start(text);
    let rest = text.subrange(from, text.len() as int);
    let length = trimming_the_end(rest);
    assert(trimmed(text) =~= text.subrange(from, from + length));
    assert forall|at: int| from + length <= at < text.len() implies is_space(
        #[trigger] text[at],
    ) by {
        assert(rest[at - from] == text[at]);
    }
    if length > 0 {
        assert(trimmed(text).first() == rest.first());
    }
}

proof fn trimming_the_start(text: Seq<char>) -> (from: int)
    ensures
        0 <= from <= text.len(),
        trimmed_start(text) == text.subrange(from, text.len() as int),
        forall|at: int| 0 <= at < from ==> is_space(#[trigger] text[at]),
        from < text.len() ==> !is_space(text[from]),
    decreases text.len(),
{
    if text.len() > 0 && is_space(text.first()) {
        let rest = text.drop_first();
        let from = trimming_the_start(rest);
        assert(text.subrange(from + 1, text.len() as int) =~= rest.subrange(
            from,
            rest.len() as int,
        ));
        assert forall|at: int| 0 <= at < from + 1 implies is_space(#[trigger] text[at]) by {
            if at > 0 {
                assert(rest[at - 1] == text[at]);
            }
        }
        if from < rest.len() {
            assert(rest[from] == text[from + 1]);
        }
        from + 1
    } else {
        assert(text.subrange(0, text.len() as int) =~= text);
        0
    }
}

proof fn trimming_the_end(text: Seq<char>) -> (to: int)
    ensures
        0 <= to <= text.len(),
        trimmed_end(text) == text.take(to),
        forall|at: int| to <= at < text.len() ==> is_space(#[trigger] text[at]),
        to > 0 ==> !is_space(text[to - 1]),
    decreases text.len(),
{
    if text.len() > 0 && is_space(text.last()) {
        let front = text.drop_last();
        let to = trimming_the_end(front);
        assert(text.take(to) =~= front.take(to));
        assert forall|at: int| to <= at < text.len() implies is_space(#[trigger] text[at]) by {
            if at < front.len() {
                assert(front[at] == text[at]);
            }
        }
        if to > 0 {
            assert(front[to - 1] == text[to - 1]);
        }
        to
    } else {
        assert(text.take(text.len() as int) =~= text);
        text.len() as int
    }
}

/// The first line ends at the first line feed, or with the text.
pub proof fn lines_end_at_a_line_feed(text: Seq<char>)
    ensures
        first_line(text).len() <= text.len(),
        forall|at: int|
            0 <= at < first_line(text).len() ==> #[trigger] first_line(text)[at] == text[at]
                && text[at] != '\n',
        first_line(text).len() < text.len() ==> text[first_line(text).len() as int] == '\n',
    decreases text.len(),
{
    if text.len() > 0 && text.first() != '\n' {
        let rest = text.drop_first();
        lines_end_at_a_line_feed(rest);
        let line = first_line(text);
        assert(line == seq![text.first()] + first_line(rest));
        assert forall|at: int| 0 <= at < line.len() implies #[trigger] line[at] == text[at]
            && text[at] != '\n' by {
            if at > 0 {
                assert(line[at] == first_line(rest)[at - 1]);
                assert(rest[at - 1] == text[at]);
            }
        }
    }
}

/// A short line is shown whole. Of a longer one the start is shown, and three dots after it, seventy
/// characters in all.
pub proof fn long_lines_are_cut(error: Seq<char>)
    ensures
        ({
            let line = trimmed(first_line(error));
            let shown = compacted(error);
            &&& line.len() <= 70 ==> shown == line
            &&& line.len() > 70 ==> shown.len() == 70 && forall|at: int|
                0 <= at < 70 ==> #[trigger] shown[at] == if at < 67 {
                    line[at]
                } else {
                    '.'
                }
        }),
{
}

/// The order of texts goes by the first character in which they differ; a text comes after its own
/// start.
pub proof fn the_first_difference_decides(start: Seq<char>, left: Seq<char>, right: Seq<char>)
    ensures
        comes_before(start + left, start + right) == comes_before(left, right),
        comes_before(start, start + left) == (left.len() > 0),
        left.len() > 0 && right.len() > 0 && left[0] != right[0] ==> (comes_before(left, right)
            <==> (left[0] as u32) < (right[0] as u32)),
    decreases start.len(),
{
    if start.len() == 0 {
        assert(start + left =~= left && start + right =~= right);
    } else {
        let rest = start.skip(1);
        the_first_difference_decides(rest, left, right);
        assert((start + left).skip(1) =~= rest + left);
        assert((start + right).skip(1) =~= rest + right);
        assert((start + left)[0] == start[0] && (start + right)[0] == start[0]);
    }
}

/// Of the characters of a byte, the white space is the blank, the five controls from tab to carriage
/// return, the next line and the space that does not break; of the others, the quads and spaces of
/// the punctuation, the separators of lines and paragraphs, and three that stand alone.
pub proof fn white_space_is_known(character: char)
    ensures
        ({
            let code = character as int;
            let alone = seq![0x20int, 0x85, 0xa0, 0x1680, 0x2028, 0x2029, 0x202f, 0x205f, 0x3000];
            is_space(character) <==> alone.contains(code) || -2 <= code - 0xb <= 2 || -5 <= code
                - 0x2005 <= 5
        }),
{
    let code = character as int;
    let alone = seq![0x20int, 0x85, 0xa0, 0x1680, 0x2028, 0x2029, 0x202f, 0x205f, 0x3000];
    assert(alone[0] == 0x20 && alone[1] == 0x85 && alone[2] == 0xa0 && alone[3] == 0x1680);
    assert(alone[4] == 0x2028 && alone[5] == 0x2029 && alone[6] == 0x202f && alone[7] == 0x205f);
    assert(alone[8] == 0x3000);
}

} // verus!
