//! Captured frames as array files.
use vstd::prelude::*;
use vstd::string::*;

use crate::text::{decimal, number_of, numerals_name_their_number, push_decimal, text_of};
use crate::vision::ImageRect;

verus! {


/// The description of an array of half precision numbers, four for each pixel.
pub open spec fn description(width: u32, height: u32) -> Seq<char> {
    "{'descr': '<f2', 'fortran_order': False, 'shape': ("@ + decimal(height as nat) + ", "@
        + decimal(width as nat) + ", 4), }"@
}

/// Spaces that bring a description, with what stands before it and the line end, to a multiple of
/// sixty-four bytes.
pub open spec fn padding(length: int) -> int {
    (64 - (10 + length + 1) % 64) % 64
}

/// So many spaces.
pub open spec fn spaces(count: int) -> Seq<char> {
    Seq::new(
        if count < 0 {
            0
        } else {
            count as nat
        },
        |index: int| ' ',
    )
}

/// The header of an array file: the description, spaces and a line end.
pub open spec fn header(width: u32, height: u32) -> Seq<char> {
    description(width, height) + spaces(padding(description(width, height).len() as int)) + "\n"@
}

proof fn decimal_is_short(number: nat, digits: nat)
    requires
        0 < digits,
        number < vstd::arithmetic::power::pow(10, digits),
    ensures
        0 < decimal(number).len() <= digits,
    decreases digits,
{
    if number >= 10 {
        if digits == 1 {
            vstd::arithmetic::power::lemma_pow1(10);
        } else {
            vstd::arithmetic::power::lemma_pow_adds(10, 1, (digits - 1) as nat);
            vstd::arithmetic::power::lemma_pow1(10);
            decimal_is_short(number / 10, (digits - 1) as nat);
        }
    }
}

proof fn description_is_short(width: u32, height: u32)
    ensures
        0 < description(width, height).len() <= 100,
{
    reveal_strlit("{'descr': '<f2', 'fortran_order': False, 'shape': (");
    reveal_strlit(", ");
    reveal_strlit(", 4), }");
    assert(vstd::arithmetic::power::pow(10, 10) == 10000000000) by {
        reveal_with_fuel(vstd::arithmetic::power::pow, 11);
    }
    decimal_is_short(width as nat, 10);
    decimal_is_short(height as nat, 10);
}

/// The header fills the file up to a multiple of sixty-four bytes, and its length fits two bytes.
pub proof fn header_is_aligned(width: u32, height: u32)
    ensures
        (10 + header(width, height).len()) % 64 == 0,
        header(width, height).len() <= 0xffff,
{
    reveal_strlit("\n");
    description_is_short(width, height);
}

/// The header of an array file of this size.
pub fn npy_header(width: u32, height: u32) -> (text: String)
    ensures
        text@ == header(width, height),
{
    let mut text = text_of("{'descr': '<f2', 'fortran_order': False, 'shape': (");
    push_decimal(&mut text, height as u64);
    text.append(", ");
    push_decimal(&mut text, width as u64);
    text.append(", 4), }");
    proof {
        description_is_short(width, height);
        reveal_strlit(" ");
    }
    let length: usize = text.as_str().unicode_len();
    let count: usize = (64 - (10 + length + 1) % 64) % 64;
    let ghost start = text@;
    let mut added: usize = 0;
    assert(start + spaces(0) =~= start);
    while added < count
        invariant
            added <= count,
            " "@ == seq![' '],
            text@ == start + spaces(added as int),
        decreases count - added,
    {
        let ghost before = text@;
        text.append(" ");
        assert(text@ =~= start + spaces(added + 1));
        added = added + 1;
    }
    text.append("\n");
    text
}

/// The name of an array file of a captured region.
pub fn npy_file_name(timestamp: u64, region: ImageRect, width: u32, height: u32, tag: &str) -> (
name: String)
    ensures
        name@ == "wgc-"@ + decimal(timestamp as nat) + "-x"@ + decimal(region.x as nat) + "-y"@
            + decimal(region.y as nat) + "-"@ + decimal(width as nat) + "x"@ + decimal(
            height as nat,
        ) + "-"@ + tag@ + ".npy"@,
{
    let mut name = text_of("wgc-");
    push_decimal(&mut name, timestamp);
    name.append("-x");
    push_decimal(&mut name, region.x as u64);
    name.append("-y");
    push_decimal(&mut name, region.y as u64);
    name.append("-");
    push_decimal(&mut name, width as u64);
    name.append("x");
    push_decimal(&mut name, height as u64);
    name.append("-");
    name.append(tag);
    name.append(".npy");
    name
}

/// The data has eight bytes for each pixel.
pub fn is_packed(length: usize, width: u32, height: u32) -> (packed: bool)
    ensures
        packed == (length == 8 * (width as int * height as int)),
{
    assert(0 <= width as int * height as int <= 0xffff_ffff * 0xffff_ffff) by (nonlinear_arith)
        requires
            0 <= width <= 0xffff_ffff,
            0 <= height <= 0xffff_ffff,
    ;
    length as u128 == 8 * (width as u128 * height as u128)
}

/// No more spaces are put in than are needed.
pub proof fn padding_is_short(length: int)
    requires
        0 <= length,
    ensures
        0 <= padding(length) < 64,
        (11 + length + padding(length)) % 64 == 0,
{
}

/// The description names the rows before the columns: the height stands first and the width behind
/// it.
pub proof fn rows_are_named_before_columns(width: u32, height: u32)
    ensures
        ({
            let text = description(width, height);
            let first = decimal(height as nat);
            let second = decimal(width as nat);
            let start = text.len() - 7 - second.len() - 2 - first.len();
            &&& number_of(text.subrange(start, start + first.len())) == height
            &&& number_of(
                text.subrange(start + first.len() + 2, start + first.len() + 2 + second.len()),
            ) == width
            &&& text[start - 1] == '('
            &&& text[start + first.len()] == ','
        }),
{
    reveal_strlit("{'descr': '<f2', 'fortran_order': False, 'shape': (");
    reveal_strlit(", ");
    reveal_strlit(", 4), }");
    let text = description(width, height);
    let first = decimal(height as nat);
    let second = decimal(width as nat);
    let head = "{'descr': '<f2', 'fortran_order': False, 'shape': ("@;
    let start = text.len() - 7 - second.len() - 2 - first.len();
    assert(start == head.len());
    assert(head[head.len() - 1] == '(');
    numerals_name_their_number(height as nat);
    numerals_name_their_number(width as nat);
    assert(text.subrange(start, start + first.len()) =~= first);
    assert(text.subrange(start + first.len() + 2, start + first.len() + 2 + second.len())
        =~= second);
}

} // verus!
