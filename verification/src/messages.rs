//! What the program tells the user in message boxes.
use vstd::prelude::*;
use vstd::string::*;

use crate::text::{chars_of, text_of};

verus! {

/// The text with every line end written as carriage return and line feed.
pub open spec fn with_line_ends(text: Seq<char>) -> Seq<char>
    decreases text.len(),
{
    if text.len() == 0 {
        text
    } else {
        let before = with_line_ends(text.drop_last());
        if text.last() == '\n' && !(text.len() >= 2 && text[text.len() - 2] == '\r') {
            before.push('\r').push('\n')
        } else {
            before.push(text.last())
        }
    }
}

/// Writing the line ends again changes nothing.
pub proof fn line_ends_are_written_once(text: Seq<char>)
    ensures
        with_line_ends(with_line_ends(text)) == with_line_ends(text),
        text.len() > 0 ==> with_line_ends(text).len() > 0 && with_line_ends(text).last()
            == text.last(),
    decreases text.len(),
{
    if text.len() > 0 {
        let front = text.drop_last();
        let before = with_line_ends(front);
        line_ends_are_written_once(front);
        let after = with_line_ends(text);
        if text.last() == '\n' && !(text.len() >= 2 && text[text.len() - 2] == '\r') {
            let middle = before.push('\r');
            assert(after.drop_last() =~= middle);
            assert(middle.drop_last() =~= before);
            assert(with_line_ends(middle) == before.push('\r'));
            assert(after[after.len() - 2] == '\r');
        } else {
            assert(after.drop_last() =~= before);
            if text.last() == '\n' {
                assert(front.last() == '\r');
                assert(after[after.len() - 2] == before.last());
            }
        }
    }
}

/// Adds one character of another text.
fn append_char(text: &mut String, chars: &Vec<char>, part: &str, at: usize)
    requires
        at < chars@.len(),
        chars@ == part@,
    ensures
        final(text)@ == old(text)@.push(part@[at as int]),
{
    assert(chars@.len() == chars.len());
    let piece = part.substring_char(at, at + 1);
    assert(piece@ =~= seq![part@[at as int]]);
    let ghost before = text@;
    text.append(piece);
    assert(text@ =~= before.push(part@[at as int]));
}

fn write_line_ends(text: &str) -> (written: String)
    ensures
        written@ == with_line_ends(text@),
{
    proof {
        reveal_strlit("\r\n");
    }
    let chars = chars_of(text);
    let mut written = text_of("");
    proof {
        reveal_strlit("");
        assert(written@ =~= Seq::empty());
    }
    let mut index: usize = 0;
    while index < chars.len()
        invariant
            index <= chars@.len(),
            chars@ == text@,
            "\r\n"@ == seq!['\r', '\n'],
            written@ == with_line_ends(text@.take(index as int)),
        decreases chars@.len() - index,
    {
        assert(text@.take(index + 1).drop_last() =~= text@.take(index as int));
        let ghost before = written@;
        if chars[index] == '\n' && !(index >= 1 && chars[index - 1] == '\r') {
            written.append("\r\n");
            assert(written@ =~= before.push('\r').push('\n'));
        } else {
            append_char(&mut written, &chars, text, index);
        }
        index = index + 1;
    }
    assert(text@.take(text@.len() as int) =~= text@);
    written
}

/// The message for an error that ends the program.
pub open spec fn fatal_text(error: Seq<char>, log: Option<Seq<char>>) -> Seq<char> {
    "HD2 Preset Helper could not start or encountered a fatal error.\r\n\r\n"@ + with_line_ends(
        error,
    ) + match log {
        Some(path) => "\r\n\r\nSee "@ + path + " for more information if the log was created."@,
        None => Seq::empty(),
    }
}

/// The message for an error that ends the program, with the path of the log where that is known.
pub fn fatal_error_message(error: &str, log: Option<&str>) -> (message: String)
    ensures
        message@ == fatal_text(
            error@,
            match log {
                Some(path) => Some(path@),
                None => None,
            },
        ),
{
    let mut message = text_of(
        "HD2 Preset Helper could not start or encountered a fatal error.\r\n\r\n",
    );
    let text = write_line_ends(error);
    message.append(text.as_str());
    let ghost before = message@;
    match log {
        Some(path) => {
            message.append("\r\n\r\nSee ");
            message.append(path);
            message.append(" for more information if the log was created.");
            assert(message@ =~= before + ("\r\n\r\nSee "@ + path@
                + " for more information if the log was created."@));
        },
        None => {
            assert(before + Seq::<char>::empty() =~= before);
        },
    }
    message
}

/// The message that the configuration was replaced by the default.
pub fn config_reset_message(presets_path: &str, config_path: &str) -> (message: String)
    ensures
        message@
            == "The configuration file was reset for this version.\r\n\r\nSaved presets in\r\n"@
            + presets_path@
            + "\r\nwere not changed.\r\n\r\nIf you previously customized the settings, configure them again in\r\n"@
            + config_path@
            + "\r\n\r\nIf you used a custom preset path, move that preset file to the location shown above."@,
{
    let mut message = text_of(
        "The configuration file was reset for this version.\r\n\r\nSaved presets in\r\n",
    );
    message.append(presets_path);
    message.append(
        "\r\nwere not changed.\r\n\r\nIf you previously customized the settings, configure them again in\r\n",
    );
    message.append(config_path);
    message.append(
        "\r\n\r\nIf you used a custom preset path, move that preset file to the location shown above.",
    );
    message
}

/// The message that presets of an earlier version were put aside.
pub fn preset_format_message(backup_path: &str) -> (message: String)
    ensures
        message@
            == "The preset format changed in this version.\r\n\r\nPresets created by an earlier version cannot be used and must be recreated in game.\r\n\r\nThe old preset file was backed up to:\r\n"@
            + backup_path@ + "\r\n\r\nYour configuration was not changed."@,
{
    let mut message = text_of(
        "The preset format changed in this version.\r\n\r\nPresets created by an earlier version cannot be used and must be recreated in game.\r\n\r\nThe old preset file was backed up to:\r\n",
    );
    message.append(backup_path);
    message.append("\r\n\r\nYour configuration was not changed.");
    message
}

/// Every line feed that is written follows a carriage return. A text without line feeds stays as it
/// is, and nothing but carriage returns is added.
pub proof fn lines_end_with_both_characters(text: Seq<char>)
    ensures
        forall|at: int|
            0 <= at < with_line_ends(text).len() && #[trigger] with_line_ends(text)[at] == '\n'
                ==> at > 0 && with_line_ends(text)[at - 1] == '\r',
        !text.contains('\n') ==> with_line_ends(text) == text,
        text.len() <= with_line_ends(text).len() <= 2 * text.len(),
        text.len() > 0 ==> with_line_ends(text).len() > 0 && with_line_ends(text).last()
            == text.last(),
    decreases text.len(),
{
    if text.len() > 0 {
        let front = text.drop_last();
        lines_end_with_both_characters(front);
        let before = with_line_ends(front);
        let all = with_line_ends(text);
        if !text.contains('\n') {
            assert(!front.contains('\n')) by {
                if front.contains('\n') {
                    let at = choose|at: int| 0 <= at < front.len() && front[at] == '\n';
                    assert(text[at] == '\n');
                }
            }
            assert(text.last() != '\n') by {
                assert(text.contains(text[text.len() - 1]));
            }
            assert(front.push(text.last()) =~= text);
        }
        assert forall|at: int| 0 <= at < all.len() && #[trigger] all[at] == '\n' implies at > 0
            && all[at - 1] == '\r' by {
            if at < before.len() {
                assert(before[at] == all[at]);
                assert(before[at - 1] == all[at - 1]);
            } else if text.last() == '\n' && text.len() >= 2 && text[text.len() - 2] == '\r' {
                assert(front.last() == '\r');
                assert(before.last() == '\r');
            }
        }
    }
}

} // verus!
