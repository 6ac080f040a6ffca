//! Where the program keeps its files.
use vstd::prelude::*;
use vstd::string::*;

use crate::monitors::{replace_part, replaced_from};
use crate::text::{chars_of, text_of};

verus! {

#[derive(Clone, Debug)]
pub struct AppPaths {
    pub config: String,
    pub presets: String,
    pub log: String,
    pub last_failure: String,
}

pub open spec fn is_letter(character: char) -> bool {
    'A' <= character <= 'Z' || 'a' <= character <= 'z'
}

pub open spec fn is_separator(character: char) -> bool {
    character == '\\' || character == '/'
}

/// No separator stands between this directory and what lies in it: it ends with one, or it is
/// empty or only a drive.
pub open spec fn needs_no_separator(directory: Seq<char>) -> bool {
    ||| directory.len() == 0
    ||| is_separator(directory.last())
    ||| directory.len() == 2 && is_letter(directory[0]) && directory[1] == ':'
}

/// Where the name that starts at `from` ends: at the next backslash.
pub open spec fn name_end(path: Seq<char>, from: int) -> int
    decreases path.len() - from,
{
    if from >= path.len() || path[from] == '\\' {
        from
    } else {
        name_end(path, from + 1)
    }
}

/// The path starts with `\\?\`, so that Windows takes the rest of it word by word.
pub open spec fn is_verbatim(path: Seq<char>) -> bool {
    path.len() >= 4 && path[0] == '\\' && path[1] == '\\' && path[2] == '?' && path[3] == '\\'
}

/// Where the prefix of a verbatim path ends: behind the share of a network path, behind a drive, or
/// behind the first name.
pub open spec fn prefix_end(path: Seq<char>) -> int {
    if path.len() >= 8 && path[4] == 'U' && path[5] == 'N' && path[6] == 'C' && is_separator(
        path[7],
    ) {
        let server = name_end(path, 8);
        if server < path.len() && name_end(path, server + 1) > server + 1 {
            name_end(path, server + 1)
        } else {
            server
        }
    } else if path.len() >= 6 && is_letter(path[4]) && path[5] == ':' && (path.len() == 6
        || is_separator(path[6])) {
        6
    } else {
        name_end(path, 4)
    }
}

/// The names of a path between two places, one backslash between them: none at the start, and at
/// most one at the end.
pub open spec fn names(path: Seq<char>, from: int, to: int) -> Seq<char>
    decreases to - from,
{
    if to <= from {
        Seq::empty()
    } else {
        let before = names(path, from, to - 1);
        if path[to - 1] == '\\' && (before.len() == 0 || before.last() == '\\') {
            before
        } else {
            before.push(path[to - 1])
        }
    }
}

/// What lies in a directory under a relative path. A verbatim path is written anew, with single
/// backslashes only.
pub open spec fn joined(directory: Seq<char>, part: Seq<char>) -> Seq<char> {
    if is_verbatim(directory) {
        let prefix = prefix_end(directory);
        let parents = names(directory, prefix + 1, directory.len() as int);
        let start = directory.take(prefix) + "\\"@ + parents;
        let rest = replaced_from(part, "/"@, "\\"@, 0);
        if parents.len() == 0 || parents.last() == '\\' {
            start + rest
        } else {
            start + "\\"@ + rest
        }
    } else if needs_no_separator(directory) {
        directory + part
    } else {
        directory + "\\"@ + part
    }
}

fn letter(character: char) -> (found: bool)
    ensures
        found == is_letter(character),
{
    ('A' <= character && character <= 'Z') || ('a' <= character && character <= 'z')
}

fn separator(character: char) -> (found: bool)
    ensures
        found == is_separator(character),
{
    character == '\\' || character == '/'
}

fn find_name_end(path: &Vec<char>, from: usize) -> (end: usize)
    requires
        from <= path@.len(),
    ensures
        end == name_end(path@, from as int),
        from <= end <= path@.len(),
{
    let mut end: usize = from;
    while end < path.len() && path[end] != '\\'
        invariant
            from <= end <= path@.len(),
            name_end(path@, from as int) == name_end(path@, end as int),
        decreases path@.len() - end,
    {
        end = end + 1;
    }
    end
}

fn find_prefix_end(path: &Vec<char>) -> (end: usize)
    requires
        is_verbatim(path@),
    ensures
        end == prefix_end(path@),
        4 <= end <= path@.len(),
{
    if path.len() >= 8 && path[4] == 'U' && path[5] == 'N' && path[6] == 'C' && separator(path[7]) {
        let server = find_name_end(path, 8);
        if server < path.len() {
            let share = find_name_end(path, server + 1);
            if share > server + 1 {
                return share;
            }
        }
        server
    } else if path.len() >= 6 && letter(path[4]) && path[5] == ':' && (path.len() == 6 || separator(
        path[6],
    )) {
        6
    } else {
        find_name_end(path, 4)
    }
}

/// A verbatim directory with a separator at its end.
fn verbatim_start(directory: &str, path: &Vec<char>) -> (start: String)
    requires
        path@ == directory@,
        is_verbatim(path@),
    ensures
        ({
            let prefix = prefix_end(path@);
            let parents = names(path@, prefix + 1, path@.len() as int);
            let lead = path@.take(prefix) + "\\"@ + parents;
            start@ == if parents.len() == 0 || parents.last() == '\\' {
                lead
            } else {
                lead + "\\"@
            }
        }),
{
    let prefix = find_prefix_end(path);
    let mut start = text_of(directory.substring_char(0, prefix));
    start.append("\\");
    let ghost lead = path@.take(prefix as int) + "\\"@;
    assert(start@ =~= lead);
    let mut open = false;
    let mut index: usize = prefix;
    if index < path.len() {
        index = index + 1;
    }
    assert(start@ =~= lead + names(path@, prefix + 1, index as int));
    while index < path.len()
        invariant
            prefix < index <= path@.len() || (prefix == index && index == path@.len()),
            path@ == directory@,
            start@ == lead + names(path@, prefix + 1, index as int),
            open == (names(path@, prefix + 1, index as int).len() > 0 && names(
                path@,
                prefix + 1,
                index as int,
            ).last() != '\\'),
        decreases path@.len() - index,
    {
        let ghost before = names(path@, prefix + 1, index as int);
        if path[index] != '\\' || open {
            let piece = directory.substring_char(index, index + 1);
            assert(piece@ =~= seq![path@[index as int]]);
            start.append(piece);
            open = path[index] != '\\';
            assert(start@ =~= lead + before.push(path@[index as int]));
        }
        index = index + 1;
    }
    assert(names(path@, prefix + 1, index as int) == names(path@, prefix + 1, path@.len() as int));
    if open {
        start.append("\\");
    }
    start
}

fn join(directory: &str, part: &str) -> (path: String)
    ensures
        path@ == joined(directory@, part@),
{
    let chars = chars_of(directory);
    let count = chars.len();
    if count >= 4 && chars[0] == '\\' && chars[1] == '\\' && chars[2] == '?' && chars[3] == '\\' {
        proof {
            reveal_strlit("/");
        }
        let mut path = verbatim_start(directory, &chars);
        path.append(replace_part(part, "/", "\\").as_str());
        return path;
    }
    let mut path = text_of(directory);
    if !(count == 0 || separator(chars[count - 1]) || (count == 2 && letter(chars[0]) && chars[1]
        == ':')) {
        path.append("\\");
    }
    path.append(part);
    path
}

impl AppPaths {
    /// The files of the program, which lie next to its executable in `directory`.
    pub fn resolve(directory: &str) -> (paths: AppPaths)
        ensures
            ({
                let data = joined(directory@, "data"@);
                &&& paths.config@ == joined(data, "config.toml"@)
                &&& paths.presets@ == joined(data, "presets.json"@)
                &&& paths.log@ == joined(data, "app.log"@)
                &&& paths.last_failure@ == joined(data, "debug/last_failure"@)
            }),
    {
        let data = join(directory, "data");
        AppPaths {
            config: join(data.as_str(), "config.toml"),
            presets: join(data.as_str(), "presets.json"),
            log: join(data.as_str(), "app.log"),
            last_failure: join(data.as_str(), "debug/last_failure"),
        }
    }
}

/// What lies in a directory has the path of the directory first and its own behind it, with one
/// separator between them: none is added where the directory ends with one.
pub proof fn paths_are_joined_by_one_separator(directory: Seq<char>, part: Seq<char>)
    requires
        !is_verbatim(directory),
        directory.len() > 2,
    ensures
        ({
            let path = joined(directory, part);
            let last = directory.last();
            &&& path.take(directory.len() as int) == directory
            &&& path.skip(path.len() - part.len()) == part
            &&& last == '\\' || last == '/' ==> path.len() == directory.len() + part.len()
            &&& last != '\\' && last != '/' ==> path.len() == directory.len() + 1 + part.len()
                && path[directory.len() as int] == '\\'
        }),
        !is_verbatim(directory.push('\\')) && directory.last() != '\\' && directory.last() != '/'
            ==> joined(directory.push('\\'), part) == joined(directory, part),
{
    reveal_strlit("\\");
    let path = joined(directory, part);
    assert(path.take(directory.len() as int) =~= directory);
    assert(path.skip(path.len() - part.len()) =~= part);
    assert(directory.push('\\') + part =~= directory + "\\"@ + part);
}

/// Names are kept with one backslash between them: none stands at the start and no two in a row, and
/// what has no backslash stays as it is.
pub proof fn names_have_single_backslashes(path: Seq<char>, from: int, to: int)
    requires
        0 <= from <= to <= path.len(),
    ensures
        names(path, from, to).len() <= to - from,
        names(path, from, to).len() > 0 ==> names(path, from, to)[0] != '\\',
        forall|at: int|
            0 < at < names(path, from, to).len() && #[trigger] names(path, from, to)[at] == '\\'
                ==> names(path, from, to)[at - 1] != '\\',
        (forall|at: int| from <= at < to ==> #[trigger] path[at] != '\\') ==> names(path, from, to)
            == path.subrange(from, to),
        to > from && path[to - 1] != '\\' ==> names(path, from, to).len() > 0 && names(
            path,
            from,
            to,
        ).last() == path[to - 1],
    decreases to - from,
{
    if to > from {
        names_have_single_backslashes(path, from, to - 1);
        let before = names(path, from, to - 1);
        let all = names(path, from, to);
        assert forall|at: int| 0 < at < all.len() && #[trigger] all[at] == '\\' implies all[at - 1]
            != '\\' by {
            if at < before.len() {
                assert(before[at] == all[at]);
                assert(before[at - 1] == all[at - 1]);
            } else {
                assert(all[at - 1] == before.last());
            }
        }
        if forall|at: int| from <= at < to ==> #[trigger] path[at] != '\\' {
            assert(before == path.subrange(from, to - 1));
            assert(path[to - 1] != '\\');
            assert(before.push(path[to - 1]) =~= path.subrange(from, to));
        }
    } else {
        assert(path.subrange(from, to) =~= Seq::<char>::empty());
    }
}

/// A name ends at the next backslash, or with the path.
pub proof fn names_end_at_a_backslash(path: Seq<char>, from: int)
    requires
        0 <= from <= path.len(),
    ensures
        from <= name_end(path, from) <= path.len(),
        name_end(path, from) < path.len() ==> path[name_end(path, from)] == '\\',
        forall|at: int| from <= at < name_end(path, from) ==> #[trigger] path[at] != '\\',
    decreases path.len() - from,
{
    if from < path.len() && path[from] != '\\' {
        names_end_at_a_backslash(path, from + 1);
    }
}

/// The prefix of a verbatim path: a drive with its colon, the server and the share of a network path,
/// or the first name. What follows it is a backslash, or nothing, unless a drive ends with a slash.
pub proof fn prefixes_end_behind_a_name(path: Seq<char>)
    requires
        is_verbatim(path),
    ensures
        4 <= prefix_end(path) <= path.len(),
        prefix_end(path) < path.len() ==> path[prefix_end(path)] == '\\' || (path[prefix_end(path)]
            == '/' && prefix_end(path) == 6 && path[5] == ':'),
        path.len() > 6 && is_letter(path[4]) && path[5] == ':' && path[6] == '\\' ==> prefix_end(
            path,
        ) == 6,
{
    names_end_at_a_backslash(path, 4);
    if path.len() >= 8 {
        names_end_at_a_backslash(path, 8);
        let server = name_end(path, 8);
        if server < path.len() {
            names_end_at_a_backslash(path, server + 1);
        }
    }
}

/// A path is verbatim just where it is something, or nothing, behind two backslashes, a question
/// mark and another backslash.
pub proof fn verbatim_paths_have_their_start(path: Seq<char>, rest: Seq<char>)
    ensures
        is_verbatim(seq!['\\', '\\', '?', '\\'] + rest),
        is_verbatim(path) ==> path == seq!['\\', '\\', '?', '\\'] + path.skip(4),
{
    if is_verbatim(path) {
        assert(path =~= seq!['\\', '\\', '?', '\\'] + path.skip(4));
    }
}

} // verus!
