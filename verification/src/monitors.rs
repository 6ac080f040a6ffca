//! The monitors that the overlay can be put on.
use vstd::prelude::*;
use vstd::string::*;

use crate::platform::{eq_ignore_ascii_case, same_ignoring_case};
use crate::text::{chars_of, comes_before, text_of};

verus! {

/// A part of the desktop.
#[derive(Clone, Copy, Debug, PartialEq, Eq, Structural)]
pub struct MonitorBounds {
    pub left: i32,
    pub top: i32,
    pub right: i32,
    pub bottom: i32,
}

/// A monitor, by the path of its device.
#[derive(Debug)]
pub struct Monitor {
    pub id: String,
    pub label: String,
    pub bounds: MonitorBounds,
}

/// A display of the desktop, by the name of its source.
#[derive(Debug)]
pub struct Desktop {
    pub device: String,
    pub primary: bool,
    pub bounds: MonitorBounds,
}

/// A source of the desktop and the monitor that shows it.
#[derive(Debug)]
pub struct DisplayPath {
    pub source_name: String,
    pub id: String,
    pub name: String,
}

/// `index` is the first display of this source.
pub open spec fn is_desktop(desktops: Seq<Desktop>, source: Seq<char>, index: int) -> bool {
    &&& 0 <= index < desktops.len()
    &&& same_ignoring_case(desktops[index].device@, source)
    &&& forall|earlier: int|
        0 <= earlier < index ==> !same_ignoring_case((#[trigger] desktops[earlier]).device@, source)
}

/// The display of this source.
pub open spec fn desktop_of(desktops: Seq<Desktop>, source: Seq<char>) -> Option<Desktop> {
    if exists|index: int| is_desktop(desktops, source, index) {
        Some(desktops[choose|index: int| is_desktop(desktops, source, index)])
    } else {
        None
    }
}

pub fn find_desktop(desktops: &Vec<Desktop>, source: &String) -> (found: Option<usize>)
    ensures
        match found {
            Some(index) => is_desktop(desktops@, source@, index as int) && desktop_of(
                desktops@,
                source@,
            ) == Some(desktops@[index as int]),
            None => desktop_of(desktops@, source@) is None,
        },
{
    let mut index: usize = 0;
    while index < desktops.len()
        invariant
            index <= desktops@.len(),
            forall|earlier: int|
                0 <= earlier < index ==> !same_ignoring_case(
                    (#[trigger] desktops@[earlier]).device@,
                    source@,
                ),
        decreases desktops@.len() - index,
    {
        if eq_ignore_ascii_case(desktops[index].device.as_str(), source.as_str()) {
            proof {
                assert(is_desktop(desktops@, source@, index as int));
                let chosen = choose|at: int| is_desktop(desktops@, source@, at);
                assert(same_ignoring_case(desktops@[chosen].device@, source@));
                assert(chosen == index);
            }
            return Some(index);
        }
        index = index + 1;
    }
    proof {
        if exists|at: int| is_desktop(desktops@, source@, at) {
            let at = choose|at: int| is_desktop(desktops@, source@, at);
            assert(same_ignoring_case(desktops@[at].device@, source@));
        }
    }
    None
}

/// The part stands in the text at this place.
pub open spec fn stands_at(text: Seq<char>, part: Seq<char>, at: int) -> bool {
    0 <= at && at + part.len() <= text.len() && text.subrange(at, at + part.len()) == part
}

/// The text from `start` on, with every occurrence of `part` replaced, from left to right.
pub open spec fn replaced_from(
    text: Seq<char>,
    part: Seq<char>,
    with: Seq<char>,
    start: int,
) -> Seq<char>
    decreases text.len() - start,
{
    if start < 0 || start >= text.len() || part.len() == 0 {
        Seq::empty()
    } else if stands_at(text, part, start) {
        with + replaced_from(text, part, with, start + part.len())
    } else {
        seq![text[start]] + replaced_from(text, part, with, start + 1)
    }
}

fn part_stands_at(chars: &Vec<char>, part: &Vec<char>, at: usize) -> (stands: bool)
    requires
        at <= chars@.len(),
    ensures
        stands == stands_at(chars@, part@, at as int),
{
    if part.len() > chars.len() - at {
        return false;
    }
    let mut index: usize = 0;
    while index < part.len()
        invariant
            at + part@.len() <= chars@.len(),
            chars@.len() == chars.len(),
            index <= part@.len(),
            forall|done: int| 0 <= done < index ==> chars@[at + done] == part@[done],
        decreases part@.len() - index,
    {
        assert(chars@.len() == chars.len());
        if chars[at + index] != part[index] {
            assert(chars@.subrange(at as int, at + part@.len())[index as int] != part@[index as int]);
            return false;
        }
        index = index + 1;
    }
    assert(chars@.subrange(at as int, at + part@.len()) =~= part@);
    true
}

/// The text with every occurrence of a part replaced, from left to right.
pub fn replace_part(text: &str, part: &str, with: &str) -> (result: String)
    requires
        part@.len() > 0,
    ensures
        result@ == replaced_from(text@, part@, with@, 0),
{
    let chars = chars_of(text);
    let part_chars = chars_of(part);
    let mut result = text_of("");
    proof {
        reveal_strlit("");
        assert(result@ =~= Seq::empty());
        assert(result@ + replaced_from(text@, part@, with@, 0) =~= replaced_from(
            text@,
            part@,
            with@,
            0,
        ));
    }
    let mut index: usize = 0;
    while index < chars.len()
        invariant
            index <= chars@.len(),
            chars@ == text@,
            part_chars@ == part@,
            part@.len() > 0,
            result@ + replaced_from(text@, part@, with@, index as int) == replaced_from(
                text@,
                part@,
                with@,
                0,
            ),
        decreases chars@.len() - index,
    {
        assert(chars@.len() == chars.len());
        let ghost before = result@;
        if part_stands_at(&chars, &part_chars, index) {
            result.append(with);
            let next: usize = index + part_chars.len();
            assert(before + (with@ + replaced_from(text@, part@, with@, next as int)) =~= result@
                + replaced_from(text@, part@, with@, next as int));
            index = next;
        } else {
            let piece = text.substring_char(index, index + 1);
            assert(piece@ =~= seq![text@[index as int]]);
            result.append(piece);
            assert(before + (seq![text@[index as int]] + replaced_from(
                text@,
                part@,
                with@,
                index + 1,
            )) =~= result@ + replaced_from(text@, part@, with@, index + 1));
            index = index + 1;
        }
    }
    assert(result@ + Seq::<char>::empty() =~= result@);
    result
}

/// The label of a monitor: the number of its display, its name, and whether it is the primary one.
pub open spec fn label_of(path: DisplayPath, primary: bool) -> Seq<char> {
    replaced_from(path.source_name@, "\\\\.\\DISPLAY"@, "Display "@, 0) + (if path.name@.len() > 0 {
        " \u{2014} "@ + path.name@
    } else {
        Seq::empty()
    }) + if primary {
        " (Primary)"@
    } else {
        Seq::empty()
    }
}

/// The monitor of a path, if it has a device and shows a part of the desktop.
pub open spec fn shows_monitor(
    desktops: Seq<Desktop>,
    path: DisplayPath,
    monitor: Option<Monitor>,
) -> bool {
    match desktop_of(desktops, path.source_name@) {
        None => monitor is None,
        Some(desktop) => if path.id@.len() == 0 {
            monitor is None
        } else {
            monitor matches Some(shown) && shown.id@ == path.id@ && shown.label@ == label_of(
                path,
                desktop.primary,
            ) && shown.bounds == desktop.bounds
        },
    }
}

fn describe_monitor(desktops: &Vec<Desktop>, path: &DisplayPath) -> (monitor: Option<Monitor>)
    ensures
        shows_monitor(desktops@, *path, monitor),
{
    let index: usize = match find_desktop(desktops, &path.source_name) {
        Some(index) => index,
        None => return None,
    };
    let desktop = &desktops[index];
    if path.id.as_str().unicode_len() == 0 {
        return None;
    }
    proof {
        reveal_strlit("\\\\.\\DISPLAY");
    }
    let mut label = replace_part(path.source_name.as_str(), "\\\\.\\DISPLAY", "Display ");
    let ghost start = label@;
    if path.name.as_str().unicode_len() > 0 {
        label.append(" \u{2014} ");
        label.append(path.name.as_str());
        assert(label@ =~= start + (" \u{2014} "@ + path.name@));
    } else {
        assert(label@ =~= start + Seq::<char>::empty());
    }
    let ghost named = label@;
    if desktop.primary {
        label.append(" (Primary)");
    } else {
        assert(label@ =~= named + Seq::<char>::empty());
    }
    Some(Monitor { id: path.id.clone(), label, bounds: desktop.bounds })
}

/// The first text comes before the second, character by character.
pub open spec fn text_before(left: Seq<char>, right: Seq<char>) -> bool
    decreases left.len(),
{
    if right.len() == 0 {
        false
    } else if left.len() == 0 {
        true
    } else if left[0] != right[0] {
        left[0] < right[0]
    } else {
        text_before(left.skip(1), right.skip(1))
    }
}

fn is_text_before(left: &str, right: &str) -> (before: bool)
    ensures
        before == text_before(left@, right@),
{
    let left_chars = chars_of(left);
    let right_chars = chars_of(right);
    let mut index: usize = 0;
    assert(left@.skip(0) =~= left@);
    assert(right@.skip(0) =~= right@);
    while index < left_chars.len() && index < right_chars.len()
        invariant
            left_chars@ == left@,
            right_chars@ == right@,
            index <= left@.len(),
            index <= right@.len(),
            text_before(left@, right@) == text_before(
                left@.skip(index as int),
                right@.skip(index as int),
            ),
        decreases left@.len() - index,
    {
        if left_chars[index] != right_chars[index] {
            return left_chars[index] < right_chars[index];
        }
        assert(left@.skip(index as int).skip(1) =~= left@.skip(index + 1));
        assert(right@.skip(index as int).skip(1) =~= right@.skip(index + 1));
        index = index + 1;
    }
    index < right_chars.len()
}

/// Where a monitor goes among others that are in order: behind all with a label that does not come
/// after its own.
pub open spec fn insert_at(sorted: Seq<Monitor>, label: Seq<char>) -> int
    decreases sorted.len(),
{
    if sorted.len() == 0 {
        0
    } else if text_before(label, sorted.last().label@) {
        insert_at(sorted.drop_last(), label)
    } else {
        sorted.len() as int
    }
}

/// The monitors in the order of their labels. Those with the same label keep their order.
pub open spec fn in_label_order(monitors: Seq<Monitor>) -> Seq<Monitor>
    decreases monitors.len(),
{
    if monitors.len() == 0 {
        monitors
    } else {
        let before = in_label_order(monitors.drop_last());
        before.insert(insert_at(before, monitors.last().label@), monitors.last())
    }
}

proof fn insert_at_is_inside(sorted: Seq<Monitor>, label: Seq<char>)
    ensures
        0 <= insert_at(sorted, label) <= sorted.len(),
    decreases sorted.len(),
{
    if sorted.len() > 0 && text_before(label, sorted.last().label@) {
        insert_at_is_inside(sorted.drop_last(), label);
    }
}

fn insert_in_order(sorted: &mut Vec<Monitor>, monitor: Monitor)
    ensures
        final(sorted)@ == old(sorted)@.insert(
            insert_at(old(sorted)@, monitor.label@),
            monitor,
        ),
{
    let ghost all = sorted@;
    let mut index: usize = sorted.len();
    assert(all.take(all.len() as int) =~= all);
    while index > 0 && is_text_before(monitor.label.as_str(), sorted[index - 1].label.as_str())
        invariant
            sorted@ == all,
            index <= all.len(),
            insert_at(all, monitor.label@) == insert_at(all.take(index as int), monitor.label@),
        decreases index,
    {
        assert(all.take(index as int).drop_last() =~= all.take(index - 1));
        index = index - 1;
    }
    proof {
        let rest = all.take(index as int);
        assert(insert_at(rest, monitor.label@) == index);
    }
    sorted.insert(index, monitor);
}

/// The monitors of the first `count` paths.
pub open spec fn monitors_of(
    desktops: Seq<Desktop>,
    paths: Seq<DisplayPath>,
    monitors: Seq<Monitor>,
    count: int,
) -> bool
    decreases count,
{
    if count <= 0 {
        monitors.len() == 0
    } else if monitors.len() > 0 && shows_monitor(
        desktops,
        paths[count - 1],
        Some(monitors.last()),
    ) {
        monitors_of(desktops, paths, monitors.drop_last(), count - 1)
    } else {
        shows_monitor(desktops, paths[count - 1], None) && monitors_of(
            desktops,
            paths,
            monitors,
            count - 1,
        )
    }
}

/// The monitors that show the desktop, in the order of their labels.
pub fn available(paths: &Vec<DisplayPath>, desktops: &Vec<Desktop>) -> (monitors: Vec<Monitor>)
    ensures
        exists|found: Seq<Monitor>| #[trigger]
            monitors_of(desktops@, paths@, found, paths@.len() as int) && monitors@
                == in_label_order(found),
{
    let mut monitors: Vec<Monitor> = Vec::new();
    let ghost mut found: Seq<Monitor> = Seq::empty();
    let mut index: usize = 0;
    while index < paths.len()
        invariant
            index <= paths@.len(),
            monitors_of(desktops@, paths@, found, index as int),
            monitors@ == in_label_order(found),
        decreases paths@.len() - index,
    {
        match describe_monitor(desktops, &paths[index]) {
            Some(monitor) => {
                proof {
                    let more = found.push(monitor);
                    assert(more.drop_last() =~= found);
                    assert(more.last() == monitor);
                    found = more;
                }
                insert_in_order(&mut monitors, monitor);
            },
            None => {
                proof {
                    let path = paths@[index as int];
                    if found.len() > 0 {
                        assert(!shows_monitor(desktops@, path, Some(found.last())));
                    }
                }
            },
        }
        index = index + 1;
    }
    monitors
}

/// No monitor has a label that comes before that of one ahead of it.
pub open spec fn is_in_order(monitors: Seq<Monitor>) -> bool {
    forall|i: int, j: int|
        0 <= i < j < monitors.len() ==> !text_before(
            (#[trigger] monitors[j]).label@,
            (#[trigger] monitors[i]).label@,
        )
}

proof fn before_is_transitive(left: Seq<char>, middle: Seq<char>, right: Seq<char>)
    requires
        text_before(left, middle),
        !text_before(right, middle),
    ensures
        text_before(left, right),
    decreases left.len(),
{
    if left.len() > 0 && right.len() > 0 && middle.len() > 0 && left[0] == middle[0] && right[0]
        == middle[0] {
        before_is_transitive(left.skip(1), middle.skip(1), right.skip(1));
    }
}

proof fn before_is_asymmetric(left: Seq<char>, right: Seq<char>)
    requires
        text_before(left, right),
    ensures
        !text_before(right, left),
    decreases left.len(),
{
    if left.len() > 0 && right.len() > 0 && left[0] == right[0] {
        before_is_asymmetric(left.skip(1), right.skip(1));
    }
}

proof fn insertion_keeps_order(sorted: Seq<Monitor>, monitor: Monitor)
    requires
        is_in_order(sorted),
    ensures
        is_in_order(sorted.insert(insert_at(sorted, monitor.label@), monitor)),
        0 <= insert_at(sorted, monitor.label@) <= sorted.len(),
{
    let place = insert_at(sorted, monitor.label@);
    insert_place(sorted, monitor.label@);
    let more = sorted.insert(place, monitor);
    assert forall|i: int, j: int| 0 <= i < j < more.len() implies !text_before(
        (#[trigger] more[j]).label@,
        (#[trigger] more[i]).label@,
    ) by {
        if j == place {
            assert(more[i] == sorted[i]);
        } else if i == place {
            assert(more[j] == sorted[j - 1]);
            before_is_asymmetric(monitor.label@, sorted[j - 1].label@);
        } else {
            let left = if i < place {
                i
            } else {
                i - 1
            };
            let right = if j < place {
                j
            } else {
                j - 1
            };
            assert(more[i] == sorted[left]);
            assert(more[j] == sorted[right]);
        }
    }
}

proof fn insert_place(sorted: Seq<Monitor>, label: Seq<char>)
    requires
        is_in_order(sorted),
    ensures
        0 <= insert_at(sorted, label) <= sorted.len(),
        forall|at: int|
            0 <= at < insert_at(sorted, label) ==> !text_before(
                label,
                (#[trigger] sorted[at]).label@,
            ),
        forall|at: int|
            insert_at(sorted, label) <= at < sorted.len() ==> text_before(
                label,
                (#[trigger] sorted[at]).label@,
            ),
    decreases sorted.len(),
{
    if sorted.len() > 0 {
        let front = sorted.drop_last();
        if text_before(label, sorted.last().label@) {
            assert(is_in_order(front)) by {
                assert forall|i: int, j: int| 0 <= i < j < front.len() implies !text_before(
                    (#[trigger] front[j]).label@,
                    (#[trigger] front[i]).label@,
                ) by {
                    assert(front[i] == sorted[i] && front[j] == sorted[j]);
                }
            }
            insert_place(front, label);
            assert forall|at: int| 0 <= at < insert_at(sorted, label) implies !text_before(
                label,
                (#[trigger] sorted[at]).label@,
            ) by {
                assert(front[at] == sorted[at]);
            }
            assert forall|at: int| insert_at(sorted, label) <= at < sorted.len() implies text_before(
                label,
                (#[trigger] sorted[at]).label@,
            ) by {
                if at < front.len() {
                    assert(front[at] == sorted[at]);
                }
            }
        } else {
            assert forall|at: int| 0 <= at < sorted.len() implies !text_before(
                label,
                (#[trigger] sorted[at]).label@,
            ) by {
                let last = sorted.len() - 1;
                if at < last && text_before(label, sorted[at].label@) {
                    assert(!text_before(sorted[last].label@, sorted[at].label@));
                    before_is_transitive(label, sorted[at].label@, sorted[last].label@);
                }
            }
        }
    }
}

/// The monitors are listed in the order of their labels, each as often as it was found.
pub proof fn listed_in_order(monitors: Seq<Monitor>)
    ensures
        is_in_order(in_label_order(monitors)),
        in_label_order(monitors).len() == monitors.len(),
        in_label_order(monitors).to_multiset() == monitors.to_multiset(),
    decreases monitors.len(),
{
    broadcast use vstd::seq_lib::group_to_multiset_ensures;

    if monitors.len() > 0 {
        let front = monitors.drop_last();
        listed_in_order(front);
        let before = in_label_order(front);
        let place = insert_at(before, monitors.last().label@);
        insertion_keeps_order(before, monitors.last());
        assert(monitors =~= front.push(monitors.last()));
        assert(before.insert(place, monitors.last()).to_multiset() =~= before.to_multiset().insert(
            monitors.last(),
        ));
    } else {
        assert(in_label_order(monitors) =~= monitors);
    }
}

/// `index` is the first monitor with this device.
pub open spec fn is_monitor(monitors: Seq<Monitor>, id: Seq<char>, index: int) -> bool {
    &&& 0 <= index < monitors.len()
    &&& same_ignoring_case(monitors[index].id@, id)
    &&& forall|earlier: int|
        0 <= earlier < index ==> !same_ignoring_case((#[trigger] monitors[earlier]).id@, id)
}

fn find_monitor(monitors: &Vec<Monitor>, id: &String) -> (found: Option<usize>)
    ensures
        match found {
            Some(index) => is_monitor(monitors@, id@, index as int),
            None => forall|index: int|
                0 <= index < monitors@.len() ==> !same_ignoring_case(
                    (#[trigger] monitors@[index]).id@,
                    id@,
                ),
        },
{
    let mut index: usize = 0;
    while index < monitors.len()
        invariant
            index <= monitors@.len(),
            forall|earlier: int|
                0 <= earlier < index ==> !same_ignoring_case(
                    (#[trigger] monitors@[earlier]).id@,
                    id@,
                ),
        decreases monitors@.len() - index,
    {
        if eq_ignore_ascii_case(monitors[index].id.as_str(), id.as_str()) {
            return Some(index);
        }
        index = index + 1;
    }
    None
}

/// The part of the desktop on the chosen monitor. There is none where none is chosen, the monitors
/// cannot be listed, or the chosen one is not among them: then a fallback takes its place.
pub fn resolve_bounds(id: Option<&String>, monitors: Option<&Vec<Monitor>>) -> (bounds: Option<
    MonitorBounds,
>)
    ensures
        id is None || monitors is None ==> bounds is None,
        id is Some && monitors is Some ==> match bounds {
            Some(found) => exists|index: int| #[trigger]
                is_monitor(monitors->0@, id->0@, index) && monitors->0@[index].bounds == found,
            None => forall|index: int|
                0 <= index < monitors->0@.len() ==> !same_ignoring_case(
                    (#[trigger] monitors->0@[index]).id@,
                    id->0@,
                ),
        },
{
    if let Some(wanted) = id {
        if let Some(list) = monitors {
            if let Some(index) = find_monitor(list, wanted) {
                return Some(list[index].bounds);
            }
        }
    }
    None
}

/// Labels are ordered as texts are everywhere else.
pub proof fn labels_are_ordered_as_texts(left: Seq<char>, right: Seq<char>)
    ensures
        text_before(left, right) == comes_before(left, right),
    decreases left.len(),
{
    if left.len() > 0 && right.len() > 0 && left[0] == right[0] {
        labels_are_ordered_as_texts(left.skip(1), right.skip(1));
    } else if left.len() > 0 && right.len() > 0 {
        codes_are_in_order(left[0], right[0]);
    }
}

proof fn codes_are_in_order(left: char, right: char)
    ensures
        left < right <==> (left as u32) < (right as u32),
{
}

/// A text without the part stays as it is, and of a text that starts with the part and does not have
/// it again only the start is replaced.
pub proof fn only_the_part_is_replaced(
    text: Seq<char>,
    part: Seq<char>,
    with: Seq<char>,
    start: int,
)
    requires
        0 <= start <= text.len(),
        part.len() > 0,
        forall|at: int| start <= at < text.len() ==> !#[trigger] stands_at(text, part, at),
    ensures
        replaced_from(text, part, with, start) == text.skip(start),
    decreases text.len() - start,
{
    if start < text.len() {
        only_the_part_is_replaced(text, part, with, start + 1);
        assert(!stands_at(text, part, start));
        assert(seq![text[start]] + text.skip(start + 1) =~= text.skip(start));
    } else {
        assert(text.skip(start) =~= Seq::<char>::empty());
    }
}

/// A display is found just where one has the name of the source, in whatever case, and it is one of
/// those.
pub proof fn desktops_are_found_by_name(desktops: Seq<Desktop>, source: Seq<char>)
    ensures
        desktop_of(desktops, source) is Some <==> exists|at: int|
            0 <= at < desktops.len() && same_ignoring_case(
                (#[trigger] desktops[at]).device@,
                source,
            ),
        desktop_of(desktops, source) matches Some(found) ==> desktops.contains(found)
            && same_ignoring_case(found.device@, source),
{
    if exists|index: int| is_desktop(desktops, source, index) {
        let index = choose|index: int| is_desktop(desktops, source, index);
        assert(desktops[index] == desktops[index]);
    }
    if exists|at: int|
        0 <= at < desktops.len() && same_ignoring_case((#[trigger] desktops[at]).device@, source) {
        let at = choose|at: int|
            0 <= at < desktops.len() && same_ignoring_case((#[trigger] desktops[at]).device@, source);
        first_desktop_exists(desktops, source, at);
    }
}

proof fn first_desktop_exists(desktops: Seq<Desktop>, source: Seq<char>, at: int)
    requires
        0 <= at < desktops.len(),
        same_ignoring_case(desktops[at].device@, source),
    ensures
        exists|index: int| is_desktop(desktops, source, index),
    decreases at,
{
    if exists|earlier: int|
        0 <= earlier < at && same_ignoring_case((#[trigger] desktops[earlier]).device@, source) {
        let earlier = choose|earlier: int|
            0 <= earlier < at && same_ignoring_case((#[trigger] desktops[earlier]).device@, source);
        first_desktop_exists(desktops, source, earlier);
    } else {
        assert(is_desktop(desktops, source, at));
    }
}

/// A monitor is listed just where its path has a device and a display shows it, and then by that
/// device, where that display lies.
pub proof fn shown_monitors_have_a_device(
    desktops: Seq<Desktop>,
    path: DisplayPath,
    monitor: Option<Monitor>,
)
    requires
        shows_monitor(desktops, path, monitor),
    ensures
        monitor is Some <==> path.id@.len() > 0 && exists|at: int|
            0 <= at < desktops.len() && same_ignoring_case(
                (#[trigger] desktops[at]).device@,
                path.source_name@,
            ),
        monitor matches Some(shown) ==> shown.id@ == path.id@ && exists|at: int|
            0 <= at < desktops.len() && same_ignoring_case(
                (#[trigger] desktops[at]).device@,
                path.source_name@,
            ) && shown.bounds == desktops[at].bounds,
{
    desktops_are_found_by_name(desktops, path.source_name@);
    if monitor is Some {
        let found = desktop_of(desktops, path.source_name@)->0;
        let at = choose|at: int| 0 <= at < desktops.len() && desktops[at] == found;
        assert(same_ignoring_case(desktops[at].device@, path.source_name@));
    }
}

/// The label of a display shows its number, its name behind a dash where it has one, and that it is
/// the primary one where it is.
pub proof fn labels_show_the_number(path: DisplayPath, number: Seq<char>, primary: bool)
    requires
        path.source_name@ == "\\\\.\\DISPLAY"@ + number,
        forall|at: int| 0 <= at < number.len() ==> #[trigger] number[at] != '\\',
    ensures
        label_of(path, primary) == "Display "@ + number + (if path.name@.len() > 0 {
            seq![' ', '\u{2014}', ' '] + path.name@
        } else {
            Seq::empty()
        }) + (if primary {
            " (Primary)"@
        } else {
            Seq::empty()
        }),
{
    reveal_strlit("\\\\.\\DISPLAY");
    reveal_strlit(" \u{2014} ");
    let part = "\\\\.\\DISPLAY"@;
    let text = path.source_name@;
    assert(part.len() == 11 && part[0] == '\\');
    assert(text.subrange(0, 11) =~= part);
    assert(stands_at(text, part, 0));
    assert forall|at: int| 11 <= at < text.len() implies !#[trigger] stands_at(text, part, at) by {
        if stands_at(text, part, at) {
            assert(text.subrange(at, at + 11)[0] == text[at]);
            assert(text[at] == number[at - 11]);
        }
    }
    only_the_part_is_replaced(text, part, "Display "@, 11);
    assert(text.skip(11) =~= number);
    assert(replaced_from(text, part, "Display "@, 0) == "Display "@ + number);
    assert(" \u{2014} "@ =~= seq![' ', '\u{2014}', ' ']);
}

/// Every monitor comes from a path with a device and a display.
pub proof fn monitors_come_from_paths(
    desktops: Seq<Desktop>,
    paths: Seq<DisplayPath>,
    monitors: Seq<Monitor>,
    count: int,
    at: int,
)
    requires
        monitors_of(desktops, paths, monitors, count),
        0 <= count <= paths.len(),
        0 <= at < monitors.len(),
    ensures
        exists|path: int|
            0 <= path < count && shows_monitor(desktops, #[trigger] paths[path], Some(monitors[at])),
    decreases count,
{
    let last = count - 1;
    if shows_monitor(desktops, paths[last], Some(monitors.last())) {
        if at < monitors.len() - 1 {
            monitors_come_from_paths(desktops, paths, monitors.drop_last(), last, at);
        }
    } else {
        monitors_come_from_paths(desktops, paths, monitors, last, at);
    }
}

/// Every path with a device and a display gives a monitor.
pub proof fn paths_give_their_monitors(
    desktops: Seq<Desktop>,
    paths: Seq<DisplayPath>,
    monitors: Seq<Monitor>,
    count: int,
    path: int,
)
    requires
        monitors_of(desktops, paths, monitors, count),
        0 <= path < count <= paths.len(),
        !shows_monitor(desktops, paths[path], None),
    ensures
        exists|at: int|
            0 <= at < monitors.len() && shows_monitor(
                desktops,
                paths[path],
                Some(#[trigger] monitors[at]),
            ),
    decreases count,
{
    let last = count - 1;
    if monitors.len() > 0 && shows_monitor(desktops, paths[last], Some(monitors.last())) {
        if path < last {
            let front = monitors.drop_last();
            paths_give_their_monitors(desktops, paths, front, last, path);
            let at = choose|at: int|
                0 <= at < front.len() && shows_monitor(
                    desktops,
                    paths[path],
                    Some(#[trigger] front[at]),
                );
            assert(monitors[at] == front[at]);
        } else {
            assert(monitors[monitors.len() - 1] == monitors.last());
        }
    } else {
        paths_give_their_monitors(desktops, paths, monitors, last, path);
    }
}

} // verus!
