//! Saved presets and the rules they follow.
use vstd::prelude::*;
use vstd::string::*;

use crate::assets::IconCatalog;
use crate::item::ItemKind;
use crate::text::{
    comes_before, decimal, is_before, order_is_strict, order_is_total, push_decimal, text_of,
};

verus! {

/// A saved loadout.
#[derive(Debug)]
pub struct Preset {
    pub stratagems: Vec<String>,
    pub booster: Option<String>,
    /// Taken where another player has the booster already.
    pub fallback_booster: Option<String>,
}

/// A saved loadout as texts.
pub struct PresetModel {
    pub stratagems: Seq<Seq<char>>,
    pub booster: Option<Seq<char>>,
    pub fallback_booster: Option<Seq<char>>,
}

/// The texts of strings.
pub open spec fn texts(values: Seq<String>) -> Seq<Seq<char>> {
    values.map_values(|value: String| value@)
}

pub open spec fn optional_text(value: Option<String>) -> Option<Seq<char>> {
    match value {
        Some(text) => Some(text@),
        None => None,
    }
}

impl View for Preset {
    type V = PresetModel;

    open spec fn view(&self) -> PresetModel {
        PresetModel {
            stratagems: texts(self.stratagems@),
            booster: optional_text(self.booster),
            fallback_booster: optional_text(self.fallback_booster),
        }
    }
}

pub fn copy_texts(values: &Vec<String>) -> (copy: Vec<String>)
    ensures
        texts(copy@) == texts(values@),
{
    let mut copy: Vec<String> = Vec::new();
    let mut index: usize = 0;
    while index < values.len()
        invariant
            index <= values@.len(),
            texts(copy@) == texts(values@.take(index as int)),
        decreases values@.len() - index,
    {
        let ghost before = copy@;
        copy.push(values[index].clone());
        index = index + 1;
        assert(values@.take(index as int) =~= values@.take(index - 1).push(values@[index - 1]));
        assert(texts(copy@) =~= texts(before).push(values@[index - 1]@));
        assert(texts(values@.take(index as int)) =~= texts(values@.take(index - 1)).push(
            values@[index - 1]@,
        ));
    }
    assert(values@.take(values@.len() as int) =~= values@);
    copy
}

pub fn copy_optional(value: &Option<String>) -> (copy: Option<String>)
    ensures
        optional_text(copy) == optional_text(*value),
{
    match value {
        Some(text) => Some(text.clone()),
        None => None,
    }
}

impl Preset {
    pub fn duplicate(&self) -> (copy: Preset)
        ensures
            copy@ == self@,
    {
        Preset {
            stratagems: copy_texts(&self.stratagems),
            booster: copy_optional(&self.booster),
            fallback_booster: copy_optional(&self.fallback_booster),
        }
    }
}

/// `index` is the first that holds an item which came before.
pub open spec fn is_first_duplicate(items: Seq<Seq<char>>, index: int) -> bool {
    &&& 0 <= index < items.len()
    &&& items.take(index).contains(items[index])
    &&& items.take(index).no_duplicates()
}

/// What is wrong with a preset of this name, if anything.
pub open spec fn preset_defect(name: Seq<char>, preset: PresetModel) -> Option<Seq<char>> {
    if preset.stratagems.len() != 4 {
        Some(
            "preset "@ + name + " must contain exactly 4 stratagems, got "@ + decimal(
                preset.stratagems.len(),
            ),
        )
    } else if !preset.stratagems.no_duplicates() {
        let index = choose|index: int| is_first_duplicate(preset.stratagems, index);
        Some("preset "@ + name + " contains duplicate stratagem "@ + preset.stratagems[index])
    } else {
        None
    }
}

proof fn first_duplicate_is_unique(items: Seq<Seq<char>>, left: int, right: int)
    requires
        is_first_duplicate(items, left),
        is_first_duplicate(items, right),
    ensures
        left == right,
{
    if left < right {
        let at = choose|at: int| 0 <= at < left && items.take(left)[at] == items[left];
        assert(items.take(right)[at] == items.take(right)[left]);
    } else if right < left {
        let at = choose|at: int| 0 <= at < right && items.take(right)[at] == items[right];
        assert(items.take(left)[at] == items.take(left)[right]);
    }
}

/// Some of the first `count` values is this text.
fn holds_text(values: &Vec<String>, count: usize, text: &String) -> (found: bool)
    requires
        count <= values@.len(),
    ensures
        found == texts(values@).take(count as int).contains(text@),
{
    let ghost items = texts(values@).take(count as int);
    let mut index: usize = 0;
    while index < count
        invariant
            index <= count <= values@.len(),
            items == texts(values@).take(count as int),
            forall|at: int| 0 <= at < index ==> #[trigger] items[at] != text@,
        decreases count - index,
    {
        assert(items[index as int] == values@[index as int]@);
        if values[index] == *text {
            assert(items.contains(text@));
            return true;
        }
        index = index + 1;
    }
    false
}

/// Checks that a preset has four different stratagems.
pub fn validate_preset(name: &String, preset: &Preset) -> (result: Result<(), String>)
    ensures
        match result {
            Ok(_) => preset_defect(name@, preset@) is None,
            Err(error) => preset_defect(name@, preset@) == Some(error@),
        },
{
    let count = preset.stratagems.len();
    let mut message = text_of("preset ");
    message.append(name.as_str());
    if count != 4 {
        message.append(" must contain exactly 4 stratagems, got ");
        push_decimal(&mut message, count as u64);
        return Err(message);
    }
    let ghost items = preset@.stratagems;
    let mut index: usize = 0;
    while index < count
        invariant
            index <= count == 4,
            count == preset.stratagems@.len(),
            items == preset@.stratagems,
            items.take(index as int).no_duplicates(),
            message@ == "preset "@ + name@,
        decreases count - index,
    {
        assert(items[index as int] == preset.stratagems@[index as int]@);
        if holds_text(&preset.stratagems, index, &preset.stratagems[index]) {
            proof {
                assert(is_first_duplicate(items, index as int));
                let chosen = choose|at: int| is_first_duplicate(items, at);
                first_duplicate_is_unique(items, index as int, chosen);
                let at = choose|at: int|
                    0 <= at < index && items.take(index as int)[at] == items[index as int];
                assert(items[at] == items[index as int]);
            }
            message.append(" contains duplicate stratagem ");
            message.append(preset.stratagems[index].as_str());
            return Err(message);
        }
        assert(items.take(index + 1) =~= items.take(index as int).push(items[index as int]));
        assert(items.take(index + 1).no_duplicates()) by {
            let more = items.take(index + 1);
            assert forall|i: int, j: int|
                0 <= i < more.len() && 0 <= j < more.len() && i != j implies more[i] != more[j] by {
                if i == index {
                    assert(items.take(index as int)[j] == more[j]);
                } else if j == index {
                    assert(items.take(index as int)[i] == more[i]);
                } else {
                    assert(items.take(index as int)[i] == more[i]);
                    assert(items.take(index as int)[j] == more[j]);
                }
            }
        }
        index = index + 1;
    }
    assert(items.take(4) =~= items);
    Ok(())
}

/// Why an item cannot stand for one of this kind, if it cannot.
pub open spec fn item_reason(catalog: IconCatalog, item_id: Seq<char>, kind: ItemKind) -> Option<
    Seq<char>,
> {
    match catalog.entry_of(item_id) {
        None => Some("missing "@ + item_id),
        Some(entry) => if entry.kind == kind {
            None
        } else if kind == ItemKind::Stratagem {
            Some(item_id + " is not a stratagem"@)
        } else {
            Some(item_id + " is not a booster"@)
        },
    }
}

/// The reason of the first of the stratagems that has one.
pub open spec fn stratagems_reason(catalog: IconCatalog, items: Seq<Seq<char>>) -> Option<
    Seq<char>,
>
    decreases items.len(),
{
    if items.len() == 0 {
        None
    } else {
        match stratagems_reason(catalog, items.drop_last()) {
            Some(reason) => Some(reason),
            None => item_reason(catalog, items.last(), ItemKind::Stratagem),
        }
    }
}

/// Why the items of a preset are not the known ones, if they are not.
pub open spec fn preset_reason(catalog: IconCatalog, preset: PresetModel) -> Option<Seq<char>> {
    match stratagems_reason(catalog, preset.stratagems) {
        Some(reason) => Some(reason),
        None => match preset.booster {
            Some(booster) => item_reason(catalog, booster, ItemKind::Booster),
            None => None,
        },
    }
}

proof fn first_reason_stays(catalog: IconCatalog, items: Seq<Seq<char>>, count: int)
    requires
        0 <= count <= items.len(),
        stratagems_reason(catalog, items.take(count)) is Some,
    ensures
        stratagems_reason(catalog, items) == stratagems_reason(catalog, items.take(count)),
    decreases items.len(),
{
    if count == items.len() {
        assert(items.take(count) =~= items);
    } else {
        assert(items.drop_last().take(count) =~= items.take(count));
        first_reason_stays(catalog, items.drop_last(), count);
    }
}

fn find_item_reason(catalog: &IconCatalog, item_id: &String, kind: ItemKind) -> (reason: Option<
    String,
>)
    ensures
        optional_text(reason) == item_reason(*catalog, item_id@, kind),
{
    match catalog.get(item_id) {
        None => {
            let mut text = text_of("missing ");
            text.append(item_id.as_str());
            Some(text)
        },
        Some(entry) => {
            if entry.kind == kind {
                return None;
            }
            let mut text = item_id.clone();
            if kind == ItemKind::Stratagem {
                text.append(" is not a stratagem");
            } else {
                text.append(" is not a booster");
            }
            Some(text)
        },
    }
}

pub fn invalid_preset_reason(preset: &Preset, catalog: &IconCatalog) -> (reason: Option<String>)
    ensures
        optional_text(reason) == preset_reason(*catalog, preset@),
{
    let ghost items = preset@.stratagems;
    let mut index: usize = 0;
    while index < preset.stratagems.len()
        invariant
            index <= preset.stratagems@.len(),
            items == preset@.stratagems,
            stratagems_reason(*catalog, items.take(index as int)) is None,
        decreases preset.stratagems@.len() - index,
    {
        let reason = find_item_reason(catalog, &preset.stratagems[index], ItemKind::Stratagem);
        assert(items[index as int] == preset.stratagems@[index as int]@);
        assert(items.take(index + 1).drop_last() =~= items.take(index as int));
        if reason.is_some() {
            proof {
                first_reason_stays(*catalog, items, index + 1);
            }
            return reason;
        }
        index = index + 1;
    }
    assert(items.take(items.len() as int) =~= items);
    match &preset.booster {
        Some(booster) => find_item_reason(catalog, booster, ItemKind::Booster),
        None => None,
    }
}

/// A preset and its name.
#[derive(Debug)]
pub struct NamedPreset {
    pub name: String,
    pub preset: Preset,
}

/// The preset of this name.
pub open spec fn preset_named(entries: Seq<NamedPreset>, name: Seq<char>) -> Option<PresetModel>
    decreases entries.len(),
{
    if entries.len() == 0 {
        None
    } else if entries.last().name@ == name {
        Some(entries.last().preset@)
    } else {
        preset_named(entries.drop_last(), name)
    }
}

proof fn preset_at(entries: Seq<NamedPreset>, name: Seq<char>, index: int)
    requires
        0 <= index < entries.len(),
        entries[index].name@ == name,
        forall|at: int| index < at < entries.len() ==> (#[trigger] entries[at]).name@ != name,
    ensures
        preset_named(entries, name) == Some(entries[index].preset@),
    decreases entries.len(),
{
    if index < entries.len() - 1 {
        assert(entries[entries.len() - 1].name@ != name);
        preset_at(entries.drop_last(), name, index);
    }
}

proof fn no_preset(entries: Seq<NamedPreset>, name: Seq<char>)
    requires
        forall|at: int| 0 <= at < entries.len() ==> (#[trigger] entries[at]).name@ != name,
    ensures
        preset_named(entries, name) is None,
    decreases entries.len(),
{
    if entries.len() > 0 {
        assert(entries[entries.len() - 1].name@ != name);
        no_preset(entries.drop_last(), name);
    }
}

/// The saved presets, ordered by their names. No two have the same name.
#[derive(Debug)]
pub struct PresetFile {
    entries: Vec<NamedPreset>,
}

pub open spec fn ordered_by_name(entries: Seq<NamedPreset>) -> bool {
    forall|i: int, j: int|
        0 <= i < j < entries.len() ==> comes_before(
            (#[trigger] entries[i]).name@,
            (#[trigger] entries[j]).name@,
        )
}

impl PresetFile {
    #[verifier::type_invariant]
    spec fn inv(&self) -> bool {
        ordered_by_name(self.entries@)
    }

    pub closed spec fn all(&self) -> Seq<NamedPreset> {
        self.entries@
    }

    /// The preset of this name.
    pub open spec fn named(&self, name: Seq<char>) -> Option<PresetModel> {
        preset_named(self.all(), name)
    }

    /// No presets.
    pub fn empty() -> (file: Self)
        ensures
            file.all().len() == 0,
    {
        PresetFile { entries: Vec::new() }
    }

    /// All presets.
    pub fn entries(&self) -> (entries: &Vec<NamedPreset>)
        ensures
            entries@ == self.all(),
            ordered_by_name(entries@),
    {
        proof {
            use_type_invariant(self);
        }
        &self.entries
    }

    pub fn get(&self, name: &String) -> (preset: Option<&Preset>)
        ensures
            match preset {
                Some(found) => self.named(name@) == Some(found@),
                None => self.named(name@) is None,
            },
    {
        let mut index: usize = self.entries.len();
        while index > 0
            invariant
                index <= self.entries@.len(),
                forall|at: int|
                    index <= at < self.entries@.len() ==> (#[trigger] self.entries@[at]).name@
                        != name@,
            decreases index,
        {
            index = index - 1;
            if self.entries[index].name == *name {
                proof {
                    preset_at(self.entries@, name@, index as int);
                }
                return Some(&self.entries[index].preset);
            }
        }
        proof {
            no_preset(self.entries@, name@);
        }
        None
    }

    /// Keeps a preset under a name, in place of one that has it.
    pub fn insert(self, name: &String, preset: &Preset) -> (file: Self)
        ensures
            ordered_by_name(file.all()),
            file.named(name@) == Some(preset@),
            forall|other: Seq<char>|
                other != name@ ==> #[trigger] file.named(other) == self.named(other),
    {
        proof {
            use_type_invariant(&self);
        }
        let ghost before = self.entries@;
        let mut entries = self.entries;
        let mut index: usize = 0;
        while index < entries.len() && is_before(entries[index].name.as_str(), name.as_str())
            invariant
                entries@ == before,
                index <= before.len(),
                forall|at: int|
                    0 <= at < index ==> comes_before((#[trigger] before[at]).name@, name@),
            decreases before.len() - index,
        {
            index = index + 1;
        }
        let replaces = index < entries.len() && entries[index].name == *name;
        if replaces {
            entries.remove(index);
        }
        let ghost rest = entries@;
        proof {
            assert forall|other: Seq<char>| other != name@ implies #[trigger] preset_named(
                rest,
                other,
            ) == preset_named(before, other) by {
                if replaces {
                    assert(rest.insert(index as int, before[index as int]) =~= before);
                    insert_keeps_others(rest, index as int, before[index as int], other);
                }
            }
            assert forall|at: int| index <= at < rest.len() implies comes_before(
                name@,
                (#[trigger] rest[at]).name@,
            ) by {
                if replaces {
                    assert(rest[at] == before[at + 1]);
                } else {
                    order_is_total(before[index as int].name@, name@);
                    order_is_strict(name@, before[index as int].name@, before[at].name@);
                }
            }
        }
        let entry = NamedPreset { name: name.clone(), preset: preset.duplicate() };
        let ghost added = entry;
        entries.insert(index, entry);
        proof {
            assert(entries@ == rest.insert(index as int, added));
            assert forall|at: int| index < at < entries@.len() implies (
            #[trigger] entries@[at]).name@ != name@ by {
                assert(entries@[at] == rest[at - 1]);
                order_is_strict(name@, name@, name@);
            }
            preset_at(entries@, name@, index as int);
            assert forall|other: Seq<char>| other != name@ implies #[trigger] preset_named(
                entries@,
                other,
            ) == preset_named(before, other) by {
                insert_keeps_others(rest, index as int, added, other);
            }
            assert forall|i: int, j: int| 0 <= i < j < entries@.len() implies comes_before(
                (#[trigger] entries@[i]).name@,
                (#[trigger] entries@[j]).name@,
            ) by {
                if i < index && index < j {
                    assert(entries@[i] == before[i] && entries@[j] == rest[j - 1]);
                    order_is_strict(entries@[i].name@, name@, entries@[j].name@);
                } else if j < index {
                    assert(entries@[i] == before[i] && entries@[j] == before[j]);
                } else if i < index {
                    assert(entries@[i] == before[i] && entries@[j] == added);
                } else if i == index {
                    assert(entries@[j] == rest[j - 1]);
                } else {
                    assert(entries@[i] == rest[i - 1] && entries@[j] == rest[j - 1]);
                    if replaces {
                        assert(rest[i - 1] == before[i] && rest[j - 1] == before[j]);
                    }
                }
            }
        }
        PresetFile { entries }
    }
}

proof fn insert_keeps_others(
    entries: Seq<NamedPreset>,
    index: int,
    entry: NamedPreset,
    other: Seq<char>,
)
    requires
        0 <= index <= entries.len(),
        entry.name@ != other,
    ensures
        preset_named(entries.insert(index, entry), other) == preset_named(entries, other),
    decreases entries.len(),
{
    let longer = entries.insert(index, entry);
    if index < entries.len() {
        assert(longer.drop_last() =~= entries.drop_last().insert(index, entry));
        insert_keeps_others(entries.drop_last(), index, entry, other);
    } else {
        assert(longer.drop_last() =~= entries);
    }
}

/// The presets of a file, or none where there is no file.
pub fn load_presets(read: Option<PresetFile>) -> (presets: PresetFile)
    ensures
        match read {
            Some(file) => presets == file,
            None => presets.all().len() == 0,
        },
{
    match read {
        Some(file) => file,
        None => PresetFile::empty(),
    }
}

/// The preset of this name, if it follows the rules.
pub open spec fn loaded(file: PresetFile, name: Seq<char>) -> Result<PresetModel, Seq<char>> {
    match file.named(name) {
        None => Err("preset not found: "@ + name),
        Some(preset) => match preset_defect(name, preset) {
            Some(defect) => Err(defect),
            None => Ok(preset),
        },
    }
}

pub fn load_preset(file: &PresetFile, name: &String) -> (preset: Result<Preset, String>)
    ensures
        match preset {
            Ok(found) => loaded(*file, name@) == Ok::<PresetModel, Seq<char>>(found@),
            Err(error) => loaded(*file, name@) == Err::<PresetModel, Seq<char>>(error@),
        },
{
    match file.get(name) {
        None => {
            let mut message = text_of("preset not found: ");
            message.append(name.as_str());
            Err(message)
        },
        Some(preset) => match validate_preset(name, preset) {
            Ok(_) => Ok(preset.duplicate()),
            Err(error) => Err(error),
        },
    }
}

/// The presets of a file with one more. A preset against the rules changes nothing.
pub fn save_preset(read: Option<PresetFile>, name: &String, preset: &Preset) -> (saved: Result<
    PresetFile,
    String,
>)
    ensures
        match saved {
            Ok(file) => {
                &&& preset_defect(name@, preset@) is None
                &&& ordered_by_name(file.all())
                &&& file.named(name@) == Some(preset@)
                &&& forall|other: Seq<char>|
                    other != name@ ==> #[trigger] file.named(other) == match read {
                        Some(before) => before.named(other),
                        None => None,
                    }
            },
            Err(error) => preset_defect(name@, preset@) == Some(error@),
        },
{
    match validate_preset(name, preset) {
        Ok(_) => {
            let presets = load_presets(read);
            proof {
                if read is None {
                    assert forall|other: Seq<char>| #[trigger] presets.named(other) is None by {
                        no_preset(presets.all(), other);
                    }
                }
            }
            Ok(presets.insert(name, preset))
        },
        Err(error) => Err(error),
    }
}

/// A preset that was saved is what is loaded.
pub proof fn saved_preset_is_loaded(file: PresetFile, name: Seq<char>, preset: PresetModel)
    requires
        preset_defect(name, preset) is None,
        file.named(name) == Some(preset),
    ensures
        loaded(file, name) == Ok::<PresetModel, Seq<char>>(preset),
{
}

/// A preset follows the rules exactly if it has four stratagems, all of them different.
pub proof fn accepted_presets(name: Seq<char>, preset: PresetModel)
    ensures
        preset_defect(name, preset) is None <==> preset.stratagems.len() == 4
            && preset.stratagems.no_duplicates(),
{
}

/// The model has the items of a preset: the same stratagems in the same order, the same booster and
/// the same fallback, or none where the preset has none.
pub open spec fn has_items_of(model: PresetModel, preset: Preset) -> bool {
    &&& model.stratagems.len() == preset.stratagems@.len()
    &&& forall|at: int|
        0 <= at < preset.stratagems@.len() ==> #[trigger] model.stratagems[at]
            == preset.stratagems@[at]@
    &&& model.booster is Some <==> preset.booster is Some
    &&& preset.booster matches Some(booster) ==> model.booster->0 == booster@
    &&& model.fallback_booster is Some <==> preset.fallback_booster is Some
    &&& preset.fallback_booster matches Some(booster) ==> model.fallback_booster->0 == booster@
}

/// A preset is found by its name, with its items, and no other. Of several with one name the last
/// is found.
pub proof fn presets_are_found_by_name(entries: Seq<NamedPreset>, name: Seq<char>)
    ensures
        preset_named(entries, name) is None <==> forall|at: int|
            0 <= at < entries.len() ==> (#[trigger] entries[at]).name@ != name,
        forall|at: int|
            0 <= at < entries.len() && (#[trigger] entries[at]).name@ == name && (forall|later: int|
                at < later < entries.len() ==> (#[trigger] entries[later]).name@ != name) ==> (
            preset_named(entries, name) matches Some(found) && has_items_of(
                found,
                entries[at].preset,
            )),
    decreases entries.len(),
{
    if entries.len() > 0 {
        let front = entries.drop_last();
        let last = entries.len() - 1;
        presets_are_found_by_name(front, name);
        assert(forall|at: int| 0 <= at < front.len() ==> front[at] == entries[at]);
        assert(entries[last] == entries.last());
        assert forall|at: int|
            0 <= at < entries.len() && (#[trigger] entries[at]).name@ == name && (forall|later: int|
                at < later < entries.len() ==> (#[trigger] entries[later]).name@
                    != name) implies preset_named(entries, name) matches Some(found)
            && has_items_of(found, entries[at].preset) by {
            if at < last {
                assert(entries[last].name@ != name);
                assert(front[at].name@ == name);
                assert(forall|later: int|
                    at < later < front.len() ==> (#[trigger] front[later]).name@ == entries[later].name@);
            }
        }
    }
}

proof fn stratagems_are_known(catalog: IconCatalog, items: Seq<Seq<char>>)
    ensures
        stratagems_reason(catalog, items) is None <==> forall|at: int|
            0 <= at < items.len() ==> catalog.entry_of(#[trigger] items[at]) is Some
                && catalog.entry_of(items[at])->0.kind == ItemKind::Stratagem,
    decreases items.len(),
{
    if items.len() > 0 {
        let front = items.drop_last();
        stratagems_are_known(catalog, front);
        assert(forall|at: int| 0 <= at < front.len() ==> front[at] == items[at]);
        assert(items[items.len() - 1] == items.last());
    }
}

/// A preset can be applied just where each of its stratagems is known as a stratagem and its
/// booster, if it has one, as a booster.
pub proof fn known_items_can_be_applied(catalog: IconCatalog, preset: PresetModel)
    ensures
        preset_reason(catalog, preset) is None <==> {
            &&& forall|at: int|
                0 <= at < preset.stratagems.len() ==> catalog.entry_of(
                    #[trigger] preset.stratagems[at],
                ) is Some && catalog.entry_of(preset.stratagems[at])->0.kind == ItemKind::Stratagem
            &&& preset.booster matches Some(booster) ==> catalog.entry_of(booster) is Some
                && catalog.entry_of(booster)->0.kind == ItemKind::Booster
        },
{
    stratagems_are_known(catalog, preset.stratagems);
}

/// What is loaded under a name is the preset that the file holds under it, and it has four different
/// stratagems. Loading fails where there is none, or another number or a repeated one.
pub proof fn loading_finds_the_preset(file: PresetFile, name: Seq<char>, at: int)
    requires
        0 <= at < file.all().len(),
        file.all()[at].name@ == name,
        forall|later: int|
            at < later < file.all().len() ==> (#[trigger] file.all()[later]).name@ != name,
    ensures
        loaded(file, name) is Ok <==> {
            let stratagems = file.all()[at].preset.stratagems@;
            &&& stratagems.len() == 4
            &&& forall|left: int, right: int|
                0 <= left < right < 4 ==> (#[trigger] stratagems[left])@ != (
                #[trigger] stratagems[right])@
        },
        loaded(file, name) matches Ok(found) ==> has_items_of(found, file.all()[at].preset),
{
    presets_are_found_by_name(file.all(), name);
    let found = file.named(name)->0;
    let stratagems = file.all()[at].preset.stratagems@;
    if stratagems.len() == 4 {
        if found.stratagems.no_duplicates() {
            assert forall|left: int, right: int| 0 <= left < right < 4 implies (
            #[trigger] stratagems[left])@ != (#[trigger] stratagems[right])@ by {
                assert(found.stratagems[left] != found.stratagems[right]);
            }
        } else {
            let (left, right) = choose|left: int, right: int|
                0 <= left < found.stratagems.len() && 0 <= right < found.stratagems.len() && left
                    != right && found.stratagems[left] == found.stratagems[right];
            assert(stratagems[left]@ == stratagems[right]@);
        }
    }
}

} // verus!
