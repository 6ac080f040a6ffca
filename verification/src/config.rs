//! The configuration file: its settings, their rules and how a setting is saved.
use toml_edit::DocumentMut;
use vstd::prelude::*;
use vstd::string::*;

use crate::input::{HotkeyModifier, Key};
use crate::text::{
    chars_of, decimal, has_control, is_control_char, number_of, numerals_name_their_number,
    push_decimal, text_of,
};

verus! {

pub const MAX_PRESET_HOTKEYS: usize = 12;

/// The text that names a preset in `presets.labels`, and the label.
#[derive(Debug)]
pub struct PresetLabel {
    pub preset: String,
    pub label: String,
}

#[derive(Debug)]
pub struct PresetsConfig {
    /// Where an earlier version kept the presets.
    pub legacy_path: Option<String>,
    pub apply_in_saved_order: bool,
    pub auto_ready_up: bool,
    pub save_fallback_when_taken: bool,
    /// In the order of the preset names.
    pub labels: Vec<PresetLabel>,
}

#[derive(Debug)]
pub struct HotkeyConfig {
    pub modifiers: Vec<HotkeyModifier>,
    pub keys: Vec<Key>,
}

#[derive(Clone, Copy, Debug, PartialEq, Eq, Structural)]
pub struct OverlaySettings {
    pub enabled: bool,
}

#[derive(Debug)]
pub struct AppConfig {
    pub presets: PresetsConfig,
    pub hotkey: HotkeyConfig,
    pub overlay: OverlaySettings,
}

pub open spec fn default_modifiers() -> Seq<HotkeyModifier> {
    seq![HotkeyModifier::Ctrl, HotkeyModifier::Shift]
}

pub open spec fn default_keys() -> Seq<Key> {
    seq![Key::F7, Key::F8, Key::F9, Key::F10, Key::F11, Key::F12]
}

impl PresetsConfig {
    /// All settings but the path have their default.
    pub open spec fn has_defaults(&self) -> bool {
        !self.apply_in_saved_order && !self.auto_ready_up && !self.save_fallback_when_taken
            && self.labels@.len() == 0
    }
}

impl Default for PresetsConfig {
    fn default() -> (config: Self)
        ensures
            config.legacy_path is None,
            config.has_defaults(),
    {
        PresetsConfig {
            legacy_path: None,
            apply_in_saved_order: false,
            auto_ready_up: false,
            save_fallback_when_taken: false,
            labels: Vec::new(),
        }
    }
}

impl Default for HotkeyConfig {
    fn default() -> (config: Self)
        ensures
            config.modifiers@ == default_modifiers(),
            config.keys@ == default_keys(),
    {
        HotkeyConfig {
            modifiers: vec![HotkeyModifier::Ctrl, HotkeyModifier::Shift],
            keys: vec![Key::F7, Key::F8, Key::F9, Key::F10, Key::F11, Key::F12],
        }
    }
}

impl Default for OverlaySettings {
    fn default() -> (settings: Self)
        ensures
            settings.enabled,
    {
        OverlaySettings { enabled: true }
    }
}

impl AppConfig {
    /// All settings but the path of the presets have their default.
    pub open spec fn has_defaults(&self) -> bool {
        self.presets.has_defaults() && self.hotkey.modifiers@ == default_modifiers()
            && self.hotkey.keys@ == default_keys() && self.overlay.enabled
    }
}

impl Default for AppConfig {
    fn default() -> (config: Self)
        ensures
            config.presets.legacy_path is None,
            config.has_defaults(),
    {
        AppConfig {
            presets: PresetsConfig::default(),
            hotkey: HotkeyConfig::default(),
            overlay: OverlaySettings::default(),
        }
    }
}

pub open spec fn is_separator(character: char) -> bool {
    character == '/' || character == '\\'
}

/// The text between separators.
pub open spec fn pieces(path: Seq<char>) -> Seq<Seq<char>>
    decreases path.len(),
{
    if path.len() == 0 {
        seq![Seq::empty()]
    } else {
        let before = pieces(path.drop_last());
        if is_separator(path.last()) {
            before.push(Seq::empty())
        } else {
            before.update(before.len() - 1, before.last().push(path.last()))
        }
    }
}

/// The first `count` pieces without those that name nothing: empty ones, and single dots except
/// at the start.
pub open spec fn components(pieces: Seq<Seq<char>>, count: int) -> Seq<Seq<char>>
    decreases count,
{
    if count <= 0 {
        Seq::empty()
    } else {
        let before = components(pieces, count - 1);
        let piece = pieces[count - 1];
        if piece.len() == 0 || (piece == seq!['.'] && count > 1) {
            before
        } else {
            before.push(piece)
        }
    }
}

/// The relative path has these components.
pub open spec fn has_components(path: Seq<char>, names: Seq<Seq<char>>) -> bool {
    &&& path.len() == 0 || !is_separator(path[0])
    &&& components(pieces(path), pieces(path).len() as int) == names
}

/// Where the presets were once kept by default.
pub open spec fn is_legacy_default(path: Seq<char>) -> bool {
    has_components(path, seq!["data"@, "presets.json"@])
}

proof fn pieces_is_not_empty(path: Seq<char>)
    ensures
        pieces(path).len() > 0,
    decreases path.len(),
{
    if path.len() > 0 {
        pieces_is_not_empty(path.drop_last());
    }
}

/// The views of texts.
pub open spec fn texts(parts: Seq<Vec<char>>) -> Seq<Seq<char>> {
    parts.map_values(|part: Vec<char>| part@)
}

fn split_path(path: &Vec<char>) -> (parts: Vec<Vec<char>>)
    ensures
        texts(parts@) == pieces(path@),
        parts@.len() > 0,
{
    let mut parts: Vec<Vec<char>> = Vec::new();
    parts.push(Vec::new());
    let mut index: usize = 0;
    assert(texts(parts@) =~= pieces(path@.take(0)));
    while index < path.len()
        invariant
            index <= path@.len(),
            parts@.len() > 0,
            texts(parts@) == pieces(path@.take(index as int)),
        decreases path@.len() - index,
    {
        let character = path[index];
        let ghost before = parts@;
        assert(path@.take(index + 1).drop_last() =~= path@.take(index as int));
        if character == '/' || character == '\\' {
            parts.push(Vec::new());
            assert(texts(parts@) =~= texts(before).push(Seq::empty()));
        } else {
            let mut last = match parts.pop() {
                Some(last) => last,
                None => Vec::new(),
            };
            last.push(character);
            parts.push(last);
            assert(texts(parts@) =~= texts(before).update(
                before.len() - 1,
                texts(before).last().push(character),
            ));
        }
        index = index + 1;
    }
    assert(path@.take(path@.len() as int) =~= path@);
    parts
}

fn same_text(left: &Vec<char>, right: &Vec<char>) -> (same: bool)
    ensures
        same == (left@ == right@),
{
    if left.len() != right.len() {
        return false;
    }
    let mut index: usize = 0;
    while index < left.len()
        invariant
            left@.len() == right@.len(),
            index <= left@.len(),
            forall|at: int| 0 <= at < index ==> left@[at] == right@[at],
        decreases left@.len() - index,
    {
        if left[index] != right[index] {
            return false;
        }
        index = index + 1;
    }
    assert(left@ =~= right@);
    true
}

/// The path names the place where the presets were once kept by default.
fn names_legacy_default(path: &String) -> (same: bool)
    ensures
        same == is_legacy_default(path@),
{
    let chars = chars_of(path.as_str());
    if chars.len() > 0 && (chars[0] == '/' || chars[0] == '\\') {
        return false;
    }
    let directory = chars_of("data");
    let file = chars_of("presets.json");
    let parts = split_path(&chars);
    let ghost all = pieces(path@);
    let ghost names = seq!["data"@, "presets.json"@];
    let mut matched: usize = 0;
    let mut index: usize = 0;
    while index < parts.len()
        invariant
            all == pieces(path@),
            texts(parts@) == all,
            index <= parts@.len(),
            matched <= 2,
            names == seq!["data"@, "presets.json"@],
            directory@ == "data"@,
            file@ == "presets.json"@,
            components(all, index as int) == names.take(matched as int),
        decreases parts@.len() - index,
    {
        let part = &parts[index];
        assert(texts(parts@)[index as int] == part@);
        let dot = part.len() == 1 && part[0] == '.';
        assert(dot == (part@ == seq!['.'])) by {
            if dot {
                assert(part@ =~= seq!['.']);
            }
        }
        if part.len() == 0 || (dot && index > 0) {
            index = index + 1;
            continue;
        }
        let fits = (matched == 0 && same_text(part, &directory)) || (matched == 1 && same_text(
            part,
            &file,
        ));
        let ghost seen = components(all, index + 1);
        assert(seen == names.take(matched as int).push(part@));
        if !fits {
            proof {
                components_grow(all, index + 1, all.len() as int);
                let last = components(all, all.len() as int);
                assert(seen[matched as int] == part@);
                assert(last.take(seen.len() as int)[matched as int] == last[matched as int]);
                assert(last.len() > matched);
                assert(last != names);
            }
            return false;
        }
        assert(seen =~= names.take(matched + 1));
        matched = matched + 1;
        index = index + 1;
    }
    assert(matched == 2 ==> names.take(2) =~= names);
    matched == 2
}

proof fn components_grow(pieces: Seq<Seq<char>>, fewer: int, more: int)
    requires
        0 <= fewer <= more,
    ensures
        components(pieces, fewer).len() <= components(pieces, more).len(),
        components(pieces, more).take(components(pieces, fewer).len() as int) == components(
            pieces,
            fewer,
        ),
    decreases more,
{
    let start = components(pieces, fewer);
    if fewer < more {
        components_grow(pieces, fewer, more - 1);
        let before = components(pieces, more - 1);
        let after = components(pieces, more);
        assert(after.take(start.len() as int) =~= before.take(start.len() as int));
    } else {
        assert(start.take(start.len() as int) =~= start);
    }
}

/// What happens to a configuration that still says where an earlier version kept the presets.
#[derive(Clone, Copy, Debug, PartialEq, Eq, Structural)]
pub enum ConfigResetAction {
    /// The configuration stays.
    Keep,
    /// The configuration is replaced by the default.
    Silent,
    /// The configuration is replaced by the default, and the user is told.
    Notify,
}

pub open spec fn reset_action(config: AppConfig) -> ConfigResetAction {
    match config.presets.legacy_path {
        None => ConfigResetAction::Keep,
        Some(path) => if is_legacy_default(path@) && config.has_defaults() {
            ConfigResetAction::Silent
        } else {
            ConfigResetAction::Notify
        },
    }
}

fn is_default_but_path(config: &AppConfig) -> (same: bool)
    ensures
        same == config.has_defaults(),
{
    let modifiers = &config.hotkey.modifiers;
    let keys = &config.hotkey.keys;
    let plain = !config.presets.apply_in_saved_order && !config.presets.auto_ready_up
        && !config.presets.save_fallback_when_taken && config.presets.labels.len() == 0;
    let same_modifiers = modifiers.len() == 2 && modifiers[0] == HotkeyModifier::Ctrl
        && modifiers[1] == HotkeyModifier::Shift;
    let same_keys = keys.len() == 6 && keys[0] == Key::F7 && keys[1] == Key::F8 && keys[2]
        == Key::F9 && keys[3] == Key::F10 && keys[4] == Key::F11 && keys[5] == Key::F12;
    assert(same_modifiers ==> modifiers@ =~= default_modifiers());
    assert(same_keys ==> keys@ =~= default_keys());
    plain && same_modifiers && same_keys && config.overlay.enabled
}

pub fn config_reset_action(config: &AppConfig) -> (action: ConfigResetAction)
    ensures
        action == reset_action(*config),
{
    match &config.presets.legacy_path {
        None => ConfigResetAction::Keep,
        Some(path) => if names_legacy_default(path) && is_default_but_path(config) {
            ConfigResetAction::Silent
        } else {
            ConfigResetAction::Notify
        },
    }
}

/// Why a configuration is rejected.
#[derive(Debug)]
pub enum ConfigError {
    /// There are no hotkeys, or too many.
    KeyCount { count: usize },
    /// A hotkey is not on the function row.
    NotFunctionKey { key: Key },
    /// A label is not that of a preset.
    UnknownLabel { preset: String },
    /// A label has control characters.
    ControlCharacter { preset: String },
}

/// Why these hotkeys are rejected.
pub open spec fn keys_error(keys: Seq<Key>, error: ConfigError) -> bool {
    match error {
        ConfigError::KeyCount { count } => count == keys.len() && !(1 <= keys.len() <= 12),
        ConfigError::NotFunctionKey { key } => 1 <= keys.len() <= 12 && exists|at: int|
            {
                &&& 0 <= at < keys.len()
                &&& #[trigger] keys[at] == key
                &&& !key.on_function_row()
                &&& forall|earlier: int|
                    0 <= earlier < at ==> (#[trigger] keys[earlier]).on_function_row()
            },
        _ => false,
    }
}

pub open spec fn keys_accepted(keys: Seq<Key>) -> bool {
    1 <= keys.len() <= 12 && forall|at: int|
        0 <= at < keys.len() ==> (#[trigger] keys[at]).on_function_row()
}

pub fn validate_hotkey_keys(keys: &Vec<Key>) -> (result: Result<(), ConfigError>)
    ensures
        match result {
            Ok(_) => keys_accepted(keys@),
            Err(error) => keys_error(keys@, error) && !keys_accepted(keys@),
        },
{
    if keys.len() == 0 || keys.len() > MAX_PRESET_HOTKEYS {
        return Err(ConfigError::KeyCount { count: keys.len() });
    }
    let mut index: usize = 0;
    while index < keys.len()
        invariant
            index <= keys@.len(),
            1 <= keys@.len() <= 12,
            forall|at: int| 0 <= at < index ==> (#[trigger] keys@[at]).on_function_row(),
        decreases keys@.len() - index,
    {
        if !keys[index].is_function_key() {
            return Err(ConfigError::NotFunctionKey { key: keys[index] });
        }
        index = index + 1;
    }
    Ok(())
}

/// The name of the preset at `index`, counted from zero.
pub open spec fn preset_name(index: int) -> Seq<char> {
    "preset_"@ + decimal((index + 1) as nat)
}

/// The text names one of the presets that a hotkey can have.
pub open spec fn is_preset_name(text: Seq<char>) -> bool {
    exists|index: int| 0 <= index < 12 && text == #[trigger] preset_name(index)
}

pub fn name_preset(index: usize) -> (name: String)
    requires
        index < u32::MAX,
    ensures
        name@ == preset_name(index as int),
{
    let mut name = text_of("preset_");
    push_decimal(&mut name, index as u64 + 1);
    name
}

fn names_preset(text: &String) -> (named: bool)
    ensures
        named == is_preset_name(text@),
{
    let mut index: usize = 0;
    while index < MAX_PRESET_HOTKEYS
        invariant
            index <= 12,
            forall|earlier: int| 0 <= earlier < index ==> text@ != #[trigger] preset_name(earlier),
        decreases 12 - index,
    {
        if *text == name_preset(index) {
            assert(text@ == preset_name(index as int));
            return true;
        }
        index = index + 1;
    }
    false
}

pub open spec fn text_has_control(text: Seq<char>) -> bool {
    exists|at: int| 0 <= at < text.len() && is_control_char(#[trigger] text[at])
}

pub open spec fn label_accepted(label: PresetLabel) -> bool {
    is_preset_name(label.preset@) && !text_has_control(label.label@)
}

/// Why a label is rejected.
pub open spec fn label_error(label: PresetLabel, error: ConfigError) -> bool {
    match error {
        ConfigError::UnknownLabel { preset } => !is_preset_name(label.preset@) && preset@
            == label.preset@,
        ConfigError::ControlCharacter { preset } => is_preset_name(label.preset@)
            && text_has_control(label.label@) && preset@ == label.preset@,
        _ => false,
    }
}

pub open spec fn labels_accepted(labels: Seq<PresetLabel>, count: int) -> bool {
    forall|at: int| 0 <= at < count ==> label_accepted(#[trigger] labels[at])
}

/// The error is that of the first label that is rejected.
pub open spec fn labels_error(labels: Seq<PresetLabel>, error: ConfigError) -> bool {
    exists|at: int|
        0 <= at < labels.len() && labels_accepted(labels, at) && label_error(
            #[trigger] labels[at],
            error,
        )
}

pub fn validate_preset_labels(labels: &Vec<PresetLabel>) -> (result: Result<(), ConfigError>)
    ensures
        match result {
            Ok(_) => labels_accepted(labels@, labels@.len() as int),
            Err(error) => labels_error(labels@, error) && !labels_accepted(
                labels@,
                labels@.len() as int,
            ),
        },
{
    let mut index: usize = 0;
    while index < labels.len()
        invariant
            index <= labels@.len(),
            labels_accepted(labels@, index as int),
        decreases labels@.len() - index,
    {
        let entry = &labels[index];
        if !names_preset(&entry.preset) {
            assert(!label_accepted(labels@[index as int]));
            return Err(ConfigError::UnknownLabel { preset: entry.preset.clone() });
        }
        if has_control(entry.label.as_str()) {
            assert(!label_accepted(labels@[index as int]));
            return Err(ConfigError::ControlCharacter { preset: entry.preset.clone() });
        }
        index = index + 1;
    }
    Ok(())
}

/// A configuration that was read, and whether its file is to be replaced by the default.
#[derive(Debug)]
pub struct LoadedConfig {
    pub reset: ConfigResetAction,
    /// The configuration that holds, and whether the user is told of the reset.
    pub outcome: Result<(AppConfig, bool), ConfigError>,
}

pub open spec fn config_accepted(config: AppConfig) -> bool {
    keys_accepted(config.hotkey.keys@) && labels_accepted(
        config.presets.labels@,
        config.presets.labels@.len() as int,
    )
}

/// Decides which configuration holds, given what the file says and the default.
pub fn load_app_config(read: AppConfig, default: AppConfig) -> (loaded: LoadedConfig)
    ensures
        loaded.reset == reset_action(read),
        ({
            let config = if loaded.reset == ConfigResetAction::Keep {
                read
            } else {
                default
            };
            match loaded.outcome {
                Ok((accepted, notify)) => accepted == config && config_accepted(config) && notify
                    == (loaded.reset == ConfigResetAction::Notify),
                Err(error) => if !keys_accepted(config.hotkey.keys@) {
                    keys_error(config.hotkey.keys@, error)
                } else {
                    !config_accepted(config) && labels_error(config.presets.labels@, error)
                },
            }
        }),
{
    let reset = config_reset_action(&read);
    let config = if reset == ConfigResetAction::Keep {
        read
    } else {
        default
    };
    if let Err(error) = validate_hotkey_keys(&config.hotkey.keys) {
        return LoadedConfig { reset, outcome: Err(error) };
    }
    if let Err(error) = validate_preset_labels(&config.presets.labels) {
        return LoadedConfig { reset, outcome: Err(error) };
    }
    LoadedConfig { reset, outcome: Ok((config, reset == ConfigResetAction::Notify)) }
}

/// An editable document of the `toml_edit` crate.
#[verifier::external_type_specification]
#[verifier::external_body]
pub struct ExDocumentMut(DocumentMut);

/// The error of the `toml_edit` crate's parser.
#[verifier::external_type_specification]
#[verifier::external_body]
pub struct ExTomlError(toml_edit::TomlError);

/// A setting of a table: what the document holds under its key, and its value if that is a boolean.
/// The text is the key and the item as they are written, with the white space and the comments that
/// the document keeps with them.
pub struct SettingEntry {
    pub text: Seq<char>,
    pub flag: Option<bool>,
}

/// An item at the top of a document: what the document holds under its key, written as that of a
/// setting, and its settings if the item is a table or an inline table.
pub struct TopEntry {
    pub text: Seq<char>,
    pub settings: Option<Map<Seq<char>, SettingEntry>>,
}

/// What a document holds: the items at its top by their keys, as far as there is an item for a key.
/// The settings of a table are the keys for which the table hands out an item.
pub uninterp spec fn document_tables(document: DocumentMut) -> Map<Seq<char>, TopEntry>;

/// The text of a document.
pub uninterp spec fn document_text(document: DocumentMut) -> Seq<char>;

/// What the document holds that `toml_edit` parses from a text, if it accepts the text.
pub uninterp spec fn parsed_tables(text: Seq<char>) -> Option<Map<Seq<char>, TopEntry>>;

/// Parses with the `FromStr` of `toml_edit::DocumentMut`. The claim is that whether a text is
/// accepted, and what the document holds, depends on the text alone.
#[verifier::external_body]
fn parse_document(text: &str) -> (document: Result<DocumentMut, toml_edit::TomlError>)
    ensures
        match document {
            Ok(parsed) => parsed_tables(text@) == Some(document_tables(parsed)),
            Err(_) => parsed_tables(text@) is None,
        },
{
    text.parse::<DocumentMut>()
}

/// Asks `Table::get` of the top of a document for an item.
#[verifier::external_body]
fn has_item(document: &DocumentMut, key: &str) -> (found: bool)
    ensures
        found == document_tables(*document).contains_key(key@),
{
    document.get(key).is_some()
}

/// Asks `Item::as_table_like` whether an item is a table or an inline table.
#[verifier::external_body]
fn is_table(document: &DocumentMut, key: &str) -> (table: bool)
    requires
        document_tables(*document).contains_key(key@),
    ensures
        table == document_tables(*document)[key@].settings is Some,
{
    document[key].as_table_like().is_some()
}

/// Asks `TableLike::get` for a setting of a table.
#[verifier::external_body]
fn has_setting(document: &DocumentMut, table: &str, key: &str) -> (found: bool)
    requires
        document_tables(*document).contains_key(table@),
        document_tables(*document)[table@].settings is Some,
    ensures
        found == document_tables(*document)[table@].settings->0.contains_key(key@),
{
    document[table].as_table_like().expect("a table").get(key).is_some()
}

/// Assigns a copy of an item of another document through the `IndexMut` of `DocumentMut`. The copy
/// has the settings of the item, with all that is kept with them; what is written around its key
/// is left unsaid. The other items of the document stay as they are.
#[verifier::external_body]
fn copy_item(document: &mut DocumentMut, source: &DocumentMut, key: &str)
    requires
        document_tables(*source).contains_key(key@),
    ensures
        document_tables(*final(document)).contains_key(key@),
        document_tables(*final(document))[key@].settings == document_tables(
            *source,
        )[key@].settings,
        document_tables(*final(document)).remove(key@) == document_tables(*old(document)).remove(
            key@,
        ),
{
    document[key] = source[key].clone();
}

/// A setting of a table got a boolean. Its other settings, and the other items of the document,
/// stay as they are written.
pub open spec fn sets_flag(
    before: Map<Seq<char>, TopEntry>,
    after: Map<Seq<char>, TopEntry>,
    table: Seq<char>,
    key: Seq<char>,
    value: bool,
) -> bool {
    &&& after.contains_key(table)
    &&& after[table].settings is Some
    &&& after[table].settings->0.contains_key(key)
    &&& after[table].settings->0[key].flag == Some(value)
    &&& after[table].settings->0.remove(key) == before[table].settings->0.remove(key)
    &&& after.remove(table) == before.remove(table)
}

/// Replaces the item that `TableLike::get_mut` hands out by `toml_edit::value` of a boolean. No
/// other item is touched.
#[verifier::external_body]
fn replace_setting(document: &mut DocumentMut, table: &str, key: &str, value: bool)
    requires
        document_tables(*old(document)).contains_key(table@),
        document_tables(*old(document))[table@].settings is Some,
        document_tables(*old(document))[table@].settings->0.contains_key(key@),
    ensures
        sets_flag(
            document_tables(*old(document)),
            document_tables(*final(document)),
            table@,
            key@,
            value,
        ),
{
    let settings = document[table].as_table_like_mut().expect("a table");
    *settings.get_mut(key).expect("a setting") = toml_edit::value(value);
}

/// Adds `toml_edit::value` of a boolean through `TableLike::entry_format`, under the key that the
/// same table of another document hands out for its own setting. No other item is touched.
#[verifier::external_body]
fn add_setting(
    document: &mut DocumentMut,
    source: &DocumentMut,
    table: &str,
    key: &str,
    value: bool,
)
    requires
        document_tables(*old(document)).contains_key(table@),
        document_tables(*old(document))[table@].settings is Some,
        document_tables(*source).contains_key(table@),
        document_tables(*source)[table@].settings is Some,
        document_tables(*source)[table@].settings->0.contains_key(key@),
    ensures
        sets_flag(
            document_tables(*old(document)),
            document_tables(*final(document)),
            table@,
            key@,
            value,
        ),
{
    let format = source[table].as_table_like().expect("a table").key(key).expect("a setting");
    let settings = document[table].as_table_like_mut().expect("a table");
    *settings.entry_format(format).or_insert(toml_edit::Item::None) = toml_edit::value(value);
}

/// Writes a document with its `Display`. The claim is that the text depends on the document
/// alone. Which text it is, and what the parser makes of it, is left unsaid.
#[verifier::external_body]
fn render_document(document: &DocumentMut) -> (text: String)
    ensures
        text@ == document_text(*document),
{
    document.to_string()
}

/// Why a setting is not saved.
#[derive(Clone, Copy, Debug, PartialEq, Eq, Structural)]
pub enum SettingError {
    /// The configuration cannot be parsed.
    Config,
    /// The default configuration cannot be parsed.
    Defaults,
    /// The default configuration has no table of preset settings.
    DefaultsNotTable,
    /// There is no such setting.
    UnknownSetting,
    /// The preset settings of the configuration are not a table.
    NotTable,
}

/// Why a preset setting is not saved, given what the configuration and the default hold, or
/// nothing.
pub open spec fn save_error(
    tables: Option<Map<Seq<char>, TopEntry>>,
    defaults: Option<Map<Seq<char>, TopEntry>>,
    key: Seq<char>,
) -> Option<SettingError> {
    match (tables, defaults) {
        (None, _) => Some(SettingError::Config),
        (Some(_), None) => Some(SettingError::Defaults),
        (Some(tables), Some(defaults)) => if !defaults.contains_key("presets"@)
            || defaults["presets"@].settings is None {
            Some(SettingError::DefaultsNotTable)
        } else if !defaults["presets"@].settings->0.contains_key(key) {
            Some(SettingError::UnknownSetting)
        } else if tables.contains_key("presets"@) && tables["presets"@].settings is None {
            Some(SettingError::NotTable)
        } else {
            None
        },
    }
}

/// The preset settings that a change starts from: those of the default where the configuration has
/// none.
pub open spec fn preset_settings(
    tables: Map<Seq<char>, TopEntry>,
    defaults: Map<Seq<char>, TopEntry>,
) -> Map<Seq<char>, SettingEntry> {
    if tables.contains_key("presets"@) {
        tables["presets"@].settings->0
    } else {
        defaults["presets"@].settings->0
    }
}

/// A preset setting was saved: it has the value, the other preset settings are those that the
/// change started from, and all else stays as it is written.
pub open spec fn is_saved(
    tables: Map<Seq<char>, TopEntry>,
    defaults: Map<Seq<char>, TopEntry>,
    saved: Map<Seq<char>, TopEntry>,
    key: Seq<char>,
    value: bool,
) -> bool {
    &&& saved.contains_key("presets"@)
    &&& saved["presets"@].settings is Some
    &&& saved["presets"@].settings->0.contains_key(key)
    &&& saved["presets"@].settings->0[key].flag == Some(value)
    &&& saved["presets"@].settings->0.remove(key) == preset_settings(tables, defaults).remove(key)
    &&& saved.remove("presets"@) == tables.remove("presets"@)
}

/// Puts a preset setting into a document, with the default document at hand. A document that does
/// not get the setting keeps its items, but may have got the preset settings of the default.
pub fn put_preset_setting(
    document: &mut DocumentMut,
    defaults: &DocumentMut,
    key: &str,
    value: bool,
) -> (result: Result<(), SettingError>)
    ensures
        ({
            let before = document_tables(*old(document));
            let after = document_tables(*final(document));
            let error = save_error(Some(before), Some(document_tables(*defaults)), key@);
            match result {
                Ok(_) => error is None && is_saved(
                    before,
                    document_tables(*defaults),
                    after,
                    key@,
                    value,
                ),
                Err(reason) => {
                    &&& error == Some(reason)
                    &&& after.remove("presets"@) == before.remove("presets"@)
                    &&& before.contains_key("presets"@) || reason
                        == SettingError::DefaultsNotTable ==> after == before
                },
            }
        }),
{
    let table = "presets";
    if !has_item(defaults, table) || !is_table(defaults, table) {
        return Err(SettingError::DefaultsNotTable);
    }
    if !has_item(document, table) {
        copy_item(document, defaults, table);
    }
    if !has_setting(defaults, table, key) {
        return Err(SettingError::UnknownSetting);
    }
    if !is_table(document, table) {
        return Err(SettingError::NotTable);
    }
    if has_setting(document, table, key) {
        replace_setting(document, table, key, value);
    } else {
        add_setting(document, defaults, table, key, value);
    }
    Ok(())
}

/// The text of the configuration with a preset setting changed.
pub fn save_preset_setting(text: &str, default_text: &str, key: &str, value: bool) -> (saved:
    Result<String, SettingError>)
    ensures
        ({
            let tables = parsed_tables(text@);
            let defaults = parsed_tables(default_text@);
            match saved {
                Ok(changed) => save_error(tables, defaults, key@) is None && exists|
                    document: DocumentMut,
                |
                    changed@ == #[trigger] document_text(document) && is_saved(
                        tables->0,
                        defaults->0,
                        document_tables(document),
                        key@,
                        value,
                    ),
                Err(error) => save_error(tables, defaults, key@) == Some(error),
            }
        }),
{
    let mut document = match parse_document(text) {
        Ok(document) => document,
        Err(_) => return Err(SettingError::Config),
    };
    let defaults = match parse_document(default_text) {
        Ok(defaults) => defaults,
        Err(_) => return Err(SettingError::Defaults),
    };
    match put_preset_setting(&mut document, &defaults, key, value) {
        Ok(_) => Ok(render_document(&document)),
        Err(error) => Err(error),
    }
}

/// Saving a setting changes that setting of the presets and nothing else: every other setting, and
/// every other item of the configuration, keeps its value, its comments and its layout. The one
/// exception is a configuration without preset settings, which gets those of the default.
pub proof fn saving_changes_one_setting(
    tables: Map<Seq<char>, TopEntry>,
    defaults: Map<Seq<char>, TopEntry>,
    saved: Map<Seq<char>, TopEntry>,
    key: Seq<char>,
    value: bool,
    other: Seq<char>,
)
    requires
        save_error(Some(tables), Some(defaults), key) is None,
        is_saved(tables, defaults, saved, key, value),
    ensures
        ({
            let before = preset_settings(tables, defaults);
            let after = saved["presets"@].settings->0;
            &&& saved["presets"@].settings is Some
            &&& after.contains_key(key) && after[key].flag == Some(value)
            &&& other != key ==> after.contains_key(other) == before.contains_key(other)
            &&& other != key && before.contains_key(other) ==> after[other] == before[other]
            &&& other != "presets"@ ==> saved.contains_key(other) == tables.contains_key(other)
            &&& other != "presets"@ && tables.contains_key(other) ==> saved[other] == tables[other]
        }),
{
    let before = preset_settings(tables, defaults);
    let after = saved["presets"@].settings->0;
    if other != key {
        assert(after.remove(key).contains_key(other) == after.contains_key(other));
        assert(before.remove(key).contains_key(other) == before.contains_key(other));
        if before.contains_key(other) {
            assert(after.remove(key)[other] == after[other]);
            assert(before.remove(key)[other] == before[other]);
        }
    }
    if other != "presets"@ {
        assert(saved.remove("presets"@).contains_key(other) == saved.contains_key(other));
        assert(tables.remove("presets"@).contains_key(other) == tables.contains_key(other));
        if tables.contains_key(other) {
            assert(saved.remove("presets"@)[other] == saved[other]);
            assert(tables.remove("presets"@)[other] == tables[other]);
        }
    }
}

/// Of two saved values of a setting the later one holds: the configuration is one that saving only
/// the later one may give.
pub proof fn later_setting_wins(
    tables: Map<Seq<char>, TopEntry>,
    defaults: Map<Seq<char>, TopEntry>,
    once: Map<Seq<char>, TopEntry>,
    twice: Map<Seq<char>, TopEntry>,
    key: Seq<char>,
    earlier: bool,
    later: bool,
)
    requires
        save_error(Some(tables), Some(defaults), key) is None,
        is_saved(tables, defaults, once, key, earlier),
        is_saved(once, defaults, twice, key, later),
    ensures
        save_error(Some(once), Some(defaults), key) is None,
        is_saved(tables, defaults, twice, key, later),
{
}

/// A default configuration is accepted and never reset.
pub proof fn default_config_is_accepted(config: AppConfig)
    requires
        config.presets.legacy_path is None,
        config.has_defaults(),
    ensures
        config_accepted(config),
        reset_action(config) == ConfigResetAction::Keep,
{
}

/// Names are parted by separators, and by either kind: what stands behind the last one is a piece of
/// its own. A name that is not empty and not a single dot is a component.
pub proof fn separators_part_names(path: Seq<char>, separator: char, name: Seq<char>)
    requires
        separator == '/' || separator == '\\',
        forall|at: int| 0 <= at < name.len() ==> #[trigger] name[at] != '/' && name[at] != '\\',
    ensures
        pieces(path.push(separator) + name) == pieces(path).push(name),
        pieces(name) == seq![name],
        ({
            let all = pieces(path.push(separator) + name);
            let before = components(pieces(path), pieces(path).len() as int);
            components(all, all.len() as int) == if name.len() == 0 || name == seq!['.'] {
                before
            } else {
                before.push(name)
            }
        }),
    decreases name.len(),
{
    let joined = path.push(separator) + name;
    if name.len() == 0 {
        assert(joined =~= path.push(separator));
        assert(joined.drop_last() =~= path);
        assert(name =~= Seq::<char>::empty());
        assert(pieces(name) =~= seq![name]);
    } else {
        let front = name.drop_last();
        assert forall|at: int| 0 <= at < front.len() implies #[trigger] front[at] != '/'
            && front[at] != '\\' by {
            assert(front[at] == name[at]);
        }
        separators_part_names(path, separator, front);
        assert(joined.drop_last() =~= path.push(separator) + front);
        assert(joined.last() == name.last());
        assert(name[name.len() - 1] != '/');
        let before = pieces(path).push(front);
        assert(before.last() == front);
        assert(front.push(name.last()) =~= name);
        assert(before.update(before.len() - 1, name) =~= pieces(path).push(name));
        assert(seq![front].update(0, name) =~= seq![name]);
    }
    pieces_is_not_empty(path);
    let all = pieces(path).push(name);
    components_of_the_start(pieces(path), all, pieces(path).len() as int);
}

proof fn components_of_the_start(some: Seq<Seq<char>>, all: Seq<Seq<char>>, count: int)
    requires
        0 <= count <= some.len() <= all.len(),
        forall|at: int| 0 <= at < some.len() ==> some[at] == all[at],
    ensures
        components(some, count) == components(all, count),
    decreases count,
{
    if count > 0 {
        components_of_the_start(some, all, count - 1);
    }
}

/// The presets were once kept in data by the name of presets.json, whichever separators part the
/// two, and however many.
pub proof fn legacy_paths_are_known(first: char, second: char)
    requires
        first == '/' || first == '\\',
        second == '/' || second == '\\',
    ensures
        is_legacy_default("data"@.push(first) + "presets.json"@),
        is_legacy_default("data"@.push(first).push(second) + "presets.json"@),
        !is_legacy_default("data"@.push(first) + "presets.json"@.push('x')),
        !is_legacy_default("presets.json"@),
{
    reveal_strlit("data");
    reveal_strlit("presets.json");
    let (folder, file) = ("data"@, "presets.json"@);
    let no_folder = Seq::<char>::empty();
    assert(forall|at: int| 0 <= at < folder.len() ==> #[trigger] folder[at] != '/' && folder[at]
        != '\\');
    assert(forall|at: int| 0 <= at < file.len() ==> #[trigger] file[at] != '/' && file[at] != '\\');
    separators_part_names(no_folder, first, folder);
    separators_part_names(no_folder, first, file);
    separators_part_names(no_folder, first, file.push('x'));
    let names = seq![folder, file];
    reveal_with_fuel(components, 3);
    assert(components(seq![folder], 1) =~= seq![folder]);
    separators_part_names(folder, first, file);
    assert(components(pieces(folder), 1).push(file) =~= names);
    separators_part_names(folder, first, no_folder);
    assert(folder.push(first) + no_folder =~= folder.push(first));
    separators_part_names(folder.push(first), second, file);
    separators_part_names(folder, first, file.push('x'));
    let one = folder.push(first) + file;
    let two = folder.push(first).push(second) + file;
    assert(one[0] == 'd' && two[0] == 'd');
    let other = folder.push(first) + file.push('x');
    let found = components(pieces(other), pieces(other).len() as int);
    assert(found[1] == file.push('x'));
    assert(names[1].len() != file.push('x').len());
    assert(components(seq![file], 1) =~= seq![file]);
    assert(seq![file].len() != names.len());
}

/// A configuration is kept just where it does not say where an earlier version kept the presets. It
/// is replaced without a word only where nothing in it was changed.
pub proof fn changed_settings_are_not_dropped_silently(config: AppConfig)
    ensures
        reset_action(config) == ConfigResetAction::Keep <==> config.presets.legacy_path is None,
        reset_action(config) == ConfigResetAction::Silent ==> {
            &&& config.presets.legacy_path is Some
            &&& !config.presets.apply_in_saved_order
            &&& !config.presets.auto_ready_up
            &&& !config.presets.save_fallback_when_taken
            &&& config.presets.labels@.len() == 0
            &&& config.overlay.enabled
            &&& config.hotkey.modifiers@ =~= seq![HotkeyModifier::Ctrl, HotkeyModifier::Shift]
            &&& config.hotkey.keys@.len() == 6
            &&& forall|at: int|
                0 <= at < 6 ==> (#[trigger] config.hotkey.keys@[at]).on_function_row()
                    && config.hotkey.keys@[at].number() == Some(7 + at)
        },
{
}

/// The keys of a configuration are accepted or there is something wrong with them: their number, or
/// the first one that is no function key.
pub proof fn function_keys_are_accepted(keys: Seq<Key>, error: ConfigError)
    ensures
        keys_accepted(keys) ==> !keys_error(keys, error),
        keys_error(keys, error) && error is KeyCount <==> error is KeyCount && error->count
            == keys.len() && (keys.len() == 0 || keys.len() > 12),
        keys_error(keys, error) ==> error is KeyCount || error is NotFunctionKey,
        error matches ConfigError::NotFunctionKey { key } ==> (keys_error(keys, error) ==> keys.contains(
            key,
        ) && (key.is_digit() || key.is_numpad() || key.number() is None)),
        keys_accepted(default_keys()),
{
    if keys_error(keys, error) && error is NotFunctionKey {
        let at = choose|at: int|
            {
                &&& 0 <= at < keys.len()
                &&& #[trigger] keys[at] == error->key
                &&& !error->key.on_function_row()
                &&& forall|earlier: int|
                    0 <= earlier < at ==> (#[trigger] keys[earlier]).on_function_row()
            };
        assert(!keys[at].on_function_row());
    }
}

/// Each preset has a name of its own, and the first twelve of them can have a label.
pub proof fn presets_have_names_of_their_own(left: int, right: int)
    requires
        0 <= left,
        0 <= right,
    ensures
        preset_name(left) == preset_name(right) ==> left == right,
        is_preset_name(preset_name(left)) <==> left < 12,
        preset_name(left).take(7) == "preset_"@,
        number_of(preset_name(left).skip(7)) == left + 1,
{
    name_ends_with_its_number(left);
    name_ends_with_its_number(right);
    if is_preset_name(preset_name(left)) {
        let index = choose|index: int| 0 <= index < 12 && preset_name(left) == #[trigger] preset_name(
            index,
        );
        name_ends_with_its_number(index);
    }
}

proof fn name_ends_with_its_number(index: int)
    requires
        0 <= index,
    ensures
        preset_name(index).take(7) == "preset_"@,
        number_of(preset_name(index).skip(7)) == index + 1,
{
    reveal_strlit("preset_");
    numerals_name_their_number((index + 1) as nat);
    assert(preset_name(index).take(7) =~= "preset_"@);
    assert(preset_name(index).skip(7) =~= decimal((index + 1) as nat));
}

/// Labels are accepted or one of them is rejected: for naming no preset, or for a control character.
pub proof fn labels_are_accepted_or_rejected(labels: Seq<PresetLabel>, error: ConfigError)
    ensures
        labels_accepted(labels, labels.len() as int) ==> !labels_error(labels, error),
        labels_error(labels, error) ==> exists|at: int|
            0 <= at < labels.len() && {
                let label = #[trigger] labels[at];
                match error {
                    ConfigError::UnknownLabel { preset } => preset@ == label.preset@
                        && !is_preset_name(preset@),
                    ConfigError::ControlCharacter { preset } => preset@ == label.preset@ && exists|
                        place: int,
                    |
                        0 <= place < label.label@.len() && is_control_char(
                            #[trigger] label.label@[place],
                        ),
                    _ => false,
                }
            },
{
    if labels_error(labels, error) {
        let at = choose|at: int|
            0 <= at < labels.len() && labels_accepted(labels, at) && label_error(
                #[trigger] labels[at],
                error,
            );
        assert(!label_accepted(labels[at]));
    }
}

/// A setting can be saved just where both configurations can be read, the default one has the
/// setting, and the preset settings of the other are a table or missing.
pub proof fn known_settings_can_be_saved(
    tables: Option<Map<Seq<char>, TopEntry>>,
    defaults: Option<Map<Seq<char>, TopEntry>>,
    key: Seq<char>,
)
    ensures
        save_error(tables, defaults, key) is None <==> {
            let preset = "presets"@;
            &&& tables is Some && defaults is Some
            &&& defaults->0.contains_key(preset) && defaults->0[preset].settings is Some
            &&& defaults->0[preset].settings->0.contains_key(key)
            &&& tables->0.contains_key(preset) ==> tables->0[preset].settings is Some
        },
        tables is None ==> save_error(tables, defaults, key) == Some(SettingError::Config),
        tables is Some && defaults is None ==> save_error(tables, defaults, key) == Some(
            SettingError::Defaults,
        ),
        save_error(tables, defaults, key) == Some(SettingError::UnknownSetting) ==> defaults is Some
            && !defaults->0["presets"@].settings->0.contains_key(key),
        save_error(tables, defaults, key) == Some(SettingError::NotTable) ==> tables is Some
            && tables->0["presets"@].settings is None,
{
}

/// From one to twelve function keys are accepted, and nothing else.
pub proof fn one_to_twelve_keys_are_accepted(keys: Seq<Key>)
    ensures
        keys_accepted(keys) <==> 1 <= keys.len() <= 12 && forall|at: int|
            0 <= at < keys.len() ==> (#[trigger] keys[at]).number() is Some && !keys[at].is_digit()
                && !keys[at].is_numpad(),
{
    if 1 <= keys.len() <= 12 && forall|at: int|
        0 <= at < keys.len() ==> (#[trigger] keys[at]).number() is Some && !keys[at].is_digit()
            && !keys[at].is_numpad() {
        assert forall|at: int| 0 <= at < keys.len() implies (#[trigger] keys[at]).on_function_row() by {
            assert(keys[at].number() is Some);
        }
    }
}

} // verus!
