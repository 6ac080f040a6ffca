//! What the overlay shows, and for how long.
use vstd::prelude::*;
use vstd::string::*;

use crate::app_events::{AppEvent, OverlayPreset, OverlayPresetStatus, PresetCompletion};
use crate::text::{
    decimal, first_error_line, first_line, push_decimal, text_of, trimmed,
};

verus! {

/// Milliseconds that a finished action stays on the overlay.
pub const DONE_HIDE_DELAY: u64 = 2000;

/// Milliseconds that a problem stays on the overlay.
pub const ATTENTION_HIDE_DELAY: u64 = 5000;

/// Milliseconds that the list of presets stays on the overlay.
pub const READY_HIDE_DELAY: u64 = 2000;

#[derive(Clone, Copy, Debug, PartialEq, Eq, Structural)]
pub enum OverlayTone {
    Info,
    Working,
    Success,
    Warning,
    Error,
}

/// The content of the overlay.
#[derive(Debug)]
pub struct OverlayModel {
    pub presets: Vec<OverlayPreset>,
    pub active_preset: Option<String>,
    pub status: String,
    pub tone: OverlayTone,
    pub selected_count: usize,
    pub requested_count: usize,
}

/// Whether the overlay stays after an event.
#[derive(Clone, Copy, Debug, PartialEq, Eq, Structural)]
pub enum OverlayEventPolicy {
    Hold,
    /// Hide after this many milliseconds.
    HideAfter(u64),
}

#[derive(Clone, Copy, Debug, PartialEq, Eq, Structural)]
pub struct OverlayModelUpdate {
    pub policy: OverlayEventPolicy,
    pub presets_changed: bool,
}

/// `index` is the first row with this name.
pub open spec fn is_row_named(presets: Seq<OverlayPreset>, name: Seq<char>, index: int) -> bool {
    &&& 0 <= index < presets.len()
    &&& presets[index].name@ == name
    &&& forall|earlier: int| 0 <= earlier < index ==> (#[trigger] presets[earlier]).name@ != name
}

/// The event changes nothing that the overlay shows.
pub open spec fn is_ignored(event: AppEvent) -> bool {
    event is ModifiersChanged || event is OverlayMonitorChanged || event is Shutdown
}

/// The rows after an event: a saved preset replaces the contents of its row, a saved fallback
/// booster is added to its row, and a new list replaces all rows.
pub open spec fn next_presets(presets: Seq<OverlayPreset>, event: AppEvent) -> Seq<OverlayPreset> {
    match event {
        AppEvent::PresetListUpdated { presets: list } => list@,
        AppEvent::PresetSaved { preset, stratagems, booster } => if exists|index: int|
            is_row_named(presets, preset@, index) {
            let index = choose|index: int| is_row_named(presets, preset@, index);
            presets.update(
                index,
                OverlayPreset {
                    stratagems,
                    booster,
                    fallback_booster: None,
                    status: OverlayPresetStatus::Ready,
                    ..presets[index]
                },
            )
        } else {
            presets
        },
        AppEvent::PresetDone {
            preset,
            completion: PresetCompletion::FallbackBoosterSaved { path },
        } => if exists|index: int| is_row_named(presets, preset@, index) {
            let index = choose|index: int| is_row_named(presets, preset@, index);
            presets.update(
                index,
                OverlayPreset { fallback_booster: Some(path), ..presets[index] },
            )
        } else {
            presets
        },
        _ => presets,
    }
}

/// The preset that an event is about.
pub open spec fn preset_of(event: AppEvent) -> Option<String> {
    match event {
        AppEvent::PresetStarted { preset } => Some(preset),
        AppEvent::HotkeyReleaseRequested { preset } => Some(preset),
        AppEvent::PresetCancelled { preset, reason } => Some(preset),
        AppEvent::PresetSaved { preset, stratagems, booster } => Some(preset),
        AppEvent::FallbackBoosterRequested { preset } => Some(preset),
        AppEvent::PresetDone { preset, completion } => Some(preset),
        AppEvent::PresetFailed { preset, error } => Some(preset),
        _ => None,
    }
}

/// The highlighted preset after an event.
pub open spec fn next_active(active: Option<String>, event: AppEvent) -> Option<String> {
    if event is PresetListUpdated {
        None
    } else if preset_of(event) is Some {
        preset_of(event)
    } else {
        active
    }
}

/// Selected and requested items after an event.
pub open spec fn next_counts(selected: nat, requested: nat, event: AppEvent) -> (nat, nat) {
    match event {
        AppEvent::PresetListUpdated { presets } => (0, 0),
        AppEvent::PresetStarted { preset } => (0, 0),
        AppEvent::HotkeyReleaseRequested { preset } => (0, 0),
        AppEvent::PresetCancelled { preset, reason } => (0, 0),
        AppEvent::PresetSaved { preset, stratagems, booster } => (0, 0),
        AppEvent::FallbackBoosterRequested { preset } => (0, 0),
        AppEvent::ListSelectionStarted { item_kind, requested_items } => (
            0,
            requested_items as nat,
        ),
        AppEvent::ItemSelected => (selected + 1, requested),
        _ => (selected, requested),
    }
}

/// The status line after an event.
pub open spec fn next_status(
    status: Seq<char>,
    selected: nat,
    requested: nat,
    event: AppEvent,
) -> Seq<char> {
    match event {
        AppEvent::PresetListUpdated { presets } => "Ready"@,
        AppEvent::PresetStarted { preset } => "Starting"@,
        AppEvent::HotkeyReleaseRequested { preset } => "Release all shortcut keys to continue"@,
        AppEvent::PresetCancelled { preset, reason } => "Cancelled: "@ + reason@,
        AppEvent::PresetSaved { preset, stratagems, booster } => "Saved"@,
        AppEvent::UiStateDetected { state } => "Detected UI: "@ + state@,
        AppEvent::ListSelectionStarted { item_kind, requested_items } => "Selecting "@
            + item_kind.spec_label()@ + ": 0/"@ + decimal(requested_items as nat),
        AppEvent::FallbackBoosterRequested { preset } =>
            "Saved Booster is already in use. Select another to save as your fallback, or return to cancel."@,
        AppEvent::ItemSelected => if requested > 0 {
            "Selected "@ + decimal(selected + 1) + "/"@ + decimal(requested)
        } else {
            "Selected "@ + decimal(selected + 1)
        },
        AppEvent::PresetDone { preset, completion } => match completion {
            PresetCompletion::Complete => "Done"@,
            PresetCompletion::BoosterUnavailable => "Booster already in use"@,
            PresetCompletion::FallbackBoosterSaved { path } => "Fallback Booster saved"@,
            PresetCompletion::FallbackBoosterNotSaved => "Fallback Booster not saved"@,
        },
        AppEvent::PresetFailed { preset, error } => "Failed: "@ + trimmed(first_line(error@)),
        _ => status,
    }
}

/// The color of the status line after an event.
pub open spec fn next_tone(tone: OverlayTone, event: AppEvent) -> OverlayTone {
    match event {
        AppEvent::PresetListUpdated { presets } => OverlayTone::Info,
        AppEvent::PresetStarted { preset } => OverlayTone::Working,
        AppEvent::HotkeyReleaseRequested { preset } => OverlayTone::Working,
        AppEvent::PresetCancelled { preset, reason } => OverlayTone::Warning,
        AppEvent::PresetSaved { preset, stratagems, booster } => OverlayTone::Success,
        AppEvent::UiStateDetected { state } => OverlayTone::Working,
        AppEvent::ListSelectionStarted { item_kind, requested_items } => OverlayTone::Working,
        AppEvent::FallbackBoosterRequested { preset } => OverlayTone::Warning,
        AppEvent::ItemSelected => OverlayTone::Working,
        AppEvent::PresetDone { preset, completion } => match completion {
            PresetCompletion::Complete => OverlayTone::Success,
            PresetCompletion::BoosterUnavailable => OverlayTone::Warning,
            PresetCompletion::FallbackBoosterSaved { path } => OverlayTone::Success,
            PresetCompletion::FallbackBoosterNotSaved => OverlayTone::Warning,
        },
        AppEvent::PresetFailed { preset, error } => OverlayTone::Error,
        _ => tone,
    }
}

/// How long the overlay stays after an event: as long as an action is under way, two seconds when
/// all is well, five seconds when something needs attention.
pub open spec fn policy_of(event: AppEvent) -> OverlayEventPolicy {
    match event {
        AppEvent::PresetListUpdated { presets } => OverlayEventPolicy::HideAfter(2000),
        AppEvent::PresetCancelled { preset, reason } => OverlayEventPolicy::HideAfter(5000),
        AppEvent::PresetSaved { preset, stratagems, booster } => OverlayEventPolicy::HideAfter(
            2000,
        ),
        AppEvent::PresetDone { preset, completion } => match completion {
            PresetCompletion::Complete => OverlayEventPolicy::HideAfter(2000),
            PresetCompletion::BoosterUnavailable => OverlayEventPolicy::HideAfter(5000),
            PresetCompletion::FallbackBoosterSaved { path } => OverlayEventPolicy::HideAfter(2000),
            PresetCompletion::FallbackBoosterNotSaved => OverlayEventPolicy::HideAfter(5000),
        },
        AppEvent::PresetFailed { preset, error } => OverlayEventPolicy::HideAfter(5000),
        _ => OverlayEventPolicy::Hold,
    }
}

/// An event may have changed a row.
pub open spec fn changes_presets(event: AppEvent) -> bool {
    match event {
        AppEvent::PresetListUpdated { presets } => true,
        AppEvent::PresetSaved { preset, stratagems, booster } => true,
        AppEvent::PresetDone { preset, completion } => completion is FallbackBoosterSaved,
        _ => false,
    }
}

fn find_row(presets: &Vec<OverlayPreset>, name: &String) -> (found: Option<usize>)
    ensures
        match found {
            Some(index) => is_row_named(presets@, name@, index as int) && (choose|i: int|
                is_row_named(presets@, name@, i)) == index,
            None => forall|index: int| !is_row_named(presets@, name@, index),
        },
{
    let mut index: usize = 0;
    while index < presets.len()
        invariant
            index <= presets@.len(),
            forall|earlier: int|
                0 <= earlier < index ==> (#[trigger] presets@[earlier]).name@ != name@,
        decreases presets@.len() - index,
    {
        if presets[index].name == *name {
            proof {
                assert(is_row_named(presets@, name@, index as int));
                let other = choose|i: int| is_row_named(presets@, name@, i);
                assert(presets@[other].name@ == name@);
                assert(other == index);
            }
            return Some(index);
        }
        index = index + 1;
    }
    None
}

impl OverlayModel {
    pub fn new() -> (model: Self)
        ensures
            model.presets@.len() == 0,
            model.active_preset is None,
            model.status@ == "Waiting for preset hotkey"@,
            model.tone == OverlayTone::Info,
            model.selected_count == 0,
            model.requested_count == 0,
    {
        OverlayModel {
            presets: Vec::new(),
            active_preset: None,
            status: text_of("Waiting for preset hotkey"),
            tone: OverlayTone::Info,
            selected_count: 0,
            requested_count: 0,
        }
    }

    /// Shows that the next preset can be triggered.
    pub fn set_ready(&mut self)
        ensures
            final(self).presets == old(self).presets,
            final(self).active_preset is None,
            final(self).status@ == "Ready"@,
            final(self).tone == OverlayTone::Info,
            final(self).selected_count == 0,
            final(self).requested_count == 0,
    {
        self.active_preset = None;
        self.status = text_of("Ready");
        self.tone = OverlayTone::Info;
        self.selected_count = 0;
        self.requested_count = 0;
    }

    /// Some preset has a fallback booster to show.
    pub open spec fn has_fallback(self) -> bool {
        exists|index: int|
            0 <= index < self.presets@.len() && (
            #[trigger] self.presets@[index]).fallback_booster is Some
    }

    pub fn shows_fallback_booster(&self) -> (shows: bool)
        ensures
            shows == self.has_fallback(),
    {
        let mut index: usize = 0;
        while index < self.presets.len()
            invariant
                index <= self.presets@.len(),
                forall|earlier: int|
                    0 <= earlier < index ==> (
                    #[trigger] self.presets@[earlier]).fallback_booster is None,
            decreases self.presets@.len() - index,
        {
            if self.presets[index].fallback_booster.is_some() {
                return true;
            }
            index = index + 1;
        }
        false
    }

    fn begin(&mut self, preset: String, status: &str, tone: OverlayTone)
        ensures
            final(self).presets == old(self).presets,
            final(self).active_preset == Some(preset),
            final(self).status@ == status@,
            final(self).tone == tone,
            final(self).selected_count == 0,
            final(self).requested_count == 0,
    {
        self.active_preset = Some(preset);
        self.status = text_of(status);
        self.selected_count = 0;
        self.requested_count = 0;
        self.tone = tone;
    }

    /// Takes an event into the model. Nothing is returned for an event that shows nothing.
    pub fn apply(&mut self, event: AppEvent) -> (update: Option<OverlayModelUpdate>)
        requires
            event is ItemSelected ==> old(self).selected_count < usize::MAX,
        ensures
            update == if is_ignored(event) {
                None
            } else {
                Some(
                    OverlayModelUpdate {
                        policy: policy_of(event),
                        presets_changed: changes_presets(event),
                    },
                )
            },
            final(self).presets@ == next_presets(old(self).presets@, event),
            match (final(self).active_preset, next_active(old(self).active_preset, event)) {
                (Some(shown), Some(expected)) => shown@ == expected@,
                (None, None) => true,
                _ => false,
            },
            ({
                let counts = next_counts(
                    old(self).selected_count as nat,
                    old(self).requested_count as nat,
                    event,
                );
                final(self).selected_count == counts.0 && final(self).requested_count == counts.1
            }),
            final(self).status@ == next_status(
                old(self).status@,
                old(self).selected_count as nat,
                old(self).requested_count as nat,
                event,
            ),
            final(self).tone == next_tone(old(self).tone, event),
    {
        let ghost before = self.presets@;
        let (policy, presets_changed) = match event {
            AppEvent::ModifiersChanged(_)
            | AppEvent::OverlayMonitorChanged(_)
            | AppEvent::Shutdown => return None,
            AppEvent::PresetListUpdated { presets } => {
                self.presets = presets;
                self.set_ready();
                (OverlayEventPolicy::HideAfter(READY_HIDE_DELAY), true)
            },
            AppEvent::PresetStarted { preset } => {
                self.begin(preset, "Starting", OverlayTone::Working);
                (OverlayEventPolicy::Hold, false)
            },
            AppEvent::HotkeyReleaseRequested { preset } => {
                self.begin(preset, "Release all shortcut keys to continue", OverlayTone::Working);
                (OverlayEventPolicy::Hold, false)
            },
            AppEvent::PresetCancelled { preset, reason } => {
                self.begin(preset, "Cancelled: ", OverlayTone::Warning);
                self.status.append(reason.as_str());
                (OverlayEventPolicy::HideAfter(ATTENTION_HIDE_DELAY), false)
            },
            AppEvent::PresetSaved { preset, stratagems, booster } => {
                if let Some(index) = find_row(&self.presets, &preset) {
                    let mut row = self.presets.remove(index);
                    row.stratagems = stratagems;
                    row.booster = booster;
                    row.fallback_booster = None;
                    row.status = OverlayPresetStatus::Ready;
                    self.presets.insert(index, row);
                    assert(self.presets@ =~= before.update(index as int, row));
                }
                self.begin(preset, "Saved", OverlayTone::Success);
                (OverlayEventPolicy::HideAfter(DONE_HIDE_DELAY), true)
            },
            AppEvent::UiStateDetected { state } => {
                self.status = text_of("Detected UI: ");
                self.status.append(state);
                self.tone = OverlayTone::Working;
                (OverlayEventPolicy::Hold, false)
            },
            AppEvent::ListSelectionStarted { item_kind, requested_items } => {
                self.selected_count = 0;
                self.requested_count = requested_items;
                self.status = text_of("Selecting ");
                self.status.append(item_kind.label());
                self.status.append(": 0/");
                push_decimal(&mut self.status, requested_items as u64);
                self.tone = OverlayTone::Working;
                (OverlayEventPolicy::Hold, false)
            },
            AppEvent::FallbackBoosterRequested { preset } => {
                self.begin(
                    preset,
                    "Saved Booster is already in use. Select another to save as your fallback, or return to cancel.",
                    OverlayTone::Warning,
                );
                (OverlayEventPolicy::Hold, false)
            },
            AppEvent::ItemSelected => {
                self.selected_count = self.selected_count + 1;
                self.status = text_of("Selected ");
                push_decimal(&mut self.status, self.selected_count as u64);
                if self.requested_count > 0 {
                    self.status.append("/");
                    push_decimal(&mut self.status, self.requested_count as u64);
                }
                self.tone = OverlayTone::Working;
                (OverlayEventPolicy::Hold, false)
            },
            AppEvent::PresetDone { preset, completion } => {
                let outcome = match completion {
                    PresetCompletion::Complete => {
                        self.status = text_of("Done");
                        self.tone = OverlayTone::Success;
                        (OverlayEventPolicy::HideAfter(DONE_HIDE_DELAY), false)
                    },
                    PresetCompletion::BoosterUnavailable => {
                        self.status = text_of("Booster already in use");
                        self.tone = OverlayTone::Warning;
                        (OverlayEventPolicy::HideAfter(ATTENTION_HIDE_DELAY), false)
                    },
                    PresetCompletion::FallbackBoosterSaved { path } => {
                        if let Some(index) = find_row(&self.presets, &preset) {
                            let mut row = self.presets.remove(index);
                            row.fallback_booster = Some(path);
                            self.presets.insert(index, row);
                            assert(self.presets@ =~= before.update(index as int, row));
                        }
                        self.status = text_of("Fallback Booster saved");
                        self.tone = OverlayTone::Success;
                        (OverlayEventPolicy::HideAfter(DONE_HIDE_DELAY), true)
                    },
                    PresetCompletion::FallbackBoosterNotSaved => {
                        self.status = text_of("Fallback Booster not saved");
                        self.tone = OverlayTone::Warning;
                        (OverlayEventPolicy::HideAfter(ATTENTION_HIDE_DELAY), false)
                    },
                };
                self.active_preset = Some(preset);
                outcome
            },
            AppEvent::PresetFailed { preset, error } => {
                self.status = text_of("Failed: ");
                self.status.append(first_error_line(error.as_str()));
                self.active_preset = Some(preset);
                self.tone = OverlayTone::Error;
                (OverlayEventPolicy::HideAfter(ATTENTION_HIDE_DELAY), false)
            },
        };
        Some(OverlayModelUpdate { policy, presets_changed })
    }
}

/// An event about one preset leaves the rows of all other presets as they were.
pub proof fn other_rows_are_kept(presets: Seq<OverlayPreset>, event: AppEvent, index: int)
    requires
        0 <= index < presets.len(),
        !(event is PresetListUpdated),
        preset_of(event) matches Some(preset) ==> presets[index].name@ != preset@,
    ensures
        next_presets(presets, event).len() == presets.len(),
        next_presets(presets, event)[index] == presets[index],
{
}

/// No event but a new list renames, reorders, adds or removes a row.
pub proof fn row_names_are_kept(presets: Seq<OverlayPreset>, event: AppEvent, index: int)
    requires
        0 <= index < presets.len(),
        !(event is PresetListUpdated),
    ensures
        next_presets(presets, event).len() == presets.len(),
        next_presets(presets, event)[index].name == presets[index].name,
        next_presets(presets, event)[index].key_label == presets[index].key_label,
        next_presets(presets, event)[index].label == presets[index].label,
{
}

/// A saved preset is shown as ready, with what was saved and without a fallback booster.
pub proof fn saved_preset_is_ready(
    presets: Seq<OverlayPreset>,
    preset: String,
    stratagems: Vec<String>,
    booster: Option<String>,
    index: int,
)
    requires
        is_row_named(presets, preset@, index),
    ensures
        ({
            let row = next_presets(
                presets,
                AppEvent::PresetSaved { preset, stratagems, booster },
            )[index];
            &&& row.status is Ready
            &&& row.stratagems == stratagems
            &&& row.booster == booster
            &&& row.fallback_booster is None
        }),
{
    let other = choose|i: int| is_row_named(presets, preset@, i);
    assert(presets[other].name@ == preset@);
    assert(presets[index].name@ == preset@);
}

/// How long the overlay stays goes by its color: it stays while there is work, for two seconds when
/// all is well, and for five when something needs attention. Only a request to choose a fallback
/// booster stays without work, until the user has chosen.
pub proof fn the_tone_decides_how_long(tone: OverlayTone, event: AppEvent)
    requires
        !is_ignored(event),
    ensures
        policy_of(event) is Hold <==> next_tone(tone, event) == OverlayTone::Working
            || event is FallbackBoosterRequested,
        policy_of(event) == OverlayEventPolicy::HideAfter(2000) <==> next_tone(tone, event)
            == OverlayTone::Success || next_tone(tone, event) == OverlayTone::Info,
        policy_of(event) == OverlayEventPolicy::HideAfter(5000) <==> next_tone(tone, event)
            == OverlayTone::Error || (next_tone(tone, event) == OverlayTone::Warning
            && !(event is FallbackBoosterRequested)),
        next_tone(tone, event) == OverlayTone::Error <==> event is PresetFailed,
        next_tone(tone, event) == OverlayTone::Info <==> event is PresetListUpdated,
        event is PresetSaved ==> next_tone(tone, event) == OverlayTone::Success,
        event is PresetCancelled || event is FallbackBoosterRequested ==> next_tone(tone, event)
            == OverlayTone::Warning,
        event matches AppEvent::PresetDone { preset, completion } ==> (next_tone(tone, event)
            == OverlayTone::Success <==> completion is Complete
            || completion is FallbackBoosterSaved) && next_tone(tone, event)
            != OverlayTone::Working,
{
}

/// An event that shows nothing changes nothing, and one that is said to change no row changes none.
pub proof fn quiet_events_change_nothing(
    presets: Seq<OverlayPreset>,
    active: Option<String>,
    status: Seq<char>,
    tone: OverlayTone,
    selected: nat,
    requested: nat,
    event: AppEvent,
)
    ensures
        is_ignored(event) ==> {
            &&& next_presets(presets, event) == presets
            &&& next_active(active, event) == active
            &&& next_status(status, selected, requested, event) == status
            &&& next_tone(tone, event) == tone
            &&& next_counts(selected, requested, event) == (selected, requested)
        },
        !changes_presets(event) ==> next_presets(presets, event) == presets,
        is_ignored(event) ==> !changes_presets(event) && policy_of(event) is Hold,
{
}

/// The preset that an event names is highlighted. A new list highlights none, and an event that
/// names none leaves the highlight where it was.
pub proof fn named_presets_are_highlighted(active: Option<String>, event: AppEvent)
    ensures
        event matches AppEvent::PresetStarted { preset } ==> next_active(active, event) == Some(
            preset,
        ),
        event matches AppEvent::HotkeyReleaseRequested { preset } ==> next_active(active, event)
            == Some(preset),
        event matches AppEvent::PresetCancelled { preset, reason } ==> next_active(active, event)
            == Some(preset),
        event matches AppEvent::PresetSaved { preset, stratagems, booster } ==> next_active(
            active,
            event,
        ) == Some(preset),
        event matches AppEvent::FallbackBoosterRequested { preset } ==> next_active(active, event)
            == Some(preset),
        event matches AppEvent::PresetDone { preset, completion } ==> next_active(active, event)
            == Some(preset),
        event matches AppEvent::PresetFailed { preset, error } ==> next_active(active, event)
            == Some(preset),
        event is PresetListUpdated ==> next_active(active, event) is None,
        event is UiStateDetected || event is ListSelectionStarted || event is ItemSelected
            ==> next_active(active, event) == active,
{
}

/// A list starts with nothing selected and the number of requested items; each selected item counts
/// one, and the status line tells the count after it. The end of an action keeps the counts.
pub proof fn selected_items_are_counted(
    status: Seq<char>,
    selected: nat,
    requested: nat,
    event: AppEvent,
)
    ensures
        event matches AppEvent::ListSelectionStarted { item_kind, requested_items } ==> next_counts(
            selected,
            requested,
            event,
        ) == (0nat, requested_items as nat),
        event is ItemSelected ==> next_counts(selected, requested, event) == (
            (selected + 1) as nat,
            requested,
        ),
        event is ItemSelected && requested > 0 ==> next_status(status, selected, requested, event)
            == "Selected "@ + decimal(next_counts(selected, requested, event).0) + "/"@ + decimal(
            next_counts(selected, requested, event).1,
        ),
        event is PresetDone || event is PresetFailed || event is UiStateDetected ==> next_counts(
            selected,
            requested,
            event,
        ) == (selected, requested),
        event is PresetStarted || event is PresetListUpdated || event is PresetCancelled
            || event is PresetSaved ==> next_counts(selected, requested, event) == (0nat, 0nat),
{
}

/// A saved fallback booster is shown in the row of its preset, and all else of the row stays.
pub proof fn fallback_boosters_are_added(
    presets: Seq<OverlayPreset>,
    preset: String,
    path: String,
    index: int,
)
    requires
        is_row_named(presets, preset@, index),
    ensures
        ({
            let event = AppEvent::PresetDone {
                preset,
                completion: PresetCompletion::FallbackBoosterSaved { path },
            };
            let row = next_presets(presets, event)[index];
            &&& row.fallback_booster == Some(path)
            &&& row.stratagems == presets[index].stratagems
            &&& row.booster == presets[index].booster
            &&& row.status == presets[index].status
            &&& row.name == presets[index].name
            &&& changes_presets(event)
        }),
{
    let event = AppEvent::PresetDone {
        preset,
        completion: PresetCompletion::FallbackBoosterSaved { path },
    };
    let found = choose|found: int| is_row_named(presets, preset@, found);
    assert(is_row_named(presets, preset@, found));
    assert(found == index) by {
        if found < index {
            assert(presets[found].name@ != preset@);
        } else if index < found {
            assert(presets[index].name@ != preset@);
        }
    }
}

} // verus!
