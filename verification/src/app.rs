//! The application between hotkeys, tray, overlay and action worker.
use vstd::prelude::*;
use vstd::string::*;

use crate::app_events::{AppCommand, AppEvent, OverlayPreset, OverlayPresetStatus};
use crate::assets::IconCatalog;
use crate::config::{name_preset, preset_name, presets_have_names_of_their_own, PresetLabel};
use crate::input::{HotkeyModifiers, HotkeySpec, Key};
use crate::preset_action::PresetActionOptions;
use crate::presets::{
    copy_optional, copy_texts, invalid_preset_reason, optional_text, preset_defect, preset_reason,
    texts, validate_preset, Preset, PresetFile, PresetModel,
};
use crate::text::{number_of, text_of, trim, trimmed};
use crate::tray::{is_event_of, starts_with, TrayEvent, MONITOR_ITEM_PREFIX};
use crate::worker::Work;

verus! {

/// Milliseconds between two looks at what happened.
pub const EVENT_POLL_INTERVAL: u64 = 10;

/// Milliseconds that the user has for releasing a hotkey.
pub const HOTKEY_RELEASE_TIMEOUT: u64 = 5000;

/// Milliseconds after an action in which hotkeys are ignored.
pub const ACTION_COOLDOWN: u64 = 200;

/// A hotkey and the preset that it saves or applies.
#[derive(Debug)]
pub struct PresetHotkeyBinding {
    pub hotkey: HotkeySpec,
    pub preset: String,
}

/// The binding of the hotkey at `index`.
pub open spec fn is_binding(
    binding: PresetHotkeyBinding,
    modifiers: HotkeyModifiers,
    key: Key,
    index: int,
) -> bool {
    &&& binding.hotkey.id == 1001 + index
    &&& binding.hotkey.modifiers == modifiers
    &&& binding.hotkey.key == key
    &&& binding.preset@ == preset_name(index)
}

/// Binds the presets to hotkeys, in the order of the keys.
pub fn preset_hotkeys(modifiers: HotkeyModifiers, keys: &Vec<Key>) -> (bindings: Vec<
    PresetHotkeyBinding,
>)
    requires
        keys@.len() <= 0x7fff_0000,
    ensures
        bindings@.len() == keys@.len(),
        forall|index: int|
            0 <= index < keys@.len() ==> is_binding(
                #[trigger] bindings@[index],
                modifiers,
                keys@[index],
                index,
            ),
{
    let mut bindings: Vec<PresetHotkeyBinding> = Vec::new();
    let mut index: usize = 0;
    while index < keys.len()
        invariant
            index <= keys@.len() <= 0x7fff_0000,
            bindings@.len() == index,
            forall|done: int|
                0 <= done < index ==> is_binding(
                    #[trigger] bindings@[done],
                    modifiers,
                    keys@[done],
                    done,
                ),
        decreases keys@.len() - index,
    {
        bindings.push(
            PresetHotkeyBinding {
                hotkey: HotkeySpec { id: 1001 + index as i32, modifiers, key: keys[index] },
                preset: name_preset(index),
            },
        );
        index = index + 1;
    }
    bindings
}

/// Whether an action is on its way.
#[derive(Debug)]
pub enum ActionState {
    Idle,
    /// The hotkey has to be released by the deadline.
    Waiting { hotkey_id: i32, preset: String, deadline: u64 },
    Running,
}

/// What is to be done.
#[derive(Debug)]
pub enum AppEffect {
    Send(Work),
    Emit(AppEvent),
    EnableHotkeys(bool),
    UpdateTray(PresetActionOptions),
    /// Keep a setting in the configuration file.
    SaveSetting { key: &'static str, value: bool },
}

/// A hotkey that no preset has.
#[derive(Clone, Copy, Debug, PartialEq, Eq, Structural)]
pub struct UnknownHotkey {
    pub id: i32,
}

/// How the application goes on.
#[derive(Debug)]
pub enum AppStep {
    Continue,
    Exit,
}

/// The state of the application.
#[derive(Debug)]
pub struct AppController {
    bindings: Vec<PresetHotkeyBinding>,
    settings: PresetActionOptions,
    state: ActionState,
    modifier_down: bool,
    prewarm_requested: bool,
    exiting: bool,
    ready_after: u64,
}

/// The state of the application, as values.
pub struct AppModel {
    pub bindings: Seq<PresetHotkeyBinding>,
    pub settings: PresetActionOptions,
    pub state: ActionState,
    pub modifier_down: bool,
    pub prewarm_requested: bool,
    pub exiting: bool,
    pub ready_after: u64,
}

/// The first binding of this hotkey.
pub open spec fn is_bound(bindings: Seq<PresetHotkeyBinding>, id: i32, index: int) -> bool {
    &&& 0 <= index < bindings.len()
    &&& bindings[index].hotkey.id == id
    &&& forall|earlier: int|
        0 <= earlier < index ==> (#[trigger] bindings[earlier]).hotkey.id != id
}

/// A hotkey counts.
pub open spec fn accepts_hotkey(model: AppModel, now: u64) -> bool {
    !model.exiting && model.state is Idle && now >= model.ready_after
}

/// The setting that a command changes, and its key.
pub open spec fn toggled(settings: PresetActionOptions, command: AppCommand) -> Option<
    (PresetActionOptions, Seq<char>, bool),
> {
    match command {
        AppCommand::ToggleApplyInSavedOrder => Some(
            (
                PresetActionOptions {
                    apply_in_saved_order: !settings.apply_in_saved_order,
                    ..settings
                },
                "apply_in_saved_order"@,
                !settings.apply_in_saved_order,
            ),
        ),
        AppCommand::ToggleAutoReadyUp => Some(
            (
                PresetActionOptions { auto_ready_up: !settings.auto_ready_up, ..settings },
                "auto_ready_up"@,
                !settings.auto_ready_up,
            ),
        ),
        AppCommand::ToggleSaveFallbackWhenTaken => Some(
            (
                PresetActionOptions {
                    save_fallback_when_taken: !settings.save_fallback_when_taken,
                    ..settings
                },
                "save_fallback_when_taken"@,
                !settings.save_fallback_when_taken,
            ),
        ),
        _ => None,
    }
}

/// A hotkey starts the wait for its release.
pub open spec fn starts_waiting(
    before: AppModel,
    id: i32,
    now: u64,
    after: AppModel,
    effects: Seq<AppEffect>,
) -> bool {
    exists|index: int| #[trigger]
        is_bound(before.bindings, id, index) && {
            let name = before.bindings[index].preset@;
            &&& effects.len() == 2
            &&& effects[0] == AppEffect::Send(Work::Prepare)
            &&& effects[1] matches AppEffect::Emit(AppEvent::HotkeyReleaseRequested { preset })
                && preset@ == name
            &&& after.state matches ActionState::Waiting { hotkey_id, preset, deadline }
                && hotkey_id == id && preset@ == name && deadline == now + 5000
            &&& after == (AppModel { state: after.state, ..before })
        }
}

/// What a command does.
pub open spec fn commanded(
    before: AppModel,
    command: AppCommand,
    now: u64,
    after: AppModel,
    effects: Seq<AppEffect>,
) -> bool {
    match command {
        AppCommand::PresetTriggered(id) => if accepts_hotkey(before, now) {
            starts_waiting(before, id, now, after, effects)
        } else {
            after == before && effects.len() == 0
        },
        AppCommand::ModifiersChanged(down) => {
            &&& after == (AppModel { modifier_down: down, ..before })
            &&& effects == seq![AppEffect::Emit(AppEvent::ModifiersChanged(down))]
        },
        AppCommand::Exit => if before.state is Waiting {
            &&& after == (AppModel { exiting: true, state: ActionState::Idle, ..before })
            &&& effects == seq![AppEffect::EnableHotkeys(false), AppEffect::Send(Work::Discard)]
        } else {
            &&& after == (AppModel { exiting: true, ..before })
            &&& effects == seq![AppEffect::EnableHotkeys(false)]
        },
        _ => match toggled(before.settings, command) {
            Some((settings, key, value)) => {
                &&& after == (AppModel { settings, ..before })
                &&& effects.len() == 2
                &&& effects[0] == AppEffect::UpdateTray(settings)
                &&& effects[1] matches AppEffect::SaveSetting { key: saved, value: kept } && saved@
                    == key && kept == value
            },
            None => after == before && effects.len() == 0,
        },
    }
}

/// What the end of the wait for the release of a hotkey does.
pub open spec fn waited(
    before: AppModel,
    enabled: bool,
    released: bool,
    now: u64,
    after: AppModel,
    effects: Seq<AppEffect>,
) -> bool {
    match before.state {
        ActionState::Waiting { hotkey_id, preset, deadline } => if enabled && released {
            &&& after == (AppModel { state: ActionState::Running, ..before })
            &&& effects.len() == 1
            &&& effects[0] matches AppEffect::Send(Work::Run { preset: run, settings }) && run@
                == preset@ && settings == before.settings
        } else if !enabled || now >= deadline {
            &&& after == (AppModel {
                state: ActionState::Idle,
                ready_after: (now + 200) as u64,
                ..before
            })
            &&& effects.len() == 2
            &&& effects[0] matches AppEffect::Emit(
                AppEvent::PresetCancelled { preset: cancelled, reason },
            ) && cancelled@ == preset@ && reason@ == if enabled {
                "hotkey was not released in time"@
            } else {
                "game lost focus"@
            }
            &&& effects[1] == AppEffect::Send(Work::Discard)
        } else {
            after == before && effects.len() == 0
        },
        _ => after == before && effects.len() == 0,
    }
}

/// What a menu item asks for.
pub open spec fn command_of(event: TrayEvent) -> AppCommand {
    match event {
        TrayEvent::ToggleApplyInSavedOrder => AppCommand::ToggleApplyInSavedOrder,
        TrayEvent::ToggleAutoReadyUp => AppCommand::ToggleAutoReadyUp,
        TrayEvent::ToggleSaveFallbackWhenTaken => AppCommand::ToggleSaveFallbackWhenTaken,
        TrayEvent::SetOverlayMonitor(id) => AppCommand::SetOverlayMonitor(id),
        TrayEvent::ExitRequested => AppCommand::Exit,
    }
}

pub fn tray_command(event: TrayEvent) -> (command: AppCommand)
    ensures
        command == command_of(event),
{
    match event {
        TrayEvent::ToggleApplyInSavedOrder => AppCommand::ToggleApplyInSavedOrder,
        TrayEvent::ToggleAutoReadyUp => AppCommand::ToggleAutoReadyUp,
        TrayEvent::ToggleSaveFallbackWhenTaken => AppCommand::ToggleSaveFallbackWhenTaken,
        TrayEvent::SetOverlayMonitor(id) => AppCommand::SetOverlayMonitor(id),
        TrayEvent::ExitRequested => AppCommand::Exit,
    }
}

impl AppController {
    pub closed spec fn model(&self) -> AppModel {
        AppModel {
            bindings: self.bindings@,
            settings: self.settings,
            state: self.state,
            modifier_down: self.modifier_down,
            prewarm_requested: self.prewarm_requested,
            exiting: self.exiting,
            ready_after: self.ready_after,
        }
    }

    /// An idle application. Hotkeys count at once.
    pub fn new(bindings: Vec<PresetHotkeyBinding>, settings: PresetActionOptions, now: u64) -> (app:
        Self)
        ensures
            app.model() == (AppModel {
                bindings: bindings@,
                settings,
                state: ActionState::Idle,
                modifier_down: false,
                prewarm_requested: false,
                exiting: false,
                ready_after: now,
            }),
    {
        AppController {
            bindings,
            settings,
            state: ActionState::Idle,
            modifier_down: false,
            prewarm_requested: false,
            exiting: false,
            ready_after: now,
        }
    }

    /// Hotkeys are to be registered, given whether the game has the focus.
    pub fn hotkeys_enabled(&self, game_foreground: bool) -> (enabled: bool)
        ensures
            enabled == (!self.model().exiting && game_foreground),
    {
        !self.exiting && game_foreground
    }

    /// The modifiers changed since the last command about them.
    pub fn modifiers_changed(&self, down: bool) -> (changed: bool)
        ensures
            changed == (down != self.model().modifier_down),
    {
        down != self.modifier_down
    }

    /// The hotkey that has to be released.
    pub fn awaited_hotkey(&self) -> (id: Option<i32>)
        ensures
            id == match self.model().state {
                ActionState::Waiting { hotkey_id, .. } => Some(hotkey_id),
                _ => None,
            },
    {
        match &self.state {
            ActionState::Waiting { hotkey_id, .. } => Some(*hotkey_id),
            _ => None,
        }
    }

    fn trigger(&mut self, id: i32, now: u64) -> (effects: Result<Vec<AppEffect>, UnknownHotkey>)
        requires
            now <= u64::MAX - 5000,
        ensures
            match effects {
                Ok(done) => commanded(
                    old(self).model(),
                    AppCommand::PresetTriggered(id),
                    now,
                    final(self).model(),
                    done@,
                ),
                Err(error) => {
                    &&& error.id == id
                    &&& accepts_hotkey(old(self).model(), now)
                    &&& forall|index: int|
                        0 <= index < old(self).model().bindings.len() ==> (
                        #[trigger] old(self).model().bindings[index]).hotkey.id != id
                    &&& final(self).model() == old(self).model()
                },
            },
    {
        let idle = match &self.state {
            ActionState::Idle => true,
            _ => false,
        };
        if self.exiting || !idle || now < self.ready_after {
            return Ok(Vec::new());
        }
        let mut index: usize = 0;
        while index < self.bindings.len() && self.bindings[index].hotkey.id != id
            invariant
                self.model() == old(self).model(),
                index <= self.bindings@.len(),
                forall|earlier: int|
                    0 <= earlier < index ==> (#[trigger] self.bindings@[earlier]).hotkey.id != id,
            decreases self.bindings@.len() - index,
        {
            index = index + 1;
        }
        if index == self.bindings.len() {
            return Err(UnknownHotkey { id });
        }
        assert(is_bound(old(self).model().bindings, id, index as int));
        let preset = self.bindings[index].preset.clone();
        let mut effects: Vec<AppEffect> = Vec::new();
        effects.push(AppEffect::Send(Work::Prepare));
        effects.push(AppEffect::Emit(AppEvent::HotkeyReleaseRequested { preset: preset.clone() }));
        self.state =
        ActionState::Waiting { hotkey_id: id, preset, deadline: now + HOTKEY_RELEASE_TIMEOUT };
        Ok(effects)
    }

    /// Carries out a command. Choosing the monitor of the overlay is not one for the controller.
    pub fn command(&mut self, command: AppCommand, now: u64) -> (effects: Result<
        Vec<AppEffect>,
        UnknownHotkey,
    >)
        requires
            now <= u64::MAX - 5000,
            command !is SetOverlayMonitor,
        ensures
            match effects {
                Ok(done) => commanded(
                    old(self).model(),
                    command,
                    now,
                    final(self).model(),
                    done@,
                ),
                Err(error) => {
                    &&& command == AppCommand::PresetTriggered(error.id)
                    &&& accepts_hotkey(old(self).model(), now)
                    &&& forall|index: int|
                        0 <= index < old(self).model().bindings.len() ==> (
                        #[trigger] old(self).model().bindings[index]).hotkey.id != error.id
                    &&& final(self).model() == old(self).model()
                },
            },
    {
        let mut effects: Vec<AppEffect> = Vec::new();
        match command {
            AppCommand::PresetTriggered(id) => {
                return self.trigger(id, now);
            },
            AppCommand::ModifiersChanged(down) => {
                self.modifier_down = down;
                effects.push(AppEffect::Emit(AppEvent::ModifiersChanged(down)));
                assert(effects@ =~= seq![AppEffect::Emit(AppEvent::ModifiersChanged(down))]);
            },
            AppCommand::Exit => {
                self.exiting = true;
                effects.push(AppEffect::EnableHotkeys(false));
                let waiting = match &self.state {
                    ActionState::Waiting { .. } => true,
                    _ => false,
                };
                if waiting {
                    self.state = ActionState::Idle;
                    effects.push(AppEffect::Send(Work::Discard));
                    assert(effects@ =~= seq![
                        AppEffect::EnableHotkeys(false),
                        AppEffect::Send(Work::Discard),
                    ]);
                }
                assert(!waiting ==> effects@ =~= seq![AppEffect::EnableHotkeys(false)]);
            },
            AppCommand::ToggleApplyInSavedOrder => {
                let value = !self.settings.apply_in_saved_order;
                self.settings.apply_in_saved_order = value;
                effects.push(AppEffect::UpdateTray(self.settings));
                effects.push(AppEffect::SaveSetting { key: "apply_in_saved_order", value });
            },
            AppCommand::ToggleAutoReadyUp => {
                let value = !self.settings.auto_ready_up;
                self.settings.auto_ready_up = value;
                effects.push(AppEffect::UpdateTray(self.settings));
                effects.push(AppEffect::SaveSetting { key: "auto_ready_up", value });
            },
            AppCommand::ToggleSaveFallbackWhenTaken => {
                let value = !self.settings.save_fallback_when_taken;
                self.settings.save_fallback_when_taken = value;
                effects.push(AppEffect::UpdateTray(self.settings));
                effects.push(AppEffect::SaveSetting { key: "save_fallback_when_taken", value });
            },
            AppCommand::SetOverlayMonitor(_) => {},
        }
        Ok(effects)
    }

    /// Asks the worker to prepare, or to discard the preparation, when the need for it changes. Once
    /// triggered, the preparation belongs to the action until it finishes.
    pub fn prewarm(&mut self, enabled: bool, down: bool) -> (work: Option<Work>)
        ensures
            final(self).model() == (AppModel {
                prewarm_requested: enabled && down,
                ..old(self).model()
            }),
            work == if (enabled && down) != old(self).model().prewarm_requested
                && old(self).model().state is Idle {
                Some(
                    if enabled && down {
                        Work::Prepare
                    } else {
                        Work::Discard
                    },
                )
            } else {
                None
            },
    {
        let needed = enabled && down;
        if needed == self.prewarm_requested {
            return None;
        }
        self.prewarm_requested = needed;
        match &self.state {
            ActionState::Idle => {
                if needed {
                    Some(Work::Prepare)
                } else {
                    Some(Work::Discard)
                }
            },
            _ => None,
        }
    }

    /// The worker finished an action. Hotkeys that were pressed meanwhile are to be dropped.
    pub fn finished(&mut self, now: u64)
        requires
            now <= u64::MAX - 5000,
        ensures
            final(self).model() == (AppModel {
                state: ActionState::Idle,
                ready_after: (now + 200) as u64,
                ..old(self).model()
            }),
    {
        self.state = ActionState::Idle;
        self.ready_after = now + ACTION_COOLDOWN;
    }

    /// The application ends: the user asked for it, and no action is running.
    pub fn run(&self) -> (step: AppStep)
        ensures
            step == if self.model().exiting && self.model().state !is Running {
                AppStep::Exit
            } else {
                AppStep::Continue
            },
    {
        match &self.state {
            ActionState::Running => AppStep::Continue,
            _ => if self.exiting {
                AppStep::Exit
            } else {
                AppStep::Continue
            },
        }
    }

    /// Starts the action once its hotkey is released, or gives it up.
    pub fn wait_for_release(&mut self, enabled: bool, released: bool, now: u64) -> (effects: Vec<
        AppEffect,
    >)
        requires
            now <= u64::MAX - 5000,
        ensures
            waited(old(self).model(), enabled, released, now, final(self).model(), effects@),
    {
        let mut effects: Vec<AppEffect> = Vec::new();
        let (name, deadline) = match &self.state {
            ActionState::Waiting { preset, deadline, .. } => (preset.clone(), *deadline),
            _ => return effects,
        };
        if enabled && released {
            effects.push(AppEffect::Send(Work::Run { preset: name, settings: self.settings }));
            self.state = ActionState::Running;
        } else if !enabled || now >= deadline {
            let reason = if enabled {
                text_of("hotkey was not released in time")
            } else {
                text_of("game lost focus")
            };
            effects.push(AppEffect::Emit(AppEvent::PresetCancelled { preset: name, reason }));
            effects.push(AppEffect::Send(Work::Discard));
            self.state = ActionState::Idle;
            self.ready_after = now + ACTION_COOLDOWN;
        }
        effects
    }
}

/// Toggling a setting twice restores it.
pub proof fn toggling_twice_restores(settings: PresetActionOptions, command: AppCommand)
    requires
        toggled(settings, command) is Some,
    ensures
        ({
            let (once, key, value) = toggled(settings, command)->0;
            &&& toggled(once, command) matches Some((twice, same_key, old_value)) && twice
                == settings && same_key == key && old_value == !value
        }),
{
}

/// At most one action is on its way: while one waits or runs, and in the time after it, hotkeys do
/// nothing.
pub proof fn hotkeys_wait_for_the_action(
    before: AppModel,
    id: i32,
    now: u64,
    after: AppModel,
    effects: Seq<AppEffect>,
)
    requires
        commanded(before, AppCommand::PresetTriggered(id), now, after, effects),
        !(before.state is Idle) || before.exiting || now < before.ready_after,
    ensures
        after == before,
        effects.len() == 0,
{
}

/// An action runs only with a hotkey that was accepted and then released while the game had the
/// focus.
pub proof fn actions_need_a_release(
    before: AppModel,
    enabled: bool,
    released: bool,
    now: u64,
    after: AppModel,
    effects: Seq<AppEffect>,
)
    requires
        waited(before, enabled, released, now, after, effects),
        after.state is Running,
        !(before.state is Running),
    ensures
        before.state is Waiting,
        enabled && released,
{
}

/// Once the user has asked for the end, no command starts another action.
pub proof fn exiting_starts_nothing(
    before: AppModel,
    command: AppCommand,
    now: u64,
    after: AppModel,
    effects: Seq<AppEffect>,
)
    requires
        commanded(before, command, now, after, effects),
        before.exiting,
    ensures
        after.exiting,
        after.state == before.state || after.state is Idle,
{
}

/// The label of the preset, without white space around it. A blank one does not count.
pub open spec fn label_of(labels: Seq<PresetLabel>, name: Seq<char>) -> Option<Seq<char>>
    decreases labels.len(),
{
    if labels.len() == 0 {
        None
    } else if labels[0].preset@ == name {
        if trimmed(labels[0].label@).len() == 0 {
            None
        } else {
            Some(trimmed(labels[0].label@))
        }
    } else {
        label_of(labels.skip(1), name)
    }
}

fn find_label(labels: &Vec<PresetLabel>, name: &String) -> (label: Option<String>)
    ensures
        optional_text(label) == label_of(labels@, name@),
{
    let mut index: usize = 0;
    assert(labels@.skip(0) =~= labels@);
    while index < labels.len()
        invariant
            index <= labels@.len(),
            label_of(labels@, name@) == label_of(labels@.skip(index as int), name@),
        decreases labels@.len() - index,
    {
        assert(labels@.skip(index as int).skip(1) =~= labels@.skip(index + 1));
        if labels[index].preset == *name {
            let label = trim(labels[index].label.as_str());
            if label.unicode_len() == 0 {
                return None;
            }
            return Some(text_of(label));
        }
        index = index + 1;
    }
    None
}

/// The status of a row, as texts.
pub open spec fn is_status(status: OverlayPresetStatus, invalid: Option<Seq<char>>) -> bool {
    match invalid {
        Some(reason) => status matches OverlayPresetStatus::Invalid(text) && text@ == reason,
        None => status is Ready,
    }
}

/// The row of a binding with the items of a preset.
pub open spec fn is_row(
    row: OverlayPreset,
    binding: PresetHotkeyBinding,
    preset: Option<PresetModel>,
    labels: Seq<PresetLabel>,
) -> bool {
    &&& row.key_label@ == binding.hotkey.key.spec_name()@
    &&& row.name@ == binding.preset@
    &&& optional_text(row.label) == label_of(labels, binding.preset@)
    &&& match preset {
        Some(preset) => texts(row.stratagems@) == preset.stratagems && optional_text(row.booster)
            == preset.booster && optional_text(row.fallback_booster) == preset.fallback_booster,
        None => row.stratagems@.len() == 0 && row.booster is None && row.fallback_booster is None,
    }
}

pub fn overlay_preset(
    binding: &PresetHotkeyBinding,
    preset: Option<&Preset>,
    labels: &Vec<PresetLabel>,
    status: OverlayPresetStatus,
) -> (row: OverlayPreset)
    ensures
        is_row(
            row,
            *binding,
            match preset {
                Some(preset) => Some(preset@),
                None => None,
            },
            labels@,
        ),
        row.status == status,
{
    let (stratagems, booster, fallback_booster) = match preset {
        Some(preset) => (
            copy_texts(&preset.stratagems),
            copy_optional(&preset.booster),
            copy_optional(&preset.fallback_booster),
        ),
        None => (Vec::new(), None, None),
    };
    OverlayPreset {
        key_label: binding.hotkey.key.name(),
        name: binding.preset.clone(),
        label: find_label(labels, &binding.preset),
        stratagems,
        booster,
        fallback_booster,
        status,
    }
}

/// The row of a binding, given the saved presets and the known items.
pub open spec fn shows_binding(
    row: OverlayPreset,
    binding: PresetHotkeyBinding,
    presets: PresetFile,
    labels: Seq<PresetLabel>,
    catalog: IconCatalog,
) -> bool {
    match presets.named(binding.preset@) {
        None => is_row(row, binding, None, labels) && row.status is NotSaved,
        Some(preset) => match preset_defect(binding.preset@, preset) {
            Some(defect) => is_row(row, binding, None, labels) && is_status(
                row.status,
                Some(defect),
            ),
            None => is_row(row, binding, Some(preset), labels) && is_status(
                row.status,
                preset_reason(catalog, preset),
            ),
        },
    }
}

fn show_binding(
    binding: &PresetHotkeyBinding,
    presets: &PresetFile,
    labels: &Vec<PresetLabel>,
    catalog: &IconCatalog,
) -> (row: OverlayPreset)
    ensures
        shows_binding(row, *binding, *presets, labels@, *catalog),
{
    let preset = match presets.get(&binding.preset) {
        Some(preset) => preset,
        None => return overlay_preset(binding, None, labels, OverlayPresetStatus::NotSaved),
    };
    if let Err(error) = validate_preset(&binding.preset, preset) {
        return overlay_preset(binding, None, labels, OverlayPresetStatus::Invalid(error));
    }
    let status = match invalid_preset_reason(preset, catalog) {
        Some(reason) => OverlayPresetStatus::Invalid(reason),
        None => OverlayPresetStatus::Ready,
    };
    overlay_preset(binding, Some(preset), labels, status)
}

/// The rows of the overlay, one for each hotkey. Where the presets cannot be read every row says
/// so.
pub fn overlay_presets_for_bindings(
    presets: &Result<PresetFile, String>,
    bindings: &Vec<PresetHotkeyBinding>,
    labels: &Vec<PresetLabel>,
    catalog: &IconCatalog,
) -> (rows: Vec<OverlayPreset>)
    ensures
        rows@.len() == bindings@.len(),
        forall|index: int|
            0 <= index < bindings@.len() ==> match *presets {
                Ok(file) => shows_binding(
                    #[trigger] rows@[index],
                    bindings@[index],
                    file,
                    labels@,
                    *catalog,
                ),
                Err(error) => is_row(rows@[index], bindings@[index], None, labels@) && is_status(
                    rows@[index].status,
                    Some(error@),
                ),
            },
{
    let mut rows: Vec<OverlayPreset> = Vec::new();
    let mut index: usize = 0;
    while index < bindings.len()
        invariant
            index <= bindings@.len(),
            rows@.len() == index,
            forall|done: int|
                0 <= done < index ==> match *presets {
                    Ok(file) => shows_binding(
                        #[trigger] rows@[done],
                        bindings@[done],
                        file,
                        labels@,
                        *catalog,
                    ),
                    Err(error) => is_row(rows@[done], bindings@[done], None, labels@) && is_status(
                        rows@[done].status,
                        Some(error@),
                    ),
                },
        decreases bindings@.len() - index,
    {
        let row = match presets {
            Ok(file) => show_binding(&bindings[index], file, labels, catalog),
            Err(error) => overlay_preset(
                &bindings[index],
                None,
                labels,
                OverlayPresetStatus::Invalid(error.clone()),
            ),
        };
        rows.push(row);
        index = index + 1;
    }
    rows
}

/// A command turns one setting, is saved under the name of that setting and with its new value, and
/// the menu shows all settings as they are from then on.
pub proof fn settings_are_saved_under_their_names(
    before: AppModel,
    command: AppCommand,
    now: u64,
    after: AppModel,
    effects: Seq<AppEffect>,
)
    requires
        commanded(before, command, now, after, effects),
        command is ToggleApplyInSavedOrder || command is ToggleAutoReadyUp
            || command is ToggleSaveFallbackWhenTaken,
    ensures
        after.settings.apply_in_saved_order == (before.settings.apply_in_saved_order
            != command is ToggleApplyInSavedOrder),
        after.settings.auto_ready_up == (before.settings.auto_ready_up
            != command is ToggleAutoReadyUp),
        after.settings.save_fallback_when_taken == (before.settings.save_fallback_when_taken
            != command is ToggleSaveFallbackWhenTaken),
        effects.len() == 2,
        effects[0] == AppEffect::UpdateTray(after.settings),
        effects[1] is SaveSetting,
        effects[1]->key@ == if command is ToggleApplyInSavedOrder {
            "apply_in_saved_order"@
        } else if command is ToggleAutoReadyUp {
            "auto_ready_up"@
        } else {
            "save_fallback_when_taken"@
        },
        effects[1]->value == if command is ToggleApplyInSavedOrder {
            after.settings.apply_in_saved_order
        } else if command is ToggleAutoReadyUp {
            after.settings.auto_ready_up
        } else {
            after.settings.save_fallback_when_taken
        },
        after.state == before.state && after.exiting == before.exiting && after.bindings
            == before.bindings,
{
}

/// A menu item changes the setting that it is named after.
pub proof fn menu_items_change_their_own_setting(
    event: TrayEvent,
    id: Seq<char>,
    settings: PresetActionOptions,
)
    requires
        is_event_of(Some(event), id),
    ensures
        !starts_with(id, MONITOR_ITEM_PREFIX@) && id != "close"@ ==> (toggled(
            settings,
            command_of(event),
        ) matches Some((changed, key, value)) && key == id),
        id == "close"@ ==> command_of(event) is Exit,
        starts_with(id, MONITOR_ITEM_PREFIX@) ==> (command_of(event) matches AppCommand::SetOverlayMonitor(
            monitor,
        ) && MONITOR_ITEM_PREFIX@ + monitor@ == id),
{
    reveal_strlit("close");
    reveal_strlit("overlay_monitor:");
    reveal_strlit("apply_in_saved_order");
    reveal_strlit("auto_ready_up");
    reveal_strlit("save_fallback_when_taken");
    let prefix = MONITOR_ITEM_PREFIX@;
    if starts_with(id, prefix) {
        assert(id =~= prefix + id.skip(prefix.len() as int));
        assert(id[0] == 'o') by {
            assert(id.take(prefix.len() as int)[0] == prefix[0]);
        }
        assert("close"@[0] == 'c');
    }
    assert("close"@.len() == 5 && "apply_in_saved_order"@.len() == 20 && "auto_ready_up"@.len()
        == 13 && "save_fallback_when_taken"@.len() == 24);
}

/// The user has five seconds to release a hotkey: until then the action waits while the game has the
/// focus, then it is given up. It runs as soon as the hotkey is released, with the preset that the
/// hotkey is bound to and the settings of that moment.
pub proof fn hotkeys_have_five_seconds(
    before: AppModel,
    id: i32,
    start: u64,
    waiting: AppModel,
    effects: Seq<AppEffect>,
    released: bool,
    now: u64,
    after: AppModel,
    later_effects: Seq<AppEffect>,
)
    requires
        commanded(before, AppCommand::PresetTriggered(id), start, waiting, effects),
        before.state is Idle,
        waiting.state !is Idle,
        start <= u64::MAX - 5000,
        waited(waiting, true, released, now, after, later_effects),
    ensures
        before.ready_after <= start && !before.exiting,
        released ==> after.state is Running && later_effects.len() == 1,
        released ==> exists|index: int| #[trigger]
            is_bound(before.bindings, id, index) && (later_effects[0] matches AppEffect::Send(
                Work::Run { preset, settings },
            ) && preset@ == before.bindings[index].preset@ && settings == waiting.settings),
        !released && now - start < 5000 ==> after == waiting && later_effects.len() == 0,
        !released && now - start >= 5000 ==> after.state is Idle && later_effects.contains(
            AppEffect::Send(Work::Discard),
        ),
{
    if later_effects.len() == 2 {
        assert(later_effects.contains(later_effects[1]));
    }
}

/// An action that loses the game is given up at once, whatever is pressed, and the preparation with
/// it. For the fifth of a second that follows no hotkey counts.
pub proof fn given_up_actions_are_followed_by_a_pause(
    before: AppModel,
    released: bool,
    now: u64,
    after: AppModel,
    effects: Seq<AppEffect>,
    later: u64,
)
    requires
        before.state is Waiting,
        now <= u64::MAX - 5000,
        waited(before, false, released, now, after, effects),
    ensures
        after.state is Idle,
        effects.contains(AppEffect::Send(Work::Discard)),
        effects[0] matches AppEffect::Emit(AppEvent::PresetCancelled { preset, reason }) && preset@
            == before.state->preset@ && reason@ == "game lost focus"@,
        accepts_hotkey(after, later) <==> !before.exiting && later - now >= 200,
        after.settings == before.settings && after.bindings == before.bindings,
{
    assert(effects.contains(effects[1]));
}

/// Asking for the end switches the hotkeys off and drops a wait, but not an action that runs.
pub proof fn the_end_waits_for_the_action(
    before: AppModel,
    now: u64,
    after: AppModel,
    effects: Seq<AppEffect>,
    later: u64,
)
    requires
        commanded(before, AppCommand::Exit, now, after, effects),
    ensures
        after.exiting,
        !accepts_hotkey(after, later),
        effects.contains(AppEffect::EnableHotkeys(false)),
        after.state is Running <==> before.state is Running,
        after.state !is Waiting,
        effects.contains(AppEffect::Send(Work::Discard)) <==> before.state is Waiting,
{
    assert(effects.contains(effects[0]));
    if before.state is Waiting {
        assert(effects.contains(effects[1]));
    }
}

/// Each hotkey has a number of its own and a preset of its own, and the two go together.
pub proof fn hotkeys_have_presets_of_their_own(
    left: PresetHotkeyBinding,
    right: PresetHotkeyBinding,
    modifiers: HotkeyModifiers,
    keys: Seq<Key>,
    first: int,
    second: int,
)
    requires
        0 <= first < keys.len(),
        0 <= second < keys.len(),
        is_binding(left, modifiers, keys[first], first),
        is_binding(right, modifiers, keys[second], second),
    ensures
        left.hotkey.id == right.hotkey.id <==> first == second,
        left.preset@ == right.preset@ <==> first == second,
        number_of(left.preset@.skip(7)) == left.hotkey.id - 1000,
        left.hotkey.key == keys[first] && left.hotkey.modifiers == modifiers,
{
    presets_have_names_of_their_own(first, second);
}

/// The label of a preset is one that is kept for its name, without white space around it, and never
/// a blank one. A preset without one has no label.
pub proof fn labels_are_those_of_the_preset(labels: Seq<PresetLabel>, name: Seq<char>)
    ensures
        label_of(labels, name) matches Some(text) ==> text.len() > 0 && exists|at: int|
            0 <= at < labels.len() && (#[trigger] labels[at]).preset@ == name && trimmed(
                labels[at].label@,
            ) == text,
        (forall|at: int|
            0 <= at < labels.len() && (#[trigger] labels[at]).preset@ == name ==> trimmed(
                labels[at].label@,
            ).len() > 0) ==> (label_of(labels, name) is Some <==> exists|at: int|
            0 <= at < labels.len() && (#[trigger] labels[at]).preset@ == name),
    decreases labels.len(),
{
    if labels.len() > 0 {
        let rest = labels.skip(1);
        labels_are_those_of_the_preset(rest, name);
        assert(forall|at: int| 0 <= at < rest.len() ==> rest[at] == labels[at + 1]);
        if labels[0].preset@ != name {
            if label_of(rest, name) is Some {
                let at = choose|at: int|
                    0 <= at < rest.len() && (#[trigger] rest[at]).preset@ == name && trimmed(
                        rest[at].label@,
                    ) == label_of(rest, name)->0;
                assert(labels[at + 1] == rest[at]);
            }
            if forall|at: int|
                0 <= at < labels.len() && (#[trigger] labels[at]).preset@ == name ==> trimmed(
                    labels[at].label@,
                ).len() > 0 {
                assert forall|at: int|
                    0 <= at < rest.len() && (#[trigger] rest[at]).preset@ == name implies trimmed(
                    rest[at].label@,
                ).len() > 0 by {
                    assert(labels[at + 1] == rest[at]);
                }
                if exists|at: int| 0 <= at < labels.len() && (#[trigger] labels[at]).preset@ == name {
                    let at = choose|at: int|
                        0 <= at < labels.len() && (#[trigger] labels[at]).preset@ == name;
                    assert(rest[at - 1] == labels[at]);
                }
                if label_of(rest, name) is Some {
                    let at = choose|at: int|
                        0 <= at < rest.len() && (#[trigger] rest[at]).preset@ == name;
                    assert(labels[at + 1] == rest[at]);
                }
            }
        }
    }
}

/// A row is ready just where its preset is saved with four different stratagems and nothing speaks
/// against its items, and says that nothing is saved just where nothing is. Its items are shown
/// unless the preset is not sound.
pub proof fn sound_presets_are_ready(
    row: OverlayPreset,
    binding: PresetHotkeyBinding,
    presets: PresetFile,
    labels: Seq<PresetLabel>,
    catalog: IconCatalog,
)
    requires
        shows_binding(row, binding, presets, labels, catalog),
    ensures
        row.name@ == binding.preset@,
        row.key_label@ == binding.hotkey.key.spec_name()@,
        row.status is NotSaved <==> presets.named(binding.preset@) is None,
        row.status is Ready ==> {
            let preset = presets.named(binding.preset@)->0;
            &&& presets.named(binding.preset@) is Some
            &&& preset.stratagems.len() == 4
            &&& preset.stratagems.no_duplicates()
            &&& preset_reason(catalog, preset) is None
            &&& texts(row.stratagems@) == preset.stratagems
            &&& optional_text(row.booster) == preset.booster
            &&& optional_text(row.fallback_booster) == preset.fallback_booster
        },
        presets.named(binding.preset@) matches Some(preset) ==> (preset.stratagems.len() == 4
            && preset.stratagems.no_duplicates() && preset_reason(catalog, preset) is None
            ==> row.status is Ready),
        row.status is NotSaved ==> row.stratagems@.len() == 0 && row.booster is None,
{
}

/// An accepted hotkey gets the worker ready and asks the user to release it, for the preset that the
/// hotkey is bound to. Nothing runs yet.
pub proof fn accepted_hotkeys_are_prepared(
    before: AppModel,
    id: i32,
    now: u64,
    after: AppModel,
    effects: Seq<AppEffect>,
)
    requires
        commanded(before, AppCommand::PresetTriggered(id), now, after, effects),
        before.state is Idle && !before.exiting && before.ready_after <= now,
    ensures
        effects.len() == 2,
        effects.contains(AppEffect::Send(Work::Prepare)),
        exists|index: int|
            0 <= index < before.bindings.len() && (#[trigger] before.bindings[index]).hotkey.id
                == id && (effects[1] matches AppEffect::Emit(
                AppEvent::HotkeyReleaseRequested { preset },
            ) && preset@ == before.bindings[index].preset@) && (
            after.state matches ActionState::Waiting { hotkey_id, preset, deadline } && hotkey_id
                == id && preset@ == before.bindings[index].preset@),
        after.settings == before.settings && after.ready_after == before.ready_after,
{
    let index = choose|index: int| #[trigger]
        is_bound(before.bindings, id, index) && {
            let name = before.bindings[index].preset@;
            &&& effects.len() == 2
            &&& effects[0] == AppEffect::Send(Work::Prepare)
            &&& effects[1] matches AppEffect::Emit(AppEvent::HotkeyReleaseRequested { preset })
                && preset@ == name
            &&& after.state matches ActionState::Waiting { hotkey_id, preset, deadline }
                && hotkey_id == id && preset@ == name && deadline == now + 5000
            &&& after == (AppModel { state: after.state, ..before })
        };
    assert(before.bindings[index].hotkey.id == id);
    assert(effects.contains(effects[0]));
}

} // verus!
