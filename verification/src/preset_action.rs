//! Saving or applying a preset, from the hotkey to the last key press.
use vstd::prelude::*;
use vstd::string::*;

use crate::app_events::{AppEvent, PresetCompletion};
use crate::assets::IconCatalog;
use crate::input::Key;
use crate::item::ItemKind;
use crate::loadout::{
    captured_parts_show_their_region, collect_current_preset, collect_error, collect_home_booster,
    detect_ui_state, has_booster, homes_are_told_by_their_stratagems, is_crop, lies_in,
    shows_booster, shows_home, states_follow_the_layout, the_first_obstacle_is_named, ui_state_of,
    CapturedPreset, CollectError, UiState,
};
use crate::presets::{
    copy_texts, has_items_of, invalid_preset_reason, known_items_can_be_applied, load_preset,
    loaded, loading_finds_the_preset, optional_text, preset_reason, presets_are_found_by_name,
    texts, Preset, PresetFile, PresetModel,
};
use crate::text::text_of;
use crate::vision::{inside, Frame, ImageRect, RoiObservation};

verus! {

/// Milliseconds for which the key that readies up is held.
pub const READY_UP_HOLD: u64 = 45;

/// Milliseconds that the user has for choosing another booster.
pub const FALLBACK_BOOSTER_SELECTION_TIMEOUT: u64 = 30_000;

#[derive(Clone, Copy, Debug, PartialEq, Eq, Structural)]
pub enum PresetActionOutcome {
    Saved,
    Applied,
}

#[derive(Clone, Copy, Debug, PartialEq, Eq, Structural)]
pub struct PresetActionOptions {
    pub apply_in_saved_order: bool,
    pub auto_ready_up: bool,
    pub save_fallback_when_taken: bool,
}

/// The settings of an action and the items it may name.
pub struct PresetActionConfig<'a> {
    pub catalog: &'a IconCatalog,
    pub options: PresetActionOptions,
}

#[derive(Clone, Copy, Debug, PartialEq, Eq, Structural)]
pub enum BoosterApplyOutcome {
    Applied,
    /// Other players have taken it, and the fallback too.
    Unavailable,
}

/// Why an action failed.
#[derive(Debug)]
pub enum ActionFailure {
    /// The outside work failed.
    Work(String),
    /// The loadout home is partially filled.
    PartlyFilled,
    /// The screen does not show the loadout home.
    NotHome,
    /// The loadout on the screen cannot be captured.
    Collect(CollectError),
    /// The preset cannot be applied.
    Preset(String),
}

/// The work that an action asks for.
#[derive(Debug)]
pub enum ActionRequest {
    /// Find the game, start capturing and scan the loadout home.
    ScanHome,
    /// Save what was captured as the preset.
    SaveCaptured(CapturedPreset),
    /// Read the saved presets.
    ReadPresets,
    ApplyStratagems { items: Vec<String>, in_saved_order: bool },
    ApplyBooster { booster: String, fallback: Option<String> },
    /// Wait until the loadout home is filled, for so many milliseconds.
    WaitForFilledHome { timeout: u64 },
    /// Save this as the fallback booster of the preset.
    SaveFallback(Frame),
    TapKey { key: Key, hold: u64 },
    Finish(PresetActionOutcome),
    Fail(ActionFailure),
}

/// What came of the work.
#[derive(Debug)]
pub enum ActionReply {
    /// The loadout home, with the insides of the five slots where it is filled.
    HomeScanned { home: RoiObservation, cores: Vec<ImageRect> },
    /// The items of the preset that was saved.
    Saved { stratagems: Vec<String>, booster: Option<String> },
    PresetsRead(PresetFile),
    StratagemsApplied,
    BoosterApplied(BoosterApplyOutcome),
    /// The filled home and the inside of its booster slot, unless the time was over.
    FilledHome(Option<(RoiObservation, ImageRect)>),
    /// The item that was saved as the fallback.
    FallbackSaved { path: String },
    KeyTapped,
    Failed(String),
}

/// What an action waits for.
#[derive(Debug)]
pub enum ActionPhase {
    Scanning,
    Saving,
    Loading,
    ApplyingStratagems(Preset),
    ApplyingBooster,
    WaitingForFallback,
    SavingFallback,
    ReadyingUp(PresetCompletion),
    Ended,
}

impl ActionPhase {
    /// The reply is one that this phase waits for.
    pub open spec fn awaits(self, reply: ActionReply) -> bool {
        match (self, reply) {
            (ActionPhase::Ended, _) => false,
            (_, ActionReply::Failed(_)) => true,
            (ActionPhase::Scanning, ActionReply::HomeScanned { home, cores }) => ui_state_of(
                home.layout,
                home.slots@,
            ) == UiState::HomeFilled ==> cores@.len() == 5,
            (ActionPhase::Saving, ActionReply::Saved { .. }) => true,
            (ActionPhase::Loading, ActionReply::PresetsRead(_)) => true,
            (ActionPhase::ApplyingStratagems(_), ActionReply::StratagemsApplied) => true,
            (ActionPhase::ApplyingBooster, ActionReply::BoosterApplied(_)) => true,
            (ActionPhase::WaitingForFallback, ActionReply::FilledHome(_)) => true,
            (ActionPhase::SavingFallback, ActionReply::FallbackSaved { .. }) => true,
            (ActionPhase::ReadyingUp(_), ActionReply::KeyTapped) => true,
            _ => false,
        }
    }

    /// The most work that an action in this phase still asks for.
    pub open spec fn rank(self) -> int {
        match self {
            ActionPhase::Ended => 0,
            ActionPhase::ReadyingUp(_) => 1,
            ActionPhase::Saving => 1,
            ActionPhase::SavingFallback => 2,
            ActionPhase::WaitingForFallback => 3,
            ActionPhase::ApplyingBooster => 4,
            ActionPhase::ApplyingStratagems(_) => 5,
            ActionPhase::Loading => 6,
            ActionPhase::Scanning => 7,
        }
    }
}

/// The work to do next, and the events to report before.
#[derive(Debug)]
pub struct ActionStep {
    pub events: Vec<AppEvent>,
    pub request: ActionRequest,
}

/// A preset that is being saved or applied.
#[derive(Debug)]
pub struct PresetAction {
    preset: String,
    options: PresetActionOptions,
    phase: ActionPhase,
}

/// The event that the preset is done.
pub open spec fn reports_done(
    event: AppEvent,
    name: Seq<char>,
    completion: PresetCompletion,
) -> bool {
    event matches AppEvent::PresetDone { preset, completion: reported } && preset@ == name
        && reported == completion
}

/// The preset is applied: the key that readies up is pressed if it is to be, then the end is
/// reported.
pub open spec fn applied(
    name: Seq<char>,
    options: PresetActionOptions,
    ready: bool,
    completion: PresetCompletion,
    after: ActionPhase,
    step: ActionStep,
) -> bool {
    if options.auto_ready_up && ready {
        &&& step.events@.len() == 0
        &&& step.request == (ActionRequest::TapKey { key: Key::B, hold: 45 })
        &&& after == ActionPhase::ReadyingUp(completion)
    } else {
        &&& step.events@.len() == 1
        &&& reports_done(step.events@[0], name, completion)
        &&& step.request == ActionRequest::Finish(PresetActionOutcome::Applied)
        &&& after == ActionPhase::Ended
    }
}

/// The loadout home was scanned.
pub open spec fn scanned(
    home: RoiObservation,
    cores: Seq<ImageRect>,
    after: ActionPhase,
    step: ActionStep,
) -> bool {
    let state = ui_state_of(home.layout, home.slots@);
    &&& step.events@.len() == 1
    &&& step.events@[0] matches AppEvent::UiStateDetected { state: label } && label@
        == state.spec_label()@
    &&& match state {
        UiState::HomeFilled => match collect_error(home.slots@, home.image, cores) {
            Some(error) => after == ActionPhase::Ended && step.request == ActionRequest::Fail(
                ActionFailure::Collect(error),
            ),
            None => {
                &&& after == ActionPhase::Saving
                &&& step.request matches ActionRequest::SaveCaptured(captured)
                    && captured.stratagems@.len() == 4 && (forall|col: int|
                    0 <= col < 4 ==> is_crop(
                        #[trigger] captured.stratagems@[col],
                        home.image,
                        cores[col],
                    )) && match captured.booster {
                    Some(booster) => has_booster(home.slots@) && is_crop(
                        booster,
                        home.image,
                        cores[4],
                    ),
                    None => !has_booster(home.slots@),
                }
            },
        },
        UiState::HomeEmpty => after == ActionPhase::Loading && step.request
            == ActionRequest::ReadPresets,
        UiState::HomeMixed => after == ActionPhase::Ended && step.request == ActionRequest::Fail(
            ActionFailure::PartlyFilled,
        ),
        UiState::List(_) | UiState::Unknown => after == ActionPhase::Ended && step.request
            == ActionRequest::Fail(ActionFailure::NotHome),
    }
}

/// Why the preset of this name cannot be applied, or what it is.
pub open spec fn applicable(catalog: IconCatalog, file: PresetFile, name: Seq<char>) -> Result<
    PresetModel,
    Seq<char>,
> {
    match loaded(file, name) {
        Err(error) => Err("failed to load preset \""@ + name + "\": "@ + error),
        Ok(preset) => match preset_reason(catalog, preset) {
            Some(reason) => Err("preset \""@ + name + "\" is invalid: "@ + reason),
            None => Ok(preset),
        },
    }
}

/// The presets were read.
pub open spec fn presets_read(
    catalog: IconCatalog,
    options: PresetActionOptions,
    name: Seq<char>,
    file: PresetFile,
    after: ActionPhase,
    step: ActionStep,
) -> bool {
    &&& step.events@.len() == 0
    &&& match applicable(catalog, file, name) {
        Err(error) => {
            &&& after == ActionPhase::Ended
            &&& step.request matches ActionRequest::Fail(ActionFailure::Preset(text)) && text@
                == error
        },
        Ok(preset) => {
            &&& after matches ActionPhase::ApplyingStratagems(kept) && kept@ == preset
            &&& step.request matches ActionRequest::ApplyStratagems { items, in_saved_order }
                && texts(items@) == preset.stratagems && in_saved_order
                == options.apply_in_saved_order
        },
    }
}

/// The user had the time to choose another booster.
pub open spec fn fallback_chosen(
    name: Seq<char>,
    options: PresetActionOptions,
    home: Option<(RoiObservation, ImageRect)>,
    after: ActionPhase,
    step: ActionStep,
) -> bool {
    match home {
        None => applied(
            name,
            options,
            false,
            PresetCompletion::FallbackBoosterNotSaved,
            after,
            step,
        ),
        Some((home, core)) => if !has_booster(home.slots@) {
            applied(
                name,
                options,
                false,
                PresetCompletion::FallbackBoosterNotSaved,
                after,
                step,
            )
        } else if !inside(home.image, core) {
            &&& step.events@.len() == 0
            &&& after == ActionPhase::Ended
            &&& step.request == ActionRequest::Fail(
                ActionFailure::Collect(CollectError::OutsideImage { col: 4, core }),
            )
        } else {
            &&& step.events@.len() == 0
            &&& after == ActionPhase::SavingFallback
            &&& step.request matches ActionRequest::SaveFallback(image) && is_crop(
                image,
                home.image,
                core,
            )
        },
    }
}

/// How an action goes on after a reply.
pub open spec fn follows(
    catalog: IconCatalog,
    name: Seq<char>,
    options: PresetActionOptions,
    before: ActionPhase,
    reply: ActionReply,
    after: ActionPhase,
    step: ActionStep,
) -> bool {
    match (before, reply) {
        (_, ActionReply::Failed(error)) => {
            &&& step.events@.len() == 0
            &&& after == ActionPhase::Ended
            &&& step.request == ActionRequest::Fail(ActionFailure::Work(error))
        },
        (ActionPhase::Scanning, ActionReply::HomeScanned { home, cores }) => scanned(
            home,
            cores@,
            after,
            step,
        ),
        (ActionPhase::Saving, ActionReply::Saved { stratagems, booster }) => {
            &&& step.events@.len() == 2
            &&& step.events@[0] matches AppEvent::PresetSaved {
                preset,
                stratagems: saved,
                booster: saved_booster,
            } && preset@ == name && saved == stratagems && saved_booster == booster
            &&& reports_done(step.events@[1], name, PresetCompletion::Complete)
            &&& after == ActionPhase::Ended
            &&& step.request == ActionRequest::Finish(PresetActionOutcome::Saved)
        },
        (ActionPhase::Loading, ActionReply::PresetsRead(file)) => presets_read(
            catalog,
            options,
            name,
            file,
            after,
            step,
        ),
        (
            ActionPhase::ApplyingStratagems(preset),
            ActionReply::StratagemsApplied,
        ) => match preset@.booster {
            Some(booster) => {
                &&& step.events@.len() == 0
                &&& after == ActionPhase::ApplyingBooster
                &&& step.request matches ActionRequest::ApplyBooster { booster: item, fallback }
                    && item@ == booster && optional_text(fallback) == preset@.fallback_booster
            },
            None => applied(name, options, false, PresetCompletion::Complete, after, step),
        },
        (ActionPhase::ApplyingBooster, ActionReply::BoosterApplied(outcome)) => match outcome {
            BoosterApplyOutcome::Applied => applied(
                name,
                options,
                true,
                PresetCompletion::Complete,
                after,
                step,
            ),
            BoosterApplyOutcome::Unavailable => if options.save_fallback_when_taken {
                &&& step.events@.len() == 1
                &&& step.events@[0] matches AppEvent::FallbackBoosterRequested { preset } && preset@
                    == name
                &&& after == ActionPhase::WaitingForFallback
                &&& step.request == (ActionRequest::WaitForFilledHome { timeout: 30_000 })
            } else {
                applied(name, options, false, PresetCompletion::BoosterUnavailable, after, step)
            },
        },
        (ActionPhase::WaitingForFallback, ActionReply::FilledHome(home)) => fallback_chosen(
            name,
            options,
            home,
            after,
            step,
        ),
        (ActionPhase::SavingFallback, ActionReply::FallbackSaved { path }) => applied(
            name,
            options,
            true,
            PresetCompletion::FallbackBoosterSaved { path },
            after,
            step,
        ),
        (ActionPhase::ReadyingUp(completion), ActionReply::KeyTapped) => {
            &&& step.events@.len() == 1
            &&& reports_done(step.events@[0], name, completion)
            &&& after == ActionPhase::Ended
            &&& step.request == ActionRequest::Finish(PresetActionOutcome::Applied)
        },
        _ => false,
    }
}

impl PresetAction {
    pub closed spec fn name(&self) -> Seq<char> {
        self.preset@
    }

    pub closed spec fn settings(&self) -> PresetActionOptions {
        self.options
    }

    pub closed spec fn waits_for(&self) -> ActionPhase {
        self.phase
    }

    fn end(self, request: ActionRequest, events: Vec<AppEvent>) -> (next: (Self, ActionStep))
        ensures
            next.0.name() == self.name(),
            next.0.settings() == self.settings(),
            next.0.waits_for() == ActionPhase::Ended,
            next.1.request == request,
            next.1.events == events,
    {
        let action = PresetAction {
            preset: self.preset,
            options: self.options,
            phase: ActionPhase::Ended,
        };
        (action, ActionStep { events, request })
    }

    fn ask(self, phase: ActionPhase, request: ActionRequest, events: Vec<AppEvent>) -> (next: (
        Self,
        ActionStep,
    ))
        ensures
            next.0.name() == self.name(),
            next.0.settings() == self.settings(),
            next.0.waits_for() == phase,
            next.1.request == request,
            next.1.events == events,
    {
        let action = PresetAction { preset: self.preset, options: self.options, phase };
        (action, ActionStep { events, request })
    }

    fn apply_done(self, ready: bool, completion: PresetCompletion) -> (next: (Self, ActionStep))
        ensures
            next.0.name() == self.name(),
            next.0.settings() == self.settings(),
            applied(
                self.name(),
                self.settings(),
                ready,
                completion,
                next.0.waits_for(),
                next.1,
            ),
    {
        if self.options.auto_ready_up && ready {
            let request = ActionRequest::TapKey { key: Key::B, hold: READY_UP_HOLD };
            return self.ask(ActionPhase::ReadyingUp(completion), request, Vec::new());
        }
        let mut events: Vec<AppEvent> = Vec::new();
        events.push(AppEvent::PresetDone { preset: self.preset.clone(), completion });
        self.end(ActionRequest::Finish(PresetActionOutcome::Applied), events)
    }

    fn home_scanned(self, home: RoiObservation, cores: Vec<ImageRect>) -> (next: (Self, ActionStep))
        requires
            ui_state_of(home.layout, home.slots@) == UiState::HomeFilled ==> cores@.len() == 5,
        ensures
            next.0.name() == self.name(),
            next.0.settings() == self.settings(),
            scanned(home, cores@, next.0.waits_for(), next.1),
    {
        let state = detect_ui_state(&home);
        let mut events: Vec<AppEvent> = Vec::new();
        events.push(AppEvent::UiStateDetected { state: state.label() });
        match state {
            UiState::HomeFilled => match collect_current_preset(&home, &cores) {
                Ok(captured) => self.ask(
                    ActionPhase::Saving,
                    ActionRequest::SaveCaptured(captured),
                    events,
                ),
                Err(error) => self.end(
                    ActionRequest::Fail(ActionFailure::Collect(error)),
                    events,
                ),
            },
            UiState::HomeEmpty => self.ask(
                ActionPhase::Loading,
                ActionRequest::ReadPresets,
                events,
            ),
            UiState::HomeMixed => self.end(
                ActionRequest::Fail(ActionFailure::PartlyFilled),
                events,
            ),
            UiState::List(_) | UiState::Unknown => self.end(
                ActionRequest::Fail(ActionFailure::NotHome),
                events,
            ),
        }
    }

    fn load_named_preset(self, catalog: &IconCatalog, file: PresetFile) -> (next: (Self, ActionStep))
        ensures
            next.0.name() == self.name(),
            next.0.settings() == self.settings(),
            presets_read(
                *catalog,
                self.settings(),
                self.name(),
                file,
                next.0.waits_for(),
                next.1,
            ),
    {
        let preset = match load_preset(&file, &self.preset) {
            Ok(preset) => preset,
            Err(error) => {
                let mut text = text_of("failed to load preset \"");
                text.append(self.preset.as_str());
                text.append("\": ");
                text.append(error.as_str());
                return self.end(ActionRequest::Fail(ActionFailure::Preset(text)), Vec::new());
            },
        };
        if let Some(reason) = invalid_preset_reason(&preset, catalog) {
            let mut text = text_of("preset \"");
            text.append(self.preset.as_str());
            text.append("\" is invalid: ");
            text.append(reason.as_str());
            return self.end(ActionRequest::Fail(ActionFailure::Preset(text)), Vec::new());
        }
        let request = ActionRequest::ApplyStratagems {
            items: copy_texts(&preset.stratagems),
            in_saved_order: self.options.apply_in_saved_order,
        };
        self.ask(ActionPhase::ApplyingStratagems(preset), request, Vec::new())
    }

    fn learn_fallback_booster(self, home: Option<(RoiObservation, ImageRect)>) -> (next: (
        Self,
        ActionStep,
    ))
        ensures
            next.0.name() == self.name(),
            next.0.settings() == self.settings(),
            fallback_chosen(self.name(), self.settings(), home, next.0.waits_for(), next.1),
    {
        let (home, core) = match home {
            Some(found) => found,
            None => return self.apply_done(false, PresetCompletion::FallbackBoosterNotSaved),
        };
        match collect_home_booster(&home, core) {
            Ok(Some(image)) => self.ask(
                ActionPhase::SavingFallback,
                ActionRequest::SaveFallback(image),
                Vec::new(),
            ),
            Ok(None) => self.apply_done(false, PresetCompletion::FallbackBoosterNotSaved),
            Err(error) => self.end(
                ActionRequest::Fail(ActionFailure::Collect(error)),
                Vec::new(),
            ),
        }
    }

    /// Goes on with what came of the last work.
    pub fn step(self, catalog: &IconCatalog, reply: ActionReply) -> (next: (Self, ActionStep))
        requires
            self.waits_for().awaits(reply),
        ensures
            next.0.name() == self.name(),
            next.0.settings() == self.settings(),
            follows(
                *catalog,
                self.name(),
                self.settings(),
                self.waits_for(),
                reply,
                next.0.waits_for(),
                next.1,
            ),
    {
        let action = PresetAction {
            preset: self.preset,
            options: self.options,
            phase: ActionPhase::Ended,
        };
        match (self.phase, reply) {
            (_, ActionReply::Failed(error)) => action.end(
                ActionRequest::Fail(ActionFailure::Work(error)),
                Vec::new(),
            ),
            (ActionPhase::Scanning, ActionReply::HomeScanned { home, cores }) => {
                action.home_scanned(home, cores)
            },
            (ActionPhase::Saving, ActionReply::Saved { stratagems, booster }) => {
                let mut events: Vec<AppEvent> = Vec::new();
                events.push(
                    AppEvent::PresetSaved { preset: action.preset.clone(), stratagems, booster },
                );
                events.push(
                    AppEvent::PresetDone {
                        preset: action.preset.clone(),
                        completion: PresetCompletion::Complete,
                    },
                );
                action.end(ActionRequest::Finish(PresetActionOutcome::Saved), events)
            },
            (ActionPhase::Loading, ActionReply::PresetsRead(file)) => action.load_named_preset(
                catalog,
                file,
            ),
            (ActionPhase::ApplyingStratagems(preset), ActionReply::StratagemsApplied) => match preset.booster {
                Some(booster) => action.ask(
                    ActionPhase::ApplyingBooster,
                    ActionRequest::ApplyBooster { booster, fallback: preset.fallback_booster },
                    Vec::new(),
                ),
                None => action.apply_done(false, PresetCompletion::Complete),
            },
            (ActionPhase::ApplyingBooster, ActionReply::BoosterApplied(outcome)) => match outcome {
                BoosterApplyOutcome::Applied => action.apply_done(true, PresetCompletion::Complete),
                BoosterApplyOutcome::Unavailable => {
                    if !action.options.save_fallback_when_taken {
                        return action.apply_done(false, PresetCompletion::BoosterUnavailable);
                    }
                    let mut events: Vec<AppEvent> = Vec::new();
                    events.push(
                        AppEvent::FallbackBoosterRequested { preset: action.preset.clone() },
                    );
                    action.ask(
                        ActionPhase::WaitingForFallback,
                        ActionRequest::WaitForFilledHome {
                            timeout: FALLBACK_BOOSTER_SELECTION_TIMEOUT,
                        },
                        events,
                    )
                },
            },
            (ActionPhase::WaitingForFallback, ActionReply::FilledHome(home)) => {
                action.learn_fallback_booster(home)
            },
            (ActionPhase::SavingFallback, ActionReply::FallbackSaved { path }) => action.apply_done(
                true,
                PresetCompletion::FallbackBoosterSaved { path },
            ),
            (ActionPhase::ReadyingUp(completion), ActionReply::KeyTapped) => {
                let mut events: Vec<AppEvent> = Vec::new();
                events.push(AppEvent::PresetDone { preset: action.preset.clone(), completion });
                action.end(ActionRequest::Finish(PresetActionOutcome::Applied), events)
            },
            _ => action.end(ActionRequest::Fail(ActionFailure::NotHome), Vec::new()),
        }
    }
}

/// Starts an action.
pub fn execute_preset(config: &PresetActionConfig, preset: String) -> (started: (
    PresetAction,
    ActionStep,
))
    ensures
        started.0.name() == preset@,
        started.0.settings() == config.options,
        started.0.waits_for() == ActionPhase::Scanning,
        started.1.events@.len() == 1,
        started.1.events@[0] matches AppEvent::PresetStarted { preset: name } && name@
            == preset@,
        started.1.request == ActionRequest::ScanHome,
{
    let mut events: Vec<AppEvent> = Vec::new();
    events.push(AppEvent::PresetStarted { preset: preset.clone() });
    let action = PresetAction { preset, options: config.options, phase: ActionPhase::Scanning };
    (action, ActionStep { events, request: ActionRequest::ScanHome })
}

/// Every reply brings an action nearer to its end.
pub proof fn actions_end(
    catalog: IconCatalog,
    name: Seq<char>,
    options: PresetActionOptions,
    before: ActionPhase,
    reply: ActionReply,
    after: ActionPhase,
    step: ActionStep,
)
    requires
        before.awaits(reply),
        follows(catalog, name, options, before, reply, after, step),
    ensures
        0 <= after.rank() < before.rank(),
        after == ActionPhase::Ended <==> (step.request is Finish || step.request is Fail),
{
}

/// The key that readies up is pressed only where the user asked for it, and after a booster was
/// applied or a fallback for it was saved.
pub proof fn readying_up_needs_a_booster(
    catalog: IconCatalog,
    name: Seq<char>,
    options: PresetActionOptions,
    before: ActionPhase,
    reply: ActionReply,
    after: ActionPhase,
    step: ActionStep,
)
    requires
        before.awaits(reply),
        follows(catalog, name, options, before, reply, after, step),
        step.request is TapKey,
    ensures
        options.auto_ready_up,
        reply == ActionReply::BoosterApplied(BoosterApplyOutcome::Applied)
            || reply is FallbackSaved,
{
}

/// The end of a preset is reported exactly when the action succeeds, as its last event.
pub proof fn success_is_reported(
    catalog: IconCatalog,
    name: Seq<char>,
    options: PresetActionOptions,
    before: ActionPhase,
    reply: ActionReply,
    after: ActionPhase,
    step: ActionStep,
)
    requires
        before.awaits(reply),
        follows(catalog, name, options, before, reply, after, step),
    ensures
        step.request is Finish <==> step.events@.len() > 0 && step.events@.last() is PresetDone,
{
}

/// A loadout is captured only from a filled home, and a preset applied only to an empty one.
pub proof fn home_decides(
    catalog: IconCatalog,
    name: Seq<char>,
    options: PresetActionOptions,
    home: RoiObservation,
    cores: Vec<ImageRect>,
    after: ActionPhase,
    step: ActionStep,
)
    requires
        follows(
            catalog,
            name,
            options,
            ActionPhase::Scanning,
            (ActionReply::HomeScanned { home, cores }),
            after,
            step,
        ),
    ensures
        step.request is SaveCaptured ==> ui_state_of(home.layout, home.slots@)
            == UiState::HomeFilled,
        step.request is ReadPresets <==> ui_state_of(home.layout, home.slots@)
            == UiState::HomeEmpty,
{
}

/// A preset of the file that an action applies: the last one under the name of the action.
pub open spec fn is_named_preset(file: PresetFile, name: Seq<char>, preset: Preset) -> bool {
    exists|at: int|
        {
            &&& 0 <= at < file.all().len()
            &&& (#[trigger] file.all()[at]).name@ == name
            &&& file.all()[at].preset == preset
            &&& forall|later: int|
                at < later < file.all().len() ==> (#[trigger] file.all()[later]).name@ != name
        }
}

/// An action from one phase to the next, reply by reply.
pub open spec fn is_run(
    catalog: IconCatalog,
    name: Seq<char>,
    options: PresetActionOptions,
    phases: Seq<ActionPhase>,
    replies: Seq<ActionReply>,
    steps: Seq<ActionStep>,
) -> bool {
    &&& phases.len() == replies.len() + 1
    &&& steps.len() == replies.len()
    &&& phases[0] == ActionPhase::Scanning
    &&& forall|at: int|
        0 <= at < replies.len() ==> {
            &&& phases[at].awaits(#[trigger] replies[at])
            &&& follows(
                catalog,
                name,
                options,
                phases[at],
                replies[at],
                phases[at + 1],
                steps[at],
            )
        }
}

/// The stratagems, the booster and the fallback that an action asks to apply are those of the preset
/// that the file holds under its name: all of its stratagems in their order, then its booster if it
/// has one, with the fallback whenever it has one.
pub proof fn the_named_preset_is_applied(
    catalog: IconCatalog,
    name: Seq<char>,
    options: PresetActionOptions,
    phases: Seq<ActionPhase>,
    replies: Seq<ActionReply>,
    steps: Seq<ActionStep>,
    file: PresetFile,
    preset: Preset,
    at: int,
)
    requires
        is_run(catalog, name, options, phases, replies, steps),
        0 <= at < replies.len(),
        replies[at] == ActionReply::PresetsRead(file),
        is_named_preset(file, name, preset),
        !(steps[at].request is Fail),
    ensures
        steps[at].request matches ActionRequest::ApplyStratagems { items, in_saved_order } && {
            &&& in_saved_order == options.apply_in_saved_order
            &&& items@.len() == preset.stratagems@.len()
            &&& forall|col: int|
                0 <= col < items@.len() ==> (#[trigger] items@[col])@ == preset.stratagems@[col]@
        },
        at + 1 < replies.len() && replies[at + 1] == ActionReply::StratagemsApplied ==> (
        match steps[at + 1].request {
            ActionRequest::ApplyBooster { booster, fallback } => {
                &&& preset.booster matches Some(wanted) && booster@ == wanted@
                &&& fallback is Some <==> preset.fallback_booster is Some
                &&& fallback matches Some(chosen) ==> preset.fallback_booster matches Some(saved)
                    && chosen@ == saved@
            },
            _ => preset.booster is None,
        }),
{
    let index = choose|index: int|
        {
            &&& 0 <= index < file.all().len()
            &&& (#[trigger] file.all()[index]).name@ == name
            &&& file.all()[index].preset == preset
            &&& forall|later: int|
                index < later < file.all().len() ==> (#[trigger] file.all()[later]).name@ != name
        };
    loading_finds_the_preset(file, name, index);
    assert(phases[at].awaits(replies[at]));
    if let ActionRequest::ApplyStratagems { items, in_saved_order } = steps[at].request {
        assert forall|col: int| 0 <= col < items@.len() implies (#[trigger] items@[col])@
            == preset.stratagems@[col]@ by {
            assert(texts(items@)[col] == items@[col]@);
        }
    }
    if at + 1 < replies.len() {
        assert(phases[at + 1].awaits(replies[at + 1]));
        if let ActionPhase::ApplyingStratagems(kept) = phases[at + 1] {
            preset_has_its_items(kept);
        }
    }
}

proof fn preset_has_its_items(preset: Preset)
    ensures
        has_items_of(preset@, preset),
{
}

/// A booster is only ever asked for after the presets were read, and so the one that is asked for is
/// that of the preset under the name of the action.
pub proof fn boosters_come_from_the_file(
    catalog: IconCatalog,
    name: Seq<char>,
    options: PresetActionOptions,
    phases: Seq<ActionPhase>,
    replies: Seq<ActionReply>,
    steps: Seq<ActionStep>,
    at: int,
)
    requires
        is_run(catalog, name, options, phases, replies, steps),
        0 <= at < steps.len(),
        steps[at].request is ApplyBooster || steps[at].request is ApplyStratagems,
    ensures
        steps[at].request is ApplyStratagems ==> replies[at] is PresetsRead,
        steps[at].request is ApplyBooster ==> at > 0 && replies[at] is StratagemsApplied
            && replies[at - 1] is PresetsRead && steps[at - 1].request is ApplyStratagems,
{
    assert(phases[at].awaits(replies[at]));
    if at > 0 {
        assert(phases[at - 1].awaits(replies[at - 1]));
    }
}

/// A preset is applied only where it is in the file under the name of the action and can be applied:
/// four different stratagems, all known as such, and a booster that is known as one, if any.
/// Otherwise the action fails.
pub proof fn only_valid_presets_are_applied(
    catalog: IconCatalog,
    name: Seq<char>,
    options: PresetActionOptions,
    file: PresetFile,
    preset: Preset,
    after: ActionPhase,
    step: ActionStep,
)
    requires
        follows(
            catalog,
            name,
            options,
            ActionPhase::Loading,
            ActionReply::PresetsRead(file),
            after,
            step,
        ),
        is_named_preset(file, name, preset),
    ensures
        step.events@.len() == 0,
        step.request is ApplyStratagems || step.request is Fail,
        step.request is ApplyStratagems <==> {
            &&& preset.stratagems@.len() == 4
            &&& forall|left: int, right: int|
                0 <= left < right < 4 ==> (#[trigger] preset.stratagems@[left])@ != (
                #[trigger] preset.stratagems@[right])@
            &&& forall|col: int|
                0 <= col < 4 ==> catalog.entry_of((#[trigger] preset.stratagems@[col])@) is Some
                    && catalog.entry_of(preset.stratagems@[col]@)->0.kind == ItemKind::Stratagem
            &&& preset.booster matches Some(booster) ==> catalog.entry_of(booster@) is Some
                && catalog.entry_of(booster@)->0.kind == ItemKind::Booster
        },
{
    let index = choose|index: int|
        {
            &&& 0 <= index < file.all().len()
            &&& (#[trigger] file.all()[index]).name@ == name
            &&& file.all()[index].preset == preset
            &&& forall|later: int|
                index < later < file.all().len() ==> (#[trigger] file.all()[later]).name@ != name
        };
    loading_finds_the_preset(file, name, index);
    if let Ok(found) = loaded(file, name) {
        known_items_can_be_applied(catalog, found);
        if step.request is ApplyStratagems {
            assert forall|col: int| 0 <= col < 4 implies catalog.entry_of(
                (#[trigger] preset.stratagems@[col])@,
            ) is Some && catalog.entry_of(preset.stratagems@[col]@)->0.kind
                == ItemKind::Stratagem by {
                assert(found.stratagems[col] == preset.stratagems@[col]@);
            }
        }
    }
}

/// Without a preset under its name an action fails.
pub proof fn missing_presets_fail(
    catalog: IconCatalog,
    name: Seq<char>,
    options: PresetActionOptions,
    file: PresetFile,
    after: ActionPhase,
    step: ActionStep,
)
    requires
        follows(
            catalog,
            name,
            options,
            ActionPhase::Loading,
            ActionReply::PresetsRead(file),
            after,
            step,
        ),
        forall|at: int| 0 <= at < file.all().len() ==> (#[trigger] file.all()[at]).name@ != name,
    ensures
        step.request is Fail,
        after == ActionPhase::Ended,
{
    presets_are_found_by_name(file.all(), name);
}

/// The state of the home decides what an action does: a filled home is saved, an empty one filled,
/// and every other screen is refused, a partly filled home as such. The state is reported.
pub proof fn the_home_decides_the_action(
    catalog: IconCatalog,
    name: Seq<char>,
    options: PresetActionOptions,
    home: RoiObservation,
    cores: Vec<ImageRect>,
    after: ActionPhase,
    step: ActionStep,
)
    requires
        follows(
            catalog,
            name,
            options,
            ActionPhase::Scanning,
            (ActionReply::HomeScanned { home, cores }),
            after,
            step,
        ),
        cores@.len() == 5,
    ensures
        ({
            let state = ui_state_of(home.layout, home.slots@);
            &&& state == UiState::HomeFilled <==> (step.request is SaveCaptured || (
            step.request is Fail && step.request->Fail_0 is Collect))
            &&& state == UiState::HomeEmpty <==> step.request is ReadPresets
            &&& state == UiState::HomeMixed <==> step.request == ActionRequest::Fail(
                ActionFailure::PartlyFilled,
            )
            &&& state is Unknown || state is List <==> step.request == ActionRequest::Fail(
                ActionFailure::NotHome,
            )
            &&& step.events@.len() == 1
            &&& step.events@[0] matches AppEvent::UiStateDetected { state: label } && label@
                == state.spec_label()@
        }),
        step.request matches ActionRequest::SaveCaptured(captured) ==> {
            &&& captured.stratagems@.len() == 4
            &&& forall|col: int, x: int, y: int|
                #![trigger captured.stratagems@[col].pixel(x, y)]
                0 <= col < 4 && 0 <= x < cores@[col].w && 0 <= y < cores@[col].h
                    ==> captured.stratagems@[col].spec_width() == cores@[col].w
                    && captured.stratagems@[col].spec_height() == cores@[col].h
                    && captured.stratagems@[col].pixel(x, y) == home.image.pixel(
                    cores@[col].x + x,
                    cores@[col].y + y,
                )
            &&& captured.booster is Some <==> shows_booster(home.slots@)
            &&& captured.booster matches Some(booster) ==> forall|x: int, y: int|
                0 <= x < cores@[4].w && 0 <= y < cores@[4].h ==> #[trigger] booster.pixel(x, y)
                    == home.image.pixel(cores@[4].x + x, cores@[4].y + y)
        },
{
    homes_are_told_by_their_stratagems(home.slots@);
    states_follow_the_layout(home.layout, home.slots@);
    the_first_obstacle_is_named(home.slots@, home.image, cores@);
    if let ActionRequest::SaveCaptured(captured) = step.request {
        assert forall|col: int, x: int, y: int|
            #![trigger captured.stratagems@[col].pixel(x, y)]
            0 <= col < 4 && 0 <= x < cores@[col].w && 0 <= y < cores@[col].h implies captured.stratagems@[col].spec_width()
            == cores@[col].w && captured.stratagems@[col].spec_height() == cores@[col].h
            && captured.stratagems@[col].pixel(x, y) == home.image.pixel(
            cores@[col].x + x,
            cores@[col].y + y,
        ) by {
            assert(is_crop(captured.stratagems@[col], home.image, cores@[col]));
            captured_parts_show_their_region(
                captured.stratagems@[col],
                home.image,
                cores@[col],
                x,
                y,
            );
        }
        if let Some(booster) = captured.booster {
            assert forall|x: int, y: int|
                0 <= x < cores@[4].w && 0 <= y < cores@[4].h implies #[trigger] booster.pixel(x, y)
                == home.image.pixel(cores@[4].x + x, cores@[4].y + y) by {
                captured_parts_show_their_region(booster, home.image, cores@[4], x, y);
            }
        }
    }
}

/// The B key is tapped, for 45 milliseconds, just where the user asked to ready up and a booster was
/// applied or a fallback for it saved.
pub proof fn readying_up_follows_a_booster(
    catalog: IconCatalog,
    name: Seq<char>,
    options: PresetActionOptions,
    before: ActionPhase,
    reply: ActionReply,
    after: ActionPhase,
    step: ActionStep,
)
    requires
        before.awaits(reply),
        follows(catalog, name, options, before, reply, after, step),
    ensures
        step.request is TapKey <==> options.auto_ready_up && (reply == ActionReply::BoosterApplied(
            BoosterApplyOutcome::Applied,
        ) || reply is FallbackSaved),
        step.request matches ActionRequest::TapKey { key, hold } ==> key == Key::B && hold == 45,
{
}

/// A taken booster leads to the user being asked for another one for thirty seconds, where they want
/// fallbacks to be saved, and nothing else does.
pub proof fn taken_boosters_ask_for_a_fallback(
    catalog: IconCatalog,
    name: Seq<char>,
    options: PresetActionOptions,
    before: ActionPhase,
    reply: ActionReply,
    after: ActionPhase,
    step: ActionStep,
)
    requires
        before.awaits(reply),
        follows(catalog, name, options, before, reply, after, step),
    ensures
        step.request is WaitForFilledHome <==> options.save_fallback_when_taken && reply
            == ActionReply::BoosterApplied(BoosterApplyOutcome::Unavailable),
        step.request matches ActionRequest::WaitForFilledHome { timeout } ==> timeout == 30_000
            && step.events@.len() == 1 && (
        step.events@[0] matches AppEvent::FallbackBoosterRequested { preset } && preset@ == name),
        step.request is SaveFallback <==> (reply matches ActionReply::FilledHome(Some((home, core)))
            && shows_home(home.slots@) && shows_booster(home.slots@) && lies_in(core, home.image)),
        reply matches ActionReply::FilledHome(Some((home, core))) ==> step.request matches ActionRequest::SaveFallback(
            image,
        ) ==> image.spec_width() == core.w && image.spec_height() == core.h && forall|
            x: int,
            y: int,
        |
            0 <= x < core.w && 0 <= y < core.h ==> #[trigger] image.pixel(x, y) == home.image.pixel(
                core.x + x,
                core.y + y,
            ),
{
    if let ActionReply::FilledHome(Some((home, core))) = reply {
        homes_are_told_by_their_stratagems(home.slots@);
        if let ActionRequest::SaveFallback(image) = step.request {
            assert forall|x: int, y: int| 0 <= x < core.w && 0 <= y < core.h implies #[trigger] image.pixel(
                x,
                y,
            ) == home.image.pixel(core.x + x, core.y + y) by {
                captured_parts_show_their_region(image, home.image, core, x, y);
            }
        }
    }
}

/// How an action that succeeds is reported: as complete where the preset was saved, has no booster or
/// its booster was applied; with the fallback where one was saved; as lacking its booster where that
/// was taken, and no fallback was to be, or could be, saved.
pub proof fn completions_tell_the_booster(
    catalog: IconCatalog,
    name: Seq<char>,
    options: PresetActionOptions,
    before: ActionPhase,
    reply: ActionReply,
    after: ActionPhase,
    step: ActionStep,
)
    requires
        before.awaits(reply),
        follows(catalog, name, options, before, reply, after, step),
        step.events@.len() > 0,
        step.events@.last() is PresetDone,
    ensures
        step.events@.last() matches AppEvent::PresetDone { preset, completion } && {
            &&& preset@ == name
            &&& match reply {
                ActionReply::Saved { .. } => completion is Complete,
                ActionReply::StratagemsApplied => completion is Complete,
                ActionReply::BoosterApplied(BoosterApplyOutcome::Applied) => completion is Complete,
                ActionReply::BoosterApplied(
                    BoosterApplyOutcome::Unavailable,
                ) => completion is BoosterUnavailable,
                ActionReply::FilledHome(_) => completion is FallbackBoosterNotSaved,
                ActionReply::FallbackSaved { path } => completion
                    == (PresetCompletion::FallbackBoosterSaved { path }),
                _ => before == ActionPhase::ReadyingUp(completion) && reply is KeyTapped,
            }
        },
        step.request == ActionRequest::Finish(
            if reply is Saved {
                PresetActionOutcome::Saved
            } else {
                PresetActionOutcome::Applied
            },
        ),
{
}

/// After the key was tapped, the end is reported as it would have been without it.
pub proof fn readying_up_keeps_the_completion(
    catalog: IconCatalog,
    name: Seq<char>,
    options: PresetActionOptions,
    before: ActionPhase,
    reply: ActionReply,
    after: ActionPhase,
    step: ActionStep,
)
    requires
        before.awaits(reply),
        follows(catalog, name, options, before, reply, after, step),
        step.request is TapKey,
    ensures
        after matches ActionPhase::ReadyingUp(completion) && match reply {
            ActionReply::FallbackSaved { path } => completion
                == (PresetCompletion::FallbackBoosterSaved { path }),
            _ => completion is Complete,
        },
        step.events@.len() == 0,
{
}

/// Work that failed ends the action with its error, at any time.
pub proof fn failed_work_ends_the_action(
    catalog: IconCatalog,
    name: Seq<char>,
    options: PresetActionOptions,
    before: ActionPhase,
    error: String,
    after: ActionPhase,
    step: ActionStep,
)
    requires
        before != ActionPhase::Ended,
        follows(catalog, name, options, before, ActionReply::Failed(error), after, step),
    ensures
        before.awaits(ActionReply::Failed(error)),
        step.request == ActionRequest::Fail(ActionFailure::Work(error)),
        step.events@.len() == 0,
        after == ActionPhase::Ended,
{
}

/// What was saved is reported with the name of the preset and its items.
pub proof fn saved_items_are_reported(
    catalog: IconCatalog,
    name: Seq<char>,
    options: PresetActionOptions,
    saved: Vec<String>,
    booster: Option<String>,
    after: ActionPhase,
    step: ActionStep,
)
    requires
        follows(
            catalog,
            name,
            options,
            ActionPhase::Saving,
            (ActionReply::Saved { stratagems: saved, booster }),
            after,
            step,
        ),
    ensures
        step.events@.len() == 2,
        step.events@[0] matches AppEvent::PresetSaved {
            preset,
            stratagems: reported,
            booster: reported_booster,
        } && preset@ == name && reported == saved && reported_booster == booster,
{
}

/// An action that refuses its preset says why, and names the preset: that it could not be loaded, or
/// which of its items is wrong.
pub proof fn refused_presets_are_explained(
    catalog: IconCatalog,
    name: Seq<char>,
    options: PresetActionOptions,
    file: PresetFile,
    after: ActionPhase,
    step: ActionStep,
)
    requires
        follows(
            catalog,
            name,
            options,
            ActionPhase::Loading,
            ActionReply::PresetsRead(file),
            after,
            step,
        ),
        !(step.request is ApplyStratagems),
    ensures
        step.request matches ActionRequest::Fail(ActionFailure::Preset(text)) && (match loaded(
            file,
            name,
        ) {
            Err(error) => text@ == "failed to load preset \""@ + name + "\": "@ + error,
            Ok(preset) => preset_reason(catalog, preset) matches Some(reason) && text@
                == "preset \""@ + name + "\" is invalid: "@ + reason,
        }),
        after == ActionPhase::Ended,
{
}

} // verus!
