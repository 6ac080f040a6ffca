//! Commands to the application and events that it reports.
use vstd::prelude::*;
use vstd::string::*;

use crate::item::ItemKind;

verus! {

/// What the user asks for.
#[derive(Debug)]
pub enum AppCommand {
    PresetTriggered(i32),
    ModifiersChanged(bool),
    ToggleApplyInSavedOrder,
    ToggleAutoReadyUp,
    ToggleSaveFallbackWhenTaken,
    SetOverlayMonitor(String),
    Exit,
}

/// Where events go. Without a handler they are dropped.
pub struct AppEventSink<F>(Option<F>);

impl<F: Fn(AppEvent)> AppEventSink<F> {
    pub closed spec fn handler(&self) -> Option<F> {
        self.0
    }

    pub fn new(handler: F) -> (sink: Self)
        ensures
            sink.handler() == Some(handler),
    {
        AppEventSink(Some(handler))
    }

    /// A sink that drops every event.
    pub fn disconnected() -> (sink: Self)
        ensures
            sink.handler() is None,
    {
        AppEventSink(None)
    }

    /// Hands the event to the handler.
    pub fn emit(&self, event: AppEvent)
        requires
            self.handler() matches Some(handler) ==> call_requires(handler, (event,)),
        ensures
            self.handler() matches Some(handler) ==> call_ensures(handler, (event,), ()),
    {
        match &self.0 {
            Some(handler) => handler(event),
            None => {},
        }
    }
}

/// A row of the overlay.
#[derive(Debug)]
pub struct OverlayPreset {
    pub key_label: &'static str,
    pub name: String,
    pub label: Option<String>,
    pub stratagems: Vec<String>,
    pub booster: Option<String>,
    pub fallback_booster: Option<String>,
    pub status: OverlayPresetStatus,
}

#[derive(Debug)]
pub enum OverlayPresetStatus {
    Ready,
    NotSaved,
    Invalid(String),
}

/// How an applied preset turned out.
#[derive(Debug)]
pub enum PresetCompletion {
    Complete,
    BoosterUnavailable,
    FallbackBoosterSaved { path: String },
    FallbackBoosterNotSaved,
}

/// What happened.
#[derive(Debug)]
pub enum AppEvent {
    ModifiersChanged(bool),
    OverlayMonitorChanged(String),
    Shutdown,
    PresetListUpdated { presets: Vec<OverlayPreset> },
    PresetStarted { preset: String },
    HotkeyReleaseRequested { preset: String },
    PresetCancelled { preset: String, reason: String },
    PresetSaved { preset: String, stratagems: Vec<String>, booster: Option<String> },
    UiStateDetected { state: &'static str },
    ListSelectionStarted { item_kind: ItemKind, requested_items: usize },
    FallbackBoosterRequested { preset: String },
    ItemSelected,
    PresetDone { preset: String, completion: PresetCompletion },
    PresetFailed { preset: String, error: String },
}

} // verus!
