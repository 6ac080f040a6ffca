use hd2_preset_helper::app::{
    overlay_presets_for_bindings, preset_hotkeys, tray_command, AppController, AppEffect, AppStep,
    PresetHotkeyBinding, UnknownHotkey,
};
use hd2_preset_helper::app_events::{
    AppCommand, AppEvent, AppEventSink, OverlayPresetStatus, PresetCompletion,
};
use hd2_preset_helper::assets::{IconCatalog, IconManifestItem};
use hd2_preset_helper::config::PresetLabel;
use hd2_preset_helper::input::{HotkeyModifier, HotkeyModifiers, Key};
use hd2_preset_helper::item::{ItemKind, StratagemCategory};
use hd2_preset_helper::preset_action::{
    execute_preset, ActionFailure, ActionReply, ActionRequest, BoosterApplyOutcome, PresetAction,
    PresetActionConfig, PresetActionOptions, PresetActionOutcome,
};
use hd2_preset_helper::presets::{
    invalid_preset_reason, load_preset, load_presets, save_preset, validate_preset, Preset,
    PresetFile,
};
use hd2_preset_helper::slot::{SlotKind, SlotLayout};
use hd2_preset_helper::tray::TrayEvent;
use hd2_preset_helper::vision::{Frame, ImageRect, RoiObservation, Slot, SUBPIXELS};
use hd2_preset_helper::worker::{next_work, report_run, Work, WorkerEvent};
use std::cell::RefCell;

fn text(value: &str) -> String {
    String::from(value)
}

fn options() -> PresetActionOptions {
    PresetActionOptions {
        apply_in_saved_order: false,
        auto_ready_up: true,
        save_fallback_when_taken: true,
    }
}

fn bindings() -> Vec<PresetHotkeyBinding> {
    let modifiers = HotkeyModifiers::new(vec![HotkeyModifier::Ctrl]).unwrap();
    preset_hotkeys(modifiers, &vec![Key::F7, Key::F8, Key::F9])
}

fn item(item_id: &str, kind: ItemKind) -> IconManifestItem {
    IconManifestItem {
        item_id: text(item_id),
        display_name: text("Name"),
        kind,
        category: match kind {
            ItemKind::Stratagem => Some(StratagemCategory::Supply),
            ItemKind::Booster => None,
        },
        path: format!("{item_id}.png"),
    }
}

fn catalog() -> IconCatalog {
    let mut items = vec![];
    let mut paths = vec![];
    for name in ["a", "b", "c", "d"] {
        items.push(item(name, ItemKind::Stratagem));
    }
    for name in ["x", "y"] {
        items.push(item(name, ItemKind::Booster));
    }
    for entry in &items {
        paths.push(entry.path.clone());
    }
    IconCatalog::load(&items, &paths).unwrap()
}

fn preset(stratagems: &[&str], booster: Option<&str>) -> Preset {
    Preset {
        stratagems: stratagems.iter().map(|name| text(name)).collect(),
        booster: booster.map(text),
        fallback_booster: None,
    }
}

#[test]
fn presets_are_bound_in_the_order_of_the_keys() {
    let bound = bindings();
    assert_eq!(bound.len(), 3);
    assert_eq!(bound[0].hotkey.id, 1001);
    assert_eq!(bound[2].hotkey.id, 1003);
    assert_eq!(bound[2].hotkey.key, Key::F9);
    assert_eq!(bound[0].preset, "preset_1");
    assert_eq!(bound[2].preset, "preset_3");
}

#[test]
fn a_hotkey_runs_its_preset_once_it_is_released() {
    let mut app = AppController::new(bindings(), options(), 100);
    let effects = app.command(AppCommand::PresetTriggered(1002), 100).unwrap();
    assert_eq!(effects.len(), 2);
    assert!(matches!(effects[0], AppEffect::Send(Work::Prepare)));
    match &effects[1] {
        AppEffect::Emit(AppEvent::HotkeyReleaseRequested { preset }) => {
            assert_eq!(preset, "preset_2")
        }
        _ => panic!("the release is asked for"),
    }
    assert_eq!(app.awaited_hotkey(), Some(1002));
    assert!(app.command(AppCommand::PresetTriggered(1001), 150).unwrap().is_empty());
    assert!(app.wait_for_release(true, false, 5099).is_empty());
    let effects = app.wait_for_release(true, true, 5099);
    match &effects[0] {
        AppEffect::Send(Work::Run { preset, settings }) => {
            assert_eq!(preset, "preset_2");
            assert_eq!(*settings, options());
        }
        _ => panic!("the preset runs"),
    }
    assert_eq!(app.awaited_hotkey(), None);
    assert!(app.command(AppCommand::PresetTriggered(1001), 6000).unwrap().is_empty());

    app.finished(7000);
    assert!(app.command(AppCommand::PresetTriggered(1001), 7199).unwrap().is_empty());
    assert_eq!(app.command(AppCommand::PresetTriggered(1001), 7200).unwrap().len(), 2);
}

#[test]
fn an_action_is_cancelled_without_a_release() {
    for (enabled, now, reason) in
        [(true, 5100, "hotkey was not released in time"), (false, 200, "game lost focus")]
    {
        let mut app = AppController::new(bindings(), options(), 100);
        assert!(app.command(AppCommand::PresetTriggered(1001), 100).is_ok());
        let effects = app.wait_for_release(enabled, false, now);
        match &effects[0] {
            AppEffect::Emit(AppEvent::PresetCancelled { preset, reason: given }) => {
                assert_eq!(preset, "preset_1");
                assert_eq!(given, reason);
            }
            _ => panic!("the action is cancelled"),
        }
        assert!(matches!(effects[1], AppEffect::Send(Work::Discard)));
        let again = app.command(AppCommand::PresetTriggered(1001), now + 199).unwrap();
        assert!(again.is_empty());
        assert!(!app.command(AppCommand::PresetTriggered(1001), now + 200).unwrap().is_empty());
    }
}

#[test]
fn unknown_hotkeys_are_refused() {
    let mut app = AppController::new(bindings(), options(), 0);
    assert!(matches!(
        app.command(AppCommand::PresetTriggered(7), 0),
        Err(UnknownHotkey { id: 7 })
    ));
}

#[test]
fn settings_are_toggled() {
    let mut app = AppController::new(bindings(), options(), 0);
    let changes = [
        (AppCommand::ToggleApplyInSavedOrder, "apply_in_saved_order", true),
        (AppCommand::ToggleAutoReadyUp, "auto_ready_up", false),
        (AppCommand::ToggleSaveFallbackWhenTaken, "save_fallback_when_taken", false),
        (AppCommand::ToggleSaveFallbackWhenTaken, "save_fallback_when_taken", true),
    ];
    for (command, name, after) in changes {
        let effects = app.command(command, 0).unwrap();
        assert!(matches!(effects[0], AppEffect::UpdateTray(_)));
        match effects[1] {
            AppEffect::SaveSetting { key, value } => {
                assert_eq!(key, name);
                assert_eq!(value, after);
            }
            _ => panic!("the setting is kept"),
        }
    }
}

#[test]
fn exiting_waits_for_a_running_action_only() {
    let mut app = AppController::new(bindings(), options(), 0);
    assert!(app.hotkeys_enabled(true));
    assert!(app.command(AppCommand::PresetTriggered(1001), 0).is_ok());
    let effects = app.command(AppCommand::Exit, 1).unwrap();
    assert!(matches!(effects[0], AppEffect::EnableHotkeys(false)));
    assert!(matches!(effects[1], AppEffect::Send(Work::Discard)));
    assert!(!app.hotkeys_enabled(true));
    assert!(matches!(app.run(), AppStep::Exit));

    let mut busy = AppController::new(bindings(), options(), 0);
    assert!(busy.command(AppCommand::PresetTriggered(1001), 0).is_ok());
    assert_eq!(busy.wait_for_release(true, true, 1).len(), 1);
    assert_eq!(busy.command(AppCommand::Exit, 2).unwrap().len(), 1);
    assert!(matches!(busy.run(), AppStep::Continue));
    busy.finished(3);
    assert!(matches!(busy.run(), AppStep::Exit));
    assert!(busy.command(AppCommand::PresetTriggered(1001), 9000).unwrap().is_empty());
}

#[test]
fn modifiers_prepare_a_capture() {
    let mut app = AppController::new(bindings(), options(), 0);
    assert!(app.modifiers_changed(true));
    let effects = app.command(AppCommand::ModifiersChanged(true), 0).unwrap();
    assert!(matches!(effects[0], AppEffect::Emit(AppEvent::ModifiersChanged(true))));
    assert!(!app.modifiers_changed(true));
    assert!(matches!(app.prewarm(true, true), Some(Work::Prepare)));
    assert!(app.prewarm(true, true).is_none());
    assert!(matches!(app.prewarm(false, true), Some(Work::Discard)));
    assert!(app.command(AppCommand::PresetTriggered(1001), 0).is_ok());
    assert!(app.prewarm(true, true).is_none());
}

#[test]
fn menu_items_become_commands() {
    assert!(matches!(tray_command(TrayEvent::ExitRequested), AppCommand::Exit));
    assert!(matches!(
        tray_command(TrayEvent::ToggleAutoReadyUp),
        AppCommand::ToggleAutoReadyUp
    ));
}

#[test]
fn events_reach_a_connected_sink() {
    let seen = RefCell::new(0);
    let sink = AppEventSink::new(|_: AppEvent| *seen.borrow_mut() += 1);
    sink.emit(AppEvent::Shutdown);
    sink.emit(AppEvent::ItemSelected);
    assert_eq!(*seen.borrow(), 2);
}

#[test]
fn rows_tell_which_presets_can_be_used() {
    let mut file = PresetFile::empty();
    file = save_preset(Some(file), &text("preset_1"), &preset(&["a", "b", "c", "d"], Some("x")))
        .unwrap();
    file = save_preset(Some(file), &text("preset_2"), &preset(&["a", "b", "c", "x"], None)).unwrap();
    let labels = vec![
        PresetLabel { preset: text("preset_1"), label: text("  Bugs ") },
        PresetLabel { preset: text("preset_2"), label: text("   ") },
    ];
    let rows = overlay_presets_for_bindings(&Ok(file), &bindings(), &labels, &catalog());
    assert_eq!(rows[0].key_label, "F7");
    assert_eq!(rows[0].label.as_deref(), Some("Bugs"));
    assert_eq!(rows[0].booster.as_deref(), Some("x"));
    assert!(matches!(rows[0].status, OverlayPresetStatus::Ready));
    assert_eq!(rows[1].label, None);
    match &rows[1].status {
        OverlayPresetStatus::Invalid(reason) => assert_eq!(reason, "x is not a stratagem"),
        _ => panic!("a booster is no stratagem"),
    }
    assert_eq!(rows[1].stratagems.len(), 4);
    assert!(matches!(rows[2].status, OverlayPresetStatus::NotSaved));

    let failed: Result<PresetFile, String> = Err(text("unreadable"));
    let rows = overlay_presets_for_bindings(&failed, &bindings(), &labels, &catalog());
    for row in &rows {
        assert!(matches!(&row.status, OverlayPresetStatus::Invalid(reason) if reason == "unreadable"));
        assert!(row.stratagems.is_empty());
    }
}

#[test]
fn hints_give_way_to_what_follows() {
    let run = || Work::Run { preset: text("preset_1"), settings: options() };
    let mut pending = vec![Work::Prepare, Work::Discard, Work::Prepare];
    assert!(matches!(next_work(&mut pending), Some(Work::Prepare)));
    assert!(pending.is_empty());
    assert!(next_work(&mut pending).is_none());

    let mut pending = vec![Work::Prepare, run(), Work::Discard, Work::Shutdown];
    assert!(matches!(next_work(&mut pending), Some(Work::Run { .. })));
    assert_eq!(pending.len(), 2);
    assert!(matches!(next_work(&mut pending), Some(Work::Shutdown)));
}

#[test]
fn runs_are_reported() {
    let saved = report_run(text("preset_1"), Ok(PresetActionOutcome::Saved));
    assert!(saved.failure.is_none());
    assert!(matches!(saved.finished, WorkerEvent::Finished { saved: true }));
    let applied = report_run(text("preset_1"), Ok(PresetActionOutcome::Applied));
    assert!(matches!(applied.finished, WorkerEvent::Finished { saved: false }));
    let failed = report_run(text("preset_1"), Err(text("no window")));
    match failed.failure {
        Some(AppEvent::PresetFailed { preset, error }) => {
            assert_eq!(preset, "preset_1");
            assert_eq!(error, "no window");
        }
        _ => panic!("the failure is shown"),
    }
    assert!(matches!(failed.finished, WorkerEvent::Finished { saved: false }));
}

#[test]
fn presets_have_four_different_stratagems() {
    let name = text("preset_1");
    assert!(validate_preset(&name, &preset(&["a", "b", "c", "d"], None)).is_ok());
    assert_eq!(
        validate_preset(&name, &preset(&["a", "b", "c"], None)).unwrap_err(),
        "preset preset_1 must contain exactly 4 stratagems, got 3"
    );
    assert_eq!(
        validate_preset(&name, &preset(&["a", "b", "c", "b"], None)).unwrap_err(),
        "preset preset_1 contains duplicate stratagem b"
    );
}

#[test]
fn presets_name_known_items() {
    let reason = |given: Preset| invalid_preset_reason(&given, &catalog());
    assert_eq!(reason(preset(&["a", "b", "c", "d"], Some("x"))), None);
    assert_eq!(reason(preset(&["a", "q", "c", "d"], None)).unwrap(), "missing q");
    assert_eq!(reason(preset(&["a", "b", "x", "d"], None)).unwrap(), "x is not a stratagem");
    assert_eq!(reason(preset(&["a", "b", "c", "d"], Some("z"))).unwrap(), "missing z");
    assert_eq!(reason(preset(&["a", "b", "c", "d"], Some("d"))).unwrap(), "d is not a booster");
}

#[test]
fn saved_presets_are_loaded() {
    let first = preset(&["a", "b", "c", "d"], Some("x"));
    let second = preset(&["d", "c", "b", "a"], None);
    let file = save_preset(None, &text("preset_2"), &first).unwrap();
    let file = save_preset(Some(file), &text("preset_1"), &second).unwrap();
    let file = save_preset(Some(file), &text("preset_2"), &second).unwrap();
    assert_eq!(file.entries().len(), 2);
    assert_eq!(file.entries()[0].name, "preset_1");
    let loaded = load_preset(&file, &text("preset_2")).unwrap();
    assert_eq!(loaded.stratagems, second.stratagems);
    assert_eq!(loaded.booster, None);
    assert_eq!(
        load_preset(&file, &text("preset_3")).unwrap_err(),
        "preset not found: preset_3"
    );
    assert!(save_preset(None, &text("p"), &preset(&["a"], None)).is_err());
    assert!(load_presets(None).entries().is_empty());
    assert_eq!(load_presets(Some(file)).entries().len(), 2);
}

fn home(stratagem: SlotKind, booster: SlotKind) -> RoiObservation {
    let mut slots = vec![];
    for col in 0..5 {
        slots.push(Slot {
            x: col * 10,
            y: 0,
            w: 10,
            h: 10,
            center_x: (col as u64 * 10 + 5) * SUBPIXELS,
            center_y: 5 * SUBPIXELS,
            row: 0,
            col,
            kind: if col < 4 { stratagem } else { booster },
            classification: None,
        });
    }
    RoiObservation {
        image: Frame::from_raw(50, 10, (0..2000).map(|sample| sample as u8).collect()).unwrap(),
        layout: SlotLayout::Home,
        slots,
    }
}

fn cores() -> Vec<ImageRect> {
    (0..5).map(|col| ImageRect { x: col * 10 + 2, y: 2, w: 6, h: 6 }).collect()
}

fn scanned(shown: RoiObservation) -> ActionReply {
    ActionReply::HomeScanned { home: shown, cores: cores() }
}

fn empty_home() -> ActionReply {
    scanned(home(SlotKind::StratagemEmpty, SlotKind::HomeBoosterEmpty))
}

fn started(options: PresetActionOptions, items: &IconCatalog) -> PresetAction {
    let config = PresetActionConfig { catalog: items, options };
    let (action, step) = execute_preset(&config, text("preset_1"));
    assert_eq!(step.events.len(), 1);
    assert!(matches!(&step.events[0], AppEvent::PresetStarted { preset } if preset == "preset_1"));
    assert!(matches!(step.request, ActionRequest::ScanHome));
    action
}

fn done(event: &AppEvent) -> &PresetCompletion {
    match event {
        AppEvent::PresetDone { preset, completion } => {
            assert_eq!(preset, "preset_1");
            completion
        }
        _ => panic!("the end is reported"),
    }
}

#[test]
fn a_filled_loadout_is_saved() {
    let items = catalog();
    let action = started(options(), &items);
    let shown = home(SlotKind::Stratagem, SlotKind::HomeBooster);
    let (action, step) = action.step(&items, scanned(shown));
    assert!(matches!(&step.events[0], AppEvent::UiStateDetected { state: "home_filled" }));
    match &step.request {
        ActionRequest::SaveCaptured(captured) => {
            assert_eq!(captured.stratagems.len(), 4);
            assert_eq!(captured.stratagems[1].width(), 6);
            assert!(captured.booster.is_some());
        }
        _ => panic!("the loadout is saved"),
    }
    let saved = ActionReply::Saved {
        stratagems: vec![text("a"), text("b"), text("c"), text("d")],
        booster: Some(text("x")),
    };
    let (_, step) = action.step(&items, saved);
    match &step.events[0] {
        AppEvent::PresetSaved { preset, stratagems, booster } => {
            assert_eq!(preset, "preset_1");
            assert_eq!(stratagems.len(), 4);
            assert_eq!(booster.as_deref(), Some("x"));
        }
        _ => panic!("the preset was saved"),
    }
    assert!(matches!(done(&step.events[1]), PresetCompletion::Complete));
    assert!(matches!(step.request, ActionRequest::Finish(PresetActionOutcome::Saved)));
}

#[test]
fn other_pages_end_the_action() {
    let items = catalog();
    let mut mixed = home(SlotKind::Stratagem, SlotKind::HomeBooster);
    mixed.slots[2].kind = SlotKind::StratagemEmpty;
    let (_, step) = started(options(), &items).step(&items, scanned(mixed));
    assert!(matches!(step.request, ActionRequest::Fail(ActionFailure::PartlyFilled)));

    let mut unknown = home(SlotKind::Stratagem, SlotKind::HomeBooster);
    unknown.slots.truncate(2);
    let (_, step) = started(options(), &items).step(&items, scanned(unknown));
    assert!(matches!(step.request, ActionRequest::Fail(ActionFailure::NotHome)));
}

fn file_with(saved: Preset) -> PresetFile {
    save_preset(None, &text("preset_1"), &saved).unwrap()
}

fn applied_stratagems(saved: Preset, options: PresetActionOptions) -> (PresetAction, ActionRequest) {
    let items = catalog();
    let action = started(options, &items);
    let (action, step) = action.step(&items, empty_home());
    assert!(matches!(&step.events[0], AppEvent::UiStateDetected { state: "home_empty" }));
    assert!(matches!(step.request, ActionRequest::ReadPresets));
    let (action, step) = action.step(&items, ActionReply::PresetsRead(file_with(saved)));
    match step.request {
        ActionRequest::ApplyStratagems { items, in_saved_order } => {
            assert_eq!(items, vec![text("a"), text("b"), text("c"), text("d")]);
            assert_eq!(in_saved_order, options.apply_in_saved_order);
        }
        _ => panic!("the stratagems are applied"),
    }
    let (action, step) = action.step(&items, ActionReply::StratagemsApplied);
    if matches!(step.request, ActionRequest::Finish(_)) {
        assert!(matches!(done(&step.events[0]), PresetCompletion::Complete));
    }
    (action, step.request)
}

#[test]
fn a_preset_without_booster_does_not_ready_up() {
    let (_, request) = applied_stratagems(preset(&["a", "b", "c", "d"], None), options());
    assert!(matches!(request, ActionRequest::Finish(PresetActionOutcome::Applied)));
}

#[test]
fn a_booster_is_applied_and_readied_up() {
    let items = catalog();
    let (action, request) = applied_stratagems(preset(&["a", "b", "c", "d"], Some("x")), options());
    assert!(matches!(
        &request,
        ActionRequest::ApplyBooster { booster, fallback: None } if booster == "x"
    ));
    let reply = ActionReply::BoosterApplied(BoosterApplyOutcome::Applied);
    let (action, step) = action.step(&items, reply);
    assert!(step.events.is_empty());
    assert!(matches!(step.request, ActionRequest::TapKey { key: Key::B, hold: 45 }));
    let (_, step) = action.step(&items, ActionReply::KeyTapped);
    assert!(matches!(done(&step.events[0]), PresetCompletion::Complete));
    assert!(matches!(step.request, ActionRequest::Finish(PresetActionOutcome::Applied)));

    let idle = PresetActionOptions { auto_ready_up: false, ..options() };
    let (action, _) = applied_stratagems(preset(&["a", "b", "c", "d"], Some("x")), idle);
    let reply = ActionReply::BoosterApplied(BoosterApplyOutcome::Applied);
    let (_, step) = action.step(&items, reply);
    assert!(matches!(step.request, ActionRequest::Finish(PresetActionOutcome::Applied)));
}

#[test]
fn a_taken_booster_can_be_replaced() {
    let items = catalog();
    let taken = || ActionReply::BoosterApplied(BoosterApplyOutcome::Unavailable);
    let wanted = || preset(&["a", "b", "c", "d"], Some("x"));

    let fixed = PresetActionOptions { save_fallback_when_taken: false, ..options() };
    let (action, _) = applied_stratagems(wanted(), fixed);
    let (_, step) = action.step(&items, taken());
    assert!(matches!(done(&step.events[0]), PresetCompletion::BoosterUnavailable));

    let (action, _) = applied_stratagems(wanted(), options());
    let (action, step) = action.step(&items, taken());
    assert!(matches!(
        &step.events[0],
        AppEvent::FallbackBoosterRequested { preset } if preset == "preset_1"
    ));
    assert!(matches!(step.request, ActionRequest::WaitForFilledHome { timeout: 30_000 }));
    let chosen = home(SlotKind::Stratagem, SlotKind::HomeBooster);
    let reply = ActionReply::FilledHome(Some((chosen, cores()[4])));
    let (action, step) = action.step(&items, reply);
    assert!(matches!(step.request, ActionRequest::SaveFallback(_)));
    let (action, step) = action.step(&items, ActionReply::FallbackSaved { path: text("y") });
    assert!(matches!(step.request, ActionRequest::TapKey { .. }));
    let (_, step) = action.step(&items, ActionReply::KeyTapped);
    assert!(matches!(
        done(&step.events[0]),
        PresetCompletion::FallbackBoosterSaved { path } if path == "y"
    ));

    let without = home(SlotKind::Stratagem, SlotKind::HomeBoosterEmpty);
    for reply in [None, Some((without, cores()[4]))] {
        let (action, _) = applied_stratagems(wanted(), options());
        let (action, _) = action.step(&items, taken());
        let (_, step) = action.step(&items, ActionReply::FilledHome(reply));
        assert!(matches!(done(&step.events[0]), PresetCompletion::FallbackBoosterNotSaved));
        assert!(matches!(step.request, ActionRequest::Finish(PresetActionOutcome::Applied)));
    }
}

#[test]
fn failures_end_the_action() {
    let items = catalog();
    let (_, step) = started(options(), &items).step(&items, ActionReply::Failed(text("lost")));
    assert!(step.events.is_empty());
    assert!(matches!(
        &step.request,
        ActionRequest::Fail(ActionFailure::Work(reason)) if reason == "lost"
    ));
    let (action, _) = started(options(), &items).step(&items, empty_home());
    let (_, step) = action.step(&items, ActionReply::PresetsRead(PresetFile::empty()));
    assert!(matches!(step.request, ActionRequest::Fail(ActionFailure::Preset(_))));
}
