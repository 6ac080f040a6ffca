use hd2_preset_helper::app_events::{AppEvent, OverlayPreset, OverlayPresetStatus, PresetCompletion};
use hd2_preset_helper::item::ItemKind;
use hd2_preset_helper::overlay::{OverlayEventPolicy, OverlayModel, OverlayTone};
use hd2_preset_helper::overlay_layout::{
    centered_y, fit_label_width, overlay_position, overlay_row_count, paint_overlay,
    refresh_status_metrics, rgb, status_text_width, tone_color, DrawOp, OverlayFont,
    OverlayMetrics, OverlayRect, ScaledSizes, TextStyle,
};
use hd2_preset_helper::overlay_visibility::{OverlayTimer, OverlayVisibility, VisibilityAction};
use hd2_preset_helper::text::{compact_error, first_error_line, trim};

fn text(value: &str) -> String {
    String::from(value)
}

fn row(name: &str, status: OverlayPresetStatus) -> OverlayPreset {
    OverlayPreset {
        key_label: "F7",
        name: text(name),
        label: None,
        stratagems: vec![text("a"), text("b"), text("c"), text("d")],
        booster: Some(text("x")),
        fallback_booster: None,
        status,
    }
}

fn model() -> OverlayModel {
    let mut model = OverlayModel::new();
    let presets = vec![
        row("preset_1", OverlayPresetStatus::Ready),
        row("preset_2", OverlayPresetStatus::NotSaved),
    ];
    assert!(model.apply(AppEvent::PresetListUpdated { presets }).unwrap().presets_changed);
    model
}

#[test]
fn starting_a_preset_holds_the_overlay() {
    let mut model = OverlayModel::new();
    assert_eq!(model.status, "Waiting for preset hotkey");
    let update = model.apply(AppEvent::PresetStarted { preset: text("preset_1") }).unwrap();
    assert_eq!(update.policy, OverlayEventPolicy::Hold);
    assert!(!update.presets_changed);
    assert_eq!(model.status, "Starting");
    assert_eq!(model.tone, OverlayTone::Working);
}

#[test]
fn progress_is_counted() {
    let mut model = model();
    assert_eq!(model.status, "Ready");
    let started =
        AppEvent::ListSelectionStarted { item_kind: ItemKind::Stratagem, requested_items: 4 };
    assert!(model.apply(started).is_some());
    assert_eq!(model.status, "Selecting stratagem: 0/4");
    assert!(model.apply(AppEvent::ItemSelected).is_some());
    assert!(model.apply(AppEvent::ItemSelected).is_some());
    assert_eq!(model.status, "Selected 2/4");
    model.set_ready();
    assert!(model.apply(AppEvent::ItemSelected).is_some());
    assert_eq!(model.status, "Selected 1");
}

#[test]
fn a_saved_preset_is_shown_as_ready() {
    let mut model = model();
    let update = model
        .apply(AppEvent::PresetSaved {
            preset: text("preset_2"),
            stratagems: vec![text("e")],
            booster: None,
        })
        .unwrap();
    assert!(update.presets_changed);
    assert_eq!(update.policy, OverlayEventPolicy::HideAfter(2000));
    assert!(matches!(model.presets[1].status, OverlayPresetStatus::Ready));
    assert_eq!(model.presets[1].stratagems, vec![text("e")]);
    assert_eq!(model.presets[0].stratagems.len(), 4);
    assert_eq!(model.presets[0].name, "preset_1");
}

#[test]
fn ends_of_a_preset_are_told_apart() {
    let ends = [
        (PresetCompletion::Complete, "Done", OverlayTone::Success, 2000),
        (
            PresetCompletion::BoosterUnavailable,
            "Booster already in use",
            OverlayTone::Warning,
            5000,
        ),
        (
            PresetCompletion::FallbackBoosterSaved { path: text("y") },
            "Fallback Booster saved",
            OverlayTone::Success,
            2000,
        ),
        (
            PresetCompletion::FallbackBoosterNotSaved,
            "Fallback Booster not saved",
            OverlayTone::Warning,
            5000,
        ),
    ];
    for (completion, status, tone, delay) in ends {
        let mut model = model();
        let fallback = matches!(completion, PresetCompletion::FallbackBoosterSaved { .. });
        let done = AppEvent::PresetDone { preset: text("preset_1"), completion };
        let update = model.apply(done).unwrap();
        assert_eq!(model.status, status);
        assert_eq!(model.tone, tone);
        assert_eq!(update.policy, OverlayEventPolicy::HideAfter(delay));
        assert_eq!(update.presets_changed, fallback);
        assert_eq!(model.shows_fallback_booster(), fallback);
    }
}

#[test]
fn failures_and_cancellations_are_shown() {
    let mut model = model();
    let failed = AppEvent::PresetFailed { preset: text("preset_1"), error: text(" lost \nmore") };
    assert_eq!(model.apply(failed).unwrap().policy, OverlayEventPolicy::HideAfter(5000));
    assert_eq!(model.status, "Failed: lost");
    assert_eq!(model.tone, OverlayTone::Error);
    let cancelled = AppEvent::PresetCancelled { preset: text("preset_1"), reason: text("late") };
    assert!(model.apply(cancelled).is_some());
    assert_eq!(model.status, "Cancelled: late");
    assert!(model.apply(AppEvent::UiStateDetected { state: "home_empty" }).is_some());
    assert_eq!(model.status, "Detected UI: home_empty");
    assert!(model.apply(AppEvent::Shutdown).is_none());
    assert!(model.apply(AppEvent::ModifiersChanged(true)).is_none());
    assert_eq!(model.status, "Detected UI: home_empty");
}

#[test]
fn errors_are_shortened() {
    assert_eq!(first_error_line("\u{a0} one \r\ntwo"), "one");
    assert_eq!(first_error_line(""), "");
    assert_eq!(trim("\t a b \n"), "a b");
    let seventy = "x".repeat(70);
    assert_eq!(compact_error(&seventy), seventy);
    assert_eq!(compact_error(&"x".repeat(71)), format!("{}...", "x".repeat(67)));
}

fn sizes() -> ScaledSizes {
    ScaledSizes {
        screen_margin: 24,
        window_w: 224,
        padding: 16,
        title_y: 11,
        title_h: 20,
        title_gap: 9,
        row_h: 28,
        row_gap: 5,
        status_gap: 6,
        status_separator_gap: 4,
        status_h: 24,
        bottom_padding: 16,
        icon_size: 28,
        icon_gap: 2,
        key_w: 32,
        key_h: 18,
        key_icon_gap: 9,
        label_icon_gap: 8,
        label_pad: 2,
        accent_w: 3,
        text_pad_x: 7,
        text_pad_y: 2,
        line_h: 18,
        not_saved_w: 170,
        title_font: 14,
        body_font: 13,
        small_font: 12,
    }
}

#[test]
fn the_overlay_is_laid_out() {
    let metrics = OverlayMetrics::from_sizes(sizes(), 4, 0);
    assert_eq!(metrics.row_y, 40);
    assert_eq!(metrics.status_y, 40 + 4 * 28 + 3 * 5 + 6);
    assert_eq!(metrics.window_h, metrics.status_y + 24 + 16);
    assert_eq!(metrics.row_w, 192);
    assert_eq!(metrics.key_x, (224 - 189) / 2);
    assert_eq!(metrics.icon_x, 17 + 32 + 9);
    let wide = metrics.with_label_width(2, 50);
    assert_eq!(wide.window_w, 224 + 50 + 8);
    assert_eq!(wide.icon_x, wide.label_x + 58);
    assert_eq!(wide.with_preset_count(4).status_y, metrics.status_y);
    assert_eq!(metrics.with_status_height(10).status_h, 24);
    assert_eq!(metrics.with_status_height(60).window_h, metrics.status_y + 60 + 16);
    assert_eq!(overlay_position(metrics, 1920), (1920 - 224 - 24, 24));
    assert_eq!(overlay_position(metrics, 100), (-24, 24));
    assert_eq!(status_text_width(metrics), 192 - 14);
    assert_eq!(overlay_row_count(0), 1);
    assert_eq!(overlay_row_count(30), 12);
    assert_eq!(centered_y(10, 28, 18), 15);
    assert_eq!(centered_y(10, 18, 28), 10);
}

#[test]
fn labels_are_limited_by_the_screen() {
    assert_eq!(fit_label_width(sizes(), 0, 1920), 0);
    assert_eq!(fit_label_width(sizes(), 60, 1920), 62);
    assert_eq!(fit_label_width(sizes(), 5000, 400), 400 - 48 - 224 - 8);
    assert_eq!(fit_label_width(sizes(), 5000, 100), 0);
    let metrics = OverlayMetrics::from_sizes(sizes(), 4, 0);
    assert_eq!(refresh_status_metrics(metrics, 3, 60, 1920).label_w, 62);
}

#[test]
fn colors_are_packed() {
    assert_eq!(rgb(1, 2, 3), 0x030201);
    assert_eq!(tone_color(OverlayTone::Info), rgb(118, 210, 255));
    assert_eq!(tone_color(OverlayTone::Error), rgb(255, 120, 120));
}

#[test]
fn rows_are_painted() {
    let mut model = model();
    model.presets[0].label = Some(text("Bugs"));
    model.presets.push(row("preset_3", OverlayPresetStatus::Invalid(text("missing q"))));
    model.active_preset = Some(text("preset_1"));
    let metrics = OverlayMetrics::from_sizes(sizes(), 3, 40);
    let ops = paint_overlay(metrics, &model);
    match &ops[0] {
        DrawOp::Fill { area, paint } => {
            assert_eq!(
                *area,
                OverlayRect { left: 0, top: 0, right: metrics.window_w, bottom: metrics.window_h }
            );
            assert_eq!(*paint, rgb(18, 22, 26));
        }
        _ => panic!("the background comes first"),
    }
    let icons = ops.iter().filter(|op| matches!(op, DrawOp::Icon { .. })).count();
    assert_eq!(icons, 5);
    let lines: Vec<&str> = ops
        .iter()
        .filter_map(|op| match op {
            DrawOp::Text { text, .. } => Some(text.as_str()),
            _ => None,
        })
        .collect();
    assert_eq!(
        lines,
        vec![
            "HD2 Preset Helper",
            "F7",
            "Bugs",
            "F7",
            "not saved",
            "F7",
            "invalid: missing q",
            "Ready",
        ]
    );
    assert!(ops.iter().any(|op| matches!(
        op,
        DrawOp::Text { font: OverlayFont::Small, style: TextStyle::Centered, .. }
    )));
    assert!(ops.iter().any(|op| matches!(
        op,
        DrawOp::Icon { item_id, x, y }
            if item_id == "x" && *x == metrics.icon_x + 4 * 30 && *y == metrics.row_y
    )));
}

#[test]
fn the_overlay_stays_while_modifiers_are_held() {
    let mut shown = OverlayVisibility::new(true);
    let actions = shown.drain_app_events(Some(OverlayEventPolicy::HideAfter(2000)), 100);
    assert_eq!(actions.len(), 4);
    assert_eq!(actions[3], VisibilityAction::Show);
    assert_eq!(shown.hide_deadline, None);
    let actions = shown.handle_modifier_change(false, 200);
    assert_eq!(
        actions,
        vec![VisibilityAction::StartTimer { timer: OverlayTimer::Hide, delay: 120 }]
    );
    assert_eq!(shown.hide_deadline, Some(320));
}

#[test]
fn a_stale_timer_does_not_fade_the_overlay() {
    let mut shown = OverlayVisibility::new(false);
    shown.drain_app_events(Some(OverlayEventPolicy::HideAfter(2000)), 0);
    shown.drain_app_events(Some(OverlayEventPolicy::HideAfter(5000)), 1990);
    let actions = shown.handle_hide_timer(2000);
    assert_eq!(
        actions[1],
        VisibilityAction::StartTimer { timer: OverlayTimer::Hide, delay: 4990 }
    );
    assert_eq!(shown.fade_started, None);
    shown.drain_app_events(Some(OverlayEventPolicy::Hold), 3000);
    assert_eq!(shown.handle_hide_timer(9000).len(), 1);
    assert_eq!(shown.fade_started, None);
}

#[test]
fn the_overlay_fades_and_hides() {
    let mut shown = OverlayVisibility::new(false);
    shown.drain_app_events(Some(OverlayEventPolicy::HideAfter(2000)), 0);
    let actions = shown.handle_hide_timer(2000);
    assert_eq!(
        actions[1],
        VisibilityAction::StartTimer { timer: OverlayTimer::Fade, delay: 16 }
    );
    assert_eq!(shown.update_fade(2016), vec![VisibilityAction::Fade { elapsed: 16 }]);
    assert_eq!(
        shown.update_fade(2180),
        vec![
            VisibilityAction::CancelTimer(OverlayTimer::Fade),
            VisibilityAction::Hide,
            VisibilityAction::SetReady,
            VisibilityAction::Resize,
        ]
    );
    assert_eq!(
        shown.update_fade(2200),
        vec![VisibilityAction::CancelTimer(OverlayTimer::Fade)]
    );
}
