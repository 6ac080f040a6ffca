use hd2_preset_helper::app_paths::AppPaths;
use hd2_preset_helper::messages::{
    config_reset_message, fatal_error_message, preset_format_message,
};
use hd2_preset_helper::monitors::{
    available, find_desktop, replace_part, resolve_bounds, Desktop, DisplayPath, MonitorBounds,
};
use hd2_preset_helper::permissions::{
    ensure_input_access, find_game_process_id, game_access, AccessError, AccessStep, ProcessEntry,
};
use hd2_preset_helper::platform::{
    eq_ignore_ascii_case, show_error, show_notice, wide_null, wide_string, SingleInstance,
    INSTANCE_MARK,
};
use hd2_preset_helper::preset_action::PresetActionOptions;
use hd2_preset_helper::text::{is_before, push_decimal};
use hd2_preset_helper::tray::{
    menu_event, settings_entries, spawn, MenuChange, MenuEntry, MonitorMenu, TrayEvent, TrayUpdate,
};

fn text(value: &str) -> String {
    String::from(value)
}

#[test]
fn texts_are_encoded_and_read_back() {
    assert_eq!(wide_null("aB"), vec![0x61, 0x42, 0]);
    assert_eq!(wide_null("\u{1f600}"), vec![0xd83d, 0xde00, 0]);
    for value in ["", "plain", "\u{2122} \u{10ffff}"] {
        assert_eq!(wide_string(&wide_null(value)), value);
    }
    assert_eq!(wide_string(&vec![0x61, 0xd800, 0x62]), "a\u{fffd}b");
    assert_eq!(wide_string(&vec![0x61, 0, 0x62]), "a");
    assert_eq!(wide_string(&vec![0x61, 0x62]), "ab");
}

#[test]
fn case_is_ignored_for_ascii_only() {
    assert!(eq_ignore_ascii_case("Abc-1", "aBC-1"));
    assert!(eq_ignore_ascii_case("aBC-1", "Abc-1"));
    assert!(!eq_ignore_ascii_case("ab", "abc"));
    assert!(!eq_ignore_ascii_case("\u{e9}", "\u{c9}"));
    assert!(!eq_ignore_ascii_case("@", "`"));
}

#[test]
fn numbers_and_names_are_ordered() {
    let mut shown = text("n = ");
    push_decimal(&mut shown, 0);
    push_decimal(&mut shown, u64::MAX);
    assert_eq!(shown, format!("n = 0{}", u64::MAX));
    let names = ["", "a", "ab", "b", "preset_1", "preset_10", "preset_2", "\u{e9}"];
    for left in names {
        for right in names {
            assert_eq!(is_before(left, right), left < right);
        }
    }
}

#[test]
fn messages_are_shown_in_a_box() {
    let error = show_error("T", "M");
    assert_eq!(error.title, wide_null("T"));
    assert_eq!(error.message, wide_null("M"));
    assert_eq!(error.flags, 0x1_0010);
    assert_eq!(show_notice("T", "M").flags, 0x1_0040);
}

#[test]
fn line_ends_are_written_out() {
    assert_eq!(
        fatal_error_message("one\ntwo\r\nthree", None),
        "HD2 Preset Helper could not start or encountered a fatal error.\r\n\r\none\r\ntwo\r\nthree"
    );
    assert_eq!(
        fatal_error_message("x", Some("app.log")),
        "HD2 Preset Helper could not start or encountered a fatal error.\r\n\r\nx\r\n\r\nSee app.log for more information if the log was created."
    );
    assert_eq!(
        config_reset_message("P", "C"),
        "The configuration file was reset for this version.\r\n\r\nSaved presets in\r\nP\r\nwere not changed.\r\n\r\nIf you previously customized the settings, configure them again in\r\nC\r\n\r\nIf you used a custom preset path, move that preset file to the location shown above."
    );
    assert_eq!(
        preset_format_message("B"),
        "The preset format changed in this version.\r\n\r\nPresets created by an earlier version cannot be used and must be recreated in game.\r\n\r\nThe old preset file was backed up to:\r\nB\r\n\r\nYour configuration was not changed."
    );
}

#[test]
fn only_one_instance_runs() {
    assert!(SingleInstance::try_acquire(5, true).is_none());
    assert_eq!(SingleInstance::try_acquire(5, false).unwrap().handle, 5);
    assert_eq!(INSTANCE_MARK, "Local\\HD2PresetHelper");
}

#[test]
fn the_game_may_not_be_elevated() {
    let entry = |name: &str, id: u32| ProcessEntry { name: wide_null(name), id };
    let running = vec![entry("explorer.exe", 1), entry("HELLDIVERS2.exe", 7)];
    assert_eq!(find_game_process_id(&running), Ok(7));
    assert_eq!(find_game_process_id(&vec![]), Err(AccessError::NotRunning));
    assert_eq!(ensure_input_access(true, &vec![]), Ok(AccessStep::Granted));
    assert_eq!(
        ensure_input_access(false, &running),
        Ok(AccessStep::InspectProcess { id: 7 })
    );
    assert_eq!(ensure_input_access(false, &vec![]), Err(AccessError::NotRunning));
    assert_eq!(game_access(false), Ok(()));
    assert_eq!(game_access(true), Err(AccessError::HigherPrivileges));
}

fn bounds(left: i32) -> MonitorBounds {
    MonitorBounds { left, top: 0, right: left + 100, bottom: 80 }
}

fn desktops() -> Vec<Desktop> {
    vec![
        Desktop { device: text(r"\\.\display2"), primary: false, bounds: bounds(100) },
        Desktop { device: text(r"\\.\DISPLAY1"), primary: true, bounds: bounds(0) },
    ]
}

fn path(source: &str, id: &str, name: &str) -> DisplayPath {
    DisplayPath { source_name: text(source), id: text(id), name: text(name) }
}

#[test]
fn monitors_are_listed_by_label() {
    let paths = vec![
        path(r"\\.\DISPLAY2", "two", ""),
        path(r"\\.\DISPLAY1", "one", "Big"),
        path(r"\\.\DISPLAY9", "nine", "Gone"),
        path(r"\\.\DISPLAY2", "", "Nameless"),
    ];
    let listed = available(&paths, &desktops());
    assert_eq!(listed.len(), 2);
    assert_eq!(listed[0].label, "Display 1 \u{2014} Big (Primary)");
    assert_eq!(listed[1].label, "Display 2");
    assert_eq!(listed[1].bounds, bounds(100));
    assert_eq!(find_desktop(&desktops(), &text(r"\\.\DISPLAY2")), Some(0));
    assert_eq!(find_desktop(&desktops(), &text("x")), None);

    assert_eq!(resolve_bounds(Some(&text("ONE")), Some(&listed)), Some(bounds(0)));
    assert_eq!(resolve_bounds(Some(&text("three")), Some(&listed)), None);
    assert_eq!(resolve_bounds(None, Some(&listed)), None);
    assert_eq!(resolve_bounds(Some(&text("one")), None), None);
}

#[test]
fn parts_are_replaced_from_the_left() {
    assert_eq!(replace_part("aaa", "aa", "b"), "ba");
    assert_eq!(replace_part("x&y&", "&", "&&"), "x&&y&&");
    assert_eq!(replace_part("", "a", "b"), "");
}

fn options() -> PresetActionOptions {
    PresetActionOptions {
        apply_in_saved_order: true,
        auto_ready_up: false,
        save_fallback_when_taken: false,
    }
}

#[test]
fn menu_items_become_events() {
    let mut tray = spawn(options());
    assert_eq!(tray.settings(), options());
    assert!(tray.try_event().is_none());
    let known = ["apply_in_saved_order", "auto_ready_up", "save_fallback_when_taken", "close"];
    for id in known {
        assert!(menu_event(&text(id)).is_some());
        tray.choose_item(&text(id));
    }
    tray.choose_item(&text("nothing"));
    assert!(matches!(tray.try_event(), Some(TrayEvent::ToggleApplyInSavedOrder)));
    assert!(matches!(tray.try_event(), Some(TrayEvent::ToggleAutoReadyUp)));
    assert!(matches!(tray.try_event(), Some(TrayEvent::ToggleSaveFallbackWhenTaken)));
    assert!(matches!(tray.try_event(), Some(TrayEvent::ExitRequested)));
    assert!(tray.try_event().is_none());
    assert!(matches!(
        menu_event(&text("overlay_monitor:one")),
        Some(TrayEvent::SetOverlayMonitor(id)) if id == "one"
    ));
}

#[test]
fn the_monitor_menu_marks_the_choice() {
    let paths = vec![path(r"\\.\DISPLAY1", "one", "A & B")];
    let monitors = available(&paths, &desktops());
    let menu = MonitorMenu { automatic: text("auto"), selected: text("ONE"), monitors };
    let entries = menu.rebuild();
    assert_eq!(entries.len(), 3);
    assert!(matches!(
        &entries[0],
        MenuEntry::Choice { id, text, checked: false }
            if id == "overlay_monitor:auto" && text == "Follow game"
    ));
    assert!(matches!(entries[1], MenuEntry::Separator));
    assert!(matches!(
        &entries[2],
        MenuEntry::Choice { id, text, checked: true }
            if id == "overlay_monitor:one" && text == "Display 1 \u{2014} A && B (Primary)"
    ));
    let missing = MonitorMenu { automatic: text("auto"), selected: text("two"), monitors: vec![] };
    assert!(matches!(
        &missing.rebuild()[2],
        MenuEntry::Missing { text } if text == "Saved display (Unavailable)"
    ));
    let follow = MonitorMenu { automatic: text("auto"), selected: text("auto"), monitors: vec![] };
    assert_eq!(follow.rebuild().len(), 2);
}

#[test]
fn the_menu_shows_the_settings() {
    let shown: Vec<(String, String, bool)> = settings_entries(options())
        .into_iter()
        .map(|entry| match entry {
            MenuEntry::Choice { id, text, checked } => (id, text, checked),
            _ => panic!("not a setting"),
        })
        .collect();
    let expected = [
        ("apply_in_saved_order", "Apply in saved order", options().apply_in_saved_order),
        ("auto_ready_up", "Auto ready up", options().auto_ready_up),
        (
            "save_fallback_when_taken",
            "Save fallback for taken Booster",
            options().save_fallback_when_taken,
        ),
    ];
    assert_eq!(shown, expected.map(|(id, label, checked)| (text(id), text(label), checked)));
    for (id, _, _) in shown {
        assert!(menu_event(&id).is_some());
    }
}

#[test]
fn the_monitor_menu_follows_changes() {
    let listed = || available(&vec![path(r"\\.\DISPLAY1", "one", "A")], &desktops());
    let other = || available(&vec![path(r"\\.\DISPLAY1", "one", "B")], &desktops());
    let mut menu =
        MonitorMenu { automatic: text("auto"), selected: text("auto"), monitors: listed() };
    let still = MenuChange { settings: None, monitors: false };
    let changed = MenuChange { settings: None, monitors: true };
    assert_eq!(menu.refresh::<()>(&vec![], None), still);
    assert_eq!(menu.refresh::<()>(&vec![], Some(Ok(listed()))), still);
    assert_eq!(menu.refresh(&vec![], Some(Err("unavailable"))), still);
    assert_eq!(menu.monitors.len(), 1);
    assert_eq!(menu.refresh::<()>(&vec![], Some(Ok(other()))), changed);
    assert_eq!(menu.monitors[0].label, other()[0].label);
    let options = PresetActionOptions {
        apply_in_saved_order: true,
        auto_ready_up: false,
        save_fallback_when_taken: true,
    };
    let updates = vec![
        TrayUpdate::Monitor(text("two")),
        TrayUpdate::Settings(PresetActionOptions { auto_ready_up: true, ..options }),
        TrayUpdate::Monitor(text("auto")),
        TrayUpdate::Settings(options),
    ];
    let change = menu.refresh::<()>(&updates, None);
    assert_eq!(change, MenuChange { settings: Some(options), monitors: true });
    assert_eq!(menu.selected, "auto");
}

#[test]
fn files_lie_in_the_data_directory() {
    let paths = AppPaths::resolve("C:/helper");
    assert!(paths.config.starts_with("C:/helper"));
    assert!(paths.config.ends_with("config.toml"));
    assert!(paths.presets.ends_with("presets.json"));
    assert!(paths.log.ends_with("app.log"));
    assert!(paths.last_failure.ends_with("last_failure"));
}

#[test]
fn directories_are_joined_as_windows_has_it() {
    let failure = |directory: &str| AppPaths::resolve(directory).last_failure;
    assert_eq!(failure(r"C:\helper"), r"C:\helper\data\debug/last_failure");
    assert_eq!(failure(r"C:\"), r"C:\data\debug/last_failure");
    assert_eq!(failure("C:"), r"C:data\debug/last_failure");
    assert_eq!(failure("1:"), r"1:\data\debug/last_failure");
    assert_eq!(failure(""), r"data\debug/last_failure");
    assert_eq!(failure(r"\\?\C:\helper"), r"\\?\C:\helper\data\debug\last_failure");
    assert_eq!(failure(r"\\?\C:\a\\b/c\"), r"\\?\C:\a\b/c\data\debug\last_failure");
    assert_eq!(failure(r"\\?\C:"), r"\\?\C:\data\debug\last_failure");
    assert_eq!(failure(r"\\?\C:/"), r"\\?\C:\data\debug\last_failure");
    let share = r"\\?\UNC\server\share";
    assert_eq!(failure(share), r"\\?\UNC\server\share\data\debug\last_failure");
    assert_eq!(failure(r"\\?\volume\\x"), r"\\?\volume\x\data\debug\last_failure");
}
