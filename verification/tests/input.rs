use hd2_preset_helper::automation::AutomationSession;
use hd2_preset_helper::capture::{CapturePixelFormat, CaptureSource, DisplayColorInfo};
use hd2_preset_helper::hotkeys::{HotkeyPlan, Hotkeys, Registration};
use hd2_preset_helper::input::{
    is_pressed, HotkeyModifier, HotkeyModifiers, HotkeySpec, Key, ModifiersError,
};
use hd2_preset_helper::input_session::{
    keyboard_input, normalize_absolute_mouse_coord, InjectedInput, InputError, InputSession,
    InputStep,
};
use hd2_preset_helper::vision::ImageRect;
use hd2_preset_helper::window::{
    clamp, find_game_window_once, ClientCrop, ClientPoint, LookupStep, VirtualScreen, WindowError,
    WindowLookup, WindowTarget, GAME_WINDOW_TITLE,
};

fn game() -> WindowTarget {
    WindowTarget {
        handle: 7,
        title: String::from(GAME_WINDOW_TITLE),
        origin_x: 100,
        origin_y: 50,
        client_w: 1920,
        client_h: 1080,
    }
}

fn screen() -> VirtualScreen {
    VirtualScreen { left: 0, top: 0, width: 3840, height: 2160 }
}

fn ctrl_shift() -> HotkeyModifiers {
    HotkeyModifiers::new(vec![HotkeyModifier::Ctrl, HotkeyModifier::Shift]).unwrap()
}

#[test]
fn function_keys_have_codes_and_names() {
    assert_eq!(Key::F1.virtual_key(), 0x70);
    assert_eq!(Key::F12.virtual_key(), 0x7b);
    assert_eq!(Key::F1.scan_code(), 0x3b);
    assert!(Key::F7.is_function_key());
    assert!(!Key::B.is_function_key());
    assert_eq!(Key::F7.name(), "F7");
}

#[test]
fn codes_tell_keys_apart() {
    let keys = [Key::F1, Key::F7, Key::F12, Key::B];
    for left in keys {
        for right in keys {
            assert_eq!(left == right, left.virtual_key() == right.virtual_key());
            assert_eq!(left == right, left.scan_code() == right.scan_code());
        }
    }
}

#[test]
fn modifiers_are_checked() {
    let twice = HotkeyModifiers::new(vec![HotkeyModifier::Alt, HotkeyModifier::Alt]);
    assert!(matches!(
        twice,
        Err(ModifiersError::Duplicate { modifier: HotkeyModifier::Alt })
    ));
    let many = HotkeyModifiers::new(vec![
        HotkeyModifier::Alt,
        HotkeyModifier::Ctrl,
        HotkeyModifier::Shift,
        HotkeyModifier::Win,
        HotkeyModifier::Alt,
    ]);
    assert!(matches!(many, Err(ModifiersError::TooMany { given: 5 })));
}

#[test]
fn modifiers_have_flags_and_labels() {
    let modifiers = ctrl_shift();
    assert_eq!(modifiers.hotkey_modifiers(), 0x4000 + 0x2 + 0x4);
    assert_eq!(modifiers.label_with_key(Key::F7), "Ctrl + Shift + F7");
    assert_eq!(modifiers.iter().len(), 2);
    assert_eq!(modifiers.release_keys().len(), 4);
    let spec = HotkeySpec { id: 1001, modifiers, key: Key::F8 };
    assert_eq!(spec.label(), "Ctrl + Shift + F8");
}

#[test]
fn modifiers_are_down_with_either_side() {
    let modifiers = ctrl_shift();
    let (left_ctrl, right_ctrl) = HotkeyModifier::Ctrl.release_keys();
    let (left_shift, _) = HotkeyModifier::Shift.release_keys();
    assert!(!modifiers.is_down(&vec![left_ctrl]));
    assert!(modifiers.is_down(&vec![left_ctrl, left_shift]));
    assert!(modifiers.is_down(&vec![right_ctrl, left_shift]));
    assert!(is_pressed(left_ctrl, &vec![left_ctrl]));
    assert!(!is_pressed(left_ctrl, &vec![right_ctrl]));
}

#[test]
fn taps_and_clicks_end_released() {
    let mut session = InputSession::new(game(), true).unwrap();
    let steps = session.tap_key(Key::B, 45, true).unwrap();
    assert_eq!(
        steps,
        vec![
            InputStep::Send(keyboard_input(Key::B, false)),
            InputStep::Wait(45),
            InputStep::Send(keyboard_input(Key::B, true)),
        ]
    );
    for step in steps {
        if let InputStep::Send(input) = step {
            assert!(session.sent(input, true).is_ok());
        }
    }
    assert!(session.release_held_inputs().is_empty());

    let clicks = session.click_current(45, true).unwrap();
    assert_eq!(clicks[0], InputStep::Send(InjectedInput::LeftDown));
    assert_eq!(clicks[2], InputStep::Send(InjectedInput::LeftUp));
}

#[test]
fn held_inputs_are_released_in_reverse() {
    let mut session = InputSession::new(game(), true).unwrap();
    assert!(session.sent(keyboard_input(Key::F1, false), true).is_ok());
    assert!(session.sent(keyboard_input(Key::B, false), true).is_ok());
    assert!(session.sent(InjectedInput::LeftDown, true).is_ok());
    assert_eq!(session.sent(keyboard_input(Key::F2, false), false), Err(InputError::NotAccepted));
    assert_eq!(
        session.release_held_inputs(),
        vec![
            InjectedInput::LeftUp,
            keyboard_input(Key::B, true),
            keyboard_input(Key::F1, true),
        ]
    );
    assert!(session.release_held_inputs().is_empty());
}

#[test]
fn input_needs_the_focus() {
    assert!(matches!(InputSession::new(game(), false), Err(InputError::TargetLost)));
    let session = InputSession::new(game(), true).unwrap();
    assert_eq!(session.scroll(1, false), Err(InputError::TargetLost));
    assert_eq!(session.scroll(-5, true), Ok(InjectedInput::Wheel { delta: -600 }));
    assert!(matches!(session.tap_key(Key::B, 1, false), Err(InputError::TargetLost)));
}

#[test]
fn the_cursor_moves_in_units_of_the_screen() {
    assert_eq!(normalize_absolute_mouse_coord(0, 3840), 0);
    assert_eq!(normalize_absolute_mouse_coord(3839, 3840), 65535);
    assert_eq!(normalize_absolute_mouse_coord(1, 1), 0);
    assert_eq!(normalize_absolute_mouse_coord(-5, 1), 0);
    let session = InputSession::new(game(), true).unwrap();
    let moved = session.move_cursor(ClientPoint { x: 10, y: 20 }, screen(), true).unwrap();
    assert_eq!(
        moved,
        InjectedInput::MoveTo { dx: 110 * 65535 / 3839, dy: 70 * 65535 / 2159 }
    );
}

#[test]
fn automation_maps_points_of_the_region() {
    let crop = ClientCrop { x: 0, y: 0, w: 1920, h: 1080 };
    let display = DisplayColorInfo { hdr_active: false, sdr_white_level: 1000 };
    let source = CaptureSource::new_for_window_target(&game(), crop, 1920, 1080, display).unwrap();
    assert_eq!(source.pixel_format, CapturePixelFormat::Bgra8);
    let region = source.region(ImageRect { x: 60, y: 30, w: 500, h: 600 });
    let automation = AutomationSession::new(region, game(), true).unwrap();
    let moved = automation.move_cursor((5, 6), screen(), true).unwrap();
    assert_eq!(
        moved,
        InjectedInput::MoveTo { dx: 165 * 65535 / 3839, dy: 86 * 65535 / 2159 }
    );
    let steps = automation.click((5, 6), screen(), 45, true).unwrap();
    assert_eq!(steps[0], InputStep::Send(moved));
    assert_eq!(steps[1], InputStep::Wait(30));
    assert_eq!(steps.len(), 5);
    assert_eq!(automation.scroll(2, true), Ok(InjectedInput::Wheel { delta: 240 }));
    assert_eq!(automation.tap_key(Key::B, 45, true).unwrap().len(), 3);
    assert_eq!(automation.click_current(45, true).unwrap().len(), 3);
    assert!(matches!(automation.click_current(45, false), Err(InputError::TargetLost)));
    assert!(automation.into_input().release_held_inputs().is_empty());
}

#[test]
fn hotkeys_are_registered_together_or_not_at_all() {
    let modifiers = ctrl_shift();
    let specs = vec![
        HotkeySpec { id: 1001, modifiers, key: Key::F7 },
        HotkeySpec { id: 1002, modifiers, key: Key::F8 },
        HotkeySpec { id: 1003, modifiers, key: Key::F9 },
    ];
    let mut hotkeys = Hotkeys::new(&specs);
    assert!(matches!(hotkeys.set_enabled(false), HotkeyPlan::Nothing));
    assert!(matches!(hotkeys.set_enabled(true), HotkeyPlan::RegisterAll));
    match hotkeys.registered(&vec![true, false, true]) {
        Registration::RolledBack { unregister, refused } => {
            assert_eq!(unregister, vec![1001, 1003]);
            assert_eq!(refused, vec![String::from("Ctrl + Shift + F8")]);
        }
        Registration::Enabled => panic!("one was refused"),
    }
    assert!(matches!(hotkeys.set_enabled(true), HotkeyPlan::RegisterAll));
    assert!(matches!(hotkeys.registered(&vec![true, true, true]), Registration::Enabled));
    assert!(matches!(hotkeys.set_enabled(true), HotkeyPlan::Nothing));
    assert!(matches!(hotkeys.set_enabled(false), HotkeyPlan::UnregisterAll));
    hotkeys.unregistered(true);
    assert!(matches!(hotkeys.set_enabled(false), HotkeyPlan::Nothing));
}

#[test]
fn hotkeys_are_read_and_released() {
    let modifiers = ctrl_shift();
    let specs = vec![HotkeySpec { id: 1001, modifiers, key: Key::F7 }];
    let mut hotkeys = Hotkeys::new(&specs);
    assert!(matches!(hotkeys.registered(&vec![true]), Registration::Enabled));
    let mut pending = vec![1001, 1001];
    assert_eq!(hotkeys.next_trigger(&mut pending), Some(1001));
    hotkeys.discard_pending(&mut pending);
    assert_eq!(hotkeys.next_trigger(&mut pending), None);
    assert!(hotkeys.is_released(1001, &vec![]));
    assert!(!hotkeys.is_released(1001, &vec![Key::F7]));
    let (left_ctrl, _) = HotkeyModifier::Ctrl.release_keys();
    assert!(!hotkeys.is_released(1001, &vec![left_ctrl]));
}

#[test]
fn the_game_window_is_found_by_its_title() {
    assert!(matches!(find_game_window_once(None), Err(WindowError::NoForegroundWindow)));
    let mut other = game();
    other.title = String::from("Notepad");
    match find_game_window_once(Some(other)) {
        Err(WindowError::OtherWindow { title }) => assert_eq!(title, "Notepad"),
        _ => panic!("another window"),
    }
    assert!(find_game_window_once(Some(game())).is_ok());
    assert_eq!(GAME_WINDOW_TITLE, "HELLDIVERS\u{2122} 2");
}

#[test]
fn the_window_is_looked_for_ten_times() {
    let mut lookup = WindowLookup::new();
    for _ in 0..9 {
        let step = lookup.step(Err(WindowError::NoForegroundWindow));
        assert!(matches!(step, LookupStep::RetryAfter(50)));
    }
    let last = lookup.step(Err(WindowError::NoForegroundWindow));
    assert!(matches!(last, LookupStep::Failed(WindowError::NoForegroundWindow)));
    let mut lucky = WindowLookup::new();
    assert!(matches!(lucky.step(Ok(game())), LookupStep::Found(_)));
    assert_eq!(clamp(7, 0, 5), 5);
    assert_eq!(clamp(-7, 0, 5), 0);
}

#[test]
fn keys_are_found_by_their_names() {
    assert_eq!(Key::from_config_name("f1"), Some(Key::F1));
    assert_eq!(Key::from_config_name("f12"), Some(Key::F12));
    assert_eq!(Key::from_config_name("F1"), None);
    assert_eq!(Key::from_config_name("b"), None);
    assert_eq!(HotkeyModifier::from_name("ctrl"), Some(HotkeyModifier::Ctrl));
    assert_eq!(HotkeyModifier::from_name("win"), Some(HotkeyModifier::Win));
    assert_eq!(HotkeyModifier::from_name("Ctrl"), None);
}
