use hd2_preset_helper::assets::{
    default_calibration, default_icon_manifest, icon_image, json_start, resize_rgba_box,
    validate_item_id, CatalogError, IconCatalog, IconManifestItem, ItemDefect, PngError,
};
use hd2_preset_helper::config::{
    config_reset_action, load_app_config, name_preset, save_preset_setting, validate_hotkey_keys,
    validate_preset_labels, AppConfig, ConfigError, ConfigResetAction, PresetLabel, SettingError,
};
use hd2_preset_helper::input::Key;
use hd2_preset_helper::item::{ItemKind, StratagemCategory};
use hd2_preset_helper::overlay_icons::{
    compose_icon, fit_inside, icons_to_warm, render_image, render_item_icon, IconError,
};
use hd2_preset_helper::app_events::{OverlayPreset, OverlayPresetStatus};
use hd2_preset_helper::vision::{Frame, Rgba};
use image::{ExtendedColorType, ImageEncoder};

fn text(value: &str) -> String {
    String::from(value)
}

fn png(samples: &[u8], width: u32, height: u32, color: ExtendedColorType) -> Vec<u8> {
    let mut bytes = Vec::new();
    image::codecs::png::PngEncoder::new(&mut bytes)
        .write_image(samples, width, height, color)
        .unwrap();
    bytes
}

#[test]
fn the_default_configuration_is_accepted() {
    let config = AppConfig::default();
    assert_eq!(config.hotkey.keys.len(), 6);
    assert!(config.overlay.enabled);
    assert!(!config.presets.auto_ready_up);
    let loaded = load_app_config(AppConfig::default(), AppConfig::default());
    assert_eq!(loaded.reset, ConfigResetAction::Keep);
    assert!(matches!(loaded.outcome, Ok((_, false))));
}

#[test]
fn older_configurations_are_reset() {
    let mut silent = AppConfig::default();
    silent.presets.legacy_path = Some(text("data/presets.json"));
    assert_eq!(config_reset_action(&silent), ConfigResetAction::Silent);
    let mut moved = AppConfig::default();
    moved.presets.legacy_path = Some(text("elsewhere.json"));
    assert_eq!(config_reset_action(&moved), ConfigResetAction::Notify);
    let mut changed = AppConfig::default();
    changed.presets.legacy_path = Some(text("data/presets.json"));
    changed.overlay.enabled = false;
    assert_eq!(config_reset_action(&changed), ConfigResetAction::Notify);

    let loaded = load_app_config(changed, AppConfig::default());
    assert_eq!(loaded.reset, ConfigResetAction::Notify);
    match loaded.outcome {
        Ok((config, notify)) => {
            assert!(notify);
            assert!(config.overlay.enabled);
            assert!(config.presets.legacy_path.is_none());
        }
        Err(_) => panic!("the default is accepted"),
    }
}

#[test]
fn hotkeys_are_function_keys() {
    assert!(validate_hotkey_keys(&vec![Key::F1, Key::F12]).is_ok());
    assert!(matches!(
        validate_hotkey_keys(&vec![]),
        Err(ConfigError::KeyCount { count: 0 })
    ));
    assert!(matches!(
        validate_hotkey_keys(&vec![Key::F1; 13]),
        Err(ConfigError::KeyCount { count: 13 })
    ));
    assert!(validate_hotkey_keys(&vec![Key::F1; 12]).is_ok());
    assert!(matches!(
        validate_hotkey_keys(&vec![Key::F1, Key::B]),
        Err(ConfigError::NotFunctionKey { key: Key::B })
    ));
}

#[test]
fn labels_belong_to_presets() {
    let check = |preset: &str, label: &str| {
        validate_preset_labels(&vec![PresetLabel { preset: text(preset), label: text(label) }])
    };
    assert!(check("preset_1", "Bugs").is_ok());
    assert!(check("preset_12", "").is_ok());
    for name in ["preset_0", "preset_13", "preset_01", "preset_+1", "preset_", "other_1"] {
        assert!(matches!(
            check(name, "x"),
            Err(ConfigError::UnknownLabel { preset }) if preset == name
        ));
    }
    assert!(matches!(
        check("preset_2", "a\nb"),
        Err(ConfigError::ControlCharacter { preset }) if preset == "preset_2"
    ));
    assert_eq!(name_preset(11), "preset_12");
}

const DEFAULTS: &str = "[presets]\n# keep the order\napply_in_saved_order = false\nauto_ready_up = false\n";

#[test]
fn settings_are_replaced_in_the_text() {
    let text = "# mine\n[presets]\nauto_ready_up = true # yes\n\n[overlay]\nenabled = false\n";
    let saved = save_preset_setting(text, DEFAULTS, "auto_ready_up", false).unwrap();
    assert!(saved.contains("auto_ready_up = false"));
    assert!(saved.contains("# mine"));
    assert!(saved.contains("enabled = false"));
    assert!(!saved.contains("true"));
    let kept = "[presets]\n# above\nauto_ready_up = true\npath = 'x'  # beside\n";
    assert_eq!(
        save_preset_setting(kept, DEFAULTS, "auto_ready_up", false).unwrap(),
        "[presets]\n# above\nauto_ready_up = false\npath = 'x'  # beside\n"
    );
    let again = save_preset_setting(&saved, DEFAULTS, "auto_ready_up", true).unwrap();
    assert!(again.contains("auto_ready_up = true"));
}

#[test]
fn settings_are_added_to_the_text() {
    let saved =
        save_preset_setting("[presets]\n", DEFAULTS, "apply_in_saved_order", true).unwrap();
    assert!(saved.contains("apply_in_saved_order = true"));
    assert!(!saved.contains("auto_ready_up"));
    let whole = save_preset_setting("", DEFAULTS, "apply_in_saved_order", true).unwrap();
    assert!(whole.contains("apply_in_saved_order = true"));
    assert!(whole.contains("auto_ready_up = false"));
}

#[test]
fn settings_can_be_refused() {
    let save = |text: &str, defaults: &str, key: &str| {
        save_preset_setting(text, defaults, key, true)
    };
    assert!(matches!(
        save("[presets", DEFAULTS, "auto_ready_up"),
        Err(SettingError::Config)
    ));
    assert!(matches!(save("", "= 3", "auto_ready_up"), Err(SettingError::Defaults)));
    assert!(matches!(
        save("", "presets = 3", "auto_ready_up"),
        Err(SettingError::DefaultsNotTable)
    ));
    assert!(matches!(save("", DEFAULTS, "volume"), Err(SettingError::UnknownSetting)));
    assert!(matches!(
        save("presets = 3", DEFAULTS, "auto_ready_up"),
        Err(SettingError::NotTable)
    ));
}

#[test]
fn json_starts_after_a_byte_order_mark() {
    assert_eq!(json_start(&vec![0xef, 0xbb, 0xbf, b'{']), 3);
    assert_eq!(json_start(&vec![0xef, 0xbb]), 0);
    assert_eq!(json_start(&vec![b'{']), 0);
    assert_eq!(default_calibration(vec![1]).name, "data/calibration.json");
    assert_eq!(default_icon_manifest("icons", vec![1, 2]).bytes, vec![1, 2]);
}

#[test]
fn icons_are_decoded() {
    let samples: Vec<u8> = (0..24).map(|sample| sample * 9).collect();
    let bytes = png(&samples, 3, 2, ExtendedColorType::Rgba8);
    let image = icon_image(&bytes).unwrap().ok().unwrap();
    assert_eq!((image.width(), image.height()), (3, 2));
    assert_eq!(image.get_pixel(0, 0), Rgba { r: 0, g: 9, b: 18, a: 27 });
    assert_eq!(image.get_pixel(2, 1), Rgba { r: 180, g: 189, b: 198, a: 207 });
}

#[test]
fn broken_icons_are_refused() {
    assert!(matches!(icon_image(&vec![1, 2, 3]), Some(Err(PngError::Header))));
    let gray = png(&[1, 2, 3, 4], 2, 2, ExtendedColorType::L8);
    assert!(matches!(icon_image(&gray), Some(Err(PngError::NotRgba8))));
    let mut cut = png(&[7; 4096], 32, 32, ExtendedColorType::Rgba8);
    cut.truncate(50);
    assert!(matches!(icon_image(&cut), Some(Err(_))));
}

fn frame(width: u32, height: u32, pixel: [u8; 4]) -> Frame {
    Frame::from_raw(width, height, pixel.repeat((width * height) as usize)).unwrap()
}

#[test]
fn images_are_resized() {
    let mut data = Vec::new();
    for sample in [10u8, 20, 30, 40] {
        data.extend_from_slice(&[sample, sample, sample, 255]);
    }
    let source = Frame::from_raw(2, 2, data).unwrap();
    let small = resize_rgba_box(&source, 1, 1).ok().unwrap();
    assert_eq!((small.width(), small.height()), (1, 1));
    assert_eq!(small.get_pixel(0, 0), Rgba { r: 25, g: 25, b: 25, a: 255 });
    let same = resize_rgba_box(&source, 2, 2).ok().unwrap();
    assert_eq!(same.get_pixel(1, 1), source.get_pixel(1, 1));
}

fn item(item_id: &str, path: &str) -> IconManifestItem {
    IconManifestItem {
        item_id: text(item_id),
        display_name: text("Name"),
        kind: ItemKind::Stratagem,
        category: Some(StratagemCategory::Offensive),
        path: text(path),
    }
}

#[test]
fn catalogs_hold_their_items() {
    let mut booster = item("x", "x.png");
    booster.kind = ItemKind::Booster;
    booster.category = None;
    let items = vec![item("eagle-500", "a.png"), booster];
    let embedded = vec![text("x.png"), text("a.png")];
    let catalog = IconCatalog::load(&items, &embedded).ok().unwrap();
    assert_eq!(catalog.iter().len(), 2);
    assert_eq!(catalog.get(&text("x")).unwrap().kind, ItemKind::Booster);
    assert_eq!(catalog.get(&text("eagle-500")).unwrap().path, "a.png");
    assert!(catalog.get(&text("eagle")).is_none());
}

#[test]
fn broken_catalogs_are_refused() {
    let embedded = vec![text("a.png"), text("b.png")];
    let load = |items: Vec<IconManifestItem>| match IconCatalog::load(&items, &embedded) {
        Ok(_) => panic!("the catalog is broken"),
        Err(error) => error,
    };
    assert!(matches!(load(vec![]), CatalogError::NoItems));
    assert!(matches!(load(vec![item("", "a.png")]), CatalogError::EmptyItemId));
    assert!(matches!(load(vec![item("A", "a.png")]), CatalogError::InvalidItemId { .. }));
    assert!(matches!(load(vec![item("a", " ")]), CatalogError::EmptyPath { .. }));
    assert!(matches!(load(vec![item("a", "c.png")]), CatalogError::IconNotFound { .. }));
    assert!(matches!(
        load(vec![item("a", "a.png"), item("b", "a.png")]),
        CatalogError::DuplicatePath { path } if path == "a.png"
    ));
    assert!(matches!(
        load(vec![item("a", "a.png"), item("a", "b.png")]),
        CatalogError::DuplicateItemId { item_id } if item_id == "a"
    ));
    let mut unnamed = item("a", "a.png");
    unnamed.display_name = text("  ");
    assert!(matches!(load(vec![unnamed]), CatalogError::EmptyDisplayName { .. }));
    let mut loose = item("a", "a.png");
    loose.category = None;
    assert!(matches!(load(vec![loose]), CatalogError::StratagemWithoutCategory { .. }));
    let mut booster = item("a", "a.png");
    booster.kind = ItemKind::Booster;
    assert!(matches!(
        load(vec![booster]),
        CatalogError::BoosterWithCategory { category: StratagemCategory::Offensive, .. }
    ));
}

#[test]
fn item_ids_are_lower_case_words() {
    for good in ["a", "eagle-500kg", "x1-2-3"] {
        assert_eq!(validate_item_id(&text(good)), None);
    }
    assert_eq!(validate_item_id(&text("")), Some(ItemDefect::EmptyItemId));
    for bad in ["A", "a b", "-a", "a-", "a--b", "\u{e9}"] {
        assert_eq!(validate_item_id(&text(bad)), Some(ItemDefect::InvalidItemId));
    }
}

#[test]
fn icons_fit_their_square() {
    assert_eq!(fit_inside(100, 50, 28), (28, 14));
    assert_eq!(fit_inside(50, 100, 28), (14, 28));
    assert_eq!(fit_inside(3, 1000, 28), (1, 28));
    assert_eq!(fit_inside(7, 7, 28), (28, 28));
}

#[test]
fn icons_are_blended_over_the_background() {
    let clear = compose_icon(&frame(2, 2, [200, 100, 50, 0]), 2);
    assert_eq!(clear.bgra[0..3], [42, 36, 30]);
    let solid = compose_icon(&frame(2, 2, [200, 100, 50, 255]), 2);
    assert_eq!(solid.bgra[0..3], [50, 100, 200]);
    let centered = compose_icon(&frame(2, 2, [200, 100, 50, 255]), 4);
    assert_eq!(centered.bgra[0..3], [42, 36, 30]);
    assert_eq!(centered.bgra[4 * (4 + 1)..4 * (4 + 1) + 3], [50, 100, 200]);
}

#[test]
fn item_icons_are_rendered() {
    let catalog =
        IconCatalog::load(&vec![item("a", "a.png")], &vec![text("a.png")]).ok().unwrap();
    let bytes = png(&[200, 100, 50, 255].repeat(8), 4, 2, ExtendedColorType::Rgba8);
    let icon = render_item_icon(&catalog, &text("a"), &bytes, 4).ok().unwrap();
    assert_eq!(icon.size, 4);
    assert_eq!(icon.bgra.len(), 64);
    assert_eq!(icon.bgra[0..3], [42, 36, 30]);
    assert_eq!(icon.bgra[16..19], [50, 100, 200]);
    let error = |id: &str, bytes: &Vec<u8>, size: u32| {
        match render_item_icon(&catalog, &text(id), bytes, size) {
            Ok(_) => panic!("no icon"),
            Err(error) => error,
        }
    };
    assert!(matches!(error("a", &bytes, 0), IconError::ZeroSize));
    assert!(matches!(error("b", &bytes, 4), IconError::UnknownItem));
    assert!(matches!(error("a", &vec![], 4), IconError::Png(PngError::Header)));
    assert!(matches!(
        render_image(&frame(2, 2, [0, 0, 0, 0]), 0),
        Err(IconError::ZeroSize)
    ));
}

#[test]
fn each_icon_is_warmed_once() {
    let row = |stratagems: &[&str], booster: Option<&str>, fallback: Option<&str>| OverlayPreset {
        key_label: "F7",
        name: text("preset_1"),
        label: None,
        stratagems: stratagems.iter().map(|name| text(name)).collect(),
        booster: booster.map(text),
        fallback_booster: fallback.map(text),
        status: OverlayPresetStatus::Ready,
    };
    let rows = vec![row(&["a", "b"], Some("x"), Some("y")), row(&["b", "c"], Some("x"), None)];
    assert_eq!(
        icons_to_warm(&rows, &vec![text("c")]),
        vec![text("a"), text("b"), text("x")]
    );
}
