use hd2_preset_helper::app_events::AppEvent;
use hd2_preset_helper::direct_select::click_attempts::{
    ClickAction, ClickEvent, ClickFailure, TargetSelection,
};
use hd2_preset_helper::direct_select::click_plan::{
    find_visible_target, next_visible_target, DirectClickTarget,
};
use hd2_preset_helper::direct_select::home_activation::{
    apply_booster_from_home, apply_empty_loadout_preset, choose_booster, ApplyError, BoosterChoice,
};
use hd2_preset_helper::direct_select::hover::{
    border_center_line_score, evaluate, HoverError, HoverEvidence, HoverSample, HoverStep,
    HoverWatch,
};
use hd2_preset_helper::direct_select::list_map::{
    dominant_value, local_row_range, ListMap, NavigationHint,
};
use hd2_preset_helper::direct_select::page_navigation::{
    finish_direct_page, read_as_later_page, PageSnapshot, PageTurnStep, PageTurnWatch, ScanReason,
};
use hd2_preset_helper::direct_select::page_relation::{
    common_identity_vertical_shift, compare_page_turn, PageRelation, PageShift,
};
use hd2_preset_helper::direct_select::scroll::{PageTurnInput, ScrollDirection};
use hd2_preset_helper::direct_select::selection::{
    ListSelection, PageTurnResult, SelectionFailure, SelectionProgress, SelectionStep,
    TargetSelectionOutcome,
};
use hd2_preset_helper::direct_select::target::{
    track_post_click_slot, unchanged_terminal_target, HoverPlacement, PlacementStep,
    PostClickObservation, PostClickStep, PostClickWatch, TerminalHomeStep, TerminalHomeWatch,
};
use hd2_preset_helper::item::ItemKind;
use hd2_preset_helper::loadout::{
    collect_current_preset, collect_home_booster, detect_ui_state, empty_loadout_entry_slot,
    find_home_row, home_booster_slot, CollectError, UiState, UiStateWatch, UiWatchStep,
};
use hd2_preset_helper::slot::{SlotKind, SlotLayout};
use hd2_preset_helper::vision::{
    Classification, Frame, ImageRect, ItemAvailability, RoiObservation, Slot, SUBPIXELS,
};

const PIXEL: i128 = SUBPIXELS as i128;

const LIST: SlotLayout = SlotLayout::List(ItemKind::Stratagem);

fn text(value: &str) -> String {
    String::from(value)
}

fn shown(item: &str) -> Option<Classification> {
    Some(Classification {
        item_id: text(item),
        match_score: 1,
        match_margin: 1,
        gate_quality: 1,
        availability: ItemAvailability::Available,
    })
}

fn cell(row: u32, col: u32, item: &str) -> Slot {
    slot_at(10 + col * 30, 10 + row * 30, row, col, SlotKind::Stratagem, shown(item))
}

fn slot_at(
    x: u32,
    y: u32,
    row: u32,
    col: u32,
    kind: SlotKind,
    classification: Option<Classification>,
) -> Slot {
    Slot {
        x,
        y,
        w: 20,
        h: 20,
        center_x: (x as u64 + 10) * SUBPIXELS,
        center_y: (y as u64 + 10) * SUBPIXELS,
        row,
        col,
        kind,
        classification,
    }
}

fn image(level: u8) -> Frame {
    Frame::from_raw(150, 150, [level, level, level, 255].repeat(150 * 150)).unwrap()
}

fn observed(layout: SlotLayout, slots: Vec<Slot>) -> RoiObservation {
    RoiObservation { image: image(0), layout, slots }
}

fn page(slots: Vec<Slot>) -> PageSnapshot {
    finish_direct_page(observed(LIST, slots))
}

fn grid(items: &[(u32, u32, &str)]) -> Vec<Slot> {
    items.iter().map(|(row, col, item)| cell(*row, *col, item)).collect()
}

fn home(kinds: [SlotKind; 5]) -> RoiObservation {
    let mut slots = vec![];
    for (col, kind) in kinds.into_iter().enumerate() {
        slots.push(slot_at(col as u32 * 30, 10, 0, col as u32, kind, None));
    }
    observed(SlotLayout::Home, slots)
}

const FULL: SlotKind = SlotKind::Stratagem;
const EMPTY: SlotKind = SlotKind::StratagemEmpty;

#[test]
fn the_state_follows_the_slots() {
    let filled = home([FULL, FULL, FULL, FULL, SlotKind::HomeBoosterEmpty]);
    assert_eq!(detect_ui_state(&filled), UiState::HomeFilled);
    let empty = home([EMPTY, EMPTY, EMPTY, EMPTY, SlotKind::HomeBooster]);
    assert_eq!(detect_ui_state(&empty), UiState::HomeEmpty);
    let mixed = home([EMPTY, FULL, EMPTY, EMPTY, SlotKind::HomeBooster]);
    assert_eq!(detect_ui_state(&mixed), UiState::HomeMixed);
    let without = home([EMPTY, FULL, EMPTY, EMPTY, SlotKind::Booster]);
    assert_eq!(detect_ui_state(&without), UiState::Unknown);
    let one_row = observed(LIST, grid(&[(0, 0, "a"), (0, 1, "b")]));
    assert_eq!(detect_ui_state(&one_row), UiState::Unknown);
    let list = observed(LIST, grid(&[(0, 0, "a"), (1, 0, "b")]));
    assert_eq!(detect_ui_state(&list), UiState::List(ItemKind::Stratagem));
    assert_eq!(UiState::List(ItemKind::Booster).label(), "booster_list");
}

#[test]
fn the_last_slot_of_a_column_counts() {
    let mut seen = home([FULL, FULL, FULL, FULL, SlotKind::HomeBooster]);
    seen.slots.push(slot_at(0, 40, 0, 0, EMPTY, None));
    let row = find_home_row(&seen).unwrap();
    assert_eq!(row.first, 5);
    assert_eq!(row.booster, 4);
    assert_eq!(detect_ui_state(&seen), UiState::HomeMixed);
}

#[test]
fn empty_homes_have_an_entry() {
    let empty = home([EMPTY, EMPTY, EMPTY, EMPTY, SlotKind::HomeBoosterEmpty]);
    assert_eq!(empty_loadout_entry_slot(&empty).unwrap().col, 0);
    assert_eq!(home_booster_slot(&empty).unwrap().col, 4);
    let mixed = home([EMPTY, EMPTY, FULL, EMPTY, SlotKind::HomeBoosterEmpty]);
    assert!(empty_loadout_entry_slot(&mixed).is_none());
}

fn cores() -> Vec<ImageRect> {
    (0..5).map(|col| ImageRect { x: col * 30 + 5, y: 15, w: 10, h: 10 }).collect()
}

#[test]
fn presets_are_collected_from_the_home() {
    let filled = home([FULL, FULL, FULL, FULL, SlotKind::HomeBooster]);
    let preset = collect_current_preset(&filled, &cores()).ok().unwrap();
    assert_eq!(preset.stratagems.len(), 4);
    assert!(preset.booster.is_some());
    let error = |seen: &RoiObservation, places: &Vec<ImageRect>| {
        match collect_current_preset(seen, places) {
            Ok(_) => panic!("nothing to collect"),
            Err(error) => error,
        }
    };
    let hole = home([FULL, FULL, EMPTY, FULL, SlotKind::HomeBooster]);
    assert_eq!(error(&hole, &cores()), CollectError::EmptyStratagem { col: 2 });
    assert_eq!(error(&observed(LIST, vec![]), &cores()), CollectError::MissingHomeRow);
    let mut outside = cores();
    outside[1].x = 145;
    assert!(matches!(error(&filled, &outside), CollectError::OutsideImage { col: 1, .. }));
    let free = home([FULL, FULL, FULL, FULL, SlotKind::HomeBoosterEmpty]);
    assert!(matches!(collect_home_booster(&free, cores()[4]), Ok(None)));
}

#[test]
fn states_have_to_settle() {
    assert!(UiStateWatch::new(UiState::Unknown, 0, 100).is_none());
    let (mut watch, layout) = UiStateWatch::new(UiState::HomeFilled, 0, 100).unwrap();
    assert_eq!(layout, SlotLayout::Home);
    let at = |y: u32| {
        let mut seen = home([FULL, FULL, FULL, FULL, SlotKind::HomeBooster]);
        for slot in seen.slots.iter_mut() {
            slot.center_y = y as u64 * SUBPIXELS;
        }
        seen
    };
    assert!(matches!(watch.step(&at(20), vec![], 0), UiWatchStep::Continue));
    assert!(matches!(watch.step(&at(25), vec![], 10), UiWatchStep::Continue));
    assert!(matches!(watch.step(&at(29), vec![], 20), UiWatchStep::Stable));
    let other = home([EMPTY, EMPTY, EMPTY, EMPTY, SlotKind::HomeBooster]);
    assert!(matches!(watch.step(&other, vec![], 30), UiWatchStep::Continue));
    assert!(matches!(watch.step(&at(29), vec![], 40), UiWatchStep::Continue));
    assert!(matches!(watch.step(&other, vec![], 100), UiWatchStep::TimedOut));

    let state = UiState::List(ItemKind::Stratagem);
    let (mut watch, _) = UiStateWatch::new(state, 0, 100).unwrap();
    let list = observed(LIST, grid(&[(0, 0, "a"), (1, 0, "b")]));
    assert!(matches!(watch.step(&list, vec![10, 10], 0), UiWatchStep::Continue));
    assert!(matches!(watch.step(&list, vec![14, 13], 1), UiWatchStep::Continue));
    assert!(matches!(watch.step(&list, vec![11, 10], 2), UiWatchStep::Stable));
}

#[test]
fn presets_are_applied_from_an_empty_home() {
    let empty = home([EMPTY, EMPTY, EMPTY, EMPTY, SlotKind::HomeBoosterEmpty]);
    let four = vec![text("a"), text("b"), text("c"), text("d")];
    let target = apply_empty_loadout_preset(&four, &empty).ok().unwrap();
    assert_eq!(target.point, (10, 20));
    assert_eq!(target.opened_state(), UiState::List(ItemKind::Stratagem));
    assert!(matches!(
        apply_empty_loadout_preset(&vec![text("a")], &empty),
        Err(ApplyError::StratagemCount { given: 1 })
    ));
    let filled = home([FULL, FULL, FULL, FULL, SlotKind::HomeBooster]);
    assert!(matches!(
        apply_empty_loadout_preset(&four, &filled),
        Err(ApplyError::NotEmptyHome)
    ));
    let booster = apply_booster_from_home(&vec![text("x")], &filled).ok().unwrap();
    assert_eq!(booster.point, (130, 20));
    assert!(matches!(
        apply_booster_from_home(&four, &filled),
        Err(ApplyError::BoosterCount { given: 4 })
    ));
    assert!(matches!(
        apply_booster_from_home(&vec![text("x")], &observed(LIST, vec![])),
        Err(ApplyError::NoBoosterSlot)
    ));
}

#[test]
fn failures_are_told() {
    let booster = ItemKind::Booster;
    let item_id = text("x");
    let failure = SelectionFailure::WheelInputsExhausted { item_id: item_id.clone() };
    assert_eq!(failure.message(booster), "booster preset item x not found after 20 wheel inputs");
    let failure = SelectionFailure::MappedNotRecognized { item_id: item_id.clone() };
    assert_eq!(
        failure.message(booster),
        "mapped target item x was not recognized in its expected visible row"
    );
    let failure = SelectionFailure::BoundaryReached {
        item_id: item_id.clone(),
        recentered: true,
        direction: ScrollDirection::Down,
    };
    assert_eq!(
        failure.message(ItemKind::Stratagem),
        "target item x could not be recognized after recentering before the bottom of the \
         stratagem list"
    );
    let failure = SelectionFailure::BoundaryReached {
        item_id: item_id.clone(),
        recentered: false,
        direction: ScrollDirection::Up,
    };
    assert_eq!(
        failure.message(booster),
        "target item x was not found before the top of the booster list"
    );
    let failure = SelectionFailure::LandmarksLost { item_id };
    assert_eq!(
        failure.message(booster),
        "target item x changed the viewport without a shared landmark for the temporary list map"
    );
    assert_eq!(
        ApplyError::StratagemCount { given: 13 }.message(),
        "empty loadout preset application requires exactly 4 stratagems, got 13"
    );
    assert_eq!(
        ApplyError::NotEmptyHome.message(),
        "current screen is not an empty loadout home layout"
    );
    assert_eq!(
        ApplyError::BoosterCount { given: 0 }.message(),
        "booster preset application requires exactly 1 booster, got 0"
    );
    assert_eq!(
        ApplyError::NoBoosterSlot.message(),
        "stable home layout did not contain a booster slot"
    );
}

#[test]
fn the_best_match_is_clicked() {
    let mut slots = grid(&[(0, 0, "a"), (1, 0, "a"), (1, 1, "b")]);
    let found = |slots: &Vec<Slot>, item: &str| {
        let seen = observed(LIST, slots.clone());
        find_visible_target(&seen, &text(item), ItemKind::Stratagem)
    };
    assert_eq!(found(&slots, "a").unwrap().slot.row, 1);
    slots[0].classification.as_mut().unwrap().match_margin = 2;
    assert_eq!(found(&slots, "a").unwrap().slot.row, 0);
    slots[1].classification.as_mut().unwrap().gate_quality = 2;
    assert_eq!(found(&slots, "a").unwrap().slot.row, 1);
    assert!(found(&slots, "c").is_none());
    slots[2].kind = SlotKind::NoBoosterOption;
    assert!(found(&slots, "b").is_none());
}

#[test]
fn visible_items_are_clicked_in_reading_order() {
    let seen = observed(LIST, grid(&[(1, 0, "a"), (0, 2, "b"), (0, 1, "c")]));
    let wanted = vec![text("a"), text("b"), text("c"), text("d")];
    let next = next_visible_target(&seen, &wanted, ItemKind::Stratagem).unwrap();
    assert_eq!(next.item_id, "c");
    assert!(next_visible_target(&seen, &vec![text("d")], ItemKind::Stratagem).is_none());
}

#[test]
fn pages_are_related_by_their_items() {
    let before = observed(LIST, grid(&[(1, 0, "a"), (1, 1, "b"), (2, 0, "c")]));
    let mut moved = before.slots.clone();
    for slot in moved.iter_mut() {
        slot.y -= 25;
        slot.center_y -= 25 * SUBPIXELS;
    }
    let after = observed(LIST, moved);
    let kind = ItemKind::Stratagem;
    assert_eq!(
        common_identity_vertical_shift(&before.slots, &after, kind),
        Some(-2 * 25 * PIXEL)
    );
    assert_eq!(
        compare_page_turn(&before, &after, kind, ScrollDirection::Down),
        PageRelation::Shifted(PageShift { directed_shift: 2 * 25 * PIXEL, page_height: 150 })
    );
    assert_eq!(
        compare_page_turn(&before, &after, kind, ScrollDirection::Up),
        PageRelation::Uncertain
    );
    assert_eq!(
        compare_page_turn(&before, &before, kind, ScrollDirection::Up),
        PageRelation::SameViewport
    );
    let other = observed(LIST, grid(&[(0, 0, "x")]));
    assert_eq!(
        compare_page_turn(&before, &other, kind, ScrollDirection::Down),
        PageRelation::DifferentViewport
    );
    assert_eq!(
        compare_page_turn(&before, &observed(LIST, vec![]), kind, ScrollDirection::Down),
        PageRelation::Uncertain
    );
    assert!(PageShift { directed_shift: 2 * 48 * PIXEL, page_height: 150 }.is_short());
    assert!(!PageShift { directed_shift: 2 * 49 * PIXEL, page_height: 150 }.is_short());
    assert!(!PageShift { directed_shift: 0, page_height: 0 }.is_short());
}

#[test]
fn short_turns_are_judged_in_single_precision() {
    for page_height in [1u32, 150, 832, 1080, 2160, 4320, 49_637, 99_991, 16_777_217, u32::MAX] {
        let full = 338.0f32 * page_height as f32 / 832.0;
        let near = (0.8f64 * full as f64) as f32;
        for step in -3i32..=3 {
            let shift = f32::from_bits(near.to_bits().wrapping_add_signed(step));
            let directed_shift = (shift as f64 * 2.0 * SUBPIXELS as f64) as i128;
            let page = PageShift { directed_shift, page_height };
            assert_eq!(page.is_short(), shift / full < 0.80f32);
        }
    }
}

fn centered(center_x: f32, center_y: f32, item: &str) -> Slot {
    Slot {
        center_x: (center_x as f64 * SUBPIXELS as f64) as u64,
        center_y: (center_y as f64 * SUBPIXELS as f64) as u64,
        ..cell(0, 0, item)
    }
}

#[test]
fn movements_are_measured_in_single_precision() {
    let pairs = [(1000.1f32, 0.7f32), (812.3, 37.45), (4000.003, 1.1), (63.9999, 61.99989)];
    for (above, below) in pairs {
        let before = vec![centered(50.0, above, "a")];
        let after = observed(LIST, vec![centered(50.0, below, "a")]);
        let shift = common_identity_vertical_shift(&before, &after, ItemKind::Stratagem).unwrap();
        assert_eq!(shift as f64 / (2 * PIXEL) as f64, (below - above) as f64);
    }
    let before = vec![centered(50.0, 1000.1, "a"), centered(50.0, 2000.7, "b")];
    let after = vec![centered(50.0, 0.7, "a"), centered(50.0, 999.9, "b")];
    let after = observed(LIST, after);
    let shift = common_identity_vertical_shift(&before, &after, ItemKind::Stratagem).unwrap();
    let median = ((0.7f32 - 1000.1) + (999.9f32 - 2000.7)) * 0.5;
    assert_eq!(shift as f64 / (2 * PIXEL) as f64, median as f64);

    // Differences near the limit of four pixels are rounded, some of them onto it.
    for low in [0.7f32, 0.6999999, 0.70000005, 0.7000001, 37.3] {
        let clicked = DirectClickTarget { item_id: text("a"), slot: centered(50.0, low, "a") };
        for step in -4i32..=4 {
            let high = f32::from_bits((low + 4.0).to_bits().wrapping_add_signed(step));
            let near = observed(LIST, vec![centered(50.0, high, "z")]);
            let found = track_post_click_slot(&near, ItemKind::Stratagem, &clicked, 0);
            assert_eq!(found.is_some(), (high - low).abs() <= 4.0);
        }
    }
}

#[test]
fn turns_scroll_by_notches() {
    assert_eq!(PageTurnInput::Full(ScrollDirection::Down).scroll_notches(), -5);
    assert_eq!(PageTurnInput::Full(ScrollDirection::Up).scroll_notches(), 5);
    assert_eq!(PageTurnInput::Nudge(ScrollDirection::Down).scroll_notches(), -1);
    assert_eq!(ScrollDirection::Up.boundary_label(), "top");
    assert_eq!(ScrollDirection::Down.boundary_label(), "bottom");
}

#[test]
fn unchanged_pages_count_as_unmoved() {
    let current = page(grid(&[(0, 0, "a"), (1, 0, "b")]));
    let input = PageTurnInput::Full(ScrollDirection::Down);
    let mut watch = PageTurnWatch::new(&current, input, 1000);
    assert!(watch.wants_scan(&current.signature, 1249).is_none());
    let reason = watch.wants_scan(&current.signature, 1250).unwrap();
    assert_eq!(reason, ScanReason { changed: false, grace_over: true });
    let same = || page(grid(&[(0, 0, "a"), (1, 0, "b")]));
    let kind = ItemKind::Stratagem;
    assert!(matches!(watch.judge(&current, same(), kind, reason), PageTurnStep::Continue));
    assert!(matches!(
        watch.judge(&current, same(), kind, reason),
        PageTurnStep::NoMovement(_)
    ));
    let bright = vec![255; 1024];
    let changed = watch.wants_scan(&bright, 1001).unwrap();
    assert_eq!(changed, ScanReason { changed: true, grace_over: false });
    let other = page(grid(&[(0, 0, "x")]));
    assert!(matches!(
        watch.judge(&current, other, kind, changed),
        PageTurnStep::Moved { short: false, directed_shift: None, .. }
    ));
}

#[test]
fn later_pages_hold_boosters_only() {
    let mut slots = vec![slot_at(0, 0, 0, 0, SlotKind::NoBoosterOption, None)];
    read_as_later_page(&mut slots, ItemKind::Stratagem);
    assert_eq!(slots[0].kind, SlotKind::NoBoosterOption);
    read_as_later_page(&mut slots, ItemKind::Booster);
    assert_eq!(slots[0].kind, SlotKind::Booster);
}

#[test]
fn the_map_remembers_rows() {
    let kind = ItemKind::Stratagem;
    let first = observed(LIST, grid(&[(0, 0, "a"), (1, 0, "b"), (2, 0, "c")]));
    let mut map = ListMap::new(&first, kind);
    let second = observed(LIST, grid(&[(0, 0, "c"), (1, 0, "d"), (2, 0, "e")]));
    assert!(map.relocalize(&second, kind));
    let hint = |map: &ListMap, item: &str| map.navigation_hint(&text(item), &second, kind);
    assert!(matches!(hint(&map, "a"), NavigationHint::Scroll(ScrollDirection::Up)));
    assert!(matches!(hint(&map, "c"), NavigationHint::Recenter(ScrollDirection::Up)));
    assert!(matches!(hint(&map, "d"), NavigationHint::ExpectedVisible));
    assert!(matches!(hint(&map, "e"), NavigationHint::Recenter(ScrollDirection::Down)));
    assert!(matches!(hint(&map, "z"), NavigationHint::Scroll(ScrollDirection::Down)));

    let third = observed(LIST, grid(&[(0, 0, "f"), (1, 0, "g")]));
    assert!(!map.relocalize(&third, kind));
    map.advance(&second, &third, kind, ScrollDirection::Down);
    assert!(matches!(
        map.navigation_hint(&text("e"), &third, kind),
        NavigationHint::Scroll(ScrollDirection::Up)
    ));
    assert_eq!(local_row_range(&second, kind), Some((0, 2)));
    assert_eq!(dominant_value(&vec![1, 2, 2, 1]), Some(1));
    assert_eq!(dominant_value(&vec![]), None);
}

fn framed(level: u8, slot: &Slot) -> Frame {
    let mut data = Vec::new();
    for y in 0..150 {
        for x in 0..150 {
            let inside = x >= slot.x && x <= slot.x + 20 && y >= slot.y && y <= slot.y + 20;
            let edge = x == slot.x || x == slot.x + 20 || y == slot.y || y == slot.y + 20;
            let value = if inside && edge { level } else { 40 };
            data.extend_from_slice(&[value, value, value, 255]);
        }
    }
    Frame::from_raw(150, 150, data).unwrap()
}

#[test]
fn highlighted_slots_stand_out() {
    let slots = grid(&[(0, 0, "a"), (0, 1, "b"), (1, 0, "c"), (1, 1, "d")]);
    let seen = framed(200, &slots[2]);
    assert_eq!(border_center_line_score(&seen, &slots[2]), Ok(800));
    assert_eq!(border_center_line_score(&seen, &slots[0]), Ok(160));
    let evidence = evaluate(&seen, &slots, &slots[2]).ok().unwrap();
    assert!(evidence.confirmed());
    assert_eq!(evidence.sample().target_score, 800);
    let other = evaluate(&seen, &slots, &slots[0]).ok().unwrap();
    assert!(!other.confirmed());

    let mut flat = slots[0].clone();
    flat.w = 0;
    assert_eq!(border_center_line_score(&seen, &flat), Err(HoverError::ZeroSizeSlot));
    let mut outside = slots[0].clone();
    outside.x = 130;
    assert!(matches!(
        border_center_line_score(&seen, &outside),
        Err(HoverError::OutsideImage { right: 150, .. })
    ));
    assert!(matches!(evaluate(&seen, &vec![], &slots[0]), Err(HoverError::TargetAbsent)));
    let alone = vec![slots[0].clone()];
    assert!(matches!(evaluate(&seen, &alone, &slots[0]), Err(HoverError::NoBaseline)));
}

#[test]
fn colored_borders_count_less() {
    let slot = cell(0, 0, "a");
    let red = Frame::from_raw(150, 150, [200, 0, 0, 255].repeat(150 * 150)).unwrap();
    assert_eq!(border_center_line_score(&red, &slot), Ok(0));
    let pale = Frame::from_raw(150, 150, [200, 180, 180, 255].repeat(150 * 150)).unwrap();
    assert_eq!(border_center_line_score(&pale, &slot), Ok(4 * 186 - 3 * 20));
}

#[test]
fn clicked_slots_grow_dim() {
    let score = |target_score: i128| HoverSample { target_score };
    assert!(score(720).is_dimmer_than(&score(800)));
    assert!(!score(721).is_dimmer_than(&score(800)));
    assert!(score(344).is_dimmer_than(&score(400)));
    assert!(!score(345).is_dimmer_than(&score(400)));
    assert!(!score(800).is_dimmer_than(&score(720)));
}

#[test]
fn the_highlight_has_to_last() {
    let bright =
        |target_score: i128| HoverEvidence { target_score, baseline: 2 * 160, deviation: 0 };
    let mut watch = HoverWatch::new(0);
    assert!(matches!(watch.step(&bright(800), 0), HoverStep::Continue));
    assert!(matches!(watch.step(&bright(812), 14), HoverStep::Continue));
    assert!(matches!(watch.step(&bright(800), 15), HoverStep::Confirmed(sample) if sample.target_score == 800));

    let mut restless = HoverWatch::new(0);
    assert!(matches!(restless.step(&bright(800), 0), HoverStep::Continue));
    assert!(matches!(restless.step(&bright(820), 20), HoverStep::Continue));
    assert!(matches!(restless.step(&bright(820), 30), HoverStep::Continue));
    assert!(matches!(restless.step(&bright(160), 700), HoverStep::TimedOut));
}

fn target(row: u32, col: u32, item: &str) -> DirectClickTarget {
    DirectClickTarget { item_id: text(item), slot: cell(row, col, item) }
}

#[test]
fn the_cursor_follows_the_target() {
    let kind = ItemKind::Stratagem;
    let mut placement = HoverPlacement::new(target(0, 0, "a"));
    let moved = observed(LIST, grid(&[(1, 0, "a")]));
    assert_eq!(placement.see_page(&moved, kind), PlacementStep::PlaceCursor);
    assert!(placement.viewport_repositioned);
    assert_eq!(placement.see_page(&moved, kind), PlacementStep::AwaitHover);
    assert_eq!(placement.see_hover(false), PlacementStep::PlaceCursor);
    assert_eq!(placement.see_page(&moved, kind), PlacementStep::AwaitHover);
    assert_eq!(placement.see_hover(true), PlacementStep::Ready);
    assert_eq!(placement.see_hover(false), PlacementStep::PlaceCursor);
    assert_eq!(placement.see_hover(false), PlacementStep::OutOfAttempts);
    let gone = observed(LIST, grid(&[(1, 0, "b")]));
    assert_eq!(placement.see_page(&gone, kind), PlacementStep::LostTarget);
}

#[test]
fn clicked_slots_are_tracked() {
    let kind = ItemKind::Stratagem;
    let clicked = target(1, 0, "a");
    let mut slots = grid(&[(1, 0, "z"), (1, 1, "y")]);
    let near = observed(LIST, slots.clone());
    assert_eq!(track_post_click_slot(&near, kind, &clicked, 0).unwrap().col, 0);
    slots[0].center_y += 5 * SUBPIXELS;
    let far = observed(LIST, slots);
    assert!(track_post_click_slot(&far, kind, &clicked, 0).is_none());
    assert!(track_post_click_slot(&far, kind, &clicked, 2 * 5 * PIXEL).is_some());
}

#[test]
fn a_click_is_observed() {
    let slots = grid(&[(0, 0, "a"), (1, 0, "b")]);
    let before = HoverSample { target_score: 800 };
    let clicked = target(0, 0, "a");
    let look = |level: u8, slots: &Vec<Slot>| {
        finish_direct_page(RoiObservation {
            image: framed(level, &slots[0]),
            layout: LIST,
            slots: slots.clone(),
        })
    };
    let mut watch = PostClickWatch::new(0);
    let step = watch.step(look(200, &slots), &clicked, &before, &slots, 399);
    assert!(matches!(step, PostClickStep::Continue));
    let step = watch.step(look(200, &slots), &clicked, &before, &slots, 400);
    assert!(matches!(
        step,
        PostClickStep::Observed(PostClickObservation::Unchanged { after_score: 800, .. })
    ));
    let step = watch.step(look(100, &slots), &clicked, &before, &slots, 400);
    assert!(matches!(
        step,
        PostClickStep::Observed(PostClickObservation::Selected { moved: false, .. })
    ));
    let mut moved = slots.clone();
    for slot in moved.iter_mut() {
        slot.center_y += 3 * SUBPIXELS;
    }
    let step = watch.step(look(200, &moved), &clicked, &before, &slots, 0);
    assert!(matches!(
        step,
        PostClickStep::Observed(PostClickObservation::Selected { moved: true, .. })
    ));
}

#[test]
fn the_home_is_awaited_after_the_last_click() {
    let watch = TerminalHomeWatch::new(400, 1000);
    let filled = home([FULL, FULL, FULL, FULL, SlotKind::HomeBooster]);
    let empty = home([EMPTY, EMPTY, EMPTY, EMPTY, SlotKind::HomeBooster]);
    assert_eq!(watch.step(Some(&filled), 1000), TerminalHomeStep::Home);
    assert_eq!(watch.step(Some(&filled), 2000), TerminalHomeStep::Home);
    assert_eq!(watch.step(Some(&empty), 1399), TerminalHomeStep::Continue);
    assert_eq!(watch.step(None, 1399), TerminalHomeStep::Continue);
    assert_eq!(watch.step(Some(&empty), 1400), TerminalHomeStep::TimedOut);
}

#[test]
fn the_last_click_can_be_repeated() {
    let slots = grid(&[(0, 0, "a"), (1, 0, "b")]);
    let before = HoverSample { target_score: 800 };
    let seen = |level: u8| RoiObservation {
        image: framed(level, &slots[0]),
        layout: LIST,
        slots: slots.clone(),
    };
    let kind = ItemKind::Stratagem;
    let retry = |level: u8, clicked: &DirectClickTarget| {
        unchanged_terminal_target(&seen(level), kind, clicked, &before)
    };
    assert!(matches!(retry(200, &target(0, 0, "a")), Ok(Some(_))));
    assert!(matches!(retry(100, &target(0, 0, "a")), Ok(None)));
    assert!(matches!(retry(200, &target(0, 0, "z")), Ok(None)));
    let mut moved = target(0, 0, "a");
    moved.slot.x += 3;
    assert!(matches!(retry(200, &moved), Ok(None)));
}

#[test]
fn clicks_are_tried_three_times() {
    let sample = HoverSample { target_score: 800 };
    let mut clicks = TargetSelection::new(target(0, 0, "a"), sample, vec![], false, false);
    let unchanged = || {
        ClickEvent::PostClick(PostClickObservation::Unchanged {
            slot: cell(0, 0, "a"),
            page: page(vec![]),
            after_score: 790,
        })
    };
    for _ in 0..2 {
        assert!(matches!(clicks.step(ClickEvent::Clicked), ClickAction::Observe));
        assert!(matches!(clicks.step(unchanged()), ClickAction::Click));
    }
    assert!(matches!(clicks.step(ClickEvent::Clicked), ClickAction::Observe));
    assert!(matches!(
        clicks.step(unchanged()),
        ClickAction::Fail(ClickFailure::NeitherMovedNorDimmed { before: 800, after: 790 })
    ));
}

#[test]
fn the_last_item_returns_home() {
    let start = || {
        let sample = HoverSample { target_score: 800 };
        let mut clicks = TargetSelection::new(target(0, 0, "a"), sample, vec![], false, true);
        let action = clicks.step(ClickEvent::Clicked);
        assert!(matches!(action, ClickAction::AwaitHome { timeout: 400 }));
        clicks
    };
    assert!(matches!(start().step(ClickEvent::Home(true)), ClickAction::ReturnedHome));
    let mut slow = start();
    assert!(matches!(slow.step(ClickEvent::Home(false)), ClickAction::CheckTarget));
    assert!(matches!(
        slow.step(ClickEvent::Retry(None)),
        ClickAction::AwaitHome { timeout: 600 }
    ));
    assert!(matches!(
        slow.step(ClickEvent::Home(false)),
        ClickAction::Fail(ClickFailure::NotReturnedHome)
    ));
    let mut stuck = start();
    for _ in 0..2 {
        assert!(matches!(stuck.step(ClickEvent::Home(false)), ClickAction::CheckTarget));
        let again = ClickEvent::Retry(Some(target(0, 0, "a")));
        assert!(matches!(stuck.step(again), ClickAction::Click));
        assert!(matches!(stuck.step(ClickEvent::Clicked), ClickAction::AwaitHome { .. }));
    }
    assert!(matches!(stuck.step(ClickEvent::Home(false)), ClickAction::CheckTarget));
    assert!(matches!(
        stuck.step(ClickEvent::Retry(Some(target(0, 0, "a")))),
        ClickAction::Fail(ClickFailure::FinalUnchanged)
    ));
}

fn going_on(progress: SelectionProgress) -> ListSelection {
    match progress {
        SelectionProgress::Continue(next) => next,
        _ => panic!("the selection goes on"),
    }
}

fn opened(items: &[&str], in_order: bool) -> ListSelection {
    let wanted: Vec<String> = items.iter().map(|item| text(item)).collect();
    let first = page(grid(&[(0, 0, "a"), (0, 1, "b"), (1, 0, "c")]));
    let requested = items.len();
    let (selection, event) = ListSelection::new(wanted, ItemKind::Stratagem, first, in_order);
    assert!(matches!(
        event,
        AppEvent::ListSelectionStarted { item_kind: ItemKind::Stratagem, requested_items }
            if requested_items == requested
    ));
    selection
}

fn reported(noted: (SelectionProgress, AppEvent)) -> SelectionProgress {
    assert!(matches!(noted.1, AppEvent::ItemSelected));
    noted.0
}

#[test]
fn the_booster_is_picked_unless_it_is_taken() {
    assert_eq!(choose_booster(Some(false), Some(false)), BoosterChoice::Booster);
    assert_eq!(choose_booster(None, Some(false)), BoosterChoice::Booster);
    assert_eq!(choose_booster(Some(true), Some(false)), BoosterChoice::Fallback);
    assert_eq!(choose_booster(Some(true), Some(true)), BoosterChoice::Unavailable);
    assert_eq!(choose_booster(Some(true), None), BoosterChoice::Unavailable);
}

#[test]
fn items_are_selected_until_the_home_returns() {
    let selection = opened(&["c", "b"], false);
    match selection.decide() {
        SelectionStep::Click { target, final_requested_item } => {
            assert_eq!(target.item_id, "b");
            assert!(!final_requested_item);
        }
        _ => panic!("a visible item is clicked"),
    }
    let shown = page(grid(&[(0, 0, "a"), (0, 1, "b"), (1, 0, "c")]));
    let outcome = TargetSelectionOutcome::List { page: shown, viewport_repositioned: false };
    let selection = going_on(reported(selection.item_selected(&text("b"), outcome)));
    assert!(matches!(
        selection.decide(),
        SelectionStep::Click { target, final_requested_item: true } if target.item_id == "c"
    ));
    assert!(matches!(
        reported(selection.item_selected(&text("c"), TargetSelectionOutcome::Home)),
        SelectionProgress::Finished
    ));
    assert!(matches!(
        opened(&["c", "b"], true).decide(),
        SelectionStep::Click { target, .. } if target.item_id == "c"
    ));
}

#[test]
fn landmarks_can_be_lost() {
    let strange = page(grid(&[(0, 0, "x")]));
    let outcome = TargetSelectionOutcome::List { page: strange, viewport_repositioned: true };
    assert!(matches!(
        reported(opened(&["c", "b"], false).item_selected(&text("b"), outcome)),
        SelectionProgress::Failed(SelectionFailure::LandmarksLost { item_id }) if item_id == "b"
    ));
}

#[test]
fn the_end_of_the_list_is_found() {
    let selection = opened(&["z"], false);
    let turn = match selection.decide() {
        SelectionStep::Turn(turn) => turn,
        _ => panic!("the page is turned"),
    };
    assert_eq!(turn.input, PageTurnInput::Full(ScrollDirection::Down));
    let shown = || page(grid(&[(0, 0, "c"), (0, 1, "d"), (1, 0, "e")]));
    let moved = PageTurnResult::Moved { page: shown(), short: true };
    let selection = going_on(selection.page_turned(turn, moved));
    let turn = match selection.decide() {
        SelectionStep::Turn(turn) => turn,
        _ => panic!("the end is tried"),
    };
    assert_eq!(turn.input, PageTurnInput::Nudge(ScrollDirection::Down));
    assert!(matches!(
        selection.page_turned(turn, PageTurnResult::NoMovement(shown())),
        SelectionProgress::Failed(SelectionFailure::BoundaryReached {
            recentered: false,
            direction: ScrollDirection::Down,
            ..
        })
    ));
}

#[test]
fn the_search_gives_up_after_twenty_turns() {
    let mut selection = opened(&["z"], false);
    for count in 0..20 {
        let turn = match selection.decide() {
            SelectionStep::Turn(turn) => turn,
            _ => panic!("the page is turned"),
        };
        let name = format!("item-{count}");
        let next = page(grid(&[(0, 0, &name), (1, 0, &format!("{name}-b"))]));
        let moved = PageTurnResult::Moved { page: next, short: false };
        selection = going_on(selection.page_turned(turn, moved));
    }
    assert!(matches!(
        selection.decide(),
        SelectionStep::Fail(SelectionFailure::WheelInputsExhausted { item_id }) if item_id == "z"
    ));
}

#[test]
fn mapped_items_have_to_be_recognized() {
    let wanted = vec![text("b")];
    let first = page(grid(&[(0, 0, "a"), (1, 0, "b"), (2, 0, "c")]));
    let (selection, _) = ListSelection::new(wanted, ItemKind::Stratagem, first, false);
    let lost = page(grid(&[(0, 0, "a"), (1, 0, "x"), (2, 0, "c")]));
    let turn = hd2_preset_helper::direct_select::selection::PageTurn {
        input: PageTurnInput::Full(ScrollDirection::Down),
        recenter: false,
    };
    let selection = going_on(selection.page_turned(turn, PageTurnResult::NoMovement(lost)));
    assert!(matches!(
        selection.decide(),
        SelectionStep::Fail(SelectionFailure::MappedNotRecognized { item_id }) if item_id == "b"
    ));
}
