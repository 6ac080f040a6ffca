use hd2_preset_helper::calibration::{
    capture_latest_roi_frame, check_calibration, detect_slot_layout, slot_region_samples,
    Calibration, CalibrationError, EmptyImage, ReferenceSize, RoiAnchor, ScaleAxis,
};
use hd2_preset_helper::capture::{
    plan_texture_read, rows_to_image, CaptureError, CapturePixelFormat, CaptureSource,
    CapturedRows, DisplayColorInfo, FrameBus, FrameStep,
};
use hd2_preset_helper::capture_session::{
    Acquisition, CaptureSessionCache, CaptureSessionManager, PrewarmProbe, PrewarmStep,
    TargetState,
};
use hd2_preset_helper::fingerprint::{
    fingerprint_distance, image_fingerprint, luma601_u8, FingerprintDistance,
};
use hd2_preset_helper::gray::{luma_canonical, resize_l8_lanczos, GrayFrame};
use hd2_preset_helper::home_tone::{
    channel_median, estimate_histograms, find_peak, gray_histogram, histogram_median,
    histogram_rank, measure_home_tone, slot_peak, third_highest, GrayHistogram, ToneChannel,
    ToneError, MIN_SHARE,
};
use hd2_preset_helper::item::{ItemKind, StratagemCategory};
use hd2_preset_helper::npy::{is_packed, npy_file_name, npy_header};
use hd2_preset_helper::slot::{SlotKind, SlotLayout};
use hd2_preset_helper::slot_search::{
    best_row, compatible_rows, count_booster_pixels, eligible_rows, home_booster_kind, home_kinds,
    list_rows_to_slots, local_maxima, occupied_columns, second_highest, trace_rows, BoosterCounts,
    BoosterRow, ListCell, ListRow,
};
use hd2_preset_helper::single::{round, round_ratio};
use hd2_preset_helper::stats::{interpolated_median, sorted, upper_tertile};
use hd2_preset_helper::template_layers::{SearchStep, TemplateSearch};
use hd2_preset_helper::template_match::{
    best_on_page, best_template, classify_slot, competing_template, less_than, second_template,
    wide_order_key, SlotMatch, TemplateClassifier, TemplateEntry, TemplateError, TemplateScore,
};
use hd2_preset_helper::template_search::{
    all_offsets, best_two, check_profile, classification_kind_for_slot, initial_offsets,
    neighboring_icon_sizes, nominal_icon_size, offsets_excluding, prewarm_nominal_profiles,
    search_plan, slot_luma, template_mask, MaskPoint, MaskTooSmall, ProfileError, ProfileKey,
    SearchLayer, SlotCropError, StratagemCategoryCandidates,
};
use hd2_preset_helper::vision::{
    order_key, Frame, ImageRect, ItemAvailability, Rgba, RoiObservation, Slot, SUBPIXELS,
};
use hd2_preset_helper::window::{ClientCrop, WindowTarget};

fn frame(width: u32, height: u32, pixel: impl Fn(u32, u32) -> [u8; 4]) -> Frame {
    let mut data = Vec::new();
    for y in 0..height {
        for x in 0..width {
            data.extend_from_slice(&pixel(x, y));
        }
    }
    Frame::from_raw(width, height, data).unwrap()
}

fn slot(x: u32, y: u32, side: u32, row: u32, col: u32, kind: SlotKind) -> Slot {
    Slot {
        x,
        y,
        w: side,
        h: side,
        center_x: (2 * x + side) as u64 * (SUBPIXELS / 2),
        center_y: (2 * y + side) as u64 * (SUBPIXELS / 2),
        row,
        col,
        kind,
        classification: None,
    }
}

#[test]
fn scores_keep_their_order() {
    let values = [f32::NEG_INFINITY, -1.5, -0.0, 0.0, 0.25, 3.0, f32::INFINITY];
    for pair in values.windows(2) {
        assert!(order_key(pair[0].to_bits()) < order_key(pair[1].to_bits()));
    }
    let wide = [-2.0f64, -0.0, 0.0, 0.35, 7.5];
    for pair in wide.windows(2) {
        assert!(wide_order_key(pair[0].to_bits()) < wide_order_key(pair[1].to_bits()));
    }
}

#[test]
fn frames_are_made_of_all_samples() {
    assert!(Frame::from_raw(2, 2, vec![0; 15]).is_none());
    let image = frame(3, 2, |x, y| [x as u8, y as u8, 7, 255]);
    assert_eq!(image.get_pixel(2, 1), Rgba { r: 2, g: 1, b: 7, a: 255 });
    let part = image.crop(ImageRect { x: 1, y: 1, w: 2, h: 1 }).unwrap();
    assert_eq!((part.width(), part.height()), (2, 1));
    assert_eq!(part.get_pixel(1, 0), Rgba { r: 2, g: 1, b: 7, a: 255 });
    assert!(image.crop(ImageRect { x: 2, y: 0, w: 2, h: 1 }).is_none());
    assert_eq!(image.duplicate().get_pixel(0, 1), image.get_pixel(0, 1));
}

#[test]
fn slot_centers_are_rounded() {
    assert_eq!(slot(10, 20, 5, 0, 0, SlotKind::Stratagem).center(), (13, 23));
    assert_eq!(slot(10, 20, 4, 0, 0, SlotKind::Stratagem).center(), (12, 22));
    let far = Slot { center_x: u64::MAX, ..slot(10, 20, 4, 0, 0, SlotKind::Stratagem) };
    assert_eq!(far.center(), (u32::MAX, 22));
}

#[test]
fn whole_numbers_are_rounded_as_in_single_precision() {
    let mut seed: u64 = 7;
    for _ in 0..2000 {
        seed = seed.wrapping_mul(6364136223846793005).wrapping_add(1442695040888963407);
        let number = (seed >> (seed % 40)) as i64 / 2;
        assert_eq!(round(number as i128), number as f32 as i128);
        assert_eq!(round(-(number as i128)), -(number as f32 as i128));
        let (n, d) = ((seed >> 40) as u32, (seed as u32 >> 8) + 1);
        let ratio = round_ratio((n as u128) << 64, d as u128);
        assert_eq!(ratio as f64 / 2.0f64.powi(64), (n as f32 / d as f32) as f64);
    }
    assert_eq!(round(0x100_0001), 0x100_0000);
    assert_eq!(round(0x100_0003), 0x100_0004);
    assert_eq!(round_ratio(5, 2), 2);
    assert_eq!(round_ratio(7, 2), 4);
}

#[test]
fn brightness_is_weighted() {
    assert_eq!(luma601_u8(255, 255, 255), 255);
    assert_eq!(luma601_u8(0, 0, 0), 0);
    assert_eq!(luma601_u8(255, 0, 0), 77);
    assert_eq!(luma601_u8(0, 255, 0), 149);
    assert_eq!(luma601_u8(0, 0, 255), 29);
    assert!(luma601_u8(10, 20, 30) <= luma601_u8(10, 21, 30));
}

#[test]
fn fingerprints_are_compared_by_their_mean_difference() {
    let dark = image_fingerprint(&frame(64, 64, |_, _| [10, 10, 10, 255]));
    let light = image_fingerprint(&frame(64, 64, |_, _| [16, 16, 16, 255]));
    assert_eq!(dark.len(), 1024);
    let distance = fingerprint_distance(&dark, &light);
    assert_eq!(distance, FingerprintDistance::Mean { total: 6144, count: 1024 });
    assert_eq!(distance, fingerprint_distance(&light, &dark));
    assert!(distance.is_at_most(6));
    assert!(!distance.is_below(6));
    assert_eq!(fingerprint_distance(&dark, &vec![1]), FingerprintDistance::Infinite);
    assert_eq!(fingerprint_distance(&vec![], &vec![]), FingerprintDistance::Infinite);
}

#[test]
fn medians_are_doubled() {
    assert_eq!(interpolated_median(&vec![]), None);
    assert_eq!(interpolated_median(&vec![5, 1, 3]), Some(6));
    assert_eq!(interpolated_median(&vec![5, 1, 3, 4]), Some(7));
    assert_eq!(sorted(&vec![3, 1, 2, 1]), vec![1, 1, 2, 3]);
    assert_eq!(upper_tertile(&vec![3, 1, 2]), 2);
    assert_eq!(upper_tertile(&vec![4, 1, 3, 2]), 3);
}

#[test]
fn calibrations_are_checked() {
    let good = Calibration {
        reference: ReferenceSize { w: 1920, h: 1080 },
        roi_ref: ImageRect { x: 60, y: 200, w: 400, h: 624 },
        scale_axis: ScaleAxis::Height,
        anchor: RoiAnchor::default(),
    };
    assert_eq!(good.anchor, RoiAnchor::TopLeft);
    assert!(check_calibration(&good).is_ok());
    let mut empty = good;
    empty.reference.w = 0;
    assert!(matches!(check_calibration(&empty), Err(CalibrationError::EmptyReference { .. })));
    let mut flat = good;
    flat.roi_ref.h = 0;
    assert_eq!(check_calibration(&flat), Err(CalibrationError::EmptyRegion));
    let mut outside = good;
    outside.roi_ref.x = 1600;
    assert!(matches!(
        check_calibration(&outside),
        Err(CalibrationError::RegionOutsideReference { .. })
    ));
    let source = source();
    let resolved = ImageRect { x: 1, y: 2, w: 3, h: 4 };
    assert_eq!(capture_latest_roi_frame(&source, &good, resolved).unwrap().rect, resolved);
    assert!(capture_latest_roi_frame(&source, &flat, resolved).is_err());
}

#[test]
fn observations_need_pixels() {
    let image = frame(4, 4, |_, _| [0, 0, 0, 255]);
    let found = detect_slot_layout(image, SlotLayout::Home, vec![]).unwrap();
    assert_eq!(found.layout, SlotLayout::Home);
    let empty = Frame::from_raw(0, 3, vec![]).unwrap();
    assert!(matches!(detect_slot_layout(empty, SlotLayout::Home, vec![]), Err(EmptyImage)));
}

#[test]
fn slots_are_sampled_on_a_grid() {
    let image = frame(60, 60, |x, y| [x as u8, y as u8, 0, 255]);
    let page = RoiObservation {
        image,
        layout: SlotLayout::List(ItemKind::Stratagem),
        slots: vec![
            slot(5, 4, 50, 0, 0, SlotKind::Stratagem),
            slot(5, 4, 50, 0, 1, SlotKind::NoBoosterOption),
            slot(20, 20, 50, 0, 2, SlotKind::Stratagem),
        ],
    };
    let samples = slot_region_samples(&page, ItemKind::Stratagem);
    assert_eq!(samples.len(), 1);
    assert_eq!(samples[0].len(), 64);
    assert_eq!(samples[0][0], Rgba { r: 5 + 9 + 2, g: 4 + 9 + 2, b: 0, a: 255 });
    assert_eq!(samples[0][63], Rgba { r: 5 + 9 + 30, g: 4 + 9 + 30, b: 0, a: 255 });
    assert_eq!(samples[0][8], Rgba { r: 16, g: 4 + 9 + 6, b: 0, a: 255 });
}

fn target() -> WindowTarget {
    WindowTarget {
        handle: 3,
        title: String::from("game"),
        origin_x: 0,
        origin_y: 0,
        client_w: 100,
        client_h: 80,
    }
}

fn source() -> CaptureSource {
    let crop = ClientCrop { x: 2, y: 3, w: 100, h: 80 };
    let display = DisplayColorInfo { hdr_active: false, sdr_white_level: 1000 };
    CaptureSource::new_for_window_target(&target(), crop, 104, 90, display).unwrap()
}

#[test]
fn captures_check_sizes() {
    let crop = ClientCrop { x: 2, y: 3, w: 100, h: 80 };
    let hdr = DisplayColorInfo { hdr_active: true, sdr_white_level: 2000 };
    assert_eq!(CapturePixelFormat::for_display(hdr), CapturePixelFormat::Rgba16Float);
    assert!(matches!(
        CaptureSource::new_for_window_target(&target(), crop, 0, 90, hdr),
        Err(CaptureError::InvalidItemSize { item_w: 0, item_h: 90 })
    ));
    assert!(matches!(
        CaptureSource::new_for_window_target(&target(), crop, 101, 90, hdr),
        Err(CaptureError::CropOutsideFrame { .. })
    ));
    let source = source();
    assert_eq!(source.output_size(), (100, 80));
    let region = source.region(ImageRect { x: 10, y: 20, w: 30, h: 40 });
    assert_eq!(region.source_region(), Ok(ImageRect { x: 12, y: 23, w: 30, h: 40 }));
    let empty = source.region(ImageRect { x: 10, y: 20, w: 0, h: 40 });
    assert!(matches!(empty.source_region(), Err(CaptureError::EmptyRegion)));
    let outside = source.region(ImageRect { x: 80, y: 20, w: 30, h: 40 });
    assert!(matches!(outside.source_region(), Err(CaptureError::RegionOutsideClient { .. })));
}

#[test]
fn frames_are_taken_once() {
    let mut bus = FrameBus::new();
    assert!(matches!(bus.poll(0, 100, false), FrameStep::Wait { remaining: 400 }));
    assert!(bus.publish(3));
    assert!(matches!(bus.poll(0, 100, false), FrameStep::Take { .. }));
    let generation = bus.generation;
    bus.take();
    assert!(matches!(bus.poll(generation, 100, false), FrameStep::Wait { .. }));
    assert!(matches!(bus.poll(generation, 600, true), FrameStep::Fail(CaptureError::TimedOut)));
    bus.close();
    assert!(matches!(bus.poll(generation, 1, false), FrameStep::Fail(CaptureError::Closed)));
}

#[test]
fn numbers_of_read_frames_grow() {
    let mut source = source();
    let mut bus = FrameBus::new();
    assert!(bus.publish(2));
    let step = source.next_frame(&mut bus, 0, false);
    assert_eq!(step, FrameStep::Take { generation: 2, skipped: 0 });
    assert!(!bus.has_latest);
    assert_eq!(source.finish_read(2, Err("unreadable")).unwrap_err(), "unreadable");
    assert_eq!(source.consumed_generation, 0);
    assert!(bus.publish(3));
    let step = source.next_frame(&mut bus, 0, false);
    assert_eq!(step, FrameStep::Take { generation: 5, skipped: 0 });
    let image = frame(1, 1, |_, _| [1, 2, 3, 255]);
    let image = source.finish_read(5, Ok::<Frame, ()>(image)).unwrap();
    assert_eq!(image.get_pixel(0, 0), Rgba { r: 1, g: 2, b: 3, a: 255 });
    assert_eq!(source.consumed_generation, 5);
    assert_eq!(source.next_frame(&mut bus, 20, false), FrameStep::Wait { remaining: 480 });
    let step = source.next_frame(&mut bus, 501, false);
    assert_eq!(step, FrameStep::Fail(CaptureError::TimedOut));
    assert!(bus.publish(2));
    let step = source.next_frame(&mut bus, 30, false);
    assert_eq!(step, FrameStep::Take { generation: 7, skipped: 1 });
}

#[test]
fn texture_reads_reuse_the_staging_texture() {
    let region = ImageRect { x: 12, y: 23, w: 30, h: 40 };
    let format = Some(CapturePixelFormat::Bgra8);
    let first = plan_texture_read(format, 104, 90, 104, 90, region, None).unwrap();
    assert!(first.rebuild_staging);
    assert_eq!((first.right, first.bottom), (42, 63));
    let again = plan_texture_read(format, 104, 90, 104, 90, region, Some(first.staging)).unwrap();
    assert!(!again.rebuild_staging);
    assert!(matches!(
        plan_texture_read(None, 104, 90, 104, 90, region, None),
        Err(CaptureError::UnsupportedFormat)
    ));
    assert!(matches!(
        plan_texture_read(format, 104, 90, 40, 90, region, None),
        Err(CaptureError::RegionOutsideContent { .. })
    ));
}

#[test]
fn half_precision_rows_become_an_image() {
    let mut lut = vec![0u8; 65536];
    lut[0x3c00] = 255;
    lut[0x3800] = 128;
    let mut bytes = vec![0u8; 32];
    bytes[0..8].copy_from_slice(&[0x00, 0x3c, 0x00, 0x38, 0x00, 0x00, 0x00, 0x3c]);
    let image = rows_to_image(CapturePixelFormat::Rgba16Float, &bytes, 16, 1, 2, &lut);
    assert_eq!(image.get_pixel(0, 0), Rgba { r: 255, g: 128, b: 0, a: 255 });
    assert_eq!(image.get_pixel(0, 1), Rgba { r: 0, g: 0, b: 0, a: 255 });
}

#[test]
fn captured_regions_become_pictures() {
    let mut source = source();
    let mut table = vec![0u8; 256];
    table[1] = 10;
    table[2] = 20;
    table[3] = 30;
    let bytes = vec![1, 2, 3, 9, 0, 0, 3, 3, 3, 9, 0, 0];
    let format = CapturePixelFormat::Bgra8;
    let rows = CapturedRows::Raw { format, bytes: &bytes, row_pitch: 6, table: &table };
    let image = source.finish_capture(4, 1, 2, Ok::<_, ()>(rows)).unwrap();
    assert_eq!((image.width(), image.height()), (1, 2));
    assert_eq!(image.get_pixel(0, 0), Rgba { r: 30, g: 20, b: 10, a: 255 });
    assert_eq!(image.get_pixel(0, 1), Rgba { r: 30, g: 30, b: 30, a: 255 });
    assert_eq!(source.consumed_generation, 4);
    let rgb = vec![1, 2, 3, 4, 5, 6];
    let rows = CapturedRows::Converted { rgb: &rgb };
    let image = source.finish_capture(5, 2, 1, Ok::<_, ()>(rows)).unwrap();
    assert_eq!(image.get_pixel(1, 0), Rgba { r: 4, g: 5, b: 6, a: 255 });
    assert_eq!(source.finish_capture(6, 2, 1, Err("lost")).unwrap_err(), "lost");
    assert_eq!(source.consumed_generation, 5);
}

#[test]
fn captures_are_kept_while_they_fit() {
    let mut manager = CaptureSessionManager::new();
    let state = TargetState {
        signature: Some(source().signature),
        alive: true,
        display: Some(DisplayColorInfo { hdr_active: false, sdr_white_level: 1000 }),
    };
    assert!(matches!(manager.acquire(&state), Acquisition::MustCreate));
    manager.install(source());
    assert!(matches!(manager.acquire(&state), Acquisition::Reused));
    assert!(manager.active_capture().is_some());
    assert!(manager.finish_action().is_some());
    assert!(manager.active_capture().is_none());
}

fn look(width: u32) -> PrewarmProbe {
    let mut signature = source().signature;
    signature.crop.w = width;
    PrewarmProbe::Window {
        target: TargetState {
            signature: Some(signature),
            alive: true,
            display: Some(DisplayColorInfo { hdr_active: false, sdr_white_level: 1500 }),
        },
        white_level: Some(1500),
    }
}

#[test]
fn the_first_look_opens_a_capture() {
    let mut cache = CaptureSessionCache::new();
    assert!(cache.is_due(0));
    let step = cache.tick_prewarm(0, &look(100));
    assert_eq!(step, PrewarmStep::Create { white_level: 1500 });
    cache.prewarmed(source());
    assert!(!cache.is_due(999));
    assert!(cache.is_due(1000));
    assert_eq!(cache.tick_prewarm(1000, &look(100)), PrewarmStep::Idle);
}

#[test]
fn a_changed_window_has_to_settle() {
    let mut cache = CaptureSessionCache::new();
    cache.prewarmed(source());
    assert_eq!(cache.tick_prewarm(0, &look(90)), PrewarmStep::Idle);
    assert_eq!(cache.tick_prewarm(1000, &look(80)), PrewarmStep::Idle);
    assert_eq!(cache.tick_prewarm(1500, &look(80)), PrewarmStep::Idle);
    let step = cache.tick_prewarm(2000, &look(80));
    assert_eq!(step, PrewarmStep::Create { white_level: 1500 });
}

#[test]
fn a_settled_change_is_remembered() {
    let mut cache = CaptureSessionCache::new();
    cache.prewarmed(source());
    assert_eq!(cache.tick_prewarm(0, &look(80)), PrewarmStep::Idle);
    let step = cache.tick_prewarm(1000, &look(80));
    assert_eq!(step, PrewarmStep::Create { white_level: 1500 });
    cache.created(source());
    let step = cache.tick_prewarm(2000, &look(80));
    assert_eq!(step, PrewarmStep::Create { white_level: 1500 });
    cache.prewarmed(source());
    assert_eq!(cache.tick_prewarm(3000, &look(80)), PrewarmStep::Idle);
    assert_eq!(cache.tick_prewarm(4000, &look(100)), PrewarmStep::Idle);
    assert_eq!(cache.tick_prewarm(5000, &look(80)), PrewarmStep::Idle);
}

#[test]
fn a_lost_window_loses_its_capture() {
    let mut cache = CaptureSessionCache::new();
    cache.prewarmed(source());
    let gone = PrewarmProbe::NoWindow { alive: false };
    assert_eq!(cache.tick_prewarm(0, &gone), PrewarmStep::Idle);
    let state = TargetState { signature: Some(source().signature), alive: true, display: None };
    assert_eq!(cache.get_or_create(&state, None), Some(1000));
    cache.prewarmed(source());
    assert_eq!(cache.get_or_create(&state, None), None);
}

#[test]
fn rows_are_the_peaks_that_are_apart() {
    assert_eq!(local_maxima(&vec![1, 3, 2, 2, 5, 5, 0, 4]), vec![1, 4, 7]);
    assert_eq!(local_maxima(&vec![0, 0]), Vec::<usize>::new());
    assert_eq!(second_highest([4, 9, 1, 7]), 7);
    assert_eq!(second_highest([9, 9, 1, 7]), 9);
    assert_eq!(best_row(&vec![3, 8, 2, 8], 8), Some(1));
    assert_eq!(best_row(&vec![3, 8, 2, 8], 9), None);
    assert_eq!(best_row(&vec![], 0), None);
    assert_eq!(eligible_rows(&vec![3, 8, 2, 8], 3), vec![0, 1, 3]);

    let ys = vec![0, 40, 90, 100, 180];
    let before = compatible_rows(&ys, 85);
    assert_eq!(before, vec![0, 0, 1, 1, 3]);
    let stride = 4;
    let mut taken = vec![false; 6 * stride];
    taken[5 * stride + 3] = true;
    taken[3 * stride + 2] = true;
    taken[stride + 1] = true;
    let chosen = trace_rows(&taken, &before, stride, 3);
    assert_eq!(chosen, vec![0, 2, 4]);
    for pair in chosen.windows(2) {
        assert!(ys[pair[1]] - ys[pair[0]] >= 85);
    }
}

#[test]
fn rows_become_cells() {
    assert_eq!(occupied_columns([false, false, false, false]), 1);
    assert_eq!(occupied_columns([true, false, true, false]), 3);
    let rows = vec![
        ListRow { occupied_columns: 2, tops_the_list: true },
        ListRow { occupied_columns: 1, tops_the_list: false },
    ];
    assert_eq!(
        list_rows_to_slots(&rows, ItemKind::Booster),
        vec![
            ListCell { row: 0, col: 0, kind: SlotKind::NoBoosterOption },
            ListCell { row: 0, col: 1, kind: SlotKind::Booster },
            ListCell { row: 1, col: 0, kind: SlotKind::Booster },
        ]
    );
    assert_eq!(
        list_rows_to_slots(&rows, ItemKind::Stratagem)[0].kind,
        SlotKind::Stratagem
    );
    assert_eq!(
        home_kinds([true, false, true, true], SlotKind::HomeBoosterEmpty),
        vec![
            SlotKind::Stratagem,
            SlotKind::StratagemEmpty,
            SlotKind::Stratagem,
            SlotKind::Stratagem,
            SlotKind::HomeBoosterEmpty,
        ]
    );
}

#[test]
fn boosters_show_by_their_colors() {
    let image = frame(4, 2, |x, _| if x == 1 { [0, 0, 0, 255] } else { [255, 222, 38, 255] });
    let yellow = vec![true, false, true, true, true, false, true, true];
    let row = BoosterRow {
        content_start: 0,
        content_end: 4,
        inner_start: 1,
        inner_end: 3,
        core_start: 1,
        core_end: 2,
    };
    let counts = count_booster_pixels(&image, &yellow, 0, &vec![row, row]);
    assert_eq!(
        counts,
        BoosterCounts {
            content: 8,
            yellow: 6,
            ring: 4,
            ring_yellow: 4,
            core: 2,
            core_dark: 2,
        }
    );
    assert_eq!(home_booster_kind(counts), SlotKind::HomeBooster);
    let dull = BoosterCounts { yellow: 2, ..counts };
    assert_eq!(home_booster_kind(dull), SlotKind::HomeBoosterEmpty);
    let edge = BoosterCounts {
        content: 20,
        yellow: 7,
        ring: 10,
        ring_yellow: 8,
        core: 10,
        core_dark: 1,
    };
    assert_eq!(home_booster_kind(edge), SlotKind::HomeBooster);
    for total in [20u32, 99, 1000, 65_537, 2_400_001, 99_999_999, u32::MAX] {
        for (share, kind) in [(0.35f32, 0), (0.8, 1), (0.1, 2)] {
            let near = (total as f64 * share as f64) as u32;
            for count in near.saturating_sub(20)..near.saturating_add(20) {
                let all = BoosterCounts {
                    content: total,
                    yellow: if kind == 0 { count } else { total },
                    ring: total,
                    ring_yellow: if kind == 1 { count } else { total },
                    core: total,
                    core_dark: if kind == 2 { count } else { total },
                };
                let shown = count as f32 >= total as f32 * share;
                assert_eq!(home_booster_kind(all) == SlotKind::HomeBooster, shown);
            }
        }
    }
}

const FILLED: SlotKind = SlotKind::Stratagem;
const EMPTY: SlotKind = SlotKind::StratagemEmpty;

fn histogram(gray: u8) -> GrayHistogram {
    let image = frame(10, 10, |x, _| if x < 4 { [gray, gray, gray, 255] } else { [255, 0, 0, 255] });
    gray_histogram(&image, ImageRect { x: 0, y: 0, w: 10, h: 10 }).unwrap()
}

#[test]
fn neutral_pixels_are_counted() {
    let found = histogram(44);
    assert_eq!(found.area, 100);
    assert_eq!(found.samples.len(), 40);
    assert_eq!(found.bins[44], 40);
    assert_eq!(channel_median(&found.samples, ToneChannel::Blue), 88);
    assert_eq!(slot_peak(&found), 44);
    let image = frame(2, 2, |_, _| [0, 0, 0, 255]);
    assert!(gray_histogram(&image, ImageRect { x: 1, y: 0, w: 2, h: 1 }).is_err());
}

#[test]
fn three_slots_share_a_gray() {
    let slots = vec![histogram(44), histogram(44), histogram(100), histogram(44)];
    assert_eq!(find_peak(&slots), 44);
    let tone = estimate_histograms(&slots).unwrap();
    let share = |support: f32| (support as f64 * 2.0f64.powi(60)) as u128;
    assert_eq!(tone.consensus_support, share(0.4));
    assert_eq!(tone.slot_supports, [share(0.4), share(0.4), 0, share(0.4)]);
    assert_eq!(tone.slot_peaks, [44, 44, 100, 44]);
    assert_eq!(tone.twice_gray, 88);
    assert_eq!(tone.twice_rgb, [88, 88, 88]);
    assert_eq!(MIN_SHARE, share(0.30));
    let mixed = vec![histogram(10), histogram(40), histogram(70), histogram(100)];
    assert_eq!(
        estimate_histograms(&mixed),
        Err(ToneError::InsufficientSupport { support: 0 })
    );
    let three = vec![histogram(44), histogram(44), histogram(44)];
    assert_eq!(estimate_histograms(&three), Err(ToneError::SlotCount { count: 3 }));
}

#[test]
fn the_tone_of_the_home_is_measured() {
    let image = frame(60, 12, |x, _| match x / 12 {
        0 | 1 => [50, 50, 52, 255],
        2 => [120, 120, 120, 255],
        3 => [51, 51, 51, 255],
        _ => [255, 0, 0, 255],
    });
    // The slots stand in the reverse of their order from left to right.
    let kinds = [SlotKind::HomeBooster, FILLED, EMPTY, FILLED, FILLED];
    let slots: Vec<Slot> =
        (0..5).map(|at| slot((4 - at) * 12, 0, 12, 0, 4 - at, kinds[at as usize])).collect();
    let core = |slot: &Slot| ImageRect { x: slot.x + 1, y: 1, w: 10, h: 10 };
    let cores: Vec<ImageRect> = slots.iter().map(core).collect();
    let home = RoiObservation { image, layout: SlotLayout::Home, slots };
    let tone = measure_home_tone(&home, &cores).unwrap();
    assert_eq!(tone.slot_peaks, [51, 51, 120, 51]);
    assert_eq!(tone.twice_gray, 102);
    assert_eq!(tone.twice_rgb, [100, 100, 104]);
    assert_eq!(tone.slot_supports[2], 0);
    assert_eq!(tone.consensus_support, 1 << 60);

    let mut outside = cores.clone();
    outside[4].x = 51;
    assert_eq!(measure_home_tone(&home, &outside), Err(ToneError::OutsideImage));
    let list = RoiObservation { layout: SlotLayout::List(ItemKind::Stratagem), ..home };
    assert_eq!(measure_home_tone(&list, &cores), Err(ToneError::OtherLayout));
    let mut fewer = RoiObservation { layout: SlotLayout::Home, ..list };
    fewer.slots[1].kind = SlotKind::HomeBooster;
    assert_eq!(measure_home_tone(&fewer, &cores), Err(ToneError::SlotCount { count: 3 }));
}

#[test]
fn ranks_and_medians_of_bins() {
    let mut bins = vec![0u32; 256];
    bins[3] = 2;
    bins[7] = 1;
    bins[9] = 1;
    assert_eq!(histogram_rank(&bins, 0), 3);
    assert_eq!(histogram_rank(&bins, 1), 3);
    assert_eq!(histogram_rank(&bins, 2), 7);
    assert_eq!(histogram_rank(&bins, 3), 9);
    assert_eq!(histogram_median(&bins, 4), 10);
    bins[9] = 0;
    assert_eq!(histogram_median(&bins, 3), 6);
    assert_eq!(third_highest(5, 1, 9, 7), 5);
    assert_eq!(third_highest(2, 2, 2, 1), 2);
}

#[test]
fn profiles_are_checked() {
    let key = ProfileKey { kind: ItemKind::Booster, canvas_w: 78, canvas_h: 80, icon_size: 51 };
    assert!(check_profile(key).is_ok());
    assert_eq!(check_profile(ProfileKey { canvas_h: 0, ..key }), Err(ProfileError::EmptyCanvas));
    assert_eq!(check_profile(ProfileKey { icon_size: 0, ..key }), Err(ProfileError::EmptyIcon));
    assert_eq!(
        check_profile(ProfileKey { icon_size: 79, ..key }),
        Err(ProfileError::IconExceedsCanvas)
    );
    assert_eq!(nominal_icon_size(SlotLayout::List(ItemKind::Stratagem), 104, 110), 68);
    assert_eq!(nominal_icon_size(SlotLayout::Home, 104, 110), 93);
    assert_eq!(nominal_icon_size(SlotLayout::List(ItemKind::Stratagem), 13, 13), 9);
    assert_eq!(nominal_icon_size(SlotLayout::Home, 0, 0), 1);
    for side in [146_606u32, 146_607, 16_777_217, 104_000_001, u32::MAX] {
        let size = (side as f32 * (93.0f32 / 104.0)).round() as u32;
        assert_eq!(nominal_icon_size(SlotLayout::Home, side, u32::MAX), size);
        let size = (side as f32 * (68.0f32 / 104.0)).round() as u32;
        let list = SlotLayout::List(ItemKind::Booster);
        assert_eq!(nominal_icon_size(list, u32::MAX, side), size);
    }
}

#[test]
fn profiles_of_a_page_are_listed_once() {
    let slots = vec![
        slot(0, 0, 104, 0, 0, SlotKind::Booster),
        slot(110, 0, 104, 0, 1, SlotKind::Booster),
        slot(220, 0, 104, 0, 2, SlotKind::NoBoosterOption),
        slot(330, 0, 52, 0, 3, SlotKind::Booster),
    ];
    let keys = prewarm_nominal_profiles(&slots, SlotLayout::List(ItemKind::Booster));
    assert_eq!(keys.len(), 2);
    assert_eq!(keys[0].icon_size, 68);
    assert_eq!(keys[1].icon_size, 34);
    assert_eq!(
        classification_kind_for_slot(SlotKind::HomeBoosterEmpty, SlotLayout::Home),
        Some(ItemKind::Booster)
    );
    assert_eq!(
        classification_kind_for_slot(
            SlotKind::HomeBoosterEmpty,
            SlotLayout::List(ItemKind::Booster)
        ),
        None
    );
}

#[test]
fn every_offset_is_tried_once() {
    for (canvas_w, canvas_h) in [(78, 78), (79, 78), (78, 79), (79, 79)] {
        let (first, rest) = search_plan(canvas_w, canvas_h, 50);
        let mut tried: Vec<(i32, i32)> = first.iter().chain(rest.iter()).copied().collect();
        tried.sort();
        let mut all = all_offsets();
        all.sort();
        assert_eq!(tried, all);
    }
    assert_eq!(initial_offsets(79, 79, 50), vec![(0, 0), (1, 0), (0, 1), (1, 1)]);
    assert_eq!(initial_offsets(78, 79, 50), vec![(0, 0), (0, 1)]);
    assert_eq!(offsets_excluding(&vec![(0, 0), (1, 0)], &vec![(0, 0)]), vec![(1, 0)]);
}

#[test]
fn neighboring_sizes_fit_the_canvas() {
    assert_eq!(neighboring_icon_sizes(50, 78), vec![49, 51]);
    assert_eq!(neighboring_icon_sizes(78, 78), vec![77]);
    assert_eq!(neighboring_icon_sizes(1, 78), vec![2]);
    assert_eq!(neighboring_icon_sizes(0, 78), vec![1]);
}

#[test]
fn the_two_best_scores_are_found() {
    assert_eq!(best_two(&vec![None, None]), None);
    assert_eq!(best_two(&vec![None, Some(4)]), Some((1, None)));
    assert_eq!(best_two(&vec![Some(2), Some(9), None, Some(9), Some(5)]), Some((1, Some(9))));
    assert_eq!(best_two(&vec![Some(2), Some(5), Some(9)]), Some((2, Some(5))));
}

#[test]
fn categories_narrow_the_search() {
    let one = StratagemCategoryCandidates::One(StratagemCategory::Supply);
    assert!(one.contains(StratagemCategory::Supply));
    assert!(!one.contains(StratagemCategory::Offensive));
    let two = StratagemCategoryCandidates::Two(
        StratagemCategory::Supply,
        StratagemCategory::Offensive,
    );
    assert!(two.contains(StratagemCategory::Offensive));
    assert!(!two.contains(StratagemCategory::Defensive));
    assert!(StratagemCategoryCandidates::All.contains(StratagemCategory::Defensive));
}

#[test]
fn masks_hold_opaque_pixels() {
    let mut first = vec![0u8; 100];
    let mut second = vec![0u8; 100];
    for index in 0..50 {
        first[index] = 65;
        second[99 - index] = 200;
    }
    first[0] = 64;
    let mut interior = vec![true; 100];
    interior[99] = false;
    let mask = template_mask(&vec![first.clone(), second], &interior, 10).unwrap();
    assert_eq!(mask.len(), 98);
    assert_eq!(mask[0], MaskPoint { x: 1, y: 0 });
    assert_eq!(mask[97], MaskPoint { x: 8, y: 9 });
    assert_eq!(
        template_mask(&vec![first], &interior, 10),
        Err(MaskTooSmall { pixels: 49 })
    );
}

#[test]
fn slots_are_read_as_brightness() {
    let image = frame(4, 3, |x, y| [(x + y) as u8, (x + y) as u8, (x + y) as u8, 255]);
    assert_eq!(
        slot_luma(&image, ImageRect { x: 1, y: 1, w: 2, h: 2 }),
        Ok(vec![2, 3, 3, 4])
    );
    assert_eq!(
        slot_luma(&image, ImageRect { x: 1, y: 1, w: 0, h: 2 }),
        Err(SlotCropError::Empty)
    );
    assert_eq!(
        slot_luma(&image, ImageRect { x: 3, y: 1, w: 2, h: 2 }),
        Err(SlotCropError::OutsideImage)
    );
}

fn score(score: i64) -> TemplateScore {
    TemplateScore {
        score,
        error: score as i32,
        margin: 3,
        quality: 4,
        availability: ItemAvailability::Available,
    }
}

fn entries() -> Vec<TemplateEntry> {
    vec![
        TemplateEntry { item_id: String::from("a"), category: Some(StratagemCategory::Supply) },
        TemplateEntry { item_id: String::from("b"), category: Some(StratagemCategory::Supply) },
        TemplateEntry { item_id: String::from("a"), category: None },
    ]
}

#[test]
fn the_best_template_is_recognized() {
    assert_eq!(best_template(&vec![score(5), score(2), score(2)]), 1);
    let found = SlotMatch { scores: vec![score(5), score(2), score(9)], margin: 3 };
    let shown = classify_slot(&entries(), &found, 3).unwrap();
    assert_eq!(shown.item_id, "b");
    assert_eq!(shown.match_score, 2);
    assert_eq!(shown.match_margin, 3);
    assert!(classify_slot(&entries(), &found, 2).is_none());
}

#[test]
fn only_numbers_are_recognized() {
    let values = [-f64::NAN, f64::NEG_INFINITY, -1.0, -0.0, 0.0, 0.35, f64::INFINITY, f64::NAN];
    let key = |value: f64| wide_order_key(value.to_bits());
    for left in values {
        for right in values {
            assert_eq!(less_than(key(left), key(right)), left < right);
            let scores = vec![score(key(left)), score(key(f64::NAN)), score(key(f64::NAN))];
            let found = SlotMatch { scores, margin: 0 };
            let shown = classify_slot(&entries(), &found, key(right));
            assert_eq!(shown.is_some(), left < right);
        }
    }
}

#[test]
fn templates_are_measured_against_others() {
    let scores = vec![score(5), score(2), score(2)];
    assert_eq!(second_template(&scores), Some(2));
    assert_eq!(second_template(&vec![score(1), score(3), score(2)]), Some(2));
    assert_eq!(second_template(&vec![score(3), score(1), score(2)]), Some(2));
    assert_eq!(second_template(&vec![score(3)]), None);
    assert_eq!(competing_template(&entries(), &scores, 0), Some(1));
    assert_eq!(competing_template(&entries(), &scores, 1), Some(2));
    let same = vec![score(2), score(5), score(2)];
    assert_eq!(competing_template(&entries(), &same, 1), Some(0));
    let mut alone = entries();
    alone[1].item_id = String::from("a");
    assert_eq!(competing_template(&alone, &scores, 0), None);
}

#[test]
fn the_best_place_on_a_page_is_found() {
    let matches = vec![
        SlotMatch { scores: vec![score(7), score(1), score(6)], margin: 0 },
        SlotMatch { scores: vec![score(6), score(1), score(9)], margin: 0 },
    ];
    assert_eq!(best_on_page(&entries(), &matches, 0), Some((0, 2)));
    assert_eq!(best_on_page(&entries(), &matches, 1), Some((0, 1)));
    assert_eq!(best_on_page(&entries(), &vec![], 1), None);
}

fn page() -> RoiObservation {
    RoiObservation {
        image: frame(4, 4, |_, _| [0, 0, 0, 255]),
        layout: SlotLayout::List(ItemKind::Stratagem),
        slots: vec![
            slot(0, 0, 2, 0, 0, SlotKind::StratagemEmpty),
            slot(2, 0, 2, 0, 1, SlotKind::Stratagem),
            slot(0, 2, 2, 1, 0, SlotKind::Stratagem),
        ],
    }
}

#[test]
fn pages_are_classified() {
    let classifier =
        TemplateClassifier::new(ItemKind::Stratagem, entries(), 5, &page()).unwrap();
    let matches = vec![
        SlotMatch { scores: vec![score(7), score(4), score(6)], margin: 1 },
        SlotMatch { scores: vec![score(8), score(9), score(6)], margin: 2 },
    ];
    let (after, best) = classifier.classify_batch(page(), &matches).unwrap();
    assert!(after.slots[0].classification.is_none());
    assert_eq!(after.slots[1].classification.as_ref().unwrap().item_id, "b");
    assert!(after.slots[2].classification.is_none());
    assert_eq!(best.len(), 3);
    assert_eq!(best[0].item_id, "a");
    assert_eq!(best[0].score.score, 6);
    assert_eq!(best[0].slot.col, 1);
    assert_eq!(best[1].score.score, 4);

    let mut other = page();
    other.layout = SlotLayout::Home;
    assert!(matches!(
        classifier.classify_batch(other, &matches),
        Err(TemplateError::OtherLayout)
    ));
}

#[test]
fn classifiers_need_templates_and_slots() {
    assert!(matches!(
        TemplateClassifier::new(ItemKind::Stratagem, vec![], 5, &page()),
        Err(TemplateError::NoTemplates)
    ));
    assert!(matches!(
        TemplateClassifier::new(ItemKind::Booster, entries(), 5, &page()),
        Err(TemplateError::OtherLayout)
    ));
    let mut empty = page();
    empty.slots.truncate(1);
    assert!(matches!(
        TemplateClassifier::new(ItemKind::Stratagem, entries(), 5, &empty),
        Err(TemplateError::NoCandidateSlot)
    ));
}

#[test]
fn array_files_have_aligned_headers() {
    for (width, height) in [(1, 1), (640, 480), (u32::MAX, 7)] {
        let header = npy_header(width, height);
        assert_eq!((10 + header.len()) % 64, 0);
        assert!(header.ends_with('\n'));
    }
    assert!(npy_header(640, 480).starts_with(
        "{'descr': '<f2', 'fortran_order': False, 'shape': (480, 640, 4), }"
    ));
    let region = ImageRect { x: 3, y: 4, w: 640, h: 480 };
    assert_eq!(
        npy_file_name(12, region, 640, 480, "raw"),
        "wgc-12-x3-y4-640x480-raw.npy"
    );
    assert!(is_packed(16, 2, 1));
    assert!(!is_packed(15, 2, 1));
}

#[test]
fn brightness_is_resized() {
    let image = frame(8, 8, |x, _| if x < 4 { [0, 0, 0, 255] } else { [200, 200, 200, 255] });
    let gray = GrayFrame::of_image(&image);
    assert_eq!(gray.values()[0..8], [0, 0, 0, 0, 200, 200, 200, 200]);
    let small = resize_l8_lanczos(gray, 4, 2).unwrap();
    assert_eq!((small.width(), small.height()), (4, 2));
    assert_eq!(small.values().len(), 8);
    assert!(small.values()[0] < 50 && small.values()[3] > 150);
    let same = luma_canonical(&image, 8, 8).unwrap();
    assert_eq!(same.values()[7], 200);
    assert_eq!(luma_canonical(&image, 16, 8).unwrap().values().len(), 128);
}

#[test]
fn templates_are_tried_layer_by_layer() {
    let key = ProfileKey { kind: ItemKind::Stratagem, canvas_w: 78, canvas_h: 79, icon_size: 50 };
    let likely = StratagemCategoryCandidates::One(StratagemCategory::Supply);
    let (mut search, order) = TemplateSearch::new(key, likely);
    assert_eq!(order.icon_sizes, vec![50]);
    assert_eq!(order.offsets, vec![(0, 0), (0, 1)]);
    assert_eq!(order.categories, likely);
    assert!(order.fresh);
    let mut categories = vec![];
    let mut last = search.step(false);
    while let SearchStep::Score(order) = last {
        categories.push(order.categories);
        last = search.step(false);
    }
    assert!(matches!(last, SearchStep::NotFound { all_category_fallback: true }));
    let all = StratagemCategoryCandidates::All;
    assert_eq!(categories, vec![likely, likely, all, all, all]);

    let (mut search, _) = TemplateSearch::new(key, likely);
    match search.step(false) {
        SearchStep::Score(order) => assert_eq!(order.offsets.len(), 7),
        _ => panic!("the other places are tried"),
    }
    match search.step(false) {
        SearchStep::Score(order) => assert_eq!(order.icon_sizes, vec![49, 51]),
        _ => panic!("the other sizes are tried"),
    }
    assert!(matches!(
        search.step(true),
        SearchStep::Found { deepest_layer: SearchLayer::Scale, all_category_fallback: false }
    ));
    let booster = ProfileKey { kind: ItemKind::Booster, ..key };
    assert_eq!(TemplateSearch::new(booster, likely).1.categories, all);
}
