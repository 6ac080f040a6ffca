//! Where the loadout lies on the screen, and what the regions of it are checked for.
use vstd::prelude::*;

use crate::capture::{CaptureRegion, CaptureSource};
use crate::item::ItemKind;
use crate::single::{round, rounding_is_close, single, small_numbers_are_kept};
use crate::slot::SlotLayout;
use crate::vision::{Frame, ImageRect, Rgba, RoiObservation, Slot};

verus! {

/// The size of the screen that the calibration was made for.
#[derive(Clone, Copy, Debug, PartialEq, Eq, Structural)]
pub struct ReferenceSize {
    pub w: u32,
    pub h: u32,
}

/// The length that gives the scale of a screen.
#[derive(Clone, Copy, Debug, PartialEq, Eq, Structural)]
pub enum ScaleAxis {
    Width,
    Height,
    Fit,
}

/// Where the scaled screen lies on the real one.
#[derive(Clone, Copy, Debug, PartialEq, Eq, Structural)]
pub enum RoiAnchor {
    TopLeft,
    TopCenter,
    Center,
}

impl Default for RoiAnchor {
    fn default() -> (anchor: Self)
        ensures
            anchor == RoiAnchor::TopLeft,
    {
        RoiAnchor::TopLeft
    }
}

#[derive(Clone, Copy, Debug, PartialEq, Eq, Structural)]
pub struct Calibration {
    pub reference: ReferenceSize,
    pub roi_ref: ImageRect,
    pub scale_axis: ScaleAxis,
    pub anchor: RoiAnchor,
}

/// Why a calibration is rejected.
#[derive(Clone, Copy, Debug, PartialEq, Eq, Structural)]
pub enum CalibrationError {
    EmptyReference { reference: ReferenceSize },
    EmptyRegion,
    RegionOutsideReference { region: ImageRect, reference: ReferenceSize },
}

pub open spec fn calibration_error(calibration: Calibration) -> Option<CalibrationError> {
    let reference = calibration.reference;
    let region = calibration.roi_ref;
    if reference.w == 0 || reference.h == 0 {
        Some(CalibrationError::EmptyReference { reference })
    } else if region.w == 0 || region.h == 0 {
        Some(CalibrationError::EmptyRegion)
    } else if region.x + region.w > reference.w || region.y + region.h > reference.h {
        Some(CalibrationError::RegionOutsideReference { region, reference })
    } else {
        None
    }
}

/// Checks that the region of the loadout lies on the screen that the calibration was made for.
pub fn check_calibration(calibration: &Calibration) -> (result: Result<(), CalibrationError>)
    requires
        calibration.roi_ref.x + calibration.roi_ref.w <= u32::MAX,
        calibration.roi_ref.y + calibration.roi_ref.h <= u32::MAX,
    ensures
        match result {
            Ok(_) => calibration_error(*calibration) is None,
            Err(error) => calibration_error(*calibration) == Some(error),
        },
{
    let reference = calibration.reference;
    let region = calibration.roi_ref;
    if reference.w == 0 || reference.h == 0 {
        return Err(CalibrationError::EmptyReference { reference });
    }
    if region.w == 0 || region.h == 0 {
        return Err(CalibrationError::EmptyRegion);
    }
    if region.x + region.w > reference.w || region.y + region.h > reference.h {
        return Err(CalibrationError::RegionOutsideReference { region, reference });
    }
    Ok(())
}

/// The region of the capture that shows the loadout. `resolved` is the region of the calibration
/// on a screen of the size of the capture.
pub fn capture_latest_roi_frame<'a>(
    capture: &'a CaptureSource,
    calibration: &Calibration,
    resolved: ImageRect,
) -> (region: Result<CaptureRegion<'a>, CalibrationError>)
    requires
        calibration.roi_ref.x + calibration.roi_ref.w <= u32::MAX,
        calibration.roi_ref.y + calibration.roi_ref.h <= u32::MAX,
    ensures
        match region {
            Ok(found) => calibration_error(*calibration) is None && found.source == capture
                && found.rect == resolved,
            Err(error) => calibration_error(*calibration) == Some(error),
        },
{
    match check_calibration(calibration) {
        Ok(_) => Ok(capture.region(resolved)),
        Err(error) => Err(error),
    }
}

/// An image without pixels.
#[derive(Clone, Copy, Debug, PartialEq, Eq, Structural)]
pub struct EmptyImage;

/// The observation of an image in which these slots were found.
pub fn detect_slot_layout(image: Frame, expected_layout: SlotLayout, slots: Vec<Slot>) -> (result:
    Result<RoiObservation, EmptyImage>)
    ensures
        match result {
            Ok(found) => image.spec_width() > 0 && image.spec_height() > 0 && found.image == image
                && found.layout == expected_layout && found.slots == slots,
            Err(_) => image.spec_width() == 0 || image.spec_height() == 0,
        },
{
    if image.width() == 0 || image.height() == 0 {
        return Err(EmptyImage);
    }
    Ok(RoiObservation { image, layout: expected_layout, slots })
}

/// The slot shows an item that can be picked and lies inside the image.
pub open spec fn is_sampled(image: Frame, slot: Slot, item_kind: ItemKind) -> bool {
    &&& slot.kind.selectable_for(item_kind)
    &&& slot.w > 0
    &&& slot.h > 0
    &&& slot.x + slot.w <= image.spec_width()
    &&& slot.y + slot.h <= image.spec_height()
}

/// The margin of a slot that is left out: 18 of 100 of its length. The share, in 0x100_0000, and
/// its product with the length are numbers of single precision.
pub open spec fn inset(length: int) -> int {
    single(3019899 * single(length)) / 0x100_0000
}

/// The place of sample `index` of eight along a side that starts at `start`, computed in single
/// precision.
pub open spec fn sample_place(start: int, length: int, index: int) -> int {
    start + inset(length) + single((2 * index + 1) * single(length - 2 * inset(length))) / 16
}

/// The first `count` samples of a slot, row by row.
pub open spec fn slot_samples(image: Frame, slot: Slot, count: int) -> Seq<Rgba>
    decreases count,
{
    if count <= 0 {
        Seq::empty()
    } else {
        slot_samples(image, slot, count - 1).push(
            image.pixel(
                sample_place(slot.x as int, slot.w as int, (count - 1) % 8),
                sample_place(slot.y as int, slot.h as int, (count - 1) / 8),
            ),
        )
    }
}

/// The samples of those of the first `count` slots that are sampled.
pub open spec fn region_samples(
    image: Frame,
    slots: Seq<Slot>,
    item_kind: ItemKind,
    count: int,
) -> Seq<Seq<Rgba>>
    decreases count,
{
    if count <= 0 {
        Seq::empty()
    } else if is_sampled(image, slots[count - 1], item_kind) {
        region_samples(image, slots, item_kind, count - 1).push(
            slot_samples(image, slots[count - 1], 64),
        )
    } else {
        region_samples(image, slots, item_kind, count - 1)
    }
}

proof fn inset_is_small(length: int)
    requires
        0 < length,
    ensures
        0 <= inset(length),
        2 * inset(length) < length,
{
    let whole = single(length);
    rounding_is_close(length);
    rounding_is_close(3019899 * whole);
    assert(0 <= whole);
}

proof fn sample_lies_inside(inner: int, index: int)
    requires
        0 < inner,
        0 <= index < 8,
    ensures
        0 <= single((2 * index + 1) * single(inner)) / 16 < inner,
{
    let whole = single(inner);
    rounding_is_close(inner);
    assert(0 <= whole);
    assert(0 <= (2 * index + 1) * whole <= 15 * whole) by (nonlinear_arith)
        requires
            0 <= index < 8,
            0 <= whole,
    ;
    rounding_is_close((2 * index + 1) * whole);
}

fn place_sample(start: u32, length: u32, index: u32) -> (place: u32)
    requires
        0 < length,
        start + length <= u32::MAX,
        index < 8,
    ensures
        place == sample_place(start as int, length as int, index as int),
        start <= place < start + length,
{
    let margin: i128 = round(3019899 * round(length as i128)) / 0x100_0000;
    proof {
        inset_is_small(length as int);
        sample_lies_inside(length - 2 * margin, index as int);
    }
    let whole = round(length as i128 - 2 * margin);
    let step: i128 = (2 * index + 1) as i128;
    assert(0 <= step * whole <= 15 * 0x2_0000_0000) by (nonlinear_arith)
        requires
            0 <= step <= 15,
            0 <= whole <= 0x2_0000_0000,
    ;
    let offset: i128 = round(step * whole) / 16;
    (start as i128 + margin + offset) as u32
}

fn sample_slot(image: &Frame, slot: &Slot) -> (samples: Vec<Rgba>)
    requires
        0 < slot.w,
        0 < slot.h,
        slot.x + slot.w <= image.spec_width(),
        slot.y + slot.h <= image.spec_height(),
    ensures
        samples@ == slot_samples(*image, *slot, 64),
{
    let mut samples: Vec<Rgba> = Vec::new();
    let mut index: u32 = 0;
    while index < 64
        invariant
            index <= 64,
            0 < slot.w,
            0 < slot.h,
            slot.x + slot.w <= image.spec_width(),
            slot.y + slot.h <= image.spec_height(),
            samples@ == slot_samples(*image, *slot, index as int),
        decreases 64 - index,
    {
        let x = place_sample(slot.x, slot.w, index % 8);
        let y = place_sample(slot.y, slot.h, index / 8);
        samples.push(image.get_pixel(x, y));
        index = index + 1;
    }
    samples
}

pub open spec fn sample_views(samples: Seq<Vec<Rgba>>) -> Seq<Seq<Rgba>> {
    samples.map_values(|slot: Vec<Rgba>| slot@)
}

/// The pixels of which the fingerprint of a list is made: an eight by eight grid inside each slot
/// that shows an item and lies inside the image.
pub fn slot_region_samples(result: &RoiObservation, item_kind: ItemKind) -> (samples: Vec<
    Vec<Rgba>,
>)
    ensures
        sample_views(samples@) == region_samples(
            result.image,
            result.slots@,
            item_kind,
            result.slots@.len() as int,
        ),
{
    let width = result.image.width();
    let height = result.image.height();
    let mut samples: Vec<Vec<Rgba>> = Vec::new();
    let mut index: usize = 0;
    assert(sample_views(samples@) =~= Seq::empty());
    while index < result.slots.len()
        invariant
            index <= result.slots@.len(),
            width == result.image.spec_width(),
            height == result.image.spec_height(),
            sample_views(samples@) == region_samples(
                result.image,
                result.slots@,
                item_kind,
                index as int,
            ),
        decreases result.slots@.len() - index,
    {
        let slot = &result.slots[index];
        if slot.kind.is_selectable_item_for(item_kind) && slot.w > 0 && slot.h > 0 && slot.x as u64
            + slot.w as u64 <= width as u64 && slot.y as u64 + slot.h as u64 <= height as u64 {
            let ghost before = samples@;
            let sampled = sample_slot(&result.image, slot);
            samples.push(sampled);
            assert(sample_views(samples@) =~= sample_views(before).push(sampled@));
        }
        index = index + 1;
    }
    samples
}

/// A calibration is accepted just where its region has an extent and lies on its screen. What is
/// wrong is named: a screen without extent first, then a region without one.
pub proof fn regions_on_the_screen_are_accepted(calibration: Calibration)
    ensures
        calibration_error(calibration) is None <==> {
            &&& 0 < calibration.roi_ref.w && 0 < calibration.roi_ref.h
            &&& calibration.roi_ref.x + calibration.roi_ref.w <= calibration.reference.w
            &&& calibration.roi_ref.y + calibration.roi_ref.h <= calibration.reference.h
        },
        calibration_error(calibration) matches Some(CalibrationError::EmptyReference { reference })
            ==> reference == calibration.reference && (reference.w == 0 || reference.h == 0),
        calibration_error(calibration) == Some(CalibrationError::EmptyRegion)
            ==> calibration.reference.w > 0 && calibration.reference.h > 0 && (calibration.roi_ref.w
            == 0 || calibration.roi_ref.h == 0),
        calibration_error(calibration) matches Some(CalibrationError::RegionOutsideReference {
            region,
            reference,
        }) ==> region == calibration.roi_ref && reference == calibration.reference,
        calibration.reference.w == 0 || calibration.reference.h == 0 ==> calibration_error(
            calibration,
        ) == Some(CalibrationError::EmptyReference { reference: calibration.reference }),
{
}

/// The samples of a slot lie inside it, apart from a margin of 18 of 100 of its length on each side,
/// and go from one side to the other in eight equal steps.
pub proof fn samples_lie_in_the_slot(start: int, length: int, index: int)
    requires
        0 < length < 0x10_0000,
        0 <= index < 8,
    ensures
        100 * inset(length) <= 18 * length <= 100 * (inset(length) + 1),
        start + inset(length) <= sample_place(start, length, index) < start + length - inset(length),
        ({
            let inner = length - 2 * inset(length);
            let from = sample_place(start, length, index) - start - inset(length);
            8 * from <= index * inner + inner && index * inner < 8 * (from + 1)
        }),
{
    let margin = inset(length);
    let inner = length - 2 * margin;
    small_numbers_are_kept(length);
    inset_is_eighteen_percent(length);
    inset_is_small(length);
    small_numbers_are_kept(inner);
    assert(0 <= (2 * index + 1) * inner < 15 * inner + 1 && (2 * index + 1) * inner == 2 * (index
        * inner) + inner) by (nonlinear_arith)
        requires
            0 <= index < 8,
            0 < inner,
    ;
    small_numbers_are_kept((2 * index + 1) * inner);
}

proof fn inset_is_eighteen_percent(length: int)
    requires
        0 < length < 0x10_0000,
    ensures
        100 * inset(length) <= 18 * length <= 100 * (inset(length) + 1),
{
    small_numbers_are_kept(length);
    let product = 3019899 * length;
    rounding_is_close(product);
    let rounded = single(product);
    let margin = rounded / 0x100_0000;
    assert(0x100_0000 * margin <= rounded < 0x100_0000 * (margin + 1));
    assert(50 * product == 0x100_0000 * (9 * length) + 6 * length);
}

/// A slot is sampled where it can be picked, has an extent and lies in the image.
pub proof fn slots_in_the_image_are_sampled(image: Frame, slot: Slot, item_kind: ItemKind)
    ensures
        is_sampled(image, slot, item_kind) <==> {
            &&& slot.kind.selectable_for(item_kind)
            &&& 0 < slot.w && 0 < slot.h
            &&& slot.x + slot.w - 1 < image.spec_width()
            &&& slot.y + slot.h - 1 < image.spec_height()
        },
{
}

/// The samples of a slot form an eight by eight grid, row by row.
pub proof fn samples_form_a_grid(image: Frame, slot: Slot, row: int, column: int)
    requires
        0 <= row < 8,
        0 <= column < 8,
    ensures
        slot_samples(image, slot, 64).len() == 64,
        slot_samples(image, slot, 64)[8 * row + column] == image.pixel(
            sample_place(slot.x as int, slot.w as int, column),
            sample_place(slot.y as int, slot.h as int, row),
        ),
{
    samples_stand_in_order(image, slot, 64, 8 * row + column);
}

proof fn samples_stand_in_order(image: Frame, slot: Slot, count: int, at: int)
    requires
        0 <= at < count,
    ensures
        slot_samples(image, slot, count).len() == count,
        slot_samples(image, slot, count)[at] == image.pixel(
            sample_place(slot.x as int, slot.w as int, at % 8),
            sample_place(slot.y as int, slot.h as int, at / 8),
        ),
    decreases count,
{
    if at < count - 1 {
        samples_stand_in_order(image, slot, count - 1, at);
    } else if count > 1 {
        samples_stand_in_order(image, slot, count - 1, 0);
    } else {
        assert(slot_samples(image, slot, 0).len() == 0);
    }
}

/// The samples of a list are those of its sampled slots, of each of them and of no others.
pub proof fn sampled_slots_make_the_region(
    image: Frame,
    slots: Seq<Slot>,
    item_kind: ItemKind,
    count: int,
)
    requires
        0 <= count <= slots.len(),
    ensures
        forall|samples: Seq<Rgba>| #[trigger]
            region_samples(image, slots, item_kind, count).contains(samples) <==> exists|
                index: int,
            |
                0 <= index < count && is_sampled(image, #[trigger] slots[index], item_kind)
                    && samples == slot_samples(image, slots[index], 64),
        region_samples(image, slots, item_kind, count).len() <= count,
        (forall|index: int|
            0 <= index < count ==> is_sampled(image, #[trigger] slots[index], item_kind))
            ==> region_samples(image, slots, item_kind, count).len() == count,
    decreases count,
{
    if count > 0 {
        sampled_slots_make_the_region(image, slots, item_kind, count - 1);
        let front = region_samples(image, slots, item_kind, count - 1);
        let all = region_samples(image, slots, item_kind, count);
        let last = slot_samples(image, slots[count - 1], 64);
        let taken = is_sampled(image, slots[count - 1], item_kind);
        assert forall|samples: Seq<Rgba>| #[trigger] all.contains(samples) implies exists|
            index: int,
        |
            0 <= index < count && is_sampled(image, #[trigger] slots[index], item_kind) && samples
                == slot_samples(image, slots[index], 64) by {
            let at = choose|at: int| 0 <= at < all.len() && all[at] == samples;
            if at < front.len() {
                assert(front[at] == samples);
                assert(front.contains(samples));
            } else {
                assert(slots[count - 1] == slots[count - 1]);
            }
        }
        assert forall|samples: Seq<Rgba>|
            (exists|index: int|
                0 <= index < count && is_sampled(image, #[trigger] slots[index], item_kind)
                    && samples == slot_samples(image, slots[index], 64)) implies #[trigger] all.contains(
            samples,
        ) by {
            let index = choose|index: int|
                0 <= index < count && is_sampled(image, #[trigger] slots[index], item_kind)
                    && samples == slot_samples(image, slots[index], 64);
            if index < count - 1 {
                assert(front.contains(samples));
                let at = choose|at: int| 0 <= at < front.len() && front[at] == samples;
                assert(all[at] == samples);
            } else {
                assert(all[all.len() - 1] == samples);
            }
        }
    }
}

} // verus!
