//! Whether the slot under the cursor is highlighted, and whether a click has dimmed it.
use vstd::prelude::*;

use crate::fingerprint::{luma, luma601_u8};
use crate::stats::{
    all_within, interpolated_median, ints, sorted, twice_median, twice_median_between, upper_tertile,
    upper_tertile_of,
};
use crate::vision::{Frame, Rgba, Slot};

verus! {

/// Milliseconds to wait for the highlight.
pub const HOVER_TIMEOUT: u64 = 700;

/// Milliseconds that the highlight has to stay.
pub const HOVER_STABLE_DURATION: u64 = 15;

/// Largest change of the score, in quarters, of a highlight that stays.
pub const HOVER_STABLE_SCORE_DELTA: i128 = 12;

/// Smallest gap to the other slots, in sixteenths of a brightness step.
pub const HOVER_MIN_SCORE_GAP: i128 = 384;

/// Smallest drop of the score, in quarters, that counts as selected.
pub const SELECTED_MIN_SCORE_DROP: i128 = 56;

pub open spec fn brightest(pixel: Rgba) -> u8 {
    if pixel.r >= pixel.g && pixel.r >= pixel.b {
        pixel.r
    } else if pixel.g >= pixel.b {
        pixel.g
    } else {
        pixel.b
    }
}

pub open spec fn darkest(pixel: Rgba) -> u8 {
    if pixel.r <= pixel.g && pixel.r <= pixel.b {
        pixel.r
    } else if pixel.g <= pixel.b {
        pixel.g
    } else {
        pixel.b
    }
}

/// How white a pixel is, in quarters of a brightness step: its brightness less three quarters of
/// its color spread, and not below zero.
pub open spec fn whiteness(pixel: Rgba) -> int {
    let response = 4 * luma(pixel.r as int, pixel.g as int, pixel.b as int) - 3 * (brightest(pixel)
        - darkest(pixel));
    if response > 0 {
        response
    } else {
        0
    }
}

fn white_response(pixel: Rgba) -> (response: i128)
    ensures
        response == whiteness(pixel),
        0 <= response <= 1020,
{
    let (r, g, b) = (pixel.r, pixel.g, pixel.b);
    let brightness: u8 = luma601_u8(r, g, b);
    let max_channel: u8 = if r >= g && r >= b {
        r
    } else if g >= b {
        g
    } else {
        b
    };
    let min_channel: u8 = if r <= g && r <= b {
        r
    } else if g <= b {
        g
    } else {
        b
    };
    let response: i128 = 4 * brightness as i128 - 3 * (max_channel as i128 - min_channel as i128);
    if response > 0 {
        response
    } else {
        0
    }
}

/// The whiteness along the frame of a slot: top and bottom edge, then left and right edge.
pub open spec fn border_values(image: Frame, slot: Slot) -> Seq<int> {
    Seq::new(
        (2 * slot.w) as nat,
        |at: int|
            whiteness(
                image.pixel(
                    slot.x + at / 2,
                    if at % 2 == 0 {
                        slot.y as int
                    } else {
                        slot.y + slot.h
                    },
                ),
            ),
    ) + Seq::new(
        (2 * slot.h) as nat,
        |at: int|
            whiteness(
                image.pixel(
                    if at % 2 == 0 {
                        slot.x as int
                    } else {
                        slot.x + slot.w
                    },
                    slot.y + at / 2,
                ),
            ),
    )
}

/// Why the highlight of a slot cannot be judged.
#[derive(Clone, Copy, Debug, PartialEq, Eq, Structural)]
pub enum HoverError {
    /// The slot has no extent.
    ZeroSizeSlot,
    /// The frame of the slot reaches over the edge of the image.
    OutsideImage { right: u32, bottom: u32, width: u32, height: u32 },
    /// The slot is not one of the page's slots.
    TargetAbsent,
    /// The page has no other slot to compare with.
    NoBaseline,
}

/// The frame of the slot lies on the image.
pub open spec fn has_border(image: Frame, slot: Slot) -> bool {
    &&& slot.w > 0
    &&& slot.h > 0
    &&& slot.x + slot.w < image.spec_width()
    &&& slot.y + slot.h < image.spec_height()
}

pub open spec fn saturated(left: u32, right: u32) -> u32 {
    if left + right <= u32::MAX {
        (left + right) as u32
    } else {
        u32::MAX
    }
}

/// Why the frame of the slot cannot be sampled.
pub open spec fn border_error(image: Frame, slot: Slot) -> HoverError {
    if slot.w == 0 || slot.h == 0 {
        HoverError::ZeroSizeSlot
    } else {
        HoverError::OutsideImage {
            right: saturated(slot.x, slot.w),
            bottom: saturated(slot.y, slot.h),
            width: image.spec_width(),
            height: image.spec_height(),
        }
    }
}

/// The score of a slot, in quarters: the whiteness two thirds up the sorted values of its frame.
pub open spec fn border_score(image: Frame, slot: Slot) -> int {
    upper_tertile_of(border_values(image, slot))
}

/// The score of a slot, in quarters.
pub fn border_center_line_score(image: &Frame, slot: &Slot) -> (score: Result<i128, HoverError>)
    ensures
        match score {
            Ok(value) => has_border(*image, *slot) && value == border_score(*image, *slot) && 0
                <= value <= 1020,
            Err(error) => !has_border(*image, *slot) && error == border_error(*image, *slot),
        },
{
    if slot.w == 0 || slot.h == 0 {
        return Err(HoverError::ZeroSizeSlot);
    }
    let right: u32 = slot.x.saturating_add(slot.w);
    let bottom: u32 = slot.y.saturating_add(slot.h);
    if right >= image.width() || bottom >= image.height() {
        return Err(
            HoverError::OutsideImage {
                right,
                bottom,
                width: image.width(),
                height: image.height(),
            },
        );
    }
    let ghost border = border_values(*image, *slot);
    let mut values: Vec<i128> = Vec::new();
    let mut x: u32 = slot.x;
    while x < right
        invariant
            slot.x <= x <= right,
            right == slot.x + slot.w,
            bottom == slot.y + slot.h,
            right < image.spec_width(),
            bottom < image.spec_height(),
            slot.w > 0,
            slot.h > 0,
            border == border_values(*image, *slot),
            ints(values@) == border.take(2 * (x - slot.x)),
            forall|i: int| 0 <= i < values@.len() ==> 0 <= #[trigger] values@[i] <= 1020,
        decreases right - x,
    {
        let ghost before = values@;
        let ghost at = 2 * (x - slot.x);
        let top: i128 = white_response(image.get_pixel(x, slot.y));
        let low: i128 = white_response(image.get_pixel(x, bottom));
        values.push(top);
        values.push(low);
        proof {
            assert(at / 2 == x - slot.x && at % 2 == 0);
            assert((at + 1) / 2 == x - slot.x && (at + 1) % 2 == 1);
            assert(border[at] == top);
            assert(border[at + 1] == low);
            assert(ints(values@) =~= ints(before).push(top as int).push(low as int));
            assert(border.take(at + 2) =~= border.take(at).push(border[at]).push(border[at + 1]));
        }
        x = x + 1;
    }
    let mut y: u32 = slot.y;
    while y < bottom
        invariant
            slot.y <= y <= bottom,
            right == slot.x + slot.w,
            bottom == slot.y + slot.h,
            right < image.spec_width(),
            bottom < image.spec_height(),
            slot.w > 0,
            slot.h > 0,
            border == border_values(*image, *slot),
            ints(values@) == border.take(2 * slot.w + 2 * (y - slot.y)),
            forall|i: int| 0 <= i < values@.len() ==> 0 <= #[trigger] values@[i] <= 1020,
        decreases bottom - y,
    {
        let ghost before = values@;
        let ghost along = 2 * (y - slot.y);
        let ghost at = 2 * slot.w + along;
        let left: i128 = white_response(image.get_pixel(slot.x, y));
        let far: i128 = white_response(image.get_pixel(right, y));
        values.push(left);
        values.push(far);
        proof {
            assert(along / 2 == y - slot.y && along % 2 == 0);
            assert((along + 1) / 2 == y - slot.y && (along + 1) % 2 == 1);
            assert(border[at] == left);
            assert(border[at + 1] == far);
            assert(ints(values@) =~= ints(before).push(left as int).push(far as int));
            assert(border.take(at + 2) =~= border.take(at).push(border[at]).push(border[at + 1]));
        }
        y = y + 1;
    }
    proof {
        assert(border.take(border.len() as int) =~= border);
        assert(values@.len() == ints(values@).len());
    }
    Ok(upper_tertile(&values))
}

/// A score of the slot under the cursor.
#[derive(Clone, Copy, Debug, PartialEq, Eq, Structural)]
pub struct HoverSample {
    /// In quarters of a brightness step.
    pub target_score: i128,
}

/// Drop of the score, in tenths of a quarter, that counts as selected: a tenth of the score before
/// the click, and at least fourteen brightness steps.
pub open spec fn required_drop_tenths(score: int) -> int {
    if score > 560 {
        score
    } else {
        560
    }
}

impl HoverSample {
    /// The slot is so much darker than before that it was selected.
    pub open spec fn dimmer_than(self, unselected: HoverSample) -> bool {
        10 * (unselected.target_score - self.target_score) >= required_drop_tenths(
            unselected.target_score as int,
        )
    }

    pub fn is_dimmer_than(&self, unselected: &HoverSample) -> (dimmer: bool)
        requires
            0 <= self.target_score <= 1020,
            0 <= unselected.target_score <= 1020,
        ensures
            dimmer == self.dimmer_than(*unselected),
    {
        let score_drop: i128 = unselected.target_score - self.target_score;
        score_drop >= SELECTED_MIN_SCORE_DROP && 10 * score_drop >= unselected.target_score
    }
}

/// A slot is never dimmer than itself, and of two slots at most one is dimmer than the other.
pub proof fn dimmer_is_asymmetric(left: HoverSample, right: HoverSample)
    requires
        left.dimmer_than(right),
    ensures
        !right.dimmer_than(left),
        left != right,
{
}

/// The score of the slot under the cursor against the scores of the other slots.
#[derive(Clone, Copy, Debug, PartialEq, Eq, Structural)]
pub struct HoverEvidence {
    /// In quarters of a brightness step.
    pub target_score: i128,
    /// Median of the other slots, in eighths.
    pub baseline: i128,
    /// Median distance of the other slots from the baseline, in sixteenths.
    pub deviation: i128,
}

impl HoverEvidence {
    /// The slot stands out by at least twenty-four steps and by three times the spread of the
    /// others, the spread being 1.4826 times their median deviation.
    pub open spec fn is_confirmed(self) -> bool {
        let gap = 4 * self.target_score - 2 * self.baseline;
        gap >= 384 && gap * 10000 >= 3 * 14826 * self.deviation
    }

    pub open spec fn in_range(self) -> bool {
        &&& 0 <= self.target_score <= 1020
        &&& 0 <= self.baseline <= 2040
        &&& 0 <= self.deviation <= 4080
    }

    pub fn confirmed(&self) -> (confirmed: bool)
        requires
            self.in_range(),
        ensures
            confirmed == self.is_confirmed(),
    {
        let gap: i128 = 4 * self.target_score - 2 * self.baseline;
        gap >= HOVER_MIN_SCORE_GAP && gap * 10000 >= 44478 * self.deviation
    }

    pub fn sample(&self) -> (sample: HoverSample)
        ensures
            sample.target_score == self.target_score,
    {
        HoverSample { target_score: self.target_score }
    }
}

pub open spec fn is_same_slot(left: Slot, right: Slot) -> bool {
    left.row == right.row && left.col == right.col && left.x == right.x && left.y == right.y
}

fn same_slot(left: &Slot, right: &Slot) -> (same: bool)
    ensures
        same == is_same_slot(*left, *right),
{
    left.row == right.row && left.col == right.col && left.x == right.x && left.y == right.y
}

/// The scores of all slots.
pub open spec fn slot_scores(image: Frame, slots: Seq<Slot>) -> Seq<int> {
    slots.map_values(|slot: Slot| border_score(image, slot))
}

/// The scores to compare with: those of the other slots, without their highest if there are more
/// than one.
pub open spec fn baseline_scores(scores: Seq<int>, target: int) -> Seq<int> {
    let others = scores.remove(target);
    if others.len() > 1 {
        others.sort().drop_last()
    } else {
        others.sort()
    }
}

/// How far each score lies from the median, in eighths.
pub open spec fn deviations(scores: Seq<int>, baseline: int) -> Seq<int> {
    scores.map_values(
        |score: int|
            if 2 * score >= baseline {
                2 * score - baseline
            } else {
                baseline - 2 * score
            },
    )
}

/// Index of the first slot that is the target.
pub open spec fn first_same(slots: Seq<Slot>, target: Slot, index: int) -> bool {
    &&& 0 <= index < slots.len()
    &&& is_same_slot(slots[index], target)
    &&& forall|earlier: int| 0 <= earlier < index ==> !is_same_slot(#[trigger] slots[earlier], target)
}

pub open spec fn evidence_at(scores: Seq<int>, target: int) -> HoverEvidence {
    let others = baseline_scores(scores, target);
    let baseline = twice_median(others);
    HoverEvidence {
        target_score: scores[target] as i128,
        baseline: baseline as i128,
        deviation: twice_median(deviations(others, baseline)) as i128,
    }
}

fn score_slots(image: &Frame, slots: &Vec<Slot>) -> (scores: Result<Vec<i128>, HoverError>)
    ensures
        match scores {
            Ok(values) => {
                &&& forall|i: int| 0 <= i < slots@.len() ==> has_border(*image, #[trigger] slots@[i])
                &&& values@.len() == slots@.len()
                &&& ints(values@) == slot_scores(*image, slots@)
                &&& forall|i: int| 0 <= i < values@.len() ==> 0 <= #[trigger] values@[i] <= 1020
            },
            Err(error) => exists|i: int|
                0 <= i < slots@.len() && !has_border(*image, #[trigger] slots@[i]) && error
                    == border_error(*image, slots@[i]) && forall|j: int|
                    0 <= j < i ==> has_border(*image, #[trigger] slots@[j]),
        },
{
    let mut scores: Vec<i128> = Vec::new();
    let mut index: usize = 0;
    while index < slots.len()
        invariant
            index <= slots@.len(),
            scores@.len() == index,
            forall|i: int| 0 <= i < index ==> has_border(*image, #[trigger] slots@[i]),
            forall|i: int|
                0 <= i < index ==> #[trigger] scores@[i] == border_score(*image, slots@[i]),
            forall|i: int| 0 <= i < scores@.len() ==> 0 <= #[trigger] scores@[i] <= 1020,
        decreases slots@.len() - index,
    {
        match border_center_line_score(image, &slots[index]) {
            Ok(score) => scores.push(score),
            Err(error) => {
                assert(!has_border(*image, slots@[index as int]));
                return Err(error);
            },
        }
        index = index + 1;
    }
    assert(ints(scores@) =~= slot_scores(*image, slots@));
    Ok(scores)
}

/// What a frame says about the highlight of the target.
pub fn evaluate(image: &Frame, slots: &Vec<Slot>, target: &Slot) -> (evidence: Result<
    HoverEvidence,
    HoverError,
>)
    ensures
        match evidence {
            Ok(found) => {
                &&& forall|i: int| 0 <= i < slots@.len() ==> has_border(*image, #[trigger] slots@[i])
                &&& slots@.len() > 1
                &&& found.in_range()
                &&& exists|index: int|
                    #[trigger] first_same(slots@, *target, index) && found == evidence_at(
                        slot_scores(*image, slots@),
                        index,
                    )
            },
            Err(HoverError::TargetAbsent) => {
                &&& forall|i: int| 0 <= i < slots@.len() ==> has_border(*image, #[trigger] slots@[i])
                &&& forall|i: int|
                    0 <= i < slots@.len() ==> !is_same_slot(#[trigger] slots@[i], *target)
            },
            Err(HoverError::NoBaseline) => {
                &&& slots@.len() == 1
                &&& has_border(*image, slots@[0])
                &&& is_same_slot(slots@[0], *target)
            },
            Err(error) => exists|i: int|
                0 <= i < slots@.len() && !has_border(*image, #[trigger] slots@[i]) && error
                    == border_error(*image, slots@[i]) && forall|j: int|
                    0 <= j < i ==> has_border(*image, #[trigger] slots@[j]),
        },
{
    let scores = match score_slots(image, slots) {
        Ok(scores) => scores,
        Err(error) => return Err(error),
    };
    let mut position: usize = 0;
    while position < slots.len() && !same_slot(&slots[position], target)
        invariant
            position <= slots@.len(),
            forall|i: int|
                0 <= i < position ==> !is_same_slot(#[trigger] slots@[i], *target),
        decreases slots@.len() - position,
    {
        position = position + 1;
    }
    if position >= slots.len() {
        return Err(HoverError::TargetAbsent);
    }
    assert(first_same(slots@, *target, position as int));
    let ghost all = slot_scores(*image, slots@);
    let mut others: Vec<i128> = Vec::new();
    let mut index: usize = 0;
    while index < scores.len()
        invariant
            index <= scores@.len(),
            position < scores@.len(),
            others@ == if index <= position {
                scores@.take(index as int)
            } else {
                scores@.take(index as int).remove(position as int)
            },
            forall|i: int| 0 <= i < scores@.len() ==> 0 <= #[trigger] scores@[i] <= 1020,
            forall|i: int| 0 <= i < others@.len() ==> 0 <= #[trigger] others@[i] <= 1020,
        decreases scores@.len() - index,
    {
        let ghost before = others@;
        assert(scores@.take(index + 1) =~= scores@.take(index as int).push(scores@[index as int]));
        if index != position {
            others.push(scores[index]);
        }
        index = index + 1;
        assert(others@ =~= if index <= position {
            scores@.take(index as int)
        } else {
            scores@.take(index as int).remove(position as int)
        });
    }
    assert(scores@.take(scores@.len() as int) =~= scores@);
    assert(ints(others@) =~= all.remove(position as int));
    if others.len() == 0 {
        assert(slots@.len() == 1);
        return Err(HoverError::NoBaseline);
    }
    let mut baseline_samples = sorted(&others);
    assert(forall|i: int|
        0 <= i < baseline_samples@.len() ==> 0 <= #[trigger] baseline_samples@[i] <= 1020);
    let ghost ordered = baseline_samples@;
    if baseline_samples.len() > 1 {
        baseline_samples.pop();
        assert(ints(baseline_samples@) =~= ints(ordered).drop_last());
    }
    assert(ints(baseline_samples@) == baseline_scores(all, position as int));
    assert(all_within(baseline_samples@, 1020));
    proof {
        twice_median_between(baseline_samples@, 0, 1020);
    }
    let baseline: i128 = match interpolated_median(&baseline_samples) {
        Some(median) => median,
        None => return Err(HoverError::NoBaseline),
    };
    let mut distances: Vec<i128> = Vec::new();
    let mut at: usize = 0;
    while at < baseline_samples.len()
        invariant
            at <= baseline_samples@.len(),
            distances@.len() == at,
            0 <= baseline <= 2040,
            forall|i: int|
                0 <= i < baseline_samples@.len() ==> 0 <= #[trigger] baseline_samples@[i] <= 1020,
            forall|i: int|
                0 <= i < at ==> #[trigger] distances@[i] == deviations(
                    ints(baseline_samples@),
                    baseline as int,
                )[i],
            forall|i: int| 0 <= i < distances@.len() ==> 0 <= #[trigger] distances@[i] <= 2040,
        decreases baseline_samples@.len() - at,
    {
        let doubled: i128 = 2 * baseline_samples[at];
        let distance: i128 = if doubled >= baseline {
            doubled - baseline
        } else {
            baseline - doubled
        };
        distances.push(distance);
        at = at + 1;
    }
    assert(ints(distances@) =~= deviations(ints(baseline_samples@), baseline as int));
    proof {
        twice_median_between(distances@, 0, 2040);
    }
    let deviation: i128 = match interpolated_median(&distances) {
        Some(median) => median,
        None => return Err(HoverError::NoBaseline),
    };
    let found = HoverEvidence { target_score: scores[position], baseline, deviation };
    assert(ints(scores@)[position as int] == scores@[position as int]);
    assert(found == evidence_at(all, position as int));
    Ok(found)
}

/// How a look at the highlight ends.
#[derive(Clone, Copy, Debug, PartialEq, Eq, Structural)]
pub enum HoverStep {
    /// Look again.
    Continue,
    /// The highlight stayed.
    Confirmed(HoverSample),
    /// The highlight did not come in time.
    TimedOut,
}

/// Waiting for the highlight of the slot under the cursor.
#[derive(Clone, Copy, Debug, PartialEq, Eq, Structural)]
pub struct HoverWatch {
    pub started: u64,
    /// Since when the score has not changed.
    pub stable_since: Option<u64>,
    /// Score of the last frame, if it showed the highlight.
    pub previous_score: Option<i128>,
}

impl HoverWatch {
    /// The last frame showed the highlight with nearly the same score.
    pub open spec fn score_is_stable(self, score: int) -> bool {
        self.previous_score matches Some(previous) && -12 <= previous - score <= 12
    }

    /// The score has stayed for the required time.
    pub open spec fn has_stayed(self, now: int) -> bool {
        self.stable_since matches Some(since) && now - since >= 15
    }

    pub fn new(now: u64) -> (watch: Self)
        ensures
            watch == (HoverWatch { started: now, stable_since: None, previous_score: None }),
    {
        HoverWatch { started: now, stable_since: None, previous_score: None }
    }

    /// Judges the evidence of one frame.
    pub fn step(&mut self, evidence: &HoverEvidence, now: u64) -> (step: HoverStep)
        requires
            evidence.in_range(),
            old(self).previous_score matches Some(previous) ==> 0 <= previous <= 1020,
        ensures
            final(self).started == old(self).started,
            final(self).previous_score matches Some(previous) ==> 0 <= previous <= 1020,
            ({
                let stable = old(self).score_is_stable(evidence.target_score as int);
                if evidence.is_confirmed() && stable && old(self).has_stayed(now as int) {
                    &&& step == HoverStep::Confirmed(
                        HoverSample { target_score: evidence.target_score },
                    )
                    &&& *final(self) == *old(self)
                } else {
                    &&& step == if now - old(self).started >= 700 {
                        HoverStep::TimedOut
                    } else {
                        HoverStep::Continue
                    }
                    &&& final(self).previous_score == if evidence.is_confirmed() {
                        Some(evidence.target_score)
                    } else {
                        None
                    }
                    &&& final(self).stable_since == if !evidence.is_confirmed() {
                        None
                    } else if stable {
                        old(self).stable_since
                    } else {
                        Some(now)
                    }
                }
            }),
    {
        if evidence.confirmed() {
            let stable = match self.previous_score {
                Some(previous) => {
                    let change: i128 = previous - evidence.target_score;
                    -HOVER_STABLE_SCORE_DELTA <= change && change <= HOVER_STABLE_SCORE_DELTA
                },
                None => false,
            };
            if stable {
                let stayed = match self.stable_since {
                    Some(since) => now >= since && now - since >= HOVER_STABLE_DURATION,
                    None => false,
                };
                if stayed {
                    return HoverStep::Confirmed(evidence.sample());
                }
            } else {
                self.stable_since = Some(now);
            }
            self.previous_score = Some(evidence.target_score);
        } else {
            self.stable_since = None;
            self.previous_score = None;
        }
        if now >= self.started && now - self.started >= HOVER_TIMEOUT {
            HoverStep::TimedOut
        } else {
            HoverStep::Continue
        }
    }
}

/// The brightest and the darkest sample of a pixel are among its samples, and bound them.
pub proof fn samples_lie_between(pixel: Rgba)
    ensures
        darkest(pixel) <= pixel.r <= brightest(pixel),
        darkest(pixel) <= pixel.g <= brightest(pixel),
        darkest(pixel) <= pixel.b <= brightest(pixel),
        brightest(pixel) == pixel.r || brightest(pixel) == pixel.g || brightest(pixel) == pixel.b,
        darkest(pixel) == pixel.r || darkest(pixel) == pixel.g || darkest(pixel) == pixel.b,
{
}

/// A gray is as white as it is bright, in quarters; each step of color spread takes three quarters
/// off; and no pixel is less than not white.
pub proof fn color_makes_less_white(pixel: Rgba)
    ensures
        pixel.r == pixel.g && pixel.g == pixel.b ==> whiteness(pixel) == 4 * pixel.r,
        0 <= whiteness(pixel) <= 4 * luma(pixel.r as int, pixel.g as int, pixel.b as int),
        whiteness(pixel) > 0 ==> whiteness(pixel) + 3 * (brightest(pixel) - darkest(pixel)) == 4
            * luma(pixel.r as int, pixel.g as int, pixel.b as int),
        whiteness(pixel) == 0 <==> 4 * luma(pixel.r as int, pixel.g as int, pixel.b as int) <= 3 * (
        brightest(pixel) - darkest(pixel)),
{
}

/// A pixel of the frame of a slot: of its top or bottom edge, or of its left or right edge.
pub open spec fn lies_on_frame(slot: Slot, x: int, y: int) -> bool {
    ||| slot.x <= x < slot.x + slot.w && (y == slot.y || y == slot.y + slot.h)
    ||| slot.y <= y < slot.y + slot.h && (x == slot.x || x == slot.x + slot.w)
}

/// The value is the whiteness of a pixel of the frame.
pub open spec fn is_frame_value(image: Frame, slot: Slot, value: int) -> bool {
    exists|x: int, y: int|
        lies_on_frame(slot, x, y) && value == whiteness(#[trigger] image.pixel(x, y))
}

/// The values of a frame are those of its pixels, on all four edges, and of no others.
pub proof fn frames_are_sampled_on_all_edges(image: Frame, slot: Slot)
    ensures
        border_values(image, slot).len() == 2 * (slot.w + slot.h),
        forall|at: int|
            0 <= at < border_values(image, slot).len() ==> is_frame_value(
                image,
                slot,
                #[trigger] border_values(image, slot)[at],
            ),
        forall|x: int, y: int|
            lies_on_frame(slot, x, y) ==> border_values(image, slot).contains(
                whiteness(#[trigger] image.pixel(x, y)),
            ),
{
    let values = border_values(image, slot);
    assert forall|at: int| 0 <= at < values.len() implies is_frame_value(
        image,
        slot,
        #[trigger] values[at],
    ) by {
        let (x, y) = if at < 2 * slot.w {
            (
                slot.x + at / 2,
                if at % 2 == 0 {
                    slot.y as int
                } else {
                    slot.y + slot.h
                },
            )
        } else {
            let from = at - 2 * slot.w;
            (
                if from % 2 == 0 {
                    slot.x as int
                } else {
                    slot.x + slot.w
                },
                slot.y + from / 2,
            )
        };
        assert(lies_on_frame(slot, x, y));
        assert(values[at] == whiteness(image.pixel(x, y)));
    }
    assert forall|x: int, y: int| lies_on_frame(slot, x, y) implies values.contains(
        whiteness(#[trigger] image.pixel(x, y)),
    ) by {
        let at = if slot.x <= x < slot.x + slot.w && y == slot.y {
            2 * (x - slot.x)
        } else if slot.x <= x < slot.x + slot.w && y == slot.y + slot.h {
            2 * (x - slot.x) + 1
        } else if x == slot.x {
            2 * slot.w + 2 * (y - slot.y)
        } else {
            2 * slot.w + 2 * (y - slot.y) + 1
        };
        assert(0 <= at < values.len());
        assert(values[at] == whiteness(image.pixel(x, y)));
    }
}

/// The frame of a slot can be sampled where the slot has an extent and all pixels of the frame lie in
/// the image.
pub proof fn frames_in_the_image_can_be_sampled(image: Frame, slot: Slot)
    ensures
        has_border(image, slot) <==> {
            &&& slot.w > 0 && slot.h > 0
            &&& slot.x + slot.w <= image.spec_width() - 1
            &&& slot.y + slot.h <= image.spec_height() - 1
        },
        border_error(image, slot) == HoverError::ZeroSizeSlot <==> slot.w == 0 || slot.h == 0,
        border_error(image, slot) matches HoverError::OutsideImage { right, bottom, width, height }
            ==> {
            &&& width == image.spec_width() && height == image.spec_height()
            &&& slot.x + slot.w <= u32::MAX ==> right == slot.x + slot.w
            &&& slot.y + slot.h <= u32::MAX ==> bottom == slot.y + slot.h
            &&& slot.x + slot.w > u32::MAX ==> right == u32::MAX
            &&& slot.y + slot.h > u32::MAX ==> bottom == u32::MAX
        },
{
}

/// A slot counts as dimmed where its score fell by fourteen steps at least, and by a tenth at least.
pub proof fn dimming_takes_a_drop(selected: HoverSample, unselected: HoverSample)
    requires
        unselected.target_score >= 0,
    ensures
        selected.dimmer_than(unselected) <==> {
            let drop = unselected.target_score - selected.target_score;
            drop >= 4 * 14 && 10 * drop >= unselected.target_score
        },
{
}

/// A slot is highlighted where it is brighter than the others by at least twenty-four steps and by
/// at least 4.4478 times their median deviation. A brighter slot stays highlighted, and so does one
/// among less scattered others.
pub proof fn highlights_stand_out(evidence: HoverEvidence, other: HoverEvidence)
    requires
        0 <= evidence.deviation,
        0 <= other.deviation,
    ensures
        evidence.is_confirmed() ==> 2 * evidence.target_score - evidence.baseline >= 8 * 24,
        2 * evidence.target_score - evidence.baseline >= 8 * 24 && 10000 * (2 * evidence.target_score
            - evidence.baseline) >= 22239 * evidence.deviation ==> evidence.is_confirmed(),
        evidence.is_confirmed() ==> 10000 * (2 * evidence.target_score - evidence.baseline) >= 22239
            * evidence.deviation,
        evidence.is_confirmed() && other.target_score >= evidence.target_score && other.baseline
            <= evidence.baseline && other.deviation <= evidence.deviation ==> other.is_confirmed(),
{
    let gap = 4 * evidence.target_score - 2 * evidence.baseline;
    let half = 2 * evidence.target_score - evidence.baseline;
    assert(gap == 2 * half);
    assert(gap * 10000 == 2 * (10000 * half));
    assert(3 * 14826 * evidence.deviation == 2 * (22239 * evidence.deviation)) by (nonlinear_arith);
}

/// The scores to compare with leave out the target, and the highest of the others if there are
/// several: none of the scores that are kept is above the one that is left out.
pub proof fn the_highest_rival_is_left_out(scores: Seq<int>, target: int)
    requires
        0 <= target < scores.len(),
    ensures
        scores.len() == 1 ==> baseline_scores(scores, target).len() == 0,
        scores.len() == 2 ==> baseline_scores(scores, target).len() == 1,
        scores.len() > 2 ==> baseline_scores(scores, target).len() == scores.len() - 2,
        scores.len() > 2 ==> exists|highest: int|
            {
                &&& #[trigger] scores.remove(target).contains(highest)
                &&& forall|other: int|
                    0 <= other < scores.len() && other != target ==> #[trigger] scores[other]
                        <= highest
                &&& scores.remove(target).to_multiset() == baseline_scores(
                    scores,
                    target,
                ).to_multiset().insert(highest)
            },
        scores.len() <= 2 ==> scores.remove(target).to_multiset() == baseline_scores(
            scores,
            target,
        ).to_multiset(),
{
    broadcast use vstd::seq_lib::group_to_multiset_ensures;

    let others = scores.remove(target);
    let ordered = others.sort();
    others.lemma_sort_ensures();
    assert(ordered.to_multiset().len() == others.to_multiset().len());
    assert(ordered.len() == others.len());
    if others.len() > 1 {
        let highest = ordered.last();
        assert(ordered =~= ordered.drop_last().push(highest));
        vstd::seq_lib::to_multiset_build(ordered.drop_last(), highest);
        assert(ordered.contains(highest)) by {
            assert(ordered[ordered.len() - 1] == highest);
        }
        assert(ordered.to_multiset().count(highest) > 0);
        assert(others.contains(highest));
        assert forall|other: int| 0 <= other < scores.len() && other
            != target implies #[trigger] scores[other] <= highest by {
            let place = if other < target {
                other
            } else {
                other - 1
            };
            assert(others[place] == scores[other]);
            assert(others.contains(scores[other]));
            assert(others.to_multiset().count(scores[other]) > 0);
            assert(ordered.contains(scores[other]));
            let at = choose|at: int| 0 <= at < ordered.len() && ordered[at] == scores[other];
            let leq = |x: int, y: int| x <= y;
            assert(vstd::relations::sorted_by(ordered, leq));
            if at < ordered.len() - 1 {
                assert(leq(ordered[at], ordered[ordered.len() - 1]));
            }
        }
    }
}

/// Deviations are how far twice the scores lie from the baseline, on either side of it.
pub proof fn deviations_are_distances(scores: Seq<int>, baseline: int, at: int)
    requires
        0 <= at < scores.len(),
    ensures
        deviations(scores, baseline).len() == scores.len(),
        deviations(scores, baseline)[at] >= 0,
        deviations(scores, baseline)[at] == 2 * scores[at] - baseline || deviations(
            scores,
            baseline,
        )[at] == baseline - 2 * scores[at],
{
}

/// A highlight stays while its score changes by at most three steps from frame to frame, and is
/// trusted once it stayed for fifteen milliseconds.
pub proof fn highlights_have_to_stay(watch: HoverWatch, score: int, now: int)
    ensures
        watch.score_is_stable(score) <==> watch.previous_score is Some && watch.previous_score->0
            <= score + 4 * 3 && score <= watch.previous_score->0 + 4 * 3,
        watch.has_stayed(now) <==> watch.stable_since is Some && now >= watch.stable_since->0 + 15,
{
}

/// A slot is the same where it stands in the same cell at the same place. Of several such slots the
/// first is the target.
pub proof fn the_same_slot_is_the_target(slots: Seq<Slot>, target: Slot, index: int)
    ensures
        is_same_slot(target, target),
        forall|other: Slot| #[trigger]
            is_same_slot(target, other) == is_same_slot(other, target),
        first_same(slots, target, index) ==> {
            &&& slots[index].row == target.row && slots[index].col == target.col
            &&& slots[index].x == target.x && slots[index].y == target.y
        },
        first_same(slots, target, index) ==> forall|earlier: int|
            0 <= earlier < index ==> !((#[trigger] slots[earlier]).row == target.row
                && slots[earlier].col == target.col && slots[earlier].x == target.x
                && slots[earlier].y == target.y),
{
    if first_same(slots, target, index) {
        assert forall|earlier: int| 0 <= earlier < index implies !((#[trigger] slots[earlier]).row
            == target.row && slots[earlier].col == target.col && slots[earlier].x == target.x
            && slots[earlier].y == target.y) by {
            assert(!is_same_slot(slots[earlier], target));
        }
    }
}

} // verus!
