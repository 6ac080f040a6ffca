//! The gray that the slots of the loadout home share.
use vstd::prelude::*;

use crate::single::{find_share, share, shares_are_close};
use crate::slot::{SlotKind, SlotLayout};
use crate::vision::{inside, Frame, ImageRect, Rgba, RoiObservation, Slot};

verus! {

/// The darkest gray that counts.
pub const GRAY_MIN: usize = 4;

/// The brightest gray that counts.
pub const GRAY_MAX: usize = 160;

/// The gray of a pixel.
pub open spec fn gray_of(pixel: Rgba) -> int {
    (pixel.r + pixel.g + pixel.b + 1) / 3
}

pub open spec fn lowest(pixel: Rgba) -> int {
    if pixel.r <= pixel.g && pixel.r <= pixel.b {
        pixel.r as int
    } else if pixel.g <= pixel.b {
        pixel.g as int
    } else {
        pixel.b as int
    }
}

pub open spec fn highest(pixel: Rgba) -> int {
    if pixel.r >= pixel.g && pixel.r >= pixel.b {
        pixel.r as int
    } else if pixel.g >= pixel.b {
        pixel.g as int
    } else {
        pixel.b as int
    }
}

/// The pixel is close to gray, and its gray counts.
pub open spec fn is_neutral(pixel: Rgba) -> bool {
    let sum = pixel.r + pixel.g + pixel.b;
    &&& sum > 0
    &&& 20 * (highest(pixel) - lowest(pixel)) <= sum
    &&& 4 <= gray_of(pixel) <= 160
}

fn find_gray(pixel: Rgba) -> (gray: Option<u16>)
    ensures
        match gray {
            Some(found) => is_neutral(pixel) && found == gray_of(pixel),
            None => !is_neutral(pixel),
        },
{
    let sum: u16 = pixel.r as u16 + pixel.g as u16 + pixel.b as u16;
    let low = if pixel.r <= pixel.g && pixel.r <= pixel.b {
        pixel.r
    } else if pixel.g <= pixel.b {
        pixel.g
    } else {
        pixel.b
    };
    let high = if pixel.r >= pixel.g && pixel.r >= pixel.b {
        pixel.r
    } else if pixel.g >= pixel.b {
        pixel.g
    } else {
        pixel.b
    };
    if sum == 0 || 20 * (high as u16 - low as u16) > sum {
        return None;
    }
    let gray: u16 = (sum + 1) / 3;
    if 4 <= gray && gray <= 160 {
        Some(gray)
    } else {
        None
    }
}

/// The pixels of a region, row by row.
pub open spec fn region_pixel(image: Frame, region: ImageRect, index: int) -> Rgba {
    image.pixel(
        region.x + index % (region.w as int),
        region.y + index / (region.w as int),
    )
}

/// The neutral ones of the first `count` pixels of a region.
pub open spec fn neutral_pixels(image: Frame, region: ImageRect, count: int) -> Seq<Rgba>
    decreases count,
{
    if count <= 0 {
        Seq::empty()
    } else {
        let pixel = region_pixel(image, region, count - 1);
        if is_neutral(pixel) {
            neutral_pixels(image, region, count - 1).push(pixel)
        } else {
            neutral_pixels(image, region, count - 1)
        }
    }
}

/// How many of the pixels have this gray.
pub open spec fn count_gray(pixels: Seq<Rgba>, gray: int) -> int
    decreases pixels.len(),
{
    if pixels.len() == 0 {
        0
    } else {
        count_gray(pixels.drop_last(), gray) + if gray_of(pixels.last()) == gray {
            1int
        } else {
            0
        }
    }
}

/// The neutral pixels of a region, and how many there are of each gray.
#[derive(Debug)]
pub struct GrayHistogram {
    pub bins: Vec<u32>,
    pub area: u32,
    pub samples: Vec<Rgba>,
}

/// The bins count the samples.
pub open spec fn bins_count(bins: Seq<u32>, samples: Seq<Rgba>) -> bool {
    &&& bins.len() == 256
    &&& forall|gray: int| 0 <= gray < 256 ==> #[trigger] bins[gray] == count_gray(samples, gray)
}

impl GrayHistogram {
    pub open spec fn wf(&self) -> bool {
        &&& bins_count(self.bins@, self.samples@)
        &&& self.samples@.len() <= self.area
        &&& forall|at: int|
            0 <= at < self.samples@.len() ==> is_neutral(#[trigger] self.samples@[at])
    }
}

/// A region that does not lie inside the image, or is empty.
#[derive(Clone, Copy, Debug, PartialEq, Eq, Structural)]
pub struct RegionOutsideImage;

proof fn count_gray_is_bounded(pixels: Seq<Rgba>, gray: int)
    ensures
        0 <= count_gray(pixels, gray) <= pixels.len(),
    decreases pixels.len(),
{
    if pixels.len() > 0 {
        count_gray_is_bounded(pixels.drop_last(), gray);
    }
}

proof fn place_in_region(x: int, y: int, width: int)
    requires
        0 <= x < width,
        0 <= y,
    ensures
        (y * width + x) % width == x,
        (y * width + x) / width == y,
{
    vstd::arithmetic::div_mod::lemma_fundamental_div_mod_converse(y * width + x, width, y, x);
}

/// Counts the grays of the neutral pixels of a region.
pub fn gray_histogram(image: &Frame, region: ImageRect) -> (histogram: Result<
    GrayHistogram,
    RegionOutsideImage,
>)
    requires
        region.w as int * region.h as int <= u32::MAX,
    ensures
        match histogram {
            Ok(found) => {
                &&& region.w > 0 && region.h > 0 && inside(*image, region)
                &&& found.wf()
                &&& found.area == region.w as int * region.h as int
                &&& found.samples@ == neutral_pixels(
                    *image,
                    region,
                    region.w as int * region.h as int,
                )
            },
            Err(_) => region.w == 0 || region.h == 0 || !inside(*image, region),
        },
{
    if region.w == 0 || region.h == 0 || region.x as u64 + region.w as u64 > image.width() as u64
        || region.y as u64 + region.h as u64 > image.height() as u64 {
        return Err(RegionOutsideImage);
    }
    let ghost width = region.w as int;
    let ghost area = region.w as int * region.h as int;
    let mut bins: Vec<u32> = vec![0; 256];
    let mut samples: Vec<Rgba> = Vec::new();
    let mut y: u32 = 0;
    while y < region.h
        invariant
            y <= region.h,
            width == region.w,
            0 < region.w,
            region.x + region.w <= image.spec_width(),
            region.y + region.h <= image.spec_height(),
            area == region.w as int * region.h as int,
            area <= u32::MAX,
            bins_count(bins@, samples@),
            samples@.len() <= y as int * width,
            samples@ == neutral_pixels(*image, region, y as int * width),
            forall|at: int| 0 <= at < samples@.len() ==> is_neutral(#[trigger] samples@[at]),
        decreases region.h - y,
    {
        let mut x: u32 = 0;
        while x < region.w
            invariant
                x <= region.w,
                y < region.h,
                width == region.w,
                0 < region.w,
                region.x + region.w <= image.spec_width(),
                region.y + region.h <= image.spec_height(),
                area == region.w as int * region.h as int,
                area <= u32::MAX,
                bins_count(bins@, samples@),
                samples@.len() <= y as int * width + x,
                samples@ == neutral_pixels(*image, region, y as int * width + x),
                forall|at: int| 0 <= at < samples@.len() ==> is_neutral(#[trigger] samples@[at]),
            decreases region.w - x,
        {
            proof {
                place_in_region(x as int, y as int, width);
                assert(0 <= y as int * width && y as int * width + x < area) by (nonlinear_arith)
                    requires
                        0 <= y < region.h,
                        0 <= x < region.w,
                        width == region.w,
                        area == region.w as int * region.h as int,
                ;
            }
            let pixel = image.get_pixel(region.x + x, region.y + y);
            assert(pixel == region_pixel(*image, region, y as int * width + x));
            if let Some(gray) = find_gray(pixel) {
                let ghost before = samples@;
                let ghost old_bins = bins@;
                proof {
                    count_gray_is_bounded(samples@, gray as int);
                }
                let count: u32 = bins[gray as usize];
                bins.set(gray as usize, count + 1);
                samples.push(pixel);
                proof {
                    assert(samples@.drop_last() =~= before);
                    assert forall|g: int| 0 <= g < 256 implies #[trigger] bins@[g] == count_gray(
                        samples@,
                        g,
                    ) by {
                        assert(old_bins[g] == count_gray(before, g));
                    }
                }
            }
            x = x + 1;
        }
        assert((y + 1) * width == y as int * width + width) by (nonlinear_arith);
        y = y + 1;
    }
    assert(region.h as int * width == area) by (nonlinear_arith)
        requires
            width == region.w,
            area == region.w as int * region.h as int,
    ;
    Ok(GrayHistogram { bins, area: region.w * region.h, samples })
}

/// The sum of the first `count` bins.
pub open spec fn bins_below(bins: Seq<u32>, count: int) -> int
    decreases count,
{
    if count <= 0 {
        0
    } else {
        bins_below(bins, count - 1) + bins[count - 1]
    }
}

/// The value whose bin holds the sample of this rank, counted from zero.
pub open spec fn has_rank(bins: Seq<u32>, rank: int, value: int) -> bool {
    0 <= value < bins.len() && bins_below(bins, value) <= rank < bins_below(bins, value + 1)
}

proof fn bins_below_grows(bins: Seq<u32>, fewer: int, more: int)
    requires
        0 <= fewer <= more <= bins.len(),
    ensures
        bins_below(bins, fewer) <= bins_below(bins, more),
    decreases more - fewer,
{
    if fewer < more {
        bins_below_grows(bins, fewer, more - 1);
    }
}

/// One value only has a rank.
pub proof fn ranks_are_unique(bins: Seq<u32>, rank: int, left: int, right: int)
    requires
        has_rank(bins, rank, left),
        has_rank(bins, rank, right),
    ensures
        left == right,
{
    if left < right {
        bins_below_grows(bins, left + 1, right);
    } else if right < left {
        bins_below_grows(bins, right + 1, left);
    }
}

/// The value of the sample of this rank.
pub fn histogram_rank(bins: &Vec<u32>, rank: u32) -> (value: u8)
    requires
        bins@.len() == 256,
        rank < bins_below(bins@, 256) <= u32::MAX,
    ensures
        has_rank(bins@, rank as int, value as int),
{
    let mut below: u32 = 0;
    let mut value: u32 = 0;
    while value < 255
        invariant
            value <= 255,
            bins@.len() == 256,
            bins_below(bins@, 256) <= u32::MAX,
            below == bins_below(bins@, value as int),
            below <= rank < bins_below(bins@, 256),
        decreases 255 - value,
    {
        proof {
            bins_below_grows(bins@, value + 1, 256);
        }
        let next: u32 = below + bins[value as usize];
        if next > rank {
            return value as u8;
        }
        below = next;
        value = value + 1;
    }
    255
}

/// Twice the median of the samples.
pub open spec fn is_twice_median(bins: Seq<u32>, total: int, twice: int) -> bool {
    if total % 2 == 0 {
        exists|left: int, right: int| #[trigger]
            has_rank(bins, total / 2 - 1, left) && #[trigger] has_rank(bins, total / 2, right)
                && twice == left + right
    } else {
        twice % 2 == 0 && has_rank(bins, total / 2, twice / 2)
    }
}

/// Twice the median of the samples that the bins count.
pub fn histogram_median(bins: &Vec<u32>, total: u32) -> (twice: u16)
    requires
        bins@.len() == 256,
        0 < total == bins_below(bins@, 256),
    ensures
        is_twice_median(bins@, total as int, twice as int),
{
    let upper = histogram_rank(bins, total / 2);
    if total % 2 == 0 {
        let lower = histogram_rank(bins, total / 2 - 1);
        assert(has_rank(bins@, total as int / 2 - 1, lower as int));
        assert(has_rank(bins@, total as int / 2, upper as int));
        lower as u16 + upper as u16
    } else {
        2 * upper as u16
    }
}

/// The samples near a gray: those of the gray twice, and those next to it.
pub open spec fn strength(bins: Seq<u32>, gray: int) -> int {
    bins[gray - 1] + 2 * bins[gray] + bins[gray + 1]
}

/// The samples of a gray and of those next to it.
pub open spec fn support(bins: Seq<u32>, gray: int) -> int {
    bins[gray - 1] + bins[gray] + bins[gray + 1]
}

/// The third highest of four numbers: two are at least as high, counting itself.
pub open spec fn third_of(a: int, b: int, c: int, d: int) -> int {
    let low_ab = if a < b {
        a
    } else {
        b
    };
    let high_ab = if a < b {
        b
    } else {
        a
    };
    let low_cd = if c < d {
        c
    } else {
        d
    };
    let high_cd = if c < d {
        d
    } else {
        c
    };
    let lowest = if low_ab < low_cd {
        low_cd
    } else {
        low_ab
    };
    let middle = if high_ab < high_cd {
        high_ab
    } else {
        high_cd
    };
    if lowest < middle {
        lowest
    } else {
        middle
    }
}

/// Of four numbers, at least three are as high as the third highest, and at least two as low.
pub proof fn third_is_in_place(a: int, b: int, c: int, d: int)
    ensures
        ({
            let third = third_of(a, b, c, d);
            let at_least = (if a >= third {
                1int
            } else {
                0
            }) + (if b >= third {
                1int
            } else {
                0
            }) + (if c >= third {
                1int
            } else {
                0
            }) + (if d >= third {
                1int
            } else {
                0
            });
            let at_most = (if a <= third {
                1int
            } else {
                0
            }) + (if b <= third {
                1int
            } else {
                0
            }) + (if c <= third {
                1int
            } else {
                0
            }) + (if d <= third {
                1int
            } else {
                0
            });
            at_least >= 3 && at_most >= 2 && (third == a || third == b || third == c || third == d)
        }),
{
}

pub fn third_highest(a: u128, b: u128, c: u128, d: u128) -> (third: u128)
    ensures
        third == third_of(a as int, b as int, c as int, d as int),
{
    let low_ab = if a < b {
        a
    } else {
        b
    };
    let high_ab = if a < b {
        b
    } else {
        a
    };
    let low_cd = if c < d {
        c
    } else {
        d
    };
    let high_cd = if c < d {
        d
    } else {
        c
    };
    let lowest = if low_ab < low_cd {
        low_cd
    } else {
        low_ab
    };
    let middle = if high_ab < high_cd {
        high_ab
    } else {
        high_cd
    };
    if lowest < middle {
        lowest
    } else {
        middle
    }
}

/// Four histograms of regions that are neither empty nor too large to count.
pub open spec fn are_slots(histograms: Seq<GrayHistogram>) -> bool {
    &&& histograms.len() == 4
    &&& forall|at: int| 0 <= at < 4 ==> is_slot_histogram(#[trigger] histograms[at])
}

pub open spec fn is_slot_histogram(histogram: GrayHistogram) -> bool {
    histogram.wf() && 0 < histogram.area <= 0x3fff_ffff
}

/// The least share of a slot that has a gray: 0.3.
pub const MIN_SHARE: u128 = 0x04cc_ccd0_0000_0000;

/// The strength of a gray in three of the four slots.
pub open spec fn shared_strength(histograms: Seq<GrayHistogram>, gray: int) -> int {
    third_of(
        share(strength(histograms[0].bins@, gray), 4 * histograms[0].area),
        share(strength(histograms[1].bins@, gray), 4 * histograms[1].area),
        share(strength(histograms[2].bins@, gray), 4 * histograms[2].area),
        share(strength(histograms[3].bins@, gray), 4 * histograms[3].area),
    )
}

/// The share of just this gray in three of the four slots.
pub open spec fn shared_exact(histograms: Seq<GrayHistogram>, gray: int) -> int {
    third_of(
        share(histograms[0].bins@[gray] as int, histograms[0].area as int),
        share(histograms[1].bins@[gray] as int, histograms[1].area as int),
        share(histograms[2].bins@[gray] as int, histograms[2].area as int),
        share(histograms[3].bins@[gray] as int, histograms[3].area as int),
    )
}

/// The first of the two grays is the better one.
pub open spec fn is_stronger(histograms: Seq<GrayHistogram>, gray: int, than: int) -> bool {
    shared_strength(histograms, gray) > shared_strength(histograms, than) || (shared_strength(
        histograms,
        gray,
    ) == shared_strength(histograms, than) && shared_exact(histograms, gray) > shared_exact(
        histograms,
        than,
    ))
}

/// The first of the strongest grays below `end`.
pub open spec fn is_peak(histograms: Seq<GrayHistogram>, peak: int, end: int) -> bool {
    &&& 4 <= peak < end
    &&& forall|gray: int|
        4 <= gray < peak ==> #[trigger] is_stronger(histograms, peak, gray)
    &&& forall|gray: int|
        peak < gray < end ==> !#[trigger] is_stronger(histograms, gray, peak)
}

proof fn stronger_is_transitive(histograms: Seq<GrayHistogram>, first: int, second: int, third: int)
    requires
        is_stronger(histograms, first, second),
        !is_stronger(histograms, third, second),
    ensures
        is_stronger(histograms, first, third),
{
}

proof fn bin_is_bounded(histogram: GrayHistogram, gray: int)
    requires
        is_slot_histogram(histogram),
        0 <= gray < 256,
    ensures
        histogram.bins@.len() == 256,
        histogram.bins@[gray] <= histogram.area,
{
    assert(histogram.bins@[gray] == count_gray(histogram.samples@, gray));
    count_gray_is_bounded(histogram.samples@, gray);
}

fn slot_strength(histogram: &GrayHistogram, gray: usize) -> (value: u128)
    requires
        is_slot_histogram(*histogram),
        4 <= gray <= 160,
    ensures
        value == share(strength(histogram.bins@, gray as int), 4 * histogram.area),
{
    proof {
        bin_is_bounded(*histogram, gray - 1);
        bin_is_bounded(*histogram, gray as int);
        bin_is_bounded(*histogram, gray + 1);
    }
    let bins = &histogram.bins;
    let near: u64 = bins[gray - 1] as u64 + 2 * bins[gray] as u64 + bins[gray + 1] as u64;
    find_share(near, 4 * histogram.area as u64)
}

fn slot_exact(histogram: &GrayHistogram, gray: usize) -> (value: u128)
    requires
        is_slot_histogram(*histogram),
        4 <= gray <= 160,
    ensures
        value == share(histogram.bins@[gray as int] as int, histogram.area as int),
{
    proof {
        bin_is_bounded(*histogram, gray as int);
    }
    find_share(histogram.bins[gray] as u64, histogram.area as u64)
}

fn measure_gray(histograms: &Vec<GrayHistogram>, gray: usize) -> (measured: (u128, u128))
    requires
        are_slots(histograms@),
        4 <= gray <= 160,
    ensures
        measured.0 == shared_strength(histograms@, gray as int),
        measured.1 == shared_exact(histograms@, gray as int),
{
    let strong = third_highest(
        slot_strength(&histograms[0], gray),
        slot_strength(&histograms[1], gray),
        slot_strength(&histograms[2], gray),
        slot_strength(&histograms[3], gray),
    );
    let exact = third_highest(
        slot_exact(&histograms[0], gray),
        slot_exact(&histograms[1], gray),
        slot_exact(&histograms[2], gray),
        slot_exact(&histograms[3], gray),
    );
    (strong, exact)
}

/// The gray that three of the four slots share most.
pub fn find_peak(histograms: &Vec<GrayHistogram>) -> (peak: usize)
    requires
        are_slots(histograms@),
    ensures
        is_peak(histograms@, peak as int, 161),
{
    let mut peak: usize = GRAY_MIN;
    let (mut strong, mut exact) = measure_gray(histograms, GRAY_MIN);
    let mut gray: usize = GRAY_MIN + 1;
    while gray <= GRAY_MAX
        invariant
            are_slots(histograms@),
            5 <= gray <= 161,
            is_peak(histograms@, peak as int, gray as int),
            strong == shared_strength(histograms@, peak as int),
            exact == shared_exact(histograms@, peak as int),
        decreases 161 - gray,
    {
        let (gray_strong, gray_exact) = measure_gray(histograms, gray);
        if gray_strong > strong || (gray_strong == strong && gray_exact > exact) {
            proof {
                assert(is_stronger(histograms@, gray as int, peak as int));
                assert forall|other: int| 4 <= other < gray implies #[trigger] is_stronger(
                    histograms@,
                    gray as int,
                    other,
                ) by {
                    if other < peak {
                        assert(is_stronger(histograms@, peak as int, other));
                    } else if other > peak {
                        stronger_is_transitive(histograms@, gray as int, peak as int, other);
                    }
                }
            }
            peak = gray;
            strong = gray_strong;
            exact = gray_exact;
        }
        gray = gray + 1;
    }
    peak
}

/// The share of a gray and of those next to it.
pub open spec fn support_share(histogram: GrayHistogram, gray: int) -> int {
    share(support(histogram.bins@, gray), histogram.area as int)
}

/// A slot has the gray if at least 30 of 100 of its pixels do.
pub open spec fn has_gray(histogram: GrayHistogram, gray: int) -> bool {
    support_share(histogram, gray) >= MIN_SHARE
}

proof fn support_counts_samples(histogram: GrayHistogram, peak: int)
    requires
        is_slot_histogram(histogram),
        4 <= peak <= 160,
    ensures
        near_gray(histogram.samples@, peak).len() == support(histogram.bins@, peak),
{
    assert(histogram.bins@[peak - 1] == count_gray(histogram.samples@, peak - 1));
    assert(histogram.bins@[peak] == count_gray(histogram.samples@, peak));
    assert(histogram.bins@[peak + 1] == count_gray(histogram.samples@, peak + 1));
    near_gray_counts(histogram.samples@, peak);
}

proof fn near_gray_counts(pixels: Seq<Rgba>, peak: int)
    ensures
        near_gray(pixels, peak).len() == count_gray(pixels, peak - 1) + count_gray(pixels, peak)
            + count_gray(pixels, peak + 1),
        near_gray(pixels, peak).len() <= pixels.len(),
    decreases pixels.len(),
{
    if pixels.len() > 0 {
        near_gray_counts(pixels.drop_last(), peak);
    }
}

fn slot_support(histogram: &GrayHistogram, gray: usize) -> (value: u128)
    requires
        is_slot_histogram(*histogram),
        4 <= gray <= 160,
    ensures
        value == support_share(*histogram, gray as int),
        value > 0 ==> support(histogram.bins@, gray as int) > 0,
{
    proof {
        bin_is_bounded(*histogram, gray - 1);
        bin_is_bounded(*histogram, gray as int);
        bin_is_bounded(*histogram, gray + 1);
    }
    let bins = &histogram.bins;
    let near: u64 = bins[gray - 1] as u64 + bins[gray] as u64 + bins[gray + 1] as u64;
    find_share(near, histogram.area as u64)
}

/// The samples of the slots that have the gray, of the first `count` slots, that are of this gray
/// or next to it.
pub open spec fn shared_samples(histograms: Seq<GrayHistogram>, peak: int, count: int) -> Seq<Rgba>
    decreases count,
{
    if count <= 0 {
        Seq::empty()
    } else if has_gray(histograms[count - 1], peak) {
        shared_samples(histograms, peak, count - 1) + near_gray(
            histograms[count - 1].samples@,
            peak,
        )
    } else {
        shared_samples(histograms, peak, count - 1)
    }
}

/// The pixels of this gray or next to it.
pub open spec fn near_gray(pixels: Seq<Rgba>, peak: int) -> Seq<Rgba>
    decreases pixels.len(),
{
    if pixels.len() == 0 {
        pixels
    } else if peak - 1 <= gray_of(pixels.last()) <= peak + 1 {
        near_gray(pixels.drop_last(), peak).push(pixels.last())
    } else {
        near_gray(pixels.drop_last(), peak)
    }
}

/// Why the tone of the home is not known.
#[derive(Clone, Copy, Debug, PartialEq, Eq, Structural)]
pub enum ToneError {
    /// The page is not the loadout home.
    OtherLayout,
    /// The home has another number of stratagem slots than four.
    SlotCount { count: usize },
    /// A slot does not lie inside the image.
    OutsideImage,
    /// Too few pixels of three slots have the gray: this share of a slot.
    InsufficientSupport { support: u128 },
}

/// The gray that the slots share.
#[derive(Debug)]
struct SharedGray {
    peak: usize,
    /// The share of three slots that has it.
    consensus_support: u128,
    slot_supports: Vec<u128>,
    /// The pixels that have it.
    samples: Vec<Rgba>,
}

/// The share of three of the slots that has the gray.
pub open spec fn consensus(histograms: Seq<GrayHistogram>, peak: int) -> int {
    third_of(
        support_share(histograms[0], peak),
        support_share(histograms[1], peak),
        support_share(histograms[2], peak),
        support_share(histograms[3], peak),
    )
}

fn gather(found: &mut Vec<Rgba>, samples: &Vec<Rgba>, peak: usize)
    requires
        4 <= peak <= 160,
    ensures
        final(found)@ == old(found)@ + near_gray(samples@, peak as int),
{
    let ghost start = found@;
    let mut index: usize = 0;
    assert(samples@.take(0) =~= Seq::empty());
    assert(start + near_gray(samples@.take(0), peak as int) =~= start);
    while index < samples.len()
        invariant
            4 <= peak <= 160,
            index <= samples@.len(),
            found@ == start + near_gray(samples@.take(index as int), peak as int),
        decreases samples@.len() - index,
    {
        let pixel = samples[index];
        let gray: usize = ((pixel.r as u16 + pixel.g as u16 + pixel.b as u16 + 1) / 3) as usize;
        assert(samples@.take(index + 1).drop_last() =~= samples@.take(index as int));
        if peak - 1 <= gray && gray <= peak + 1 {
            let ghost before = near_gray(samples@.take(index as int), peak as int);
            found.push(pixel);
            assert(found@ =~= start + before.push(pixel));
        }
        index = index + 1;
    }
    assert(samples@.take(samples@.len() as int) =~= samples@);
}

proof fn shared_samples_are_counted(histograms: Seq<GrayHistogram>, peak: int, count: int)
    requires
        are_slots(histograms),
        4 <= peak <= 160,
        0 <= count <= 4,
    ensures
        shared_samples(histograms, peak, count).len() <= count * 0x3fff_ffff,
        forall|at: int|
            0 <= at < count && #[trigger] has_gray(histograms[at], peak) && support(
                histograms[at].bins@,
                peak,
            ) > 0 ==> shared_samples(histograms, peak, count).len() > 0,
    decreases count,
{
    if count > 0 {
        shared_samples_are_counted(histograms, peak, count - 1);
        let last = histograms[count - 1];
        assert(is_slot_histogram(last));
        support_counts_samples(last, peak);
        near_gray_counts(last.samples@, peak);
    }
}

/// Finds the gray that at least three of the four slots share.
fn find_shared_gray(histograms: &Vec<GrayHistogram>) -> (shared: Result<SharedGray, ToneError>)
    requires
        are_slots(histograms@),
    ensures
        match shared {
            Ok(found) => {
                &&& is_peak(histograms@, found.peak as int, 161)
                &&& found.consensus_support == consensus(histograms@, found.peak as int)
                &&& found.consensus_support >= MIN_SHARE
                &&& found.slot_supports@.len() == 4
                &&& forall|at: int|
                    0 <= at < 4 ==> #[trigger] found.slot_supports@[at] == support_share(
                        histograms@[at],
                        found.peak as int,
                    )
                &&& found.samples@ == shared_samples(histograms@, found.peak as int, 4)
                &&& 0 < found.samples@.len() <= u32::MAX
            },
            Err(error) => lacks_support(histograms@, error),
        },
{
    let peak = find_peak(histograms);
    let mut slot_supports: Vec<u128> = Vec::new();
    let mut at: usize = 0;
    while at < 4
        invariant
            at <= 4,
            are_slots(histograms@),
            4 <= peak <= 160,
            slot_supports@.len() == at,
            forall|done: int|
                0 <= done < at ==> #[trigger] slot_supports@[done] == support_share(
                    histograms@[done],
                    peak as int,
                ) && (slot_supports@[done] > 0 ==> support(histograms@[done].bins@, peak as int)
                    > 0),
        decreases 4 - at,
    {
        assert(is_slot_histogram(histograms@[at as int]));
        slot_supports.push(slot_support(&histograms[at], peak));
        at = at + 1;
    }
    let consensus_support = third_highest(
        slot_supports[0],
        slot_supports[1],
        slot_supports[2],
        slot_supports[3],
    );
    if consensus_support < MIN_SHARE {
        assert(is_peak(histograms@, peak as int, 161));
        return Err(ToneError::InsufficientSupport { support: consensus_support });
    }
    let mut samples: Vec<Rgba> = Vec::new();
    let mut slot: usize = 0;
    while slot < 4
        invariant
            slot <= 4,
            are_slots(histograms@),
            4 <= peak <= 160,
            slot_supports@.len() == 4,
            forall|done: int|
                0 <= done < 4 ==> #[trigger] slot_supports@[done] == support_share(
                    histograms@[done],
                    peak as int,
                ),
            samples@ == shared_samples(histograms@, peak as int, slot as int),
        decreases 4 - slot,
    {
        if slot_supports[slot] >= MIN_SHARE {
            gather(&mut samples, &histograms[slot].samples, peak);
        }
        slot = slot + 1;
    }
    proof {
        shared_samples_are_counted(histograms@, peak as int, 4);
        shared_by_three(histograms@, peak as int);
        assert(slot_supports@[0] == support_share(histograms@[0], peak as int));
        assert(slot_supports@[1] == support_share(histograms@[1], peak as int));
        assert(has_gray(histograms@[0], peak as int) || has_gray(histograms@[1], peak as int));
    }
    Ok(SharedGray { peak, consensus_support, slot_supports, samples })
}

/// Three of the slots do not have their strongest gray.
pub open spec fn lacks_support(histograms: Seq<GrayHistogram>, error: ToneError) -> bool {
    exists|peak: int| #[trigger]
        is_peak(histograms, peak, 161) && consensus(histograms, peak) < MIN_SHARE && (
        error matches ToneError::InsufficientSupport { support } && support == consensus(
            histograms,
            peak,
        ))
}

/// What of a pixel is counted.
#[derive(Clone, Copy, Debug, PartialEq, Eq, Structural)]
pub enum ToneChannel {
    Gray,
    Red,
    Green,
    Blue,
}

pub open spec fn channel_value(pixel: Rgba, channel: ToneChannel) -> int {
    match channel {
        ToneChannel::Gray => gray_of(pixel),
        ToneChannel::Red => pixel.r as int,
        ToneChannel::Green => pixel.g as int,
        ToneChannel::Blue => pixel.b as int,
    }
}

/// How many of the pixels have this value.
pub open spec fn count_value(pixels: Seq<Rgba>, channel: ToneChannel, value: int) -> int
    decreases pixels.len(),
{
    if pixels.len() == 0 {
        0
    } else {
        count_value(pixels.drop_last(), channel, value) + if channel_value(pixels.last(), channel)
            == value {
            1int
        } else {
            0
        }
    }
}

/// The bins count the values of the pixels.
pub open spec fn are_value_bins(bins: Seq<u32>, pixels: Seq<Rgba>, channel: ToneChannel) -> bool {
    &&& bins.len() == 256
    &&& forall|value: int|
        0 <= value < 256 ==> #[trigger] bins[value] == count_value(pixels, channel, value)
}

proof fn counting_one_more(before: Seq<u32>, after: Seq<u32>, value: int, count: int)
    requires
        before.len() == after.len(),
        0 <= value < before.len(),
        0 <= count <= before.len(),
        after == before.update(value, (before[value] + 1) as u32),
        before[value] < u32::MAX,
    ensures
        bins_below(after, count) == bins_below(before, count) + if value < count {
            1int
        } else {
            0
        },
    decreases count,
{
    if count > 0 {
        counting_one_more(before, after, value, count - 1);
    }
}

proof fn empty_bins_hold_nothing(bins: Seq<u32>, count: int)
    requires
        0 <= count <= bins.len(),
        forall|at: int| 0 <= at < bins.len() ==> bins[at] == 0,
    ensures
        bins_below(bins, count) == 0,
    decreases count,
{
    if count > 0 {
        empty_bins_hold_nothing(bins, count - 1);
    }
}

proof fn bin_is_part(bins: Seq<u32>, value: int)
    requires
        0 <= value < bins.len(),
    ensures
        bins[value] <= bins_below(bins, bins.len() as int),
{
    bins_below_grows(bins, 0, value);
    bins_below_grows(bins, value + 1, bins.len() as int);
}

/// Counts the values of the pixels.
pub fn value_bins(pixels: &Vec<Rgba>, channel: ToneChannel) -> (bins: Vec<u32>)
    requires
        pixels@.len() <= u32::MAX,
    ensures
        are_value_bins(bins@, pixels@, channel),
        bins_below(bins@, 256) == pixels@.len(),
{
    let mut bins: Vec<u32> = vec![0; 256];
    let mut index: usize = 0;
    proof {
        empty_bins_hold_nothing(bins@, 256);
        assert(pixels@.take(0) =~= Seq::empty());
    }
    while index < pixels.len()
        invariant
            index <= pixels@.len() <= u32::MAX,
            are_value_bins(bins@, pixels@.take(index as int), channel),
            bins_below(bins@, 256) == index,
        decreases pixels@.len() - index,
    {
        let pixel = pixels[index];
        let value: usize = match channel {
            ToneChannel::Gray => ((pixel.r as u16 + pixel.g as u16 + pixel.b as u16 + 1)
                / 3) as usize,
            ToneChannel::Red => pixel.r as usize,
            ToneChannel::Green => pixel.g as usize,
            ToneChannel::Blue => pixel.b as usize,
        };
        let ghost before = bins@;
        proof {
            bin_is_part(bins@, value as int);
        }
        let count: u32 = bins[value];
        bins.set(value, count + 1);
        proof {
            counting_one_more(before, bins@, value as int, 256);
            assert(pixels@.take(index + 1).drop_last() =~= pixels@.take(index as int));
            assert forall|at: int| 0 <= at < 256 implies #[trigger] bins@[at] == count_value(
                pixels@.take(index + 1),
                channel,
                at,
            ) by {
                assert(before[at] == count_value(pixels@.take(index as int), channel, at));
            }
        }
        index = index + 1;
    }
    assert(pixels@.take(pixels@.len() as int) =~= pixels@);
    bins
}

/// Twice the median of the values of the pixels.
pub open spec fn is_twice_channel_median(
    pixels: Seq<Rgba>,
    channel: ToneChannel,
    twice: int,
) -> bool {
    exists|bins: Seq<u32>| #[trigger]
        are_value_bins(bins, pixels, channel) && is_twice_median(bins, pixels.len() as int, twice)
}

pub fn channel_median(pixels: &Vec<Rgba>, channel: ToneChannel) -> (twice: u16)
    requires
        0 < pixels@.len() <= u32::MAX,
    ensures
        is_twice_channel_median(pixels@, channel, twice as int),
{
    let bins = value_bins(pixels, channel);
    let twice = histogram_median(&bins, pixels.len() as u32);
    assert(are_value_bins(bins@, pixels@, channel));
    twice
}

/// The last of the grays that most samples have.
pub open spec fn is_slot_peak(histogram: GrayHistogram, peak: int) -> bool {
    &&& 4 <= peak <= 160
    &&& forall|gray: int|
        4 <= gray <= peak ==> #[trigger] histogram.bins@[gray] <= histogram.bins@[peak]
    &&& forall|gray: int|
        peak < gray <= 160 ==> #[trigger] histogram.bins@[gray] < histogram.bins@[peak]
}

/// The last of the grays that most samples have.
pub fn slot_peak(histogram: &GrayHistogram) -> (peak: u8)
    requires
        histogram.bins@.len() == 256,
    ensures
        is_slot_peak(*histogram, peak as int),
{
    let mut peak: usize = GRAY_MIN;
    let mut gray: usize = GRAY_MIN + 1;
    while gray <= GRAY_MAX
        invariant
            histogram.bins@.len() == 256,
            4 <= peak < gray <= 161,
            forall|other: int|
                4 <= other <= peak ==> #[trigger] histogram.bins@[other]
                    <= histogram.bins@[peak as int],
            forall|other: int|
                peak < other < gray ==> #[trigger] histogram.bins@[other]
                    < histogram.bins@[peak as int],
        decreases 161 - gray,
    {
        if histogram.bins[gray] >= histogram.bins[peak] {
            peak = gray;
        }
        gray = gray + 1;
    }
    peak as u8
}

/// A shared gray is one of at least three slots.
pub proof fn shared_by_three(histograms: Seq<GrayHistogram>, peak: int)
    requires
        are_slots(histograms),
        consensus(histograms, peak) >= MIN_SHARE,
    ensures
        (if has_gray(histograms[0], peak) {
            1int
        } else {
            0
        }) + (if has_gray(histograms[1], peak) {
            1int
        } else {
            0
        }) + (if has_gray(histograms[2], peak) {
            1int
        } else {
            0
        }) + (if has_gray(histograms[3], peak) {
            1int
        } else {
            0
        }) >= 3,
{
    third_is_in_place(
        support_share(histograms[0], peak),
        support_share(histograms[1], peak),
        support_share(histograms[2], peak),
        support_share(histograms[3], peak),
    );
}

/// The tone of the loadout home. Medians are held twice.
#[derive(Clone, Copy, Debug, PartialEq, Eq)]
pub struct HomeToneMeasurement {
    pub twice_gray: u16,
    pub twice_rgb: [u16; 3],
    pub consensus_support: u128,
    pub slot_peaks: [u8; 4],
    pub slot_supports: [u128; 4],
}

/// The tone that four histograms show, whose strongest shared gray is `peak`: the medians of the
/// pixels that have it, in the slots that have it.
pub open spec fn is_tone_at(
    histograms: Seq<GrayHistogram>,
    peak: int,
    tone: HomeToneMeasurement,
) -> bool {
    let samples = shared_samples(histograms, peak, 4);
    &&& tone.consensus_support == consensus(histograms, peak)
    &&& tone.consensus_support >= MIN_SHARE
    &&& is_twice_channel_median(samples, ToneChannel::Gray, tone.twice_gray as int)
    &&& is_twice_channel_median(samples, ToneChannel::Red, tone.twice_rgb[0] as int)
    &&& is_twice_channel_median(samples, ToneChannel::Green, tone.twice_rgb[1] as int)
    &&& is_twice_channel_median(samples, ToneChannel::Blue, tone.twice_rgb[2] as int)
    &&& forall|at: int|
        0 <= at < 4 ==> is_slot_peak(
            #[trigger] histograms[at],
            tone.slot_peaks[at] as int,
        ) && tone.slot_supports[at] == support_share(histograms[at], peak)
}

pub open spec fn is_tone(histograms: Seq<GrayHistogram>, tone: HomeToneMeasurement) -> bool {
    exists|peak: int| #[trigger]
        is_peak(histograms, peak, 161) && is_tone_at(histograms, peak, tone)
}

/// The tone that the histograms of the slots show. Once three slots have the gray, there are pixels
/// to measure.
pub fn estimate_histograms(histograms: &Vec<GrayHistogram>) -> (tone: Result<
    HomeToneMeasurement,
    ToneError,
>)
    requires
        forall|at: int|
            0 <= at < histograms@.len() ==> is_slot_histogram(#[trigger] histograms@[at]),
    ensures
        match tone {
            Ok(found) => histograms@.len() == 4 && is_tone(histograms@, found),
            Err(ToneError::SlotCount { count }) => histograms@.len() != 4 && count
                == histograms@.len(),
            Err(error) => histograms@.len() == 4 && lacks_support(histograms@, error),
        },
{
    if histograms.len() != 4 {
        return Err(ToneError::SlotCount { count: histograms.len() });
    }
    let shared = match find_shared_gray(histograms) {
        Ok(shared) => shared,
        Err(error) => {
            return Err(error);
        },
    };
    let tone = HomeToneMeasurement {
        twice_gray: channel_median(&shared.samples, ToneChannel::Gray),
        twice_rgb: [
            channel_median(&shared.samples, ToneChannel::Red),
            channel_median(&shared.samples, ToneChannel::Green),
            channel_median(&shared.samples, ToneChannel::Blue),
        ],
        consensus_support: shared.consensus_support,
        slot_peaks: [
            slot_peak(&histograms[0]),
            slot_peak(&histograms[1]),
            slot_peak(&histograms[2]),
            slot_peak(&histograms[3]),
        ],
        slot_supports: [
            shared.slot_supports[0],
            shared.slot_supports[1],
            shared.slot_supports[2],
            shared.slot_supports[3],
        ],
    };
    assert(is_tone_at(histograms@, shared.peak as int, tone));
    Ok(tone)
}

/// A stratagem slot of the home, filled or not.
pub open spec fn is_stratagem_slot(kind: SlotKind) -> bool {
    kind == SlotKind::Stratagem || kind == SlotKind::StratagemEmpty
}

/// How many slots come before one in this column: those of an order up to the last that does not
/// stand to the right of it.
pub open spec fn column_place(slots: Seq<Slot>, order: Seq<int>, col: u32) -> int
    decreases order.len(),
{
    if order.len() > 0 && slots[order.last()].col > col {
        column_place(slots, order.drop_last(), col)
    } else {
        order.len() as int
    }
}

/// The stratagem slots among the first `count` slots, by their columns; those of one column stay in
/// their order.
pub open spec fn by_column(slots: Seq<Slot>, count: int) -> Seq<int>
    decreases count,
{
    if count <= 0 {
        Seq::empty()
    } else {
        let before = by_column(slots, count - 1);
        if is_stratagem_slot(slots[count - 1].kind) {
            before.insert(column_place(slots, before, slots[count - 1].col), count - 1)
        } else {
            before
        }
    }
}

proof fn column_place_splits(slots: Seq<Slot>, order: Seq<int>, col: u32)
    requires
        forall|left: int, right: int|
            0 <= left < right < order.len() ==> stands_before(
                slots,
                #[trigger] order[left],
                #[trigger] order[right],
            ),
    ensures
        0 <= column_place(slots, order, col) <= order.len(),
        forall|at: int|
            0 <= at < column_place(slots, order, col) ==> slots[#[trigger] order[at]].col <= col,
        forall|at: int|
            column_place(slots, order, col) <= at < order.len() ==> slots[#[trigger] order[at]].col
                > col,
    decreases order.len(),
{
    if order.len() > 0 && slots[order.last()].col > col {
        let front = order.drop_last();
        assert forall|left: int, right: int| 0 <= left < right < front.len() implies stands_before(
            slots,
            #[trigger] front[left],
            #[trigger] front[right],
        ) by {
            assert(stands_before(slots, order[left], order[right]));
        }
        column_place_splits(slots, front, col);
        assert(forall|at: int| 0 <= at < front.len() ==> front[at] == order[at]);
    } else if order.len() > 0 {
        assert forall|at: int| 0 <= at < order.len() implies slots[#[trigger] order[at]].col
            <= col by {
            if at < order.len() - 1 {
                assert(stands_before(slots, order[at], order[order.len() - 1]));
            }
        }
    }
}

/// The first slot stands to the left of the second, or before it in the same column.
pub open spec fn stands_before(slots: Seq<Slot>, first: int, second: int) -> bool {
    slots[first].col < slots[second].col || (slots[first].col == slots[second].col && first
        < second)
}

/// Some of the first `count` slots from left to right, all of them stratagem slots.
pub open spec fn are_ordered(slots: Seq<Slot>, order: Seq<int>, count: int) -> bool {
    &&& forall|at: int|
        0 <= at < order.len() ==> 0 <= #[trigger] order[at] < count && is_stratagem_slot(
            slots[order[at]].kind,
        )
    &&& forall|left: int, right: int|
        0 <= left < right < order.len() ==> stands_before(
            slots,
            #[trigger] order[left],
            #[trigger] order[right],
        )
}

#[verifier::spinoff_prover]
proof fn inserting_keeps_order(slots: Seq<Slot>, order: Seq<int>, slot: int, place: int)
    requires
        are_ordered(slots, order, slot),
        0 <= slot,
        is_stratagem_slot(slots[slot].kind),
        place == column_place(slots, order, slots[slot].col),
    ensures
        0 <= place <= order.len(),
        are_ordered(slots, order.insert(place, slot), slot + 1),
{
    let all = order.insert(place, slot);
    column_place_splits(slots, order, slots[slot].col);
    assert forall|at: int| 0 <= at < all.len() implies 0 <= #[trigger] all[at] < slot + 1
        && is_stratagem_slot(slots[all[at]].kind) by {
        if at < place {
            assert(all[at] == order[at]);
        } else if at > place {
            assert(all[at] == order[at - 1]);
        }
    }
    assert forall|left: int, right: int| 0 <= left < right < all.len() implies stands_before(
        slots,
        #[trigger] all[left],
        #[trigger] all[right],
    ) by {
        let from = if left < place {
            left
        } else {
            left - 1
        };
        let to = if right < place {
            right
        } else {
            right - 1
        };
        if left == place {
            assert(all[right] == order[to]);
        } else if right == place {
            assert(all[left] == order[from]);
        } else {
            assert(all[left] == order[from] && all[right] == order[to]);
        }
    }
}

/// The stratagem slots are all there, each once, from left to right.
#[verifier::spinoff_prover]
pub proof fn columns_are_in_order(slots: Seq<Slot>, count: int)
    requires
        0 <= count <= slots.len(),
    ensures
        are_ordered(slots, by_column(slots, count), count),
        forall|slot: int|
            0 <= slot < count && is_stratagem_slot((#[trigger] slots[slot]).kind) ==> by_column(
                slots,
                count,
            ).contains(slot),
    decreases count,
{
    if count > 0 {
        columns_are_in_order(slots, count - 1);
        let before = by_column(slots, count - 1);
        let all = by_column(slots, count);
        let slot = count - 1;
        if is_stratagem_slot(slots[slot].kind) {
            let place = column_place(slots, before, slots[slot].col);
            inserting_keeps_order(slots, before, slot, place);
            assert(all[place] == slot);
            assert forall|other: int| 0 <= other < count && is_stratagem_slot(
                (#[trigger] slots[other]).kind,
            ) implies all.contains(other) by {
                if other < slot {
                    let at = before.index_of(other);
                    assert(before.contains(other));
                    assert(all[if at < place {
                        at
                    } else {
                        at + 1
                    }] == other);
                }
            }
        }
    }
}

fn find_by_column(slots: &Vec<Slot>) -> (order: Vec<usize>)
    ensures
        order@.len() == by_column(slots@, slots@.len() as int).len(),
        forall|at: int|
            0 <= at < order@.len() ==> #[trigger] order@[at] == by_column(
                slots@,
                slots@.len() as int,
            )[at] && order@[at] < slots@.len(),
{
    let mut order: Vec<usize> = Vec::new();
    let mut index: usize = 0;
    while index < slots.len()
        invariant
            index <= slots@.len(),
            order@.len() == by_column(slots@, index as int).len(),
            forall|at: int|
                0 <= at < order@.len() ==> #[trigger] order@[at] == by_column(
                    slots@,
                    index as int,
                )[at] && order@[at] < index,
        decreases slots@.len() - index,
    {
        let kind = slots[index].kind;
        if kind == SlotKind::Stratagem || kind == SlotKind::StratagemEmpty {
            let ghost before = by_column(slots@, index as int);
            let col = slots[index].col;
            let mut place: usize = order.len();
            assert(before.take(before.len() as int) =~= before);
            while place > 0 && slots[order[place - 1]].col > col
                invariant
                    place <= order@.len(),
                    order@.len() == before.len(),
                    index < slots@.len(),
                    forall|at: int|
                        0 <= at < order@.len() ==> #[trigger] order@[at] == before[at] && order@[at]
                            < index,
                    column_place(slots@, before, col) == column_place(
                        slots@,
                        before.take(place as int),
                        col,
                    ),
                decreases place,
            {
                assert(before.take(place as int).drop_last() =~= before.take(place - 1));
                assert(order@[place - 1] == before[place - 1]);
                place = place - 1;
            }
            assert(column_place(slots@, before, col) == place) by {
                if place > 0 {
                    assert(order@[place - 1] == before[place - 1]);
                }
            }
            order.insert(place, index);
        }
        index = index + 1;
    }
    order
}

/// The histograms of regions of an image.
pub open spec fn are_histograms_of(
    histograms: Seq<GrayHistogram>,
    image: Frame,
    regions: Seq<ImageRect>,
) -> bool {
    &&& histograms.len() == regions.len()
    &&& forall|at: int|
        0 <= at < histograms.len() ==> {
            let area = regions[at].w as int * regions[at].h as int;
            &&& (#[trigger] histograms[at]).wf()
            &&& histograms[at].area == area
            &&& histograms[at].samples@ == neutral_pixels(image, regions[at], area)
        }
}

/// The cores of the stratagem slots from left to right.
pub open spec fn tone_regions(slots: Seq<Slot>, cores: Seq<ImageRect>) -> Seq<ImageRect> {
    by_column(slots, slots.len() as int).map_values(|slot: int| cores[slot])
}

/// The region is not empty and lies inside the image.
pub open spec fn is_covered(image: Frame, region: ImageRect) -> bool {
    region.w > 0 && region.h > 0 && inside(image, region)
}

/// Measures the tone of the loadout home by the inner parts of its slots. `cores` has a region for
/// each slot.
pub fn measure_home_tone(observation: &RoiObservation, cores: &Vec<ImageRect>) -> (tone: Result<
    HomeToneMeasurement,
    ToneError,
>)
    requires
        cores@.len() == observation.slots@.len(),
        forall|at: int|
            0 <= at < cores@.len() ==> (#[trigger] cores@[at]).w as int * cores@[at].h as int
                <= 0x3fff_ffff,
    ensures
        ({
            let regions = tone_regions(observation.slots@, cores@);
            let image = observation.image;
            let is_measured = observation.layout == SlotLayout::Home && regions.len() == 4
                && forall|at: int| 0 <= at < 4 ==> is_covered(image, #[trigger] regions[at]);
            match tone {
                Ok(found) => is_measured && exists|histograms: Seq<GrayHistogram>| #[trigger]
                    are_histograms_of(histograms, image, regions) && is_tone(histograms, found),
                Err(ToneError::OtherLayout) => observation.layout != SlotLayout::Home,
                Err(ToneError::SlotCount { count }) => observation.layout == SlotLayout::Home
                    && regions.len() != 4 && count == regions.len(),
                Err(ToneError::OutsideImage) => observation.layout == SlotLayout::Home
                    && regions.len() == 4 && exists|at: int|
                    0 <= at < 4 && !is_covered(image, #[trigger] regions[at]),
                Err(error) => is_measured && exists|histograms: Seq<GrayHistogram>| #[trigger]
                    are_histograms_of(histograms, image, regions) && lacks_support(
                        histograms,
                        error,
                    ),
            }
        }),
{
    if observation.layout != SlotLayout::Home {
        return Err(ToneError::OtherLayout);
    }
    let order = find_by_column(&observation.slots);
    let ghost regions = tone_regions(observation.slots@, cores@);
    assert(regions.len() == order@.len());
    if order.len() != 4 {
        return Err(ToneError::SlotCount { count: order.len() });
    }
    let mut histograms: Vec<GrayHistogram> = Vec::new();
    let mut at: usize = 0;
    while at < 4
        invariant
            at <= 4,
            order@.len() == 4,
            regions.len() == 4,
            regions == tone_regions(observation.slots@, cores@),
            observation.layout == SlotLayout::Home,
            cores@.len() == observation.slots@.len(),
            forall|core: int|
                0 <= core < cores@.len() ==> (#[trigger] cores@[core]).w as int
                    * cores@[core].h as int <= 0x3fff_ffff,
            forall|done: int|
                0 <= done < 4 ==> #[trigger] order@[done] == by_column(
                    observation.slots@,
                    observation.slots@.len() as int,
                )[done] && order@[done] < cores@.len(),
            are_histograms_of(histograms@, observation.image, regions.take(at as int)),
            forall|done: int|
                0 <= done < at ==> is_covered(observation.image, #[trigger] regions[done]),
            forall|done: int|
                0 <= done < at ==> is_slot_histogram(#[trigger] histograms@[done]),
        decreases 4 - at,
    {
        let region = cores[order[at]];
        assert(region == regions[at as int]);
        match gray_histogram(&observation.image, region) {
            Ok(histogram) => {
                assert(region.w as int * region.h as int > 0) by (nonlinear_arith)
                    requires
                        region.w > 0,
                        region.h > 0,
                ;
                histograms.push(histogram);
            },
            Err(_) => {
                assert(!is_covered(observation.image, regions[at as int]));
                return Err(ToneError::OutsideImage);
            },
        }
        at = at + 1;
    }
    assert(regions.take(4) =~= regions);
    estimate_histograms(&histograms)
}

/// The gray of a pixel is the number nearest to the mean of its channels. It counts where the pixel
/// is close to gray, no two channels being further apart than a twentieth of their sum, and neither
/// almost black nor bright: for a pixel of three equal channels, from 4 to 160.
pub proof fn grays_are_means(pixel: Rgba)
    ensures
        pixel.r + pixel.g + pixel.b - 1 <= 3 * gray_of(pixel) <= pixel.r + pixel.g + pixel.b + 1,
        is_neutral(pixel) <==> {
            let sum = pixel.r + pixel.g + pixel.b;
            &&& 11 <= sum <= 481
            &&& -sum <= 20 * (pixel.r - pixel.g) <= sum
            &&& -sum <= 20 * (pixel.g - pixel.b) <= sum
            &&& -sum <= 20 * (pixel.b - pixel.r) <= sum
        },
        pixel.r == pixel.g && pixel.g == pixel.b ==> gray_of(pixel) == pixel.r && (is_neutral(pixel)
            <==> 4 <= pixel.r <= 160),
{
}

/// The neutral pixels of a region are those among its pixels, each of them and no other.
pub proof fn neutral_pixels_are_found(image: Frame, region: ImageRect, count: int, pixel: Rgba)
    requires
        0 <= count,
    ensures
        neutral_pixels(image, region, count).len() <= count,
        neutral_pixels(image, region, count).contains(pixel) <==> is_neutral(pixel) && exists|
            index: int,
        |
            0 <= index < count && #[trigger] region_pixel(image, region, index) == pixel,
    decreases count,
{
    if count > 0 {
        neutral_pixels_are_found(image, region, count - 1, pixel);
        let front = neutral_pixels(image, region, count - 1);
        let all = neutral_pixels(image, region, count);
        let last = region_pixel(image, region, count - 1);
        if all.contains(pixel) && !front.contains(pixel) {
            let at = choose|at: int| 0 <= at < all.len() && all[at] == pixel;
            assert(at < front.len() ==> front[at] == pixel);
            assert(last == pixel);
        }
        if front.contains(pixel) {
            let at = choose|at: int| 0 <= at < front.len() && front[at] == pixel;
            assert(all[at] == pixel);
        }
        if is_neutral(pixel) && last == pixel {
            assert(all[all.len() - 1] == pixel);
        }
    }
}

/// The pixels of a region are counted row by row.
pub proof fn region_pixels_stand_in_rows(image: Frame, region: ImageRect, x: int, y: int)
    requires
        0 <= x < region.w,
        0 <= y,
    ensures
        region_pixel(image, region, y * region.w + x) == image.pixel(region.x + x, region.y + y),
{
    place_in_region(x, y, region.w as int);
}

/// Of the pixels, none is counted where none has the value, and all where all have it; each pixel
/// that has it is counted once.
pub proof fn values_are_counted(pixels: Seq<Rgba>, channel: ToneChannel, value: int)
    ensures
        0 <= count_value(pixels, channel, value) <= pixels.len(),
        count_value(pixels, channel, value) > 0 <==> exists|at: int|
            0 <= at < pixels.len() && #[trigger] channel_value(pixels[at], channel) == value,
        count_value(pixels, channel, value) == pixels.len() <==> forall|at: int|
            0 <= at < pixels.len() ==> #[trigger] channel_value(pixels[at], channel) == value,
        channel == ToneChannel::Gray ==> count_value(pixels, channel, value) == count_gray(
            pixels,
            value,
        ),
    decreases pixels.len(),
{
    if pixels.len() > 0 {
        let front = pixels.drop_last();
        let last = pixels.len() - 1;
        values_are_counted(front, channel, value);
        assert(pixels.last() == pixels[last]);
        assert(forall|at: int| 0 <= at < front.len() ==> front[at] == pixels[at]);
        if channel_value(pixels[last], channel) == value {
            assert(exists|at: int|
                0 <= at < pixels.len() && #[trigger] channel_value(pixels[at], channel) == value);
        }
        if count_value(front, channel, value) > 0 {
            let at = choose|at: int|
                0 <= at < front.len() && #[trigger] channel_value(front[at], channel) == value;
            assert(channel_value(pixels[at], channel) == value);
        }
        if exists|at: int|
            0 <= at < pixels.len() && #[trigger] channel_value(pixels[at], channel) == value {
            let at = choose|at: int|
                0 <= at < pixels.len() && #[trigger] channel_value(pixels[at], channel) == value;
            if at < last {
                assert(channel_value(front[at], channel) == value);
            }
        }
        if forall|at: int|
            0 <= at < pixels.len() ==> #[trigger] channel_value(pixels[at], channel) == value {
            assert forall|at: int| 0 <= at < front.len() implies #[trigger] channel_value(
                front[at],
                channel,
            ) == value by {
                assert(channel_value(pixels[at], channel) == value);
            }
        }
        if count_value(front, channel, value) == front.len() && channel_value(
            pixels[last],
            channel,
        ) == value {
            assert forall|at: int| 0 <= at < pixels.len() implies #[trigger] channel_value(
                pixels[at],
                channel,
            ) == value by {
                if at < last {
                    assert(channel_value(front[at], channel) == value);
                }
            }
        }
    }
}

/// How many of the pixels have a value below the limit.
pub open spec fn values_below(pixels: Seq<Rgba>, channel: ToneChannel, limit: int) -> int
    decreases pixels.len(),
{
    if pixels.len() == 0 {
        0
    } else {
        values_below(pixels.drop_last(), channel, limit) + if channel_value(pixels.last(), channel)
            < limit {
            1int
        } else {
            0
        }
    }
}

proof fn one_value_more(pixels: Seq<Rgba>, channel: ToneChannel, limit: int)
    ensures
        values_below(pixels, channel, limit + 1) == values_below(pixels, channel, limit)
            + count_value(pixels, channel, limit),
        values_below(pixels, channel, 0) == 0,
    decreases pixels.len(),
{
    if pixels.len() > 0 {
        one_value_more(pixels.drop_last(), channel, limit);
    }
}

proof fn bins_hold_the_values_below(
    bins: Seq<u32>,
    pixels: Seq<Rgba>,
    channel: ToneChannel,
    limit: int,
)
    requires
        are_value_bins(bins, pixels, channel),
        0 <= limit <= 256,
    ensures
        bins_below(bins, limit) == values_below(pixels, channel, limit),
    decreases limit,
{
    one_value_more(pixels, channel, limit - 1);
    if limit > 0 {
        bins_hold_the_values_below(bins, pixels, channel, limit - 1);
        assert(bins[limit - 1] == count_value(pixels, channel, limit - 1));
    }
}

/// The median halves the pixels: it is the mean of two values, of which fewer than half of the
/// pixels lie below the first, at least half not above it; at most half lie below the second, and
/// more than half not above it.
pub proof fn medians_halve_the_pixels(pixels: Seq<Rgba>, channel: ToneChannel, twice: int)
    requires
        is_twice_channel_median(pixels, channel, twice),
    ensures
        exists|low: int, high: int|
            #![trigger values_below(pixels, channel, low), values_below(pixels, channel, high)]
            {
                &&& twice == low + high
                &&& 2 * values_below(pixels, channel, low) < pixels.len()
                &&& 2 * values_below(pixels, channel, low + 1) >= pixels.len()
                &&& 2 * values_below(pixels, channel, high) <= pixels.len()
                &&& 2 * values_below(pixels, channel, high + 1) > pixels.len()
            },
{
    let bins = choose|bins: Seq<u32>| #[trigger]
        are_value_bins(bins, pixels, channel) && is_twice_median(bins, pixels.len() as int, twice);
    let total = pixels.len() as int;
    let (low, high) = if total % 2 == 0 {
        choose|left: int, right: int| #[trigger]
            has_rank(bins, total / 2 - 1, left) && #[trigger] has_rank(bins, total / 2, right)
                && twice == left + right
    } else {
        (twice / 2, twice / 2)
    };
    bins_hold_the_values_below(bins, pixels, channel, low);
    bins_hold_the_values_below(bins, pixels, channel, low + 1);
    bins_hold_the_values_below(bins, pixels, channel, high);
    bins_hold_the_values_below(bins, pixels, channel, high + 1);
    assert(2 * values_below(pixels, channel, low) < total);
    assert(2 * values_below(pixels, channel, high) <= total);
}

proof fn medians_lie_between(
    pixels: Seq<Rgba>,
    channel: ToneChannel,
    twice: int,
    low: int,
    high: int,
)
    requires
        is_twice_channel_median(pixels, channel, twice),
        forall|at: int|
            0 <= at < pixels.len() ==> low <= #[trigger] channel_value(pixels[at], channel) <= high,
    ensures
        2 * low <= twice <= 2 * high,
{
    let bins = choose|bins: Seq<u32>| #[trigger]
        are_value_bins(bins, pixels, channel) && is_twice_median(bins, pixels.len() as int, twice);
    let total = pixels.len() as int;
    let (left, right) = if total % 2 == 0 {
        choose|left: int, right: int| #[trigger]
            has_rank(bins, total / 2 - 1, left) && #[trigger] has_rank(bins, total / 2, right)
                && twice == left + right
    } else {
        (twice / 2, twice / 2)
    };
    assert(bins[left] == count_value(pixels, channel, left));
    assert(bins[right] == count_value(pixels, channel, right));
    values_are_counted(pixels, channel, left);
    values_are_counted(pixels, channel, right);
}

/// The pixels near a gray are those whose gray is off it by one at most, each of them and no other.
pub proof fn near_grays_are_off_by_one(pixels: Seq<Rgba>, peak: int, pixel: Rgba)
    ensures
        near_gray(pixels, peak).contains(pixel) <==> pixels.contains(pixel) && -1 <= gray_of(pixel)
            - peak <= 1,
    decreases pixels.len(),
{
    if pixels.len() > 0 {
        let front = pixels.drop_last();
        near_grays_are_off_by_one(front, peak, pixel);
        let some = near_gray(front, peak);
        let all = near_gray(pixels, peak);
        if all.contains(pixel) {
            let at = choose|at: int| 0 <= at < all.len() && all[at] == pixel;
            if at < some.len() {
                assert(some[at] == pixel);
                assert(some.contains(pixel));
                let other = choose|other: int| 0 <= other < front.len() && front[other] == pixel;
                assert(pixels[other] == pixel);
            } else {
                assert(pixels[pixels.len() - 1] == pixel);
            }
        }
        if pixels.contains(pixel) && -1 <= gray_of(pixel) - peak <= 1 {
            let at = choose|at: int| 0 <= at < pixels.len() && pixels[at] == pixel;
            if at < front.len() {
                assert(front[at] == pixel);
                assert(some.contains(pixel));
                let other = choose|other: int| 0 <= other < some.len() && some[other] == pixel;
                assert(all[other] == pixel);
            } else {
                assert(all[all.len() - 1] == pixel);
            }
        }
    }
}

/// The shared pixels are those near the gray in the slots that have it.
pub proof fn shared_pixels_come_from_their_slots(
    histograms: Seq<GrayHistogram>,
    peak: int,
    count: int,
    pixel: Rgba,
)
    requires
        0 <= count <= histograms.len(),
    ensures
        shared_samples(histograms, peak, count).contains(pixel) <==> -1 <= gray_of(pixel) - peak
            <= 1 && exists|at: int|
            0 <= at < count && #[trigger] has_gray(histograms[at], peak)
                && histograms[at].samples@.contains(pixel),
    decreases count,
{
    if count > 0 {
        shared_pixels_come_from_their_slots(histograms, peak, count - 1, pixel);
        near_grays_are_off_by_one(histograms[count - 1].samples@, peak, pixel);
        let front = shared_samples(histograms, peak, count - 1);
        let near = near_gray(histograms[count - 1].samples@, peak);
        let all = shared_samples(histograms, peak, count);
        if has_gray(histograms[count - 1], peak) {
            assert(all == front + near);
            if all.contains(pixel) {
                let at = choose|at: int| 0 <= at < all.len() && all[at] == pixel;
                if at < front.len() {
                    assert(front[at] == pixel);
                } else {
                    assert(near[at - front.len()] == pixel);
                }
            }
            if front.contains(pixel) {
                let at = choose|at: int| 0 <= at < front.len() && front[at] == pixel;
                assert(all[at] == pixel);
            }
            if near.contains(pixel) {
                let at = choose|at: int| 0 <= at < near.len() && near[at] == pixel;
                assert(all[front.len() + at] == pixel);
            }
        }
    }
}

/// The tone lies between the colors of the pixels that were measured, channel by channel: where all
/// have the same color, it is that color.
pub proof fn tones_are_colors_of_the_slots(
    histograms: Seq<GrayHistogram>,
    tone: HomeToneMeasurement,
    low: Rgba,
    high: Rgba,
)
    requires
        histograms.len() == 4,
        is_tone(histograms, tone),
        forall|slot: int, at: int|
            #![trigger histograms[slot].samples@[at]]
            0 <= slot < 4 && 0 <= at < histograms[slot].samples@.len() ==> {
                let pixel = histograms[slot].samples@[at];
                &&& low.r <= pixel.r <= high.r
                &&& low.g <= pixel.g <= high.g
                &&& low.b <= pixel.b <= high.b
            },
    ensures
        2 * low.r <= tone.twice_rgb[0] <= 2 * high.r,
        2 * low.g <= tone.twice_rgb[1] <= 2 * high.g,
        2 * low.b <= tone.twice_rgb[2] <= 2 * high.b,
        2 * (low.r + low.g + low.b - 1) <= 3 * tone.twice_gray <= 2 * (high.r + high.g + high.b + 1),
{
    let peak = choose|peak: int| #[trigger]
        is_peak(histograms, peak, 161) && is_tone_at(histograms, peak, tone);
    let samples = shared_samples(histograms, peak, 4);
    assert forall|at: int| 0 <= at < samples.len() implies {
        let pixel = #[trigger] samples[at];
        &&& low.r <= pixel.r <= high.r
        &&& low.g <= pixel.g <= high.g
        &&& low.b <= pixel.b <= high.b
    } by {
        let pixel = samples[at];
        shared_pixels_come_from_their_slots(histograms, peak, 4, pixel);
        assert(samples.contains(pixel));
        let slot = choose|slot: int|
            0 <= slot < 4 && #[trigger] has_gray(histograms[slot], peak)
                && histograms[slot].samples@.contains(pixel);
        let place = choose|place: int|
            0 <= place < histograms[slot].samples@.len() && histograms[slot].samples@[place]
                == pixel;
        assert(histograms[slot].samples@[place] == pixel);
    }
    medians_lie_between(
        samples,
        ToneChannel::Red,
        tone.twice_rgb[0] as int,
        low.r as int,
        high.r as int,
    );
    medians_lie_between(
        samples,
        ToneChannel::Green,
        tone.twice_rgb[1] as int,
        low.g as int,
        high.g as int,
    );
    medians_lie_between(
        samples,
        ToneChannel::Blue,
        tone.twice_rgb[2] as int,
        low.b as int,
        high.b as int,
    );
    medians_lie_between(
        samples,
        ToneChannel::Gray,
        tone.twice_gray as int,
        gray_of(low),
        gray_of(high),
    );
}

/// The shared gray is the one of which three slots have most: at no other one from 4 to 160 is the
/// third highest share of the slots higher, and a gray that all slots have more of is preferred.
pub proof fn the_strongest_gray_is_shared(histograms: Seq<GrayHistogram>, peak: int, other: int)
    requires
        is_peak(histograms, peak, 161),
        4 <= other <= 160,
    ensures
        4 <= peak <= 160,
        ({
            let (a, b) = (peak, other);
            let of = |at: int, gray: int| share(
                histograms[at].bins@[gray - 1] + 2 * histograms[at].bins@[gray]
                    + histograms[at].bins@[gray + 1],
                4 * histograms[at].area,
            );
            !(of(0, a) < of(0, b) && of(1, a) < of(1, b) && of(2, a) < of(2, b) && of(3, a) < of(
                3,
                b,
            ))
        }),
        other < peak ==> is_stronger(histograms, peak, other),
        other > peak ==> !is_stronger(histograms, other, peak),
{
    if other < peak {
        assert(is_stronger(histograms, peak, other));
    } else if other > peak {
        assert(!is_stronger(histograms, other, peak));
    }
}

/// A slot has a gray where at least three of ten of its pixels have it or one next to it.
pub proof fn three_pixels_in_ten_make_a_gray(histogram: GrayHistogram, gray: int)
    requires
        is_slot_histogram(histogram),
        4 <= gray <= 160,
        histogram.area < 0x10_0000,
    ensures
        ({
            let near = histogram.bins@[gray - 1] + histogram.bins@[gray] + histogram.bins@[gray
                + 1];
            &&& has_gray(histogram, gray) ==> 10 * near >= 3 * histogram.area
            &&& 10 * near > 3 * histogram.area ==> has_gray(histogram, gray)
        }),
{
    let near = support(histogram.bins@, gray);
    let area = histogram.area as int;
    let value = share(near, area);
    support_counts_samples(histogram, gray);
    near_gray_counts(histogram.samples@, gray);
    shares_are_close(near, area);
    if value >= MIN_SHARE {
        assert(value * area >= 0x04cc_ccd0_0000_0000 * area) by (nonlinear_arith)
            requires
                value >= 0x04cc_ccd0_0000_0000,
                area > 0,
        ;
    } else {
        assert(value * area <= 0x04cc_ccd0_0000_0000 * area) by (nonlinear_arith)
            requires
                value <= 0x04cc_ccd0_0000_0000,
                area > 0,
        ;
    }
}

/// The peak of a slot is the gray that most of its pixels have.
pub proof fn slot_peaks_are_most_frequent(histogram: GrayHistogram, peak: int, pixels: Seq<Rgba>)
    requires
        histogram.wf(),
        is_slot_peak(histogram, peak),
        histogram.samples@ == pixels,
    ensures
        forall|gray: int|
            4 <= gray <= 160 ==> #[trigger] count_value(pixels, ToneChannel::Gray, gray)
                <= count_value(pixels, ToneChannel::Gray, peak),
{
    assert forall|gray: int| 4 <= gray <= 160 implies #[trigger] count_value(
        pixels,
        ToneChannel::Gray,
        gray,
    ) <= count_value(pixels, ToneChannel::Gray, peak) by {
        values_are_counted(pixels, ToneChannel::Gray, gray);
        values_are_counted(pixels, ToneChannel::Gray, peak);
        assert(histogram.bins@[gray] == count_gray(pixels, gray));
        assert(histogram.bins@[peak] == count_gray(pixels, peak));
        assert(histogram.bins@[gray] <= histogram.bins@[peak]);
    }
}

/// There is one shared gray: no other one is as strong in three of the slots, unless it is brighter
/// and no stronger by itself.
pub proof fn shared_grays_are_unique(histograms: Seq<GrayHistogram>, peak: int, other: int)
    requires
        is_peak(histograms, peak, 161),
        4 <= other <= 160,
    ensures
        shared_strength(histograms, other) <= shared_strength(histograms, peak),
        shared_strength(histograms, other) == shared_strength(histograms, peak) ==> shared_exact(
            histograms,
            other,
        ) <= shared_exact(histograms, peak),
        other < peak && shared_strength(histograms, other) == shared_strength(histograms, peak)
            ==> shared_exact(histograms, other) < shared_exact(histograms, peak),
        is_peak(histograms, other, 161) ==> other == peak,
{
    if other < peak {
        assert(is_stronger(histograms, peak, other));
    } else if other > peak {
        assert(!is_stronger(histograms, other, peak));
        if is_peak(histograms, other, 161) {
            assert(is_stronger(histograms, other, peak));
        }
    }
}

/// A tone is measured just where three slots have the gray: where the slots lack it there is none.
pub proof fn tones_need_three_slots(
    histograms: Seq<GrayHistogram>,
    tone: HomeToneMeasurement,
    error: ToneError,
)
    requires
        is_tone(histograms, tone),
    ensures
        !lacks_support(histograms, error),
{
    let peak = choose|peak: int| #[trigger]
        is_peak(histograms, peak, 161) && is_tone_at(histograms, peak, tone);
    if lacks_support(histograms, error) {
        let other = choose|other: int| #[trigger]
            is_peak(histograms, other, 161) && consensus(histograms, other) < MIN_SHARE && (
            error matches ToneError::InsufficientSupport { support } && support == consensus(
                histograms,
                other,
            ));
        shared_grays_are_unique(histograms, peak, other);
    }
}

} // verus!
