//! Small brightness fingerprints of an image and how far two of them lie apart.
use vstd::prelude::*;

use crate::single::{
    ratio_is_bounded, ratio_is_close, ratio_is_positive, round, round_ratio, single, single_ratio,
    small_numbers_are_kept, whole_ratio_is_kept,
};
use crate::vision::{Frame, Rgba};

verus! {

/// Brightness of a color with the weights of the 601 standard, rounded to the nearest integer.
pub open spec fn luma(r: int, g: int, b: int) -> int {
    (77 * r + 150 * g + 29 * b + 128) / 256
}

pub fn luma601_u8(r: u8, g: u8, b: u8) -> (brightness: u8)
    ensures
        brightness == luma(r as int, g as int, b as int),
{
    ((77 * r as u32 + 150 * g as u32 + 29 * b as u32 + 128) / 256) as u8
}

/// Brightness lies between the darkest and the brightest channel, so a gray keeps its value.
pub proof fn luma_is_between_channels(r: u8, g: u8, b: u8, low: int, high: int)
    requires
        low <= r <= high,
        low <= g <= high,
        low <= b <= high,
    ensures
        low <= luma(r as int, g as int, b as int) <= high,
{
}

/// A brighter channel never lowers the brightness.
pub proof fn luma_is_monotone(r: u8, g: u8, b: u8, brighter_r: u8, brighter_g: u8, brighter_b: u8)
    requires
        r <= brighter_r,
        g <= brighter_g,
        b <= brighter_b,
    ensures
        luma(r as int, g as int, b as int) <= luma(
            brighter_r as int,
            brighter_g as int,
            brighter_b as int,
        ),
{
}

/// Samples per side of an image fingerprint.
pub const ROI_FINGERPRINT_SAMPLES: u32 = 32;

/// The pixel under the middle of the cell at `position` of 32 equal cells along a side.
pub open spec fn cell_middle(position: int, side: int) -> int {
    (2 * position + 1) * side / 64
}

/// Brightness under the middle of each cell of a 32 by 32 grid, row by row.
pub open spec fn fingerprint_of(image: Frame) -> Seq<u8> {
    Seq::new(
        1024,
        |at: int|
            {
                let pixel = image.pixel(
                    cell_middle(at % 32, image.spec_width() as int),
                    cell_middle(at / 32, image.spec_height() as int),
                );
                luma(pixel.r as int, pixel.g as int, pixel.b as int) as u8
            },
    )
}

fn middle_of_cell(position: u32, side: u32) -> (at: u32)
    requires
        position < 32,
        side > 0,
    ensures
        at == cell_middle(position as int, side as int),
        at < side,
{
    assert((2 * position + 1) * side <= 63 * side) by (nonlinear_arith)
        requires
            position < 32,
            side > 0,
    ;
    ((2 * position as u64 + 1) * side as u64 / 64) as u32
}

/// The fingerprint of a non-empty image.
pub fn image_fingerprint(rgba: &Frame) -> (fingerprint: Vec<u8>)
    requires
        rgba.spec_width() > 0,
        rgba.spec_height() > 0,
    ensures
        fingerprint@ == fingerprint_of(*rgba),
{
    let mut fingerprint: Vec<u8> = Vec::new();
    let mut row: u32 = 0;
    while row < ROI_FINGERPRINT_SAMPLES
        invariant
            row <= 32,
            rgba.spec_width() > 0,
            rgba.spec_height() > 0,
            fingerprint@ == fingerprint_of(*rgba).take(32 * row as int),
        decreases 32 - row,
    {
        let y: u32 = middle_of_cell(row, rgba.height());
        let mut col: u32 = 0;
        while col < ROI_FINGERPRINT_SAMPLES
            invariant
                col <= 32,
                row < 32,
                y == cell_middle(row as int, rgba.spec_height() as int),
                y < rgba.spec_height(),
                rgba.spec_width() > 0,
                rgba.spec_height() > 0,
                fingerprint@ == fingerprint_of(*rgba).take(32 * row + col),
            decreases 32 - col,
        {
            let x: u32 = middle_of_cell(col, rgba.width());
            let pixel: Rgba = rgba.get_pixel(x, y);
            let brightness: u8 = luma601_u8(pixel.r, pixel.g, pixel.b);
            proof {
                let at = 32 * row + col;
                assert(at % 32 == col && at / 32 == row as int);
                assert(fingerprint_of(*rgba).take(at + 1) =~= fingerprint_of(*rgba).take(at).push(
                    fingerprint_of(*rgba)[at],
                ));
            }
            fingerprint.push(brightness);
            col = col + 1;
        }
        row = row + 1;
    }
    assert(fingerprint@ =~= fingerprint_of(*rgba));
    fingerprint
}

pub open spec fn difference(left: u8, right: u8) -> nat {
    if left <= right {
        (right - left) as nat
    } else {
        (left - right) as nat
    }
}

/// Sum of the differences at each position of two fingerprints of one length.
pub open spec fn total_difference(left: Seq<u8>, right: Seq<u8>) -> nat
    decreases left.len(),
{
    if left.len() == 0 {
        0
    } else {
        total_difference(left.drop_last(), right.drop_last()) + difference(
            left.last(),
            right.last(),
        )
    }
}

/// The mean difference of two fingerprints, as a sum over a count; infinite if they cannot be
/// compared.
#[derive(Clone, Copy, Debug, PartialEq, Eq, Structural)]
pub enum FingerprintDistance {
    Infinite,
    Mean { total: u64, count: u64 },
}

pub open spec fn distance_of(left: Seq<u8>, right: Seq<u8>) -> FingerprintDistance {
    if left.len() == 0 || left.len() != right.len() {
        FingerprintDistance::Infinite
    } else {
        FingerprintDistance::Mean {
            total: total_difference(left, right) as u64,
            count: left.len() as u64,
        }
    }
}

impl FingerprintDistance {
    /// The mean difference as a ratio of single precision, in units of which 2 to the power of 58
    /// are one.
    pub open spec fn mean(total: int, count: int) -> int {
        single_ratio(0x400_0000_0000_0000 * single(total), single(count))
    }

    /// The mean difference is less than `limit`.
    pub open spec fn below(self, limit: int) -> bool {
        match self {
            FingerprintDistance::Infinite => false,
            FingerprintDistance::Mean { total, count } => count > 0 && Self::mean(
                total as int,
                count as int,
            ) < 0x400_0000_0000_0000 * limit,
        }
    }

    /// The mean difference is at most `limit`.
    pub open spec fn at_most(self, limit: int) -> bool {
        match self {
            FingerprintDistance::Infinite => false,
            FingerprintDistance::Mean { total, count } => count > 0 && Self::mean(
                total as int,
                count as int,
            ) <= 0x400_0000_0000_0000 * limit,
        }
    }

    fn find_mean(total: u64, count: u64) -> (mean: u128)
        requires
            count > 0,
        ensures
            mean == Self::mean(total as int, count as int),
    {
        round_ratio(
            0x400_0000_0000_0000 * round(total as i128) as u128,
            round(count as i128) as u128,
        )
    }

    pub fn is_below(self, limit: u32) -> (below: bool)
        ensures
            below == self.below(limit as int),
    {
        match self {
            FingerprintDistance::Infinite => false,
            FingerprintDistance::Mean { total, count } => count > 0 && Self::find_mean(total, count)
                < 0x400_0000_0000_0000 * limit as u128,
        }
    }

    pub fn is_at_most(self, limit: u32) -> (at_most: bool)
        ensures
            at_most == self.at_most(limit as int),
    {
        match self {
            FingerprintDistance::Infinite => false,
            FingerprintDistance::Mean { total, count } => count > 0 && Self::find_mean(total, count)
                <= 0x400_0000_0000_0000 * limit as u128,
        }
    }
}

proof fn total_difference_is_bounded(left: Seq<u8>, right: Seq<u8>)
    requires
        left.len() == right.len(),
    ensures
        total_difference(left, right) <= 255 * left.len(),
    decreases left.len(),
{
    if left.len() > 0 {
        total_difference_is_bounded(left.drop_last(), right.drop_last());
    }
}

/// The mean difference of two fingerprints.
pub fn fingerprint_distance(left: &Vec<u8>, right: &Vec<u8>) -> (distance: FingerprintDistance)
    requires
        left@.len() <= 0xff_ffff_ffff_ffff,
    ensures
        distance == distance_of(left@, right@),
{
    if left.len() == 0 || left.len() != right.len() {
        return FingerprintDistance::Infinite;
    }
    let mut total: u64 = 0;
    let mut index: usize = 0;
    while index < left.len()
        invariant
            index <= left.len(),
            left@.len() == right@.len(),
            left@.len() <= 0xff_ffff_ffff_ffff,
            total == total_difference(left@.take(index as int), right@.take(index as int)),
        decreases left.len() - index,
    {
        let (l, r) = (left[index], right[index]);
        let step: u8 = if l <= r {
            r - l
        } else {
            l - r
        };
        proof {
            total_difference_is_bounded(left@.take(index as int), right@.take(index as int));
            assert(left@.take(index + 1).drop_last() =~= left@.take(index as int));
            assert(right@.take(index + 1).drop_last() =~= right@.take(index as int));
        }
        total = total + step as u64;
        index = index + 1;
    }
    proof {
        assert(left@.take(left@.len() as int) =~= left@);
        assert(right@.take(right@.len() as int) =~= right@);
    }
    FingerprintDistance::Mean { total, count: left.len() as u64 }
}

/// The distance does not depend on which fingerprint is named first.
pub proof fn distance_is_symmetric(left: Seq<u8>, right: Seq<u8>)
    ensures
        distance_of(left, right) == distance_of(right, left),
{
    if left.len() == right.len() {
        total_difference_is_symmetric(left, right);
    }
}

proof fn total_difference_is_symmetric(left: Seq<u8>, right: Seq<u8>)
    requires
        left.len() == right.len(),
    ensures
        total_difference(left, right) == total_difference(right, left),
    decreases left.len(),
{
    if left.len() > 0 {
        total_difference_is_symmetric(left.drop_last(), right.drop_last());
    }
}

/// A non-empty fingerprint lies at distance zero of itself and of nothing else of its length.
pub proof fn distance_zero_means_equal(left: Seq<u8>, right: Seq<u8>)
    requires
        left.len() > 0,
        left.len() == right.len(),
        left.len() <= 0xff_ffff_ffff_ffff,
    ensures
        distance_of(left, right).at_most(0) <==> left == right,
{
    total_difference_is_bounded(left, right);
    total_zero_means_equal(left, right);
    let (total, count) = (total_difference(left, right) as int, left.len() as int);
    ratio_is_bounded(count, 1);
    ratio_is_positive(count, 1);
    let (sum, whole) = (single(total), single(count));
    if total > 0 {
        ratio_is_positive(total, 1);
        ratio_is_positive(0x400_0000_0000_0000 * sum, whole);
    } else {
        vstd::arithmetic::div_mod::lemma_div_basics(whole);
        vstd::arithmetic::div_mod::lemma_small_mod(0, whole as nat);
        assert(0int / whole == 0);
    }
}

proof fn total_zero_means_equal(left: Seq<u8>, right: Seq<u8>)
    requires
        left.len() == right.len(),
    ensures
        total_difference(left, right) == 0 <==> left == right,
    decreases left.len(),
{
    if left.len() > 0 {
        total_zero_means_equal(left.drop_last(), right.drop_last());
        if left.drop_last() == right.drop_last() && left.last() == right.last() {
            assert(left =~= right) by {
                assert(left =~= left.drop_last().push(left.last()));
                assert(right =~= right.drop_last().push(right.last()));
            }
        }
    } else {
        assert(left =~= right);
    }
}

/// Green weighs more than red in the brightness, and red more than blue: 150, 77 and 29 of 256 parts.
pub proof fn channels_weigh_unequally(value: u8)
    ensures
        luma(0, value as int, 0) >= luma(value as int, 0, 0) >= luma(0, 0, value as int),
        luma(value as int, value as int, value as int) == value,
        luma(255, 0, 0) == 77,
        luma(0, 255, 0) == 149,
        luma(0, 0, 255) == 29,
        luma(0, 0, 0) == 0,
        luma(255, 255, 255) == 255,
{
}

/// The cells of a fingerprint lie side by side over the whole side, and each is sampled inside it.
pub proof fn cells_are_sampled_inside(position: int, side: int)
    requires
        0 <= position < 32,
        32 <= side,
    ensures
        0 <= cell_middle(position, side) < side,
        position * side - 32 < 32 * cell_middle(position, side) < (position + 1) * side,
        2 * (32 * cell_middle(position, side)) <= (2 * position + 1) * side < 2 * (32 * (cell_middle(
            position,
            side,
        ) + 1)),
{
    let scaled = (2 * position + 1) * side;
    assert(scaled == 2 * (position * side) + side && (position + 1) * side == position * side + side
        && 0 <= position * side && (position + 1) * side <= 32 * side) by (nonlinear_arith)
        requires
            scaled == (2 * position + 1) * side,
            0 <= position < 32,
            32 <= side,
    ;
}

/// A fingerprint has one value for each cell of a grid of 32 by 32, row by row: the brightness of the
/// pixel in the middle of the cell.
pub proof fn fingerprints_sample_a_grid(image: Frame, col: int, row: int)
    requires
        0 <= col < 32,
        0 <= row < 32,
    ensures
        fingerprint_of(image).len() == 32 * 32,
        ({
            let pixel = image.pixel(
                (2 * col + 1) * image.spec_width() / 64,
                (2 * row + 1) * image.spec_height() / 64,
            );
            fingerprint_of(image)[32 * row + col] == luma(
                pixel.r as int,
                pixel.g as int,
                pixel.b as int,
            )
        }),
{
    let at = 32 * row + col;
    assert(at % 32 == col && at / 32 == row);
    let pixel = image.pixel(
        cell_middle(col, image.spec_width() as int),
        cell_middle(row, image.spec_height() as int),
    );
    luma_is_between_channels(pixel.r, pixel.g, pixel.b, 0, 255);
}

/// The differences of two fingerprints add up, whichever is larger at a place.
pub proof fn differences_add_up(left: Seq<u8>, right: Seq<u8>, more: u8, other: u8)
    requires
        left.len() == right.len(),
    ensures
        total_difference(left.push(more), right.push(other)) == total_difference(left, right) + (
        if more > other {
            more - other
        } else {
            other - more
        }),
        total_difference(Seq::empty(), Seq::empty()) == 0,
        left.len() > 0 ==> distance_of(left, right) == (FingerprintDistance::Mean {
            total: total_difference(left, right) as u64,
            count: left.len() as u64,
        }),
        left.len() == 0 ==> distance_of(left, right) is Infinite,
        distance_of(left.push(more), right) is Infinite,
{
    assert(left.push(more).drop_last() =~= left);
    assert(right.push(other).drop_last() =~= right);
}

/// For fingerprints of usual length the mean difference is compared as it is: a mean below or up to
/// a limit is a sum below or up to the limit times the length.
pub proof fn means_are_compared_with_the_limit(total: u64, count: u64, limit: int)
    requires
        0 < count <= 0x1_0000,
        total <= 255 * count,
        1 <= limit <= 255,
    ensures
        (FingerprintDistance::Mean { total, count }).below(limit) <==> total < limit * count,
        (FingerprintDistance::Mean { total, count }).at_most(limit) <==> total <= limit * count,
        !FingerprintDistance::Infinite.below(limit),
        !FingerprintDistance::Infinite.at_most(limit),
{
    let unit: int = 0x400_0000_0000_0000;
    let (n, d) = (unit * total as int, count as int);
    small_numbers_are_kept(total as int);
    small_numbers_are_kept(count as int);
    let bound = limit * count;
    assert(0 < bound <= 255 * 0x1_0000) by (nonlinear_arith)
        requires
            bound == limit * count,
            1 <= limit <= 255,
            0 < count <= 0x1_0000,
    ;
    assert((unit * limit) * d == unit * bound) by (nonlinear_arith)
        requires
            bound == limit * d,
    ;
    let ratio = single_ratio(n, d);
    if total == bound {
        assert(n == (unit * limit) * d);
        whole_ratio_is_kept(unit * limit, d, limit);
    } else if total == 0 {
        assert(0int / d == 0 && 0int % d == 0) by (nonlinear_arith)
            requires
                0 < d,
        ;
    } else {
        assert(n >= 0x80_0000 * d);
        ratio_is_close(n, d);
        if total < bound {
            assert(n + unit <= (unit * limit) * d);
            assert(ratio < unit * limit) by (nonlinear_arith)
                requires
                    0x100_0000 * (ratio * d - n) <= n,
                    n + unit <= (unit * limit) * d,
                    n <= unit * (255 * 0x1_0000),
                    unit == 0x400_0000_0000_0000,
                    0 < d,
            ;
        } else {
            assert(n >= (unit * limit) * d + unit);
            assert(ratio > unit * limit) by (nonlinear_arith)
                requires
                    -n <= 0x100_0000 * (ratio * d - n),
                    n >= (unit * limit) * d + unit,
                    n <= unit * (255 * 0x1_0000),
                    unit == 0x400_0000_0000_0000,
                    0 < d,
            ;
        }
    }
}

} // verus!
