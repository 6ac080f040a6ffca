//! Observations of the loadout screen: images, slots and what was recognized in them.
use vstd::prelude::*;
use vstd::string::*;

use crate::item::ItemKind;
use crate::slot::{SlotKind, SlotLayout};

verus! {

/// A rectangle of whole pixels.
#[derive(Clone, Copy, Debug, PartialEq, Eq, Structural)]
pub struct ImageRect {
    pub x: u32,
    pub y: u32,
    pub w: u32,
    pub h: u32,
}

/// Slot centers are counted in steps of this fraction of a pixel, so that every number of single
/// precision from half a pixel on is a whole number of steps.
pub const SUBPIXELS: u64 = 0x100_0000;

/// Rank of a single precision number, given by its bits, in the total order of such numbers:
/// negative before positive, and in the order of the values within each sign.
pub open spec fn order_rank(bits: u32) -> int {
    if bits < 0x8000_0000 {
        bits as int
    } else {
        -(bits - 0x8000_0000) - 1
    }
}

/// The number that stands for a recognition score, given by its bits, wherever scores are compared.
pub fn order_key(bits: u32) -> (key: i32)
    ensures
        key == order_rank(bits),
{
    if bits < 0x8000_0000 {
        bits as i32
    } else {
        -((bits - 0x8000_0000) as i32) - 1
    }
}

/// Two different bit patterns never share a rank, so the ranks form a total order of the scores.
pub proof fn order_rank_is_injective(left: u32, right: u32)
    requires
        order_rank(left) == order_rank(right),
    ensures
        left == right,
{
}

/// Whether a recognized item can still be picked.
#[derive(Clone, Copy, Debug, PartialEq, Eq, Structural)]
pub enum ItemAvailability {
    Available,
    Unavailable,
}

/// What was recognized in a slot. Scores are held by their order keys.
#[derive(Debug)]
pub struct Classification {
    pub item_id: String,
    pub match_score: i32,
    /// Difference between the best and the second best template.
    pub match_margin: i32,
    /// Surplus above the weaker acceptance gate.
    pub gate_quality: i32,
    pub availability: ItemAvailability,
}

impl Clone for Classification {
    fn clone(&self) -> (copy: Self)
        ensures
            copy == *self,
    {
        Classification {
            item_id: self.item_id.clone(),
            match_score: self.match_score,
            match_margin: self.match_margin,
            gate_quality: self.gate_quality,
            availability: self.availability,
        }
    }
}

/// A detected slot: its frame in whole pixels, its center in subpixels, and its place in the grid.
#[derive(Debug)]
pub struct Slot {
    pub x: u32,
    pub y: u32,
    pub w: u32,
    pub h: u32,
    pub center_x: u64,
    pub center_y: u64,
    pub row: u32,
    pub col: u32,
    pub kind: SlotKind,
    pub classification: Option<Classification>,
}

/// The whole pixel nearest to a subpixel coordinate, halves rounded up, as far as pixels are counted.
pub open spec fn nearest_pixel(coordinate: int) -> int {
    if (coordinate + 0x80_0000) / 0x100_0000 <= 0xffff_ffff {
        (coordinate + 0x80_0000) / 0x100_0000
    } else {
        0xffff_ffff
    }
}

fn round_to_pixel(coordinate: u64) -> (pixel: u32)
    ensures
        pixel == nearest_pixel(coordinate as int),
{
    let nearest: u128 = (coordinate as u128 + 0x80_0000) / 0x100_0000;
    if nearest <= 0xffff_ffff {
        nearest as u32
    } else {
        0xffff_ffff
    }
}

impl Slot {
    pub open spec fn spec_center(self) -> (int, int) {
        (nearest_pixel(self.center_x as int), nearest_pixel(self.center_y as int))
    }

    /// The pixel to aim at.
    pub fn center(&self) -> (point: (u32, u32))
        ensures
            point.0 == self.spec_center().0,
            point.1 == self.spec_center().1,
    {
        (round_to_pixel(self.center_x), round_to_pixel(self.center_y))
    }

    /// The item recognized in the slot.
    pub open spec fn item(self) -> Option<Seq<char>> {
        match self.classification {
            Some(classification) => Some(classification.item_id@),
            None => None,
        }
    }

    /// Whether `item_id` was recognized in the slot and can be picked from a list of `item_kind`.
    pub open spec fn shows(self, item_id: Seq<char>, item_kind: ItemKind) -> bool {
        self.kind.selectable_for(item_kind) && self.item() == Some(item_id)
    }
}

impl Clone for Slot {
    fn clone(&self) -> (copy: Self)
        ensures
            copy == *self,
    {
        let classification = match &self.classification {
            Some(classification) => Some(classification.clone()),
            None => None,
        };
        Slot {
            x: self.x,
            y: self.y,
            w: self.w,
            h: self.h,
            center_x: self.center_x,
            center_y: self.center_y,
            row: self.row,
            col: self.col,
            kind: self.kind,
            classification,
        }
    }
}

/// An image of eight bit red, green, blue and alpha samples, row by row from the top.
#[derive(Debug)]
pub struct Frame {
    width: u32,
    height: u32,
    data: Vec<u8>,
}

/// The samples of one pixel.
#[derive(Clone, Copy, Debug, PartialEq, Eq, Structural)]
pub struct Rgba {
    pub r: u8,
    pub g: u8,
    pub b: u8,
    pub a: u8,
}

/// Where the samples of the pixel at (`x`, `y`) start in an image `width` pixels wide.
pub open spec fn pixel_offset(width: int, x: int, y: int) -> int {
    4 * (y * width + x)
}

pub open spec fn pixel_at(data: Seq<u8>, width: int, x: int, y: int) -> Rgba {
    let at = pixel_offset(width, x, y);
    Rgba { r: data[at], g: data[at + 1], b: data[at + 2], a: data[at + 3] }
}

impl Frame {
    pub closed spec fn spec_width(&self) -> u32 {
        self.width
    }

    pub closed spec fn spec_height(&self) -> u32 {
        self.height
    }

    pub closed spec fn samples(&self) -> Seq<u8> {
        self.data@
    }

    #[verifier::type_invariant]
    spec fn sized(&self) -> bool {
        self.data@.len() == 4 * (self.width as int * self.height as int)
    }

    pub open spec fn pixel(&self, x: int, y: int) -> Rgba {
        pixel_at(self.samples(), self.spec_width() as int, x, y)
    }

    /// An image over `data`, if it holds exactly the samples of `width` times `height` pixels.
    pub fn from_raw(width: u32, height: u32, data: Vec<u8>) -> (frame: Option<Frame>)
        ensures
            frame is Some <==> data@.len() == 4 * (width as int * height as int),
            frame matches Some(image) ==> image.spec_width() == width && image.spec_height()
                == height && image.samples() == data@,
    {
        assert(width as int * height as int <= 0xffff_ffff * 0xffff_ffff) by (nonlinear_arith)
            requires
                0 <= width <= 0xffff_ffff,
                0 <= height <= 0xffff_ffff,
        ;
        assert(width as int * height as int >= 0) by (nonlinear_arith)
            requires
                0 <= width <= 0xffff_ffff,
                0 <= height <= 0xffff_ffff,
        ;
        let pixels: u64 = width as u64 * height as u64;
        if data.len() as u128 == 4 * pixels as u128 {
            Some(Frame { width, height, data })
        } else {
            None
        }
    }

    /// An image over the samples of `width` times `height` pixels.
    pub(crate) fn from_samples(width: u32, height: u32, data: Vec<u8>) -> (image: Frame)
        requires
            data@.len() == 4 * (width as int * height as int),
        ensures
            image.spec_width() == width,
            image.spec_height() == height,
            image.samples() == data@,
    {
        Frame { width, height, data }
    }

    /// A copy of the samples.
    pub(crate) fn copy_samples(&self) -> (copy: Vec<u8>)
        ensures
            copy@ == self.samples(),
            copy@.len() == 4 * (self.spec_width() as int * self.spec_height() as int),
    {
        proof {
            use_type_invariant(self);
        }
        let mut copy: Vec<u8> = Vec::new();
        let mut index: usize = 0;
        while index < self.data.len()
            invariant
                index <= self.data@.len(),
                copy@ == self.data@.take(index as int),
            decreases self.data@.len() - index,
        {
            copy.push(self.data[index]);
            index = index + 1;
            assert(self.data@.take(index as int) =~= self.data@.take(index - 1).push(
                self.data@[index - 1],
            ));
        }
        assert(self.data@.take(self.data@.len() as int) =~= self.data@);
        copy
    }

    /// A copy of the image.
    pub fn duplicate(&self) -> (copy: Frame)
        ensures
            copy.spec_width() == self.spec_width(),
            copy.spec_height() == self.spec_height(),
            copy.samples() == self.samples(),
    {
        Frame { width: self.width, height: self.height, data: self.copy_samples() }
    }

    /// The samples of the pixels, row by row.
    pub fn as_raw(&self) -> (samples: &Vec<u8>)
        ensures
            samples@ == self.samples(),
            samples@.len() == 4 * (self.spec_width() as int * self.spec_height() as int),
    {
        proof {
            use_type_invariant(self);
        }
        &self.data
    }

    pub fn width(&self) -> (width: u32)
        ensures
            width == self.spec_width(),
    {
        self.width
    }

    pub fn height(&self) -> (height: u32)
        ensures
            height == self.spec_height(),
    {
        self.height
    }

    pub fn get_pixel(&self, x: u32, y: u32) -> (pixel: Rgba)
        requires
            x < self.spec_width(),
            y < self.spec_height(),
        ensures
            pixel == self.pixel(x as int, y as int),
    {
        proof {
            use_type_invariant(self);
            assert(self.data@.len() == self.data.len());
            let (w, h, xi, yi) = (
                self.width as int,
                self.height as int,
                x as int,
                y as int,
            );
            assert(0 <= yi * w && yi * w + xi < w * h) by (nonlinear_arith)
                requires
                    0 <= xi < w,
                    0 <= yi < h,
            ;
        }
        let at: usize = 4 * (y as usize * self.width as usize + x as usize);
        Rgba { r: self.data[at], g: self.data[at + 1], b: self.data[at + 2], a: self.data[at + 3] }
    }
}

/// The part of an image inside `rect`.
pub open spec fn cropped(image: Frame, rect: ImageRect) -> Seq<u8> {
    Seq::new(
        (4 * (rect.w as int * rect.h as int)) as nat,
        |at: int|
            image.samples()[pixel_offset(
                image.spec_width() as int,
                rect.x + (at / 4) % (rect.w as int),
                rect.y + (at / 4) / (rect.w as int),
            ) + at % 4],
    )
}

/// `rect` lies inside the image.
pub open spec fn inside(image: Frame, rect: ImageRect) -> bool {
    rect.x + rect.w <= image.spec_width() && rect.y + rect.h <= image.spec_height()
}

impl Frame {
    /// A copy of the part of the image inside `rect`, if `rect` lies inside the image.
    pub fn crop(&self, rect: ImageRect) -> (part: Option<Frame>)
        ensures
            part is Some <==> inside(*self, rect),
            part matches Some(image) ==> {
                &&& image.spec_width() == rect.w
                &&& image.spec_height() == rect.h
                &&& image.samples() == cropped(*self, rect)
            },
    {
        if rect.x as u64 + rect.w as u64 > self.width as u64 || rect.y as u64 + rect.h as u64
            > self.height as u64 {
            return None;
        }
        let ghost expected = cropped(*self, rect);
        let mut data: Vec<u8> = Vec::new();
        let mut y: u32 = 0;
        proof {
            assert(rect.w as int * 0 == 0);
            assert(expected.take(0) =~= data@);
        }
        while y < rect.h
            invariant
                y <= rect.h,
                inside(*self, rect),
                expected == cropped(*self, rect),
                0 <= 4 * (rect.w as int * y as int) <= expected.len(),
                data@ == expected.take(4 * (rect.w as int * y as int)),
            decreases rect.h - y,
        {
            let mut x: u32 = 0;
            proof {
                let (w, h, yi) = (rect.w as int, rect.h as int, y as int);
                assert(w * (yi + 1) == w * yi + w && w * (yi + 1) <= w * h) by (nonlinear_arith)
                    requires
                        0 <= w,
                        0 <= yi < h,
                ;
            }
            while x < rect.w
                invariant
                    x <= rect.w,
                    y < rect.h,
                    inside(*self, rect),
                    expected == cropped(*self, rect),
                    0 <= rect.w as int * y as int,
                    4 * (rect.w as int * y as int) + 4 * rect.w <= expected.len(),
                    data@ == expected.take(4 * (rect.w as int * y as int) + 4 * x),
                decreases rect.w - x,
            {
                let pixel = self.get_pixel(rect.x + x, rect.y + y);
                let ghost at = 4 * (rect.w as int * y as int) + 4 * x;
                data.push(pixel.r);
                data.push(pixel.g);
                data.push(pixel.b);
                data.push(pixel.a);
                proof {
                    let (w, xi, yi) = (rect.w as int, x as int, y as int);
                    assert(at / 4 == w * yi + xi);
                    assert((w * yi + xi) % w == xi && (w * yi + xi) / w == yi)
                        by (nonlinear_arith)
                        requires
                            0 <= xi < w,
                            0 <= yi,
                    ;
                    assert((at + 1) / 4 == at / 4 && (at + 2) / 4 == at / 4 && (at + 3) / 4 == at
                        / 4);
                    assert(at % 4 == 0 && (at + 1) % 4 == 1 && (at + 2) % 4 == 2 && (at + 3) % 4
                        == 3);
                    assert(expected.take(at + 4) =~= expected.take(at).push(expected[at]).push(
                        expected[at + 1],
                    ).push(expected[at + 2]).push(expected[at + 3]));
                }
                x = x + 1;
            }
            proof {
                let (w, yi) = (rect.w as int, y as int);
                assert(w * (yi + 1) == w * yi + w) by (nonlinear_arith);
            }
            y = y + 1;
        }
        assert(expected.take(expected.len() as int) =~= expected);
        proof {
            let (w, h) = (rect.w as int, rect.h as int);
            assert(w * h >= 0) by (nonlinear_arith)
                requires
                    w >= 0,
                    h >= 0,
            ;
        }
        Some(Frame { width: rect.w, height: rect.h, data })
    }
}

/// Each pixel of a cropped image is the pixel at the same place of the cropped part.
pub proof fn crop_keeps_pixels(image: Frame, rect: ImageRect, x: int, y: int)
    requires
        0 <= x < rect.w,
        0 <= y < rect.h,
        inside(image, rect),
    ensures
        pixel_at(cropped(image, rect), rect.w as int, x, y) == image.pixel(rect.x + x, rect.y + y),
{
    let (w, h) = (rect.w as int, rect.h as int);
    let at = pixel_offset(w, x, y);
    assert(0 <= y * w && y * w + x < w * h) by (nonlinear_arith)
        requires
            0 <= x < w,
            0 <= y < h,
    ;
    assert((y * w + x) % w == x && (y * w + x) / w == y) by (nonlinear_arith)
        requires
            0 <= x < w,
            0 <= y,
    ;
    assert(at / 4 == y * w + x && (at + 1) / 4 == y * w + x && (at + 2) / 4 == y * w + x && (at + 3)
        / 4 == y * w + x);
    assert(at % 4 == 0 && (at + 1) % 4 == 1 && (at + 2) % 4 == 2 && (at + 3) % 4 == 3);
}

/// One recognized look at the screen region of the loadout.
#[derive(Debug)]
pub struct RoiObservation {
    pub image: Frame,
    pub layout: SlotLayout,
    pub slots: Vec<Slot>,
}

/// The pixels of an image follow each other row by row, each with four samples: red, green, blue and
/// alpha.
pub proof fn pixels_follow_each_other(data: Seq<u8>, width: int, x: int, y: int)
    requires
        0 < width,
    ensures
        pixel_offset(width, 0, 0) == 0,
        pixel_offset(width, x + 1, y) == pixel_offset(width, x, y) + 4,
        pixel_offset(width, 0, y + 1) == pixel_offset(width, width - 1, y) + 4,
        ({
            let pixel = pixel_at(data, width, x, y);
            let at = pixel_offset(width, x, y);
            seq![pixel.r, pixel.g, pixel.b, pixel.a] == seq![
                data[at],
                data[at + 1],
                data[at + 2],
                data[at + 3],
            ]
        }),
{
    assert((y + 1) * width == y * width + width) by (nonlinear_arith);
}

/// The pixel to aim at is at most half a pixel off the center.
pub proof fn aimed_pixels_are_near(slot: Slot)
    ensures
        slot.center_x <= 0xff_ffff_ff00_0000 ==> slot.center_x - 0x80_0000 < slot.spec_center().0
            * 0x100_0000 <= slot.center_x + 0x80_0000,
        slot.center_y <= 0xff_ffff_ff00_0000 ==> slot.center_y - 0x80_0000 < slot.spec_center().1
            * 0x100_0000 <= slot.center_y + 0x80_0000,
        SUBPIXELS == 0x100_0000,
{
}

/// A rectangle lies in an image just where all its pixels do.
pub proof fn rectangles_lie_inside_with_their_corners(image: Frame, rect: ImageRect)
    requires
        rect.w > 0,
        rect.h > 0,
    ensures
        inside(image, rect) <==> rect.x + (rect.w - 1) < image.spec_width() && rect.y + (rect.h - 1)
            < image.spec_height(),
{
}

/// A slot shows an item where it was recognized in it and the slot can be picked.
pub proof fn shown_items_were_recognized(slot: Slot, item_id: Seq<char>, item_kind: ItemKind)
    ensures
        slot.shows(item_id, item_kind) <==> {
            &&& slot.kind.selectable_for(item_kind)
            &&& slot.classification matches Some(found) && found.item_id@ == item_id
        },
        slot.item() is Some <==> slot.classification is Some,
{
}

/// Of two numbers that are not negative, the one with the larger bits ranks higher; of two negative
/// ones, the one with the smaller bits; and every negative one ranks below the others.
pub proof fn ranks_order_numbers(left: u32, right: u32)
    ensures
        left < 0x8000_0000 && right < 0x8000_0000 ==> (order_rank(left) < order_rank(right) <==> left
            < right),
        left >= 0x8000_0000 && right >= 0x8000_0000 ==> (order_rank(left) < order_rank(right)
            <==> left > right),
        left >= 0x8000_0000 && right < 0x8000_0000 ==> order_rank(left) < order_rank(right),
{
}

/// The nearest pixel is the last that can be counted where the coordinate lies beyond it, and never
/// lies further off than half a pixel where it does not.
pub proof fn far_pixels_are_the_last(coordinate: int)
    requires
        0 <= coordinate,
    ensures
        0 <= nearest_pixel(coordinate) <= 0xffff_ffff,
        coordinate >= 0x100_0000 * 0xffff_ffff ==> nearest_pixel(coordinate) == 0xffff_ffff,
        coordinate < 0x100_0000 * 0xffff_ffff ==> -0x80_0000 < 0x100_0000 * nearest_pixel(coordinate)
            - coordinate <= 0x80_0000,
{
}

} // verus!
