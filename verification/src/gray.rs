//! The brightness of a whole image, at a size of choice.
use vstd::prelude::*;

use fast_image_resize::{FilterType, ResizeAlg, ResizeOptions, Resizer};
use image::GrayImage;

use crate::assets::ResizeFailed;
use crate::fingerprint::{luma, luma601_u8};
use crate::vision::Frame;

verus! {

/// An image of brightness values.
#[derive(Debug)]
pub struct GrayFrame {
    width: u32,
    height: u32,
    values: Vec<u8>,
}

/// The brightness of the first `count` pixels of an image, row by row.
pub open spec fn luma_values(image: Frame, count: int) -> Seq<u8>
    decreases count,
{
    if count <= 0 {
        Seq::empty()
    } else {
        let at = 4 * (count - 1);
        luma_values(image, count - 1).push(
            luma(
                image.samples()[at] as int,
                image.samples()[at + 1] as int,
                image.samples()[at + 2] as int,
            ) as u8,
        )
    }
}

proof fn luma_values_length(image: Frame, count: int)
    requires
        0 <= count,
    ensures
        luma_values(image, count).len() == count,
    decreases count,
{
    if count > 0 {
        luma_values_length(image, count - 1);
    }
}

impl GrayFrame {
    pub closed spec fn spec_width(&self) -> u32 {
        self.width
    }

    pub closed spec fn spec_height(&self) -> u32 {
        self.height
    }

    pub closed spec fn spec_values(&self) -> Seq<u8> {
        self.values@
    }

    #[verifier::type_invariant]
    spec fn sized(&self) -> bool {
        self.values@.len() == self.width as int * self.height as int
    }

    pub fn width(&self) -> (width: u32)
        ensures
            width == self.spec_width(),
    {
        self.width
    }

    pub fn height(&self) -> (height: u32)
        ensures
            height == self.spec_height(),
    {
        self.height
    }

    /// The brightness of the pixels, row by row.
    pub fn values(&self) -> (values: &Vec<u8>)
        ensures
            values@ == self.spec_values(),
            values@.len() == self.spec_width() as int * self.spec_height() as int,
    {
        proof {
            use_type_invariant(self);
        }
        &self.values
    }

    /// The brightness of an image.
    pub fn of_image(image: &Frame) -> (gray: Self)
        ensures
            gray.spec_width() == image.spec_width(),
            gray.spec_height() == image.spec_height(),
            gray.spec_values() == luma_values(
                *image,
                image.spec_width() as int * image.spec_height() as int,
            ),
    {
        let samples = image.as_raw();
        let ghost count = image.spec_width() as int * image.spec_height() as int;
        let mut values: Vec<u8> = Vec::new();
        let mut at: usize = 0;
        while at < samples.len()
            invariant
                samples@ == image.samples(),
                samples@.len() == 4 * count,
                at == 4 * values@.len(),
                at <= samples@.len(),
                values@ == luma_values(*image, values@.len() as int),
            decreases samples@.len() - at,
        {
            assert(samples@.len() == samples.len());
            values.push(luma601_u8(samples[at], samples[at + 1], samples[at + 2]));
            at = at + 4;
        }
        proof {
            luma_values_length(*image, count);
        }
        GrayFrame { width: image.width(), height: image.height(), values }
    }
}

/// The values are ones that `fast_image_resize` can make of an image with its Lanczos filter:
/// given are the values, the width and the height of the source, the width and the height of the
/// result, and its values. A relation and not one result: the filter takes its weights from the
/// sine of the machine, whose precision is not fixed.
pub uninterp spec fn lanczos_gives(
    values: Seq<u8>,
    width: u32,
    height: u32,
    new_width: u32,
    new_height: u32,
    resized: Seq<u8>,
) -> bool;

/// Resizes with `fast_image_resize::Resizer::resize` and its Lanczos filter. The claim is that it
/// succeeds, which it does for any two images of the same pixel type where nothing is cropped, that
/// the result has the requested size, and that it is one that the filter makes of the arguments.
/// Which one is left unsaid: it rests on the sine of the machine.
#[verifier::external_body]
fn resize_lanczos(values: Vec<u8>, width: u32, height: u32, new_width: u32, new_height: u32) -> (
result: Result<Vec<u8>, fast_image_resize::ResizeError>)
    requires
        values@.len() == width as int * height as int,
        new_width as int * new_height as int <= usize::MAX / 2,
    ensures
        result is Ok,
        result matches Ok(resized) ==> resized@.len() == new_width as int * new_height as int,
        result matches Ok(resized) ==> lanczos_gives(
            values@,
            width,
            height,
            new_width,
            new_height,
            resized@,
        ),
{
    let source = GrayImage::from_raw(width, height, values).expect("a value for every pixel");
    let mut destination = GrayImage::new(new_width, new_height);
    let options = ResizeOptions::new().resize_alg(ResizeAlg::Convolution(FilterType::Lanczos3));
    Resizer::new().resize(&source, &mut destination, &options)?;
    Ok(destination.into_raw())
}

/// The image has the given size and shows the values of a source: those values themselves if the
/// source has that size already, and otherwise what the Lanczos filter makes of them.
pub open spec fn is_gray_at(
    image: GrayFrame,
    values: Seq<u8>,
    source_width: u32,
    source_height: u32,
    width: u32,
    height: u32,
) -> bool {
    &&& image.spec_width() == width
    &&& image.spec_height() == height
    &&& if source_width == width && source_height == height {
        image.spec_values() == values
    } else {
        lanczos_gives(
            values,
            source_width,
            source_height,
            width,
            height,
            image.spec_values(),
        )
    }
}

/// An image of another size. An image that already has the size is kept as it is.
pub fn resize_l8_lanczos(source: GrayFrame, width: u32, height: u32) -> (resized: Result<
    GrayFrame,
    ResizeFailed,
>)
    requires
        width as int * height as int <= usize::MAX / 2,
    ensures
        resized matches Ok(image) && is_gray_at(
            image,
            source.spec_values(),
            source.spec_width(),
            source.spec_height(),
            width,
            height,
        ),
{
    if source.width == width && source.height == height {
        return Ok(source);
    }
    proof {
        use_type_invariant(&source);
    }
    match resize_lanczos(source.values, source.width, source.height, width, height) {
        Ok(values) => Ok(GrayFrame { width, height, values }),
        Err(_) => Err(ResizeFailed),
    }
}

/// The brightness of an image at the reference size.
pub fn luma_canonical(image: &Frame, width: u32, height: u32) -> (gray: Result<
    GrayFrame,
    ResizeFailed,
>)
    requires
        width as int * height as int <= usize::MAX / 2,
    ensures
        gray matches Ok(found) && is_gray_at(
            found,
            luma_values(*image, image.spec_width() as int * image.spec_height() as int),
            image.spec_width(),
            image.spec_height(),
            width,
            height,
        ),
{
    resize_l8_lanczos(GrayFrame::of_image(image), width, height)
}

/// The brightness of a pixel stands at its place, row by row, and comes from its red, green and blue.
pub proof fn pixels_keep_their_place(image: Frame, x: int, y: int)
    requires
        0 <= x < image.spec_width(),
        0 <= y < image.spec_height(),
    ensures
        ({
            let count = image.spec_width() as int * image.spec_height() as int;
            let pixel = image.pixel(x, y);
            &&& luma_values(image, count).len() == count
            &&& 0 <= y * image.spec_width() + x < count
            &&& luma_values(image, count)[y * image.spec_width() + x] == luma(
                pixel.r as int,
                pixel.g as int,
                pixel.b as int,
            ) as u8
        }),
{
    let width = image.spec_width() as int;
    let height = image.spec_height() as int;
    assert(0 <= y * width + x < width * height) by (nonlinear_arith)
        requires
            0 <= x < width,
            0 <= y < height,
    ;
    luma_values_length(image, width * height);
    luma_values_stand_in_order(image, width * height, y * width + x);
}

proof fn luma_values_stand_in_order(image: Frame, count: int, at: int)
    requires
        0 <= at < count,
    ensures
        luma_values(image, count).len() == count,
        luma_values(image, count)[at] == luma(
            image.samples()[4 * at] as int,
            image.samples()[4 * at + 1] as int,
            image.samples()[4 * at + 2] as int,
        ) as u8,
    decreases count,
{
    luma_values_length(image, count);
    luma_values_length(image, count - 1);
    if at < count - 1 {
        luma_values_stand_in_order(image, count - 1, at);
    }
}

/// An image that already has the size keeps its values; another one has one value for each pixel of
/// its size.
pub proof fn images_of_the_size_are_kept(image: GrayFrame, values: Seq<u8>, width: u32, height: u32)
    requires
        is_gray_at(image, values, width, height, width, height),
    ensures
        image.spec_values() == values,
        image.spec_width() == width,
        image.spec_height() == height,
{
}

} // verus!
