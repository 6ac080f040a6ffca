//! The icons of the overlay.
use vstd::prelude::*;
use vstd::string::*;

use crate::app_events::OverlayPreset;
use crate::assets::{
    box_resized, icon_image, is_png_image, png_fits, png_header_of, png_samples_of,
    resize_rgba_box, IconCatalog, PngError,
};
use crate::presets::texts;
use crate::vision::{Frame, Rgba};

verus! {

/// An icon on the background of the overlay, as blue, green, red and opacity of each pixel.
#[derive(Debug)]
pub struct IconBitmap {
    pub size: u32,
    pub bgra: Vec<u8>,
}

/// The closest length to `short` times `bounds` divided by `long`, halves up, but at least one.
pub open spec fn scaled_side(short: int, bounds: int, long: int) -> int {
    let side = (short * bounds + long / 2) / long;
    if side < 1 {
        1
    } else {
        side
    }
}

/// The size of an image whose longer side is scaled to `bounds`.
pub open spec fn fitted(width: int, height: int, bounds: int) -> (int, int) {
    if width == 0 || height == 0 {
        (bounds, bounds)
    } else if width >= height {
        (bounds, scaled_side(height, bounds, width))
    } else {
        (scaled_side(width, bounds, height), bounds)
    }
}

proof fn scaled_side_fits(short: int, bounds: int, long: int)
    requires
        0 < short <= long,
        0 < bounds,
    ensures
        1 <= scaled_side(short, bounds, long) <= bounds,
        0 <= (short * bounds + long / 2) / long <= bounds,
{
    let sum = short * bounds + long / 2;
    assert(0 <= short * bounds <= long * bounds) by (nonlinear_arith)
        requires
            0 < short <= long,
            0 < bounds,
    ;
    assert(0 <= sum / long) by (nonlinear_arith)
        requires
            0 <= sum,
            0 < long,
    ;
    assert(sum / long <= bounds) by (nonlinear_arith)
        requires
            sum <= long * bounds + long / 2,
            0 < long,
    ;
}

/// A fitted image has at least one pixel and lies inside the bounds.
pub proof fn fitted_lies_inside(width: int, height: int, bounds: int)
    requires
        0 <= width,
        0 <= height,
        0 < bounds,
    ensures
        1 <= fitted(width, height, bounds).0 <= bounds,
        1 <= fitted(width, height, bounds).1 <= bounds,
        fitted(width, height, bounds).0 == bounds || fitted(width, height, bounds).1 == bounds,
{
    if width > 0 && height > 0 {
        if width >= height {
            scaled_side_fits(height, bounds, width);
        } else {
            scaled_side_fits(width, bounds, height);
        }
    }
}

fn scale_side(short: u32, bounds: u32, long: u32) -> (side: u32)
    requires
        0 < short <= long,
        0 < bounds,
    ensures
        side == scaled_side(short as int, bounds as int, long as int),
{
    proof {
        scaled_side_fits(short as int, bounds as int, long as int);
        assert(0 <= short * bounds <= 0xffff_ffff * 0xffff_ffff) by (nonlinear_arith)
            requires
                0 < short <= 0xffff_ffff,
                0 < bounds <= 0xffff_ffff,
        ;
    }
    let side: u32 = ((short as u64 * bounds as u64 + long as u64 / 2) / long as u64) as u32;
    if side < 1 {
        1
    } else {
        side
    }
}

pub fn fit_inside(source_w: u32, source_h: u32, bounds: u32) -> (size: (u32, u32))
    requires
        bounds > 0,
    ensures
        size.0 == fitted(source_w as int, source_h as int, bounds as int).0,
        size.1 == fitted(source_w as int, source_h as int, bounds as int).1,
{
    if source_w == 0 || source_h == 0 {
        return (bounds, bounds);
    }
    if source_w >= source_h {
        (bounds, scale_side(source_h, bounds, source_w))
    } else {
        (scale_side(source_w, bounds, source_h), bounds)
    }
}

/// A sample of this opacity over a background.
pub open spec fn over(sample: int, background: int, opacity: int) -> int {
    (sample * opacity + background * (255 - opacity) + 127) / 255
}

fn blend(sample: u8, background: u8, opacity: u8) -> (result: u8)
    ensures
        result == over(sample as int, background as int, opacity as int),
{
    let ghost left = sample as int * opacity as int;
    let ghost right = background as int * (255 - opacity as int);
    assert(0 <= left && 0 <= right && left + right <= 255 * 255) by (nonlinear_arith)
        requires
            left == sample as int * opacity as int,
            right == background as int * (255 - opacity as int),
            0 <= sample <= 255,
            0 <= background <= 255,
            0 <= opacity <= 255,
    ;
    let product: u32 = sample as u32 * opacity as u32;
    let rest: u32 = background as u32 * (255 - opacity as u32);
    ((product + rest + 127) / 255) as u8
}

/// The pixel of the icon at this place: that of the image that lies in its middle, or clear.
pub open spec fn icon_pixel(image: Frame, size: int, x: int, y: int) -> Rgba {
    let left = (size - image.spec_width()) / 2;
    let top = (size - image.spec_height()) / 2;
    if left <= x < left + image.spec_width() && top <= y < top + image.spec_height() {
        image.pixel(x - left, y - top)
    } else {
        Rgba { r: 0, g: 0, b: 0, a: 0 }
    }
}

/// The bytes of a pixel over the background of the overlay.
pub open spec fn composited(pixel: Rgba) -> Seq<u8> {
    seq![
        over(pixel.b as int, 42, pixel.a as int) as u8,
        over(pixel.g as int, 36, pixel.a as int) as u8,
        over(pixel.r as int, 30, pixel.a as int) as u8,
        255u8,
    ]
}

/// The bytes of the first `count` pixels of the icon, row by row.
pub open spec fn icon_bytes(image: Frame, size: int, count: int) -> Seq<u8>
    decreases count,
{
    if count <= 0 {
        Seq::empty()
    } else {
        icon_bytes(image, size, count - 1) + composited(
            icon_pixel(image, size, (count - 1) % size, (count - 1) / size),
        )
    }
}

proof fn place_of(x: int, y: int, size: int)
    requires
        0 <= x < size,
        0 <= y,
    ensures
        (y * size + x) % size == x,
        (y * size + x) / size == y,
{
    vstd::arithmetic::div_mod::lemma_fundamental_div_mod_converse(y * size + x, size, y, x);
}

proof fn icon_bytes_length(image: Frame, size: int, count: int)
    requires
        0 <= count,
    ensures
        icon_bytes(image, size, count).len() == 4 * count,
    decreases count,
{
    if count > 0 {
        icon_bytes_length(image, size, count - 1);
    }
}

/// Puts an image into the middle of an icon.
pub fn compose_icon(image: &Frame, size: u32) -> (icon: IconBitmap)
    requires
        image.spec_width() <= size,
        image.spec_height() <= size,
        4 * (size as int * size as int) <= usize::MAX / 2,
    ensures
        icon.size == size,
        icon.bgra@ == icon_bytes(*image, size as int, size as int * size as int),
{
    let width = image.width();
    let height = image.height();
    let left: u32 = (size - width) / 2;
    let top: u32 = (size - height) / 2;
    let mut bgra: Vec<u8> = Vec::new();
    let mut y: u32 = 0;
    while y < size
        invariant
            y <= size,
            width == image.spec_width() <= size,
            height == image.spec_height() <= size,
            left == (size - width) / 2,
            top == (size - height) / 2,
            bgra@ == icon_bytes(*image, size as int, y as int * size as int),
        decreases size - y,
    {
        let mut x: u32 = 0;
        while x < size
            invariant
                x <= size,
                y < size,
                width == image.spec_width() <= size,
                height == image.spec_height() <= size,
                left == (size - width) / 2,
                top == (size - height) / 2,
                bgra@ == icon_bytes(*image, size as int, y as int * size as int + x),
            decreases size - x,
        {
            let pixel = if left <= x && x < left + width && top <= y && y < top + height {
                image.get_pixel(x - left, y - top)
            } else {
                Rgba { r: 0, g: 0, b: 0, a: 0 }
            };
            proof {
                place_of(x as int, y as int, size as int);
                assert(y as int * size as int >= 0) by (nonlinear_arith)
                    requires
                        0 <= y,
                        0 <= size,
                ;
            }
            let ghost before = bgra@;
            bgra.push(blend(pixel.b, 42, pixel.a));
            bgra.push(blend(pixel.g, 36, pixel.a));
            bgra.push(blend(pixel.r, 30, pixel.a));
            bgra.push(255);
            assert(bgra@ =~= before + composited(pixel));
            x = x + 1;
        }
        assert((y + 1) * size as int == y as int * size as int + size as int)
            by (nonlinear_arith);
        y = y + 1;
    }
    IconBitmap { size, bgra }
}

/// Why an icon cannot be shown.
#[derive(Clone, Copy, Debug, PartialEq, Eq, Structural)]
pub enum IconError {
    /// The icon has no pixels.
    ZeroSize,
    UnknownItem,
    Png(PngError),
    /// The pixels cannot be held in memory.
    TooLarge,
    /// The resizer failed, which it never does.
    Resize,
}

/// The icon of an image: scaled to fit, put into the middle and laid over the background.
pub open spec fn is_icon(icon: IconBitmap, image: Frame, size: int) -> bool {
    let (width, height) = fitted(
        image.spec_width() as int,
        image.spec_height() as int,
        size,
    );
    &&& icon.size == size
    &&& exists|resized: Frame| #[trigger]
        is_resized(image, resized, width, height) && icon.bgra@ == icon_bytes(
            resized,
            size,
            size * size,
        )
}

/// The image at another size.
pub open spec fn is_resized(image: Frame, resized: Frame, width: int, height: int) -> bool {
    &&& resized.spec_width() == width
    &&& resized.spec_height() == height
    &&& if image.spec_width() == width && image.spec_height() == height {
        resized.samples() == image.samples()
    } else {
        box_resized(
            image.samples(),
            image.spec_width(),
            image.spec_height(),
            width as u32,
            height as u32,
        ) == resized.samples()
    }
}

/// The icon of an image.
pub fn render_image(source: &Frame, icon_size: u32) -> (icon: Result<IconBitmap, IconError>)
    requires
        4 * (icon_size as int * icon_size as int) <= usize::MAX / 2,
    ensures
        match icon {
            Ok(bitmap) => icon_size > 0 && is_icon(bitmap, *source, icon_size as int),
            Err(error) => icon_size == 0 && error == IconError::ZeroSize,
        },
{
    if icon_size == 0 {
        return Err(IconError::ZeroSize);
    }
    let (width, height) = fit_inside(source.width(), source.height(), icon_size);
    proof {
        fitted_lies_inside(
            source.spec_width() as int,
            source.spec_height() as int,
            icon_size as int,
        );
        assert(width as int * height as int <= icon_size as int * icon_size as int)
            by (nonlinear_arith)
            requires
                0 <= width <= icon_size,
                0 <= height <= icon_size,
        ;
    }
    match resize_rgba_box(source, width, height) {
        Ok(resized) => {
            assert(is_resized(*source, resized, width as int, height as int));
            Ok(compose_icon(&resized, icon_size))
        },
        Err(_) => Err(IconError::Resize),
    }
}

/// The icon of an item, from the bytes of its file.
pub fn render_item_icon(
    catalog: &IconCatalog,
    item_id: &String,
    bytes: &Vec<u8>,
    icon_size: u32,
) -> (icon: Result<IconBitmap, IconError>)
    requires
        4 * (icon_size as int * icon_size as int) <= usize::MAX / 2,
    ensures
        ({
            let header = png_header_of(bytes@);
            let samples = png_samples_of(bytes@);
            let known = icon_size > 0 && catalog.entry_of(item_id@) is Some;
            match icon {
                Ok(bitmap) => known && png_fits(header) && exists|image: Frame|
                    is_png_image(Ok::<Frame, PngError>(image), header, samples) && #[trigger]
                    is_icon(bitmap, image, icon_size as int),
                Err(IconError::ZeroSize) => icon_size == 0,
                Err(IconError::UnknownItem) => icon_size > 0 && catalog.entry_of(item_id@) is None,
                Err(IconError::TooLarge) => known && !png_fits(header),
                Err(IconError::Png(error)) => known && png_fits(header) && is_png_image(
                    Err::<Frame, PngError>(error),
                    header,
                    samples,
                ),
                Err(IconError::Resize) => false,
            }
        }),
{
    if icon_size == 0 {
        return Err(IconError::ZeroSize);
    }
    if catalog.get(item_id).is_none() {
        return Err(IconError::UnknownItem);
    }
    match icon_image(bytes) {
        None => Err(IconError::TooLarge),
        Some(Err(error)) => Err(IconError::Png(error)),
        Some(Ok(source)) => {
            let icon = render_image(&source, icon_size);
            assert(is_png_image(
                Ok::<Frame, PngError>(source),
                png_header_of(bytes@),
                png_samples_of(bytes@),
            ));
            icon
        },
    }
}

/// The items of the first `count` rows: of each its stratagems and then its booster.
pub open spec fn shown_items(presets: Seq<OverlayPreset>, count: int) -> Seq<Seq<char>>
    decreases count,
{
    if count <= 0 {
        Seq::empty()
    } else {
        let row = presets[count - 1];
        shown_items(presets, count - 1) + texts(row.stratagems@) + match row.booster {
            Some(booster) => seq![booster@],
            None => Seq::empty(),
        }
    }
}

/// The items that are not among the known ones, each where it first comes.
pub open spec fn missing(items: Seq<Seq<char>>, known: Seq<Seq<char>>) -> Seq<Seq<char>>
    decreases items.len(),
{
    if items.len() == 0 {
        Seq::empty()
    } else {
        let before = missing(items.drop_last(), known);
        if known.contains(items.last()) || before.contains(items.last()) {
            before
        } else {
            before.push(items.last())
        }
    }
}

fn contains(texts_of: &Vec<String>, item: &String) -> (found: bool)
    ensures
        found == texts(texts_of@).contains(item@),
{
    let mut index: usize = 0;
    while index < texts_of.len()
        invariant
            index <= texts_of@.len(),
            forall|at: int| 0 <= at < index ==> #[trigger] texts(texts_of@)[at] != item@,
        decreases texts_of@.len() - index,
    {
        assert(texts(texts_of@)[index as int] == texts_of@[index as int]@);
        if texts_of[index] == *item {
            assert(texts(texts_of@).contains(item@));
            return true;
        }
        index = index + 1;
    }
    false
}

fn add_missing(found: &mut Vec<String>, known: &Vec<String>, item: &String, Ghost(items): Ghost<
    Seq<Seq<char>>,
>)
    requires
        texts(old(found)@) == missing(items, texts(known@)),
    ensures
        texts(final(found)@) == missing(items.push(item@), texts(known@)),
{
    assert(items.push(item@).drop_last() =~= items);
    if !contains(known, item) && !contains(found, item) {
        let ghost before = found@;
        found.push(item.clone());
        assert(texts(found@) =~= texts(before).push(item@));
    }
}

/// The items of the rows whose icons are still to be rendered.
pub fn icons_to_warm(presets: &Vec<OverlayPreset>, known: &Vec<String>) -> (found: Vec<String>)
    ensures
        texts(found@) == missing(shown_items(presets@, presets@.len() as int), texts(known@)),
{
    let mut found: Vec<String> = Vec::new();
    let ghost mut items: Seq<Seq<char>> = Seq::empty();
    let mut row: usize = 0;
    assert(texts(found@) =~= Seq::empty());
    while row < presets.len()
        invariant
            row <= presets@.len(),
            items == shown_items(presets@, row as int),
            texts(found@) == missing(items, texts(known@)),
        decreases presets@.len() - row,
    {
        let preset = &presets[row];
        let ghost start = items;
        let mut index: usize = 0;
        assert(start + texts(preset.stratagems@).take(0) =~= start);
        while index < preset.stratagems.len()
            invariant
                index <= preset.stratagems@.len(),
                items == start + texts(preset.stratagems@).take(index as int),
                texts(found@) == missing(items, texts(known@)),
            decreases preset.stratagems@.len() - index,
        {
            add_missing(&mut found, known, &preset.stratagems[index], Ghost(items));
            proof {
                let ids = texts(preset.stratagems@);
                assert(ids[index as int] == preset.stratagems@[index as int]@);
                assert(start + ids.take(index + 1) =~= items.push(ids[index as int]));
                items = items.push(ids[index as int]);
            }
            index = index + 1;
        }
        assert(texts(preset.stratagems@).take(preset.stratagems@.len() as int) =~= texts(
            preset.stratagems@,
        ));
        match &preset.booster {
            Some(booster) => {
                add_missing(&mut found, known, booster, Ghost(items));
                proof {
                    assert(items.push(booster@) =~= items + seq![booster@]);
                    items = items.push(booster@);
                }
            },
            None => {
                assert(items + Seq::<Seq<char>>::empty() =~= items);
            },
        }
        row = row + 1;
    }
    found
}

/// A scaled side keeps the proportions up to half a pixel, unless that would leave none.
pub proof fn proportions_are_kept(short: int, bounds: int, long: int)
    requires
        0 < short <= long,
        0 < bounds,
    ensures
        ({
            let side = scaled_side(short, bounds, long);
            &&& 2 * (side * long) <= 2 * (short * bounds) + long || side == 1
            &&& 2 * (side * long) > 2 * (short * bounds) - long - 2
        }),
{
    let sum = short * bounds + long / 2;
    assert(0 < short * bounds) by (nonlinear_arith)
        requires
            0 < short,
            0 < bounds,
    ;
    vstd::arithmetic::div_mod::lemma_fundamental_div_mod(sum, long);
    let side = sum / long;
    assert(0 <= sum % long < long) by (nonlinear_arith)
        requires
            0 < long,
    ;
    assert(long * side == side * long) by (nonlinear_arith);
    assert(side >= 0) by (nonlinear_arith)
        requires
            side * long + sum % long == sum,
            0 <= sum,
            sum % long < long,
            0 < long,
    ;
    if side < 1 {
        assert(side * long == 0) by (nonlinear_arith)
            requires
                side == 0,
        ;
    }
}

/// An image and its transpose are fitted alike, the longer side fills the bounds, and a square stays
/// one.
pub proof fn longer_sides_fill_the_bounds(width: int, height: int, bounds: int)
    requires
        0 < width,
        0 < height,
        0 < bounds,
    ensures
        width != height ==> fitted(height, width, bounds) == (
            fitted(width, height, bounds).1,
            fitted(width, height, bounds).0,
        ),
        width >= height ==> fitted(width, height, bounds).0 == bounds,
        width <= height ==> fitted(width, height, bounds).1 == bounds,
        width == height ==> fitted(width, height, bounds) == (bounds, bounds),
{
    if width == height {
        let sum = height * bounds + width / 2;
        assert(height * bounds == bounds * width) by (nonlinear_arith)
            requires
                width == height,
        ;
        vstd::arithmetic::div_mod::lemma_fundamental_div_mod_converse(
            sum,
            width,
            bounds,
            width / 2,
        );
    }
}

/// An opaque sample hides what lies behind it and a clear one shows it. What comes out is the mean
/// of the two, weighted by the opacity, up to half a step, and lies between them.
pub proof fn samples_are_blended(sample: int, background: int, opacity: int)
    requires
        0 <= sample <= 255,
        0 <= background <= 255,
        0 <= opacity <= 255,
    ensures
        over(sample, background, 255) == sample,
        over(sample, background, 0) == background,
        -127 <= 255 * over(sample, background, opacity) - (sample * opacity + background * (255
            - opacity)) <= 127,
        sample <= background ==> sample <= over(sample, background, opacity) <= background,
        background <= sample ==> background <= over(sample, background, opacity) <= sample,
{
    let weighted = sample * opacity + background * (255 - opacity);
    assert(background * (255 - 255) == 0 && sample * 0 == 0) by (nonlinear_arith);
    if sample <= background {
        assert(255 * sample <= weighted <= 255 * background) by (nonlinear_arith)
            requires
                weighted == sample * opacity + background * (255 - opacity),
                0 <= sample <= background,
                0 <= opacity <= 255,
        ;
    } else {
        assert(255 * background <= weighted <= 255 * sample) by (nonlinear_arith)
            requires
                weighted == sample * opacity + background * (255 - opacity),
                0 <= background <= sample,
                0 <= opacity <= 255,
        ;
    }
}

/// An image lies in the middle of its icon: the margins on two sides differ by one pixel at most, the
/// smaller one first. What lies outside the image is clear.
pub proof fn images_lie_in_the_middle(image: Frame, size: int, x: int, y: int)
    requires
        image.spec_width() <= size,
        image.spec_height() <= size,
    ensures
        ({
            let (width, height) = (image.spec_width() as int, image.spec_height() as int);
            exists|left: int, top: int|
                #![trigger image.pixel(x - left, y - top)]
                {
                    &&& 0 <= (size - width - left) - left <= 1
                    &&& 0 <= (size - height - top) - top <= 1
                    &&& icon_pixel(image, size, x, y) == if left <= x < left + width && top <= y
                        < top + height {
                        image.pixel(x - left, y - top)
                    } else {
                        Rgba { r: 0, g: 0, b: 0, a: 0 }
                    }
                }
        }),
{
    let left = (size - image.spec_width()) / 2;
    let top = (size - image.spec_height()) / 2;
    let shown = image.pixel(x - left, y - top);
    assert(0 <= (size - image.spec_width() - left) - left <= 1);
    assert(0 <= (size - image.spec_height() - top) - top <= 1);
}

/// A pixel is written as blue, green and red, and always opaque. A clear one has the color of the
/// overlay, red 30, green 36 and blue 42.
pub proof fn pixels_are_written_backwards(pixel: Rgba)
    ensures
        composited(pixel).len() == 4,
        composited(pixel)[3] == 255,
        pixel.a == 255 ==> composited(pixel) == seq![pixel.b, pixel.g, pixel.r, 255u8],
        pixel.a == 0 ==> composited(pixel) == seq![42u8, 36u8, 30u8, 255u8],
{
    samples_are_blended(pixel.b as int, 42, pixel.a as int);
    samples_are_blended(pixel.g as int, 36, pixel.a as int);
    samples_are_blended(pixel.r as int, 30, pixel.a as int);
    if pixel.a == 255 {
        assert(composited(pixel) =~= seq![pixel.b, pixel.g, pixel.r, 255u8]);
    }
    if pixel.a == 0 {
        assert(composited(pixel) =~= seq![42u8, 36u8, 30u8, 255u8]);
    }
}

/// The pixels of an icon stand row by row, four bytes for each.
pub proof fn icon_pixels_stand_in_rows(image: Frame, size: int, count: int, x: int, y: int)
    requires
        0 <= x < size,
        0 <= y,
        y * size + x < count,
    ensures
        icon_bytes(image, size, count).len() == 4 * count,
        0 <= y * size + x,
        icon_bytes(image, size, count).subrange(4 * (y * size + x), 4 * (y * size + x) + 4)
            == composited(icon_pixel(image, size, x, y)),
    decreases count,
{
    let at = y * size + x;
    assert(0 <= y * size) by (nonlinear_arith)
        requires
            0 <= y,
            0 < size,
    ;
    place_of(x, y, size);
    icon_bytes_length(image, size, count);
    icon_bytes_length(image, size, count - 1);
    let front = icon_bytes(image, size, count - 1);
    let all = icon_bytes(image, size, count);
    if at < count - 1 {
        icon_pixels_stand_in_rows(image, size, count - 1, x, y);
        assert(all.subrange(4 * at, 4 * at + 4) =~= front.subrange(4 * at, 4 * at + 4));
    } else {
        assert(all.subrange(4 * at, 4 * at + 4) =~= composited(icon_pixel(image, size, x, y)));
    }
}

/// The shown items are the stratagems and the boosters of the rows.
pub proof fn rows_show_their_items(presets: Seq<OverlayPreset>, count: int, item: Seq<char>)
    requires
        0 <= count <= presets.len(),
    ensures
        shown_items(presets, count).contains(item) <==> exists|at: int|
            0 <= at < count && (texts((#[trigger] presets[at]).stratagems@).contains(item) || (
            presets[at].booster matches Some(booster) && booster@ == item)),
    decreases count,
{
    if count > 0 {
        rows_show_their_items(presets, count - 1, item);
        let front = shown_items(presets, count - 1);
        let row = presets[count - 1];
        let own = texts(row.stratagems@);
        let last = match row.booster {
            Some(booster) => seq![booster@],
            None => Seq::empty(),
        };
        let all = shown_items(presets, count);
        assert(all == front + own + last);
        if all.contains(item) {
            let at = choose|at: int| 0 <= at < all.len() && all[at] == item;
            if at < front.len() {
                assert(front[at] == item);
                assert(front.contains(item));
            } else if at < front.len() + own.len() {
                assert(own[at - front.len()] == item);
                assert(own.contains(item));
            } else {
                assert(last[at - front.len() - own.len()] == item);
            }
        }
        if front.contains(item) {
            let at = choose|at: int| 0 <= at < front.len() && front[at] == item;
            assert(all[at] == item);
        }
        if own.contains(item) {
            let at = choose|at: int| 0 <= at < own.len() && own[at] == item;
            assert(all[front.len() + at] == item);
        }
        if row.booster is Some && row.booster->0@ == item {
            assert(all[(front.len() + own.len()) as int] == item);
        }
    }
}

/// What is missing is what is shown and not known, each item once.
pub proof fn missing_items_are_not_known(
    items: Seq<Seq<char>>,
    known: Seq<Seq<char>>,
    item: Seq<char>,
)
    ensures
        missing(items, known).contains(item) <==> items.contains(item) && !known.contains(item),
        missing(items, known).no_duplicates(),
    decreases items.len(),
{
    if items.len() > 0 {
        let front = items.drop_last();
        missing_items_are_not_known(front, known, item);
        missing_items_are_not_known(front, known, items.last());
        let before = missing(front, known);
        let all = missing(items, known);
        assert(items.contains(item) <==> front.contains(item) || item == items.last()) by {
            if items.contains(item) {
                let at = choose|at: int| 0 <= at < items.len() && items[at] == item;
                assert(at < front.len() ==> front[at] == item);
            }
            if front.contains(item) {
                let at = choose|at: int| 0 <= at < front.len() && front[at] == item;
                assert(items[at] == item);
            }
            assert(items[items.len() - 1] == items.last());
        }
        if !known.contains(items.last()) && !before.contains(items.last()) {
            assert(all == before.push(items.last()));
            assert(all[before.len() as int] == items.last());
            if before.contains(item) {
                let at = choose|at: int| 0 <= at < before.len() && before[at] == item;
                assert(all[at] == item);
            }
            if all.contains(item) && item != items.last() {
                let at = choose|at: int| 0 <= at < all.len() && all[at] == item;
                assert(before[at] == item);
            }
        }
    }
}

/// An icon is a square of its size, and an image that fills it already is drawn pixel by pixel.
pub proof fn icons_fill_their_square(icon: IconBitmap, image: Frame, size: int, x: int, y: int)
    requires
        is_icon(icon, image, size),
        0 <= x < size,
        0 <= y < size,
        image.spec_width() == size,
        image.spec_height() == size,
    ensures
        icon.size == size,
        icon.bgra@.len() == 4 * (size * size),
        icon.bgra@.subrange(4 * (y * size + x), 4 * (y * size + x) + 4) == composited(
            image.pixel(x, y),
        ),
{
    longer_sides_fill_the_bounds(size, size, size);
    let resized = choose|resized: Frame| #[trigger]
        is_resized(image, resized, size, size) && icon.bgra@ == icon_bytes(
            resized,
            size,
            size * size,
        );
    assert(y * size + x < size * size) by (nonlinear_arith)
        requires
            0 <= x < size,
            0 <= y < size,
    ;
    icon_pixels_stand_in_rows(resized, size, size * size, x, y);
}

} // verus!
