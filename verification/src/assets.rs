//! Icons and other assets: reading their bytes, and the catalog of known items.
use std::io::Cursor;

use fast_image_resize::{FilterType, ResizeAlg, ResizeOptions, Resizer};
use image::codecs::png::PngDecoder;
use image::{ColorType, ImageDecoder, RgbaImage};
use vstd::prelude::*;
use vstd::string::*;

use crate::item::{ItemKind, StratagemCategory};
use crate::text::{chars_of, trim, trimmed};
use crate::vision::Frame;

verus! {

/// The error of the `image` crate.
#[verifier::external_type_specification]
#[verifier::external_body]
pub struct ExImageError(image::ImageError);

/// The error of the `fast_image_resize` crate's resizer.
#[verifier::external_type_specification]
#[verifier::external_body]
pub struct ExResizeError(fast_image_resize::ResizeError);

/// A JSON file and the name it goes by in messages.
#[derive(Debug)]
pub struct JsonAsset {
    pub name: &'static str,
    pub bytes: Vec<u8>,
}

/// The bytes start with the mark that some editors put before a text.
pub open spec fn has_byte_order_mark(bytes: Seq<u8>) -> bool {
    bytes.len() >= 3 && bytes[0] == 0xEF && bytes[1] == 0xBB && bytes[2] == 0xBF
}

/// The bytes without a leading byte order mark.
pub open spec fn without_mark(bytes: Seq<u8>) -> Seq<u8> {
    if has_byte_order_mark(bytes) {
        bytes.skip(3)
    } else {
        bytes
    }
}

/// Where the text starts: after a leading byte order mark.
pub fn json_start(bytes: &Vec<u8>) -> (start: usize)
    ensures
        start <= bytes@.len(),
        bytes@.skip(start as int) == without_mark(bytes@),
{
    assert(bytes@.skip(0) =~= bytes@);
    if bytes.len() >= 3 && bytes[0] == 0xEF && bytes[1] == 0xBB && bytes[2] == 0xBF {
        3
    } else {
        0
    }
}

/// The default calibration.
pub fn default_calibration(bytes: Vec<u8>) -> (asset: JsonAsset)
    ensures
        asset.name@ == "data/calibration.json"@,
        asset.bytes == bytes,
{
    JsonAsset { name: "data/calibration.json", bytes }
}

/// The manifest of the default icons.
pub fn default_icon_manifest(name: &'static str, bytes: Vec<u8>) -> (asset: JsonAsset)
    ensures
        asset.name == name,
        asset.bytes == bytes,
{
    JsonAsset { name, bytes }
}

/// What `PngDecoder` reads from the header of a PNG file: whether its pixels have eight bit red,
/// green, blue and alpha samples, its width and its height. Nothing if the header is invalid.
pub uninterp spec fn png_header_of(bytes: Seq<u8>) -> Option<(bool, u32, u32)>;

/// The samples that `PngDecoder` decodes from a PNG file. Nothing if the file is invalid.
pub uninterp spec fn png_samples_of(bytes: Seq<u8>) -> Option<Seq<u8>>;

/// Opens a PNG file with `image::codecs::png::PngDecoder::new` and hands out what its
/// `color_type` and `dimensions` say. The claim is that they depend on the bytes alone.
#[verifier::external_body]
fn png_header(bytes: &[u8]) -> (header: Result<(bool, u32, u32), image::ImageError>)
    ensures
        match header {
            Ok(read) => png_header_of(bytes@) == Some(read),
            Err(_) => png_header_of(bytes@) is None,
        },
{
    let decoder = PngDecoder::new(Cursor::new(bytes))?;
    let rgba8 = matches!(decoder.color_type(), ColorType::Rgba8);
    let (width, height) = decoder.dimensions();
    Ok((rgba8, width, height))
}

/// Decodes a PNG file with `image::codecs::png::PngDecoder::read_image` into a buffer of the size
/// of its pixels. The claim is that the samples depend on the bytes alone and fill the buffer.
#[verifier::external_body]
fn png_samples(bytes: &[u8], length: usize) -> (samples: Result<Vec<u8>, image::ImageError>)
    requires
        png_header_of(bytes@) matches Some((rgba8, width, height)) && rgba8 && length == 4 * (
        width as int * height as int),
        length <= usize::MAX / 2,
    ensures
        match samples {
            Ok(read) => png_samples_of(bytes@) == Some(read@) && read@.len() == length,
            Err(_) => png_samples_of(bytes@) is None,
        },
{
    let decoder = PngDecoder::new(Cursor::new(bytes))?;
    let mut samples = vec![0u8; length];
    decoder.read_image(&mut samples)?;
    Ok(samples)
}

/// Why a PNG file does not give an image.
#[derive(Clone, Copy, Debug, PartialEq, Eq, Structural)]
pub enum PngError {
    Header,
    /// The pixels do not have eight bit red, green, blue and alpha samples.
    NotRgba8,
    Data,
}

/// The size of the pixels of a PNG file can be held in memory.
pub open spec fn png_fits(header: Option<(bool, u32, u32)>) -> bool {
    header matches Some((rgba8, width, height)) ==> 4 * (width as int * height as int)
        <= usize::MAX / 2
}

/// The image of a PNG file with this header and these samples.
pub open spec fn is_png_image(
    image: Result<Frame, PngError>,
    header: Option<(bool, u32, u32)>,
    samples: Option<Seq<u8>>,
) -> bool {
    match header {
        None => image == Err::<Frame, PngError>(PngError::Header),
        Some((rgba8, width, height)) => if !rgba8 {
            image == Err::<Frame, PngError>(PngError::NotRgba8)
        } else if samples is None {
            image == Err::<Frame, PngError>(PngError::Data)
        } else {
            image matches Ok(frame) && frame.spec_width() == width && frame.spec_height() == height
                && frame.samples() == samples->0
        },
    }
}

/// Bytes of `width` times `height` pixels.
fn pixel_bytes(width: u32, height: u32) -> (length: u128)
    ensures
        length == 4 * (width as int * height as int),
{
    assert(0 <= width as int * height as int <= 0xffff_ffff * 0xffff_ffff) by (nonlinear_arith)
        requires
            0 <= width <= 0xffff_ffff,
            0 <= height <= 0xffff_ffff,
    ;
    4 * (width as u128 * height as u128)
}

/// Decodes a PNG file with eight bit red, green, blue and alpha samples.
pub fn decode_rgba8(bytes: &Vec<u8>) -> (image: Result<Frame, PngError>)
    requires
        png_fits(png_header_of(bytes@)),
    ensures
        is_png_image(image, png_header_of(bytes@), png_samples_of(bytes@)),
{
    let (rgba8, width, height) = match png_header(bytes.as_slice()) {
        Ok(header) => header,
        Err(_) => return Err(PngError::Header),
    };
    if !rgba8 {
        return Err(PngError::NotRgba8);
    }
    let length: usize = pixel_bytes(width, height) as usize;
    match png_samples(bytes.as_slice(), length) {
        Ok(samples) => Ok(Frame::from_samples(width, height, samples)),
        Err(_) => Err(PngError::Data),
    }
}

/// Decodes an icon. Nothing is returned for an icon whose pixels cannot be held in memory.
pub fn icon_image(bytes: &Vec<u8>) -> (image: Option<Result<Frame, PngError>>)
    ensures
        match image {
            Some(decoded) => png_fits(png_header_of(bytes@)) && is_png_image(
                decoded,
                png_header_of(bytes@),
                png_samples_of(bytes@),
            ),
            None => !png_fits(png_header_of(bytes@)),
        },
{
    if let Ok((_, width, height)) = png_header(bytes.as_slice()) {
        if pixel_bytes(width, height) > (usize::MAX / 2) as u128 {
            return None;
        }
    }
    Some(decode_rgba8(bytes))
}

/// The samples of an image that `fast_image_resize` made of another one with its box filter,
/// weighting colors by their opacity: given are the samples, the width and the height of the
/// source, and the width and the height of the result.
pub uninterp spec fn box_resized(
    samples: Seq<u8>,
    width: u32,
    height: u32,
    new_width: u32,
    new_height: u32,
) -> Seq<u8>;

/// Resizes with `fast_image_resize::Resizer::resize`, with the box filter and with alpha. The
/// claim is that it succeeds, which it does for any two images of the same pixel type where nothing
/// is cropped, and that the result has the requested size and depends on the arguments alone,
/// whatever instructions the machine offers: all variants compute in the same fixed point
/// arithmetic.
#[verifier::external_body]
fn resize_box(samples: Vec<u8>, width: u32, height: u32, new_width: u32, new_height: u32) -> (
result: Result<Vec<u8>, fast_image_resize::ResizeError>)
    requires
        samples@.len() == 4 * (width as int * height as int),
        4 * (new_width as int * new_height as int) <= usize::MAX / 2,
    ensures
        result is Ok,
        result matches Ok(resized) ==> resized@ == box_resized(
            samples@,
            width,
            height,
            new_width,
            new_height,
        ),
        result matches Ok(resized) ==> resized@.len() == 4 * (new_width as int
            * new_height as int),
{
    let source = RgbaImage::from_raw(width, height, samples).expect("samples of every pixel");
    let mut destination = RgbaImage::new(new_width, new_height);
    let options = ResizeOptions::new()
        .resize_alg(ResizeAlg::Convolution(FilterType::Box))
        .use_alpha(true);
    Resizer::new().resize(&source, &mut destination, &options)?;
    Ok(destination.into_raw())
}

/// The resizer failed.
#[derive(Clone, Copy, Debug, PartialEq, Eq, Structural)]
pub struct ResizeFailed;

/// An image of another size. An image that already has the size is kept as it is.
pub fn resize_rgba_box(source: &Frame, width: u32, height: u32) -> (image: Result<
    Frame,
    ResizeFailed,
>)
    requires
        4 * (width as int * height as int) <= usize::MAX / 2,
    ensures
        image matches Ok(frame) && frame.spec_width() == width && frame.spec_height() == height
            && frame.samples() == if source.spec_width() == width && source.spec_height()
            == height {
            source.samples()
        } else {
            box_resized(
                source.samples(),
                source.spec_width(),
                source.spec_height(),
                width,
                height,
            )
        },
{
    if source.width() == width && source.height() == height {
        return Ok(source.duplicate());
    }
    let copy = source.copy_samples();
    match resize_box(copy, source.width(), source.height(), width, height) {
        Ok(samples) => Ok(Frame::from_samples(width, height, samples)),
        Err(_) => Err(ResizeFailed),
    }
}

/// What is known of an item.
#[derive(Debug)]
pub struct IconEntry {
    pub display_name: String,
    pub kind: ItemKind,
    pub category: Option<StratagemCategory>,
    pub path: String,
}

/// An item of the manifest.
#[derive(Debug)]
pub struct IconManifestItem {
    pub item_id: String,
    pub display_name: String,
    pub kind: ItemKind,
    pub category: Option<StratagemCategory>,
    pub path: String,
}

/// Why a manifest is rejected.
#[derive(Debug)]
pub enum CatalogError {
    EmptyItemId,
    InvalidItemId { item_id: String },
    EmptyDisplayName { item_id: String },
    EmptyPath { item_id: String },
    StratagemWithoutCategory { item_id: String },
    BoosterWithCategory { item_id: String, category: StratagemCategory },
    IconNotFound { path: String },
    DuplicatePath { path: String },
    DuplicateItemId { item_id: String },
    NoItems,
}

/// What is wrong with an item, without the texts of the message.
#[derive(Clone, Copy, Debug, PartialEq, Eq, Structural)]
pub enum ItemDefect {
    EmptyItemId,
    InvalidItemId,
    EmptyDisplayName,
    EmptyPath,
    StratagemWithoutCategory,
    BoosterWithCategory,
    IconNotFound,
    DuplicatePath,
    DuplicateItemId,
}

/// Lower case letters, digits and hyphens.
pub open spec fn is_id_char(character: char) -> bool {
    ('a' <= character && character <= 'z') || ('0' <= character && character <= '9') || character
        == '-'
}

/// An identifier: words of lower case letters and digits, joined by single hyphens.
pub open spec fn is_item_id(item_id: Seq<char>) -> bool {
    &&& item_id.len() > 0
    &&& forall|at: int| 0 <= at < item_id.len() ==> is_id_char(#[trigger] item_id[at])
    &&& item_id.first() != '-'
    &&& item_id.last() != '-'
    &&& forall|at: int|
        0 < at < item_id.len() && #[trigger] item_id[at] == '-' ==> item_id[at - 1] != '-'
}

/// What is wrong with an identifier, or nothing.
pub fn validate_item_id(item_id: &String) -> (defect: Option<ItemDefect>)
    ensures
        defect == if item_id@.len() == 0 {
            Some(ItemDefect::EmptyItemId)
        } else if !is_item_id(item_id@) {
            Some(ItemDefect::InvalidItemId)
        } else {
            None
        },
{
    let chars = chars_of(item_id.as_str());
    if chars.len() == 0 {
        return Some(ItemDefect::EmptyItemId);
    }
    let mut index: usize = 0;
    while index < chars.len()
        invariant
            index <= chars@.len(),
            chars@ == item_id@,
            chars@.len() > 0,
            forall|at: int| 0 <= at < index ==> is_id_char(#[trigger] item_id@[at]),
            index > 0 ==> item_id@[0] != '-',
            forall|at: int|
                0 < at < index && #[trigger] item_id@[at] == '-' ==> item_id@[at - 1] != '-',
        decreases chars@.len() - index,
    {
        let character = chars[index];
        let allowed = ('a' <= character && character <= 'z') || ('0' <= character && character
            <= '9') || character == '-';
        if !allowed {
            assert(!is_id_char(item_id@[index as int]));
            return Some(ItemDefect::InvalidItemId);
        }
        if character == '-' && (index == 0 || chars[index - 1] == '-') {
            assert(item_id@[index as int] == '-');
            return Some(ItemDefect::InvalidItemId);
        }
        index = index + 1;
    }
    if chars[chars.len() - 1] == '-' {
        return Some(ItemDefect::InvalidItemId);
    }
    None
}

/// The text has nothing but white space.
pub open spec fn is_blank(text: Seq<char>) -> bool {
    trimmed(text).len() == 0
}

fn blank(text: &String) -> (is_it: bool)
    ensures
        is_it == is_blank(text@),
{
    trim(text.as_str()).unicode_len() == 0
}

/// Some of the first `count` items has this path.
pub open spec fn path_used(items: Seq<IconManifestItem>, count: int, path: Seq<char>) -> bool {
    exists|at: int| 0 <= at < count && (#[trigger] items[at]).path@ == path
}

/// Some of the first `count` items has this identifier.
pub open spec fn id_used(items: Seq<IconManifestItem>, count: int, item_id: Seq<char>) -> bool {
    exists|at: int| 0 <= at < count && (#[trigger] items[at]).item_id@ == item_id
}

pub open spec fn is_embedded(embedded: Seq<String>, path: Seq<char>) -> bool {
    exists|at: int| 0 <= at < embedded.len() && (#[trigger] embedded[at])@ == path
}

/// What is wrong with the item at `index`, given the items before it and the embedded icons.
pub open spec fn item_defect(
    items: Seq<IconManifestItem>,
    index: int,
    embedded: Seq<String>,
) -> Option<ItemDefect> {
    let item = items[index];
    if item.item_id@.len() == 0 {
        Some(ItemDefect::EmptyItemId)
    } else if !is_item_id(item.item_id@) {
        Some(ItemDefect::InvalidItemId)
    } else if is_blank(item.display_name@) {
        Some(ItemDefect::EmptyDisplayName)
    } else if is_blank(item.path@) {
        Some(ItemDefect::EmptyPath)
    } else if item.kind == ItemKind::Stratagem && item.category is None {
        Some(ItemDefect::StratagemWithoutCategory)
    } else if item.kind == ItemKind::Booster && item.category is Some {
        Some(ItemDefect::BoosterWithCategory)
    } else if !is_embedded(embedded, item.path@) {
        Some(ItemDefect::IconNotFound)
    } else if path_used(items, index, item.path@) {
        Some(ItemDefect::DuplicatePath)
    } else if id_used(items, index, item.item_id@) {
        Some(ItemDefect::DuplicateItemId)
    } else {
        None
    }
}

/// The error that reports a defect of an item.
pub open spec fn reports(error: CatalogError, item: IconManifestItem, defect: ItemDefect) -> bool {
    match (error, defect) {
        (CatalogError::EmptyItemId, ItemDefect::EmptyItemId) => true,
        (CatalogError::InvalidItemId { item_id }, ItemDefect::InvalidItemId) => item_id@
            == item.item_id@,
        (CatalogError::EmptyDisplayName { item_id }, ItemDefect::EmptyDisplayName) => item_id@
            == item.item_id@,
        (CatalogError::EmptyPath { item_id }, ItemDefect::EmptyPath) => item_id@ == item.item_id@,
        (
            CatalogError::StratagemWithoutCategory { item_id },
            ItemDefect::StratagemWithoutCategory,
        ) => item_id@ == item.item_id@,
        (
            CatalogError::BoosterWithCategory { item_id, category },
            ItemDefect::BoosterWithCategory,
        ) => item_id@ == item.item_id@ && item.category == Some(category),
        (CatalogError::IconNotFound { path }, ItemDefect::IconNotFound) => path@ == item.path@,
        (CatalogError::DuplicatePath { path }, ItemDefect::DuplicatePath) => path@ == item.path@,
        (CatalogError::DuplicateItemId { item_id }, ItemDefect::DuplicateItemId) => item_id@
            == item.item_id@,
        _ => false,
    }
}

/// An item of the catalog.
#[derive(Debug)]
pub struct IconRecord {
    pub item_id: String,
    pub entry: IconEntry,
}

/// The record of an item of the manifest.
pub open spec fn is_record(record: IconRecord, item: IconManifestItem) -> bool {
    &&& record.item_id@ == item.item_id@
    &&& record.entry.display_name@ == item.display_name@
    &&& record.entry.kind == item.kind
    &&& record.entry.category == item.category
    &&& record.entry.path@ == item.path@
}

/// The known items. Each identifier and each path occurs once.
#[derive(Debug)]
pub struct IconCatalog {
    records: Vec<IconRecord>,
}

fn contains_text(texts: &Vec<String>, text: &String) -> (found: bool)
    ensures
        found == is_embedded(texts@, text@),
{
    let mut index: usize = 0;
    while index < texts.len()
        invariant
            index <= texts@.len(),
            forall|at: int| 0 <= at < index ==> (#[trigger] texts@[at])@ != text@,
        decreases texts@.len() - index,
    {
        if texts[index] == *text {
            return true;
        }
        index = index + 1;
    }
    false
}

#[verifier::loop_isolation(false)]
fn find_defect(items: &Vec<IconManifestItem>, index: usize, embedded: &Vec<String>) -> (defect:
    Option<ItemDefect>)
    requires
        index < items@.len(),
    ensures
        defect == item_defect(items@, index as int, embedded@),
{
    let item = &items[index];
    let defect = validate_item_id(&item.item_id);
    if defect.is_some() {
        return defect;
    }
    if blank(&item.display_name) {
        return Some(ItemDefect::EmptyDisplayName);
    }
    if blank(&item.path) {
        return Some(ItemDefect::EmptyPath);
    }
    if item.kind == ItemKind::Stratagem && item.category.is_none() {
        return Some(ItemDefect::StratagemWithoutCategory);
    }
    if item.kind == ItemKind::Booster && item.category.is_some() {
        return Some(ItemDefect::BoosterWithCategory);
    }
    if !contains_text(embedded, &item.path) {
        return Some(ItemDefect::IconNotFound);
    }
    let mut earlier: usize = 0;
    let mut id_seen = false;
    while earlier < index
        invariant
            earlier <= index < items@.len(),
            item == items@[index as int],
            !path_used(items@, earlier as int, item.path@),
            id_seen == id_used(items@, earlier as int, item.item_id@),
        decreases index - earlier,
    {
        if items[earlier].path == item.path {
            assert(items@[earlier as int].path@ == item.path@);
            return Some(ItemDefect::DuplicatePath);
        }
        if items[earlier].item_id == item.item_id {
            assert(items@[earlier as int].item_id@ == item.item_id@);
            id_seen = true;
        }
        earlier = earlier + 1;
    }
    if id_seen {
        Some(ItemDefect::DuplicateItemId)
    } else {
        None
    }
}

fn report(item: &IconManifestItem, defect: ItemDefect) -> (error: CatalogError)
    requires
        defect == ItemDefect::BoosterWithCategory ==> item.category is Some,
    ensures
        reports(error, *item, defect),
{
    match defect {
        ItemDefect::EmptyItemId => CatalogError::EmptyItemId,
        ItemDefect::InvalidItemId => CatalogError::InvalidItemId { item_id: item.item_id.clone() },
        ItemDefect::EmptyDisplayName => CatalogError::EmptyDisplayName {
            item_id: item.item_id.clone(),
        },
        ItemDefect::EmptyPath => CatalogError::EmptyPath { item_id: item.item_id.clone() },
        ItemDefect::StratagemWithoutCategory => CatalogError::StratagemWithoutCategory {
            item_id: item.item_id.clone(),
        },
        ItemDefect::BoosterWithCategory => {
            let category = match item.category {
                Some(category) => category,
                None => StratagemCategory::Offensive,
            };
            CatalogError::BoosterWithCategory { item_id: item.item_id.clone(), category }
        },
        ItemDefect::IconNotFound => CatalogError::IconNotFound { path: item.path.clone() },
        ItemDefect::DuplicatePath => CatalogError::DuplicatePath { path: item.path.clone() },
        ItemDefect::DuplicateItemId => CatalogError::DuplicateItemId {
            item_id: item.item_id.clone(),
        },
    }
}

impl IconCatalog {
    pub closed spec fn all(&self) -> Seq<IconRecord> {
        self.records@
    }

    /// Builds the catalog from the items of a manifest and the paths of the embedded icons. The
    /// first defect of the first defective item is reported.
    pub fn load(items: &Vec<IconManifestItem>, embedded: &Vec<String>) -> (catalog: Result<
        Self,
        CatalogError,
    >)
        ensures
            match catalog {
                Ok(loaded) => {
                    &&& items@.len() > 0
                    &&& forall|index: int|
                        0 <= index < items@.len() ==> #[trigger] item_defect(
                            items@,
                            index,
                            embedded@,
                        ) is None
                    &&& loaded.all().len() == items@.len()
                    &&& forall|index: int|
                        0 <= index < items@.len() ==> is_record(
                            #[trigger] loaded.all()[index],
                            items@[index],
                        )
                },
                Err(CatalogError::NoItems) => items@.len() == 0,
                Err(error) => exists|index: int|
                    {
                        &&& 0 <= index < items@.len()
                        &&& #[trigger] item_defect(items@, index, embedded@) matches Some(defect)
                            && reports(error, items@[index], defect)
                        &&& forall|earlier: int|
                            0 <= earlier < index ==> #[trigger] item_defect(
                                items@,
                                earlier,
                                embedded@,
                            ) is None
                    },
            },
    {
        let mut records: Vec<IconRecord> = Vec::new();
        let mut index: usize = 0;
        while index < items.len()
            invariant
                index <= items@.len(),
                records@.len() == index,
                forall|done: int|
                    0 <= done < index ==> #[trigger] item_defect(items@, done, embedded@) is None,
                forall|done: int|
                    0 <= done < index ==> is_record(#[trigger] records@[done], items@[done]),
            decreases items@.len() - index,
        {
            if let Some(defect) = find_defect(items, index, embedded) {
                let error = report(&items[index], defect);
                assert(item_defect(items@, index as int, embedded@) == Some(defect));
                return Err(error);
            }
            assert(item_defect(items@, index as int, embedded@) is None);
            let item = &items[index];
            records.push(
                IconRecord {
                    item_id: item.item_id.clone(),
                    entry: IconEntry {
                        display_name: item.display_name.clone(),
                        kind: item.kind,
                        category: item.category,
                        path: item.path.clone(),
                    },
                },
            );
            index = index + 1;
        }
        if records.len() == 0 {
            return Err(CatalogError::NoItems);
        }
        Ok(IconCatalog { records })
    }

    /// `index` is the item with this identifier.
    pub open spec fn is_at(&self, item_id: Seq<char>, index: int) -> bool {
        &&& 0 <= index < self.all().len()
        &&& self.all()[index].item_id@ == item_id
        &&& forall|earlier: int|
            0 <= earlier < index ==> (#[trigger] self.all()[earlier]).item_id@ != item_id
    }

    /// The entry of an item.
    pub open spec fn entry_of(&self, item_id: Seq<char>) -> Option<IconEntry> {
        if exists|index: int| self.is_at(item_id, index) {
            Some(self.all()[choose|index: int| self.is_at(item_id, index)].entry)
        } else {
            None
        }
    }

    pub fn get(&self, item_id: &String) -> (entry: Option<&IconEntry>)
        ensures
            match entry {
                Some(found) => self.entry_of(item_id@) == Some(*found),
                None => self.entry_of(item_id@) is None,
            },
    {
        let mut index: usize = 0;
        while index < self.records.len()
            invariant
                index <= self.records@.len(),
                forall|earlier: int|
                    0 <= earlier < index ==> (#[trigger] self.records@[earlier]).item_id@
                        != item_id@,
            decreases self.records@.len() - index,
        {
            if self.records[index].item_id == *item_id {
                proof {
                    assert(self.is_at(item_id@, index as int));
                    let other = choose|i: int| self.is_at(item_id@, i);
                    assert(self.all()[other].item_id@ == item_id@);
                    assert(other == index);
                }
                return Some(&self.records[index].entry);
            }
            index = index + 1;
        }
        proof {
            if exists|i: int| self.is_at(item_id@, i) {
                let i = choose|i: int| self.is_at(item_id@, i);
                assert(self.all()[i].item_id@ == item_id@);
            }
        }
        None
    }

    /// All items.
    pub fn iter(&self) -> (records: &Vec<IconRecord>)
        ensures
            records@ == self.all(),
    {
        &self.records
    }
}

/// In a manifest without defects every identifier and every path occurs once.
pub proof fn accepted_items_are_distinct(
    items: Seq<IconManifestItem>,
    embedded: Seq<String>,
    left: int,
    right: int,
)
    requires
        0 <= left < right < items.len(),
        item_defect(items, right, embedded) is None,
    ensures
        items[left].item_id@ != items[right].item_id@,
        items[left].path@ != items[right].path@,
{
    assert(!path_used(items, right, items[right].path@));
    assert(!id_used(items, right, items[right].item_id@));
    assert(items[left].path@ == items[left].path@);
}

/// Every item of an accepted manifest is found under its identifier, with what the manifest says.
pub proof fn accepted_items_are_found(
    items: Seq<IconManifestItem>,
    embedded: Seq<String>,
    catalog: IconCatalog,
    index: int,
)
    requires
        0 <= index < items.len(),
        forall|i: int| 0 <= i < items.len() ==> #[trigger] item_defect(items, i, embedded) is None,
        catalog.all().len() == items.len(),
        forall|i: int| 0 <= i < items.len() ==> is_record(#[trigger] catalog.all()[i], items[i]),
    ensures
        catalog.entry_of(items[index].item_id@) matches Some(entry) && entry.display_name@
            == items[index].display_name@ && entry.kind == items[index].kind && entry.category
            == items[index].category && entry.path@ == items[index].path@,
{
    let item_id = items[index].item_id@;
    assert(is_record(catalog.all()[index], items[index]));
    assert forall|earlier: int| 0 <= earlier < index implies (
    #[trigger] catalog.all()[earlier]).item_id@ != item_id by {
        assert(is_record(catalog.all()[earlier], items[earlier]));
        assert(item_defect(items, index, embedded) is None);
        accepted_items_are_distinct(items, embedded, earlier, index);
    }
    assert(catalog.is_at(item_id, index));
    let other = choose|i: int| catalog.is_at(item_id, i);
    assert(catalog.all()[other].item_id@ == item_id);
    assert(catalog.all()[index].item_id@ == item_id);
    assert(other == index);
}

/// A leading byte order mark is dropped, once, and bytes without one stay as they are.
pub proof fn marks_are_dropped(bytes: Seq<u8>)
    ensures
        without_mark(seq![0xEFu8, 0xBBu8, 0xBFu8] + bytes) == bytes,
        without_mark(bytes) == bytes || bytes == seq![0xEFu8, 0xBBu8, 0xBFu8] + without_mark(bytes),
        bytes.len() > 0 && bytes[0] != 0xEF ==> without_mark(bytes) == bytes,
{
    let mark = seq![0xEFu8, 0xBBu8, 0xBFu8];
    let marked = mark + bytes;
    assert(marked[0] == 0xEF && marked[1] == 0xBB && marked[2] == 0xBF);
    assert(marked.skip(3) =~= bytes);
    if has_byte_order_mark(bytes) {
        assert(bytes =~= mark + bytes.skip(3));
    }
}

/// Identifiers are words joined by single hyphens: two texts joined by one are an identifier just
/// where both are, and a text without hyphens where it is a word of small letters and digits.
pub proof fn identifiers_are_joined_words(left: Seq<char>, right: Seq<char>)
    ensures
        is_item_id(left + seq!['-'] + right) <==> is_item_id(left) && is_item_id(right),
        !left.contains('-') ==> (is_item_id(left) <==> left.len() > 0 && forall|at: int|
            0 <= at < left.len() ==> (('a' <= #[trigger] left[at] && left[at] <= 'z') || ('0'
                <= left[at] && left[at] <= '9'))),
{
    let all = left + seq!['-'] + right;
    let middle = left.len() as int;
    assert(all[middle] == '-');
    assert(forall|at: int| 0 <= at < left.len() ==> all[at] == left[at]);
    assert(forall|at: int| 0 <= at < right.len() ==> all[middle + 1 + at] == right[at]);
    if is_item_id(all) {
        assert(left.len() > 0) by {
            if left.len() == 0 {
                assert(all.first() == '-');
            }
        }
        assert(right.len() > 0) by {
            if right.len() == 0 {
                assert(all.last() == '-');
            }
        }
        assert(all[middle - 1] != '-');
        assert(all[middle + 1] != '-') by {
            if all[middle + 1] == '-' {
                assert(all[middle + 1 - 1] != '-');
            }
        }
        assert forall|at: int| 0 <= at < left.len() implies is_id_char(#[trigger] left[at]) by {
            assert(is_id_char(all[at]));
        }
        assert forall|at: int| 0 <= at < right.len() implies is_id_char(#[trigger] right[at]) by {
            assert(is_id_char(all[middle + 1 + at]));
        }
        assert forall|at: int| 0 < at < left.len() && #[trigger] left[at] == '-' implies left[at
            - 1] != '-' by {
            assert(all[at] == '-');
            assert(all[at - 1] == left[at - 1]);
        }
        assert forall|at: int| 0 < at < right.len() && #[trigger] right[at] == '-' implies right[at
            - 1] != '-' by {
            assert(all[middle + 1 + at] == '-');
            assert(all[middle + 1 + at - 1] == right[at - 1]);
        }
        assert(all.first() == left.first());
        assert(all.last() == right.last());
    }
    if is_item_id(left) && is_item_id(right) {
        assert forall|at: int| 0 <= at < all.len() implies is_id_char(#[trigger] all[at]) by {
            if at < middle {
                assert(is_id_char(left[at]));
            } else if at > middle {
                assert(is_id_char(right[at - middle - 1]));
                assert(all[at] == right[at - middle - 1]);
            }
        }
        assert forall|at: int| 0 < at < all.len() && #[trigger] all[at] == '-' implies all[at - 1]
            != '-' by {
            if at < middle {
                assert(left[at] == '-');
                assert(all[at - 1] == left[at - 1]);
            } else if at == middle {
                assert(all[at - 1] == left.last());
            } else if at == middle + 1 {
                assert(all[at] == right.first());
            } else {
                assert(all[at] == right[at - middle - 1]);
                assert(all[at - 1] == right[at - middle - 2]);
            }
        }
        assert(all.first() == left.first());
        assert(all.last() == right.last());
    }
    if !left.contains('-') {
        assert forall|at: int| 0 <= at < left.len() implies #[trigger] left[at] != '-' by {
            assert(left.contains(left[at]));
        }
        if is_item_id(left) {
            assert forall|at: int| 0 <= at < left.len() implies (('a' <= #[trigger] left[at]
                && left[at] <= 'z') || ('0' <= left[at] && left[at] <= '9')) by {
                assert(is_id_char(left[at]));
            }
        }
    }
}

/// An item is accepted just where its identifier is valid and new, its name and its path are not
/// blank, its icon is there and shown by no item before it, and it has a category if and only if it
/// is a stratagem.
pub proof fn sound_items_are_accepted(
    items: Seq<IconManifestItem>,
    index: int,
    embedded: Seq<String>,
)
    requires
        0 <= index < items.len(),
    ensures
        item_defect(items, index, embedded) is None <==> {
            let item = items[index];
            &&& is_item_id(item.item_id@)
            &&& trimmed(item.display_name@).len() > 0
            &&& trimmed(item.path@).len() > 0
            &&& item.category is Some <==> item.kind == ItemKind::Stratagem
            &&& exists|at: int| 0 <= at < embedded.len() && (#[trigger] embedded[at])@ == item.path@
            &&& forall|at: int|
                0 <= at < index ==> (#[trigger] items[at]).path@ != item.path@ && items[at].item_id@
                    != item.item_id@
        },
{
    let item = items[index];
    if path_used(items, index, item.path@) {
        let at = choose|at: int| 0 <= at < index && (#[trigger] items[at]).path@ == item.path@;
        assert(items[at].path@ == item.path@);
    }
    if id_used(items, index, item.item_id@) {
        let at = choose|at: int|
            0 <= at < index && (#[trigger] items[at]).item_id@ == item.item_id@;
        assert(items[at].item_id@ == item.item_id@);
    }
    if item_defect(items, index, embedded) is None {
        assert forall|at: int| 0 <= at < index implies (#[trigger] items[at]).path@ != item.path@
            && items[at].item_id@ != item.item_id@ by {
            assert(!path_used(items, index, item.path@));
            assert(!id_used(items, index, item.item_id@));
        }
    }
}

/// What is reported is one defect only.
pub proof fn errors_report_one_defect(
    error: CatalogError,
    item: IconManifestItem,
    left: ItemDefect,
    right: ItemDefect,
)
    requires
        reports(error, item, left),
        reports(error, item, right),
    ensures
        left == right,
{
}

/// An item that no record is of is not found.
pub proof fn unknown_items_are_not_found(catalog: IconCatalog, item_id: Seq<char>)
    ensures
        catalog.entry_of(item_id) is Some <==> exists|at: int|
            0 <= at < catalog.all().len() && (#[trigger] catalog.all()[at]).item_id@ == item_id,
        catalog.entry_of(item_id) matches Some(entry) ==> exists|at: int|
            0 <= at < catalog.all().len() && (#[trigger] catalog.all()[at]).item_id@ == item_id
                && catalog.all()[at].entry == entry,
{
    if exists|index: int| catalog.is_at(item_id, index) {
        let index = choose|index: int| catalog.is_at(item_id, index);
        assert(catalog.all()[index].item_id@ == item_id);
    }
    if exists|at: int|
        0 <= at < catalog.all().len() && (#[trigger] catalog.all()[at]).item_id@ == item_id {
        let at = choose|at: int|
            0 <= at < catalog.all().len() && (#[trigger] catalog.all()[at]).item_id@ == item_id;
        first_record_exists(catalog, item_id, at);
    }
}

proof fn first_record_exists(catalog: IconCatalog, item_id: Seq<char>, at: int)
    requires
        0 <= at < catalog.all().len(),
        catalog.all()[at].item_id@ == item_id,
    ensures
        exists|index: int| catalog.is_at(item_id, index),
    decreases at,
{
    if exists|earlier: int|
        0 <= earlier < at && (#[trigger] catalog.all()[earlier]).item_id@ == item_id {
        let earlier = choose|earlier: int|
            0 <= earlier < at && (#[trigger] catalog.all()[earlier]).item_id@ == item_id;
        first_record_exists(catalog, item_id, earlier);
    } else {
        assert(catalog.is_at(item_id, at));
    }
}

/// A PNG file gives an image of its size and with its samples, or the first thing that is wrong.
pub proof fn images_have_the_size_of_their_file(
    image: Result<Frame, PngError>,
    rgba8: bool,
    width: u32,
    height: u32,
    samples: Option<Seq<u8>>,
)
    requires
        is_png_image(image, Some((rgba8, width, height)), samples),
    ensures
        image is Ok <==> rgba8 && samples is Some,
        image matches Ok(frame) ==> frame.spec_width() == width && frame.spec_height() == height
            && samples == Some(frame.samples()),
        image matches Err(error) ==> error == if rgba8 {
            PngError::Data
        } else {
            PngError::NotRgba8
        },
{
}

} // verus!
