//! Capturing a region of the game's window: which region may be read, when a frame is fresh, and
//! how its bytes become an image.
use vstd::prelude::*;

use crate::vision::{pixel_at, pixel_offset, Frame, ImageRect, Rgba};
use crate::window::{ClientCrop, ClientPoint, WindowTarget};

verus! {

/// White level of a display without high dynamic range, in thousandths of 80 nits.
pub const DEFAULT_WHITE_LEVEL: u32 = 1000;

/// Milliseconds to wait for a fresh frame.
pub const FRAME_WAIT_TIMEOUT: u64 = 500;

/// The color state of a display.
#[derive(Clone, Copy, Debug, PartialEq, Eq, Structural)]
pub struct DisplayColorInfo {
    pub hdr_active: bool,
    pub sdr_white_level: u32,
}

/// How the samples of a captured frame are stored.
#[derive(Clone, Copy, Debug, PartialEq, Eq, Structural)]
pub enum CapturePixelFormat {
    Bgra8,
    Rgba16Float,
}

impl CapturePixelFormat {
    /// The format that holds what a display can show.
    pub open spec fn spec_for_display(display: DisplayColorInfo) -> Self {
        if display.hdr_active {
            CapturePixelFormat::Rgba16Float
        } else {
            CapturePixelFormat::Bgra8
        }
    }

    pub fn for_display(display: DisplayColorInfo) -> (format: Self)
        ensures
            format == Self::spec_for_display(display),
    {
        if display.hdr_active {
            CapturePixelFormat::Rgba16Float
        } else {
            CapturePixelFormat::Bgra8
        }
    }

    /// The name used in messages.
    pub open spec fn spec_label(self) -> &'static str {
        match self {
            CapturePixelFormat::Bgra8 => "bgra8",
            CapturePixelFormat::Rgba16Float => "rgba16f",
        }
    }

    pub fn label(self) -> (name: &'static str)
        ensures
            name@ == self.spec_label()@,
    {
        match self {
            CapturePixelFormat::Bgra8 => "bgra8",
            CapturePixelFormat::Rgba16Float => "rgba16f",
        }
    }

    pub open spec fn spec_bytes_per_pixel(self) -> int {
        match self {
            CapturePixelFormat::Bgra8 => 4,
            CapturePixelFormat::Rgba16Float => 8,
        }
    }

    pub fn bytes_per_pixel(self) -> (bytes: usize)
        ensures
            bytes == self.spec_bytes_per_pixel(),
    {
        match self {
            CapturePixelFormat::Bgra8 => 4,
            CapturePixelFormat::Rgba16Float => 8,
        }
    }
}

/// What must not change for an open capture to stay usable.
#[derive(Clone, Copy, Debug, PartialEq, Eq, Structural)]
pub struct CaptureRebuildSignature {
    pub handle: i64,
    pub client_w: u32,
    pub client_h: u32,
    pub crop: ClientCrop,
}

impl CaptureRebuildSignature {
    pub open spec fn spec_of(target: WindowTarget, crop: ClientCrop) -> Self {
        CaptureRebuildSignature {
            handle: target.handle,
            client_w: target.client_w,
            client_h: target.client_h,
            crop,
        }
    }

    pub fn from_window_target_and_crop(target: &WindowTarget, crop: ClientCrop) -> (signature: Self)
        ensures
            signature == Self::spec_of(*target, crop),
    {
        CaptureRebuildSignature {
            handle: target.handle,
            client_w: target.client_w,
            client_h: target.client_h,
            crop,
        }
    }
}

/// Why a capture cannot be opened or read.
#[derive(Clone, Copy, Debug, PartialEq, Eq, Structural)]
pub enum CaptureError {
    /// The capture item has no extent.
    InvalidItemSize { item_w: i32, item_h: i32 },
    /// The client area does not lie in the captured frame.
    CropOutsideFrame { crop: ClientCrop, width: u32, height: u32 },
    EmptyRegion,
    /// The region does not lie in the client area.
    RegionOutsideClient { region: ImageRect, width: u32, height: u32 },
    /// The region does not lie in the content of the texture.
    RegionOutsideContent { region: ImageRect, width: u32, height: u32 },
    /// The texture has a format that cannot be read.
    UnsupportedFormat,
    /// The frames were closed.
    Closed,
    /// No fresh frame came in time.
    TimedOut,
}

/// An open capture of a window.
#[derive(Debug)]
pub struct CaptureSource {
    pub signature: CaptureRebuildSignature,
    pub display: DisplayColorInfo,
    pub pixel_format: CapturePixelFormat,
    /// Number of the last frame that was read.
    pub consumed_generation: u64,
}

/// A region of a capture.
#[derive(Clone, Copy, Debug)]
pub struct CaptureRegion<'a> {
    pub source: &'a CaptureSource,
    pub rect: ImageRect,
}

/// Why a window cannot be captured, or nothing.
pub open spec fn open_error(item_w: i32, item_h: i32, crop: ClientCrop) -> Option<CaptureError> {
    if item_w <= 0 || item_h <= 0 {
        Some(CaptureError::InvalidItemSize { item_w, item_h })
    } else if crop.x + crop.w > item_w || crop.y + crop.h > item_h {
        Some(
            CaptureError::CropOutsideFrame { crop, width: item_w as u32, height: item_h as u32 },
        )
    } else {
        None
    }
}

/// Why a region of a client area cannot be read, or nothing.
pub open spec fn region_error(region: ImageRect, width: u32, height: u32) -> Option<CaptureError> {
    if region.w == 0 || region.h == 0 {
        Some(CaptureError::EmptyRegion)
    } else if region.x + region.w > width || region.y + region.h > height {
        Some(CaptureError::RegionOutsideClient { region, width, height })
    } else {
        None
    }
}

impl CaptureSource {
    /// A capture of a window whose captured frame has the given size.
    pub fn new_for_window_target(
        target: &WindowTarget,
        crop: ClientCrop,
        item_w: i32,
        item_h: i32,
        display: DisplayColorInfo,
    ) -> (source: Result<Self, CaptureError>)
        ensures
            match source {
                Ok(opened) => {
                    &&& open_error(item_w, item_h, crop) is None
                    &&& opened == (CaptureSource {
                        signature: CaptureRebuildSignature::spec_of(*target, crop),
                        display,
                        pixel_format: CapturePixelFormat::spec_for_display(display),
                        consumed_generation: 0,
                    })
                },
                Err(error) => open_error(item_w, item_h, crop) == Some(error),
            },
    {
        if item_w <= 0 || item_h <= 0 {
            return Err(CaptureError::InvalidItemSize { item_w, item_h });
        }
        if crop.x as u64 + crop.w as u64 > item_w as u64 || crop.y as u64 + crop.h as u64
            > item_h as u64 {
            return Err(
                CaptureError::CropOutsideFrame {
                    crop,
                    width: item_w as u32,
                    height: item_h as u32,
                },
            );
        }
        Ok(
            CaptureSource {
                signature: CaptureRebuildSignature::from_window_target_and_crop(target, crop),
                display,
                pixel_format: CapturePixelFormat::for_display(display),
                consumed_generation: 0,
            },
        )
    }

    /// The capture still serves a window: the window lives and has the same shape, and its display
    /// needs the same format, where that is known.
    pub open spec fn serves(
        self,
        signature: Option<CaptureRebuildSignature>,
        alive: bool,
        display: Option<DisplayColorInfo>,
    ) -> bool {
        &&& display matches Some(info) ==> CapturePixelFormat::spec_for_display(info)
            == self.pixel_format
        &&& alive
        &&& signature == Some(self.signature)
    }

    /// Whether the capture can go on to be used. It then takes over the color state of the
    /// display, where that is known.
    pub fn try_reuse_for_window_target(
        &mut self,
        signature: Option<CaptureRebuildSignature>,
        alive: bool,
        display: Option<DisplayColorInfo>,
    ) -> (reusable: bool)
        ensures
            reusable == old(self).serves(signature, alive, display),
            final(self).signature == old(self).signature,
            final(self).pixel_format == old(self).pixel_format,
            final(self).consumed_generation == old(self).consumed_generation,
            final(self).display == match display {
                Some(info) if reusable => info,
                _ => old(self).display,
            },
    {
        if let Some(info) = display {
            if CapturePixelFormat::for_display(info) != self.pixel_format {
                return false;
            }
        }
        let unchanged = match signature {
            Some(current) => current == self.signature,
            None => false,
        };
        if !alive || !unchanged {
            return false;
        }
        if let Some(info) = display {
            self.display = info;
        }
        true
    }

    /// Width and height of the captured client area.
    pub fn output_size(&self) -> (size: (u32, u32))
        ensures
            size.0 == self.signature.crop.w,
            size.1 == self.signature.crop.h,
    {
        (self.signature.crop.w, self.signature.crop.h)
    }

    pub fn region(&self, rect: ImageRect) -> (region: CaptureRegion<'_>)
        ensures
            region.source == self,
            region.rect == rect,
    {
        CaptureRegion { source: self, rect }
    }
}

impl<'a> CaptureRegion<'a> {
    /// The point of the client area under a point of the region. The captured client area is not
    /// scaled, so both count the same pixels.
    pub fn map_to_client(&self, local: (u32, u32)) -> (point: ClientPoint)
        ensures
            point.x == self.rect.x + local.0,
            point.y == self.rect.y + local.1,
            point.x <= 0x1_ffff_ffff,
            point.y <= 0x1_ffff_ffff,
    {
        ClientPoint {
            x: self.rect.x as u64 + local.0 as u64,
            y: self.rect.y as u64 + local.1 as u64,
        }
    }

    /// Where the region lies in the captured frame.
    pub fn source_region(&self) -> (region: Result<ImageRect, CaptureError>)
        requires
            self.source.signature.crop.x + self.source.signature.crop.w <= u32::MAX,
            self.source.signature.crop.y + self.source.signature.crop.h <= u32::MAX,
        ensures
            ({
                let crop = self.source.signature.crop;
                match region {
                    Ok(found) => {
                        &&& region_error(self.rect, crop.w, crop.h) is None
                        &&& found.x == crop.x + self.rect.x
                        &&& found.y == crop.y + self.rect.y
                        &&& found.w == self.rect.w
                        &&& found.h == self.rect.h
                    },
                    Err(error) => region_error(self.rect, crop.w, crop.h) == Some(error),
                }
            }),
    {
        let crop = self.source.signature.crop;
        let rect = self.rect;
        if rect.w == 0 || rect.h == 0 {
            return Err(CaptureError::EmptyRegion);
        }
        if rect.x as u64 + rect.w as u64 > crop.w as u64 || rect.y as u64 + rect.h as u64
            > crop.h as u64 {
            return Err(
                CaptureError::RegionOutsideClient { region: rect, width: crop.w, height: crop.h },
            );
        }
        Ok(ImageRect { x: crop.x + rect.x, y: crop.y + rect.y, w: rect.w, h: rect.h })
    }
}

/// A region that may be read lies inside the captured frame of its window.
pub proof fn read_region_lies_in_the_frame(
    item_w: i32,
    item_h: i32,
    crop: ClientCrop,
    region: ImageRect,
)
    requires
        open_error(item_w, item_h, crop) is None,
        region_error(region, crop.w, crop.h) is None,
    ensures
        crop.x + region.x + region.w <= item_w,
        crop.y + region.y + region.h <= item_h,
{
}

/// The frames that arrive while a window is captured. Only the newest is kept.
#[derive(Clone, Copy, Debug, PartialEq, Eq, Structural)]
pub struct FrameBus {
    /// Number of the newest frame.
    pub generation: u64,
    /// The newest frame has not been taken.
    pub has_latest: bool,
    pub closed: bool,
}

/// What to do while waiting for a frame.
#[derive(Clone, Copy, Debug, PartialEq, Eq, Structural)]
pub enum FrameStep {
    /// Take the newest frame. It has this number, and so many frames were skipped before it.
    Take { generation: u64, skipped: u64 },
    /// Wait for at most this many milliseconds.
    Wait { remaining: u64 },
    Fail(CaptureError),
}

impl FrameBus {
    pub fn new() -> (bus: Self)
        ensures
            bus == (FrameBus { generation: 0, has_latest: false, closed: false }),
    {
        FrameBus { generation: 0, has_latest: false, closed: false }
    }

    /// Takes in `received` new frames, of which the newest is kept. Returns whether it is kept: a
    /// closed bus keeps none.
    pub fn publish(&mut self, received: u64) -> (kept: bool)
        requires
            received > 0,
        ensures
            kept == !old(self).closed,
            final(self).closed == old(self).closed,
            if kept {
                &&& final(self).has_latest
                &&& final(self).generation == if old(self).generation + received <= u64::MAX {
                    old(self).generation + received
                } else {
                    u64::MAX as int
                }
            } else {
                *final(self) == *old(self)
            },
    {
        if self.closed {
            return false;
        }
        self.has_latest = true;
        self.generation = self.generation.saturating_add(received);
        true
    }

    pub fn close(&mut self)
        ensures
            final(self).closed,
            !final(self).has_latest,
            final(self).generation == old(self).generation,
    {
        self.closed = true;
        self.has_latest = false;
    }

    /// The newest frame was not read before.
    pub open spec fn is_fresh(self, consumed: u64) -> bool {
        self.generation > consumed && self.has_latest
    }

    /// How to go on after waiting for `elapsed` milliseconds for a frame after the one with the
    /// number `consumed`. `timed_out` tells that the last wait ended without a sign of a new frame.
    pub open spec fn polled(self, consumed: u64, elapsed: u64, timed_out: bool) -> FrameStep {
        if timed_out && !self.is_fresh(consumed) {
            FrameStep::Fail(CaptureError::TimedOut)
        } else if self.closed {
            FrameStep::Fail(CaptureError::Closed)
        } else if self.is_fresh(consumed) {
            FrameStep::Take {
                generation: self.generation,
                skipped: if consumed == 0 {
                    0
                } else {
                    (self.generation - consumed - 1) as u64
                },
            }
        } else if elapsed > 500 {
            FrameStep::Fail(CaptureError::TimedOut)
        } else {
            FrameStep::Wait { remaining: (500 - elapsed) as u64 }
        }
    }

    /// Decides how to go on while waiting for a frame.
    pub fn poll(&self, consumed: u64, elapsed: u64, timed_out: bool) -> (step: FrameStep)
        ensures
            step == self.polled(consumed, elapsed, timed_out),
    {
        let fresh = self.generation > consumed && self.has_latest;
        if timed_out && !fresh {
            return FrameStep::Fail(CaptureError::TimedOut);
        }
        if self.closed {
            return FrameStep::Fail(CaptureError::Closed);
        }
        if fresh {
            let skipped: u64 = if consumed == 0 {
                0
            } else {
                self.generation - consumed - 1
            };
            return FrameStep::Take { generation: self.generation, skipped };
        }
        if elapsed > FRAME_WAIT_TIMEOUT {
            FrameStep::Fail(CaptureError::TimedOut)
        } else {
            FrameStep::Wait { remaining: FRAME_WAIT_TIMEOUT - elapsed }
        }
    }

    /// Hands out the newest frame.
    pub fn take(&mut self)
        ensures
            !final(self).has_latest,
            final(self).generation == old(self).generation,
            final(self).closed == old(self).closed,
    {
        self.has_latest = false;
    }
}

impl CaptureSource {
    /// Looks for a frame that was not read before, and takes it off the bus.
    pub fn next_frame(&self, bus: &mut FrameBus, elapsed: u64, timed_out: bool) -> (step: FrameStep)
        ensures
            step == old(bus).polled(self.consumed_generation, elapsed, timed_out),
            *final(bus) == if step is Take {
                FrameBus { has_latest: false, ..*old(bus) }
            } else {
                *old(bus)
            },
    {
        let step = bus.poll(self.consumed_generation, elapsed, timed_out);
        if let FrameStep::Take { .. } = step {
            bus.take();
        }
        step
    }

    /// Ends the read of a frame that was taken. Only a frame whose region could be read counts as
    /// read.
    pub fn finish_read<E>(&mut self, generation: u64, read: Result<Frame, E>) -> (image: Result<
        Frame,
        E,
    >)
        ensures
            image == read,
            final(self).consumed_generation == if read is Ok {
                generation
            } else {
                old(self).consumed_generation
            },
            final(self).signature == old(self).signature,
            final(self).display == old(self).display,
            final(self).pixel_format == old(self).pixel_format,
    {
        if read.is_ok() {
            self.consumed_generation = generation;
        }
        read
    }
}

/// A look for a frame: the bus at that time, how long was waited, and whether the region of a frame
/// that is taken then can be read.
pub struct CaptureLook {
    pub bus: FrameBus,
    pub elapsed: u64,
    pub timed_out: bool,
    pub readable: bool,
}

/// The number of the frame that a look leads to reading, if it does.
pub open spec fn read_at(look: CaptureLook, consumed: u64) -> Option<u64> {
    match look.bus.polled(consumed, look.elapsed, look.timed_out) {
        FrameStep::Take { generation, .. } if look.readable => Some(generation),
        _ => None,
    }
}

/// The number of the last frame that was read after some looks.
pub open spec fn consumed_after(looks: Seq<CaptureLook>, consumed: u64) -> u64
    decreases looks.len(),
{
    if looks.len() == 0 {
        consumed
    } else {
        let before = consumed_after(looks.drop_last(), consumed);
        match read_at(looks.last(), before) {
            Some(generation) => generation,
            None => before,
        }
    }
}

/// The numbers of the frames that are read by a series of looks, in their order.
pub open spec fn numbers_read(looks: Seq<CaptureLook>, consumed: u64) -> Seq<u64>
    decreases looks.len(),
{
    if looks.len() == 0 {
        Seq::empty()
    } else {
        let before = numbers_read(looks.drop_last(), consumed);
        match read_at(looks.last(), consumed_after(looks.drop_last(), consumed)) {
            Some(generation) => before.push(generation),
            None => before,
        }
    }
}

/// The numbers of the frames that are read one after another strictly grow, whatever the frames
/// that arrive in between: no frame is read twice, and none after a later one.
pub proof fn frames_are_read_once(looks: Seq<CaptureLook>, consumed: u64)
    ensures
        forall|at: int|
            0 <= at < numbers_read(looks, consumed).len() ==> consumed < #[trigger] numbers_read(
                looks,
                consumed,
            )[at] <= consumed_after(looks, consumed),
        forall|left: int, right: int|
            0 <= left < right < numbers_read(looks, consumed).len() ==> #[trigger] numbers_read(
                looks,
                consumed,
            )[left] < #[trigger] numbers_read(looks, consumed)[right],
        consumed <= consumed_after(looks, consumed),
    decreases looks.len(),
{
    if looks.len() > 0 {
        let front = looks.drop_last();
        frames_are_read_once(front, consumed);
        let before = numbers_read(front, consumed);
        let all = numbers_read(looks, consumed);
        assert forall|at: int| 0 <= at < all.len() implies consumed < #[trigger] all[at]
            <= consumed_after(looks, consumed) by {
            if at < before.len() {
                assert(all[at] == before[at]);
            }
        }
        assert forall|left: int, right: int| 0 <= left < right < all.len() implies #[trigger] all[
        left] < #[trigger] all[right] by {
            assert(all[left] == before[left]);
            if right < before.len() {
                assert(all[right] == before[right]);
            }
        }
    }
}

/// Without a frame that was not read before, no frame is read. Once the wait has lasted for more
/// than half a second, or ended without a new frame, it fails.
pub proof fn stale_frames_are_not_read(
    bus: FrameBus,
    consumed: u64,
    elapsed: u64,
    timed_out: bool,
)
    requires
        !bus.is_fresh(consumed),
    ensures
        !(bus.polled(consumed, elapsed, timed_out) is Take),
        elapsed > 500 || timed_out ==> bus.polled(consumed, elapsed, timed_out) is Fail,
{
}

/// The storage that a region is read through.
#[derive(Clone, Copy, Debug, PartialEq, Eq, Structural)]
pub struct StagingKey {
    pub width: u32,
    pub height: u32,
    pub format: CapturePixelFormat,
}

/// How a region of a texture is read.
#[derive(Clone, Copy, Debug, PartialEq, Eq, Structural)]
pub struct ReadPlan {
    pub staging: StagingKey,
    /// The storage of the last read does not fit and has to be made anew.
    pub rebuild_staging: bool,
    /// Right and lower end of the region in the texture.
    pub right: u32,
    pub bottom: u32,
}

/// A size that the system reports, at least one.
pub open spec fn at_least_one(size: int) -> int {
    if size > 1 {
        size
    } else {
        1
    }
}

/// How much of a texture holds content.
pub open spec fn content_extent(content: i32, texture: u32) -> int {
    let content = at_least_one(content as int);
    let texture = at_least_one(texture as int);
    if content < texture {
        content
    } else {
        texture
    }
}

fn content_length(content: i32, texture: u32) -> (length: u32)
    ensures
        length == content_extent(content, texture),
{
    let content: u32 = if content > 1 {
        content as u32
    } else {
        1
    };
    let texture: u32 = if texture > 1 {
        texture
    } else {
        1
    };
    if content < texture {
        content
    } else {
        texture
    }
}

/// Why a region of a texture cannot be read, or nothing.
pub open spec fn read_error(
    format: Option<CapturePixelFormat>,
    texture_w: u32,
    texture_h: u32,
    content_w: i32,
    content_h: i32,
    region: ImageRect,
) -> Option<CaptureError> {
    let width = content_extent(content_w, texture_w);
    let height = content_extent(content_h, texture_h);
    if format is None {
        Some(CaptureError::UnsupportedFormat)
    } else if region.w == 0 || region.h == 0 {
        Some(CaptureError::EmptyRegion)
    } else if region.x + region.w > width || region.y + region.h > height {
        Some(
            CaptureError::RegionOutsideContent {
                region,
                width: width as u32,
                height: height as u32,
            },
        )
    } else {
        None
    }
}

/// Plans the read of a region of a texture. The storage of the last read is used again if it has
/// the same size and format.
pub fn plan_texture_read(
    format: Option<CapturePixelFormat>,
    texture_w: u32,
    texture_h: u32,
    content_w: i32,
    content_h: i32,
    region: ImageRect,
    cached: Option<StagingKey>,
) -> (plan: Result<ReadPlan, CaptureError>)
    ensures
        match plan {
            Ok(found) => {
                &&& read_error(format, texture_w, texture_h, content_w, content_h, region) is None
                &&& found.staging == (StagingKey {
                    width: region.w,
                    height: region.h,
                    format: format->0,
                })
                &&& found.rebuild_staging == (cached != Some(found.staging))
                &&& found.right == region.x + region.w
                &&& found.bottom == region.y + region.h
            },
            Err(error) => read_error(
                format,
                texture_w,
                texture_h,
                content_w,
                content_h,
                region,
            ) == Some(error),
        },
{
    let format = match format {
        Some(format) => format,
        None => return Err(CaptureError::UnsupportedFormat),
    };
    let width: u32 = content_length(content_w, texture_w);
    let height: u32 = content_length(content_h, texture_h);
    if region.w == 0 || region.h == 0 {
        return Err(CaptureError::EmptyRegion);
    }
    if region.x as u64 + region.w as u64 > width as u64 || region.y as u64 + region.h as u64
        > height as u64 {
        return Err(CaptureError::RegionOutsideContent { region, width, height });
    }
    let staging = StagingKey { width: region.w, height: region.h, format };
    let rebuild_staging = match cached {
        Some(key) => key != staging,
        None => true,
    };
    Ok(
        ReadPlan {
            staging,
            rebuild_staging,
            right: region.x + region.w,
            bottom: region.y + region.h,
        },
    )
}

/// The number of a little endian pair of bytes.
pub open spec fn le_pair(bytes: Seq<u8>, at: int) -> int {
    bytes[at] + 256 * bytes[at + 1]
}

/// How many entries a table has for the samples of a format: one for each bit pattern.
pub open spec fn table_len(format: CapturePixelFormat) -> int {
    match format {
        CapturePixelFormat::Rgba16Float => 65536,
        CapturePixelFormat::Bgra8 => 256,
    }
}

/// The pixel whose samples start at `at`, each sample looked up in `table`, without transparency.
pub open spec fn looked_up_at(
    format: CapturePixelFormat,
    bytes: Seq<u8>,
    table: Seq<u8>,
    at: int,
) -> Rgba {
    match format {
        CapturePixelFormat::Rgba16Float => Rgba {
            r: table[le_pair(bytes, at)],
            g: table[le_pair(bytes, at + 2)],
            b: table[le_pair(bytes, at + 4)],
            a: 255,
        },
        CapturePixelFormat::Bgra8 => Rgba {
            r: table[bytes[at + 2] as int],
            g: table[bytes[at + 1] as int],
            b: table[bytes[at] as int],
            a: 255,
        },
    }
}

/// The pixel at (`x`, `y`) of rows that are `row_pitch` bytes apart.
pub open spec fn looked_up(
    format: CapturePixelFormat,
    bytes: Seq<u8>,
    row_pitch: int,
    table: Seq<u8>,
    x: int,
    y: int,
) -> Rgba {
    looked_up_at(format, bytes, table, y * row_pitch + format.spec_bytes_per_pixel() * x)
}

/// `bytes` holds `height` rows of `width` pixels, `row_pitch` bytes apart.
pub open spec fn holds_rows(
    format: CapturePixelFormat,
    bytes: Seq<u8>,
    row_pitch: int,
    width: int,
    height: int,
) -> bool {
    let row_len = format.spec_bytes_per_pixel() * width;
    row_len <= row_pitch && (height > 0 ==> (height - 1) * row_pitch + row_len <= bytes.len())
}

fn look_up(
    format: CapturePixelFormat,
    source: &Vec<u8>,
    table: &Vec<u8>,
    at: usize,
) -> (pixel: Rgba)
    requires
        at + format.spec_bytes_per_pixel() <= source@.len(),
        table@.len() == table_len(format),
    ensures
        pixel == looked_up_at(format, source@, table@, at as int),
{
    assert(source@.len() == source.len());
    match format {
        CapturePixelFormat::Rgba16Float => Rgba {
            r: table[source[at] as usize + 256 * source[at + 1] as usize],
            g: table[source[at + 2] as usize + 256 * source[at + 3] as usize],
            b: table[source[at + 4] as usize + 256 * source[at + 5] as usize],
            a: 255,
        },
        CapturePixelFormat::Bgra8 => Rgba {
            r: table[source[at + 2] as usize],
            g: table[source[at + 1] as usize],
            b: table[source[at] as usize],
            a: 255,
        },
    }
}

/// Looks up every sample of a row of pixels.
fn convert_row(
    format: CapturePixelFormat,
    source: &Vec<u8>,
    start: usize,
    width: u32,
    table: &Vec<u8>,
    destination: &mut Vec<u8>,
)
    requires
        start + format.spec_bytes_per_pixel() * width <= source@.len(),
        table@.len() == table_len(format),
    ensures
        final(destination)@.len() == old(destination)@.len() + 4 * width,
        final(destination)@.take(old(destination)@.len() as int) == old(destination)@,
        forall|x: int|
            0 <= x < width ==> #[trigger] row_pixel(
                final(destination)@,
                old(destination)@.len() as int,
                x,
            ) == looked_up_at(
                format,
                source@,
                table@,
                start + format.spec_bytes_per_pixel() * x,
            ),
{
    let ghost begin = destination@;
    let size: usize = format.bytes_per_pixel();
    let mut x: u32 = 0;
    while x < width
        invariant
            x <= width,
            size == format.spec_bytes_per_pixel(),
            start + size * width <= source@.len(),
            table@.len() == table_len(format),
            begin == old(destination)@,
            destination@.len() == begin.len() + 4 * x,
            destination@.take(begin.len() as int) == begin,
            forall|done: int|
                0 <= done < x ==> #[trigger] row_pixel(destination@, begin.len() as int, done)
                    == looked_up_at(format, source@, table@, start + size * done),
        decreases width - x,
    {
        assert(source@.len() == source.len());
        let ghost before = destination@;
        let pixel = look_up(format, source, table, start + size * x as usize);
        destination.push(pixel.r);
        destination.push(pixel.g);
        destination.push(pixel.b);
        destination.push(pixel.a);
        proof {
            assert(destination@.take(begin.len() as int) =~= before.take(begin.len() as int));
            assert forall|done: int| 0 <= done < x + 1 implies #[trigger] row_pixel(
                destination@,
                begin.len() as int,
                done,
            ) == looked_up_at(format, source@, table@, start + size * done) by {
                if done < x {
                    assert(row_pixel(before, begin.len() as int, done) == looked_up_at(
                        format,
                        source@,
                        table@,
                        start + size * done,
                    ));
                }
            }
        }
        x = x + 1;
    }
}

/// The pixel `x` of a row whose samples start at `begin`.
pub open spec fn row_pixel(data: Seq<u8>, begin: int, x: int) -> Rgba {
    let at = begin + 4 * x;
    Rgba { r: data[at], g: data[at + 1], b: data[at + 2], a: data[at + 3] }
}

/// The image of rows of pixels: every sample is looked up in a table with one entry for each bit
/// pattern.
pub fn rows_to_image(
    format: CapturePixelFormat,
    bytes: &Vec<u8>,
    row_pitch: usize,
    width: u32,
    height: u32,
    table: &Vec<u8>,
) -> (image: Frame)
    requires
        holds_rows(format, bytes@, row_pitch as int, width as int, height as int),
        table@.len() == table_len(format),
    ensures
        image.spec_width() == width,
        image.spec_height() == height,
        forall|x: int, y: int|
            0 <= x < width && 0 <= y < height ==> #[trigger] image.pixel(x, y) == looked_up(
                format,
                bytes@,
                row_pitch as int,
                table@,
                x,
                y,
            ),
{
    let mut rgba: Vec<u8> = Vec::new();
    let mut row: u32 = 0;
    let ghost w = width as int;
    let ghost pitch = row_pitch as int;
    assert(0 * w == 0) by (nonlinear_arith);
    while row < height
        invariant
            row <= height,
            w == width,
            pitch == row_pitch,
            holds_rows(format, bytes@, pitch, w, height as int),
            table@.len() == table_len(format),
            rgba@.len() == 4 * (row as int * w),
            forall|x: int, y: int|
                0 <= x < w && 0 <= y < row ==> #[trigger] pixel_at(rgba@, w, x, y) == looked_up(
                    format,
                    bytes@,
                    pitch,
                    table@,
                    x,
                    y,
                ),
        decreases height - row,
    {
        let ghost before = rgba@;
        let ghost r = row as int;
        proof {
            let h = height as int;
            assert(r * pitch <= (h - 1) * pitch) by (nonlinear_arith)
                requires
                    0 <= r <= h - 1,
                    0 <= pitch,
            ;
            assert((r + 1) * w == r * w + w) by (nonlinear_arith);
            assert(0 <= r * pitch) by (nonlinear_arith)
                requires
                    0 <= r,
                    0 <= pitch,
            ;
        }
        assert(bytes@.len() == bytes.len());
        let start: usize = row as usize * row_pitch;
        convert_row(format, bytes, start, width, table, &mut rgba);
        proof {
            assert forall|x: int, y: int| 0 <= x < w && 0 <= y < r + 1 implies #[trigger] pixel_at(
                rgba@,
                w,
                x,
                y,
            ) == looked_up(format, bytes@, pitch, table@, x, y) by {
                let at = pixel_offset(w, x, y);
                if y < r {
                    assert(0 <= y * w && y * w + x < r * w) by (nonlinear_arith)
                        requires
                            0 <= x < w,
                            0 <= y < r,
                    ;
                    let kept = rgba@.take(before.len() as int);
                    assert(kept[at] == before[at] && kept[at + 1] == before[at + 1] && kept[at + 2]
                        == before[at + 2] && kept[at + 3] == before[at + 3]);
                    assert(pixel_at(before, w, x, y) == looked_up(
                        format,
                        bytes@,
                        pitch,
                        table@,
                        x,
                        y,
                    ));
                } else {
                    assert(at == before.len() + 4 * x);
                    assert(row_pixel(rgba@, before.len() as int, x) == looked_up_at(
                        format,
                        bytes@,
                        table@,
                        start + format.spec_bytes_per_pixel() * x,
                    ));
                }
            }
        }
        row = row + 1;
    }
    proof {
        assert(height as int * w == w * height as int) by (nonlinear_arith);
    }
    let image = Frame::from_samples(width, height, rgba);
    assert forall|x: int, y: int|
        0 <= x < width && 0 <= y < height implies #[trigger] image.pixel(x, y) == looked_up(
        format,
        bytes@,
        pitch,
        table@,
        x,
        y,
    ) by {
        assert(image.pixel(x, y) == pixel_at(rgba@, w, x, y));
    }
    image
}

/// The pixel at (`x`, `y`) of converted samples, row by row, without transparency.
pub open spec fn opaque_pixel(rgb: Seq<u8>, width: int, x: int, y: int) -> Rgba {
    let at = 3 * (y * width + x);
    Rgba { r: rgb[at], g: rgb[at + 1], b: rgb[at + 2], a: 255 }
}

/// The image of converted samples of red, green and blue.
fn opaque_image(rgb: &Vec<u8>, width: u32, height: u32) -> (image: Frame)
    requires
        rgb@.len() == 3 * (width as int * height as int),
    ensures
        image.spec_width() == width,
        image.spec_height() == height,
        forall|x: int, y: int|
            0 <= x < width && 0 <= y < height ==> #[trigger] image.pixel(x, y) == opaque_pixel(
                rgb@,
                width as int,
                x,
                y,
            ),
{
    let ghost area = width as int * height as int;
    let mut rgba: Vec<u8> = Vec::new();
    let mut at: usize = 0;
    let ghost mut count: int = 0;
    while at < rgb.len()
        invariant
            at == 3 * count,
            0 <= count <= area,
            rgb@.len() == 3 * area,
            rgba@.len() == 4 * count,
            forall|done: int|
                0 <= done < count ==> #[trigger] row_pixel(rgba@, 0, done) == (Rgba {
                    r: rgb@[3 * done],
                    g: rgb@[3 * done + 1],
                    b: rgb@[3 * done + 2],
                    a: 255,
                }),
        decreases rgb@.len() - at,
    {
        assert(rgb@.len() == rgb.len());
        let ghost before = rgba@;
        rgba.push(rgb[at]);
        rgba.push(rgb[at + 1]);
        rgba.push(rgb[at + 2]);
        rgba.push(255);
        proof {
            assert forall|done: int| 0 <= done < count + 1 implies #[trigger] row_pixel(
                rgba@,
                0,
                done,
            ) == (Rgba {
                r: rgb@[3 * done],
                g: rgb@[3 * done + 1],
                b: rgb@[3 * done + 2],
                a: 255,
            }) by {
                if done < count {
                    assert(row_pixel(before, 0, done) == row_pixel(rgba@, 0, done));
                }
            }
            count = count + 1;
        }
        at = at + 3;
    }
    let image = Frame::from_samples(width, height, rgba);
    assert forall|x: int, y: int|
        0 <= x < width && 0 <= y < height implies #[trigger] image.pixel(x, y) == opaque_pixel(
        rgb@,
        width as int,
        x,
        y,
    ) by {
        let w = width as int;
        assert(0 <= y * w && y * w + x < area) by (nonlinear_arith)
            requires
                0 <= x < w,
                0 <= y < height,
                area == w * height as int,
        ;
        assert(row_pixel(rgba@, 0, y * w + x) == image.pixel(x, y));
    }
    image
}

/// The samples of a captured region.
pub enum CapturedRows<'a> {
    /// Samples as they were captured, with a table of what they stand for.
    Raw { format: CapturePixelFormat, bytes: &'a Vec<u8>, row_pitch: usize, table: &'a Vec<u8> },
    /// Samples of red, green and blue that were converted one by one.
    Converted { rgb: &'a Vec<u8> },
}

impl<'a> CapturedRows<'a> {
    /// There are samples for a region of this size.
    pub open spec fn fills(&self, width: int, height: int) -> bool {
        match *self {
            CapturedRows::Raw { format, bytes, row_pitch, table } => holds_rows(
                format,
                bytes@,
                row_pitch as int,
                width,
                height,
            ) && table@.len() == table_len(format),
            CapturedRows::Converted { rgb } => rgb@.len() == 3 * (width * height),
        }
    }

    /// The pixel at (`x`, `y`) of a region of this width, counted from the top left.
    pub open spec fn pixel(&self, width: int, x: int, y: int) -> Rgba {
        match *self {
            CapturedRows::Raw { format, bytes, row_pitch, table } => looked_up(
                format,
                bytes@,
                row_pitch as int,
                table@,
                x,
                y,
            ),
            CapturedRows::Converted { rgb } => opaque_pixel(rgb@, width, x, y),
        }
    }
}

impl CaptureSource {
    /// Ends the capture of a region of this size off a frame that was taken: the image of its
    /// samples. Only a frame whose region could be read counts as read.
    pub fn finish_capture<E>(
        &mut self,
        generation: u64,
        width: u32,
        height: u32,
        rows: Result<CapturedRows<'_>, E>,
    ) -> (image: Result<Frame, E>)
        requires
            rows matches Ok(read) ==> read.fills(width as int, height as int),
        ensures
            image is Ok == rows is Ok,
            rows matches Err(error) ==> image == Err::<Frame, E>(error),
            image matches Ok(picture) ==> {
                &&& is_picture(picture, width, height)
                &&& forall|x: int, y: int|
                    0 <= x < width && 0 <= y < height ==> #[trigger] picture.pixel(x, y)
                        == rows->Ok_0.pixel(width as int, x, y)
            },
            final(self).consumed_generation == if rows is Ok {
                generation
            } else {
                old(self).consumed_generation
            },
            final(self).signature == old(self).signature,
            final(self).display == old(self).display,
            final(self).pixel_format == old(self).pixel_format,
    {
        let read = match rows {
            Ok(CapturedRows::Raw { format, bytes, row_pitch, table }) => Ok(
                rows_to_image(format, bytes, row_pitch, width, height, table),
            ),
            Ok(CapturedRows::Converted { rgb }) => Ok(opaque_image(rgb, width, height)),
            Err(error) => Err(error),
        };
        self.finish_read(generation, read)
    }
}

/// An image of this size without transparency.
pub open spec fn is_picture(image: Frame, width: u32, height: u32) -> bool {
    &&& image.spec_width() == width
    &&& image.spec_height() == height
    &&& forall|x: int, y: int|
        0 <= x < width && 0 <= y < height ==> (#[trigger] image.pixel(x, y)).a == 255
}

/// A capture of a region: the look for a frame that ended the wait, and the image that it gave,
/// if it did.
pub struct Capture {
    pub look: CaptureLook,
    pub width: u32,
    pub height: u32,
    pub image: Option<Frame>,
}

/// The capture went as `next_frame` and `finish_capture` have it: it gives an image of the region
/// just where a frame is taken and can be read.
pub open spec fn is_made(capture: Capture, consumed: u64) -> bool {
    match capture.image {
        Some(image) => read_at(capture.look, consumed) is Some && is_picture(
            image,
            capture.width,
            capture.height,
        ),
        None => read_at(capture.look, consumed) is None,
    }
}

/// The looks of a series of captures.
pub open spec fn looks_of(captures: Seq<Capture>) -> Seq<CaptureLook> {
    captures.map_values(|capture: Capture| capture.look)
}

/// The number of the last frame that was read before the capture at `at`.
pub open spec fn consumed_before(captures: Seq<Capture>, consumed: u64, at: int) -> u64 {
    consumed_after(looks_of(captures.take(at)), consumed)
}

proof fn read_numbers_last(captures: Seq<Capture>, consumed: u64, earlier: int, later: int)
    requires
        0 <= earlier < later <= captures.len(),
    ensures
        consumed_before(captures, consumed, earlier) <= consumed_before(captures, consumed, later),
        read_at(
            captures[earlier].look,
            consumed_before(captures, consumed, earlier),
        ) matches Some(number) ==> number <= consumed_before(captures, consumed, later),
    decreases later - earlier,
{
    let looks = looks_of(captures.take(later));
    assert(looks.drop_last() =~= looks_of(captures.take(later - 1)));
    assert(looks.last() == captures[later - 1].look);
    if earlier < later - 1 {
        read_numbers_last(captures, consumed, earlier, later - 1);
    }
}

/// What a series of captures gives, whatever frames arrive in between: an image shows the region,
/// without transparency, off a frame that came after those of all earlier images; and where there
/// is no frame that was not read before, there is no image, but an error once the wait is over.
pub proof fn captures_are_fresh_pictures(captures: Seq<Capture>, consumed: u64)
    requires
        forall|at: int|
            0 <= at < captures.len() ==> is_made(
                #[trigger] captures[at],
                consumed_before(captures, consumed, at),
            ),
    ensures
        forall|at: int|
            0 <= at < captures.len() && (#[trigger] captures[at]).image is Some ==> is_picture(
                captures[at].image->0,
                captures[at].width,
                captures[at].height,
            ) && read_at(captures[at].look, consumed_before(captures, consumed, at)) == Some(
                captures[at].look.bus.generation,
            ),
        forall|earlier: int, later: int|
            0 <= earlier < later < captures.len() && (#[trigger] captures[earlier]).image is Some
                && (#[trigger] captures[later]).image is Some
                ==> captures[earlier].look.bus.generation < captures[later].look.bus.generation,
        forall|at: int|
            0 <= at < captures.len() && !(#[trigger] captures[at]).look.bus.is_fresh(
                consumed_before(captures, consumed, at),
            ) ==> {
                let look = captures[at].look;
                let step = look.bus.polled(
                    consumed_before(captures, consumed, at),
                    look.elapsed,
                    look.timed_out,
                );
                &&& captures[at].image is None
                &&& look.elapsed > 500 || look.timed_out ==> step is Fail
            },
{
    assert forall|earlier: int, later: int|
        0 <= earlier < later < captures.len() && (#[trigger] captures[earlier]).image is Some
            && (#[trigger] captures[later]).image is Some implies captures[earlier].look.bus.generation
        < captures[later].look.bus.generation by {
        read_numbers_last(captures, consumed, earlier, later);
    }
}

/// Where the samples of a pixel stand. A pixel has four samples, of one byte each or of two. In rows
/// of bytes, blue comes first, green one byte and red two bytes behind it; in rows of pairs, red comes
/// first, green two bytes and blue four bytes behind it, the lower byte before the higher. The
/// pixels of a row follow each other without a gap and without sharing a byte.
pub proof fn samples_stand_side_by_side(
    bytes: Seq<u8>,
    row_pitch: int,
    table: Seq<u8>,
    x: int,
    y: int,
)
    ensures
        looked_up(CapturePixelFormat::Bgra8, bytes, row_pitch, table, x, y) == (Rgba {
            r: table[bytes[y * row_pitch + 4 * x + 2] as int],
            g: table[bytes[y * row_pitch + 4 * x + 1] as int],
            b: table[bytes[y * row_pitch + 4 * x] as int],
            a: 255,
        }),
        looked_up(CapturePixelFormat::Rgba16Float, bytes, row_pitch, table, x, y) == (Rgba {
            r: table[bytes[y * row_pitch + 8 * x] + 256 * bytes[y * row_pitch + 8 * x + 1]],
            g: table[bytes[y * row_pitch + 8 * x + 2] + 256 * bytes[y * row_pitch + 8 * x + 3]],
            b: table[bytes[y * row_pitch + 8 * x + 4] + 256 * bytes[y * row_pitch + 8 * x + 5]],
            a: 255,
        }),
        CapturePixelFormat::Bgra8.spec_bytes_per_pixel() == 4 * 1,
        CapturePixelFormat::Rgba16Float.spec_bytes_per_pixel() == 4 * 2,
        table_len(CapturePixelFormat::Bgra8) == 256 * 1,
        table_len(CapturePixelFormat::Rgba16Float) == 256 * 256,
{
}

/// Rows can be read just where each has room for its pixels, at four bytes or eight each, and the
/// bytes reach to the end of the last one.
pub proof fn rows_have_room_for_their_pixels(
    bytes: Seq<u8>,
    row_pitch: int,
    width: int,
    height: int,
)
    requires
        0 < height,
        0 <= width,
    ensures
        holds_rows(CapturePixelFormat::Bgra8, bytes, row_pitch, width, height) <==> 4 * width
            <= row_pitch && (height - 1) * row_pitch + 4 * width <= bytes.len(),
        holds_rows(CapturePixelFormat::Rgba16Float, bytes, row_pitch, width, height) <==> 8 * width
            <= row_pitch && (height - 1) * row_pitch + 8 * width <= bytes.len(),
{
}

/// What the samples of a captured region are read as: raw samples by their table, converted samples
/// as they are, three bytes a pixel, row by row. No pixel is transparent.
pub proof fn captured_samples_are_kept(rows: CapturedRows<'_>, width: int, x: int, y: int)
    ensures
        rows.pixel(width, x, y).a == 255,
        rows matches CapturedRows::Converted { rgb } ==> {
            let pixel = rows.pixel(width, x, y);
            let place = y * width + x;
            &&& pixel.r == rgb@[3 * place]
            &&& pixel.g == rgb@[3 * place + 1]
            &&& pixel.b == rgb@[3 * place + 2]
        },
        rows matches CapturedRows::Raw { format, bytes, row_pitch, table } ==> rows.pixel(
            width,
            x,
            y,
        ) == looked_up(format, bytes@, row_pitch as int, table@, x, y),
{
}

/// A frame that was not read before is taken, unless the frames were closed, and the frames between
/// it and the last one read are counted as passed over. While there is none, it is waited for until
/// half a second is over.
pub proof fn fresh_frames_are_taken(bus: FrameBus, consumed: u64, elapsed: u64, timed_out: bool)
    ensures
        ({
            let step = bus.polled(consumed, elapsed, timed_out);
            let fresh = bus.has_latest && consumed < bus.generation;
            &&& fresh && !bus.closed ==> (step matches FrameStep::Take { generation, skipped }
                && generation == bus.generation && (consumed > 0 ==> consumed + skipped + 1
                == generation) && (consumed == 0 ==> skipped == 0))
            &&& step is Take ==> fresh && !bus.closed
            &&& !fresh && !bus.closed && !timed_out && elapsed <= 500 ==> (
            step matches FrameStep::Wait { remaining } && elapsed + remaining == 500)
            &&& !fresh && timed_out ==> step == FrameStep::Fail(CaptureError::TimedOut)
            &&& !fresh && !bus.closed && elapsed > 500 ==> step == FrameStep::Fail(
                CaptureError::TimedOut,
            )
            &&& bus.closed && (fresh || !timed_out) ==> step == FrameStep::Fail(CaptureError::Closed)
        }),
{
}

/// A window can be captured just where its frame has an extent and holds the client area, and a
/// region read just where it has an extent and lies in the client area. Otherwise the error tells
/// what does not fit.
pub proof fn what_lies_inside_can_be_captured(
    item_w: i32,
    item_h: i32,
    crop: ClientCrop,
    region: ImageRect,
    width: u32,
    height: u32,
)
    ensures
        open_error(item_w, item_h, crop) is None <==> 0 < item_w && 0 < item_h && crop.x + crop.w
            <= item_w && crop.y + crop.h <= item_h,
        open_error(item_w, item_h, crop) matches Some(error) ==> if item_w > 0 && item_h > 0 {
            error == (CaptureError::CropOutsideFrame {
                crop,
                width: item_w as u32,
                height: item_h as u32,
            })
        } else {
            error == (CaptureError::InvalidItemSize { item_w, item_h })
        },
        region_error(region, width, height) is None <==> 0 < region.w && 0 < region.h && region.x
            + region.w <= width && region.y + region.h <= height,
        region_error(region, width, height) matches Some(error) ==> if region.w > 0 && region.h > 0 {
            error == (CaptureError::RegionOutsideClient { region, width, height })
        } else {
            error == CaptureError::EmptyRegion
        },
{
}

/// Displays that show high dynamic range are captured in half precision, others in eight bits.
pub proof fn displays_decide_the_format(display: DisplayColorInfo)
    ensures
        CapturePixelFormat::spec_for_display(display) == CapturePixelFormat::Rgba16Float
            <==> display.hdr_active,
{
}

/// A capture goes on to serve a window just as long as the window lives, is the same one, of the same
/// size and at the same place in its frame, and its display needs the same format, or could not be
/// asked.
pub proof fn captures_serve_the_same_window(
    source: CaptureSource,
    signature: Option<CaptureRebuildSignature>,
    alive: bool,
    display: Option<DisplayColorInfo>,
)
    ensures
        source.serves(signature, alive, display) <==> {
            &&& alive
            &&& signature matches Some(seen) && seen.handle == source.signature.handle
                && seen.client_w == source.signature.client_w && seen.client_h
                == source.signature.client_h && seen.crop == source.signature.crop
            &&& display matches Some(info) ==> (info.hdr_active <==> source.pixel_format
                == CapturePixelFormat::Rgba16Float)
        },
{
}

/// The shape of a window is its handle, its size and the place of its client area.
pub proof fn shapes_tell_windows_apart(target: WindowTarget, crop: ClientCrop)
    ensures
        ({
            let shape = CaptureRebuildSignature::spec_of(target, crop);
            &&& shape.handle == target.handle
            &&& shape.client_w == target.client_w
            &&& shape.client_h == target.client_h
            &&& shape.crop == crop
        }),
{
}

/// The content of a texture reaches no further than the texture, nor than it is reported to, but is
/// at least a pixel wide; the smaller of the two counts.
pub proof fn content_lies_in_the_texture(content: i32, texture: u32)
    ensures
        ({
            let extent = content_extent(content, texture);
            &&& 1 <= extent
            &&& 1 <= texture ==> extent <= texture
            &&& 1 <= content ==> extent <= content
            &&& extent == 1 || extent == content || extent == texture
            &&& 1 <= content <= texture ==> extent == content
            &&& 1 <= texture <= content ==> extent == texture
        }),
{
}

/// A region of a texture can be read just where the format is known, the region has an extent and it
/// lies in the content.
pub proof fn regions_of_the_content_can_be_read(
    format: Option<CapturePixelFormat>,
    texture_w: u32,
    texture_h: u32,
    content_w: i32,
    content_h: i32,
    region: ImageRect,
)
    ensures
        ({
            let error = read_error(format, texture_w, texture_h, content_w, content_h, region);
            let width = content_extent(content_w, texture_w);
            let height = content_extent(content_h, texture_h);
            &&& error is None <==> format is Some && 0 < region.w && 0 < region.h && region.x
                + region.w <= width && region.y + region.h <= height
            &&& error == Some(CaptureError::UnsupportedFormat) <==> format is None
            &&& error == Some(CaptureError::EmptyRegion) <==> format is Some && (region.w == 0
                || region.h == 0)
            &&& error matches Some(CaptureError::RegionOutsideContent {
                region: named,
                width: w,
                height: h,
            }) ==> named == region && w == width && h == height
        }),
{
}

/// A picture has the size that was asked for, and each of its pixels hides what lies behind it.
pub proof fn pictures_are_opaque(image: Frame, width: u32, height: u32, x: int, y: int)
    requires
        is_picture(image, width, height),
        0 <= x < width,
        0 <= y < height,
    ensures
        image.pixel(x, y).a == 255,
        image.spec_width() == width,
        image.spec_height() == height,
{
}

} // verus!
