//! Where the overlay puts what it shows.
use vstd::prelude::*;
use vstd::string::*;

use crate::app_events::{OverlayPreset, OverlayPresetStatus};
use crate::overlay::{OverlayModel, OverlayTone};
use crate::text::{compact_error, compacted, text_of};

verus! {

pub const MAX_OVERLAY_ROWS: usize = 12;

/// The sizes of the parts of the overlay, in pixels of the screen.
#[derive(Clone, Copy, Debug, PartialEq, Eq, Structural)]
pub struct ScaledSizes {
    pub screen_margin: i32,
    pub window_w: i32,
    pub padding: i32,
    pub title_y: i32,
    pub title_h: i32,
    pub title_gap: i32,
    pub row_h: i32,
    pub row_gap: i32,
    pub status_gap: i32,
    pub status_separator_gap: i32,
    pub status_h: i32,
    pub bottom_padding: i32,
    pub icon_size: i32,
    pub icon_gap: i32,
    pub key_w: i32,
    pub key_h: i32,
    pub key_icon_gap: i32,
    pub label_icon_gap: i32,
    pub label_pad: i32,
    pub accent_w: i32,
    pub text_pad_x: i32,
    pub text_pad_y: i32,
    pub line_h: i32,
    pub not_saved_w: i32,
    pub title_font: i32,
    pub body_font: i32,
    pub small_font: i32,
}

/// A size of the overlay. The largest base size is tripled at most.
pub open spec fn is_size(size: i32) -> bool {
    1 <= size <= 672
}

impl ScaledSizes {
    pub open spec fn wf(self) -> bool {
        &&& is_size(self.screen_margin)
        &&& is_size(self.window_w)
        &&& is_size(self.padding)
        &&& is_size(self.title_y)
        &&& is_size(self.title_h)
        &&& is_size(self.title_gap)
        &&& is_size(self.row_h)
        &&& is_size(self.row_gap)
        &&& is_size(self.status_gap)
        &&& is_size(self.status_separator_gap)
        &&& is_size(self.status_h)
        &&& is_size(self.bottom_padding)
        &&& is_size(self.icon_size)
        &&& is_size(self.icon_gap)
        &&& is_size(self.key_w)
        &&& is_size(self.key_h)
        &&& is_size(self.key_icon_gap)
        &&& is_size(self.label_icon_gap)
        &&& is_size(self.label_pad)
        &&& is_size(self.accent_w)
        &&& is_size(self.text_pad_x)
        &&& is_size(self.text_pad_y)
        &&& is_size(self.line_h)
        &&& is_size(self.not_saved_w)
    }

    /// Width of the icons of a row.
    pub open spec fn icons_w(self) -> int {
        5 * self.icon_size + 4 * self.icon_gap
    }
}

/// The places of the parts of the overlay.
#[derive(Clone, Copy, Debug, PartialEq, Eq, Structural)]
pub struct OverlayMetrics {
    pub sizes: ScaledSizes,
    pub window_w: i32,
    pub window_h: i32,
    pub row_w: i32,
    pub row_y: i32,
    pub status_y: i32,
    pub status_h: i32,
    pub key_x: i32,
    pub label_x: i32,
    pub label_w: i32,
    pub icon_x: i32,
}

/// The rows for which the overlay has room.
pub open spec fn row_count(preset_count: int) -> int {
    if preset_count < 1 {
        1
    } else if preset_count > 12 {
        12
    } else {
        preset_count
    }
}

pub fn overlay_row_count(preset_count: usize) -> (count: usize)
    ensures
        count == row_count(preset_count as int),
{
    if preset_count < 1 {
        1
    } else if preset_count > MAX_OVERLAY_ROWS {
        MAX_OVERLAY_ROWS
    } else {
        preset_count
    }
}

/// Where a part of height `inner_h` starts in the middle of one of height `outer_h`.
pub open spec fn middle(top: int, outer_h: int, inner_h: int) -> int {
    if outer_h > inner_h {
        top + (outer_h - inner_h) / 2
    } else {
        top
    }
}

pub fn centered_y(top: i32, outer_h: i32, inner_h: i32) -> (y: i32)
    requires
        0 <= top <= 0x3fff_ffff,
        0 <= outer_h <= 0x3fff_ffff,
        0 <= inner_h,
    ensures
        y == middle(top as int, outer_h as int, inner_h as int),
{
    if outer_h > inner_h {
        top + (outer_h - inner_h) / 2
    } else {
        top
    }
}

/// The room between the labels and the icons, where there are labels.
pub open spec fn label_gap(sizes: ScaledSizes, label_w: int) -> int {
    if label_w > 0 {
        sizes.label_icon_gap as int
    } else {
        0
    }
}

/// The places with room for so many rows and for labels of this width.
pub open spec fn is_layout(
    metrics: OverlayMetrics,
    sizes: ScaledSizes,
    rows: int,
    label_w: int,
) -> bool {
    let gap = label_gap(sizes, label_w);
    let content_w = sizes.key_w + sizes.key_icon_gap + sizes.icons_w() + label_w + gap;
    let row_y = sizes.title_y + sizes.title_h + sizes.title_gap;
    &&& metrics.sizes == sizes
    &&& metrics.label_w == label_w
    &&& metrics.window_w == sizes.window_w + label_w + gap
    &&& metrics.row_w == metrics.window_w - 2 * sizes.padding
    &&& metrics.row_y == row_y
    &&& metrics.status_y == row_y + rows * sizes.row_h + (rows - 1) * sizes.row_gap
        + sizes.status_gap
    &&& metrics.status_h == sizes.status_h
    &&& metrics.window_h == metrics.status_y + sizes.status_h + sizes.bottom_padding
    &&& metrics.key_x == if metrics.window_w > content_w {
        (metrics.window_w - content_w) / 2
    } else {
        0
    }
    &&& metrics.label_x == metrics.key_x + sizes.key_w + sizes.key_icon_gap
    &&& metrics.icon_x == metrics.label_x + label_w + gap
}

/// The status may take more than one line.
pub open spec fn is_layout_with_status(
    metrics: OverlayMetrics,
    sizes: ScaledSizes,
    rows: int,
    label_w: int,
    status_h: int,
) -> bool {
    &&& status_h >= sizes.status_h
    &&& metrics.status_h == status_h
    &&& metrics.window_h == metrics.status_y + status_h + sizes.bottom_padding
    &&& exists|plain: OverlayMetrics| #[trigger]
        is_layout(plain, sizes, rows, label_w) && metrics == (OverlayMetrics {
            status_h: metrics.status_h,
            window_h: metrics.window_h,
            ..plain
        })
}

impl OverlayMetrics {
    /// Each place can be computed with.
    pub open spec fn wf(self) -> bool {
        &&& self.sizes.wf()
        &&& exists|rows: int, label_w: int, status_h: int| #[trigger]
            is_layout_with_status(self, self.sizes, rows, label_w, status_h) && 1 <= rows <= 12 && 0
                <= label_w <= 0x3fff_0000 && status_h <= 0x3fff_ffff
    }

    pub fn from_sizes(sizes: ScaledSizes, preset_count: usize, label_w: i32) -> (metrics: Self)
        requires
            sizes.wf(),
            label_w <= 0x3fff_0000,
        ensures
            is_layout(
                metrics,
                sizes,
                row_count(preset_count as int),
                if label_w < 0 {
                    0
                } else {
                    label_w as int
                },
            ),
            metrics.wf(),
    {
        let rows: i32 = overlay_row_count(preset_count) as i32;
        let label_w = if label_w < 0 {
            0
        } else {
            label_w
        };
        let gap: i32 = if label_w > 0 {
            sizes.label_icon_gap
        } else {
            0
        };
        let window_w: i32 = sizes.window_w + label_w + gap;
        let row_y: i32 = sizes.title_y + sizes.title_h + sizes.title_gap;
        assert(0 <= rows * sizes.row_h <= 12 * 672) by (nonlinear_arith)
            requires
                1 <= rows <= 12,
                1 <= sizes.row_h <= 672,
        ;
        assert(0 <= (rows - 1) * sizes.row_gap <= 12 * 672) by (nonlinear_arith)
            requires
                1 <= rows <= 12,
                1 <= sizes.row_gap <= 672,
        ;
        let status_y: i32 = row_y + rows * sizes.row_h + (rows - 1) * sizes.row_gap
            + sizes.status_gap;
        let icons_w: i32 = 5 * sizes.icon_size + 4 * sizes.icon_gap;
        let content_w: i32 = sizes.key_w + sizes.key_icon_gap + icons_w + label_w + gap;
        let key_x: i32 = if window_w > content_w {
            (window_w - content_w) / 2
        } else {
            0
        };
        let label_x: i32 = key_x + sizes.key_w + sizes.key_icon_gap;
        let metrics = OverlayMetrics {
            sizes,
            window_w,
            window_h: status_y + sizes.status_h + sizes.bottom_padding,
            row_w: window_w - sizes.padding * 2,
            row_y,
            status_y,
            status_h: sizes.status_h,
            key_x,
            label_x,
            label_w,
            icon_x: label_x + label_w + gap,
        };
        proof {
            assert(is_layout(metrics, sizes, rows as int, label_w as int));
            assert(is_layout_with_status(
                metrics,
                sizes,
                rows as int,
                label_w as int,
                sizes.status_h as int,
            ));
        }
        metrics
    }

    pub fn with_preset_count(self, preset_count: usize) -> (metrics: Self)
        requires
            self.wf(),
        ensures
            is_layout(
                metrics,
                self.sizes,
                row_count(preset_count as int),
                self.label_w as int,
            ),
            metrics.wf(),
    {
        Self::from_sizes(self.sizes, preset_count, self.label_w)
    }

    pub fn with_label_width(self, preset_count: usize, label_w: i32) -> (metrics: Self)
        requires
            self.wf(),
            label_w <= 0x3fff_0000,
        ensures
            is_layout(
                metrics,
                self.sizes,
                row_count(preset_count as int),
                if label_w < 0 {
                    0
                } else {
                    label_w as int
                },
            ),
            metrics.wf(),
    {
        Self::from_sizes(self.sizes, preset_count, label_w)
    }

    /// Makes room for a status of this height, but at least for one line.
    pub fn with_status_height(self, status_h: i32) -> (metrics: Self)
        requires
            self.wf(),
            status_h <= 0x3fff_ffff,
        ensures
            metrics.status_h == if status_h < self.sizes.status_h {
                self.sizes.status_h
            } else {
                status_h
            },
            metrics == (OverlayMetrics {
                status_h: metrics.status_h,
                window_h: (self.status_y + metrics.status_h + self.sizes.bottom_padding) as i32,
                ..self
            }),
            metrics.wf(),
    {
        let height: i32 = if status_h < self.sizes.status_h {
            self.sizes.status_h
        } else {
            status_h
        };
        let ghost sizes = self.sizes;
        let ghost (rows, label_w, before) = choose|rows: int, label_w: int, before: int| #[trigger]
            is_layout_with_status(self, self.sizes, rows, label_w, before) && 1 <= rows <= 12 && 0
                <= label_w <= 0x3fff_0000 && before <= 0x3fff_ffff;
        let ghost plain = choose|plain: OverlayMetrics| #[trigger]
            is_layout(plain, sizes, rows, label_w) && self == (OverlayMetrics {
                status_h: self.status_h,
                window_h: self.window_h,
                ..plain
            });
        proof {
            status_y_is_small(plain, sizes, rows, label_w);
        }
        let metrics = OverlayMetrics {
            status_h: height,
            window_h: self.status_y + height + self.sizes.bottom_padding,
            ..self
        };
        proof {
            assert(is_layout(plain, sizes, rows, label_w));
            assert(is_layout_with_status(metrics, sizes, rows, label_w, height as int));
        }
        metrics
    }
}

proof fn status_y_is_small(metrics: OverlayMetrics, sizes: ScaledSizes, rows: int, label_w: int)
    requires
        sizes.wf(),
        is_layout(metrics, sizes, rows, label_w),
        1 <= rows <= 12,
    ensures
        0 < metrics.status_y <= 0x1_0000,
        metrics.row_y + rows * sizes.row_h + (rows - 1) * sizes.row_gap < metrics.status_y,
{
    assert(0 <= rows * sizes.row_h <= 12 * 672) by (nonlinear_arith)
        requires
            1 <= rows <= 12,
            1 <= sizes.row_h <= 672,
    ;
    assert(0 <= (rows - 1) * sizes.row_gap <= 12 * 672) by (nonlinear_arith)
        requires
            1 <= rows <= 12,
            1 <= sizes.row_gap <= 672,
    ;
}

/// Where row `index` starts.
pub open spec fn row_top(metrics: OverlayMetrics, index: int) -> int {
    metrics.row_y + index * (metrics.sizes.row_h + metrics.sizes.row_gap)
}

/// The rows do not overlap, and all of them lie above the status, which lies inside the window.
pub proof fn rows_lie_above_the_status(
    metrics: OverlayMetrics,
    sizes: ScaledSizes,
    rows: int,
    label_w: int,
    index: int,
)
    requires
        sizes.wf(),
        is_layout(metrics, sizes, rows, label_w),
        0 <= index < rows,
    ensures
        row_top(metrics, index) + sizes.row_h <= row_top(metrics, index + 1),
        row_top(metrics, index) + sizes.row_h < metrics.status_y,
        metrics.status_y + metrics.status_h < metrics.window_h,
{
    let step = sizes.row_h + sizes.row_gap;
    assert(row_top(metrics, index + 1) == row_top(metrics, index) + step) by (nonlinear_arith)
        requires
            row_top(metrics, index) == metrics.row_y + index * step,
            row_top(metrics, index + 1) == metrics.row_y + (index + 1) * step,
    ;
    assert(index * step <= (rows - 1) * step) by (nonlinear_arith)
        requires
            index <= rows - 1,
            step >= 0,
    ;
    assert((rows - 1) * step + sizes.row_h == rows * sizes.row_h + (rows - 1) * sizes.row_gap)
        by (nonlinear_arith)
        requires
            step == sizes.row_h + sizes.row_gap,
    ;
}

/// Where the window has room for them, the key, the label and the icons of a row lie side by side
/// inside the window.
pub proof fn row_parts_lie_in_the_window(
    metrics: OverlayMetrics,
    sizes: ScaledSizes,
    rows: int,
    label_w: int,
)
    requires
        sizes.wf(),
        label_w >= 0,
        is_layout(metrics, sizes, rows, label_w),
        sizes.key_w + sizes.key_icon_gap + sizes.icons_w() <= sizes.window_w,
    ensures
        0 <= metrics.key_x,
        metrics.key_x + sizes.key_w < metrics.label_x,
        metrics.label_x + label_w <= metrics.icon_x,
        metrics.icon_x + sizes.icons_w() <= metrics.window_w,
{
}

/// Where the window goes: to the right edge of the screen.
pub fn overlay_position(metrics: OverlayMetrics, screen_w: i32) -> (place: (i32, i32))
    requires
        metrics.wf(),
    ensures
        place.0 == (if screen_w < metrics.window_w {
            metrics.window_w
        } else {
            screen_w
        }) - metrics.window_w - metrics.sizes.screen_margin,
        place.1 == metrics.sizes.screen_margin,
{
    let width = if screen_w < metrics.window_w {
        metrics.window_w
    } else {
        screen_w
    };
    assert(metrics.window_w >= 0);
    (width - metrics.window_w - metrics.sizes.screen_margin, metrics.sizes.screen_margin)
}

/// The width for the labels, of which the widest has `measured` pixels: with some room, but so that
/// the window fits the screen.
pub open spec fn label_width(sizes: ScaledSizes, measured: int, screen_w: int) -> int {
    let screen = if screen_w < sizes.window_w {
        sizes.window_w as int
    } else {
        screen_w
    };
    let inner = screen - 2 * sizes.screen_margin;
    let window = if inner < sizes.window_w {
        sizes.window_w as int
    } else {
        inner
    };
    let room = window - sizes.window_w - sizes.label_icon_gap;
    let most = if room < 0 {
        0
    } else {
        room
    };
    if measured <= 0 {
        0
    } else if measured + sizes.label_pad < most {
        measured + sizes.label_pad
    } else {
        most
    }
}

pub fn fit_label_width(sizes: ScaledSizes, measured: i32, screen_w: i32) -> (width: i32)
    requires
        sizes.wf(),
        measured <= 0x3fff_0000,
        screen_w <= 0x3fff_0000,
    ensures
        width == label_width(sizes, measured as int, screen_w as int),
        0 <= width <= 0x3fff_0000,
{
    let screen = if screen_w < sizes.window_w {
        sizes.window_w
    } else {
        screen_w
    };
    let inner: i32 = screen - sizes.screen_margin * 2;
    let window = if inner < sizes.window_w {
        sizes.window_w
    } else {
        inner
    };
    let room: i32 = window - sizes.window_w - sizes.label_icon_gap;
    let most: i32 = if room < 0 {
        0
    } else {
        room
    };
    if measured <= 0 {
        0
    } else if measured + sizes.label_pad < most {
        measured + sizes.label_pad
    } else {
        most
    }
}

/// Width of the text of the status.
pub fn status_text_width(metrics: OverlayMetrics) -> (width: i32)
    requires
        metrics.wf(),
    ensures
        width == if metrics.row_w - 2 * metrics.sizes.text_pad_x < 1 {
            1
        } else {
            metrics.row_w - 2 * metrics.sizes.text_pad_x
        },
{
    let width: i32 = metrics.row_w - metrics.sizes.text_pad_x * 2;
    if width < 1 {
        1
    } else {
        width
    }
}

/// Makes room for the rows, the labels and the status, given the measured texts.
pub fn refresh_status_metrics(
    metrics: OverlayMetrics,
    preset_count: usize,
    measured_label_w: i32,
    screen_w: i32,
) -> (refreshed: OverlayMetrics)
    requires
        metrics.wf(),
        measured_label_w <= 0x3fff_0000,
        screen_w <= 0x3fff_0000,
    ensures
        is_layout(
            refreshed,
            metrics.sizes,
            row_count(preset_count as int),
            label_width(metrics.sizes, measured_label_w as int, screen_w as int),
        ),
        refreshed.wf(),
{
    let label_w = fit_label_width(metrics.sizes, measured_label_w, screen_w);
    metrics.with_label_width(preset_count, label_w)
}

/// A color of the screen, as red plus 256 times green plus 65536 times blue.
pub open spec fn color(r: int, g: int, b: int) -> int {
    r + 256 * g + 65536 * b
}

pub fn rgb(r: u8, g: u8, b: u8) -> (value: u32)
    ensures
        value == color(r as int, g as int, b as int),
{
    r as u32 + 256 * g as u32 + 65536 * b as u32
}

pub open spec fn spec_tone_color(tone: OverlayTone) -> int {
    match tone {
        OverlayTone::Info => color(118, 210, 255),
        OverlayTone::Working => color(255, 220, 96),
        OverlayTone::Success => color(120, 230, 150),
        OverlayTone::Warning => color(255, 180, 100),
        OverlayTone::Error => color(255, 120, 120),
    }
}

pub fn tone_color(tone: OverlayTone) -> (value: u32)
    ensures
        value == spec_tone_color(tone),
{
    match tone {
        OverlayTone::Info => rgb(118, 210, 255),
        OverlayTone::Working => rgb(255, 220, 96),
        OverlayTone::Success => rgb(120, 230, 150),
        OverlayTone::Warning => rgb(255, 180, 100),
        OverlayTone::Error => rgb(255, 120, 120),
    }
}

#[derive(Clone, Copy, Debug, PartialEq, Eq, Structural)]
pub struct OverlayRect {
    pub left: i32,
    pub top: i32,
    pub right: i32,
    pub bottom: i32,
}

#[derive(Clone, Copy, Debug, PartialEq, Eq, Structural)]
pub enum OverlayFont {
    Title,
    Body,
    Small,
}

/// How a text is set.
#[derive(Clone, Copy, Debug, PartialEq, Eq, Structural)]
pub enum TextStyle {
    /// One line from the left, cut off where it is too long.
    Line,
    /// One line in the middle.
    Centered,
    /// From the left, in as many lines as it takes.
    Wrapped,
}

/// A part of the picture.
#[derive(Debug)]
pub enum DrawOp {
    Fill { area: OverlayRect, paint: u32 },
    Text { font: OverlayFont, ink: u32, style: TextStyle, text: String, frame: OverlayRect },
    /// The icon of an item, or a blank where there is none.
    Icon { item_id: String, x: i32, y: i32 },
}

/// A part of the picture, as values.
pub enum DrawModel {
    Fill { area: (int, int, int, int), paint: int },
    Text {
        font: OverlayFont,
        ink: int,
        style: TextStyle,
        text: Seq<char>,
        frame: (int, int, int, int),
    },
    Icon { item_id: Seq<char>, x: int, y: int },
}

impl View for OverlayRect {
    type V = (int, int, int, int);

    open spec fn view(&self) -> (int, int, int, int) {
        (self.left as int, self.top as int, self.right as int, self.bottom as int)
    }
}

impl View for DrawOp {
    type V = DrawModel;

    open spec fn view(&self) -> DrawModel {
        match *self {
            DrawOp::Fill { area, paint } => DrawModel::Fill { area: area@, paint: paint as int },
            DrawOp::Text { font, ink, style, text, frame } => DrawModel::Text {
                font,
                ink: ink as int,
                style,
                text: text@,
                frame: frame@,
            },
            DrawOp::Icon { item_id, x, y } => DrawModel::Icon {
                item_id: item_id@,
                x: x as int,
                y: y as int,
            },
        }
    }
}

pub open spec fn models(ops: Seq<DrawOp>) -> Seq<DrawModel> {
    ops.map_values(|op: DrawOp| op@)
}

/// A line of text at a place, with a size.
pub open spec fn line(
    text: Seq<char>,
    ink: int,
    x: int,
    y: int,
    w: int,
    h: int,
) -> DrawModel {
    DrawModel::Text {
        font: OverlayFont::Body,
        ink,
        style: TextStyle::Line,
        text,
        frame: (x, y, x + w, y + h),
    }
}

/// The background of the row of the preset in use.
pub open spec fn row_background(metrics: OverlayMetrics, active: bool, y: int) -> Seq<DrawModel> {
    if active {
        seq![
            DrawModel::Fill {
                area: (
                    metrics.sizes.padding as int,
                    y,
                    metrics.sizes.padding + metrics.row_w,
                    y + metrics.sizes.row_h,
                ),
                paint: color(37, 43, 48),
            },
        ]
    } else {
        Seq::empty()
    }
}

pub open spec fn row_key(metrics: OverlayMetrics, row: OverlayPreset, y: int) -> DrawModel {
    let top = middle(y, metrics.sizes.row_h as int, metrics.sizes.key_h as int);
    DrawModel::Text {
        font: OverlayFont::Small,
        ink: color(150, 196, 230),
        style: TextStyle::Centered,
        text: row.key_label@,
        frame: (
            metrics.key_x as int,
            top,
            metrics.key_x + metrics.sizes.key_w,
            top + metrics.sizes.key_h,
        ),
    }
}

pub open spec fn row_label(metrics: OverlayMetrics, row: OverlayPreset, y: int) -> Seq<DrawModel> {
    let h = metrics.sizes.line_h as int;
    match row.label {
        Some(label) => seq![
            line(
                label@,
                color(206, 216, 226),
                metrics.label_x as int,
                middle(y, metrics.sizes.row_h as int, h),
                metrics.label_w as int,
                h,
            ),
        ],
        None => Seq::empty(),
    }
}

/// Where icon `index` of a row stands.
pub open spec fn icon_left(metrics: OverlayMetrics, index: int) -> int {
    metrics.icon_x + index * (metrics.sizes.icon_size + metrics.sizes.icon_gap)
}

/// The icons of the first `count` stratagems.
pub open spec fn stratagem_icons(
    metrics: OverlayMetrics,
    row: OverlayPreset,
    y: int,
    count: int,
) -> Seq<DrawModel>
    decreases count,
{
    if count <= 0 {
        Seq::empty()
    } else {
        stratagem_icons(metrics, row, y, count - 1).push(
            DrawModel::Icon {
                item_id: row.stratagems@[count - 1]@,
                x: icon_left(metrics, count - 1),
                y,
            },
        )
    }
}

/// The icons of a row: at most four stratagems, and the booster in the fifth place.
pub open spec fn row_icons(metrics: OverlayMetrics, row: OverlayPreset, y: int) -> Seq<DrawModel> {
    let count = if row.stratagems@.len() < 4 {
        row.stratagems@.len() as int
    } else {
        4
    };
    stratagem_icons(metrics, row, y, count) + match row.booster {
        Some(booster) => seq![
            DrawModel::Icon { item_id: booster@, x: icon_left(metrics, 4), y },
        ],
        None => Seq::empty(),
    }
}

pub open spec fn row_content(metrics: OverlayMetrics, row: OverlayPreset, y: int) -> Seq<
    DrawModel,
> {
    let h = metrics.sizes.line_h as int;
    let text_y = middle(y, metrics.sizes.row_h as int, h);
    match row.status {
        OverlayPresetStatus::Ready => row_icons(
            metrics,
            row,
            middle(y, metrics.sizes.row_h as int, metrics.sizes.icon_size as int),
        ),
        OverlayPresetStatus::NotSaved => seq![
            line(
                "not saved"@,
                color(128, 138, 148),
                metrics.icon_x as int,
                text_y,
                metrics.sizes.not_saved_w as int,
                h,
            ),
        ],
        OverlayPresetStatus::Invalid(error) => seq![
            line(
                "invalid: "@ + compacted(error@),
                color(255, 150, 150),
                metrics.icon_x as int,
                text_y,
                metrics.window_w - metrics.icon_x - h,
                h,
            ),
        ],
    }
}

/// The line below a row that is not the last.
pub open spec fn row_separator(metrics: OverlayMetrics, last: bool, y: int) -> Seq<DrawModel> {
    let top = y + metrics.sizes.row_h + metrics.sizes.row_gap / 2;
    if last {
        Seq::empty()
    } else {
        seq![
            DrawModel::Fill {
                area: (
                    metrics.sizes.padding as int,
                    top,
                    metrics.window_w - metrics.sizes.padding,
                    top + 1,
                ),
                paint: color(48, 55, 62),
            },
        ]
    }
}

/// The preset is the one in use.
pub open spec fn is_active(model: OverlayModel, index: int) -> bool {
    model.active_preset matches Some(name) && name@ == model.presets@[index].name@
}

/// The picture of a row.
pub open spec fn row_picture(
    metrics: OverlayMetrics,
    model: OverlayModel,
    visible: int,
    index: int,
) -> Seq<DrawModel> {
    let y = row_top(metrics, index);
    let row = model.presets@[index];
    row_background(metrics, is_active(model, index), y).push(row_key(metrics, row, y)) + row_label(
        metrics,
        row,
        y,
    ) + row_content(metrics, row, y) + row_separator(metrics, index + 1 >= visible, y)
}

/// The picture of the first `count` of the visible rows.
pub open spec fn rows_picture(
    metrics: OverlayMetrics,
    model: OverlayModel,
    visible: int,
    count: int,
) -> Seq<DrawModel>
    decreases count,
{
    if count <= 0 {
        Seq::empty()
    } else {
        rows_picture(metrics, model, visible, count - 1) + row_picture(
            metrics,
            model,
            visible,
            count - 1,
        )
    }
}

/// The rows that are shown.
pub open spec fn visible_rows(model: OverlayModel) -> int {
    if model.presets@.len() < 12 {
        model.presets@.len() as int
    } else {
        12
    }
}

/// The places are small enough to be computed with.
pub open spec fn is_drawable(metrics: OverlayMetrics) -> bool {
    &&& metrics.sizes.wf()
    &&& 0 <= metrics.row_y <= 0x1_0000
    &&& 0 <= metrics.key_x <= 0x3fff_ffff
    &&& 0 <= metrics.label_x <= 0x3fff_ffff
    &&& 0 <= metrics.label_w <= 0x3fff_ffff
    &&& 0 <= metrics.icon_x <= 0x3fff_ffff
    &&& 0 < metrics.window_w <= 0x3fff_ffff
    &&& metrics.row_w == metrics.window_w - 2 * metrics.sizes.padding
    &&& 0 < metrics.status_y <= 0x1_0000
    &&& 0 < metrics.status_h <= 0x3fff_ffff
    &&& 0 < metrics.window_h
}

proof fn layouts_are_drawable(metrics: OverlayMetrics)
    requires
        metrics.wf(),
    ensures
        is_drawable(metrics),
{
    let sizes = metrics.sizes;
    let (rows, label_w, status_h) = choose|rows: int, label_w: int, status_h: int| #[trigger]
        is_layout_with_status(metrics, sizes, rows, label_w, status_h) && 1 <= rows <= 12 && 0
            <= label_w <= 0x3fff_0000 && status_h <= 0x3fff_ffff;
    let plain = choose|plain: OverlayMetrics| #[trigger]
        is_layout(plain, sizes, rows, label_w) && metrics == (OverlayMetrics {
            status_h: metrics.status_h,
            window_h: metrics.window_h,
            ..plain
        });
    status_y_is_small(plain, sizes, rows, label_w);
}

fn push_op(ops: &mut Vec<DrawOp>, op: DrawOp)
    ensures
        models(final(ops)@) == models(old(ops)@).push(op@),
{
    let ghost before = ops@;
    ops.push(op);
    assert(models(ops@) =~= models(before).push(op@));
}

fn push_line(
    ops: &mut Vec<DrawOp>,
    text: String,
    ink: u32,
    x: i32,
    y: i32,
    w: i32,
    h: i32,
)
    requires
        i32::MIN <= x + w <= i32::MAX,
        i32::MIN <= y + h <= i32::MAX,
    ensures
        models(final(ops)@) == models(old(ops)@).push(
            line(text@, ink as int, x as int, y as int, w as int, h as int),
        ),
{
    push_op(
        ops,
        DrawOp::Text {
            font: OverlayFont::Body,
            ink,
            style: TextStyle::Line,
            text,
            frame: OverlayRect { left: x, top: y, right: x + w, bottom: y + h },
        },
    );
}

fn push_fill(ops: &mut Vec<DrawOp>, area: OverlayRect, paint: u32)
    ensures
        models(final(ops)@) == models(old(ops)@).push(
            DrawModel::Fill { area: area@, paint: paint as int },
        ),
{
    push_op(ops, DrawOp::Fill { area, paint });
}

fn push_icon(ops: &mut Vec<DrawOp>, item_id: &String, x: i32, y: i32)
    ensures
        models(final(ops)@) == models(old(ops)@).push(
            DrawModel::Icon { item_id: item_id@, x: x as int, y: y as int },
        ),
{
    push_op(ops, DrawOp::Icon { item_id: item_id.clone(), x, y });
}

fn draw_preset_icons(ops: &mut Vec<DrawOp>, metrics: OverlayMetrics, row: &OverlayPreset, y: i32)
    requires
        is_drawable(metrics),
    ensures
        models(final(ops)@) == models(old(ops)@) + row_icons(metrics, *row, y as int),
{
    let ghost start = models(ops@);
    let step: i32 = metrics.sizes.icon_size + metrics.sizes.icon_gap;
    let count: usize = if row.stratagems.len() < 4 {
        row.stratagems.len()
    } else {
        4
    };
    let mut index: usize = 0;
    assert(start + stratagem_icons(metrics, *row, y as int, 0) =~= start);
    while index < count
        invariant
            index <= count <= 4,
            count <= row.stratagems@.len(),
            is_drawable(metrics),
            step == metrics.sizes.icon_size + metrics.sizes.icon_gap,
            models(ops@) == start + stratagem_icons(metrics, *row, y as int, index as int),
        decreases count - index,
    {
        assert(0 <= index * step <= 4 * 1344) by (nonlinear_arith)
            requires
                0 <= index <= 4,
                2 <= step <= 1344,
        ;
        push_icon(ops, &row.stratagems[index], metrics.icon_x + index as i32 * step, y);
        let ghost done = stratagem_icons(metrics, *row, y as int, index as int);
        let ghost icon = DrawModel::Icon {
            item_id: row.stratagems@[index as int]@,
            x: icon_left(metrics, index as int),
            y: y as int,
        };
        assert((start + done).push(icon) =~= start + done.push(icon));
        index = index + 1;
    }
    let ghost done = stratagem_icons(metrics, *row, y as int, count as int);
    match &row.booster {
        Some(booster) => {
            push_icon(ops, booster, metrics.icon_x + 4 * step, y);
            let ghost icon = DrawModel::Icon {
                item_id: booster@,
                x: icon_left(metrics, 4),
                y: y as int,
            };
            assert((start + done).push(icon) =~= start + (done + seq![icon]));
        },
        None => {
            assert(done + Seq::<DrawModel>::empty() =~= done);
        },
    }
}

fn draw_row_content(ops: &mut Vec<DrawOp>, metrics: OverlayMetrics, row: &OverlayPreset, y: i32)
    requires
        is_drawable(metrics),
        0 <= y <= 0x10_0000,
    ensures
        models(final(ops)@) == models(old(ops)@) + row_content(metrics, *row, y as int),
{
    let ghost start = models(ops@);
    let h = metrics.sizes.line_h;
    let text_y = centered_y(y, metrics.sizes.row_h, h);
    match &row.status {
        OverlayPresetStatus::Ready => {
            let icon_y = centered_y(y, metrics.sizes.row_h, metrics.sizes.icon_size);
            draw_preset_icons(ops, metrics, row, icon_y);
        },
        OverlayPresetStatus::NotSaved => {
            push_line(
                ops,
                text_of("not saved"),
                rgb(128, 138, 148),
                metrics.icon_x,
                text_y,
                metrics.sizes.not_saved_w,
                h,
            );
            assert(models(ops@) =~= start + row_content(metrics, *row, y as int));
        },
        OverlayPresetStatus::Invalid(error) => {
            let mut text = text_of("invalid: ");
            let reason = compact_error(error.as_str());
            text.append(reason.as_str());
            push_line(
                ops,
                text,
                rgb(255, 150, 150),
                metrics.icon_x,
                text_y,
                metrics.window_w - metrics.icon_x - h,
                h,
            );
            assert(models(ops@) =~= start + row_content(metrics, *row, y as int));
        },
    }
}

fn same_name(active: &Option<String>, name: &String) -> (same: bool)
    ensures
        same == (active matches Some(active) && active@ == name@),
{
    match active {
        Some(active) => *active == *name,
        None => false,
    }
}

fn draw_row(
    ops: &mut Vec<DrawOp>,
    metrics: OverlayMetrics,
    model: &OverlayModel,
    visible: usize,
    index: usize,
)
    requires
        is_drawable(metrics),
        index < visible <= 12,
        visible <= model.presets@.len(),
    ensures
        models(final(ops)@) == models(old(ops)@) + row_picture(
            metrics,
            *model,
            visible as int,
            index as int,
        ),
{
    let ghost start = models(ops@);
    let row = &model.presets[index];
    let step: i32 = metrics.sizes.row_h + metrics.sizes.row_gap;
    assert(0 <= index * step <= 12 * 1344) by (nonlinear_arith)
        requires
            0 <= index <= 12,
            2 <= step <= 1344,
    ;
    let y: i32 = metrics.row_y + index as i32 * step;
    let active = same_name(&model.active_preset, &row.name);
    if active {
        push_fill(
            ops,
            OverlayRect {
                left: metrics.sizes.padding,
                top: y,
                right: metrics.sizes.padding + metrics.row_w,
                bottom: y + metrics.sizes.row_h,
            },
            rgb(37, 43, 48),
        );
    }
    let ghost background = row_background(metrics, active, y as int);
    assert(models(ops@) =~= start + background);
    let top = centered_y(y, metrics.sizes.row_h, metrics.sizes.key_h);
    let key = DrawOp::Text {
        font: OverlayFont::Small,
        ink: rgb(150, 196, 230),
        style: TextStyle::Centered,
        text: text_of(row.key_label),
        frame: OverlayRect {
            left: metrics.key_x,
            top,
            right: metrics.key_x + metrics.sizes.key_w,
            bottom: top + metrics.sizes.key_h,
        },
    };
    let ghost key_model = row_key(metrics, *row, y as int);
    assert(key@ == key_model);
    push_op(ops, key);
    let ghost with_key = background.push(key_model);
    assert(models(ops@) =~= start + with_key);
    if let Some(label) = &row.label {
        let h = metrics.sizes.line_h;
        push_line(
            ops,
            label.clone(),
            rgb(206, 216, 226),
            metrics.label_x,
            centered_y(y, metrics.sizes.row_h, h),
            metrics.label_w,
            h,
        );
    }
    let ghost label_part = row_label(metrics, *row, y as int);
    assert(models(ops@) =~= start + (with_key + label_part));
    draw_row_content(ops, metrics, row, y);
    let ghost content = row_content(metrics, *row, y as int);
    assert(models(ops@) =~= start + (with_key + label_part + content));
    if index + 1 < visible {
        let separator_y: i32 = y + metrics.sizes.row_h + metrics.sizes.row_gap / 2;
        push_fill(
            ops,
            OverlayRect {
                left: metrics.sizes.padding,
                top: separator_y,
                right: metrics.window_w - metrics.sizes.padding,
                bottom: separator_y + 1,
            },
            rgb(48, 55, 62),
        );
    }
    let ghost separator = row_separator(metrics, index + 1 >= visible, y as int);
    assert(models(ops@) =~= start + (with_key + label_part + content + separator));
}

/// The picture of the rows.
pub fn draw_presets(metrics: OverlayMetrics, model: &OverlayModel) -> (ops: Vec<DrawOp>)
    requires
        metrics.wf(),
    ensures
        models(ops@) == rows_picture(metrics, *model, visible_rows(*model), visible_rows(*model)),
{
    proof {
        layouts_are_drawable(metrics);
    }
    let visible: usize = if model.presets.len() < MAX_OVERLAY_ROWS {
        model.presets.len()
    } else {
        MAX_OVERLAY_ROWS
    };
    let mut ops: Vec<DrawOp> = Vec::new();
    let mut index: usize = 0;
    assert(models(ops@) =~= Seq::empty());
    while index < visible
        invariant
            is_drawable(metrics),
            index <= visible <= 12,
            visible <= model.presets@.len(),
            models(ops@) == rows_picture(metrics, *model, visible as int, index as int),
        decreases visible - index,
    {
        draw_row(&mut ops, metrics, model, visible, index);
        index = index + 1;
    }
    ops
}

/// The picture of the status: a line above it, and its text.
pub open spec fn status_picture(metrics: OverlayMetrics, status: Seq<char>) -> Seq<DrawModel> {
    let sizes = metrics.sizes;
    let top = metrics.status_y - sizes.status_separator_gap;
    let x = sizes.padding + sizes.text_pad_x;
    let y = metrics.status_y + sizes.text_pad_y;
    let w = metrics.row_w - 2 * sizes.text_pad_x;
    let h = metrics.status_h - 2 * sizes.text_pad_y;
    seq![
        DrawModel::Fill {
            area: (sizes.padding as int, top, metrics.window_w - sizes.padding, top + 1),
            paint: color(48, 55, 62),
        },
        DrawModel::Text {
            font: OverlayFont::Body,
            ink: color(206, 216, 226),
            style: TextStyle::Wrapped,
            text: status,
            frame: (
                x,
                y,
                x + if w < 1 {
                    1
                } else {
                    w
                },
                y + if h < 1 {
                    1
                } else {
                    h
                },
            ),
        },
    ]
}

pub fn draw_status(metrics: OverlayMetrics, model: &OverlayModel) -> (ops: Vec<DrawOp>)
    requires
        metrics.wf(),
    ensures
        models(ops@) == status_picture(metrics, model.status@),
{
    proof {
        layouts_are_drawable(metrics);
    }
    let sizes = metrics.sizes;
    let mut ops: Vec<DrawOp> = Vec::new();
    assert(models(ops@) =~= Seq::empty());
    let top: i32 = metrics.status_y - sizes.status_separator_gap;
    push_fill(
        &mut ops,
        OverlayRect {
            left: sizes.padding,
            top,
            right: metrics.window_w - sizes.padding,
            bottom: top + 1,
        },
        rgb(48, 55, 62),
    );
    let x: i32 = sizes.padding + sizes.text_pad_x;
    let y: i32 = metrics.status_y + sizes.text_pad_y;
    let w: i32 = metrics.row_w - sizes.text_pad_x * 2;
    let h: i32 = metrics.status_h - sizes.text_pad_y * 2;
    let width: i32 = if w < 1 {
        1
    } else {
        w
    };
    let height: i32 = if h < 1 {
        1
    } else {
        h
    };
    push_op(
        &mut ops,
        DrawOp::Text {
            font: OverlayFont::Body,
            ink: rgb(206, 216, 226),
            style: TextStyle::Wrapped,
            text: model.status.clone(),
            frame: OverlayRect { left: x, top: y, right: x + width, bottom: y + height },
        },
    );
    assert(models(ops@) =~= status_picture(metrics, model.status@));
    ops
}

/// What lies below the rows: the background, the stripe in the color of the tone, and the title.
pub open spec fn frame_picture(metrics: OverlayMetrics, tone: OverlayTone) -> Seq<DrawModel> {
    let sizes = metrics.sizes;
    seq![
        DrawModel::Fill {
            area: (0, 0, metrics.window_w as int, metrics.window_h as int),
            paint: color(18, 22, 26),
        },
        DrawModel::Fill {
            area: (0, 0, sizes.accent_w as int, metrics.window_h as int),
            paint: spec_tone_color(tone),
        },
        DrawModel::Text {
            font: OverlayFont::Title,
            ink: color(236, 242, 248),
            style: TextStyle::Line,
            text: "HD2 Preset Helper"@,
            frame: (
                sizes.padding as int,
                sizes.title_y as int,
                metrics.window_w - sizes.padding,
                sizes.title_y + sizes.title_h,
            ),
        },
    ]
}

/// The whole picture, from the back to the front.
pub fn paint_overlay(metrics: OverlayMetrics, model: &OverlayModel) -> (ops: Vec<DrawOp>)
    requires
        metrics.wf(),
    ensures
        models(ops@) == frame_picture(metrics, model.tone) + rows_picture(
            metrics,
            *model,
            visible_rows(*model),
            visible_rows(*model),
        ) + status_picture(metrics, model.status@),
{
    proof {
        layouts_are_drawable(metrics);
    }
    let sizes = metrics.sizes;
    let mut ops: Vec<DrawOp> = Vec::new();
    assert(models(ops@) =~= Seq::empty());
    push_fill(
        &mut ops,
        OverlayRect { left: 0, top: 0, right: metrics.window_w, bottom: metrics.window_h },
        rgb(18, 22, 26),
    );
    push_fill(
        &mut ops,
        OverlayRect { left: 0, top: 0, right: sizes.accent_w, bottom: metrics.window_h },
        tone_color(model.tone),
    );
    push_op(
        &mut ops,
        DrawOp::Text {
            font: OverlayFont::Title,
            ink: rgb(236, 242, 248),
            style: TextStyle::Line,
            text: text_of("HD2 Preset Helper"),
            frame: OverlayRect {
                left: sizes.padding,
                top: sizes.title_y,
                right: metrics.window_w - sizes.padding,
                bottom: sizes.title_y + sizes.title_h,
            },
        },
    );
    assert(models(ops@) =~= frame_picture(metrics, model.tone));
    let mut rows = draw_presets(metrics, model);
    let mut status = draw_status(metrics, model);
    let ghost first = ops@;
    let ghost second = rows@;
    let ghost third = status@;
    ops.append(&mut rows);
    ops.append(&mut status);
    assert(models(ops@) =~= models(first) + models(second) + models(third));
    ops
}

/// There is room for as many rows as there are presets, for one at least and for twelve at most, and
/// for each row that is shown.
pub proof fn rows_have_room(model: OverlayModel)
    ensures
        1 <= row_count(model.presets@.len() as int) <= 12,
        visible_rows(model) <= row_count(model.presets@.len() as int),
        1 <= model.presets@.len() <= 12 ==> row_count(model.presets@.len() as int)
            == model.presets@.len(),
        visible_rows(model) == model.presets@.len() || (visible_rows(model) == 12
            && model.presets@.len() > 12),
{
}

/// A part lies in the middle of a larger one: the room above and below it differs by one pixel at
/// most. A part that does not fit starts at the top.
pub proof fn parts_lie_in_the_middle(top: int, outer_h: int, inner_h: int)
    ensures
        inner_h <= outer_h ==> {
            let above = middle(top, outer_h, inner_h) - top;
            let below = top + outer_h - (middle(top, outer_h, inner_h) + inner_h);
            0 <= above && 0 <= below - above <= 1
        },
        inner_h >= outer_h ==> middle(top, outer_h, inner_h) == top,
{
}

/// The content of the rows lies in the middle of the window: what is left of the key and what is
/// right of the icons differs by one pixel at most.
pub proof fn contents_lie_in_the_middle(
    metrics: OverlayMetrics,
    sizes: ScaledSizes,
    rows: int,
    label_w: int,
)
    requires
        sizes.wf(),
        label_w >= 0,
        is_layout(metrics, sizes, rows, label_w),
        sizes.key_w + sizes.key_icon_gap + sizes.icons_w() <= sizes.window_w,
    ensures
        ({
            let right = metrics.window_w - (metrics.icon_x + sizes.icons_w());
            0 <= right - metrics.key_x <= 1
        }),
        label_w == 0 ==> metrics.icon_x == metrics.label_x && metrics.window_w == sizes.window_w,
        label_w > 0 ==> metrics.icon_x == metrics.label_x + label_w + sizes.label_icon_gap,
        metrics.row_w + 2 * sizes.padding == metrics.window_w,
{
}

/// Another row makes the window higher by a row and the gap before it, and moves the status down by
/// as much; nothing else moves.
pub proof fn rows_make_the_window_higher(
    fewer: OverlayMetrics,
    more: OverlayMetrics,
    sizes: ScaledSizes,
    rows: int,
    label_w: int,
)
    requires
        is_layout(fewer, sizes, rows, label_w),
        is_layout(more, sizes, rows + 1, label_w),
    ensures
        more.window_h - fewer.window_h == sizes.row_h + sizes.row_gap,
        more.status_y - fewer.status_y == sizes.row_h + sizes.row_gap,
        more.row_y == fewer.row_y && more.window_w == fewer.window_w && more.key_x == fewer.key_x
            && more.label_x == fewer.label_x && more.icon_x == fewer.icon_x && more.status_h
            == fewer.status_h,
        row_top(more, 0) == more.row_y,
        row_top(more, rows) + sizes.row_h + sizes.status_gap == more.status_y,
{
    assert((rows + 1) * sizes.row_h == rows * sizes.row_h + sizes.row_h) by (nonlinear_arith);
    assert(rows * sizes.row_gap == (rows - 1) * sizes.row_gap + sizes.row_gap) by (nonlinear_arith);
    assert(rows * (sizes.row_h + sizes.row_gap) == rows * sizes.row_h + rows * sizes.row_gap)
        by (nonlinear_arith);
}

/// Labels get what they need and some room, as long as the window with its margins fits the screen.
pub proof fn labels_leave_the_window_on_the_screen(
    sizes: ScaledSizes,
    measured: int,
    screen_w: int,
)
    requires
        sizes.wf(),
    ensures
        ({
            let width = label_width(sizes, measured, screen_w);
            let fits = |w: int| sizes.window_w + w + sizes.label_icon_gap + 2 * sizes.screen_margin
                <= screen_w;
            &&& 0 <= width
            &&& width > 0 ==> measured > 0 && fits(width) && width <= measured + sizes.label_pad
            &&& measured > 0 && fits(measured + sizes.label_pad) ==> width == measured
                + sizes.label_pad
            &&& measured > 0 && width < measured + sizes.label_pad ==> !fits(width + 1)
        }),
{
}

/// The parts of a color can be told from it, red from the lowest byte.
pub proof fn colors_hold_their_parts(r: int, g: int, b: int)
    requires
        0 <= r < 256,
        0 <= g < 256,
        0 <= b < 256,
    ensures
        color(r, g, b) % 256 == r,
        (color(r, g, b) / 256) % 256 == g,
        color(r, g, b) / 65536 == b,
{
}

/// Each tone has a color of its own: success is mostly green, an error mostly red, and a notice
/// mostly blue.
pub proof fn tones_are_told_apart(left: OverlayTone, right: OverlayTone)
    ensures
        spec_tone_color(left) == spec_tone_color(right) ==> left == right,
        ({
            let red = |tone: OverlayTone| spec_tone_color(tone) % 256;
            let green = |tone: OverlayTone| (spec_tone_color(tone) / 256) % 256;
            let blue = |tone: OverlayTone| spec_tone_color(tone) / 65536;
            &&& green(OverlayTone::Success) > red(OverlayTone::Success) && green(
                OverlayTone::Success,
            ) > blue(OverlayTone::Success)
            &&& red(OverlayTone::Error) > green(OverlayTone::Error) && red(OverlayTone::Error)
                > blue(OverlayTone::Error)
            &&& blue(OverlayTone::Info) > red(OverlayTone::Info) && blue(OverlayTone::Info) > green(
                OverlayTone::Info,
            )
        }),
{
}

/// The icons of a row stand side by side: the stratagems in their order, four at most, and the
/// booster in the fifth place however many there are.
pub proof fn icons_stand_side_by_side(
    metrics: OverlayMetrics,
    row: OverlayPreset,
    y: int,
    index: int,
)
    requires
        0 <= index < 4,
    ensures
        icon_left(metrics, 0) == metrics.icon_x,
        icon_left(metrics, index) + metrics.sizes.icon_size + metrics.sizes.icon_gap == icon_left(
            metrics,
            index + 1,
        ),
        icon_left(metrics, 4) + metrics.sizes.icon_size == metrics.icon_x
            + metrics.sizes.icons_w(),
        index < row.stratagems@.len() ==> row_icons(metrics, row, y).len() > index && row_icons(
            metrics,
            row,
            y,
        )[index] == (DrawModel::Icon {
            item_id: row.stratagems@[index]@,
            x: icon_left(metrics, index),
            y,
        }),
        row.booster matches Some(booster) ==> row_icons(metrics, row, y).len() > 0 && row_icons(
            metrics,
            row,
            y,
        ).last() == (DrawModel::Icon { item_id: booster@, x: icon_left(metrics, 4), y }),
        row_icons(metrics, row, y).len() == (if row.stratagems@.len() < 4 {
            row.stratagems@.len() as int
        } else {
            4
        }) + (if row.booster is Some {
            1int
        } else {
            0
        }),
{
    let step = metrics.sizes.icon_size + metrics.sizes.icon_gap;
    assert((index + 1) * step == index * step + step) by (nonlinear_arith);
    assert(0 * step == 0 && 4 * step == 4 * metrics.sizes.icon_size + 4 * metrics.sizes.icon_gap)
        by (nonlinear_arith)
        requires
            step == metrics.sizes.icon_size + metrics.sizes.icon_gap,
    ;
    let count: int = if row.stratagems@.len() < 4 {
        row.stratagems@.len() as int
    } else {
        4
    };
    stratagem_icons_stand_in_order(metrics, row, y, count, index);
}

proof fn stratagem_icons_stand_in_order(
    metrics: OverlayMetrics,
    row: OverlayPreset,
    y: int,
    count: int,
    index: int,
)
    requires
        0 <= count,
    ensures
        stratagem_icons(metrics, row, y, count).len() == count,
        0 <= index < count ==> stratagem_icons(metrics, row, y, count)[index] == (DrawModel::Icon {
            item_id: row.stratagems@[index]@,
            x: icon_left(metrics, index),
            y,
        }),
    decreases count,
{
    if count > 0 {
        stratagem_icons_stand_in_order(metrics, row, y, count - 1, index);
    }
}

/// One picture stands in another one, from a place on.
pub open spec fn stands_in(part: Seq<DrawModel>, all: Seq<DrawModel>, from: int) -> bool {
    0 <= from && from + part.len() <= all.len() && forall|at: int|
        0 <= at < part.len() ==> #[trigger] part[at] == all[from + at]
}

/// Every visible row is drawn.
pub proof fn visible_rows_are_drawn(
    metrics: OverlayMetrics,
    model: OverlayModel,
    visible: int,
    count: int,
    index: int,
)
    requires
        0 <= index < count,
    ensures
        exists|from: int| #[trigger]
            stands_in(
                row_picture(metrics, model, visible, index),
                rows_picture(metrics, model, visible, count),
                from,
            ),
    decreases count,
{
    let part = row_picture(metrics, model, visible, index);
    let front = rows_picture(metrics, model, visible, count - 1);
    let all = rows_picture(metrics, model, visible, count);
    if index < count - 1 {
        visible_rows_are_drawn(metrics, model, visible, count - 1, index);
        let from = choose|from: int| #[trigger] stands_in(part, front, from);
        assert(stands_in(part, all, from));
    } else {
        assert(stands_in(part, all, front.len() as int));
    }
}

/// The picture of a row has its key first, over the background if the preset is in use, and ends
/// with a line unless the row is the last.
pub proof fn rows_show_key_and_line(
    metrics: OverlayMetrics,
    model: OverlayModel,
    visible: int,
    index: int,
)
    requires
        metrics.sizes.wf(),
    ensures
        ({
            let picture = row_picture(metrics, model, visible, index);
            let row = model.presets@[index];
            let first: int = if model.active_preset matches Some(name) && name@ == row.name@ {
                1
            } else {
                0
            };
            &&& picture.len() > first
            &&& picture[first] matches DrawModel::Text { font, ink, style, text, frame } && text
                == row.key_label@ && frame.0 == metrics.key_x
            &&& first == 1 ==> (picture[0] matches DrawModel::Fill { area, paint } && area.1
                == row_top(metrics, index) && area.3 - area.1 == metrics.sizes.row_h && area.2
                - area.0 == metrics.row_w)
            &&& index + 1 < visible ==> (picture.last() matches DrawModel::Fill { area, paint }
                && area.3 - area.1 == 1 && area.1 >= row_top(metrics, index) + metrics.sizes.row_h)
        }),
{
    let y = row_top(metrics, index);
    let row = model.presets@[index];
    let back = row_background(metrics, is_active(model, index), y);
    let picture = row_picture(metrics, model, visible, index);
    assert(picture[back.len() as int] == row_key(metrics, row, y));
    if is_active(model, index) {
        assert(picture[0] == back[0]);
    }
    let line = row_separator(metrics, index + 1 >= visible, y);
    if index + 1 < visible {
        assert(picture.last() == line[0]);
    }
}

/// The text of the status has the same room on both sides and stays above the end of the status.
pub proof fn statuses_stay_in_their_place(metrics: OverlayMetrics, status: Seq<char>)
    requires
        metrics.row_w == metrics.window_w - 2 * metrics.sizes.padding,
        metrics.row_w > 2 * metrics.sizes.text_pad_x,
        metrics.status_h > 2 * metrics.sizes.text_pad_y,
    ensures
        status_picture(metrics, status).len() == 2,
        status_picture(metrics, status)[1] matches DrawModel::Text { font, ink, style, text, frame }
            && text == status && style == TextStyle::Wrapped && frame.0 == metrics.window_w - frame.2
            && frame.1 - metrics.status_y == metrics.status_y + metrics.status_h - frame.3,
        status_picture(metrics, status)[0] matches DrawModel::Fill { area, paint } && area.0
            == metrics.window_w - area.2 && area.3 == area.1 + 1 && area.1
            + metrics.sizes.status_separator_gap == metrics.status_y,
{
}

/// The background covers the window, and the stripe its left edge in the color of the tone.
pub proof fn backgrounds_cover_the_window(metrics: OverlayMetrics, tone: OverlayTone)
    ensures
        ({
            let picture = frame_picture(metrics, tone);
            &&& picture[0] matches DrawModel::Fill { area, paint } && area == (
                0int,
                0int,
                metrics.window_w as int,
                metrics.window_h as int,
            )
            &&& picture[1] matches DrawModel::Fill { area, paint } && paint == spec_tone_color(tone)
                && area.0 == 0 && area.1 == 0 && area.2 == metrics.sizes.accent_w && area.3
                == metrics.window_h
            &&& picture.len() == 3
        }),
{
}

/// What a row says instead of icons stands where the icons would, in one line in the middle of the
/// row; its label stands between the key and the icons.
pub proof fn rows_say_what_is_wrong(metrics: OverlayMetrics, row: OverlayPreset, y: int)
    requires
        metrics.sizes.wf(),
        metrics.sizes.line_h <= metrics.sizes.row_h,
    ensures
        !(row.status is Ready) ==> {
            let content = row_content(metrics, row, y);
            &&& content.len() == 1
            &&& content[0] matches DrawModel::Text { font, ink, style, text, frame } && frame.0
                == metrics.icon_x && frame.3 - frame.1 == metrics.sizes.line_h && 0 <= (y
                + metrics.sizes.row_h - frame.3) - (frame.1 - y) <= 1 && style == TextStyle::Line
                && (row.status is NotSaved ==> text == "not saved"@) && (
            row.status matches OverlayPresetStatus::Invalid(error) ==> text == "invalid: "@
                + compacted(error@))
        },
        row.status is Ready ==> row_content(metrics, row, y) == row_icons(
            metrics,
            row,
            middle(y, metrics.sizes.row_h as int, metrics.sizes.icon_size as int),
        ),
        row.label is None ==> row_label(metrics, row, y).len() == 0,
        row.label matches Some(label) ==> row_label(metrics, row, y).len() == 1 && (row_label(
            metrics,
            row,
            y,
        )[0] matches DrawModel::Text { font, ink, style, text, frame } && text == label@ && frame.0
            == metrics.label_x && frame.2 == metrics.label_x + metrics.label_w && 0 <= (y
            + metrics.sizes.row_h - frame.3) - (frame.1 - y) <= 1),
{
    parts_lie_in_the_middle(y, metrics.sizes.row_h as int, metrics.sizes.line_h as int);
}

} // verus!
