//! What templates are compared with a slot, and where.
use vstd::prelude::*;

use crate::fingerprint::{luma, luma601_u8};
use crate::item::{ItemKind, StratagemCategory};
use crate::single::{round, rounding_is_close, single, small_numbers_are_kept};
use crate::slot::{SlotKind, SlotLayout};
use crate::vision::{inside, Frame, ImageRect, Slot};

verus! {

/// The categories that a stratagem may have by its color.
#[derive(Clone, Copy, Debug, PartialEq, Eq, Structural)]
pub enum StratagemCategoryCandidates {
    One(StratagemCategory),
    Two(StratagemCategory, StratagemCategory),
    All,
}

impl StratagemCategoryCandidates {
    pub open spec fn admits(self, category: StratagemCategory) -> bool {
        match self {
            StratagemCategoryCandidates::One(first) => category == first,
            StratagemCategoryCandidates::Two(first, second) => category == first || category
                == second,
            StratagemCategoryCandidates::All => true,
        }
    }

    pub fn contains(self, category: StratagemCategory) -> (contained: bool)
        ensures
            contained == self.admits(category),
    {
        match self {
            StratagemCategoryCandidates::One(first) => category == first,
            StratagemCategoryCandidates::Two(first, second) => category == first || category
                == second,
            StratagemCategoryCandidates::All => true,
        }
    }
}

/// How far a search went.
#[derive(Clone, Copy, Debug, PartialEq, Eq, Structural)]
pub enum SearchLayer {
    Initial,
    Translation,
    Scale,
}

/// The templates of a kind at a size, on a canvas of the size of a slot.
#[derive(Clone, Copy, Debug, PartialEq, Eq, Structural)]
pub struct ProfileKey {
    pub kind: ItemKind,
    pub canvas_w: u32,
    pub canvas_h: u32,
    pub icon_size: u32,
}

/// Why templates cannot be made.
#[derive(Clone, Copy, Debug, PartialEq, Eq, Structural)]
pub enum ProfileError {
    EmptyCanvas,
    EmptyIcon,
    IconExceedsCanvas,
}

pub open spec fn profile_error(key: ProfileKey) -> Option<ProfileError> {
    if key.canvas_w == 0 || key.canvas_h == 0 {
        Some(ProfileError::EmptyCanvas)
    } else if key.icon_size == 0 {
        Some(ProfileError::EmptyIcon)
    } else if key.icon_size > key.canvas_w || key.icon_size > key.canvas_h {
        Some(ProfileError::IconExceedsCanvas)
    } else {
        None
    }
}

pub fn check_profile(key: ProfileKey) -> (result: Result<(), ProfileError>)
    ensures
        match result {
            Ok(_) => profile_error(key) is None,
            Err(error) => profile_error(key) == Some(error),
        },
{
    if key.canvas_w == 0 || key.canvas_h == 0 {
        Err(ProfileError::EmptyCanvas)
    } else if key.icon_size == 0 {
        Err(ProfileError::EmptyIcon)
    } else if key.icon_size > key.canvas_w || key.icon_size > key.canvas_h {
        Err(ProfileError::IconExceedsCanvas)
    } else {
        Ok(())
    }
}

/// The kind of item that is looked for in a slot. On the loadout home the booster slot counts even
/// where it is empty.
pub open spec fn searched_kind(kind: SlotKind, layout: SlotLayout) -> Option<ItemKind> {
    if layout == SlotLayout::Home && kind.home_booster() {
        Some(ItemKind::Booster)
    } else {
        kind.spec_classification_kind()
    }
}

pub fn classification_kind_for_slot(kind: SlotKind, layout: SlotLayout) -> (item: Option<ItemKind>)
    ensures
        item == searched_kind(kind, layout),
{
    if layout == SlotLayout::Home && kind.is_home_booster() {
        Some(ItemKind::Booster)
    } else {
        kind.classification_kind()
    }
}

/// The size of icons in a slot of this size: 68 of 104 parts in a list, 93 of 104 on the loadout
/// home, rounded. The parts, in 0x100_0000, and their product with the side are numbers of single
/// precision.
pub open spec fn icon_size_of(layout: SlotLayout, side: int) -> int {
    let parts = if layout == SlotLayout::Home {
        15002703int
    } else {
        10969718
    };
    let size = (single(parts * single(side)) + 0x80_0000) / 0x100_0000;
    if size < 1 || side < 1 {
        1
    } else if size > side {
        side
    } else {
        size
    }
}

pub fn nominal_icon_size(layout: SlotLayout, slot_w: u32, slot_h: u32) -> (size: u32)
    ensures
        size == icon_size_of(
            layout,
            if slot_w < slot_h {
                slot_w as int
            } else {
                slot_h as int
            },
        ),
        slot_w > 0 && slot_h > 0 ==> size <= slot_w && size <= slot_h,
{
    let side = if slot_w < slot_h {
        slot_w
    } else {
        slot_h
    };
    let parts: i128 = if layout == SlotLayout::Home {
        15002703
    } else {
        10969718
    };
    let length = round(side as i128);
    assert(0 <= parts * length <= 15002703 * 0x2_0000_0000) by (nonlinear_arith)
        requires
            0 <= parts <= 15002703,
            0 <= length <= 0x2_0000_0000,
    ;
    let size: i128 = (round(parts * length) + 0x80_0000) / 0x100_0000;
    if size < 1 || side < 1 {
        1
    } else if size > side as i128 {
        side
    } else {
        size as u32
    }
}

/// The keys that come first among those of the first `count` slots.
pub open spec fn nominal_keys(slots: Seq<Slot>, layout: SlotLayout, count: int) -> Seq<ProfileKey>
    decreases count,
{
    if count <= 0 {
        Seq::empty()
    } else {
        let before = nominal_keys(slots, layout, count - 1);
        match nominal_key(slots[count - 1], layout) {
            Some(key) => if before.contains(key) {
                before
            } else {
                before.push(key)
            },
            None => before,
        }
    }
}

/// The key of the templates that are compared with a slot first.
pub open spec fn nominal_key(slot: Slot, layout: SlotLayout) -> Option<ProfileKey> {
    match searched_kind(slot.kind, layout) {
        Some(kind) => Some(
            ProfileKey {
                kind,
                canvas_w: slot.w,
                canvas_h: slot.h,
                icon_size: icon_size_of(
                    layout,
                    if slot.w < slot.h {
                        slot.w as int
                    } else {
                        slot.h as int
                    },
                ) as u32,
            },
        ),
        None => None,
    }
}

fn holds_key(keys: &Vec<ProfileKey>, key: ProfileKey) -> (found: bool)
    ensures
        found == keys@.contains(key),
{
    let mut index: usize = 0;
    while index < keys.len()
        invariant
            index <= keys@.len(),
            forall|at: int| 0 <= at < index ==> keys@[at] != key,
        decreases keys@.len() - index,
    {
        if keys[index] == key {
            return true;
        }
        index = index + 1;
    }
    false
}

/// The templates that the slots of a page are compared with first, each once.
pub fn prewarm_nominal_profiles(slots: &Vec<Slot>, layout: SlotLayout) -> (keys: Vec<ProfileKey>)
    ensures
        keys@ == nominal_keys(slots@, layout, slots@.len() as int),
{
    let mut keys: Vec<ProfileKey> = Vec::new();
    let mut index: usize = 0;
    while index < slots.len()
        invariant
            index <= slots@.len(),
            keys@ == nominal_keys(slots@, layout, index as int),
        decreases slots@.len() - index,
    {
        let slot = &slots[index];
        if let Some(kind) = classification_kind_for_slot(slot.kind, layout) {
            let key = ProfileKey {
                kind,
                canvas_w: slot.w,
                canvas_h: slot.h,
                icon_size: nominal_icon_size(layout, slot.w, slot.h),
            };
            assert(nominal_key(slots@[index as int], layout) == Some(key));
            if !holds_key(&keys, key) {
                keys.push(key);
            }
        }
        index = index + 1;
    }
    keys
}

/// The keys are listed once.
pub proof fn keys_are_listed_once(slots: Seq<Slot>, layout: SlotLayout, count: int)
    ensures
        nominal_keys(slots, layout, count).no_duplicates(),
    decreases count,
{
    if count > 0 {
        keys_are_listed_once(slots, layout, count - 1);
        let before = nominal_keys(slots, layout, count - 1);
        if let Some(key) = nominal_key(slots[count - 1], layout) {
            if !before.contains(key) {
                assert forall|i: int, j: int|
                    0 <= i < before.len() + 1 && 0 <= j < before.len() + 1 && i
                        != j implies before.push(key)[i] != before.push(key)[j] by {
                    if i < before.len() && j < before.len() {
                        assert(before[i] != before[j]);
                    } else if i < before.len() {
                        assert(before.contains(before[i]));
                    } else {
                        assert(before.contains(before[j]));
                    }
                }
            }
        }
    }
}

/// The places at which templates are compared, as distances from the middle.
pub open spec fn search_offsets() -> Seq<(i32, i32)> {
    seq![
        (0i32, 0i32),
        (-1i32, -1i32),
        (0i32, -1i32),
        (1i32, -1i32),
        (-1i32, 0i32),
        (1i32, 0i32),
        (-1i32, 1i32),
        (0i32, 1i32),
        (1i32, 1i32),
    ]
}

/// The places at which templates are compared first. Where the rest of the canvas has an odd
/// length the middle lies between two pixels, and both are tried.
pub open spec fn first_offsets(x_half: bool, y_half: bool) -> Seq<(i32, i32)> {
    if x_half && y_half {
        seq![(0i32, 0i32), (1i32, 0i32), (0i32, 1i32), (1i32, 1i32)]
    } else if x_half {
        seq![(0i32, 0i32), (1i32, 0i32)]
    } else if y_half {
        seq![(0i32, 0i32), (0i32, 1i32)]
    } else {
        seq![(0i32, 0i32)]
    }
}

/// The rest of a canvas around an icon has an odd length.
pub open spec fn is_half(canvas: int, icon: int) -> bool {
    canvas > icon && (canvas - icon) % 2 == 1
}

pub fn initial_offsets(canvas_w: u32, canvas_h: u32, icon_size: u32) -> (offsets: Vec<(i32, i32)>)
    ensures
        offsets@ == first_offsets(
            is_half(canvas_w as int, icon_size as int),
            is_half(canvas_h as int, icon_size as int),
        ),
{
    let x_half = canvas_w > icon_size && (canvas_w - icon_size) % 2 == 1;
    let y_half = canvas_h > icon_size && (canvas_h - icon_size) % 2 == 1;
    let offsets = if x_half && y_half {
        vec![(0i32, 0i32), (1i32, 0i32), (0i32, 1i32), (1i32, 1i32)]
    } else if x_half {
        vec![(0i32, 0i32), (1i32, 0i32)]
    } else if y_half {
        vec![(0i32, 0i32), (0i32, 1i32)]
    } else {
        vec![(0i32, 0i32)]
    };
    assert(offsets@ =~= first_offsets(x_half, y_half));
    offsets
}

/// The places without those that are excluded.
pub open spec fn excluding(offsets: Seq<(i32, i32)>, excluded: Seq<(i32, i32)>) -> Seq<(i32, i32)>
    decreases offsets.len(),
{
    if offsets.len() == 0 {
        offsets
    } else if excluded.contains(offsets.last()) {
        excluding(offsets.drop_last(), excluded)
    } else {
        excluding(offsets.drop_last(), excluded).push(offsets.last())
    }
}

fn holds_offset(offsets: &Vec<(i32, i32)>, offset: (i32, i32)) -> (found: bool)
    ensures
        found == offsets@.contains(offset),
{
    let mut index: usize = 0;
    while index < offsets.len()
        invariant
            index <= offsets@.len(),
            forall|at: int| 0 <= at < index ==> offsets@[at] != offset,
        decreases offsets@.len() - index,
    {
        let (x, y) = offsets[index];
        if x == offset.0 && y == offset.1 {
            assert(offsets@[index as int] == offset);
            return true;
        }
        index = index + 1;
    }
    false
}

pub fn offsets_excluding(offsets: &Vec<(i32, i32)>, excluded: &Vec<(i32, i32)>) -> (rest: Vec<
    (i32, i32),
>)
    ensures
        rest@ == excluding(offsets@, excluded@),
{
    let mut rest: Vec<(i32, i32)> = Vec::new();
    let mut index: usize = 0;
    assert(offsets@.take(0) =~= Seq::empty());
    while index < offsets.len()
        invariant
            index <= offsets@.len(),
            rest@ == excluding(offsets@.take(index as int), excluded@),
        decreases offsets@.len() - index,
    {
        assert(offsets@.take(index + 1).drop_last() =~= offsets@.take(index as int));
        let offset = offsets[index];
        if !holds_offset(excluded, offset) {
            rest.push(offset);
        }
        index = index + 1;
    }
    assert(offsets@.take(offsets@.len() as int) =~= offsets@);
    rest
}

/// All places, and what is left of them after the first ones.
pub fn search_plan(canvas_w: u32, canvas_h: u32, icon_size: u32) -> (plan: (
    Vec<(i32, i32)>,
    Vec<(i32, i32)>,
))
    ensures
        plan.0@ == first_offsets(
            is_half(canvas_w as int, icon_size as int),
            is_half(canvas_h as int, icon_size as int),
        ),
        plan.1@ == excluding(search_offsets(), plan.0@),
{
    let first = initial_offsets(canvas_w, canvas_h, icon_size);
    let all = all_offsets();
    let rest = offsets_excluding(&all, &first);
    (first, rest)
}

/// All places at which templates are compared.
pub fn all_offsets() -> (offsets: Vec<(i32, i32)>)
    ensures
        offsets@ == search_offsets(),
{
    let offsets = vec![
        (0i32, 0i32),
        (-1i32, -1i32),
        (0i32, -1i32),
        (1i32, -1i32),
        (-1i32, 0i32),
        (1i32, 0i32),
        (-1i32, 1i32),
        (0i32, 1i32),
        (1i32, 1i32),
    ];
    assert(offsets@ =~= search_offsets());
    offsets
}

proof fn excluding_keeps_others(
    offsets: Seq<(i32, i32)>,
    excluded: Seq<(i32, i32)>,
    offset: (i32, i32),
)
    ensures
        excluding(offsets, excluded).contains(offset) <==> offsets.contains(offset)
            && !excluded.contains(offset),
    decreases offsets.len(),
{
    if offsets.len() > 0 {
        let front = offsets.drop_last();
        let kept = excluding(front, excluded);
        excluding_keeps_others(front, excluded, offset);
        assert(offsets.contains(offset) <==> front.contains(offset) || offset == offsets.last()) by {
            if offsets.contains(offset) {
                let at = choose|at: int| 0 <= at < offsets.len() && offsets[at] == offset;
                if at < front.len() {
                    assert(front[at] == offset);
                }
            }
            if front.contains(offset) {
                let at = choose|at: int| 0 <= at < front.len() && front[at] == offset;
                assert(offsets[at] == offset);
            }
            if offset == offsets.last() {
                assert(offsets[offsets.len() - 1] == offset);
            }
        }
        if !excluded.contains(offsets.last()) {
            let more = kept.push(offsets.last());
            assert(more.contains(offset) <==> kept.contains(offset) || offset == offsets.last()) by {
                if more.contains(offset) {
                    let at = choose|at: int| 0 <= at < more.len() && more[at] == offset;
                    if at < kept.len() {
                        assert(kept[at] == offset);
                    }
                }
                if kept.contains(offset) {
                    let at = choose|at: int| 0 <= at < kept.len() && kept[at] == offset;
                    assert(more[at] == offset);
                }
                if offset == offsets.last() {
                    assert(more[kept.len() as int] == offset);
                }
            }
        }
    } else {
        assert(!offsets.contains(offset));
    }
}

/// Every place is tried once: first or later.
pub proof fn every_place_is_tried(x_half: bool, y_half: bool, offset: (i32, i32))
    ensures
        first_offsets(x_half, y_half).contains(offset) ==> search_offsets().contains(offset),
        search_offsets().contains(offset) <==> first_offsets(x_half, y_half).contains(offset)
            || excluding(search_offsets(), first_offsets(x_half, y_half)).contains(offset),
        !(first_offsets(x_half, y_half).contains(offset) && excluding(
            search_offsets(),
            first_offsets(x_half, y_half),
        ).contains(offset)),
{
    let first = first_offsets(x_half, y_half);
    let all = search_offsets();
    excluding_keeps_others(all, first, offset);
    if first.contains(offset) {
        assert(all[0] == (0i32, 0i32) && all[5] == (1i32, 0i32) && all[7] == (0i32, 1i32) && all[8]
            == (1i32, 1i32));
    }
}

/// The sizes next to a size that fit the canvas, the smaller one first.
pub open spec fn sizes_next_to(nominal: int, max_size: int) -> Seq<u32> {
    let smaller = if nominal > 1 && nominal - 1 <= max_size {
        seq![(nominal - 1) as u32]
    } else if nominal == 0 && 1 <= max_size {
        seq![1u32]
    } else {
        Seq::empty()
    };
    if nominal > 0 && nominal < u32::MAX && nominal + 1 <= max_size {
        smaller.push((nominal + 1) as u32)
    } else {
        smaller
    }
}

pub fn neighboring_icon_sizes(nominal: u32, max_size: u32) -> (sizes: Vec<u32>)
    ensures
        sizes@ == sizes_next_to(nominal as int, max_size as int),
{
    let mut sizes: Vec<u32> = Vec::new();
    if nominal > 1 {
        if nominal - 1 <= max_size {
            sizes.push(nominal - 1);
        }
    } else if nominal == 0 && 1 <= max_size {
        sizes.push(1);
    }
    if nominal > 0 && nominal < u32::MAX && nominal + 1 <= max_size {
        sizes.push(nominal + 1);
    }
    assert(sizes@ =~= sizes_next_to(nominal as int, max_size as int));
    sizes
}

/// The first of the highest scores, by the ranks of the scores. A template without a rank does not
/// count.
pub open spec fn is_best(ranks: Seq<Option<i32>>, best: int, count: int) -> bool {
    &&& 0 <= best < count
    &&& ranks[best] is Some
    &&& forall|other: int|
        0 <= other < best ==> (#[trigger] ranks[other] matches Some(rank) ==> rank
            < ranks[best]->0)
    &&& forall|other: int|
        best < other < count ==> (#[trigger] ranks[other] matches Some(rank) ==> rank
            <= ranks[best]->0)
}

/// The highest rank but for the best.
pub open spec fn is_second(
    ranks: Seq<Option<i32>>,
    best: int,
    second: Option<i32>,
    count: int,
) -> bool {
    match second {
        Some(value) => {
            &&& exists|at: int|
                0 <= at < count && at != best && #[trigger] ranks[at] == Some(value)
            &&& forall|at: int|
                0 <= at < count && at != best ==> (#[trigger] ranks[at] matches Some(rank) ==> rank
                    <= value)
        },
        None => forall|at: int| 0 <= at < count && at != best ==> #[trigger] ranks[at] is None,
    }
}

/// The template with the highest score, and the highest score of the others.
pub fn best_two(ranks: &Vec<Option<i32>>) -> (found: Option<(usize, Option<i32>)>)
    ensures
        match found {
            Some((best, second)) => is_best(ranks@, best as int, ranks@.len() as int) && is_second(
                ranks@,
                best as int,
                second,
                ranks@.len() as int,
            ),
            None => forall|at: int| 0 <= at < ranks@.len() ==> #[trigger] ranks@[at] is None,
        },
{
    let mut best: Option<(usize, i32)> = None;
    let mut second: Option<i32> = None;
    let mut index: usize = 0;
    while index < ranks.len()
        invariant
            index <= ranks@.len(),
            match best {
                Some((at, rank)) => is_best(ranks@, at as int, index as int) && ranks@[at as int]
                    == Some(rank) && is_second(ranks@, at as int, second, index as int),
                None => second is None && forall|at: int|
                    0 <= at < index ==> #[trigger] ranks@[at] is None,
            },
        decreases ranks@.len() - index,
    {
        if let Some(rank) = ranks[index] {
            match best {
                Some((at, current)) => {
                    if rank <= current {
                        let higher = match second {
                            Some(value) => if rank > value {
                                rank
                            } else {
                                value
                            },
                            None => rank,
                        };
                        second = Some(higher);
                    } else {
                        second = Some(current);
                        best = Some((index, rank));
                    }
                },
                None => {
                    best = Some((index, rank));
                },
            }
        }
        assert(ranks@[index as int] == ranks@[index as int]);
        index = index + 1;
    }
    match best {
        Some((at, _)) => Some((at, second)),
        None => None,
    }
}

/// A pixel of a canvas.
#[derive(Clone, Copy, Debug, PartialEq, Eq, Structural)]
pub struct MaskPoint {
    pub x: u32,
    pub y: u32,
}

/// Some template is opaque enough at this pixel, and the pixel counts.
pub open spec fn is_masked(alphas: Seq<Vec<u8>>, interior: Seq<bool>, index: int) -> bool {
    interior[index] && exists|template: int|
        0 <= template < alphas.len() && (#[trigger] alphas[template])@[index] > 64
}

/// The pixels that are compared, among the first `count` of a canvas.
pub open spec fn mask_of(alphas: Seq<Vec<u8>>, interior: Seq<bool>, width: int, count: int) -> Seq<
    MaskPoint,
>
    decreases count,
{
    if count <= 0 {
        Seq::empty()
    } else if is_masked(alphas, interior, count - 1) {
        mask_of(alphas, interior, width, count - 1).push(
            MaskPoint { x: ((count - 1) % width) as u32, y: ((count - 1) / width) as u32 },
        )
    } else {
        mask_of(alphas, interior, width, count - 1)
    }
}

/// The mask has too few pixels.
#[derive(Clone, Copy, Debug, PartialEq, Eq, Structural)]
pub struct MaskTooSmall {
    pub pixels: usize,
}

fn is_opaque_somewhere(alphas: &Vec<Vec<u8>>, index: usize) -> (opaque: bool)
    requires
        forall|at: int| 0 <= at < alphas@.len() ==> index < (#[trigger] alphas@[at])@.len(),
    ensures
        opaque == exists|template: int|
            0 <= template < alphas@.len() && (#[trigger] alphas@[template])@[index as int] > 64,
{
    let mut template: usize = 0;
    while template < alphas.len()
        invariant
            template <= alphas@.len(),
            forall|at: int| 0 <= at < alphas@.len() ==> index < (#[trigger] alphas@[at])@.len(),
            forall|at: int| 0 <= at < template ==> (#[trigger] alphas@[at])@[index as int] <= 64,
        decreases alphas@.len() - template,
    {
        assert(index < alphas@[template as int]@.len());
        if alphas[template][index] > 64 {
            return true;
        }
        template = template + 1;
    }
    false
}

/// The pixels at which templates are compared: those that count and where some template is opaque
/// enough. There have to be enough of them.
pub fn template_mask(alphas: &Vec<Vec<u8>>, interior: &Vec<bool>, width: u32) -> (mask: Result<
    Vec<MaskPoint>,
    MaskTooSmall,
>)
    requires
        0 < width,
        interior@.len() <= u32::MAX,
        forall|at: int|
            0 <= at < alphas@.len() ==> (#[trigger] alphas@[at])@.len() == interior@.len(),
    ensures
        ({
            let points = mask_of(alphas@, interior@, width as int, interior@.len() as int);
            match mask {
                Ok(found) => found@ == points && points.len() >= 64,
                Err(error) => points.len() < 64 && error.pixels == points.len(),
            }
        }),
{
    let mut points: Vec<MaskPoint> = Vec::new();
    let mut index: usize = 0;
    while index < interior.len()
        invariant
            0 < width,
            index <= interior@.len() <= u32::MAX,
            forall|at: int|
                0 <= at < alphas@.len() ==> (#[trigger] alphas@[at])@.len() == interior@.len(),
            points@ == mask_of(alphas@, interior@, width as int, index as int),
        decreases interior@.len() - index,
    {
        if interior[index] && is_opaque_somewhere(alphas, index) {
            points.push(MaskPoint { x: index as u32 % width, y: index as u32 / width });
        }
        index = index + 1;
    }
    if points.len() < 64 {
        Err(MaskTooSmall { pixels: points.len() })
    } else {
        Ok(points)
    }
}

/// The brightness of the first `count` pixels of a region, row by row.
pub open spec fn region_luma(image: Frame, region: ImageRect, count: int) -> Seq<u8>
    decreases count,
{
    if count <= 0 {
        Seq::empty()
    } else {
        let pixel = image.pixel(
            region.x + (count - 1) % (region.w as int),
            region.y + (count - 1) / (region.w as int),
        );
        region_luma(image, region, count - 1).push(
            luma(pixel.r as int, pixel.g as int, pixel.b as int) as u8,
        )
    }
}

/// Why a slot cannot be looked at.
#[derive(Clone, Copy, Debug, PartialEq, Eq, Structural)]
pub enum SlotCropError {
    Empty,
    OutsideImage,
}

/// The brightness of the pixels of a slot.
pub fn slot_luma(image: &Frame, region: ImageRect) -> (gray: Result<Vec<u8>, SlotCropError>)
    ensures
        match gray {
            Ok(values) => region.w > 0 && region.h > 0 && inside(*image, region) && values@
                == region_luma(*image, region, region.w as int * region.h as int),
            Err(SlotCropError::Empty) => region.w == 0 || region.h == 0,
            Err(SlotCropError::OutsideImage) => region.w > 0 && region.h > 0 && !inside(
                *image,
                region,
            ),
        },
{
    if region.w == 0 || region.h == 0 {
        return Err(SlotCropError::Empty);
    }
    if region.x as u64 + region.w as u64 > image.width() as u64 || region.y as u64 + region.h as u64
        > image.height() as u64 {
        return Err(SlotCropError::OutsideImage);
    }
    let ghost width = region.w as int;
    let mut values: Vec<u8> = Vec::new();
    let mut y: u32 = 0;
    while y < region.h
        invariant
            y <= region.h,
            width == region.w,
            0 < region.w,
            region.x + region.w <= image.spec_width(),
            region.y + region.h <= image.spec_height(),
            values@ == region_luma(*image, region, y as int * width),
        decreases region.h - y,
    {
        let mut x: u32 = 0;
        while x < region.w
            invariant
                x <= region.w,
                y < region.h,
                width == region.w,
                0 < region.w,
                region.x + region.w <= image.spec_width(),
                region.y + region.h <= image.spec_height(),
                values@ == region_luma(*image, region, y as int * width + x),
            decreases region.w - x,
        {
            let pixel = image.get_pixel(region.x + x, region.y + y);
            values.push(luma601_u8(pixel.r, pixel.g, pixel.b));
            proof {
                vstd::arithmetic::div_mod::lemma_fundamental_div_mod_converse(
                    y as int * width + x,
                    width,
                    y as int,
                    x as int,
                );
                assert(0 <= y as int * width) by (nonlinear_arith)
                    requires
                        0 <= y,
                        0 < width,
                ;
            }
            x = x + 1;
        }
        assert((y + 1) * width == y as int * width + width) by (nonlinear_arith);
        y = y + 1;
    }
    assert(region.h as int * width == region.w as int * region.h as int) by (nonlinear_arith)
        requires
            width == region.w,
    ;
    Ok(values)
}

/// The places around the middle are those off it by one pixel at most, each once, the middle first.
pub proof fn places_surround_the_middle(offset: (i32, i32))
    ensures
        search_offsets().contains(offset) <==> -1 <= offset.0 <= 1 && -1 <= offset.1 <= 1,
        search_offsets().len() == 9,
        search_offsets()[0] == (0i32, 0i32),
{
    let all = search_offsets();
    assert(all.len() == 9);
    if -1 <= offset.0 <= 1 && -1 <= offset.1 <= 1 {
        assert(all[0] == (0i32, 0i32));
        assert(all[1] == (-1i32, -1i32));
        assert(all[2] == (0i32, -1i32));
        assert(all[3] == (1i32, -1i32));
        assert(all[4] == (-1i32, 0i32));
        assert(all[5] == (1i32, 0i32));
        assert(all[6] == (-1i32, 1i32));
        assert(all[7] == (0i32, 1i32));
        assert(all[8] == (1i32, 1i32));
    }
}

/// First the middle is tried. Where the icon leaves an odd rest of the canvas, the pixel after it is
/// tried as well, in that direction only.
pub proof fn middles_are_tried_first(canvas_w: int, canvas_h: int, icon: int, offset: (i32, i32))
    requires
        0 <= icon <= canvas_w,
        icon <= canvas_h,
    ensures
        ({
            let first = first_offsets(is_half(canvas_w, icon), is_half(canvas_h, icon));
            &&& first[0] == (0i32, 0i32)
            &&& first.contains(offset) <==> {
                &&& offset.0 == 0 || (offset.0 == 1 && canvas_w % 2 != icon % 2)
                &&& offset.1 == 0 || (offset.1 == 1 && canvas_h % 2 != icon % 2)
            }
        }),
{
    let first = first_offsets(is_half(canvas_w, icon), is_half(canvas_h, icon));
    assert(first[0] == (0i32, 0i32));
    if first.len() > 1 {
        assert(first[1] == first[1]);
    }
    if first.len() > 2 {
        assert(first[2] == (0i32, 1i32) && first[3] == (1i32, 1i32));
    }
}

/// The sizes next to a size are those that differ from it by one, are not zero and do not exceed
/// the largest, the smaller one first.
pub proof fn sizes_differ_by_one(nominal: u32, max_size: u32, size: u32)
    ensures
        sizes_next_to(nominal as int, max_size as int).contains(size) <==> (size == nominal + 1
            || size == nominal - 1) && 1 <= size <= max_size,
        sizes_next_to(nominal as int, max_size as int).len() <= 2,
        sizes_next_to(nominal as int, max_size as int).len() == 2 ==> sizes_next_to(
            nominal as int,
            max_size as int,
        )[0] < sizes_next_to(nominal as int, max_size as int)[1],
{
    let sizes = sizes_next_to(nominal as int, max_size as int);
    if sizes.contains(size) {
        let at = choose|at: int| 0 <= at < sizes.len() && sizes[at] == size;
        assert(at == 0 || at == 1);
    }
    if 1 <= size <= max_size {
        if size == nominal - 1 {
            assert(sizes[0] == size);
        }
        if size == nominal + 1 {
            assert(sizes[sizes.len() - 1] == size);
        }
    }
}

/// Templates can be made just where an icon with an extent fits its canvas.
pub proof fn icons_fit_their_canvas(key: ProfileKey)
    ensures
        profile_error(key) is None <==> 1 <= key.icon_size <= key.canvas_w && key.icon_size
            <= key.canvas_h,
        profile_error(key) == Some(ProfileError::EmptyCanvas) <==> key.canvas_w == 0 || key.canvas_h
            == 0,
        profile_error(key) == Some(ProfileError::EmptyIcon) ==> key.icon_size == 0,
        profile_error(key) == Some(ProfileError::IconExceedsCanvas) ==> key.icon_size > 0,
{
}

/// In a list an item is looked for in the slots of which it can be picked. The booster slot of the
/// home is looked at whether or not it is filled; a stratagem slot only where it is.
pub proof fn slots_are_searched_for_their_items(slot_kind: SlotKind, layout: SlotLayout)
    ensures
        searched_kind(slot_kind, layout) == Some(ItemKind::Stratagem) <==> slot_kind
            == SlotKind::Stratagem,
        searched_kind(slot_kind, layout) == Some(ItemKind::Booster) <==> slot_kind
            == SlotKind::Booster || slot_kind == SlotKind::HomeBooster || (slot_kind
            == SlotKind::HomeBoosterEmpty && layout == SlotLayout::Home),
{
}

/// Icons have 68 of 104 parts of the side of a slot in a list and 93 of 104 on the home, up to half
/// a pixel, and fit the slot.
pub proof fn icons_keep_their_share(layout: SlotLayout, side: int)
    requires
        1 <= side < 0x1_0000,
    ensures
        1 <= icon_size_of(layout, side) <= side,
        layout == SlotLayout::Home ==> -54 <= 104 * icon_size_of(layout, side) - 93 * side <= 54,
        layout != SlotLayout::Home ==> -54 <= 104 * icon_size_of(layout, side) - 68 * side <= 54,
{
    let parts: int = if layout == SlotLayout::Home {
        15002703
    } else {
        10969718
    };
    small_numbers_are_kept(side);
    rounding_is_close(parts * side);
    if layout == SlotLayout::Home {
        assert(parts * side == 15002703 * side);
    } else {
        assert(parts * side == 10969718 * side);
    }
}

/// The templates that a page needs first are those of its slots, of each of them and of no others:
/// on a canvas of the size of the slot, for the kind of item that is looked for.
pub proof fn pages_need_the_keys_of_their_slots(
    slots: Seq<Slot>,
    layout: SlotLayout,
    count: int,
    key: ProfileKey,
)
    requires
        0 <= count <= slots.len(),
    ensures
        nominal_keys(slots, layout, count).contains(key) ==> exists|index: int|
            0 <= index < count && searched_kind((#[trigger] slots[index]).kind, layout) == Some(
                key.kind,
            ) && slots[index].w == key.canvas_w && slots[index].h == key.canvas_h,
        forall|index: int|
            0 <= index < count && searched_kind((#[trigger] slots[index]).kind, layout) is Some
                ==> nominal_keys(slots, layout, count).contains(nominal_key(slots[index], layout)->0),
    decreases count,
{
    if count > 0 {
        pages_need_the_keys_of_their_slots(slots, layout, count - 1, key);
        let before = nominal_keys(slots, layout, count - 1);
        let all = nominal_keys(slots, layout, count);
        let last = nominal_key(slots[count - 1], layout);
        assert forall|other: ProfileKey| before.contains(other) implies #[trigger] all.contains(
            other,
        ) by {
            let at = choose|at: int| 0 <= at < before.len() && before[at] == other;
            assert(all[at] == other);
        }
        if last is Some && !before.contains(last->0) {
            assert(all[all.len() - 1] == last->0);
        }
        if all.contains(key) && !before.contains(key) {
            let at = choose|at: int| 0 <= at < all.len() && all[at] == key;
            assert(at < before.len() ==> before[at] == key);
            assert(last == Some(key));
            assert(searched_kind(slots[count - 1].kind, layout) == Some(key.kind));
        }
        assert forall|index: int|
            0 <= index < count && searched_kind((#[trigger] slots[index]).kind, layout) is Some implies all.contains(
        nominal_key(slots[index], layout)->0) by {
            if index < count - 1 {
                assert(before.contains(nominal_key(slots[index], layout)->0));
            }
        }
    }
}

/// The best template outranks the others, is alone in that unless a later one is as good, and the
/// second rank is the highest that is left.
pub proof fn the_best_outranks_the_others(
    ranks: Seq<Option<i32>>,
    best: int,
    second: Option<i32>,
    other: int,
)
    requires
        is_best(ranks, best, ranks.len() as int),
        is_second(ranks, best, second, ranks.len() as int),
        0 <= other < ranks.len(),
        other != best,
    ensures
        ranks[other] matches Some(rank) ==> second is Some && rank <= second->0 <= ranks[best]->0,
        ranks[other] matches Some(rank) ==> (rank == ranks[best]->0 ==> best < other && second
            == Some(rank)),
        second is Some ==> second->0 <= ranks[best]->0,
{
    if second is Some {
        let at = choose|at: int|
            0 <= at < ranks.len() && at != best && #[trigger] ranks[at] == Some(second->0);
        assert(ranks[at] == second);
    }
    assert(ranks[other] == ranks[other]);
}

/// A pixel is compared where it counts and at least one template has an alpha of 65 or more. The
/// pixels stand row by row.
pub proof fn opaque_pixels_are_compared(
    alphas: Seq<Vec<u8>>,
    interior: Seq<bool>,
    width: int,
    count: int,
    x: int,
    y: int,
)
    requires
        0 <= x < width <= u32::MAX,
        0 <= y <= u32::MAX,
        0 <= count <= interior.len(),
        interior.len() <= u32::MAX,
        y * width + x < count,
    ensures
        mask_of(alphas, interior, width, count).contains(MaskPoint { x: x as u32, y: y as u32 }) <==> {
            &&& interior[y * width + x]
            &&& exists|template: int|
                0 <= template < alphas.len() && (#[trigger] alphas[template])@[y * width + x] >= 65
        },
        mask_of(alphas, interior, width, count).len() <= count,
    decreases count,
{
    let at = y * width + x;
    place_is_unique(x, y, width);
    mask_points_stand_in_rows(alphas, interior, width, count, at);
    assert(is_masked(alphas, interior, at) <==> interior[at] && exists|template: int|
        0 <= template < alphas.len() && (#[trigger] alphas[template])@[at] >= 65) by {
        if is_masked(alphas, interior, at) {
            let template = choose|template: int|
                0 <= template < alphas.len() && (#[trigger] alphas[template])@[at] > 64;
            assert(alphas[template]@[at] >= 65);
        }
        if exists|template: int|
            0 <= template < alphas.len() && (#[trigger] alphas[template])@[at] >= 65 {
            let template = choose|template: int|
                0 <= template < alphas.len() && (#[trigger] alphas[template])@[at] >= 65;
            assert(alphas[template]@[at] > 64);
        }
    }
}

proof fn place_is_unique(x: int, y: int, width: int)
    requires
        0 <= x < width,
        0 <= y,
    ensures
        0 <= y * width + x,
        (y * width + x) % width == x,
        (y * width + x) / width == y,
{
    vstd::arithmetic::div_mod::lemma_fundamental_div_mod_converse(y * width + x, width, y, x);
    assert(0 <= y * width) by (nonlinear_arith)
        requires
            0 <= y,
            0 < width,
    ;
}

proof fn mask_points_stand_in_rows(
    alphas: Seq<Vec<u8>>,
    interior: Seq<bool>,
    width: int,
    count: int,
    at: int,
)
    requires
        0 < width <= u32::MAX,
        0 <= count <= u32::MAX,
        0 <= at <= u32::MAX,
    ensures
        mask_of(alphas, interior, width, count).contains(
            MaskPoint { x: (at % width) as u32, y: (at / width) as u32 },
        ) <==> at < count && is_masked(alphas, interior, at),
        mask_of(alphas, interior, width, count).len() <= count,
    decreases count,
{
    if count > 0 {
        let last = count - 1;
        mask_points_stand_in_rows(alphas, interior, width, last, at);
        let before = mask_of(alphas, interior, width, last);
        let all = mask_of(alphas, interior, width, count);
        let point = MaskPoint { x: (at % width) as u32, y: (at / width) as u32 };
        let end = MaskPoint { x: (last % width) as u32, y: (last / width) as u32 };
        vstd::arithmetic::div_mod::lemma_fundamental_div_mod(at, width);
        vstd::arithmetic::div_mod::lemma_fundamental_div_mod(last, width);
        assert(0 <= at % width < width && 0 <= last % width < width && 0 <= at / width <= at && 0
            <= last / width <= last) by (nonlinear_arith)
            requires
                0 < width,
                0 <= at,
                0 <= last,
        ;
        assert(point == end ==> at == last);
        if before.contains(point) {
            let place = choose|place: int| 0 <= place < before.len() && before[place] == point;
            assert(all[place] == point);
        }
        if all.contains(point) && !before.contains(point) {
            let place = choose|place: int| 0 <= place < all.len() && all[place] == point;
            assert(place < before.len() ==> before[place] == point);
            assert(point == end);
        }
        if at == last && is_masked(alphas, interior, last) {
            assert(all[all.len() - 1] == point);
        }
    }
}

/// The brightness of a slot stands row by row, that of each pixel at its place.
pub proof fn slot_pixels_keep_their_place(
    image: Frame,
    region: ImageRect,
    count: int,
    x: int,
    y: int,
)
    requires
        0 <= x < region.w,
        0 <= y,
        y * region.w + x < count,
    ensures
        region_luma(image, region, count).len() == count,
        ({
            let pixel = image.pixel(region.x + x, region.y + y);
            region_luma(image, region, count)[y * region.w + x] == luma(
                pixel.r as int,
                pixel.g as int,
                pixel.b as int,
            ) as u8
        }),
    decreases count,
{
    place_is_unique(x, y, region.w as int);
    if y * region.w + x < count - 1 {
        slot_pixels_keep_their_place(image, region, count - 1, x, y);
    } else {
        region_luma_length(image, region, count - 1);
    }
}

proof fn region_luma_length(image: Frame, region: ImageRect, count: int)
    requires
        0 <= count,
    ensures
        region_luma(image, region, count).len() == count,
    decreases count,
{
    if count > 0 {
        region_luma_length(image, region, count - 1);
    }
}

} // verus!
