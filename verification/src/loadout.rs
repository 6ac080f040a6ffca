//! Reading the state of the loadout screen from an observation.
use vstd::prelude::*;

use crate::fingerprint::{
    distance_is_symmetric, distance_of, distance_zero_means_equal, fingerprint_distance,
};
use crate::item::ItemKind;
use crate::slot::{SlotKind, SlotLayout};
use crate::vision::{
    crop_keeps_pixels, cropped, inside, nearest_pixel, Frame, ImageRect, RoiObservation, Slot,
};

verus! {

#[derive(Clone, Copy, Debug, PartialEq, Eq, Structural)]
pub enum UiState {
    HomeEmpty,
    HomeMixed,
    HomeFilled,
    List(ItemKind),
    Unknown,
}

impl UiState {
    /// The name used in messages.
    pub open spec fn spec_label(self) -> &'static str {
        match self {
            UiState::HomeEmpty => "home_empty",
            UiState::HomeMixed => "home_mixed",
            UiState::HomeFilled => "home_filled",
            UiState::List(kind) => SlotLayout::List(kind).spec_label(),
            UiState::Unknown => "unknown",
        }
    }

    pub fn label(self) -> (name: &'static str)
        ensures
            name@ == self.spec_label()@,
    {
        match self {
            UiState::HomeEmpty => "home_empty",
            UiState::HomeMixed => "home_mixed",
            UiState::HomeFilled => "home_filled",
            UiState::List(kind) => SlotLayout::List(kind).label(),
            UiState::Unknown => "unknown",
        }
    }
}

/// Whether a slot belongs into cell `col` of the home row: cells zero to three hold stratagems,
/// cell four the booster.
pub open spec fn fills_cell(slot: Slot, col: int) -> bool {
    &&& slot.row == 0
    &&& slot.col == col
    &&& if col < 4 {
        slot.kind == SlotKind::Stratagem || slot.kind == SlotKind::StratagemEmpty
    } else {
        slot.kind.home_booster()
    }
}

/// `index` is the last slot that belongs into cell `col` of the home row.
pub open spec fn is_cell(slots: Seq<Slot>, col: int, index: int) -> bool {
    &&& 0 <= index < slots.len()
    &&& fills_cell(slots[index], col)
    &&& forall|later: int| index < later < slots.len() ==> !fills_cell(#[trigger] slots[later], col)
}

/// The slot that fills cell `col` of the home row.
pub open spec fn cell(slots: Seq<Slot>, col: int) -> Option<Slot> {
    if exists|index: int| is_cell(slots, col, index) {
        Some(slots[choose|index: int| is_cell(slots, col, index)])
    } else {
        None
    }
}

/// All five cells of the home row are filled.
pub open spec fn has_home_row(slots: Seq<Slot>) -> bool {
    &&& cell(slots, 0) is Some
    &&& cell(slots, 1) is Some
    &&& cell(slots, 2) is Some
    &&& cell(slots, 3) is Some
    &&& cell(slots, 4) is Some
}

pub open spec fn holds_stratagem(slots: Seq<Slot>, col: int) -> bool {
    cell(slots, col)->0.kind == SlotKind::Stratagem
}

/// The state that an observation shows.
pub open spec fn ui_state_of(layout: SlotLayout, slots: Seq<Slot>) -> UiState {
    match layout {
        SlotLayout::Home => if !has_home_row(slots) {
            UiState::Unknown
        } else if forall|col: int| 0 <= col < 4 ==> !#[trigger] holds_stratagem(slots, col) {
            UiState::HomeEmpty
        } else if forall|col: int| 0 <= col < 4 ==> #[trigger] holds_stratagem(slots, col) {
            UiState::HomeFilled
        } else {
            UiState::HomeMixed
        },
        SlotLayout::List(item_kind) => if shows_list(slots, item_kind) {
            UiState::List(item_kind)
        } else {
            UiState::Unknown
        },
    }
}

/// A stratagem list shows selectable slots in two rows, a booster list shows one at all.
pub open spec fn shows_list(slots: Seq<Slot>, item_kind: ItemKind) -> bool {
    match item_kind {
        ItemKind::Stratagem => exists|left: int, right: int|
            0 <= left < right < slots.len() && (#[trigger] slots[left]).kind.selectable_for(
                item_kind,
            ) && (#[trigger] slots[right]).kind.selectable_for(item_kind) && slots[left].row
                != slots[right].row,
        ItemKind::Booster => exists|index: int|
            0 <= index < slots.len() && (#[trigger] slots[index]).kind.selectable_for(item_kind),
    }
}

/// Places of the five slots of the home row in the list of slots.
#[derive(Clone, Copy, Debug, PartialEq, Eq, Structural)]
pub struct HomeRow {
    pub first: usize,
    pub second: usize,
    pub third: usize,
    pub fourth: usize,
    pub booster: usize,
}

impl HomeRow {
    /// The places name the cells of the home row.
    pub open spec fn names_cells(self, slots: Seq<Slot>) -> bool {
        &&& self.first < slots.len() && cell(slots, 0) == Some(slots[self.first as int])
        &&& self.second < slots.len() && cell(slots, 1) == Some(slots[self.second as int])
        &&& self.third < slots.len() && cell(slots, 2) == Some(slots[self.third as int])
        &&& self.fourth < slots.len() && cell(slots, 3) == Some(slots[self.fourth as int])
        &&& self.booster < slots.len() && cell(slots, 4) == Some(slots[self.booster as int])
    }
}

fn find_cell(slots: &Vec<Slot>, col: u32) -> (found: Option<usize>)
    requires
        col <= 4,
    ensures
        match found {
            Some(index) => index < slots@.len() && cell(slots@, col as int) == Some(
                slots@[index as int],
            ) && fills_cell(slots@[index as int], col as int),
            None => cell(slots@, col as int) is None,
        },
{
    let mut index: usize = slots.len();
    while index > 0
        invariant
            index <= slots@.len(),
            col <= 4,
            forall|later: int|
                index <= later < slots@.len() ==> !fills_cell(#[trigger] slots@[later], col as int),
        decreases index,
    {
        index = index - 1;
        let slot = &slots[index];
        let fitting = if col < 4 {
            slot.kind == SlotKind::Stratagem || slot.kind == SlotKind::StratagemEmpty
        } else {
            slot.kind.is_home_booster()
        };
        if slot.row == 0 && slot.col == col && fitting {
            proof {
                assert(is_cell(slots@, col as int, index as int));
                let other = choose|i: int| is_cell(slots@, col as int, i);
                assert(fills_cell(slots@[other], col as int));
                assert(other == index);
            }
            return Some(index);
        }
    }
    proof {
        if exists|i: int| is_cell(slots@, col as int, i) {
            let i = choose|i: int| is_cell(slots@, col as int, i);
            assert(fills_cell(slots@[i], col as int));
        }
    }
    None
}

/// The home row, if all its cells are filled.
pub fn find_home_row(result: &RoiObservation) -> (row: Option<HomeRow>)
    ensures
        row is Some <==> has_home_row(result.slots@),
        row matches Some(found) ==> found.names_cells(result.slots@),
{
    let first: usize = match find_cell(&result.slots, 0) {
        Some(index) => index,
        None => return None,
    };
    let second: usize = match find_cell(&result.slots, 1) {
        Some(index) => index,
        None => return None,
    };
    let third: usize = match find_cell(&result.slots, 2) {
        Some(index) => index,
        None => return None,
    };
    let fourth: usize = match find_cell(&result.slots, 3) {
        Some(index) => index,
        None => return None,
    };
    let booster: usize = match find_cell(&result.slots, 4) {
        Some(index) => index,
        None => return None,
    };
    Some(HomeRow { first, second, third, fourth, booster })
}

fn is_slot_list(result: &RoiObservation, item_kind: ItemKind) -> (list: bool)
    ensures
        list == shows_list(result.slots@, item_kind),
{
    let ghost slots = result.slots@;
    let mut first: Option<usize> = None;
    let mut index: usize = 0;
    while index < result.slots.len()
        invariant
            index <= slots.len(),
            slots == result.slots@,
            match first {
                Some(found) => {
                    &&& found < index
                    &&& item_kind == ItemKind::Stratagem
                    &&& slots[found as int].kind.selectable_for(item_kind)
                    &&& forall|other: int|
                        0 <= other < index && (#[trigger] slots[other]).kind.selectable_for(
                            item_kind,
                        ) ==> slots[other].row == slots[found as int].row
                },
                None => forall|other: int|
                    0 <= other < index ==> !(#[trigger] slots[other]).kind.selectable_for(
                        item_kind,
                    ),
            },
        decreases slots.len() - index,
    {
        if result.slots[index].kind.is_selectable_item_for(item_kind) {
            match first {
                Some(found) => {
                    if result.slots[index].row != result.slots[found].row {
                        assert(slots[found as int].row != slots[index as int].row);
                        return true;
                    }
                },
                None => {
                    if item_kind == ItemKind::Booster {
                        return true;
                    }
                    first = Some(index);
                },
            }
        }
        index = index + 1;
    }
    false
}

/// The state that an observation shows.
pub fn detect_ui_state(result: &RoiObservation) -> (state: UiState)
    ensures
        state == ui_state_of(result.layout, result.slots@),
{
    let ghost slots = result.slots@;
    match result.layout {
        SlotLayout::Home => {
            let row = match find_home_row(result) {
                Some(row) => row,
                None => return UiState::Unknown,
            };
            let a = result.slots[row.first].kind == SlotKind::Stratagem;
            let b = result.slots[row.second].kind == SlotKind::Stratagem;
            let c = result.slots[row.third].kind == SlotKind::Stratagem;
            let d = result.slots[row.fourth].kind == SlotKind::Stratagem;
            proof {
                assert(a == holds_stratagem(slots, 0));
                assert(b == holds_stratagem(slots, 1));
                assert(c == holds_stratagem(slots, 2));
                assert(d == holds_stratagem(slots, 3));
            }
            if !a && !b && !c && !d {
                assert forall|col: int| 0 <= col < 4 implies !#[trigger] holds_stratagem(
                    slots,
                    col,
                ) by {
                    assert(col == 0 || col == 1 || col == 2 || col == 3);
                }
                UiState::HomeEmpty
            } else if a && b && c && d {
                assert forall|col: int| 0 <= col < 4 implies #[trigger] holds_stratagem(
                    slots,
                    col,
                ) by {
                    assert(col == 0 || col == 1 || col == 2 || col == 3);
                }
                UiState::HomeFilled
            } else {
                UiState::HomeMixed
            }
        },
        SlotLayout::List(item_kind) => if is_slot_list(result, item_kind) {
            UiState::List(item_kind)
        } else {
            UiState::Unknown
        },
    }
}

/// A home screen is never taken for a list, and a list never for a home screen.
pub proof fn states_follow_the_layout(layout: SlotLayout, slots: Seq<Slot>)
    ensures
        layout == SlotLayout::Home ==> !(ui_state_of(layout, slots) is List),
        ui_state_of(layout, slots) matches UiState::List(kind) ==> layout == SlotLayout::List(kind),
        ui_state_of(layout, slots) is HomeEmpty || ui_state_of(layout, slots) is HomeMixed
            || ui_state_of(layout, slots) is HomeFilled ==> layout == SlotLayout::Home
            && has_home_row(slots),
{
}

/// The slot that opens the stratagem list of an empty loadout: the first cell, if no cell holds a
/// stratagem.
pub fn empty_loadout_entry_slot(result: &RoiObservation) -> (entry: Option<&Slot>)
    ensures
        match entry {
            Some(slot) => cell(result.slots@, 0) == Some(*slot) && ui_state_of(
                SlotLayout::Home,
                result.slots@,
            ) == UiState::HomeEmpty,
            None => ui_state_of(SlotLayout::Home, result.slots@) != UiState::HomeEmpty,
        },
{
    let ghost slots = result.slots@;
    let row = match find_home_row(result) {
        Some(row) => row,
        None => return None,
    };
    proof {
        cell_fills(slots, 0);
        cell_fills(slots, 1);
        cell_fills(slots, 2);
        cell_fills(slots, 3);
    }
    let a = result.slots[row.first].kind == SlotKind::StratagemEmpty;
    let b = result.slots[row.second].kind == SlotKind::StratagemEmpty;
    let c = result.slots[row.third].kind == SlotKind::StratagemEmpty;
    let d = result.slots[row.fourth].kind == SlotKind::StratagemEmpty;
    proof {
        assert(a == !holds_stratagem(slots, 0));
        assert(b == !holds_stratagem(slots, 1));
        assert(c == !holds_stratagem(slots, 2));
        assert(d == !holds_stratagem(slots, 3));
    }
    if a && b && c && d {
        assert forall|col: int| 0 <= col < 4 implies !#[trigger] holds_stratagem(slots, col) by {
            assert(col == 0 || col == 1 || col == 2 || col == 3);
        }
        Some(&result.slots[row.first])
    } else {
        None
    }
}

proof fn cell_fills(slots: Seq<Slot>, col: int)
    requires
        cell(slots, col) is Some,
    ensures
        fills_cell(cell(slots, col)->0, col),
{
}

/// The booster slot of the home row.
pub fn home_booster_slot(result: &RoiObservation) -> (booster: Option<&Slot>)
    ensures
        match booster {
            Some(slot) => has_home_row(result.slots@) && cell(result.slots@, 4) == Some(*slot)
                && slot.kind.home_booster(),
            None => !has_home_row(result.slots@),
        },
{
    match find_home_row(result) {
        Some(row) => {
            proof {
                cell_fills(result.slots@, 4);
            }
            Some(&result.slots[row.booster])
        },
        None => None,
    }
}

/// Why the loadout on the screen cannot be captured.
#[derive(Clone, Copy, Debug, PartialEq, Eq, Structural)]
pub enum CollectError {
    /// The observation has no complete home row.
    MissingHomeRow,
    /// The stratagem slot of this cell is empty.
    EmptyStratagem { col: u32 },
    /// The inside of the slot of this cell reaches over the edge of the image.
    OutsideImage { col: u32, core: ImageRect },
}

/// The images of the items of the loadout on the screen.
#[derive(Debug)]
pub struct CapturedPreset {
    pub stratagems: Vec<Frame>,
    pub booster: Option<Frame>,
}

/// Why cell `col` cannot be captured, or nothing.
pub open spec fn stratagem_error(
    slots: Seq<Slot>,
    image: Frame,
    core: ImageRect,
    col: int,
) -> Option<CollectError> {
    if !holds_stratagem(slots, col) {
        Some(CollectError::EmptyStratagem { col: col as u32 })
    } else if !inside(image, core) {
        Some(CollectError::OutsideImage { col: col as u32, core })
    } else {
        None
    }
}

/// The first reason why the stratagems cannot be captured, or nothing.
pub open spec fn stratagems_error(slots: Seq<Slot>, image: Frame, cores: Seq<ImageRect>) -> Option<
    CollectError,
> {
    if !has_home_row(slots) {
        Some(CollectError::MissingHomeRow)
    } else if stratagem_error(slots, image, cores[0], 0) is Some {
        stratagem_error(slots, image, cores[0], 0)
    } else if stratagem_error(slots, image, cores[1], 1) is Some {
        stratagem_error(slots, image, cores[1], 1)
    } else if stratagem_error(slots, image, cores[2], 2) is Some {
        stratagem_error(slots, image, cores[2], 2)
    } else {
        stratagem_error(slots, image, cores[3], 3)
    }
}

/// The first reason why the loadout cannot be captured, or nothing.
pub open spec fn collect_error(slots: Seq<Slot>, image: Frame, cores: Seq<ImageRect>) -> Option<
    CollectError,
> {
    if stratagems_error(slots, image, cores) is Some {
        stratagems_error(slots, image, cores)
    } else if has_booster(slots) && !inside(image, cores[4]) {
        Some(CollectError::OutsideImage { col: 4, core: cores[4] })
    } else {
        None
    }
}

/// `part` is the part of `image` inside `core`.
pub open spec fn is_crop(part: Frame, image: Frame, core: ImageRect) -> bool {
    &&& part.spec_width() == core.w
    &&& part.spec_height() == core.h
    &&& part.samples() == cropped(image, core)
}

fn collect_cell(
    result: &RoiObservation,
    index: usize,
    core: ImageRect,
    col: u32,
) -> (part: Result<Frame, CollectError>)
    requires
        index < result.slots@.len(),
        col < 4,
        cell(result.slots@, col as int) == Some(result.slots@[index as int]),
    ensures
        match part {
            Ok(image) => stratagem_error(result.slots@, result.image, core, col as int) is None
                && is_crop(image, result.image, core),
            Err(error) => stratagem_error(result.slots@, result.image, core, col as int) == Some(
                error,
            ),
        },
{
    if result.slots[index].kind != SlotKind::Stratagem {
        return Err(CollectError::EmptyStratagem { col });
    }
    match result.image.crop(core) {
        Some(image) => Ok(image),
        None => Err(CollectError::OutsideImage { col, core }),
    }
}

/// The images of the four stratagems, in the order of their cells. `cores` holds the inside of
/// each cell's slot.
pub fn collect_home_stratagems(result: &RoiObservation, cores: &Vec<ImageRect>) -> (items: Result<
    Vec<Frame>,
    CollectError,
>)
    requires
        cores@.len() == 5,
    ensures
        match items {
            Ok(images) => {
                &&& stratagems_error(result.slots@, result.image, cores@) is None
                &&& images@.len() == 4
                &&& forall|col: int|
                    0 <= col < 4 ==> is_crop(#[trigger] images@[col], result.image, cores@[col])
            },
            Err(error) => stratagems_error(result.slots@, result.image, cores@) == Some(error),
        },
{
    let row = match find_home_row(result) {
        Some(row) => row,
        None => return Err(CollectError::MissingHomeRow),
    };
    let first = match collect_cell(result, row.first, cores[0], 0) {
        Ok(image) => image,
        Err(error) => return Err(error),
    };
    let second = match collect_cell(result, row.second, cores[1], 1) {
        Ok(image) => image,
        Err(error) => return Err(error),
    };
    let third = match collect_cell(result, row.third, cores[2], 2) {
        Ok(image) => image,
        Err(error) => return Err(error),
    };
    let fourth = match collect_cell(result, row.fourth, cores[3], 3) {
        Ok(image) => image,
        Err(error) => return Err(error),
    };
    let mut items: Vec<Frame> = Vec::new();
    items.push(first);
    items.push(second);
    items.push(third);
    items.push(fourth);
    Ok(items)
}

/// The booster of the home row is there to be captured.
pub open spec fn has_booster(slots: Seq<Slot>) -> bool {
    has_home_row(slots) && cell(slots, 4)->0.kind != SlotKind::HomeBoosterEmpty
}

/// The image of the booster, if the home row has one.
pub fn collect_home_booster(result: &RoiObservation, core: ImageRect) -> (item: Result<
    Option<Frame>,
    CollectError,
>)
    ensures
        match item {
            Ok(Some(image)) => {
                &&& has_booster(result.slots@)
                &&& inside(result.image, core)
                &&& is_crop(image, result.image, core)
            },
            Ok(None) => !has_booster(result.slots@),
            Err(error) => {
                &&& has_booster(result.slots@)
                &&& !inside(result.image, core)
                &&& error == (CollectError::OutsideImage { col: 4, core })
            },
        },
{
    match home_booster_slot(result) {
        Some(slot) => {
            if slot.kind == SlotKind::HomeBoosterEmpty {
                return Ok(None);
            }
            match result.image.crop(core) {
                Some(image) => Ok(Some(image)),
                None => Err(CollectError::OutsideImage { col: 4, core }),
            }
        },
        None => Ok(None),
    }
}

/// The images of the loadout on the screen. `cores` holds the inside of each cell's slot.
pub fn collect_current_preset(result: &RoiObservation, cores: &Vec<ImageRect>) -> (preset: Result<
    CapturedPreset,
    CollectError,
>)
    requires
        cores@.len() == 5,
    ensures
        match preset {
            Ok(captured) => {
                &&& collect_error(result.slots@, result.image, cores@) is None
                &&& captured.stratagems@.len() == 4
                &&& forall|col: int|
                    0 <= col < 4 ==> is_crop(
                        #[trigger] captured.stratagems@[col],
                        result.image,
                        cores@[col],
                    )
                &&& captured.booster is Some <==> has_booster(result.slots@)
                &&& captured.booster matches Some(image) ==> is_crop(
                    image,
                    result.image,
                    cores@[4],
                )
            },
            Err(error) => collect_error(result.slots@, result.image, cores@) == Some(error),
        },
{
    let stratagems = match collect_home_stratagems(result, cores) {
        Ok(stratagems) => stratagems,
        Err(error) => return Err(error),
    };
    let booster = match collect_home_booster(result, cores[4]) {
        Ok(booster) => booster,
        Err(error) => return Err(error),
    };
    Ok(CapturedPreset { stratagems, booster })
}

/// What has to stay the same for a screen to count as still.
#[derive(Debug)]
pub enum UiStabilitySignature {
    /// Fingerprint of the slots of a list.
    Visual(Vec<u8>),
    /// Height of the first slot of the home row, in pixels.
    HomeY(u32),
}

/// Two signatures are close enough: fingerprints at a mean difference of at most three, heights at
/// most four pixels apart.
pub open spec fn signatures_close(
    left: UiStabilitySignature,
    right: UiStabilitySignature,
) -> bool {
    match (left, right) {
        (UiStabilitySignature::Visual(left), UiStabilitySignature::Visual(right)) => distance_of(
            left@,
            right@,
        ).at_most(3),
        (UiStabilitySignature::HomeY(left), UiStabilitySignature::HomeY(right)) => -4 <= left
            - right <= 4,
        _ => false,
    }
}

fn are_close(left: &UiStabilitySignature, right: &UiStabilitySignature) -> (close: bool)
    requires
        left matches UiStabilitySignature::Visual(bytes) ==> bytes@.len() <= 0xff_ffff_ffff_ffff,
    ensures
        close == signatures_close(*left, *right),
{
    match (left, right) {
        (UiStabilitySignature::Visual(left), UiStabilitySignature::Visual(right)) => {
            fingerprint_distance(left, right).is_at_most(3)
        },
        (UiStabilitySignature::HomeY(left), UiStabilitySignature::HomeY(right)) => {
            if *left <= *right {
                *right - *left <= 4
            } else {
                *left - *right <= 4
            }
        },
        _ => false,
    }
}

/// The signature of an observation whose slots have the given fingerprint.
pub open spec fn is_signature(
    signature: UiStabilitySignature,
    layout: SlotLayout,
    slots: Seq<Slot>,
    visual: Seq<u8>,
) -> bool {
    match layout {
        SlotLayout::List(_) => signature matches UiStabilitySignature::Visual(bytes) && bytes@
            == visual,
        SlotLayout::Home => signature matches UiStabilitySignature::HomeY(y) && y == nearest_pixel(
            cell(slots, 0)->0.center_y as int,
        ),
    }
}

/// How a look at the screen ends.
#[derive(Clone, Copy, Debug, PartialEq, Eq, Structural)]
pub enum UiWatchStep {
    /// Look again.
    Continue,
    /// The screen shows the expected state and is still.
    Stable,
    /// The time is over.
    TimedOut,
}

/// Waiting until the screen shows a state and is still.
#[derive(Debug)]
pub struct UiStateWatch {
    target_state: UiState,
    started: u64,
    timeout: u64,
    stable_candidate: Option<UiStabilitySignature>,
}

/// The layout that shows a state; nothing shows an unknown state.
pub open spec fn layout_of(state: UiState) -> Option<SlotLayout> {
    match state {
        UiState::HomeEmpty | UiState::HomeMixed | UiState::HomeFilled => Some(SlotLayout::Home),
        UiState::List(kind) => Some(SlotLayout::List(kind)),
        UiState::Unknown => None,
    }
}

impl UiStateWatch {
    pub closed spec fn target(&self) -> UiState {
        self.target_state
    }

    pub closed spec fn deadline(&self) -> int {
        self.started + self.timeout
    }

    /// Signature of the last look, if it showed the expected state.
    pub closed spec fn candidate(&self) -> Option<UiStabilitySignature> {
        self.stable_candidate
    }

    /// The state can be waited for, and a remembered fingerprint has a length that can be summed.
    pub open spec fn wf(&self) -> bool {
        &&& self.target() != UiState::Unknown
        &&& self.candidate() matches Some(UiStabilitySignature::Visual(bytes)) ==> bytes@.len()
            <= 0xff_ffff_ffff_ffff
    }

    /// Starts to wait, and names the layout to look for. An unknown state cannot be waited for.
    pub fn new(target_state: UiState, now: u64, timeout: u64) -> (watch: Option<(Self, SlotLayout)>)
        ensures
            match watch {
                Some((started, layout)) => {
                    &&& layout_of(target_state) == Some(layout)
                    &&& started.target() == target_state
                    &&& started.deadline() == now + timeout
                    &&& started.candidate() is None
                    &&& started.wf()
                },
                None => target_state == UiState::Unknown,
            },
    {
        let layout = match target_state {
            UiState::HomeEmpty | UiState::HomeMixed | UiState::HomeFilled => SlotLayout::Home,
            UiState::List(kind) => SlotLayout::List(kind),
            UiState::Unknown => return None,
        };
        Some((UiStateWatch { target_state, started: now, timeout, stable_candidate: None }, layout))
    }

    /// Judges one observation. `visual` is the fingerprint of the slots of a list.
    pub fn step(&mut self, result: &RoiObservation, visual: Vec<u8>, now: u64) -> (step: UiWatchStep)
        requires
            old(self).wf(),
            visual@.len() <= 0xff_ffff_ffff_ffff,
        ensures
            final(self).wf(),
            final(self).target() == old(self).target(),
            final(self).deadline() == old(self).deadline(),
            ({
                let shown = ui_state_of(result.layout, result.slots@) == old(self).target();
                match final(self).candidate() {
                    Some(signature) => shown && is_signature(
                        signature,
                        result.layout,
                        result.slots@,
                        visual@,
                    ),
                    None => !shown,
                }
            }),
            ({
                let late = now >= old(self).deadline();
                let still = match (old(self).candidate(), final(self).candidate()) {
                    (Some(before), Some(after)) => signatures_close(before, after),
                    _ => false,
                };
                step == if still {
                    UiWatchStep::Stable
                } else if late {
                    UiWatchStep::TimedOut
                } else {
                    UiWatchStep::Continue
                }
            }),
    {
        let late = now >= self.started && now - self.started >= self.timeout;
        if detect_ui_state(result) != self.target_state {
            self.stable_candidate = None;
            return if late {
                UiWatchStep::TimedOut
            } else {
                UiWatchStep::Continue
            };
        }
        let signature = match result.layout {
            SlotLayout::List(_) => UiStabilitySignature::Visual(visual),
            SlotLayout::Home => match find_home_row(result) {
                Some(row) => UiStabilitySignature::HomeY(result.slots[row.first].center().1),
                None => {
                    self.stable_candidate = None;
                    return if late {
                        UiWatchStep::TimedOut
                    } else {
                        UiWatchStep::Continue
                    };
                },
            },
        };
        let still = match &self.stable_candidate {
            Some(previous) => are_close(previous, &signature),
            None => false,
        };
        self.stable_candidate = Some(signature);
        if still {
            UiWatchStep::Stable
        } else if late {
            UiWatchStep::TimedOut
        } else {
            UiWatchStep::Continue
        }
    }
}

/// A list is recognized by its slots: a booster list by one booster that can be picked, a stratagem
/// list by stratagems in two different rows. Nothing else makes a list.
pub proof fn open_lists_are_recognized(slots: Seq<Slot>)
    ensures
        ui_state_of(SlotLayout::List(ItemKind::Booster), slots) == UiState::List(ItemKind::Booster)
            <==> exists|index: int|
            0 <= index < slots.len() && (#[trigger] slots[index]).kind == SlotKind::Booster,
        ui_state_of(SlotLayout::List(ItemKind::Stratagem), slots) == UiState::List(
            ItemKind::Stratagem,
        ) <==> exists|left: int, right: int|
            0 <= left < slots.len() && 0 <= right < slots.len() && (#[trigger] slots[left]).kind
                == SlotKind::Stratagem && (#[trigger] slots[right]).kind == SlotKind::Stratagem
                && slots[left].row < slots[right].row,
        forall|item_kind: ItemKind|
            #[trigger] ui_state_of(SlotLayout::List(item_kind), slots) == UiState::List(item_kind)
                || ui_state_of(SlotLayout::List(item_kind), slots) == UiState::Unknown,
{
    let booster = ui_state_of(SlotLayout::List(ItemKind::Booster), slots);
    if exists|index: int|
        0 <= index < slots.len() && (#[trigger] slots[index]).kind == SlotKind::Booster {
        let index = choose|index: int|
            0 <= index < slots.len() && (#[trigger] slots[index]).kind == SlotKind::Booster;
        assert(slots[index].kind.selectable_for(ItemKind::Booster));
    }
    if booster == UiState::List(ItemKind::Booster) {
        let index = choose|index: int|
            0 <= index < slots.len() && (#[trigger] slots[index]).kind.selectable_for(
                ItemKind::Booster,
            );
        assert(slots[index].kind == SlotKind::Booster);
    }
    if ui_state_of(SlotLayout::List(ItemKind::Stratagem), slots) == UiState::List(
        ItemKind::Stratagem,
    ) {
        let (left, right) = choose|left: int, right: int|
            0 <= left < right < slots.len() && (#[trigger] slots[left]).kind.selectable_for(
                ItemKind::Stratagem,
            ) && (#[trigger] slots[right]).kind.selectable_for(ItemKind::Stratagem)
                && slots[left].row != slots[right].row;
        if slots[left].row < slots[right].row {
            assert(slots[left].kind == SlotKind::Stratagem && slots[right].kind
                == SlotKind::Stratagem);
        } else {
            assert(slots[right].kind == SlotKind::Stratagem && slots[left].kind
                == SlotKind::Stratagem);
        }
    }
    if exists|left: int, right: int|
        0 <= left < slots.len() && 0 <= right < slots.len() && (#[trigger] slots[left]).kind
            == SlotKind::Stratagem && (#[trigger] slots[right]).kind == SlotKind::Stratagem
            && slots[left].row < slots[right].row {
        let (left, right) = choose|left: int, right: int|
            0 <= left < slots.len() && 0 <= right < slots.len() && (#[trigger] slots[left]).kind
                == SlotKind::Stratagem && (#[trigger] slots[right]).kind == SlotKind::Stratagem
                && slots[left].row < slots[right].row;
        assert(slots[left].kind.selectable_for(ItemKind::Stratagem));
        assert(slots[right].kind.selectable_for(ItemKind::Stratagem));
    }
}

/// The last slot of the top row in this column with one of two kinds is the one at `index`.
pub open spec fn stands_last(
    slots: Seq<Slot>,
    col: int,
    one: SlotKind,
    other: SlotKind,
    index: int,
) -> bool {
    &&& 0 <= index < slots.len()
    &&& slots[index].row == 0 && slots[index].col == col
    &&& slots[index].kind == one || slots[index].kind == other
    &&& forall|later: int|
        index < later < slots.len() && (#[trigger] slots[later]).row == 0 && slots[later].col == col
            ==> slots[later].kind != one && slots[later].kind != other
}

/// The top row shows a stratagem slot, filled or empty, in this column.
pub open spec fn shows_stratagem_slot(slots: Seq<Slot>, col: int) -> bool {
    exists|index: int| #[trigger]
        stands_last(slots, col, SlotKind::Stratagem, SlotKind::StratagemEmpty, index)
}

/// The stratagem slot of the top row in this column is filled.
pub open spec fn shows_stratagem(slots: Seq<Slot>, col: int) -> bool {
    exists|index: int| #[trigger]
        stands_last(slots, col, SlotKind::Stratagem, SlotKind::StratagemEmpty, index)
            && slots[index].kind == SlotKind::Stratagem
}

/// The top row shows a booster slot, filled or empty, right of the stratagem slots.
pub open spec fn shows_booster_slot(slots: Seq<Slot>) -> bool {
    exists|index: int| #[trigger]
        stands_last(slots, 4, SlotKind::HomeBooster, SlotKind::HomeBoosterEmpty, index)
}

/// The booster slot of the top row is filled.
pub open spec fn shows_booster(slots: Seq<Slot>) -> bool {
    exists|index: int| #[trigger]
        stands_last(slots, 4, SlotKind::HomeBooster, SlotKind::HomeBoosterEmpty, index)
            && slots[index].kind == SlotKind::HomeBooster
}

/// The top row has all the slots of the home.
pub open spec fn shows_home(slots: Seq<Slot>) -> bool {
    &&& shows_stratagem_slot(slots, 0)
    &&& shows_stratagem_slot(slots, 1)
    &&& shows_stratagem_slot(slots, 2)
    &&& shows_stratagem_slot(slots, 3)
    &&& shows_booster_slot(slots)
}

proof fn stratagem_cells(slots: Seq<Slot>, col: int)
    requires
        0 <= col < 4,
    ensures
        cell(slots, col) is Some <==> shows_stratagem_slot(slots, col),
        cell(slots, col) is Some ==> (holds_stratagem(slots, col) <==> shows_stratagem(slots, col)),
{
    let one = SlotKind::Stratagem;
    let other = SlotKind::StratagemEmpty;
    assert forall|index: int| #[trigger] is_cell(slots, col, index) <==> stands_last(
        slots,
        col,
        one,
        other,
        index,
    ) by {
        if is_cell(slots, col, index) {
            assert forall|later: int|
                index < later < slots.len() && (#[trigger] slots[later]).row == 0
                    && slots[later].col == col implies slots[later].kind != one
                && slots[later].kind != other by {
                assert(!fills_cell(slots[later], col));
            }
        }
    }
    assert forall|left: int, right: int|
        #![trigger stands_last(slots, col, one, other, left), stands_last(slots, col, one, other, right)]
        stands_last(slots, col, one, other, left) && stands_last(slots, col, one, other, right)
            implies left == right by {
        if left < right {
            assert(slots[right].row == 0);
        } else if right < left {
            assert(slots[left].row == 0);
        }
    }
    if exists|index: int| #[trigger] stands_last(slots, col, one, other, index) {
        let index = choose|index: int| #[trigger] stands_last(slots, col, one, other, index);
        assert(is_cell(slots, col, index));
    }
    if cell(slots, col) is Some {
        let index = choose|index: int| is_cell(slots, col, index);
        assert(stands_last(slots, col, one, other, index));
    }
}

proof fn booster_cell(slots: Seq<Slot>)
    ensures
        cell(slots, 4) is Some <==> shows_booster_slot(slots),
        cell(slots, 4) is Some ==> (cell(slots, 4)->0.kind == SlotKind::HomeBooster
            <==> shows_booster(slots)),
        cell(slots, 4) is Some ==> cell(slots, 4)->0.kind == SlotKind::HomeBooster || cell(
            slots,
            4,
        )->0.kind == SlotKind::HomeBoosterEmpty,
{
    let one = SlotKind::HomeBooster;
    let other = SlotKind::HomeBoosterEmpty;
    assert forall|index: int| #[trigger] is_cell(slots, 4, index) <==> stands_last(
        slots,
        4,
        one,
        other,
        index,
    ) by {
        if is_cell(slots, 4, index) {
            assert forall|later: int|
                index < later < slots.len() && (#[trigger] slots[later]).row == 0
                    && slots[later].col == 4 implies slots[later].kind != one && slots[later].kind
                != other by {
                assert(!fills_cell(slots[later], 4));
            }
        }
    }
    assert forall|left: int, right: int|
        #![trigger stands_last(slots, 4, one, other, left), stands_last(slots, 4, one, other, right)]
        stands_last(slots, 4, one, other, left) && stands_last(slots, 4, one, other, right) implies left
        == right by {
        if left < right {
            assert(slots[right].row == 0);
        } else if right < left {
            assert(slots[left].row == 0);
        }
    }
    if exists|index: int| #[trigger] stands_last(slots, 4, one, other, index) {
        let index = choose|index: int| #[trigger] stands_last(slots, 4, one, other, index);
        assert(is_cell(slots, 4, index));
    }
    if cell(slots, 4) is Some {
        let index = choose|index: int| is_cell(slots, 4, index);
        assert(stands_last(slots, 4, one, other, index));
    }
}

/// A home is filled where all its four stratagem slots are, empty where none is, and mixed
/// otherwise; without all its five slots it is no home.
pub proof fn homes_are_told_by_their_stratagems(slots: Seq<Slot>)
    ensures
        ({
            let state = ui_state_of(SlotLayout::Home, slots);
            let all = shows_stratagem(slots, 0) && shows_stratagem(slots, 1) && shows_stratagem(
                slots,
                2,
            ) && shows_stratagem(slots, 3);
            let some = shows_stratagem(slots, 0) || shows_stratagem(slots, 1) || shows_stratagem(
                slots,
                2,
            ) || shows_stratagem(slots, 3);
            &&& state == UiState::Unknown <==> !shows_home(slots)
            &&& state == UiState::HomeFilled <==> shows_home(slots) && all
            &&& state == UiState::HomeEmpty <==> shows_home(slots) && !some
            &&& state == UiState::HomeMixed <==> shows_home(slots) && some && !all
        }),
        has_booster(slots) <==> shows_home(slots) && shows_booster(slots),
{
    stratagem_cells(slots, 0);
    stratagem_cells(slots, 1);
    stratagem_cells(slots, 2);
    stratagem_cells(slots, 3);
    booster_cell(slots);
    if forall|col: int| 0 <= col < 4 ==> #[trigger] holds_stratagem(slots, col) {
        assert(holds_stratagem(slots, 0) && holds_stratagem(slots, 1) && holds_stratagem(slots, 2)
            && holds_stratagem(slots, 3));
    }
    if forall|col: int| 0 <= col < 4 ==> !#[trigger] holds_stratagem(slots, col) {
        assert(!holds_stratagem(slots, 0) && !holds_stratagem(slots, 1) && !holds_stratagem(
            slots,
            2,
        ) && !holds_stratagem(slots, 3));
    }
    if has_home_row(slots) && holds_stratagem(slots, 0) && holds_stratagem(slots, 1)
        && holds_stratagem(slots, 2) && holds_stratagem(slots, 3) {
        assert forall|col: int| 0 <= col < 4 implies #[trigger] holds_stratagem(slots, col) by {
            assert(col == 0 || col == 1 || col == 2 || col == 3);
        }
    }
    if !holds_stratagem(slots, 0) && !holds_stratagem(slots, 1) && !holds_stratagem(slots, 2)
        && !holds_stratagem(slots, 3) {
        assert forall|col: int| 0 <= col < 4 implies !#[trigger] holds_stratagem(slots, col) by {
            assert(col == 0 || col == 1 || col == 2 || col == 3);
        }
    }
}

/// The inside of a slot lies in the image.
pub open spec fn lies_in(core: ImageRect, image: Frame) -> bool {
    core.x + core.w <= image.spec_width() && core.y + core.h <= image.spec_height()
}

/// A loadout can be captured where the home is there, all its stratagems are, and the insides of
/// the slots to capture lie in the image. Otherwise the first slot from the left that cannot be
/// captured is named.
pub proof fn the_first_obstacle_is_named(slots: Seq<Slot>, image: Frame, cores: Seq<ImageRect>)
    requires
        cores.len() == 5,
    ensures
        ({
            let error = collect_error(slots, image, cores);
            let fine = |col: int| shows_stratagem(slots, col) && lies_in(cores[col], image);
            &&& error is None <==> shows_home(slots) && fine(0) && fine(1) && fine(2) && fine(3) && (
            shows_booster(slots) ==> lies_in(cores[4], image))
            &&& error == Some(CollectError::MissingHomeRow) <==> !shows_home(slots)
            &&& error matches Some(CollectError::EmptyStratagem { col }) ==> {
                &&& col < 4
                &&& !shows_stratagem(slots, col as int)
                &&& forall|earlier: int| 0 <= earlier < col ==> #[trigger] fine(earlier)
            }
            &&& error matches Some(CollectError::OutsideImage { col, core }) ==> {
                &&& col <= 4
                &&& core == cores[col as int]
                &&& !lies_in(core, image)
                &&& if col < 4 {
                    shows_stratagem(slots, col as int)
                } else {
                    shows_booster(slots)
                }
                &&& forall|earlier: int| 0 <= earlier < col ==> #[trigger] fine(earlier)
            }
        }),
{
    homes_are_told_by_their_stratagems(slots);
    stratagem_cells(slots, 0);
    stratagem_cells(slots, 1);
    stratagem_cells(slots, 2);
    stratagem_cells(slots, 3);
    booster_cell(slots);
    let fine = |col: int| shows_stratagem(slots, col) && lies_in(cores[col], image);
    assert(fine(0) == (shows_stratagem(slots, 0) && lies_in(cores[0], image)));
}

/// A captured part has the size of its region, and each of its pixels is the one of the image at the
/// same place of the region.
pub proof fn captured_parts_show_their_region(
    part: Frame,
    image: Frame,
    core: ImageRect,
    x: int,
    y: int,
)
    requires
        is_crop(part, image, core),
        lies_in(core, image),
        0 <= x < core.w,
        0 <= y < core.h,
    ensures
        part.spec_width() == core.w,
        part.spec_height() == core.h,
        part.pixel(x, y) == image.pixel(core.x + x, core.y + y),
{
    crop_keeps_pixels(image, core, x, y);
}

/// A screen is close to itself, closeness does not depend on the order, a list is never close to a
/// home, and homes are close just where they lie at most four pixels apart.
pub proof fn closeness_is_mutual(left: UiStabilitySignature, right: UiStabilitySignature)
    ensures
        signatures_close(left, right) == signatures_close(right, left),
        left is HomeY != right is HomeY ==> !signatures_close(left, right),
        left matches UiStabilitySignature::HomeY(upper) ==> right matches UiStabilitySignature::HomeY(
            lower,
        ) ==> upper <= lower ==> (signatures_close(left, right) <==> lower <= upper + 4),
        left matches UiStabilitySignature::Visual(bytes) ==> 0 < bytes@.len() <= 0xff_ffff_ffff_ffff
            ==> signatures_close(left, left),
{
    match (left, right) {
        (UiStabilitySignature::Visual(first), UiStabilitySignature::Visual(second)) => {
            distance_is_symmetric(first@, second@);
        },
        _ => {},
    }
    if let UiStabilitySignature::Visual(bytes) = left {
        if 0 < bytes@.len() <= 0xff_ffff_ffff_ffff {
            distance_zero_means_equal(bytes@, bytes@);
        }
    }
}

/// A state is waited for on the layout on which it can be seen.
pub proof fn states_are_awaited_on_their_layout(layout: SlotLayout, slots: Seq<Slot>)
    ensures
        ui_state_of(layout, slots) != UiState::Unknown ==> layout_of(ui_state_of(layout, slots))
            == Some(layout),
        layout_of(UiState::Unknown) is None,
        layout_of(UiState::HomeMixed) == Some(SlotLayout::Home),
{
}

/// Two states never share a name.
pub proof fn states_are_told_apart(left: UiState, right: UiState)
    ensures
        left.spec_label()@ == right.spec_label()@ ==> left == right,
        left matches UiState::List(kind) ==> left.spec_label()@ == SlotLayout::List(
            kind,
        ).spec_label()@,
{
    reveal_strlit("home_empty");
    reveal_strlit("home_mixed");
    reveal_strlit("home_filled");
    reveal_strlit("unknown");
    reveal_strlit("stratagem_list");
    reveal_strlit("booster_list");
    assert("home_empty"@[5] == 'e' && "home_mixed"@[5] == 'm');
    assert("home_empty"@.len() == 10 && "home_filled"@.len() == 11 && "unknown"@.len() == 7
        && "home_mixed"@.len() == 10 && "stratagem_list"@.len() == 14 && "booster_list"@.len()
        == 12);
}

/// The places of the home row are those of its cells: four stratagem slots from left to right, and
/// behind them the slot of the booster, all in the first row.
pub proof fn home_rows_name_their_cells(row: HomeRow, slots: Seq<Slot>)
    requires
        row.names_cells(slots),
    ensures
        ({
            let places = seq![row.first, row.second, row.third, row.fourth, row.booster];
            forall|col: int|
                0 <= col < 5 ==> #[trigger] places[col] < slots.len() && slots[places[col] as int].row
                    == 0 && slots[places[col] as int].col == col && (if col < 4 {
                    slots[places[col] as int].kind == SlotKind::Stratagem
                        || slots[places[col] as int].kind == SlotKind::StratagemEmpty
                } else {
                    slots[places[col] as int].kind == SlotKind::HomeBooster
                        || slots[places[col] as int].kind == SlotKind::HomeBoosterEmpty
                })
        }),
{
    let places = seq![row.first, row.second, row.third, row.fourth, row.booster];
    assert forall|col: int| 0 <= col < 5 implies #[trigger] places[col] < slots.len()
        && fills_cell(slots[places[col] as int], col) by {
        assert(cell(slots, col) == Some(slots[places[col] as int]));
        let index = choose|index: int| is_cell(slots, col, index);
        assert(is_cell(slots, col, index));
    }
}

} // verus!
