//! Opening a list from the loadout home.
use vstd::prelude::*;
use vstd::string::*;

use crate::item::ItemKind;
use crate::loadout::{
    cell, empty_loadout_entry_slot, has_home_row, home_booster_slot, ui_state_of, UiState,
};
use crate::slot::SlotLayout;
use crate::text::{decimal, push_decimal, text_of};
use crate::vision::{aimed_pixels_are_near, RoiObservation, Slot};

verus! {

/// Milliseconds to wait for a list to open.
pub const LIST_OPEN_TIMEOUT: u64 = 1500;

/// Milliseconds to wait for the loadout home to come to rest.
pub const HOME_LAYOUT_TIMEOUT: u64 = 1500;

/// Stratagems of a preset.
pub const STRATAGEM_COUNT: usize = 4;

/// The slot whose click opens a list.
#[derive(Clone, Copy, Debug)]
pub struct HomeOpenTarget {
    pub item_kind: ItemKind,
    pub point: (u32, u32),
}

impl HomeOpenTarget {
    /// The target is the middle of `slot` and opens the list of `item_kind`.
    pub open spec fn opens(self, item_kind: ItemKind, slot: Slot) -> bool {
        &&& self.item_kind == item_kind
        &&& self.point.0 == slot.spec_center().0
        &&& self.point.1 == slot.spec_center().1
    }

    /// The state to wait for after the click.
    pub fn opened_state(&self) -> (state: UiState)
        ensures
            state == UiState::List(self.item_kind),
    {
        UiState::List(self.item_kind)
    }
}

/// Why a preset cannot be applied from the loadout home.
#[derive(Clone, Copy, Debug, PartialEq, Eq, Structural)]
pub enum ApplyError {
    /// A preset is applied with exactly four stratagems.
    StratagemCount { given: usize },
    /// The screen does not show an empty loadout.
    NotEmptyHome,
    /// A booster is applied alone.
    BoosterCount { given: usize },
    /// The loadout home shows no booster slot.
    NoBoosterSlot,
}

impl ApplyError {
    pub open spec fn spec_message(&self) -> Seq<char> {
        match self {
            ApplyError::StratagemCount { given } =>
                "empty loadout preset application requires exactly 4 stratagems, got "@ + decimal(
                *given as nat,
            ),
            ApplyError::NotEmptyHome => "current screen is not an empty loadout home layout"@,
            ApplyError::BoosterCount { given } =>
                "booster preset application requires exactly 1 booster, got "@ + decimal(
                *given as nat,
            ),
            ApplyError::NoBoosterSlot => "stable home layout did not contain a booster slot"@,
        }
    }

    pub fn message(&self) -> (message: String)
        ensures
            message@ == self.spec_message(),
    {
        match self {
            ApplyError::StratagemCount { given } => {
                let mut message = text_of(
                    "empty loadout preset application requires exactly 4 stratagems, got ",
                );
                push_decimal(&mut message, *given as u64);
                message
            },
            ApplyError::NotEmptyHome => text_of(
                "current screen is not an empty loadout home layout",
            ),
            ApplyError::BoosterCount { given } => {
                let mut message = text_of(
                    "booster preset application requires exactly 1 booster, got ",
                );
                push_decimal(&mut message, *given as u64);
                message
            },
            ApplyError::NoBoosterSlot => text_of(
                "stable home layout did not contain a booster slot",
            ),
        }
    }
}

/// Where to click to start applying the stratagems of a preset to an empty loadout.
pub fn apply_empty_loadout_preset(items: &Vec<String>, home: &RoiObservation) -> (target: Result<
    HomeOpenTarget,
    ApplyError,
>)
    ensures
        match target {
            Ok(found) => {
                &&& items@.len() == 4
                &&& ui_state_of(SlotLayout::Home, home.slots@) == UiState::HomeEmpty
                &&& cell(home.slots@, 0) matches Some(slot) && found.opens(
                    ItemKind::Stratagem,
                    slot,
                )
            },
            Err(ApplyError::StratagemCount { given }) => items@.len() != 4 && given == items@.len(),
            Err(ApplyError::NotEmptyHome) => items@.len() == 4 && ui_state_of(
                SlotLayout::Home,
                home.slots@,
            ) != UiState::HomeEmpty,
            Err(_) => false,
        },
{
    if items.len() != STRATAGEM_COUNT {
        return Err(ApplyError::StratagemCount { given: items.len() });
    }
    match empty_loadout_entry_slot(home) {
        Some(slot) => Ok(HomeOpenTarget { item_kind: ItemKind::Stratagem, point: slot.center() }),
        None => Err(ApplyError::NotEmptyHome),
    }
}

/// Where to click to start applying the booster of a preset.
pub fn apply_booster_from_home(items: &Vec<String>, home: &RoiObservation) -> (target: Result<
    HomeOpenTarget,
    ApplyError,
>)
    ensures
        match target {
            Ok(found) => {
                &&& items@.len() == 1
                &&& has_home_row(home.slots@)
                &&& cell(home.slots@, 4) matches Some(slot) && found.opens(ItemKind::Booster, slot)
            },
            Err(ApplyError::BoosterCount { given }) => items@.len() != 1 && given == items@.len(),
            Err(ApplyError::NoBoosterSlot) => items@.len() == 1 && !has_home_row(home.slots@),
            Err(_) => false,
        },
{
    if items.len() != 1 {
        return Err(ApplyError::BoosterCount { given: items.len() });
    }
    match home_booster_slot(home) {
        Some(slot) => Ok(HomeOpenTarget { item_kind: ItemKind::Booster, point: slot.center() }),
        None => Err(ApplyError::NoBoosterSlot),
    }
}

/// Which booster of a preset is picked from the opened list.
#[derive(Clone, Copy, Debug, PartialEq, Eq, Structural)]
pub enum BoosterChoice {
    Booster,
    Fallback,
    /// Neither can be had.
    Unavailable,
}

/// Chooses between the booster of a preset and its fallback. Each argument says whether the item
/// is in view, and if so whether somebody else has taken it. The booster is picked unless it is
/// seen to be taken; its fallback only where that is seen to be free.
pub fn choose_booster(booster: Option<bool>, fallback: Option<bool>) -> (choice: BoosterChoice)
    ensures
        choice == if booster != Some(true) {
            BoosterChoice::Booster
        } else if fallback == Some(false) {
            BoosterChoice::Fallback
        } else {
            BoosterChoice::Unavailable
        },
{
    match (booster, fallback) {
        (Some(true), Some(false)) => BoosterChoice::Fallback,
        (Some(true), _) => BoosterChoice::Unavailable,
        _ => BoosterChoice::Booster,
    }
}

/// A list is opened by a click at most half a pixel off the center of its slot.
pub proof fn lists_are_opened_at_the_center(
    target: HomeOpenTarget,
    item_kind: ItemKind,
    slot: Slot,
)
    requires
        target.opens(item_kind, slot),
        slot.center_x <= 0xff_ffff_ff00_0000,
        slot.center_y <= 0xff_ffff_ff00_0000,
    ensures
        target.item_kind == item_kind,
        slot.center_x - 0x80_0000 < target.point.0 * 0x100_0000 <= slot.center_x + 0x80_0000,
        slot.center_y - 0x80_0000 < target.point.1 * 0x100_0000 <= slot.center_y + 0x80_0000,
{
    aimed_pixels_are_near(slot);
}

} // verus!
