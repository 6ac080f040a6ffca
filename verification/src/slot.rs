//! The kinds of slots on the loadout screens and the layouts they form.
use vstd::prelude::*;

use crate::item::ItemKind;

verus! {

#[derive(Clone, Copy, Debug, PartialEq, Eq, Structural)]
pub enum SlotKind {
    Stratagem,
    StratagemEmpty,
    Booster,
    /// The "no booster" cell of the booster list: it occupies the grid but has no item.
    NoBoosterOption,
    /// Filled booster slot on the loadout home screen.
    HomeBooster,
    /// Empty booster slot on the loadout home screen.
    HomeBoosterEmpty,
}

impl SlotKind {
    /// The kind of item that the slot shows, if it shows one.
    pub open spec fn spec_classification_kind(self) -> Option<ItemKind> {
        match self {
            SlotKind::Stratagem => Some(ItemKind::Stratagem),
            SlotKind::Booster | SlotKind::HomeBooster => Some(ItemKind::Booster),
            _ => None,
        }
    }

    pub fn classification_kind(self) -> (kind: Option<ItemKind>)
        ensures
            kind == self.spec_classification_kind(),
    {
        match self {
            SlotKind::Stratagem => Some(ItemKind::Stratagem),
            SlotKind::Booster | SlotKind::HomeBooster => Some(ItemKind::Booster),
            SlotKind::StratagemEmpty | SlotKind::NoBoosterOption | SlotKind::HomeBoosterEmpty =>
                None,
        }
    }

    /// Whether a list cell of this kind can be picked from a list of `item_kind`.
    pub open spec fn selectable_for(self, item_kind: ItemKind) -> bool {
        match item_kind {
            ItemKind::Stratagem => self == SlotKind::Stratagem,
            ItemKind::Booster => self == SlotKind::Booster,
        }
    }

    pub fn is_selectable_item_for(self, item_kind: ItemKind) -> (selectable: bool)
        ensures
            selectable == self.selectable_for(item_kind),
    {
        match item_kind {
            ItemKind::Stratagem => self == SlotKind::Stratagem,
            ItemKind::Booster => self == SlotKind::Booster,
        }
    }

    pub open spec fn home_booster(self) -> bool {
        self == SlotKind::HomeBooster || self == SlotKind::HomeBoosterEmpty
    }

    pub fn is_home_booster(self) -> (home_booster: bool)
        ensures
            home_booster == self.home_booster(),
    {
        self == SlotKind::HomeBooster || self == SlotKind::HomeBoosterEmpty
    }
}

/// Every slot kind that can be picked from a list of some kind shows an item of that kind.
pub proof fn selectable_slots_show_their_kind(slot_kind: SlotKind, item_kind: ItemKind)
    requires
        slot_kind.selectable_for(item_kind),
    ensures
        slot_kind.spec_classification_kind() == Some(item_kind),
        !slot_kind.home_booster(),
{
}

/// Layout of a whole page: what the detector is asked for, and what an observation carries.
#[derive(Clone, Copy, Debug, PartialEq, Eq, Structural)]
pub enum SlotLayout {
    Home,
    List(ItemKind),
}

impl SlotLayout {
    /// The name used in messages.
    pub open spec fn spec_label(self) -> &'static str {
        match self {
            SlotLayout::Home => "home",
            SlotLayout::List(ItemKind::Stratagem) => "stratagem_list",
            SlotLayout::List(ItemKind::Booster) => "booster_list",
        }
    }

    pub fn label(self) -> (name: &'static str)
        ensures
            name@ == self.spec_label()@,
    {
        match self {
            SlotLayout::Home => "home",
            SlotLayout::List(ItemKind::Stratagem) => "stratagem_list",
            SlotLayout::List(ItemKind::Booster) => "booster_list",
        }
    }
}

/// A cell can be picked from the list of the items that it shows, unless it belongs to the home; a
/// cell without an item can be picked from no list. Each kind of item has one kind of list cell, and
/// the home has a filled and an empty slot for a booster, of which the filled one shows it.
pub proof fn cells_belong_to_their_list(slot_kind: SlotKind, item_kind: ItemKind)
    ensures
        slot_kind.selectable_for(item_kind) <==> slot_kind.spec_classification_kind() == Some(
            item_kind,
        ) && !slot_kind.home_booster(),
        SlotKind::Stratagem.selectable_for(item_kind) <==> item_kind == ItemKind::Stratagem,
        SlotKind::Booster.selectable_for(item_kind) <==> item_kind == ItemKind::Booster,
        slot_kind.selectable_for(item_kind) ==> slot_kind == SlotKind::Stratagem || slot_kind
            == SlotKind::Booster,
        slot_kind.home_booster() <==> slot_kind == SlotKind::HomeBooster || slot_kind
            == SlotKind::HomeBoosterEmpty,
        slot_kind.home_booster() ==> (slot_kind.spec_classification_kind() == Some(
            ItemKind::Booster,
        ) <==> slot_kind == SlotKind::HomeBooster),
        slot_kind == SlotKind::StratagemEmpty || slot_kind == SlotKind::NoBoosterOption
            || slot_kind == SlotKind::HomeBoosterEmpty <==> slot_kind.spec_classification_kind() is None,
{
}

/// Two layouts never share a name, and a list is named after its items.
pub proof fn layouts_are_told_apart(left: SlotLayout, right: SlotLayout)
    ensures
        left.spec_label()@ == right.spec_label()@ ==> left == right,
        left matches SlotLayout::List(kind) ==> left.spec_label()@ == kind.spec_label()@ + "_list"@,
        SlotLayout::Home.spec_label()@ == "home"@,
{
    reveal_strlit("home");
    reveal_strlit("stratagem_list");
    reveal_strlit("booster_list");
    reveal_strlit("stratagem");
    reveal_strlit("booster");
    reveal_strlit("_list");
    assert("stratagem_list"@ =~= "stratagem"@ + "_list"@);
    assert("booster_list"@ =~= "booster"@ + "_list"@);
    assert("home"@.len() == 4 && "stratagem_list"@.len() == 14 && "booster_list"@.len() == 12);
}

} // verus!
