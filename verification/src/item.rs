//! What a loadout slot can hold.
use vstd::prelude::*;

verus! {

#[derive(Clone, Copy, Debug, PartialEq, Eq, Hash, Structural)]
pub enum ItemKind {
    Stratagem,
    Booster,
}

impl ItemKind {
    /// The name used in messages.
    pub open spec fn spec_label(self) -> &'static str {
        match self {
            ItemKind::Stratagem => "stratagem",
            ItemKind::Booster => "booster",
        }
    }

    pub fn label(self) -> (name: &'static str)
        ensures
            name@ == self.spec_label()@,
    {
        match self {
            ItemKind::Stratagem => "stratagem",
            ItemKind::Booster => "booster",
        }
    }
}

#[derive(Clone, Copy, Debug, PartialEq, Eq, Hash, Structural)]
pub enum StratagemCategory {
    Offensive,
    Supply,
    Defensive,
}

impl StratagemCategory {
    /// The name used in messages.
    pub open spec fn spec_label(self) -> &'static str {
        match self {
            StratagemCategory::Offensive => "offensive",
            StratagemCategory::Supply => "supply",
            StratagemCategory::Defensive => "defensive",
        }
    }

    pub fn label(self) -> (name: &'static str)
        ensures
            name@ == self.spec_label()@,
    {
        match self {
            StratagemCategory::Offensive => "offensive",
            StratagemCategory::Supply => "supply",
            StratagemCategory::Defensive => "defensive",
        }
    }
}

/// Each kind and each category has a name of its own.
pub proof fn names_are_told_apart(left: StratagemCategory, right: StratagemCategory)
    ensures
        left.spec_label()@ == right.spec_label()@ ==> left == right,
        ItemKind::Stratagem.spec_label()@ != ItemKind::Booster.spec_label()@,
{
    reveal_strlit("offensive");
    reveal_strlit("supply");
    reveal_strlit("defensive");
    reveal_strlit("stratagem");
    reveal_strlit("booster");
    assert("offensive"@[0] == 'o' && "supply"@[0] == 's' && "defensive"@[0] == 'd');
    assert("stratagem"@.len() == 9 && "booster"@.len() == 7);
}

} // verus!
