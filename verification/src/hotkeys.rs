//! The hotkeys that trigger presets.
use vstd::prelude::*;
use vstd::string::*;

use crate::input::{is_pressed, keys_of, names_of, HotkeySpec, Key};

verus! {

/// What the system has to be asked for to switch the hotkeys on or off.
#[derive(Debug)]
pub enum HotkeyPlan {
    /// They already are as wanted.
    Nothing,
    /// Register all hotkeys, after dropping pending triggers.
    RegisterAll,
    /// Unregister the hotkeys one after another until one fails.
    UnregisterAll,
}

/// How registering the hotkeys ended.
#[derive(Debug)]
pub enum Registration {
    Enabled,
    /// Some hotkeys were refused: the others are to be unregistered.
    RolledBack { unregister: Vec<i32>, refused: Vec<String> },
}

/// The hotkeys and whether the system watches them.
#[derive(Debug)]
pub struct Hotkeys {
    hotkeys: Vec<HotkeySpec>,
    enabled: bool,
}

/// Some hotkey is registered under `id`.
pub open spec fn has_id(hotkeys: Seq<HotkeySpec>, id: i32) -> bool {
    exists|index: int| 0 <= index < hotkeys.len() && (#[trigger] hotkeys[index]).id == id
}

/// `index` is the first hotkey registered under `id`.
pub open spec fn is_hotkey(hotkeys: Seq<HotkeySpec>, id: i32, index: int) -> bool {
    &&& 0 <= index < hotkeys.len()
    &&& hotkeys[index].id == id
    &&& forall|earlier: int| 0 <= earlier < index ==> (#[trigger] hotkeys[earlier]).id != id
}

/// The hotkeys that the system accepted.
pub open spec fn accepted_ids(hotkeys: Seq<HotkeySpec>, accepted: Seq<bool>) -> Seq<i32>
    decreases hotkeys.len(),
{
    if hotkeys.len() == 0 {
        Seq::empty()
    } else {
        let before = accepted_ids(hotkeys.drop_last(), accepted);
        if accepted[hotkeys.len() - 1] {
            before.push(hotkeys.last().id)
        } else {
            before
        }
    }
}

/// The shown names of the hotkeys that the system refused.
pub open spec fn refused_names(hotkeys: Seq<HotkeySpec>, accepted: Seq<bool>) -> Seq<Seq<char>>
    decreases hotkeys.len(),
{
    if hotkeys.len() == 0 {
        Seq::empty()
    } else {
        let before = refused_names(hotkeys.drop_last(), accepted);
        if accepted[hotkeys.len() - 1] {
            before
        } else {
            before.push(names_of(hotkeys.last().modifiers@) + hotkeys.last().key.spec_name()@)
        }
    }
}

/// The triggers that are left once those before the first known one are dropped.
pub open spec fn first_known(hotkeys: Seq<HotkeySpec>, pending: Seq<i32>, index: int) -> bool {
    &&& 0 <= index < pending.len()
    &&& has_id(hotkeys, pending[index])
    &&& forall|earlier: int| 0 <= earlier < index ==> !has_id(hotkeys, #[trigger] pending[earlier])
}

impl Hotkeys {
    pub closed spec fn specs(&self) -> Seq<HotkeySpec> {
        self.hotkeys@
    }

    pub closed spec fn on(&self) -> bool {
        self.enabled
    }

    pub fn new(hotkeys: &Vec<HotkeySpec>) -> (created: Self)
        ensures
            created.specs() == hotkeys@,
            !created.on(),
    {
        let mut copy: Vec<HotkeySpec> = Vec::new();
        let mut index: usize = 0;
        while index < hotkeys.len()
            invariant
                index <= hotkeys@.len(),
                copy@ == hotkeys@.take(index as int),
            decreases hotkeys@.len() - index,
        {
            copy.push(hotkeys[index]);
            index = index + 1;
            assert(hotkeys@.take(index as int) =~= hotkeys@.take(index - 1).push(
                hotkeys@[index - 1],
            ));
        }
        assert(hotkeys@.take(hotkeys@.len() as int) =~= hotkeys@);
        Hotkeys { hotkeys: copy, enabled: false }
    }

    /// What has to be done to switch the hotkeys on or off.
    pub fn set_enabled(&self, enabled: bool) -> (plan: HotkeyPlan)
        ensures
            match plan {
                HotkeyPlan::Nothing => self.on() == enabled,
                HotkeyPlan::RegisterAll => !self.on() && enabled,
                HotkeyPlan::UnregisterAll => self.on() && !enabled,
            },
    {
        if self.enabled == enabled {
            HotkeyPlan::Nothing
        } else if enabled {
            HotkeyPlan::RegisterAll
        } else {
            HotkeyPlan::UnregisterAll
        }
    }

    /// Takes note of which hotkeys the system accepted. Either all of them are on, or none is.
    pub fn registered(&mut self, accepted: &Vec<bool>) -> (outcome: Registration)
        requires
            accepted@.len() == old(self).specs().len(),
        ensures
            final(self).specs() == old(self).specs(),
            match outcome {
                Registration::Enabled => {
                    &&& final(self).on()
                    &&& forall|index: int| 0 <= index < accepted@.len() ==> accepted@[index]
                },
                Registration::RolledBack { unregister, refused } => {
                    &&& final(self).on() == old(self).on()
                    &&& exists|index: int| 0 <= index < accepted@.len() && !accepted@[index]
                    &&& unregister@ == accepted_ids(old(self).specs(), accepted@)
                    &&& refused@.map_values(|name: String| name@) == refused_names(
                        old(self).specs(),
                        accepted@,
                    )
                },
            },
    {
        let ghost specs = self.hotkeys@;
        let mut unregister: Vec<i32> = Vec::new();
        let mut refused: Vec<String> = Vec::new();
        let mut index: usize = 0;
        proof {
            assert(specs.take(0) =~= Seq::empty());
            assert(refused@.map_values(|name: String| name@) =~= Seq::empty());
        }
        while index < self.hotkeys.len()
            invariant
                index <= specs.len(),
                specs == self.hotkeys@,
                specs == old(self).specs(),
                self.enabled == old(self).on(),
                accepted@.len() == specs.len(),
                unregister@ == accepted_ids(specs.take(index as int), accepted@),
                refused@.map_values(|name: String| name@) == refused_names(
                    specs.take(index as int),
                    accepted@,
                ),
                refused@.len() == 0 <==> forall|earlier: int|
                    0 <= earlier < index ==> accepted@[earlier],
            decreases specs.len() - index,
        {
            assert(specs.take(index + 1).drop_last() =~= specs.take(index as int));
            if accepted[index] {
                unregister.push(self.hotkeys[index].id);
            } else {
                let ghost before = refused@;
                let label = self.hotkeys[index].label();
                refused.push(label);
                assert(refused@.map_values(|name: String| name@) =~= before.map_values(
                    |name: String| name@,
                ).push(label@));
                assert(!accepted@[index as int]);
            }
            index = index + 1;
        }
        assert(specs.take(specs.len() as int) =~= specs);
        if refused.len() == 0 {
            self.enabled = true;
            Registration::Enabled
        } else {
            Registration::RolledBack { unregister, refused }
        }
    }

    /// Takes note of whether all hotkeys could be unregistered. One failure leaves them on.
    pub fn unregistered(&mut self, all_gone: bool)
        ensures
            final(self).specs() == old(self).specs(),
            final(self).on() == (old(self).on() && !all_gone),
    {
        if all_gone {
            self.enabled = false;
        }
    }

    /// The next trigger of a known hotkey. Earlier triggers are dropped, and all of them if none
    /// is known or the hotkeys are off.
    pub fn next_trigger(&self, pending: &mut Vec<i32>) -> (id: Option<i32>)
        ensures
            match id {
                Some(known) => self.on() && exists|index: int| #[trigger]
                    first_known(self.specs(), old(pending)@, index) && known == old(
                        pending,
                    )@[index] && final(pending)@ == old(pending)@.skip(index + 1),
                None => final(pending)@.len() == 0 && (!self.on() || forall|index: int|
                    0 <= index < old(pending)@.len() ==> !has_id(
                        self.specs(),
                        #[trigger] old(pending)@[index],
                    )),
            },
    {
        let ghost start = pending@;
        let ghost mut dropped: int = 0;
        assert(start.skip(0) =~= start);
        while pending.len() > 0
            invariant
                0 <= dropped <= start.len(),
                start == old(pending)@,
                pending@ == start.skip(dropped),
                !self.on() || forall|index: int|
                    0 <= index < dropped ==> !has_id(self.specs(), #[trigger] start[index]),
            decreases pending.len(),
        {
            let id: i32 = pending.remove(0);
            assert(id == start[dropped]);
            assert(pending@ =~= start.skip(dropped + 1));
            if self.enabled && self.knows(id) {
                assert(first_known(self.specs(), start, dropped));
                return Some(id);
            }
            proof {
                dropped = dropped + 1;
            }
        }
        None
    }

    /// Drops all triggers.
    pub fn discard_pending(&self, pending: &mut Vec<i32>)
        ensures
            final(pending)@.len() == 0,
    {
        pending.clear();
    }

    fn knows(&self, id: i32) -> (known: bool)
        ensures
            known == has_id(self.specs(), id),
    {
        let mut index: usize = 0;
        while index < self.hotkeys.len()
            invariant
                index <= self.hotkeys@.len(),
                forall|earlier: int|
                    0 <= earlier < index ==> (#[trigger] self.hotkeys@[earlier]).id != id,
            decreases self.hotkeys@.len() - index,
        {
            if self.hotkeys[index].id == id {
                return true;
            }
            index = index + 1;
        }
        false
    }

    /// Neither the key of the hotkey nor any key of its modifiers is pressed. An unknown hotkey
    /// is never released.
    pub fn is_released(&self, hotkey_id: i32, pressed: &Vec<Key>) -> (released: bool)
        ensures
            released == exists|index: int| #[trigger]
                is_hotkey(self.specs(), hotkey_id, index) && !pressed@.contains(
                    self.specs()[index].key,
                ) && forall|at: int|
                    0 <= at < keys_of(self.specs()[index].modifiers@).len() ==> !pressed@.contains(
                        #[trigger] keys_of(self.specs()[index].modifiers@)[at],
                    ),
    {
        let mut index: usize = 0;
        while index < self.hotkeys.len() && self.hotkeys[index].id != hotkey_id
            invariant
                index <= self.hotkeys@.len(),
                forall|earlier: int|
                    0 <= earlier < index ==> (#[trigger] self.hotkeys@[earlier]).id != hotkey_id,
            decreases self.hotkeys@.len() - index,
        {
            index = index + 1;
        }
        if index >= self.hotkeys.len() {
            return false;
        }
        assert(is_hotkey(self.specs(), hotkey_id, index as int));
        let hotkey = self.hotkeys[index];
        let keys = hotkey.modifiers.release_keys();
        let mut at: usize = 0;
        while at < keys.len()
            invariant
                at <= keys@.len(),
                index < self.hotkeys@.len(),
                hotkey == self.specs()[index as int],
                keys@ == keys_of(hotkey.modifiers@),
                is_hotkey(self.specs(), hotkey_id, index as int),
                forall|earlier: int|
                    0 <= earlier < at ==> !pressed@.contains(#[trigger] keys@[earlier]),
            decreases keys@.len() - at,
        {
            if is_pressed(keys[at], pressed) {
                proof {
                    assert forall|other: int| #[trigger]
                        is_hotkey(self.specs(), hotkey_id, other) implies other == index by {
                        assert(self.specs()[other].id == hotkey_id);
                        assert(self.specs()[index as int].id == hotkey_id);
                    }
                    assert(pressed@.contains(keys_of(self.specs()[index as int].modifiers@)[
                        at as int
                    ]));
                }
                return false;
            }
            at = at + 1;
        }
        proof {
            assert forall|other: int| #[trigger]
                is_hotkey(self.specs(), hotkey_id, other) implies other == index by {
                assert(self.specs()[other].id == hotkey_id);
                assert(self.specs()[index as int].id == hotkey_id);
            }
        }
        !is_pressed(hotkey.key, pressed)
    }
}

/// Every accepted hotkey is unregistered again when one was refused.
pub proof fn rollback_covers_the_accepted(
    hotkeys: Seq<HotkeySpec>,
    accepted: Seq<bool>,
    index: int,
)
    requires
        0 <= index < hotkeys.len(),
        hotkeys.len() <= accepted.len(),
        accepted[index],
    ensures
        accepted_ids(hotkeys, accepted).contains(hotkeys[index].id),
    decreases hotkeys.len(),
{
    let front = hotkeys.drop_last();
    let before = accepted_ids(front, accepted);
    let all = accepted_ids(hotkeys, accepted);
    if index < front.len() {
        assert(front[index] == hotkeys[index]);
        rollback_covers_the_accepted(front, accepted, index);
        let at = choose|at: int| 0 <= at < before.len() && before[at] == hotkeys[index].id;
        assert(all[at] == hotkeys[index].id);
    } else {
        assert(all[before.len() as int] == hotkeys[index].id);
    }
}

/// Every hotkey was either accepted or refused. What is unregistered again was accepted, and every
/// refused hotkey is shown by its modifiers and its key.
pub proof fn hotkeys_are_accepted_or_refused(
    hotkeys: Seq<HotkeySpec>,
    accepted: Seq<bool>,
    id: i32,
    name: Seq<char>,
)
    requires
        hotkeys.len() <= accepted.len(),
    ensures
        accepted_ids(hotkeys, accepted).len() + refused_names(hotkeys, accepted).len()
            == hotkeys.len(),
        accepted_ids(hotkeys, accepted).contains(id) <==> exists|at: int|
            0 <= at < hotkeys.len() && accepted[at] && (#[trigger] hotkeys[at]).id == id,
        refused_names(hotkeys, accepted).contains(name) <==> exists|at: int|
            0 <= at < hotkeys.len() && !accepted[at] && name == names_of(
                (#[trigger] hotkeys[at]).modifiers@,
            ) + hotkeys[at].key.spec_name()@,
    decreases hotkeys.len(),
{
    if hotkeys.len() > 0 {
        let front = hotkeys.drop_last();
        let last = hotkeys.len() - 1;
        hotkeys_are_accepted_or_refused(front, accepted, id, name);
        assert(forall|at: int| 0 <= at < last ==> front[at] == hotkeys[at]);
        assert(hotkeys.last() == hotkeys[last]);
        let (some_ids, ids) = (accepted_ids(front, accepted), accepted_ids(hotkeys, accepted));
        let (some, names) = (refused_names(front, accepted), refused_names(hotkeys, accepted));
        if some_ids.contains(id) {
            let at = choose|at: int| 0 <= at < some_ids.len() && some_ids[at] == id;
            assert(ids[at] == id);
            let place = choose|place: int|
                0 <= place < front.len() && accepted[place] && (#[trigger] front[place]).id == id;
            assert(hotkeys[place].id == id);
        }
        if some.contains(name) {
            let at = choose|at: int| 0 <= at < some.len() && some[at] == name;
            assert(names[at] == name);
            let place = choose|place: int|
                0 <= place < front.len() && !accepted[place] && name == names_of(
                    (#[trigger] front[place]).modifiers@,
                ) + front[place].key.spec_name()@;
            assert(hotkeys[place] == front[place]);
        }
        if accepted[last] {
            assert(ids[ids.len() - 1] == hotkeys[last].id);
        } else {
            assert(names[names.len() - 1] == names_of(hotkeys[last].modifiers@)
                + hotkeys[last].key.spec_name()@);
        }
        if ids.contains(id) && !some_ids.contains(id) {
            let at = choose|at: int| 0 <= at < ids.len() && ids[at] == id;
            assert(at < some_ids.len() ==> some_ids[at] == id);
        }
        if names.contains(name) && !some.contains(name) {
            let at = choose|at: int| 0 <= at < names.len() && names[at] == name;
            assert(at < some.len() ==> some[at] == name);
        }
        if exists|at: int|
            0 <= at < hotkeys.len() && accepted[at] && (#[trigger] hotkeys[at]).id == id {
            let at = choose|at: int|
                0 <= at < hotkeys.len() && accepted[at] && (#[trigger] hotkeys[at]).id == id;
            if at < last {
                assert(front[at].id == id);
            }
        }
        if exists|at: int|
            0 <= at < hotkeys.len() && !accepted[at] && name == names_of(
                (#[trigger] hotkeys[at]).modifiers@,
            ) + hotkeys[at].key.spec_name()@ {
            let at = choose|at: int|
                0 <= at < hotkeys.len() && !accepted[at] && name == names_of(
                    (#[trigger] hotkeys[at]).modifiers@,
                ) + hotkeys[at].key.spec_name()@;
            if at < last {
                assert(front[at] == hotkeys[at]);
            }
        }
    }
}

/// A hotkey is found just where one is registered under the number, and the next trigger is the
/// first of those that are.
pub proof fn known_hotkeys_are_found(hotkeys: Seq<HotkeySpec>, id: i32, at: int)
    requires
        0 <= at < hotkeys.len(),
        hotkeys[at].id == id,
    ensures
        exists|index: int| #[trigger] is_hotkey(hotkeys, id, index) && index <= at,
        has_id(hotkeys, id),
    decreases at,
{
    if exists|earlier: int| 0 <= earlier < at && (#[trigger] hotkeys[earlier]).id == id {
        let earlier = choose|earlier: int|
            0 <= earlier < at && (#[trigger] hotkeys[earlier]).id == id;
        known_hotkeys_are_found(hotkeys, id, earlier);
    } else {
        assert(is_hotkey(hotkeys, id, at));
    }
}

/// Where some trigger is that of a hotkey, there is a first one, and none before it is.
pub proof fn known_triggers_are_found(hotkeys: Seq<HotkeySpec>, pending: Seq<i32>, at: int)
    requires
        0 <= at < pending.len(),
        has_id(hotkeys, pending[at]),
    ensures
        exists|index: int| #[trigger] first_known(hotkeys, pending, index) && index <= at,
    decreases at,
{
    if exists|earlier: int| 0 <= earlier < at && has_id(hotkeys, #[trigger] pending[earlier]) {
        let earlier = choose|earlier: int|
            0 <= earlier < at && has_id(hotkeys, #[trigger] pending[earlier]);
        known_triggers_are_found(hotkeys, pending, earlier);
    } else {
        assert(first_known(hotkeys, pending, at));
    }
}

} // verus!
