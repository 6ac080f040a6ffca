//! The menu of the tray icon.
use vstd::prelude::*;
use vstd::string::*;

use crate::monitors::{replace_part, replaced_from, Monitor};
use crate::platform::{eq_ignore_ascii_case, same_ignoring_case};
use crate::preset_action::PresetActionOptions;
use crate::text::{chars_of, text_of};

verus! {

#[derive(Debug)]
pub enum TrayEvent {
    ToggleApplyInSavedOrder,
    ToggleAutoReadyUp,
    ToggleSaveFallbackWhenTaken,
    SetOverlayMonitor(String),
    ExitRequested,
}

/// What the identifier of a menu item for a monitor starts with.
pub const MONITOR_ITEM_PREFIX: &'static str = "overlay_monitor:";

pub open spec fn starts_with(text: Seq<char>, prefix: Seq<char>) -> bool {
    text.len() >= prefix.len() && text.take(prefix.len() as int) == prefix
}

/// What a menu item asks for.
pub open spec fn is_event_of(event: Option<TrayEvent>, id: Seq<char>) -> bool {
    let prefix = MONITOR_ITEM_PREFIX@;
    if starts_with(id, prefix) {
        event matches Some(TrayEvent::SetOverlayMonitor(monitor)) && monitor@ == id.skip(
            prefix.len() as int,
        )
    } else if id == "apply_in_saved_order"@ {
        event == Some(TrayEvent::ToggleApplyInSavedOrder)
    } else if id == "auto_ready_up"@ {
        event == Some(TrayEvent::ToggleAutoReadyUp)
    } else if id == "save_fallback_when_taken"@ {
        event == Some(TrayEvent::ToggleSaveFallbackWhenTaken)
    } else if id == "close"@ {
        event == Some(TrayEvent::ExitRequested)
    } else {
        event is None
    }
}

/// The rest of a text after a prefix.
fn strip_prefix(text: &String, prefix: &str) -> (rest: Option<String>)
    ensures
        match rest {
            Some(after) => starts_with(text@, prefix@) && after@ == text@.skip(
                prefix@.len() as int,
            ),
            None => !starts_with(text@, prefix@),
        },
{
    let chars = chars_of(text.as_str());
    let head = chars_of(prefix);
    if chars.len() < head.len() {
        return None;
    }
    let mut index: usize = 0;
    while index < head.len()
        invariant
            chars@ == text@,
            head@ == prefix@,
            head@.len() <= chars@.len(),
            index <= head@.len(),
            forall|at: int| 0 <= at < index ==> text@[at] == prefix@[at],
        decreases head@.len() - index,
    {
        if chars[index] != head[index] {
            assert(text@.take(prefix@.len() as int)[index as int] != prefix@[index as int]);
            return None;
        }
        index = index + 1;
    }
    assert(text@.take(prefix@.len() as int) =~= prefix@);
    let rest = text.as_str().substring_char(head.len(), chars.len());
    assert(rest@ =~= text@.skip(prefix@.len() as int));
    Some(text_of(rest))
}

/// What the menu item with this identifier asks for.
pub fn menu_event(id: &String) -> (event: Option<TrayEvent>)
    ensures
        is_event_of(event, id@),
{
    if let Some(monitor) = strip_prefix(id, MONITOR_ITEM_PREFIX) {
        return Some(TrayEvent::SetOverlayMonitor(monitor));
    }
    if *id == text_of("apply_in_saved_order") {
        Some(TrayEvent::ToggleApplyInSavedOrder)
    } else if *id == text_of("auto_ready_up") {
        Some(TrayEvent::ToggleAutoReadyUp)
    } else if *id == text_of("save_fallback_when_taken") {
        Some(TrayEvent::ToggleSaveFallbackWhenTaken)
    } else if *id == text_of("close") {
        Some(TrayEvent::ExitRequested)
    } else {
        None
    }
}

/// The tray icon as the application sees it: the settings that its menu shows, and what the user
/// asked for and was not told yet.
#[derive(Debug)]
pub struct TrayHandle {
    settings: PresetActionOptions,
    events: Vec<TrayEvent>,
}

/// A tray icon whose menu shows these settings.
pub fn spawn(settings: PresetActionOptions) -> (tray: TrayHandle)
    ensures
        tray.shown() == settings,
        tray.pending().len() == 0,
{
    TrayHandle { settings, events: Vec::new() }
}

impl TrayHandle {
    pub closed spec fn shown(&self) -> PresetActionOptions {
        self.settings
    }

    pub closed spec fn pending(&self) -> Seq<TrayEvent> {
        self.events@
    }

    /// The settings that the menu shows.
    pub fn settings(&self) -> (settings: PresetActionOptions)
        ensures
            settings == self.shown(),
    {
        self.settings
    }

    pub fn update_settings(&mut self, settings: PresetActionOptions)
        ensures
            final(self).shown() == settings,
            final(self).pending() == old(self).pending(),
    {
        self.settings = settings;
    }

    /// The user chose a menu item. One that asks for nothing is passed over.
    pub fn choose_item(&mut self, id: &String)
        ensures
            final(self).shown() == old(self).shown(),
            is_event_of(None, id@) ==> final(self).pending() == old(self).pending(),
            !is_event_of(None, id@) ==> exists|event: TrayEvent| #[trigger]
                is_event_of(Some(event), id@) && final(self).pending() == old(self).pending().push(
                    event,
                ),
    {
        if let Some(event) = menu_event(id) {
            self.events.push(event);
        }
    }

    /// The oldest thing that the user asked for.
    pub fn try_event(&mut self) -> (event: Option<TrayEvent>)
        ensures
            final(self).shown() == old(self).shown(),
            match event {
                Some(asked) => old(self).pending().len() > 0 && asked == old(self).pending()[0]
                    && final(self).pending() == old(self).pending().skip(1),
                None => old(self).pending().len() == 0 && final(self).pending().len() == 0,
            },
    {
        if self.events.len() == 0 {
            return None;
        }
        let ghost before = self.events@;
        let event = self.events.remove(0);
        assert(self.events@ =~= before.skip(1));
        Some(event)
    }
}

/// An item of the menu that shows whether a setting is on.
pub open spec fn shows_setting(
    entry: MenuEntry,
    id: Seq<char>,
    text: Seq<char>,
    checked: bool,
) -> bool {
    entry matches MenuEntry::Choice { id: own, text: shown, checked: marked } && own@ == id
        && shown@ == text && marked == checked
}

fn setting_entry(id: &str, text: &str, checked: bool) -> (entry: MenuEntry)
    ensures
        shows_setting(entry, id@, text@, checked),
{
    MenuEntry::Choice { id: text_of(id), text: text_of(text), checked }
}

/// The items of the menu for the settings.
pub fn settings_entries(settings: PresetActionOptions) -> (entries: Vec<MenuEntry>)
    ensures
        entries@.len() == 3,
        shows_setting(
            entries@[0],
            "apply_in_saved_order"@,
            "Apply in saved order"@,
            settings.apply_in_saved_order,
        ),
        shows_setting(entries@[1], "auto_ready_up"@, "Auto ready up"@, settings.auto_ready_up),
        shows_setting(
            entries@[2],
            "save_fallback_when_taken"@,
            "Save fallback for taken Booster"@,
            settings.save_fallback_when_taken,
        ),
{
    let mut entries: Vec<MenuEntry> = Vec::new();
    entries.push(
        setting_entry(
            "apply_in_saved_order",
            "Apply in saved order",
            settings.apply_in_saved_order,
        ),
    );
    entries.push(setting_entry("auto_ready_up", "Auto ready up", settings.auto_ready_up));
    entries.push(
        setting_entry(
            "save_fallback_when_taken",
            "Save fallback for taken Booster",
            settings.save_fallback_when_taken,
        ),
    );
    entries
}

/// What the tray icon is told.
#[derive(Debug)]
pub enum TrayUpdate {
    Settings(PresetActionOptions),
    /// The monitor of the overlay was chosen.
    Monitor(String),
}

/// The settings that were told last.
pub open spec fn last_settings(updates: Seq<TrayUpdate>) -> Option<PresetActionOptions>
    decreases updates.len(),
{
    if updates.len() == 0 {
        None
    } else {
        match updates.last() {
            TrayUpdate::Settings(settings) => Some(settings),
            TrayUpdate::Monitor(_) => last_settings(updates.drop_last()),
        }
    }
}

/// The monitor that was told last.
pub open spec fn last_monitor(updates: Seq<TrayUpdate>) -> Option<Seq<char>>
    decreases updates.len(),
{
    if updates.len() == 0 {
        None
    } else {
        match updates.last() {
            TrayUpdate::Settings(_) => last_monitor(updates.drop_last()),
            TrayUpdate::Monitor(monitor) => Some(monitor@),
        }
    }
}

/// What changes in the menu of the tray icon.
#[derive(Clone, Copy, Debug, PartialEq, Eq, Structural)]
pub struct MenuChange {
    /// The settings to show from now on.
    pub settings: Option<PresetActionOptions>,
    /// The menu of monitors is to be built anew.
    pub monitors: bool,
}

/// The same monitors in the same order.
pub open spec fn same_monitors(left: Seq<Monitor>, right: Seq<Monitor>) -> bool {
    &&& left.len() == right.len()
    &&& forall|at: int| 0 <= at < left.len() ==> same_monitor(#[trigger] left[at], right[at])
}

pub open spec fn same_monitor(left: Monitor, right: Monitor) -> bool {
    left.id@ == right.id@ && left.label@ == right.label@ && left.bounds == right.bounds
}

fn are_same(left: &Vec<Monitor>, right: &Vec<Monitor>) -> (same: bool)
    ensures
        same == same_monitors(left@, right@),
{
    if left.len() != right.len() {
        return false;
    }
    let mut index: usize = 0;
    while index < left.len()
        invariant
            left@.len() == right@.len(),
            index <= left@.len(),
            forall|at: int| 0 <= at < index ==> same_monitor(#[trigger] left@[at], right@[at]),
        decreases left@.len() - index,
    {
        let same = left[index].id == right[index].id && left[index].label == right[index].label
            && left[index].bounds == right[index].bounds;
        assert(same == same_monitor(left@[index as int], right@[index as int]));
        if !same {
            return false;
        }
        index = index + 1;
    }
    true
}

/// An item of a menu.
#[derive(Clone, Debug)]
pub enum MenuEntry {
    /// A choice with its identifier.
    Choice { id: String, text: String, checked: bool },
    Separator,
    /// The chosen monitor, which is not there.
    Missing { text: String },
}

/// The menu of monitors.
#[derive(Debug)]
pub struct MonitorMenu {
    /// Stands for the monitor of the game.
    pub automatic: String,
    pub selected: String,
    pub monitors: Vec<Monitor>,
}

pub open spec fn is_choice(
    entry: MenuEntry,
    monitor: Seq<char>,
    text: Seq<char>,
    checked: bool,
) -> bool {
    entry matches MenuEntry::Choice { id, text: shown, checked: marked } && id@
        == MONITOR_ITEM_PREFIX@ + monitor && shown@ == text && marked == checked
}

impl MonitorMenu {
    /// The monitor at `index` is the chosen one.
    pub open spec fn is_selected(&self, index: int) -> bool {
        same_ignoring_case(self.monitors@[index].id@, self.selected@)
    }

    /// The choice is a monitor that is there, or that of the game.
    pub open spec fn is_found(&self) -> bool {
        self.selected@ == self.automatic@ || exists|index: int|
            0 <= index < self.monitors@.len() && #[trigger] self.is_selected(index)
    }

    /// Takes in what the tray icon was told, and the monitors where they were listed. The menu is
    /// to be built anew once a monitor was chosen, even the same one, or other monitors are there;
    /// where they could not be listed, those known stay.
    pub fn refresh<E>(
        &mut self,
        updates: &Vec<TrayUpdate>,
        listed: Option<Result<Vec<Monitor>, E>>,
    ) -> (change: MenuChange)
        ensures
            final(self).automatic == old(self).automatic,
            final(self).selected@ == match last_monitor(updates@) {
                Some(monitor) => monitor,
                None => old(self).selected@,
            },
            final(self).monitors@ == match listed {
                Some(Ok(monitors)) if !same_monitors(monitors@, old(self).monitors@) => monitors@,
                _ => old(self).monitors@,
            },
            change.settings == last_settings(updates@),
            change.monitors == (last_monitor(updates@) is Some || (listed matches Some(Ok(monitors))
                && !same_monitors(monitors@, old(self).monitors@))),
    {
        let mut change = MenuChange { settings: None, monitors: false };
        let ghost selected = self.selected@;
        let ghost monitors = self.monitors@;
        let ghost automatic = self.automatic;
        let mut index: usize = 0;
        while index < updates.len()
            invariant
                index <= updates@.len(),
                self.monitors@ == monitors,
                self.automatic == automatic,
                change.settings == last_settings(updates@.take(index as int)),
                change.monitors == last_monitor(updates@.take(index as int)) is Some,
                self.selected@ == match last_monitor(updates@.take(index as int)) {
                    Some(monitor) => monitor,
                    None => selected,
                },
            decreases updates@.len() - index,
        {
            assert(updates@.take(index + 1).drop_last() =~= updates@.take(index as int));
            match &updates[index] {
                TrayUpdate::Settings(settings) => {
                    change.settings = Some(*settings);
                },
                TrayUpdate::Monitor(monitor) => {
                    self.selected = monitor.clone();
                    change.monitors = true;
                },
            }
            index = index + 1;
        }
        assert(updates@.take(updates@.len() as int) =~= updates@);
        if let Some(Ok(found)) = listed {
            if !are_same(&found, &self.monitors) {
                self.monitors = found;
                change.monitors = true;
            }
        }
        change
    }

    /// The entries of the menu: the monitor of the game, a line, the monitors, and a note where the
    /// chosen one is not there.
    pub fn rebuild(&self) -> (entries: Vec<MenuEntry>)
        ensures
            entries@.len() == self.monitors@.len() + if self.is_found() {
                2int
            } else {
                3int
            },
            is_choice(
                entries@[0],
                self.automatic@,
                "Follow game"@,
                self.selected@ == self.automatic@,
            ),
            entries@[1] == MenuEntry::Separator,
            forall|index: int|
                0 <= index < self.monitors@.len() ==> is_choice(
                    #[trigger] entries@[index + 2],
                    self.monitors@[index].id@,
                    replaced_from(self.monitors@[index].label@, "&"@, "&&"@, 0),
                    self.is_selected(index),
                ),
            !self.is_found() ==> (entries@.last() matches MenuEntry::Missing { text } && text@
                == "Saved display (Unavailable)"@),
    {
        let mut entries: Vec<MenuEntry> = Vec::new();
        let follows = self.selected == self.automatic;
        let mut id = text_of(MONITOR_ITEM_PREFIX);
        id.append(self.automatic.as_str());
        entries.push(MenuEntry::Choice { id, text: text_of("Follow game"), checked: follows });
        entries.push(MenuEntry::Separator);
        let mut found = follows;
        let mut index: usize = 0;
        proof {
            reveal_strlit("&");
        }
        while index < self.monitors.len()
            invariant
                index <= self.monitors@.len(),
                entries@.len() == index + 2,
                "&"@.len() == 1,
                follows == (self.selected@ == self.automatic@),
                is_choice(entries@[0], self.automatic@, "Follow game"@, follows),
                entries@[1] == MenuEntry::Separator,
                forall|done: int|
                    0 <= done < index ==> is_choice(
                        #[trigger] entries@[done + 2],
                        self.monitors@[done].id@,
                        replaced_from(self.monitors@[done].label@, "&"@, "&&"@, 0),
                        self.is_selected(done),
                    ),
                found == (follows || exists|done: int|
                    0 <= done < index && #[trigger] self.is_selected(done)),
            decreases self.monitors@.len() - index,
        {
            let monitor = &self.monitors[index];
            let checked = eq_ignore_ascii_case(monitor.id.as_str(), self.selected.as_str());
            assert(checked == self.is_selected(index as int));
            found = found || checked;
            let mut id = text_of(MONITOR_ITEM_PREFIX);
            id.append(monitor.id.as_str());
            let text = replace_part(monitor.label.as_str(), "&", "&&");
            entries.push(MenuEntry::Choice { id, text, checked });
            index = index + 1;
        }
        if !found {
            entries.push(MenuEntry::Missing { text: text_of("Saved display (Unavailable)") });
        }
        entries
    }
}

/// What the tray icon was told last counts, whatever was told of other things since.
pub proof fn the_last_word_counts(
    updates: Seq<TrayUpdate>,
    settings: PresetActionOptions,
    monitor: String,
)
    ensures
        last_settings(updates.push(TrayUpdate::Settings(settings))) == Some(settings),
        last_settings(updates.push(TrayUpdate::Monitor(monitor))) == last_settings(updates),
        last_monitor(updates.push(TrayUpdate::Monitor(monitor))) == Some(monitor@),
        last_monitor(updates.push(TrayUpdate::Settings(settings))) == last_monitor(updates),
        last_settings(Seq::empty()) is None,
        last_monitor(Seq::empty()) is None,
{
    assert(updates.push(TrayUpdate::Settings(settings)).drop_last() =~= updates);
    assert(updates.push(TrayUpdate::Monitor(monitor)).drop_last() =~= updates);
}

/// Monitors are the same where each has the device, the label and the place of the other, in the
/// same order.
pub proof fn other_monitors_are_noticed(left: Seq<Monitor>, right: Seq<Monitor>, at: int)
    requires
        0 <= at < left.len(),
        0 <= at < right.len(),
    ensures
        same_monitors(left, left),
        same_monitors(left, right) == same_monitors(right, left),
        left[at].id@ != right[at].id@ || left[at].label@ != right[at].label@ || left[at].bounds
            != right[at].bounds ==> !same_monitors(left, right),
        left.len() != right.len() ==> !same_monitors(left, right),
{
    if same_monitors(left, right) {
        assert(same_monitor(left[at], right[at]));
        assert forall|other: int| 0 <= other < right.len() implies same_monitor(
            #[trigger] right[other],
            left[other],
        ) by {
            assert(same_monitor(left[other], right[other]));
        }
    }
    if same_monitors(right, left) {
        assert forall|other: int| 0 <= other < left.len() implies same_monitor(
            #[trigger] left[other],
            right[other],
        ) by {
            assert(same_monitor(right[other], left[other]));
        }
    }
}

/// A menu item asks for the monitor that it is the choice of, by its device.
pub proof fn choices_ask_for_their_monitor(
    entry: MenuEntry,
    monitor: Seq<char>,
    text: Seq<char>,
    checked: bool,
    event: Option<TrayEvent>,
)
    requires
        is_choice(entry, monitor, text, checked),
        is_event_of(event, entry->id@),
    ensures
        event matches Some(TrayEvent::SetOverlayMonitor(chosen)) && chosen@ == monitor,
        entry matches MenuEntry::Choice { id, text: shown, checked: marked } && shown@ == text
            && marked == checked,
{
    let prefix = MONITOR_ITEM_PREFIX@;
    let id = entry->id@;
    assert(id.take(prefix.len() as int) =~= prefix);
    assert(id.skip(prefix.len() as int) =~= monitor);
}

} // verus!
