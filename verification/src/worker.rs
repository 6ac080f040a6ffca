//! The work that is handed to the action worker, and what it reports back.
use vstd::prelude::*;
use vstd::string::*;

use crate::app_events::AppEvent;
use crate::preset_action::{PresetActionOptions, PresetActionOutcome};

verus! {

/// What the worker is asked to do.
#[derive(Debug)]
pub enum Work {
    /// Get ready to capture the game.
    Prepare,
    /// Nothing will be captured soon.
    Discard,
    Run { preset: String, settings: PresetActionOptions },
    Shutdown,
}

#[derive(Debug)]
pub enum WorkerEvent {
    Progress(AppEvent),
    Finished { saved: bool },
}

impl Work {
    /// Only the latest of these matters.
    pub open spec fn spec_is_hint(self) -> bool {
        self is Prepare || self is Discard
    }

    pub fn is_hint(&self) -> (hint: bool)
        ensures
            hint == self.spec_is_hint(),
    {
        match self {
            Work::Prepare | Work::Discard => true,
            _ => false,
        }
    }
}

/// The commands that are never dropped, in their order.
pub open spec fn boundaries(commands: Seq<Work>) -> Seq<Work>
    decreases commands.len(),
{
    if commands.len() == 0 {
        commands
    } else if commands[0].spec_is_hint() {
        boundaries(commands.skip(1))
    } else {
        seq![commands[0]] + boundaries(commands.skip(1))
    }
}

/// Where the command is that is to be carried out next: the first that is no hint, or the last.
pub open spec fn is_next(commands: Seq<Work>, index: int) -> bool {
    &&& 0 <= index < commands.len()
    &&& forall|earlier: int| 0 <= earlier < index ==> (#[trigger] commands[earlier]).spec_is_hint()
    &&& !commands[index].spec_is_hint() || index == commands.len() - 1
}

/// Takes the command that is to be carried out next from those that wait, the oldest first.
/// Hints that a later command overtakes are dropped.
pub fn next_work(pending: &mut Vec<Work>) -> (command: Option<Work>)
    ensures
        match command {
            None => old(pending)@.len() == 0 && final(pending)@.len() == 0,
            Some(next) => exists|index: int| #[trigger]
                is_next(old(pending)@, index) && next == old(pending)@[index] && final(pending)@
                    == old(pending)@.skip(index + 1),
        },
{
    let ghost all = pending@;
    let ghost mut index: int = 0;
    if pending.len() == 0 {
        return None;
    }
    let mut command = pending.remove(0);
    assert(pending@ =~= all.skip(1));
    while command.is_hint() && pending.len() > 0
        invariant
            0 <= index < all.len(),
            command == all[index],
            pending@ == all.skip(index + 1),
            forall|earlier: int| 0 <= earlier < index ==> (#[trigger] all[earlier]).spec_is_hint(),
        decreases pending@.len(),
    {
        command = pending.remove(0);
        assert(pending@ =~= all.skip(index + 2));
        proof {
            index = index + 1;
        }
    }
    assert(is_next(all, index));
    Some(command)
}

proof fn boundaries_after_hints(commands: Seq<Work>, count: int)
    requires
        0 <= count <= commands.len(),
        forall|earlier: int|
            0 <= earlier < count ==> (#[trigger] commands[earlier]).spec_is_hint(),
    ensures
        boundaries(commands) == boundaries(commands.skip(count)),
    decreases count,
{
    if count > 0 {
        let rest = commands.skip(1);
        assert forall|earlier: int| 0 <= earlier < count - 1 implies (
        #[trigger] rest[earlier]).spec_is_hint() by {
            assert(rest[earlier] == commands[earlier + 1]);
        }
        assert(commands[0].spec_is_hint());
        boundaries_after_hints(rest, count - 1);
        assert(rest.skip(count - 1) =~= commands.skip(count));
    } else {
        assert(commands.skip(0) =~= commands);
    }
}

/// Taking a command drops no action and no shutdown: those that waited are the one taken, if it is
/// one, and those that still wait.
pub proof fn boundaries_are_kept(commands: Seq<Work>, index: int)
    requires
        is_next(commands, index),
    ensures
        commands[index].spec_is_hint() ==> boundaries(commands).len() == 0 && commands.skip(
            index + 1,
        ).len() == 0,
        !commands[index].spec_is_hint() ==> boundaries(commands) == seq![commands[index]]
            + boundaries(commands.skip(index + 1)),
{
    boundaries_after_hints(commands, index);
    let rest = commands.skip(index);
    assert(rest[0] == commands[index]);
    assert(rest.skip(1) =~= commands.skip(index + 1));
    if commands[index].spec_is_hint() {
        assert(rest.skip(1).len() == 0);
        assert(boundaries(rest.skip(1)).len() == 0);
    }
}

/// What the worker reports when an action is over.
#[derive(Debug)]
pub struct RunReport {
    /// Reported before the end.
    pub failure: Option<AppEvent>,
    pub finished: WorkerEvent,
}

/// The report of an action that ended with this outcome.
pub fn report_run(preset: String, outcome: Result<PresetActionOutcome, String>) -> (report:
    RunReport)
    ensures
        report.finished == (WorkerEvent::Finished {
            saved: outcome == Ok::<PresetActionOutcome, String>(PresetActionOutcome::Saved),
        }),
        match outcome {
            Ok(_) => report.failure is None,
            Err(error) => report.failure == Some(AppEvent::PresetFailed { preset, error }),
        },
{
    match outcome {
        Ok(PresetActionOutcome::Saved) => RunReport {
            failure: None,
            finished: WorkerEvent::Finished { saved: true },
        },
        Ok(PresetActionOutcome::Applied) => RunReport {
            failure: None,
            finished: WorkerEvent::Finished { saved: false },
        },
        Err(error) => RunReport {
            failure: Some(AppEvent::PresetFailed { preset, error }),
            finished: WorkerEvent::Finished { saved: false },
        },
    }
}

/// Actions and shutdowns are never dropped, whatever waits around them; getting ready and standing
/// down are.
pub proof fn actions_are_kept_in_order(earlier: Seq<Work>, later: Seq<Work>, command: Work)
    ensures
        boundaries(earlier + later) == boundaries(earlier) + boundaries(later),
        boundaries(seq![command]) == if command is Run || command is Shutdown {
            seq![command]
        } else {
            Seq::empty()
        },
    decreases earlier.len(),
{
    let single = seq![command];
    assert(single[0] == command);
    assert(single.skip(1) =~= Seq::<Work>::empty());
    assert(boundaries(single.skip(1)) == Seq::<Work>::empty());
    assert(seq![command] + Seq::<Work>::empty() =~= seq![command]);
    if earlier.len() == 0 {
        assert(earlier + later =~= later);
        assert(boundaries(earlier) + boundaries(later) =~= boundaries(later));
    } else {
        let all = earlier + later;
        actions_are_kept_in_order(earlier.skip(1), later, command);
        assert(all.skip(1) =~= earlier.skip(1) + later);
        assert(all[0] == earlier[0]);
        assert(boundaries(all) =~= boundaries(earlier) + boundaries(later));
    }
}

/// Where commands wait there is one to carry out next, and only one: the first that is no hint, or
/// the last hint where all are.
pub proof fn something_is_next(commands: Seq<Work>, left: int, right: int)
    requires
        commands.len() > 0,
    ensures
        exists|index: int| is_next(commands, index),
        is_next(commands, left) && is_next(commands, right) ==> left == right,
        is_next(commands, left) && (commands[left] is Prepare || commands[left] is Discard) ==> left
            == commands.len() - 1,
        is_next(commands, left) && 0 <= right < left ==> commands[right] is Prepare
            || commands[right] is Discard,
{
    next_exists(commands, 0);
    if is_next(commands, left) && 0 <= right < left {
        assert(commands[right].spec_is_hint());
    }
    if is_next(commands, right) && 0 <= left < right {
        assert(commands[left].spec_is_hint());
    }
}

proof fn next_exists(commands: Seq<Work>, from: int)
    requires
        0 <= from < commands.len(),
        forall|earlier: int|
            0 <= earlier < from ==> (#[trigger] commands[earlier]).spec_is_hint(),
    ensures
        exists|index: int| is_next(commands, index),
    decreases commands.len() - from,
{
    if !commands[from].spec_is_hint() || from == commands.len() - 1 {
        assert(is_next(commands, from));
    } else {
        next_exists(commands, from + 1);
    }
}

} // verus!
