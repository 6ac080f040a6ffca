//! Whether the game takes input from this program.
use vstd::prelude::*;
use vstd::string::*;

use crate::platform::{
    before_zero, decoded, encoded, ended_texts_come_back, eq_ignore_ascii_case, same_ignoring_case,
    wide_string,
};

verus! {

pub const GAME_PROCESS_NAME: &'static str = "helldivers2.exe";

/// A running process.
#[derive(Debug)]
pub struct ProcessEntry {
    /// Code units that a zero may end.
    pub name: Vec<u16>,
    pub id: u32,
}

/// Why the game takes no input.
#[derive(Clone, Copy, Debug, PartialEq, Eq, Structural)]
pub enum AccessError {
    /// No process has the name of the game.
    NotRunning,
    /// The game runs with higher privileges.
    HigherPrivileges,
}

/// Whether more has to be found out.
#[derive(Clone, Copy, Debug, PartialEq, Eq, Structural)]
pub enum AccessStep {
    Granted,
    /// Find out whether this process is elevated.
    InspectProcess { id: u32 },
}

pub open spec fn is_game(process: ProcessEntry) -> bool {
    same_ignoring_case(decoded(before_zero(process.name@)), GAME_PROCESS_NAME@)
}

/// `index` is the first process of the game.
pub open spec fn is_first_game(processes: Seq<ProcessEntry>, index: int) -> bool {
    &&& 0 <= index < processes.len()
    &&& is_game(processes[index])
    &&& forall|earlier: int| 0 <= earlier < index ==> !is_game(#[trigger] processes[earlier])
}

pub fn find_game_process_id(processes: &Vec<ProcessEntry>) -> (id: Result<u32, AccessError>)
    ensures
        match id {
            Ok(found) => exists|index: int| #[trigger]
                is_first_game(processes@, index) && processes@[index].id == found,
            Err(error) => error == AccessError::NotRunning && forall|index: int|
                0 <= index < processes@.len() ==> !is_game(#[trigger] processes@[index]),
        },
{
    let mut index: usize = 0;
    while index < processes.len()
        invariant
            index <= processes@.len(),
            forall|earlier: int| 0 <= earlier < index ==> !is_game(#[trigger] processes@[earlier]),
        decreases processes@.len() - index,
    {
        let name = wide_string(&processes[index].name);
        if eq_ignore_ascii_case(name.as_str(), GAME_PROCESS_NAME) {
            assert(is_first_game(processes@, index as int));
            return Ok(processes[index].id);
        }
        index = index + 1;
    }
    Err(AccessError::NotRunning)
}

/// Whether this program may send input. An elevated one always may; else the game has to be looked
/// at.
pub fn ensure_input_access(helper_is_elevated: bool, processes: &Vec<ProcessEntry>) -> (step:
    Result<AccessStep, AccessError>)
    ensures
        match step {
            Ok(AccessStep::Granted) => helper_is_elevated,
            Ok(AccessStep::InspectProcess { id }) => !helper_is_elevated && exists|index: int|
             #[trigger]
                is_first_game(processes@, index) && processes@[index].id == id,
            Err(error) => !helper_is_elevated && error == AccessError::NotRunning && forall|
                index: int,
            |
                0 <= index < processes@.len() ==> !is_game(#[trigger] processes@[index]),
        },
{
    if helper_is_elevated {
        return Ok(AccessStep::Granted);
    }
    match find_game_process_id(processes) {
        Ok(id) => Ok(AccessStep::InspectProcess { id }),
        Err(error) => Err(error),
    }
}

/// Whether a program that is not elevated may send input to the game.
pub fn game_access(game_is_elevated: bool) -> (result: Result<(), AccessError>)
    ensures
        match result {
            Ok(_) => !game_is_elevated,
            Err(error) => game_is_elevated && error == AccessError::HigherPrivileges,
        },
{
    if game_is_elevated {
        Err(AccessError::HigherPrivileges)
    } else {
        Ok(())
    }
}

/// A process is the game where its name is that of the game in whatever case, up to the zero that
/// ends it, and it is another one where the name is.
pub proof fn games_are_known_by_their_name(process: ProcessEntry, name: Seq<char>, rest: Seq<u16>)
    requires
        forall|at: int| 0 <= at < name.len() ==> #[trigger] name[at] != '\0',
        process.name@ == encoded(name).push(0) + rest,
    ensures
        is_game(process) <==> same_ignoring_case(name, "helldivers2.exe"@),
{
    ended_texts_come_back(name, rest);
}

} // verus!
