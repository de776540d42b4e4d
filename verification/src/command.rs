//! The commands of the menu, and what each does to the list.

use crate::error::StoreError;
use crate::model::{added, removed, toggled, TaskMap};
use crate::store::{alternate_state, new_task, outcome, remove_task, TaskStore};
use vstd::prelude::*;

verus! {

/// A change to the list, made to the task that the user names.
#[derive(Clone, Copy, Debug, PartialEq, Eq, Structural)]
pub enum Edit {
    Add,
    Remove,
    Toggle,
}

/// What the user can ask for.
#[derive(Clone, Copy, Debug, PartialEq, Eq, Structural)]
pub enum Command {
    /// List all tasks.
    List,
    /// Ask for a task's name and change the list.
    Change(Edit),
    /// Leave.
    Quit,
}

/// The command that a letter stands for: `s` lists, `a` adds, `r` removes,
/// `c` toggles, `q` quits; no other letter is a command.
pub open spec fn command_of(letter: char) -> Option<Command> {
    if letter == 's' {
        Some(Command::List)
    } else if letter == 'a' {
        Some(Command::Change(Edit::Add))
    } else if letter == 'r' {
        Some(Command::Change(Edit::Remove))
    } else if letter == 'c' {
        Some(Command::Change(Edit::Toggle))
    } else if letter == 'q' {
        Some(Command::Quit)
    } else {
        None
    }
}

/// What an edit of the task called `name` makes of the list.
pub open spec fn edited(tasks: TaskMap, edit: Edit, name: Seq<char>) -> Result<TaskMap, StoreError> {
    match edit {
        Edit::Add => added(tasks, name),
        Edit::Remove => removed(tasks, name),
        Edit::Toggle => toggled(tasks, name),
    }
}

/// Reads a command letter; `None` for a letter that is no command.
pub fn command_for(letter: char) -> (r: Option<Command>)
    ensures
        r == command_of(letter),
{
    match letter {
        's' => Some(Command::List),
        'a' => Some(Command::Change(Edit::Add)),
        'r' => Some(Command::Change(Edit::Remove)),
        'c' => Some(Command::Change(Edit::Toggle)),
        'q' => Some(Command::Quit),
        _ => None,
    }
}

/// Makes an edit to the task called `name`. The new list is to be stored;
/// after an error there is none, and the caller keeps the list it had.
pub fn apply_edit(tasks: TaskStore, edit: Edit, name: String) -> (r: Result<TaskStore, StoreError>)
    ensures
        outcome(r) == edited(tasks@, edit, name@),
{
    match edit {
        Edit::Add => new_task(tasks, name),
        Edit::Remove => remove_task(tasks, name),
        Edit::Toggle => alternate_state(tasks, name),
    }
}

} // verus!
