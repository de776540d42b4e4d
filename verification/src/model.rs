//! The task list as a mathematical map from names to states, and what each
//! operation makes of it.

use crate::error::StoreError;
use crate::state::State;
use vstd::prelude::*;

verus! {

/// A task list seen as a map: each name in it, with its state.
pub type TaskMap = Map<Seq<char>, State>;

/// The list a first run starts with: the one task `Welcome`, not done.
pub open spec fn welcome_tasks() -> TaskMap {
    Map::<Seq<char>, State>::empty().insert("Welcome"@, State::Undone)
}

/// Entering a task called `name` in `state`: refused if the name is taken,
/// else the name is entered with that state.
pub open spec fn entered(tasks: TaskMap, name: Seq<char>, state: State) -> Result<
    TaskMap,
    StoreError,
> {
    if tasks.contains_key(name) {
        Err(StoreError::AlreadyExists)
    } else {
        Ok(tasks.insert(name, state))
    }
}

/// Adding `name`: refused if the name is taken, else the name is entered as
/// not done.
pub open spec fn added(tasks: TaskMap, name: Seq<char>) -> Result<TaskMap, StoreError> {
    entered(tasks, name, State::Undone)
}

/// Removing `name`: refused if no such task, else the task is dropped.
pub open spec fn removed(tasks: TaskMap, name: Seq<char>) -> Result<TaskMap, StoreError> {
    if tasks.contains_key(name) {
        Ok(tasks.remove(name))
    } else {
        Err(StoreError::NotFound)
    }
}

/// Toggling `name`: refused if no such task, else that task's state is
/// flipped and every other task is as before.
pub open spec fn toggled(tasks: TaskMap, name: Seq<char>) -> Result<TaskMap, StoreError> {
    if tasks.contains_key(name) {
        Ok(tasks.insert(name, tasks[name].flipped()))
    } else {
        Err(StoreError::NotFound)
    }
}

} // verus!
