//! What holds of the operations on every list and every name.

use crate::error::StoreError;
use crate::model::{added, removed, toggled, TaskMap};
use crate::pairs::{as_map, distinct_names};
use crate::persist::{lemma_entries_as_tags, tags_of, tasks_of, tasks_of_entries};
use crate::state::State;
use vstd::prelude::*;

verus! {

/// Adding a name that the list does not hold succeeds: the new list holds
/// the old names and the new one, the new task is not done, and every other
/// task is as it was.
pub proof fn law_add_new_name(tasks: TaskMap, name: Seq<char>)
    requires
        !tasks.contains_key(name),
    ensures
        added(tasks, name) is Ok,
        added(tasks, name)->Ok_0.dom() == tasks.dom().insert(name),
        added(tasks, name)->Ok_0[name] == State::Undone,
        forall|other: Seq<char>| #[trigger]
            tasks.contains_key(other) ==> added(tasks, name)->Ok_0[other] == tasks[other],
{
}

/// Adding a name that the list holds fails with `AlreadyExists`, and no
/// changed list comes of it.
pub proof fn law_add_taken_name(tasks: TaskMap, name: Seq<char>)
    requires
        tasks.contains_key(name),
    ensures
        added(tasks, name) == Err::<TaskMap, StoreError>(StoreError::AlreadyExists),
{
}

/// Toggling a task succeeds, and toggling it again gives the list back.
pub proof fn law_toggle_twice(tasks: TaskMap, name: Seq<char>)
    requires
        tasks.contains_key(name),
    ensures
        toggled(tasks, name) is Ok,
        toggled(toggled(tasks, name)->Ok_0, name) == Ok::<TaskMap, StoreError>(tasks),
{
    let once = toggled(tasks, name)->Ok_0;
    let twice = toggled(once, name)->Ok_0;
    assert(twice =~= tasks);
}

/// Removing or toggling a name that the list does not hold fails with
/// `NotFound`.
pub proof fn law_missing_name(tasks: TaskMap, name: Seq<char>)
    requires
        !tasks.contains_key(name),
    ensures
        removed(tasks, name) == Err::<TaskMap, StoreError>(StoreError::NotFound),
        toggled(tasks, name) == Err::<TaskMap, StoreError>(StoreError::NotFound),
{
}

/// A tag stands for the state that it is the tag of.
pub proof fn law_tag_read_back(state: State)
    ensures
        State::with_tag(state.tag_text()) == Some(state),
{
    reveal_strlit("Done");
    reveal_strlit("Undone");
    assert("Done"@.len() != "Undone"@.len());
}

/// The content of a list's document stands for that list: the names with
/// their tags, read back as names with states, are the list.
pub proof fn law_tags_read_back(tasks: TaskMap)
    ensures
        tasks_of(tags_of(tasks)) == Ok::<TaskMap, StoreError>(tasks),
{
    let tags = tags_of(tasks);
    assert forall|name: Seq<char>| tags.contains_key(name) implies State::with_tag(
        #[trigger] tags[name],
    ) is Some by {
        law_tag_read_back(tasks[name]);
    }
    let back = tasks_of(tags)->Ok_0;
    assert forall|name: Seq<char>| tasks.contains_key(name) implies #[trigger] back[name]
        == tasks[name] by {
        law_tag_read_back(tasks[name]);
    }
    assert(back =~= tasks);
}

/// Entries that hold a list's names, each once and with its state's tag,
/// stand for that list.
pub proof fn law_entries_read_back(tasks: TaskMap, entries: Seq<(Seq<char>, Seq<char>)>)
    requires
        distinct_names(entries),
        as_map(entries) == tags_of(tasks),
    ensures
        tasks_of_entries(entries) == Ok::<TaskMap, StoreError>(tasks),
{
    lemma_entries_as_tags(entries);
    law_tags_read_back(tasks);
}

} // verus!
