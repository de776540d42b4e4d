//! The task list itself: tasks held in a vector, no name twice.

use crate::error::StoreError;
use crate::model::{added, entered, removed, toggled, welcome_tasks, TaskMap};
use crate::pairs::{
    as_map, distinct_names, has_name, lemma_count, lemma_entry, lemma_pushed, lemma_replaced,
    lemma_taken_out,
};
use crate::state::State;
use crate::text::same_text;
use vstd::prelude::*;

verus! {

/// One task: its name, which identifies it, and whether it is done.
#[derive(Debug, PartialEq, Eq)]
pub struct Task {
    pub name: String,
    pub state: State,
}

impl View for Task {
    type V = (Seq<char>, State);

    open spec fn view(&self) -> (Seq<char>, State) {
        (self.name@, self.state)
    }
}

impl Clone for Task {
    fn clone(&self) -> (r: Self)
        ensures
            r == *self,
    {
        Task { name: self.name.clone(), state: self.state }
    }
}

/// A sequence of tasks as pairs of name and state.
pub open spec fn listing(tasks: Seq<Task>) -> Seq<(Seq<char>, State)> {
    tasks.map_values(|task: Task| task@)
}

/// A task list: a map from each task's name to its state.
#[derive(Debug)]
pub struct TaskStore {
    tasks: Vec<Task>,
}

impl View for TaskStore {
    type V = TaskMap;

    closed spec fn view(&self) -> TaskMap {
        as_map(listing(self.tasks@))
    }
}

/// What an operation came to, seen as a map or the error.
pub open spec fn outcome(r: Result<TaskStore, StoreError>) -> Result<TaskMap, StoreError> {
    match r {
        Ok(tasks) => Ok(tasks@),
        Err(e) => Err(e),
    }
}

/// Finds the task called `name`.
fn find(tasks: &Vec<Task>, name: &str) -> (r: Option<usize>)
    ensures
        match r {
            Some(i) => i < tasks.len() && listing(tasks@)[i as int].0 == name@,
            None => !has_name(listing(tasks@), name@),
        },
{
    let mut i: usize = 0;
    while i < tasks.len()
        invariant
            i <= tasks.len(),
            forall|j: int| 0 <= j < i ==> listing(tasks@)[j].0 != name@,
        decreases tasks.len() - i,
    {
        if same_text(tasks[i].name.as_str(), name) {
            return Some(i);
        }
        i += 1;
    }
    None
}

impl TaskStore {
    #[verifier::type_invariant]
    spec fn no_name_twice(self) -> bool {
        distinct_names(listing(self.tasks@))
    }

    /// The list without any task.
    pub fn new() -> (r: Self)
        ensures
            r@ == Map::<Seq<char>, State>::empty(),
    {
        let r = TaskStore { tasks: Vec::new() };
        assert(r@ =~= Map::<Seq<char>, State>::empty());
        r
    }

    /// The list that a first run starts with: the task `Welcome`, not done.
    pub fn welcome() -> (r: Self)
        ensures
            r@ == welcome_tasks(),
    {
        let mut held: Vec<Task> = Vec::new();
        let ghost before = held@;
        held.push(Task { name: "Welcome".to_owned(), state: State::Undone });
        proof {
            assert(listing(held@) =~= listing(before).push(("Welcome"@, State::Undone)));
            lemma_pushed(listing(before), ("Welcome"@, State::Undone));
            assert(as_map(listing(before)) =~= Map::<Seq<char>, State>::empty());
        }
        TaskStore { tasks: held }
    }

    /// The tasks of the list, each once, in the order in which the list
    /// holds them.
    pub fn list(&self) -> (r: Vec<Task>)
        ensures
            distinct_names(listing(r@)),
            as_map(listing(r@)) == self@,
    {
        proof {
            use_type_invariant(self);
        }
        let mut r: Vec<Task> = Vec::new();
        let mut i: usize = 0;
        while i < self.tasks.len()
            invariant
                i <= self.tasks.len(),
                r@ == self.tasks@.take(i as int),
            decreases self.tasks.len() - i,
        {
            r.push(self.tasks[i].clone());
            assert(r@ =~= self.tasks@.take(i + 1));
            i += 1;
        }
        assert(r@ =~= self.tasks@);
        r
    }

    /// How many tasks the list holds.
    pub fn len(&self) -> (r: usize)
        ensures
            self@.dom().finite(),
            r == self@.len(),
    {
        proof {
            use_type_invariant(self);
            lemma_count(listing(self.tasks@));
        }
        self.tasks.len()
    }

    /// Whether the list holds no task.
    pub fn is_empty(&self) -> (r: bool)
        ensures
            r == (self@ == Map::<Seq<char>, State>::empty()),
    {
        proof {
            use_type_invariant(self);
            lemma_count(listing(self.tasks@));
            if self.tasks@.len() == 0 {
                assert(self@ =~= Map::<Seq<char>, State>::empty());
            }
        }
        self.tasks.len() == 0
    }

    /// Whether a task called `name` is in the list.
    pub fn contains(&self, name: &str) -> (r: bool)
        ensures
            r == self@.contains_key(name@),
    {
        find(&self.tasks, name).is_some()
    }

    /// The state of the task called `name`, if it is in the list.
    pub fn state_of(&self, name: &str) -> (r: Option<State>)
        ensures
            r == (if self@.contains_key(name@) {
                Some(self@[name@])
            } else {
                None
            }),
    {
        proof {
            use_type_invariant(self);
        }
        match find(&self.tasks, name) {
            Some(i) => {
                proof {
                    lemma_entry(listing(self.tasks@), i as int);
                }
                Some(self.tasks[i].state)
            },
            None => None,
        }
    }
}

impl Clone for TaskStore {
    fn clone(&self) -> (r: Self)
        ensures
            r@ == self@,
    {
        proof {
            use_type_invariant(self);
        }
        let held = self.list();
        TaskStore { tasks: held }
    }
}

impl PartialEq for TaskStore {
    /// Two lists are equal where they hold the same names with the same
    /// states, in whatever order.
    fn eq(&self, other: &Self) -> (r: bool) {
        proof {
            use_type_invariant(self);
            use_type_invariant(other);
            lemma_count(listing(self.tasks@));
            lemma_count(listing(other.tasks@));
        }
        if self.tasks.len() != other.tasks.len() {
            return false;
        }
        let mut i: usize = 0;
        while i < self.tasks.len()
            invariant
                i <= self.tasks.len(),
                distinct_names(listing(self.tasks@)),
                forall|j: int|
                    0 <= j < i ==> other@.contains_pair(
                        (#[trigger] listing(self.tasks@)[j]).0,
                        listing(self.tasks@)[j].1,
                    ),
            decreases self.tasks.len() - i,
        {
            proof {
                lemma_entry(listing(self.tasks@), i as int);
            }
            match other.state_of(self.tasks[i].name.as_str()) {
                Some(state) => {
                    if state != self.tasks[i].state {
                        return false;
                    }
                },
                None => {
                    return false;
                },
            }
            i += 1;
        }
        proof {
            assert forall|name: Seq<char>| self@.dom().contains(name) implies other@.contains_pair(
                name,
                self@[name],
            ) by {
                let k = crate::pairs::index_of(listing(self.tasks@), name);
                lemma_entry(listing(self.tasks@), k);
                assert(other@.contains_pair(listing(self.tasks@)[k].0, listing(self.tasks@)[k].1));
            }
            assert(self@.dom().subset_of(other@.dom()));
            vstd::set_lib::lemma_subset_equality(self@.dom(), other@.dom());
            assert(self@ =~= other@);
        }
        true
    }
}

impl vstd::std_specs::cmp::PartialEqSpecImpl for TaskStore {
    open spec fn obeys_eq_spec() -> bool {
        true
    }

    open spec fn eq_spec(&self, other: &Self) -> bool {
        self@ == other@
    }
}

/// Enters `task`; fails with `AlreadyExists` where the list has a task of
/// that name.
pub fn enter_task(tasks: TaskStore, task: Task) -> (r: Result<TaskStore, StoreError>)
    ensures
        outcome(r) == entered(tasks@, task.name@, task.state),
{
    proof {
        use_type_invariant(&tasks);
    }
    let mut held = tasks.tasks;
    match find(&held, task.name.as_str()) {
        Some(i) => {
            proof {
                lemma_entry(listing(held@), i as int);
            }
            Err(StoreError::AlreadyExists)
        },
        None => {
            let ghost before = held@;
            held.push(task);
            proof {
                assert(listing(held@) =~= listing(before).push(task@));
                lemma_pushed(listing(before), task@);
            }
            Ok(TaskStore { tasks: held })
        },
    }
}

/// Enters a task called `task_name`, not done; fails with `AlreadyExists`
/// where the list has a task of that name.
pub fn new_task(tasks: TaskStore, task_name: String) -> (r: Result<TaskStore, StoreError>)
    ensures
        outcome(r) == added(tasks@, task_name@),
{
    enter_task(tasks, Task { name: task_name, state: State::Undone })
}

/// Drops the task called `task_name`; fails with `NotFound` where the list
/// has no such task.
pub fn remove_task(tasks: TaskStore, task_name: String) -> (r: Result<TaskStore, StoreError>)
    ensures
        outcome(r) == removed(tasks@, task_name@),
{
    proof {
        use_type_invariant(&tasks);
    }
    let mut held = tasks.tasks;
    match find(&held, task_name.as_str()) {
        Some(i) => {
            let ghost before = held@;
            held.remove(i);
            proof {
                assert(listing(held@) =~= listing(before).remove(i as int));
                lemma_entry(listing(before), i as int);
                lemma_taken_out(listing(before), i as int);
            }
            Ok(TaskStore { tasks: held })
        },
        None => Err(StoreError::NotFound),
    }
}

/// Flips the state of the task called `task_name`; fails with `NotFound`
/// where the list has no such task.
pub fn alternate_state(tasks: TaskStore, task_name: String) -> (r: Result<TaskStore, StoreError>)
    ensures
        outcome(r) == toggled(tasks@, task_name@),
{
    proof {
        use_type_invariant(&tasks);
    }
    let mut held = tasks.tasks;
    match find(&held, task_name.as_str()) {
        Some(i) => {
            let ghost before = held@;
            let flipped = held[i].state.toggled();
            held.set(i, Task { name: task_name, state: flipped });
            proof {
                assert(listing(held@) =~= listing(before).update(i as int, (task_name@, flipped)));
                lemma_entry(listing(before), i as int);
                lemma_replaced(listing(before), i as int, flipped);
            }
            Ok(TaskStore { tasks: held })
        },
        None => Err(StoreError::NotFound),
    }
}

} // verus!
