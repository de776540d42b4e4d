//! The lines that show a list to the user.

use crate::state::State;
use crate::store::Task;
use vstd::prelude::*;
use vstd::string::StringExecFns;

verus! {

/// The line above the tasks.
pub open spec fn heading() -> Seq<char> {
    "Task list:"@
}

/// The line that shows one task.
pub open spec fn task_line(name: Seq<char>, state: State) -> Seq<char> {
    "Task: "@ + name + ", State: "@ + state.tag_text()
}

/// The line that shows one task: `Task: ` and its name, then `, State: `
/// and `Done` or `Undone`.
pub fn line_for(task: &Task) -> (r: String)
    ensures
        r@ == task_line(task.name@, task.state),
{
    let mut line = String::from_str("Task: ");
    line.append(task.name.as_str());
    line.append(", State: ");
    line.append(task.state.tag());
    line
}

/// The lines that show the tasks: the heading, then one line for each
/// task, in the order given.
pub fn task_lines(tasks: &Vec<Task>) -> (r: Vec<String>)
    ensures
        r@.len() == tasks@.len() + 1,
        r@[0]@ == heading(),
        forall|i: int|
            0 <= i < tasks@.len() ==> (#[trigger] r@[i + 1])@ == task_line(
                tasks@[i].name@,
                tasks@[i].state,
            ),
{
    let mut r: Vec<String> = Vec::new();
    r.push(String::from_str("Task list:"));
    let mut i: usize = 0;
    while i < tasks.len()
        invariant
            i <= tasks.len(),
            r@.len() == i + 1,
            r@[0]@ == heading(),
            forall|j: int|
                0 <= j < i ==> (#[trigger] r@[j + 1])@ == task_line(
                    tasks@[j].name@,
                    tasks@[j].state,
                ),
        decreases tasks.len() - i,
    {
        r.push(line_for(&tasks[i]));
        i += 1;
    }
    r
}

} // verus!
