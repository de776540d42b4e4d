use task_list::command::{apply_edit, command_for, Command, Edit};
use task_list::error::StoreError;
use task_list::report::{line_for, task_lines};
use task_list::state::State;
use task_list::store::{Task, TaskStore};

#[test]
fn letters_of_the_commands() {
    assert_eq!(command_for('s'), Some(Command::List));
    assert_eq!(command_for('a'), Some(Command::Change(Edit::Add)));
    assert_eq!(command_for('r'), Some(Command::Change(Edit::Remove)));
    assert_eq!(command_for('c'), Some(Command::Change(Edit::Toggle)));
    assert_eq!(command_for('q'), Some(Command::Quit));
}

#[test]
fn other_letters_are_no_commands() {
    for letter in ['S', 'A', 'x', ' ', '1', '\n', 'Q', 't', 'd'] {
        assert_eq!(command_for(letter), None);
    }
}

#[test]
fn edits_change_the_list() {
    let tasks = apply_edit(TaskStore::new(), Edit::Add, "A".to_string()).unwrap();
    assert_eq!(tasks.state_of("A"), Some(State::Undone));
    let tasks = apply_edit(tasks, Edit::Toggle, "A".to_string()).unwrap();
    assert_eq!(tasks.state_of("A"), Some(State::Done));
    let tasks = apply_edit(tasks, Edit::Remove, "A".to_string()).unwrap();
    assert!(tasks.is_empty());
}

#[test]
fn edits_fail_as_the_operations_do() {
    let tasks = TaskStore::welcome();
    assert_eq!(
        apply_edit(tasks.clone(), Edit::Add, "Welcome".to_string()),
        Err(StoreError::AlreadyExists)
    );
    assert_eq!(apply_edit(tasks.clone(), Edit::Remove, "X".to_string()), Err(StoreError::NotFound));
    assert_eq!(apply_edit(tasks, Edit::Toggle, "X".to_string()), Err(StoreError::NotFound));
}

#[test]
fn line_of_a_task() {
    let task = Task { name: "Buy milk".to_string(), state: State::Done };
    assert_eq!(line_for(&task), "Task: Buy milk, State: Done");
    let task = Task { name: "".to_string(), state: State::Undone };
    assert_eq!(line_for(&task), "Task: , State: Undone");
}

#[test]
fn lines_of_a_list() {
    let tasks = vec![
        Task { name: "Welcome".to_string(), state: State::Undone },
        Task { name: "Buy milk".to_string(), state: State::Done },
    ];
    assert_eq!(
        task_lines(&tasks),
        vec![
            "Task list:".to_string(),
            "Task: Welcome, State: Undone".to_string(),
            "Task: Buy milk, State: Done".to_string(),
        ]
    );
}

#[test]
fn lines_of_no_tasks() {
    assert_eq!(task_lines(&Vec::new()), vec!["Task list:".to_string()]);
}

#[test]
fn lines_of_a_stored_list() {
    let lines = task_lines(&TaskStore::welcome().list());
    assert_eq!(lines, vec!["Task list:".to_string(), "Task: Welcome, State: Undone".to_string()]);
}
