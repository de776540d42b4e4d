use task_list::error::StoreError;
use task_list::persist::{
    load_tasks, read_tasks, save_tasks, tag_entries, tasks_from_entries, Found,
};
use task_list::state::State;
use task_list::store::{alternate_state, enter_task, new_task, Task, TaskStore};

fn store_of(names: &[(&str, State)]) -> TaskStore {
    let mut tasks = TaskStore::new();
    for (name, state) in names {
        tasks = enter_task(tasks, Task { name: name.to_string(), state: *state }).unwrap();
    }
    tasks
}

fn entries_of(pairs: &[(&str, &str)]) -> Vec<(String, String)> {
    pairs.iter().map(|(name, tag)| (name.to_string(), tag.to_string())).collect()
}

#[test]
fn nothing_found_starts_with_welcome() {
    let loaded = load_tasks(&Found::Nothing).unwrap();
    assert_eq!(loaded.tasks, TaskStore::welcome());
    assert_eq!(loaded.tasks.state_of("Welcome"), Some(State::Undone));
    assert_eq!(loaded.tasks.len(), 1);
    assert_eq!(loaded.to_store, Some("{\"Welcome\":\"Undone\"}".to_string()));
}

#[test]
fn the_text_stored_at_first_is_read_as_welcome() {
    let loaded = load_tasks(&Found::Nothing).unwrap();
    let again = load_tasks(&Found::Text(loaded.to_store.unwrap())).unwrap();
    assert_eq!(again.tasks, TaskStore::welcome());
    assert_eq!(again.to_store, None);
}

#[test]
fn text_found_is_read_and_nothing_is_stored() {
    let found = Found::Text("{\"Welcome\": \"Undone\", \"Buy milk\": \"Done\"}".to_string());
    let loaded = load_tasks(&found).unwrap();
    assert_eq!(loaded.tasks, store_of(&[("Welcome", State::Undone), ("Buy milk", State::Done)]));
    assert_eq!(loaded.to_store, None);
}

#[test]
fn unreadable_storage_is_an_io_failure() {
    assert_eq!(load_tasks(&Found::Unreadable).err(), Some(StoreError::IOFailure));
}

#[test]
fn malformed_text_found_is_an_error() {
    let found = Found::Text("not json".to_string());
    assert_eq!(load_tasks(&found).err(), Some(StoreError::MalformedStorage));
}

#[test]
fn save_writes_one_object() {
    let tasks = store_of(&[("Welcome", State::Undone), ("Buy milk", State::Done)]);
    assert_eq!(
        save_tasks(&tasks),
        Ok("{\"Buy milk\":\"Done\",\"Welcome\":\"Undone\"}".to_string())
    );
}

#[test]
fn save_of_the_empty_list() {
    assert_eq!(save_tasks(&TaskStore::new()), Ok("{}".to_string()));
    assert_eq!(read_tasks("{}"), Ok(TaskStore::new()));
}

#[test]
fn save_does_not_depend_on_the_order() {
    let one = store_of(&[("A", State::Done), ("B", State::Undone)]);
    let other = store_of(&[("B", State::Undone), ("A", State::Done)]);
    assert_eq!(save_tasks(&one), save_tasks(&other));
}

#[test]
fn save_follows_each_change() {
    let tasks = new_task(TaskStore::new(), "A".to_string()).unwrap();
    assert_eq!(save_tasks(&tasks), Ok("{\"A\":\"Undone\"}".to_string()));
    let tasks = alternate_state(tasks, "A".to_string()).unwrap();
    assert_eq!(save_tasks(&tasks), Ok("{\"A\":\"Done\"}".to_string()));
}

#[test]
fn save_escapes_names() {
    let tasks = store_of(&[("say \"hi\"\n", State::Done)]);
    assert_eq!(save_tasks(&tasks), Ok("{\"say \\\"hi\\\"\\n\":\"Done\"}".to_string()));
}

#[test]
fn read_gives_the_tasks_of_the_object() {
    let tasks = read_tasks("{\"Welcome\": \"Undone\", \"Buy milk\": \"Done\"}").unwrap();
    assert_eq!(tasks.len(), 2);
    assert_eq!(tasks.state_of("Welcome"), Some(State::Undone));
    assert_eq!(tasks.state_of("Buy milk"), Some(State::Done));
}

#[test]
fn read_after_save_gives_the_list_back() {
    let lists = [
        TaskStore::new(),
        TaskStore::welcome(),
        store_of(&[("B", State::Undone), ("A", State::Done), ("C", State::Done)]),
        store_of(&[("", State::Done)]),
        store_of(&[("say \"hi\"", State::Done), ("back\\slash", State::Undone)]),
        store_of(&[("line\nbreak\ttab", State::Undone), ("caf\u{e9} \u{1f600}", State::Done)]),
    ];
    for tasks in lists {
        let text = save_tasks(&tasks).unwrap();
        assert_eq!(read_tasks(&text), Ok(tasks));
    }
}

#[test]
fn read_refuses_what_is_no_json() {
    assert_eq!(read_tasks(""), Err(StoreError::MalformedStorage));
    assert_eq!(read_tasks("not json"), Err(StoreError::MalformedStorage));
    assert_eq!(read_tasks("{\"A\": \"Done\""), Err(StoreError::MalformedStorage));
    assert_eq!(read_tasks("{\"A\": \"Done\"} x"), Err(StoreError::MalformedStorage));
}

#[test]
fn read_refuses_what_is_no_object_of_tags() {
    assert_eq!(read_tasks("[]"), Err(StoreError::MalformedStorage));
    assert_eq!(read_tasks("\"Done\""), Err(StoreError::MalformedStorage));
    assert_eq!(read_tasks("null"), Err(StoreError::MalformedStorage));
    assert_eq!(read_tasks("{\"A\": 1}"), Err(StoreError::MalformedStorage));
    assert_eq!(read_tasks("{\"A\": true}"), Err(StoreError::MalformedStorage));
    assert_eq!(read_tasks("{\"A\": null}"), Err(StoreError::MalformedStorage));
    assert_eq!(read_tasks("{\"A\": [\"Done\"]}"), Err(StoreError::MalformedStorage));
}

#[test]
fn read_refuses_other_tags() {
    assert_eq!(read_tasks("{\"A\": \"Bogus\"}"), Err(StoreError::MalformedStorage));
    assert_eq!(read_tasks("{\"A\": \"done\"}"), Err(StoreError::MalformedStorage));
    assert_eq!(read_tasks("{\"A\": \"\"}"), Err(StoreError::MalformedStorage));
    assert_eq!(
        read_tasks("{\"A\": \"Done\", \"B\": \"Pending\"}"),
        Err(StoreError::MalformedStorage)
    );
}

#[test]
fn read_takes_whitespace_and_escapes() {
    let tasks = read_tasks(" {\n  \"a\\u0041\" : \"Done\"\n}\n").unwrap();
    assert_eq!(tasks, store_of(&[("aA", State::Done)]));
}

#[test]
fn tag_entries_give_each_name_its_tag() {
    let tasks = store_of(&[("B", State::Undone), ("A", State::Done)]);
    let mut entries = tag_entries(&tasks);
    entries.sort();
    assert_eq!(entries, entries_of(&[("A", "Done"), ("B", "Undone")]));
    assert!(tag_entries(&TaskStore::new()).is_empty());
}

#[test]
fn entries_stand_for_a_list() {
    let entries = entries_of(&[("A", "Done"), ("B", "Undone")]);
    assert_eq!(
        tasks_from_entries(&entries),
        Ok(store_of(&[("A", State::Done), ("B", State::Undone)]))
    );
    assert_eq!(tasks_from_entries(&Vec::new()), Ok(TaskStore::new()));
}

#[test]
fn entries_of_a_list_stand_for_it() {
    let tasks = store_of(&[("B", State::Undone), ("A", State::Done), ("C", State::Done)]);
    assert_eq!(tasks_from_entries(&tag_entries(&tasks)), Ok(tasks));
}

#[test]
fn entries_with_a_name_twice_are_malformed() {
    let entries = entries_of(&[("A", "Done"), ("B", "Undone"), ("A", "Done")]);
    assert_eq!(tasks_from_entries(&entries), Err(StoreError::MalformedStorage));
}

#[test]
fn entries_with_another_tag_are_malformed() {
    let entries = entries_of(&[("A", "Done"), ("B", "Later")]);
    assert_eq!(tasks_from_entries(&entries), Err(StoreError::MalformedStorage));
    let entries = entries_of(&[("A", "Later"), ("A", "Done")]);
    assert_eq!(tasks_from_entries(&entries), Err(StoreError::MalformedStorage));
}
