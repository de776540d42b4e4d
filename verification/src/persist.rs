//! The stored document: a JSON object that gives each task's name its
//! state's tag, such as `{"Welcome": "Undone", "Buy milk": "Done"}`.

use crate::error::StoreError;
use crate::json::{object_tags, object_text, read_object, tagged, write_object, Tags};
use crate::model::{welcome_tasks, TaskMap};
use crate::pairs::{as_map, distinct_names, lemma_entry, lemma_pushed, lemma_values_mapped, with_values};
use crate::state::State;
use crate::store::{enter_task, listing, outcome, Task, TaskStore};
use vstd::prelude::*;

verus! {

/// The state that a tag stands for; for a tag that stands for none, any.
pub open spec fn state_of_tag(tag: Seq<char>) -> State {
    State::with_tag(tag).unwrap()
}

/// A document's content for a list: each name with the tag of its state.
pub open spec fn tags_of(tasks: TaskMap) -> Tags {
    tasks.map_values(|state: State| state.tag_text())
}

/// The list that a document's content stands for: each name with the state
/// of its tag. Content with any other tag in it is malformed.
pub open spec fn tasks_of(tags: Tags) -> Result<TaskMap, StoreError> {
    if forall|name: Seq<char>| tags.contains_key(name) ==> State::with_tag(#[trigger] tags[name]) is Some {
        Ok(tags.map_values(|tag: Seq<char>| state_of_tag(tag)))
    } else {
        Err(StoreError::MalformedStorage)
    }
}

/// The list that entries of name and tag stand for. Entries with a name
/// twice, or with a tag that is neither `Done` nor `Undone`, are malformed.
pub open spec fn tasks_of_entries(entries: Seq<(Seq<char>, Seq<char>)>) -> Result<
    TaskMap,
    StoreError,
> {
    if distinct_names(entries) && forall|i: int|
        0 <= i < entries.len() ==> State::with_tag((#[trigger] entries[i]).1) is Some {
        Ok(as_map(with_values(entries, |tag: Seq<char>| state_of_tag(tag))))
    } else {
        Err(StoreError::MalformedStorage)
    }
}

/// The text of the document for a list, where the writer gives one; where it
/// fails, the document could not be written.
pub open spec fn written(tasks: TaskMap) -> Result<Seq<char>, StoreError> {
    match object_text(tags_of(tasks)) {
        Some(text) => Ok(text),
        None => Err(StoreError::IOFailure),
    }
}

/// The list that a text stands for: it has to be a JSON object from names
/// to tags, and each tag has to be `Done` or `Undone`.
pub open spec fn read(text: Seq<char>) -> Result<TaskMap, StoreError> {
    match object_tags(text) {
        Some(tags) => tasks_of(tags),
        None => Err(StoreError::MalformedStorage),
    }
}

/// Entries in which no name stands twice stand for the same list as their
/// map does.
pub proof fn lemma_entries_as_tags(entries: Seq<(Seq<char>, Seq<char>)>)
    requires
        distinct_names(entries),
    ensures
        tasks_of_entries(entries) == tasks_of(as_map(entries)),
{
    let tags = as_map(entries);
    let f = |tag: Seq<char>| state_of_tag(tag);
    lemma_values_mapped(entries, f);
    if tasks_of(tags) is Ok {
        assert forall|i: int| 0 <= i < entries.len() implies State::with_tag(
            (#[trigger] entries[i]).1,
        ) is Some by {
            lemma_entry(entries, i);
            assert(tags.contains_key(entries[i].0));
        }
    }
    if tasks_of_entries(entries) is Ok {
        assert forall|name: Seq<char>| tags.contains_key(name) implies State::with_tag(
            #[trigger] tags[name],
        ) is Some by {
            let k = crate::pairs::index_of(entries, name);
            lemma_entry(entries, k);
        }
    }
}

/// The names of a list's tasks, each with the tag of its state.
pub fn tag_entries(tasks: &TaskStore) -> (r: Vec<(String, String)>)
    ensures
        distinct_names(tagged(r@)),
        as_map(tagged(r@)) == tags_of(tasks@),
{
    let held = tasks.list();
    let mut r: Vec<(String, String)> = Vec::new();
    let ghost f = |state: State| state.tag_text();
    let mut i: usize = 0;
    while i < held.len()
        invariant
            i <= held.len(),
            f == (|state: State| state.tag_text()),
            tagged(r@) == with_values(listing(held@).take(i as int), f),
        decreases held.len() - i,
    {
        let ghost before = r@;
        r.push((held[i].name.clone(), held[i].state.tag().to_owned()));
        proof {
            assert(tagged(r@) =~= tagged(before).push((held[i as int].name@, f(held[i as int].state))));
            assert(tagged(r@) =~= with_values(listing(held@).take(i + 1), f));
        }
        i += 1;
    }
    proof {
        assert(listing(held@).take(i as int) =~= listing(held@));
        lemma_values_mapped(listing(held@), f);
    }
    r
}

/// The list that entries of name and tag stand for; `MalformedStorage`
/// where a name stands twice or a tag is neither `Done` nor `Undone`.
pub fn tasks_from_entries(entries: &Vec<(String, String)>) -> (r: Result<TaskStore, StoreError>)
    ensures
        outcome(r) == tasks_of_entries(tagged(entries@)),
{
    let mut tasks = TaskStore::new();
    let ghost f = |tag: Seq<char>| state_of_tag(tag);
    let mut i: usize = 0;
    while i < entries.len()
        invariant
            i <= entries.len(),
            f == (|tag: Seq<char>| state_of_tag(tag)),
            distinct_names(tagged(entries@).take(i as int)),
            forall|j: int| 0 <= j < i ==> State::with_tag((#[trigger] tagged(entries@)[j]).1) is Some,
            tasks@ == as_map(with_values(tagged(entries@).take(i as int), f)),
        decreases entries.len() - i,
    {
        let ghost seen = tagged(entries@).take(i as int);
        let ghost entry = tagged(entries@)[i as int];
        let state = match State::from_tag(entries[i].1.as_str()) {
            Some(state) => state,
            None => {
                return Err(StoreError::MalformedStorage);
            },
        };
        proof {
            lemma_values_mapped(seen, f);
        }
        tasks = match enter_task(tasks, Task { name: entries[i].0.clone(), state }) {
            Ok(tasks) => tasks,
            Err(_) => {
                proof {
                    let k = crate::pairs::index_of(seen, entry.0);
                    assert(tagged(entries@)[k].0 == tagged(entries@)[i as int].0);
                }
                return Err(StoreError::MalformedStorage);
            },
        };
        proof {
            let longer = tagged(entries@).take(i + 1);
            assert(longer =~= seen.push(entry));
            assert(with_values(longer, f) =~= with_values(seen, f).push((entry.0, f(entry.1))));
            assert(!crate::pairs::has_name(with_values(seen, f), entry.0));
            assert(!crate::pairs::has_name(seen, entry.0)) by {
                if crate::pairs::has_name(seen, entry.0) {
                    let k = crate::pairs::index_of(seen, entry.0);
                    assert(with_values(seen, f)[k].0 == entry.0);
                }
            }
            lemma_pushed(seen, entry);
            lemma_pushed(with_values(seen, f), (entry.0, f(entry.1)));
        }
        i += 1;
    }
    proof {
        assert(tagged(entries@).take(i as int) =~= tagged(entries@));
    }
    Ok(tasks)
}

/// The text under which a list is stored.
pub fn save_tasks(tasks: &TaskStore) -> (r: Result<String, StoreError>)
    ensures
        match r {
            Ok(text) => written(tasks@) == Ok::<Seq<char>, StoreError>(text@),
            Err(e) => written(tasks@) == Err::<Seq<char>, StoreError>(e),
        },
{
    let entries = tag_entries(tasks);
    match write_object(&entries) {
        Ok(text) => Ok(text),
        Err(_) => Err(StoreError::IOFailure),
    }
}

/// The list that a stored text holds.
pub fn read_tasks(text: &str) -> (r: Result<TaskStore, StoreError>)
    ensures
        outcome(r) == read(text@),
{
    match read_object(text) {
        Ok(entries) => {
            proof {
                lemma_entries_as_tags(tagged(entries@));
            }
            tasks_from_entries(&entries)
        },
        Err(_) => Err(StoreError::MalformedStorage),
    }
}

/// What was found at the storage location.
#[derive(Debug)]
pub enum Found {
    /// Nothing is stored there yet.
    Nothing,
    /// This text is stored there.
    Text(String),
    /// Something is stored there and could not be read.
    Unreadable,
}

/// What loading comes to: the list, and the text to store where nothing
/// was stored yet.
#[derive(Debug)]
pub struct Loaded {
    pub tasks: TaskStore,
    pub to_store: Option<String>,
}

impl View for Loaded {
    type V = (TaskMap, Option<Seq<char>>);

    open spec fn view(&self) -> (TaskMap, Option<Seq<char>>) {
        (
            self.tasks@,
            match self.to_store {
                Some(text) => Some(text@),
                None => None,
            },
        )
    }
}

/// Loading from what was found. A text found is read, and nothing is to be
/// stored. Where nothing was found, the list is the one a first run starts
/// with, and its text is to be stored. What could not be read is an
/// `IOFailure`.
pub open spec fn loaded(found: Found) -> Result<(TaskMap, Option<Seq<char>>), StoreError> {
    match found {
        Found::Text(text) => match read(text@) {
            Ok(tasks) => Ok((tasks, None)),
            Err(e) => Err(e),
        },
        Found::Nothing => match written(welcome_tasks()) {
            Ok(text) => Ok((welcome_tasks(), Some(text))),
            Err(e) => Err(e),
        },
        Found::Unreadable => Err(StoreError::IOFailure),
    }
}

/// Loads the list from what was found at the storage location.
pub fn load_tasks(found: &Found) -> (r: Result<Loaded, StoreError>)
    ensures
        match r {
            Ok(l) => loaded(*found) == Ok::<(TaskMap, Option<Seq<char>>), StoreError>(l@),
            Err(e) => loaded(*found) == Err::<(TaskMap, Option<Seq<char>>), StoreError>(e),
        },
{
    match found {
        Found::Text(text) => match read_tasks(text.as_str()) {
            Ok(tasks) => Ok(Loaded { tasks, to_store: None }),
            Err(e) => Err(e),
        },
        Found::Nothing => {
            let tasks = TaskStore::welcome();
            match save_tasks(&tasks) {
                Ok(text) => Ok(Loaded { tasks, to_store: Some(text) }),
                Err(e) => Err(e),
            }
        },
        Found::Unreadable => Err(StoreError::IOFailure),
    }
}

} // verus!
