//! The completion state of a task and its tag in the stored document.

use crate::text::same_text;
use vstd::prelude::*;

verus! {

/// Whether a task has been completed.
#[derive(Clone, Copy, Debug, PartialEq, Eq, Structural)]
pub enum State {
    Done,
    Undone,
}

impl State {
    /// The other state.
    pub open spec fn flipped(self) -> State {
        match self {
            State::Done => State::Undone,
            State::Undone => State::Done,
        }
    }

    /// The tag that stands for this state in a stored document.
    pub open spec fn tag_text(self) -> Seq<char> {
        match self {
            State::Done => "Done"@,
            State::Undone => "Undone"@,
        }
    }

    /// The state that a tag stands for, if it is one of the two tags.
    pub open spec fn with_tag(tag: Seq<char>) -> Option<State> {
        if tag == "Done"@ {
            Some(State::Done)
        } else if tag == "Undone"@ {
            Some(State::Undone)
        } else {
            None
        }
    }

    /// Flips `Done` to `Undone` and back.
    pub fn toggled(self) -> (r: State)
        ensures
            r == self.flipped(),
    {
        match self {
            State::Done => State::Undone,
            State::Undone => State::Done,
        }
    }

    /// The tag under which this state is stored.
    pub fn tag(self) -> (r: &'static str)
        ensures
            r@ == self.tag_text(),
    {
        match self {
            State::Done => "Done",
            State::Undone => "Undone",
        }
    }

    /// Reads a tag back; any text but the two tags gives `None`.
    pub fn from_tag(tag: &str) -> (r: Option<State>)
        ensures
            r == State::with_tag(tag@),
    {
        if same_text(tag, "Done") {
            Some(State::Done)
        } else if same_text(tag, "Undone") {
            Some(State::Undone)
        } else {
            None
        }
    }
}

} // verus!
