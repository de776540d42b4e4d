//! The ways in which an operation on the task list can fail.

use vstd::prelude::*;

verus! {

/// Why an operation was refused.
#[derive(Clone, Copy, Debug, PartialEq, Eq, Structural)]
pub enum StoreError {
    /// A task of that name is already in the list.
    AlreadyExists,
    /// No task of that name is in the list.
    NotFound,
    /// The stored document is not a JSON object from names to state tags.
    MalformedStorage,
    /// The document could not be read or written.
    IOFailure,
}

impl StoreError {
    /// The sentence shown to the user for this error.
    pub open spec fn message_text(self) -> Seq<char> {
        match self {
            StoreError::AlreadyExists => "The task already exists"@,
            StoreError::NotFound => "The task doesn't exist"@,
            StoreError::MalformedStorage => "The stored tasks can't be understood"@,
            StoreError::IOFailure => "The stored tasks can't be read or written"@,
        }
    }

    /// The sentence shown to the user for this error.
    pub fn message(self) -> (r: &'static str)
        ensures
            r@ == self.message_text(),
    {
        match self {
            StoreError::AlreadyExists => "The task already exists",
            StoreError::NotFound => "The task doesn't exist",
            StoreError::MalformedStorage => "The stored tasks can't be understood",
            StoreError::IOFailure => "The stored tasks can't be read or written",
        }
    }
}

} // verus!
