//! A task list: named tasks, each done or undone, kept as one document.

pub mod command;
pub mod error;
pub mod json;
pub mod laws;
pub mod model;
pub mod pairs;
pub mod persist;
pub mod report;
pub mod state;
pub mod store;
pub mod text;

pub use store::{alternate_state, new_task, remove_task};
