//! Decisions on the history of a repository.

pub mod constructs;
pub mod diff;
pub mod walker;
