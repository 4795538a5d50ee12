//! A small task tracker: an ordered collection of tasks with add, remove,
//! edit, toggle and fuzzy search, each with a proved contract.

pub mod task;
pub mod decimal;
pub mod ops;
pub mod laws;
pub mod report;
pub mod search;
pub mod store;
