//! An in-memory todo list: a store of task records with create, read,
//! update, delete and list operations, each with a verified contract.

pub mod history;
pub mod input;
pub mod laws;
pub mod model;
pub mod shell;
pub mod store;
pub mod todo;
