//! A personal task list: the tasks, the operations that change a list of
//! them, the labels under which tasks are offered for selection, and the
//! stored form of a list.
//!
//! The library computes and nothing else. Whoever uses it reads and writes
//! the storage and asks the user; the library is handed what was read or
//! picked, and hands back the list or the text to write.

pub mod json;
pub mod label;
pub mod store;
pub mod task;
pub mod task_list;

pub use store::{read_todos, write_todos, StoreError, Stored};
pub use task::TodoItem;
