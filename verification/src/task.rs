//! The task, the only entity of the list, and its mathematical view.

use vstd::prelude::*;

verus! {

/// A single to-do item.
#[derive(Debug)]
pub struct TodoItem {
    /// Identifier, unique within a list and never given out twice.
    pub id: usize,
    /// What is to be done.
    pub task: String,
    /// Whether the task has been completed.
    pub completed: bool,
}

/// What a [`TodoItem`] stands for: its identifier as a natural number, its
/// description as a sequence of characters, and its completion flag.
pub struct TaskView {
    /// The identifier.
    pub id: nat,
    /// The characters of the description.
    pub task: Seq<char>,
    /// Whether the task has been completed.
    pub completed: bool,
}

impl View for TodoItem {
    type V = TaskView;

    open spec fn view(&self) -> TaskView {
        TaskView { id: self.id as nat, task: self.task@, completed: self.completed }
    }
}

/// The list that a sequence of items stands for, item by item and in order.
pub open spec fn list_view(items: Seq<TodoItem>) -> Seq<TaskView> {
    items.map_values(|t: TodoItem| t@)
}

} // verus!
