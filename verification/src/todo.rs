//! The task record and its mathematical view.

use vstd::prelude::*;

verus! {

/// What a task record is, as a value: its id, the characters of its title,
/// and whether it is done.
pub struct TodoView {
    pub id: nat,
    pub title: Seq<char>,
    pub completed: bool,
}

/// A single task record.
#[derive(Debug, Clone, PartialEq, Eq)]
pub struct Todo {
    pub id: usize,
    pub title: String,
    pub completed: bool,
}

impl View for Todo {
    type V = TodoView;

    open spec fn view(&self) -> TodoView {
        TodoView { id: self.id as nat, title: self.title@, completed: self.completed }
    }
}

/// The values of a run of records, in order.
pub open spec fn views(v: Seq<Todo>) -> Seq<TodoView> {
    v.map_values(|t: Todo| t@)
}

/// The value of the record that a lookup handed out, if it found one.
pub open spec fn found_view(found: Option<&Todo>) -> Option<TodoView> {
    match found {
        Some(todo) => Some(todo@),
        None => None,
    }
}

/// The characters of a title, where one was given.
pub open spec fn title_view(title: Option<String>) -> Option<Seq<char>> {
    match title {
        Some(text) => Some(text@),
        None => None,
    }
}

} // verus!
