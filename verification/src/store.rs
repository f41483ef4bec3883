//! The store: the records in insertion order, with create, read, update,
//! delete and list.

use vstd::prelude::*;
use crate::model::{
    created, deleted, has_id, is_first_with_id, lemma_created_well_formed,
    lemma_deleted_well_formed, lemma_first_index_is, lemma_updated_well_formed, lookup,
    next_record, revised, updated, well_formed,
};
use crate::todo::{found_view, title_view, views, Todo, TodoView};

verus! {

/// The store of task records. It owns them, in insertion order.
pub struct TodoList {
    todos: Vec<Todo>,
}

impl View for TodoList {
    type V = Seq<TodoView>;

    closed spec fn view(&self) -> Seq<TodoView> {
        views(self.todos@)
    }
}

/// Replaces the title and the completed flag of the record at position `i`,
/// each only where a new value is given.
fn revise_at(todos: &mut Vec<Todo>, i: usize, title: Option<String>, completed: Option<bool>)
    requires
        i < old(todos)@.len(),
    ensures
        views(final(todos)@) == views(old(todos)@).update(
            i as int,
            revised(old(todos)@[i as int]@, title_view(title), completed),
        ),
    no_unwind
{
    if let Some(text) = title {
        todos[i].title = text;
    }
    if let Some(flag) = completed {
        todos[i].completed = flag;
    }
}

impl TodoList {
    #[verifier::type_invariant]
    spec fn inv(self) -> bool {
        well_formed(views(self.todos@))
    }

    /// An empty store.
    pub fn new() -> (list: TodoList)
        ensures
            list@ == Seq::<TodoView>::empty(),
            well_formed(list@),
    {
        TodoList { todos: Vec::new() }
    }

    /// The position of the earliest record that carries `id`, or the number
    /// of records where none does.
    fn position(&self, id: usize) -> (i: usize)
        ensures
            i <= self@.len(),
            i < self@.len() ==> is_first_with_id(self@, id as nat, i as int),
            i == self@.len() ==> !has_id(self@, id as nat),
    {
        let mut i: usize = 0;
        while i < self.todos.len()
            invariant
                i <= self.todos.len(),
                forall|j: int| 0 <= j < i ==> (#[trigger] self@[j]).id != id,
            decreases self.todos.len() - i,
        {
            if self.todos[i].id == id {
                return i;
            }
            i += 1;
        }
        i
    }

    /// Stores a new record with `title`, not completed, behind the others,
    /// and hands it out. Its id is one more than the number of records stored
    /// before the call.
    pub fn create(&mut self, title: String) -> (todo: &Todo)
        requires
            old(self)@.len() < usize::MAX,
        ensures
            final(self)@ == created(old(self)@, title@),
            todo@ == next_record(old(self)@, title@),
            well_formed(final(self)@),
    {
        proof {
            use_type_invariant(&*self);
        }
        let count = self.todos.len();
        let todo = Todo { id: count + 1, title, completed: false };
        let mut todos: Vec<Todo> = Vec::new();
        core::mem::swap(&mut self.todos, &mut todos);
        todos.push(todo);
        proof {
            assert(views(todos@) =~= created(old(self)@, title@));
            lemma_created_well_formed(old(self)@, title@);
        }
        self.todos = todos;
        &self.todos[count]
    }

    /// The record found under `id`: the earliest stored one that carries it.
    pub fn read(&self, id: usize) -> (found: Option<&Todo>)
        ensures
            found_view(found) == lookup(self@, id as nat),
            well_formed(self@),
    {
        proof {
            use_type_invariant(self);
        }
        let i = self.position(id);
        if i < self.todos.len() {
            proof {
                lemma_first_index_is(self@, id as nat, i as int);
            }
            Some(&self.todos[i])
        } else {
            None
        }
    }

    /// Replaces the title and the completed flag of the record found under
    /// `id`, each only where a new value is given, and hands that record out.
    /// Without such a record nothing changes and nothing is handed out.
    pub fn update(&mut self, id: usize, title: Option<String>, completed: Option<bool>) -> (found:
        Option<&Todo>)
        ensures
            final(self)@ == updated(old(self)@, id as nat, title_view(title), completed),
            found_view(found) == match lookup(old(self)@, id as nat) {
                Some(before) => Some(revised(before, title_view(title), completed)),
                None => None,
            },
            well_formed(final(self)@),
    {
        proof {
            use_type_invariant(&*self);
        }
        let i = self.position(id);
        if i < self.todos.len() {
            proof {
                lemma_first_index_is(self@, id as nat, i as int);
                lemma_updated_well_formed(self@, id as nat, title_view(title), completed);
            }
            revise_at(&mut self.todos, i, title, completed);
            assert(self.todos@.len() == views(self.todos@).len());
            assert(self.todos@[i as int]@ == views(self.todos@)[i as int]);
            return Some(&self.todos[i]);
        }
        None
    }

    /// Removes the record found under `id`; those behind it move up and keep
    /// their order. Says whether a record was removed.
    pub fn delete(&mut self, id: usize) -> (removed: bool)
        ensures
            removed == has_id(old(self)@, id as nat),
            final(self)@ == deleted(old(self)@, id as nat),
            well_formed(final(self)@),
    {
        proof {
            use_type_invariant(&*self);
        }
        let i = self.position(id);
        if i < self.todos.len() {
            proof {
                lemma_first_index_is(self@, id as nat, i as int);
            }
            let mut todos: Vec<Todo> = Vec::new();
            core::mem::swap(&mut self.todos, &mut todos);
            todos.remove(i);
            proof {
                assert(views(todos@) =~= deleted(old(self)@, id as nat));
                lemma_deleted_well_formed(old(self)@, id as nat);
            }
            self.todos = todos;
            return true;
        }
        false
    }

    /// All stored records, in insertion order.
    pub fn list(&self) -> (all: &Vec<Todo>)
        ensures
            views(all@) == self@,
            well_formed(self@),
    {
        proof {
            use_type_invariant(self);
        }
        &self.todos
    }
}

} // verus!
