//! The store as a mathematical object: a sequence of record values in
//! insertion order, and what each operation makes of it.

use vstd::prelude::*;
use crate::todo::TodoView;

verus! {

/// Some stored record carries `id`.
pub open spec fn has_id(s: Seq<TodoView>, id: nat) -> bool {
    exists|i: int| 0 <= i < s.len() && (#[trigger] s[i]).id == id
}

/// `i` is the position of the earliest record that carries `id`.
pub open spec fn is_first_with_id(s: Seq<TodoView>, id: nat, i: int) -> bool {
    &&& 0 <= i < s.len()
    &&& s[i].id == id
    &&& forall|j: int| 0 <= j < i ==> (#[trigger] s[j]).id != id
}

/// The position of the earliest record that carries `id`, where there is one.
pub open spec fn first_index(s: Seq<TodoView>, id: nat) -> int {
    choose|i: int| is_first_with_id(s, id, i)
}

/// The record that a lookup by `id` finds: the earliest one that carries it.
pub open spec fn lookup(s: Seq<TodoView>, id: nat) -> Option<TodoView> {
    if has_id(s, id) {
        Some(s[first_index(s, id)])
    } else {
        None
    }
}

/// The record that creation adds to `s`: its id is one more than the number
/// of records stored at that moment.
pub open spec fn next_record(s: Seq<TodoView>, title: Seq<char>) -> TodoView {
    TodoView { id: s.len() + 1, title, completed: false }
}

/// The store after a record with `title` was created.
pub open spec fn created(s: Seq<TodoView>, title: Seq<char>) -> Seq<TodoView> {
    s.push(next_record(s, title))
}

/// A record with the given fields replaced; an absent field stays as it is.
pub open spec fn revised(
    t: TodoView,
    title: Option<Seq<char>>,
    completed: Option<bool>,
) -> TodoView {
    TodoView {
        id: t.id,
        title: match title {
            Some(new_title) => new_title,
            None => t.title,
        },
        completed: match completed {
            Some(flag) => flag,
            None => t.completed,
        },
    }
}

/// The store after an update of the record found under `id`; without such a
/// record, the store as it was.
pub open spec fn updated(
    s: Seq<TodoView>,
    id: nat,
    title: Option<Seq<char>>,
    completed: Option<bool>,
) -> Seq<TodoView> {
    if has_id(s, id) {
        s.update(first_index(s, id), revised(s[first_index(s, id)], title, completed))
    } else {
        s
    }
}

/// The store after the record found under `id` was removed, the others
/// keeping their order; without such a record, the store as it was.
pub open spec fn deleted(s: Seq<TodoView>, id: nat) -> Seq<TodoView> {
    if has_id(s, id) {
        s.remove(first_index(s, id))
    } else {
        s
    }
}

/// No record's id is smaller than its one-based position. Creation numbers a
/// record by its position, and removals only move records forward.
pub open spec fn well_formed(s: Seq<TodoView>) -> bool {
    forall|i: int| 0 <= i < s.len() ==> (#[trigger] s[i]).id >= i + 1
}

/// Among the records that carry an id, one comes first.
pub proof fn lemma_first_exists(s: Seq<TodoView>, id: nat, i: int)
    requires
        0 <= i < s.len(),
        s[i].id == id,
    ensures
        exists|k: int| is_first_with_id(s, id, k),
    decreases i,
{
    if exists|j: int| 0 <= j < i && (#[trigger] s[j]).id == id {
        let j = choose|j: int| 0 <= j < i && (#[trigger] s[j]).id == id;
        lemma_first_exists(s, id, j);
    } else {
        assert(is_first_with_id(s, id, i));
    }
}

/// Where some record carries `id`, `first_index` is the position of the
/// earliest such record.
pub proof fn lemma_first_index(s: Seq<TodoView>, id: nat)
    requires
        has_id(s, id),
    ensures
        is_first_with_id(s, id, first_index(s, id)),
{
    let i = choose|i: int| 0 <= i < s.len() && (#[trigger] s[i]).id == id;
    lemma_first_exists(s, id, i);
}

/// The earliest position is unique: whatever position is earliest is
/// `first_index`.
pub proof fn lemma_first_index_is(s: Seq<TodoView>, id: nat, i: int)
    requires
        is_first_with_id(s, id, i),
    ensures
        has_id(s, id),
        first_index(s, id) == i,
{
    let k = first_index(s, id);
    assert(is_first_with_id(s, id, k));
    if k < i {
        assert(s[k].id != id);
    }
    if i < k {
        assert(s[i].id != id);
    }
}

/// Creation keeps a well-formed store well-formed: the new record stands at
/// the position that its id names.
pub proof fn lemma_created_well_formed(s: Seq<TodoView>, title: Seq<char>)
    requires
        well_formed(s),
    ensures
        well_formed(created(s, title)),
{
}

/// An update keeps a well-formed store well-formed: it moves no record and
/// changes no id.
pub proof fn lemma_updated_well_formed(
    s: Seq<TodoView>,
    id: nat,
    title: Option<Seq<char>>,
    completed: Option<bool>,
)
    requires
        well_formed(s),
    ensures
        well_formed(updated(s, id, title, completed)),
{
    if has_id(s, id) {
        lemma_first_index(s, id);
    }
}

/// A removal keeps a well-formed store well-formed: records only move
/// towards the front.
pub proof fn lemma_deleted_well_formed(s: Seq<TodoView>, id: nat)
    requires
        well_formed(s),
    ensures
        well_formed(deleted(s, id)),
{
    if has_id(s, id) {
        lemma_first_index(s, id);
        let k = first_index(s, id);
        let d = deleted(s, id);
        assert forall|i: int| 0 <= i < d.len() implies (#[trigger] d[i]).id >= i + 1 by {
            if i < k {
                assert(d[i] == s[i]);
            } else {
                assert(d[i] == s[i + 1]);
            }
        }
    }
}

} // verus!
