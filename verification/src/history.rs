//! Stores as the outcome of a history of operations, and what a lookup
//! finds at the end of one.

use vstd::prelude::*;
use crate::laws::{
    at_most_once, lemma_create_keeps_others, lemma_delete_keeps_others,
    lemma_read_after_create, lemma_read_after_delete, lemma_read_after_update,
    lemma_update_keeps_others,
};
use crate::model::{
    created, deleted, first_index, has_id, lemma_created_well_formed, lemma_deleted_well_formed,
    lemma_first_index, lemma_updated_well_formed, lookup, next_record, revised, updated,
    well_formed,
};
use crate::todo::TodoView;

verus! {

/// An operation that changes the store.
pub enum Op {
    Create { title: Seq<char> },
    Update { id: nat, new_title: Option<Seq<char>>, new_completed: Option<bool> },
    Delete { id: nat },
}

/// The store after one operation.
pub open spec fn applied(s: Seq<TodoView>, op: Op) -> Seq<TodoView> {
    match op {
        Op::Create { title } => created(s, title),
        Op::Update { id, new_title, new_completed } => updated(s, id, new_title, new_completed),
        Op::Delete { id } => deleted(s, id),
    }
}

/// The store after a history of operations, starting from the empty store.
pub open spec fn run(ops: Seq<Op>) -> Seq<TodoView>
    decreases ops.len(),
{
    if ops.len() == 0 {
        Seq::empty()
    } else {
        applied(run(ops.drop_last()), ops.last())
    }
}

/// Operation number `k` of the history is a creation, and the record it
/// makes gets `id`.
pub open spec fn creates_id(ops: Seq<Op>, k: int, id: nat) -> bool {
    &&& 0 <= k < ops.len()
    &&& ops[k] is Create
    &&& run(ops.take(k)).len() + 1 == id
}

/// No creation in the history gives its record the id `id` while a stored
/// record carries it.
pub open spec fn collision_free(ops: Seq<Op>, id: nat) -> bool {
    forall|k: int| #[trigger] creates_id(ops, k, id) ==> !has_id(run(ops.take(k)), id)
}

/// The record that the history last produced under `id`: made by a creation
/// or changed by an update, and not removed since.
pub open spec fn last_written(ops: Seq<Op>, id: nat) -> Option<TodoView>
    decreases ops.len(),
{
    if ops.len() == 0 {
        None
    } else {
        let before = ops.drop_last();
        match ops.last() {
            Op::Create { title } => if run(before).len() + 1 == id {
                Some(next_record(run(before), title))
            } else {
                last_written(before, id)
            },
            Op::Update { id: target, new_title, new_completed } => if target == id {
                match last_written(before, id) {
                    Some(record) => Some(revised(record, new_title, new_completed)),
                    None => None,
                }
            } else {
                last_written(before, id)
            },
            Op::Delete { id: target } => if target == id {
                None
            } else {
                last_written(before, id)
            },
        }
    }
}

/// Every store that a history leads to is well-formed.
pub proof fn lemma_run_well_formed(ops: Seq<Op>)
    ensures
        well_formed(run(ops)),
    decreases ops.len(),
{
    if ops.len() > 0 {
        let s = run(ops.drop_last());
        lemma_run_well_formed(ops.drop_last());
        match ops.last() {
            Op::Create { title } => lemma_created_well_formed(s, title),
            Op::Update { id, new_title, new_completed } => lemma_updated_well_formed(
                s,
                id,
                new_title,
                new_completed,
            ),
            Op::Delete { id } => lemma_deleted_well_formed(s, id),
        }
    }
}

/// A record is stored only under an id that some creation of the history
/// gave out: under an id that was never created, a lookup finds nothing.
pub proof fn lemma_stored_was_created(ops: Seq<Op>, id: nat)
    requires
        has_id(run(ops), id),
    ensures
        exists|k: int| creates_id(ops, k, id),
    decreases ops.len(),
{
    if ops.len() > 0 {
        let before = ops.drop_last();
        let s = run(before);
        let after = run(ops);
        let i = choose|i: int| 0 <= i < after.len() && (#[trigger] after[i]).id == id;
        let last = ops.len() - 1;
        assert(ops.take(last) =~= before);
        if has_id(s, id) {
            lemma_stored_was_created(before, id);
            let k = choose|k: int| creates_id(before, k, id);
            assert(ops.take(k) =~= before.take(k));
            assert(creates_id(ops, k, id));
        } else {
            match ops.last() {
                Op::Create { title } => {
                    if i < s.len() {
                        assert(after[i] == s[i]);
                    }
                    assert(creates_id(ops, last, id));
                },
                Op::Update { id: target, new_title, new_completed } => {
                    if has_id(s, target) {
                        lemma_first_index(s, target);
                        assert(s[i].id == after[i].id);
                    }
                },
                Op::Delete { id: target } => {
                    if has_id(s, target) {
                        lemma_first_index(s, target);
                        if i < first_index(s, target) {
                            assert(after[i] == s[i]);
                        } else {
                            assert(after[i] == s[i + 1]);
                        }
                    }
                },
            }
        }
    }
}

/// A history without collisions on `id` stays so when its last operation is
/// left out.
pub proof fn lemma_prefix_collision_free(ops: Seq<Op>, id: nat)
    requires
        ops.len() > 0,
        collision_free(ops, id),
    ensures
        collision_free(ops.drop_last(), id),
{
    let before = ops.drop_last();
    assert forall|k: int| #[trigger] creates_id(before, k, id) implies !has_id(
        run(before.take(k)),
        id,
    ) by {
        assert(ops.take(k) =~= before.take(k));
        assert(creates_id(ops, k, id));
    }
}

/// At the end of a history without collisions on `id`, at most one stored
/// record carries `id`.
pub proof fn lemma_collision_free_once(ops: Seq<Op>, id: nat)
    requires
        collision_free(ops, id),
    ensures
        at_most_once(run(ops), id),
    decreases ops.len(),
{
    if ops.len() > 0 {
        let before = ops.drop_last();
        let s = run(before);
        let after = run(ops);
        let last = ops.len() - 1;
        assert(ops.take(last) =~= before);
        lemma_prefix_collision_free(ops, id);
        lemma_collision_free_once(before, id);
        match ops.last() {
            Op::Create { title } => {
                if s.len() + 1 == id {
                    assert(creates_id(ops, last, id));
                }
                assert forall|i: int, j: int|
                    0 <= i < after.len() && 0 <= j < after.len() && (#[trigger] after[i]).id == id
                        && (#[trigger] after[j]).id == id implies i == j by {
                    if i < s.len() {
                        assert(after[i] == s[i]);
                    }
                    if j < s.len() {
                        assert(after[j] == s[j]);
                    }
                }
            },
            Op::Update { id: target, new_title, new_completed } => {
                if has_id(s, target) {
                    lemma_first_index(s, target);
                    assert forall|i: int, j: int|
                        0 <= i < after.len() && 0 <= j < after.len() && (#[trigger] after[i]).id
                            == id && (#[trigger] after[j]).id == id implies i == j by {
                        assert(after[i].id == s[i].id);
                        assert(after[j].id == s[j].id);
                    }
                }
            },
            Op::Delete { id: target } => {
                if has_id(s, target) {
                    lemma_first_index(s, target);
                    let k = first_index(s, target);
                    assert forall|i: int, j: int|
                        0 <= i < after.len() && 0 <= j < after.len() && (#[trigger] after[i]).id
                            == id && (#[trigger] after[j]).id == id implies i == j by {
                        let i0 = if i < k { i } else { i + 1 };
                        let j0 = if j < k { j } else { j + 1 };
                        assert(after[i] == s[i0]);
                        assert(after[j] == s[j0]);
                    }
                }
            },
        }
    }
}

/// At the end of a history without collisions on `id`, a lookup under `id`
/// finds exactly the record that the history last produced under it, and
/// nothing where that record was removed or none was ever created.
pub proof fn lemma_read_finds_last_written(ops: Seq<Op>, id: nat)
    requires
        collision_free(ops, id),
    ensures
        lookup(run(ops), id) == last_written(ops, id),
    decreases ops.len(),
{
    if ops.len() > 0 {
        let before = ops.drop_last();
        let s = run(before);
        let last = ops.len() - 1;
        assert(ops.take(last) =~= before);
        lemma_prefix_collision_free(ops, id);
        lemma_read_finds_last_written(before, id);
        match ops.last() {
            Op::Create { title } => {
                if s.len() + 1 == id {
                    assert(creates_id(ops, last, id));
                    lemma_read_after_create(s, title);
                } else {
                    lemma_create_keeps_others(s, title, id);
                }
            },
            Op::Update { id: target, new_title, new_completed } => {
                if target == id {
                    if has_id(s, id) {
                        lemma_read_after_update(s, id, new_title, new_completed);
                    }
                } else {
                    lemma_update_keeps_others(s, target, new_title, new_completed, id);
                }
            },
            Op::Delete { id: target } => {
                if target == id {
                    lemma_collision_free_once(before, id);
                    lemma_read_after_delete(s, id);
                } else {
                    lemma_delete_keeps_others(s, target, id);
                }
            },
        }
    }
}

} // verus!
