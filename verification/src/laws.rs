//! What holds of the store's operations, stated over the model and proved.

use vstd::prelude::*;
use crate::model::{
    created, deleted, first_index, has_id, is_first_with_id, lemma_first_index,
    lemma_first_index_is, lookup, next_record, revised, updated,
};
use crate::todo::TodoView;

verus! {

/// At most one stored record carries `id`.
pub open spec fn at_most_once(s: Seq<TodoView>, id: nat) -> bool {
    forall|i: int, j: int|
        0 <= i < s.len() && 0 <= j < s.len() && (#[trigger] s[i]).id == id && (#[trigger] s[j]).id
            == id ==> i == j
}

/// No two stored records carry the same id.
pub open spec fn distinct_ids(s: Seq<TodoView>) -> bool {
    forall|i: int, j: int|
        0 <= i < j < s.len() ==> (#[trigger] s[i]).id != (#[trigger] s[j]).id
}

/// Where no two records carry the same id, none is carried twice.
pub proof fn lemma_distinct_once(s: Seq<TodoView>, id: nat)
    requires
        distinct_ids(s),
    ensures
        at_most_once(s, id),
{
    assert forall|i: int, j: int|
        0 <= i < s.len() && 0 <= j < s.len() && (#[trigger] s[i]).id == id && (#[trigger] s[j]).id
            == id implies i == j by {
        if i < j {
            assert(s[i].id != s[j].id);
        }
        if j < i {
            assert(s[j].id != s[i].id);
        }
    }
}

/// The store that results from creating one record per title, in order,
/// starting from the empty store.
pub open spec fn creations(titles: Seq<Seq<char>>) -> Seq<TodoView>
    decreases titles.len(),
{
    if titles.len() == 0 {
        Seq::empty()
    } else {
        created(creations(titles.drop_last()), titles.last())
    }
}

/// Creating records from the empty store numbers them 1, 2, 3, ... in the
/// order of creation, none of them completed: the record made by call number
/// `k` (counting from zero) has id `k + 1`, and the store then holds exactly
/// these records, each with the title it was given.
pub proof fn lemma_creations_numbered(titles: Seq<Seq<char>>)
    ensures
        creations(titles).len() == titles.len(),
        forall|k: int|
            0 <= k < titles.len() ==> #[trigger] creations(titles)[k] == (TodoView {
                id: (k + 1) as nat,
                title: titles[k],
                completed: false,
            }),
        forall|k: int|
            0 <= k < titles.len() ==> #[trigger] next_record(
                creations(titles.take(k)),
                titles[k],
            ) == (TodoView { id: (k + 1) as nat, title: titles[k], completed: false }),
        distinct_ids(creations(titles)),
    decreases titles.len(),
{
    if titles.len() > 0 {
        let front = titles.drop_last();
        lemma_creations_numbered(front);
        assert forall|k: int| 0 <= k < titles.len() implies #[trigger] next_record(
            creations(titles.take(k)),
            titles[k],
        ) == (TodoView { id: (k + 1) as nat, title: titles[k], completed: false }) by {
            if k < front.len() {
                assert(titles.take(k) =~= front.take(k));
                assert(next_record(creations(front.take(k)), front[k]).id == k + 1);
            } else {
                assert(titles.take(k) =~= front);
            }
        }
    } else {
        assert forall|k: int| 0 <= k < titles.len() implies #[trigger] next_record(
            creations(titles.take(k)),
            titles[k],
        ) == (TodoView { id: (k + 1) as nat, title: titles[k], completed: false }) by {}
    }
}

/// A lookup right after a creation finds the new record under its id,
/// provided no record stored before carried that id already.
pub proof fn lemma_read_after_create(s: Seq<TodoView>, title: Seq<char>)
    requires
        !has_id(s, next_record(s, title).id),
    ensures
        lookup(created(s, title), next_record(s, title).id) == Some(next_record(s, title)),
{
    let id = next_record(s, title).id;
    let after = created(s, title);
    assert forall|j: int| 0 <= j < s.len() implies (#[trigger] after[j]).id != id by {
        assert(after[j] == s[j]);
    }
    lemma_first_index_is(after, id, s.len() as int);
}

/// A creation leaves what a lookup finds under any id that was already
/// stored, and under any id other than the new record's, as it was.
pub proof fn lemma_create_keeps_others(s: Seq<TodoView>, title: Seq<char>, id: nat)
    requires
        has_id(s, id) || id != next_record(s, title).id,
    ensures
        lookup(created(s, title), id) == lookup(s, id),
{
    let after = created(s, title);
    if has_id(s, id) {
        lemma_first_index(s, id);
        let k = first_index(s, id);
        assert(after[k] == s[k]);
        assert forall|j: int| 0 <= j < k implies (#[trigger] after[j]).id != id by {
            assert(after[j] == s[j]);
        }
        lemma_first_index_is(after, id, k);
    } else {
        assert forall|j: int| 0 <= j < after.len() implies (#[trigger] after[j]).id != id by {
            if j < s.len() {
                assert(after[j] == s[j]);
            }
        }
    }
}

/// A lookup right after an update finds the updated record: the one that a
/// lookup found before, with the given fields replaced.
pub proof fn lemma_read_after_update(
    s: Seq<TodoView>,
    id: nat,
    title: Option<Seq<char>>,
    completed: Option<bool>,
)
    requires
        has_id(s, id),
    ensures
        lookup(s, id) is Some,
        lookup(updated(s, id, title, completed), id) == Some(
            revised(lookup(s, id)->0, title, completed),
        ),
{
    lemma_first_index(s, id);
    let k = first_index(s, id);
    let after = updated(s, id, title, completed);
    assert forall|j: int| 0 <= j < k implies (#[trigger] after[j]).id != id by {
        assert(after[j] == s[j]);
    }
    lemma_first_index_is(after, id, k);
}

/// An update of one id leaves what a lookup finds under any other id as it
/// was.
pub proof fn lemma_update_keeps_others(
    s: Seq<TodoView>,
    id: nat,
    title: Option<Seq<char>>,
    completed: Option<bool>,
    other: nat,
)
    requires
        other != id,
    ensures
        lookup(updated(s, id, title, completed), other) == lookup(s, other),
{
    let after = updated(s, id, title, completed);
    if has_id(s, id) {
        lemma_first_index(s, id);
        let k = first_index(s, id);
        assert forall|j: int| 0 <= j < s.len() implies (#[trigger] after[j]).id == s[j].id by {}
        if has_id(s, other) {
            lemma_first_index(s, other);
            let m = first_index(s, other);
            assert(after[m] == s[m]);
            assert forall|j: int| 0 <= j < m implies (#[trigger] after[j]).id != other by {
                assert(after[j].id == s[j].id);
            }
            lemma_first_index_is(after, other, m);
        } else {
            assert forall|j: int| 0 <= j < after.len() implies (#[trigger] after[j]).id
                != other by {
                assert(after[j].id == s[j].id);
            }
        }
    }
}

/// An update that gives neither field leaves the store as it was, and the
/// record is still found.
pub proof fn lemma_update_nothing(s: Seq<TodoView>, id: nat)
    requires
        has_id(s, id),
    ensures
        updated(s, id, None, None) == s,
        lookup(updated(s, id, None, None), id) == lookup(s, id),
        lookup(s, id) is Some,
{
    lemma_first_index(s, id);
    assert(updated(s, id, None, None) =~= s);
}

/// An update under an id that no record carries finds nothing and leaves
/// every record as it was.
pub proof fn lemma_update_absent(
    s: Seq<TodoView>,
    id: nat,
    title: Option<Seq<char>>,
    completed: Option<bool>,
)
    requires
        !has_id(s, id),
    ensures
        lookup(s, id) is None,
        updated(s, id, title, completed) == s,
{
}

/// A removal under an id that no record carries leaves the store as it was:
/// the same records in the same order.
pub proof fn lemma_delete_absent(s: Seq<TodoView>, id: nat)
    requires
        !has_id(s, id),
    ensures
        deleted(s, id) == s,
{
}

/// A successful removal takes out one record: the store is one shorter, the
/// records before the removed one stay where they were, and those behind it
/// move up by one, unchanged.
pub proof fn lemma_delete_shape(s: Seq<TodoView>, id: nat)
    requires
        has_id(s, id),
    ensures
        is_first_with_id(s, id, first_index(s, id)),
        deleted(s, id).len() == s.len() - 1,
        forall|j: int| 0 <= j < first_index(s, id) ==> #[trigger] deleted(s, id)[j] == s[j],
        forall|j: int|
            first_index(s, id) <= j < s.len() - 1 ==> #[trigger] deleted(s, id)[j] == s[j + 1],
{
    lemma_first_index(s, id);
}

/// A lookup right after a removal under the same id finds nothing, provided
/// at most one record carried that id.
pub proof fn lemma_read_after_delete(s: Seq<TodoView>, id: nat)
    requires
        at_most_once(s, id),
    ensures
        lookup(deleted(s, id), id) is None,
{
    if has_id(s, id) {
        lemma_first_index(s, id);
        let k = first_index(s, id);
        let after = deleted(s, id);
        assert forall|j: int| 0 <= j < after.len() implies (#[trigger] after[j]).id != id by {
            if j < k {
                assert(after[j] == s[j]);
            } else {
                assert(after[j] == s[j + 1]);
                if s[j + 1].id == id {
                    assert(s[k].id == id);
                }
            }
        }
    }
}

/// A removal under one id leaves what a lookup finds under any other id as
/// it was.
pub proof fn lemma_delete_keeps_others(s: Seq<TodoView>, id: nat, other: nat)
    requires
        other != id,
    ensures
        lookup(deleted(s, id), other) == lookup(s, other),
{
    if has_id(s, id) {
        lemma_first_index(s, id);
        let k = first_index(s, id);
        let after = deleted(s, id);
        if has_id(s, other) {
            lemma_first_index(s, other);
            let m = first_index(s, other);
            let m2 = if m < k { m } else { m - 1 };
            assert(after[m2] == s[m]);
            assert forall|j: int| 0 <= j < m2 implies (#[trigger] after[j]).id != other by {
                if j < k {
                    assert(after[j] == s[j]);
                } else {
                    assert(after[j] == s[j + 1]);
                }
            }
            lemma_first_index_is(after, other, m2);
        } else {
            assert forall|j: int| 0 <= j < after.len() implies (#[trigger] after[j]).id
                != other by {
                if j < k {
                    assert(after[j] == s[j]);
                } else {
                    assert(after[j] == s[j + 1]);
                }
            }
        }
    }
}

} // verus!
