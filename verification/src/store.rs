//! The attribute store of one object: names and values in the order in
//! which the names were first set.

use vstd::prelude::*;
use crate::literal::Literal;
use crate::object::Object;

verus! {

/// The entries of a store, oldest name first.
pub type Entries = Seq<(Literal, Object)>;

/// Where `key` stands among `entries`, if it does: the first such place.
pub open spec fn position(entries: Entries, key: Literal) -> Option<int>
    decreases entries.len(),
{
    if entries.len() == 0 {
        None
    } else {
        match position(entries.drop_last(), key) {
            Some(i) => Some(i),
            None => if entries.last().0 == key {
                Some(entries.len() - 1)
            } else {
                None
            },
        }
    }
}

/// The value stored under `key`.
pub open spec fn lookup(entries: Entries, key: Literal) -> Option<Object> {
    match position(entries, key) {
        Some(i) => Some(entries[i].1),
        None => None,
    }
}

/// The store after `key` is set to `value`: an old entry keeps its place,
/// a new one goes to the end.
pub open spec fn put(entries: Entries, key: Literal, value: Object) -> Entries {
    match position(entries, key) {
        Some(i) => entries.update(i, (key, value)),
        None => entries.push((key, value)),
    }
}

/// The store without `key`.
pub open spec fn del(entries: Entries, key: Literal) -> Entries {
    match position(entries, key) {
        Some(i) => entries.remove(i),
        None => entries,
    }
}

/// The names of a store, in its order.
pub open spec fn names(entries: Entries) -> Seq<Literal> {
    Seq::new(entries.len(), |i: int| entries[i].0)
}

/// No name stands twice.
pub open spec fn distinct(entries: Entries) -> bool {
    forall|i: int, j: int|
        0 <= i < entries.len() && 0 <= j < entries.len() && i != j ==> entries[i].0 != entries[j].0
}

/// What `position` finds is the first entry with that name; what it does
/// not find is nowhere.
pub proof fn position_is_first(entries: Entries, key: Literal)
    ensures
        match position(entries, key) {
            Some(i) => 0 <= i < entries.len() && entries[i].0 == key && forall|j: int|
                0 <= j < i ==> entries[j].0 != key,
            None => forall|j: int| 0 <= j < entries.len() ==> entries[j].0 != key,
        },
    decreases entries.len(),
{
    if entries.len() > 0 {
        let front = entries.drop_last();
        position_is_first(front, key);
        assert forall|j: int| 0 <= j < front.len() implies front[j] == entries[j] by {}
        match position(front, key) {
            Some(i) => {
                assert(front[i] == entries[i]);
            },
            None => {
                assert forall|j: int| 0 <= j < front.len() implies entries[j].0 != key by {
                    assert(front[j].0 != key);
                }
            },
        }
    }
}

/// The first entry with a name is where `position` points.
pub proof fn position_found(entries: Entries, key: Literal, i: int)
    requires
        0 <= i < entries.len(),
        entries[i].0 == key,
        forall|j: int| 0 <= j < i ==> entries[j].0 != key,
    ensures
        position(entries, key) == Some(i),
{
    position_is_first(entries, key);
}

/// A name that stands nowhere has no position.
pub proof fn position_absent(entries: Entries, key: Literal)
    requires
        forall|j: int| 0 <= j < entries.len() ==> entries[j].0 != key,
    ensures
        position(entries, key) is None,
{
    position_is_first(entries, key);
}

/// Setting a name keeps the names distinct.
pub proof fn put_keeps_distinct(entries: Entries, key: Literal, value: Object)
    requires
        distinct(entries),
    ensures
        distinct(put(entries, key, value)),
{
    position_is_first(entries, key);
}

/// Deleting a name keeps the names distinct.
pub proof fn del_keeps_distinct(entries: Entries, key: Literal)
    requires
        distinct(entries),
    ensures
        distinct(del(entries, key)),
{
    position_is_first(entries, key);
    let after = del(entries, key);
    match position(entries, key) {
        Some(p) => {
            assert forall|i: int, j: int|
                0 <= i < after.len() && 0 <= j < after.len() && i != j implies after[i].0
                != after[j].0 by {
                let a = if i < p { i } else { i + 1 };
                let b = if j < p { j } else { j + 1 };
                assert(after[i] == entries[a]);
                assert(after[j] == entries[b]);
            }
        },
        None => {},
    }
}

/// A name that was just set reads back as the value it was set to.
pub proof fn lookup_after_put(entries: Entries, key: Literal, value: Object)
    ensures
        lookup(put(entries, key, value), key) == Some(value),
{
    position_is_first(entries, key);
    let after = put(entries, key, value);
    match position(entries, key) {
        Some(p) => {
            position_found(after, key, p);
        },
        None => {
            position_found(after, key, entries.len() as int);
        },
    }
}

/// Setting one name leaves every other name as it was.
pub proof fn lookup_other_after_put(entries: Entries, key: Literal, value: Object, other: Literal)
    requires
        other != key,
    ensures
        lookup(put(entries, key, value), other) == lookup(entries, other),
{
    position_is_first(entries, key);
    position_is_first(entries, other);
    let after = put(entries, key, value);
    match position(entries, other) {
        Some(q) => {
            position_found(after, other, q);
        },
        None => {
            position_absent(after, other);
        },
    }
}

/// A deleted name is gone, where the names were distinct.
pub proof fn lookup_after_del(entries: Entries, key: Literal)
    requires
        distinct(entries),
    ensures
        lookup(del(entries, key), key) is None,
{
    position_is_first(entries, key);
    let after = del(entries, key);
    match position(entries, key) {
        Some(p) => {
            assert forall|j: int| 0 <= j < after.len() implies after[j].0 != key by {
                let a = if j < p { j } else { j + 1 };
                assert(after[j] == entries[a]);
            }
            position_absent(after, key);
        },
        None => {},
    }
}

} // verus!
