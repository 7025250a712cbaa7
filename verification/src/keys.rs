//! The names an object answers to: its own, and those of its ancestors.

use vstd::prelude::*;
use crate::error::RuntimeError;
use crate::literal::Literal;
use crate::object::Object;
use crate::state::State;
use crate::runtime::Runtime;
use crate::store::names;
use crate::wellformed::own_names_ok;
use crate::wellformed::own_value_ok;

verus! {

/// `acc` followed by those of `more` that are not in it yet, each once,
/// in their order.
pub open spec fn merge(acc: Seq<Literal>, more: Seq<Literal>) -> Seq<Literal>
    decreases more.len(),
{
    if more.len() == 0 {
        acc
    } else {
        let front = merge(acc, more.drop_last());
        if front.contains(more.last()) {
            front
        } else {
            front.push(more.last())
        }
    }
}

/// The names of `obj` and of its ancestors: its own first, then what each
/// parent answers to, depth first, a name only where it first occurs.
pub open spec fn sem_keys(s: State, obj: Object, d: nat) -> Result<Seq<Literal>, RuntimeError>
    decreases d, 5nat, 0nat,
{
    let data = s.objects[obj.id as int];
    sem_keys_parents(s, obj, data.parents, 0, names(data.attrs), d)
}

/// The names gathered in `acc`, with those of `parents` from place `i`
/// on. A parent that is the object itself is passed over.
pub open spec fn sem_keys_parents(
    s: State,
    obj: Object,
    parents: Seq<Object>,
    i: int,
    acc: Seq<Literal>,
    d: nat,
) -> Result<Seq<Literal>, RuntimeError>
    decreases d, 4nat, parents.len() - i,
{
    if i < 0 || i >= parents.len() {
        Ok(acc)
    } else if parents[i] == obj {
        sem_keys_parents(s, obj, parents, i + 1, acc, d)
    } else if d == 0 {
        Err(RuntimeError::DepthExceeded)
    } else {
        match sem_keys(s, parents[i], (d - 1) as nat) {
            Ok(more) => sem_keys_parents(s, obj, parents, i + 1, merge(acc, more), d),
            Err(e) => Err(e),
        }
    }
}

/// The names of `obj`: its own, or its own and those of its ancestors.
pub open spec fn sem_mapping_keys(s: State, obj: Object, include_parents: bool, d: nat) -> Result<
    Seq<Literal>,
    RuntimeError,
> {
    if include_parents {
        sem_keys(s, obj, d)
    } else {
        Ok(names(s.objects[obj.id as int].attrs))
    }
}

/// Whether `key` is among `keys`.
pub fn holds(keys: &Vec<Literal>, key: Literal) -> (res: bool)
    ensures
        res == keys@.contains(key),
{
    let mut i: usize = 0;
    while i < keys.len()
        invariant
            i <= keys@.len(),
            forall|j: int| 0 <= j < i ==> keys@[j] != key,
        decreases keys@.len() - i,
    {
        if keys[i] == key {
            return true;
        }
        i = i + 1;
    }
    false
}

/// Appends to `acc` those of `more` that it does not hold yet.
pub fn merge_into(acc: &mut Vec<Literal>, more: &Vec<Literal>)
    ensures
        final(acc)@ == merge(old(acc)@, more@),
{
    let mut i: usize = 0;
    assert(more@.take(0) =~= Seq::empty());
    while i < more.len()
        invariant
            i <= more@.len(),
            acc@ == merge(old(acc)@, more@.take(i as int)),
        decreases more@.len() - i,
    {
        proof {
            let upto = more@.take(i + 1);
            assert(upto.drop_last() =~= more@.take(i as int));
            assert(upto.last() == more@[i as int]);
        }
        if !holds(acc, more[i]) {
            acc.push(more[i]);
        }
        i = i + 1;
    }
    assert(more@.take(more@.len() as int) =~= more@);
}

/// Every name that `merge` gives is one that it was given.
pub proof fn merge_members(acc: Seq<Literal>, more: Seq<Literal>)
    ensures
        forall|k: Literal|
            merge(acc, more).contains(k) <==> (acc.contains(k) || more.contains(k)),
        acc.len() <= merge(acc, more).len(),
        merge(acc, more).subrange(0, acc.len() as int) == acc,
        acc.no_duplicates() ==> merge(acc, more).no_duplicates(),
    decreases more.len(),
{
    if more.len() == 0 {
        assert(acc.subrange(0, acc.len() as int) =~= acc);
        assert forall|k: Literal| !more.contains(k) by {}
    } else {
        let front = merge(acc, more.drop_last());
        merge_members(acc, more.drop_last());
        let last = more.last();
        let all = merge(acc, more);
        assert forall|k: Literal| all.contains(k) <==> (acc.contains(k) || more.contains(k)) by {
            if more.contains(k) {
                let j = choose|j: int| 0 <= j < more.len() && more[j] == k;
                if j < more.len() - 1 {
                    assert(more.drop_last()[j] == k);
                    assert(more.drop_last().contains(k));
                }
            }
            if more.drop_last().contains(k) {
                let j = choose|j: int| 0 <= j < more.drop_last().len() && more.drop_last()[j] == k;
                assert(more[j] == k);
            }
            if front.contains(last) {
            } else {
                assert(all == front.push(last));
                assert(all[all.len() - 1] == last);
                if all.contains(k) {
                    let j = choose|j: int| 0 <= j < all.len() && all[j] == k;
                    if j < front.len() {
                        assert(front[j] == k);
                    } else {
                        assert(k == last);
                        assert(more[more.len() - 1] == k);
                    }
                }
                if front.contains(k) {
                    let j = choose|j: int| 0 <= j < front.len() && front[j] == k;
                    assert(all[j] == k);
                }
            }
        }
        assert(all.subrange(0, acc.len() as int) =~= front.subrange(0, acc.len() as int));
    }
}

impl Runtime {
    /// The names of `obj` and of its ancestors, following parents at most
    /// `fuel` deep.
    pub(crate) fn keys_within(&self, obj: Object, fuel: usize) -> (res: Result<Vec<Literal>, RuntimeError>)
        requires
            self.wf(),
            self@.has(obj),
        ensures
            match res {
                Ok(keys) => sem_keys(self@, obj, fuel as nat) == Ok::<Seq<Literal>, RuntimeError>(
                    keys@,
                ) && forall|i: int| 0 <= i < keys@.len() ==> self@.knows(#[trigger] keys@[i]),
                Err(e) => sem_keys(self@, obj, fuel as nat) == Err::<Seq<Literal>, RuntimeError>(e),
            },
        decreases fuel, 5nat, 0nat,
    {
        let mut acc = self.own_keys(obj);
        let parents = self.parents(obj);
        proof {
            own_names_ok(self@, obj);
            own_value_ok(self@, obj, Literal { index: 0 });
        }
        let ghost goal = sem_keys(self@, obj, fuel as nat);
        let mut i: usize = 0;
        while i < parents.len()
            invariant
                i <= parents@.len(),
                self.wf(),
                self@.has_all(parents@),
                goal == sem_keys(self@, obj, fuel as nat),
                goal == sem_keys_parents(self@, obj, parents@, i as int, acc@, fuel as nat),
                forall|j: int| 0 <= j < acc@.len() ==> self@.knows(#[trigger] acc@[j]),
            decreases parents@.len() - i,
        {
            let p = parents[i];
            if !(p == obj) {
                if fuel == 0 {
                    return Err(RuntimeError::DepthExceeded);
                }
                assert(self@.has(parents@[i as int]));
                match self.keys_within(p, fuel - 1) {
                    Ok(more) => {
                        let ghost before = acc@;
                        merge_into(&mut acc, &more);
                        proof {
                            merge_members(before, more@);
                            assert forall|j: int| 0 <= j < acc@.len() implies self@.knows(
                                #[trigger] acc@[j],
                            ) by {
                                let k = acc@[j];
                                assert(acc@.contains(k));
                                if before.contains(k) {
                                    let a = choose|a: int| 0 <= a < before.len() && before[a] == k;
                                    assert(self@.knows(before[a]));
                                } else {
                                    let a = choose|a: int| 0 <= a < more@.len() && more@[a] == k;
                                    assert(self@.knows(more@[a]));
                                }
                            }
                        }
                    },
                    Err(e) => {
                        return Err(e);
                    },
                }
            }
            i = i + 1;
        }
        Ok(acc)
    }

    /// The names of `obj`: those it stores itself, oldest first, and,
    /// where `include_parents` is set, after them those of its ancestors,
    /// depth first, each name once.
    pub fn mapping_keys(&self, obj: Object, include_parents: bool) -> (res: Result<
        Vec<Literal>,
        RuntimeError,
    >)
        requires
            self.wf(),
            self@.has(obj),
        ensures
            match res {
                Ok(keys) => sem_mapping_keys(self@, obj, include_parents, self.remaining()) == Ok::<
                    Seq<Literal>,
                    RuntimeError,
                >(keys@) && forall|i: int|
                    0 <= i < keys@.len() ==> self@.knows(#[trigger] keys@[i]),
                Err(e) => sem_mapping_keys(self@, obj, include_parents, self.remaining()) == Err::<
                    Seq<Literal>,
                    RuntimeError,
                >(e),
            },
            !include_parents ==> res is Ok,
    {
        if include_parents {
            self.keys_within(obj, self.remaining_depth())
        } else {
            proof {
                own_names_ok(self@, obj);
            }
            Ok(self.own_keys(obj))
        }
    }
}

} // verus!
