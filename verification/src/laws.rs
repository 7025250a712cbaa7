//! What holds of the runtime whatever it is asked: laws of resolution,
//! binding and the registry, each proved of the meaning of the operations.

use vstd::prelude::*;
use crate::class::Builtin;
use crate::class::Class;
use crate::class::Function;
use crate::class::method_names_distinct;
use crate::class::name_is_no_method;
use crate::error::RuntimeError;
use crate::keys::merge;
use crate::keys::merge_members;
use crate::keys::sem_keys;
use crate::keys::sem_keys_parents;
use crate::keys::sem_mapping_keys;
use crate::literal::is_special;
use crate::literal::reserved_names_distinct;
use crate::literal::RESERVED;
use crate::literal::Literal;
use crate::literal::ATTR_MISSING;
use crate::literal::BOUND_OBJECT;
use crate::literal::BOUND_OWNER;
use crate::literal::CALL;
use crate::literal::ID;
use crate::literal::PARENTS;
use crate::literal::STACK;
use crate::literal::THIS;
use crate::literal::NAME;
use crate::object::Object;
use crate::object::PayloadView;
use crate::semantics::sem_apply;
use crate::semantics::sem_bound_call;
use crate::semantics::sem_call_attr;
use crate::semantics::sem_del_attr;
use crate::semantics::sem_dispatch;
use crate::semantics::sem_get;
use crate::semantics::sem_hook;
use crate::semantics::sem_instance_exec;
use crate::semantics::sem_parents;
use crate::semantics::sem_resolve;
use crate::semantics::sem_scoped_call;
use crate::semantics::sem_set_attr;
use crate::semantics::Found;
use crate::semantics::Origin;
use crate::registry::sem_initialize;
use crate::registry::sem_install;
use crate::state::owners;
use crate::state::symbol_position;
use crate::state::State;
use crate::wellformed::class_of_keeps;
use crate::wellformed::class_of_wf;
use crate::wellformed::instantiate_keeps;
use crate::wellformed::instantiate_wf;
use crate::wellformed::intern_wf;
use crate::wellformed::own_value_ok;
use crate::wellformed::set_own_wf;
use crate::wellformed::symbol_position_sound;
use crate::wellformed::with_claim_wf;
use crate::store::names;
use crate::store::position_absent;
use crate::store::lookup_after_del;
use crate::store::lookup_after_put;
use crate::store::lookup_other_after_put;

verus! {

/// The identity of an object cannot be overwritten. A write to `id` is
/// accepted, and a read of `id` still gives a number that holds the
/// identity the object was made with: the newest object of the state after
/// the read.
pub proof fn id_is_immutable(s: State, o: Object, x: Object, d: nat)
    requires
        s.wf(),
        s.has(o),
        s.has(x),
    ensures
        sem_set_attr(s, o, Literal { index: ID }, x).1 is Ok,
        ({
            let written = sem_set_attr(s, o, Literal { index: ID }, x).0;
            let (after, read) = sem_get(written, o, Literal { index: ID }, d);
            &&& read == Ok::<Object, RuntimeError>(
                Object { id: (after.objects.len() - 1) as usize },
            )
            &&& after.objects.last().payload == PayloadView::Number(o.id as i128)
        }),
{
}

/// Writing goes to the receiver's own store and nowhere else. After `a`
/// is given `value` under `key`, reading `key` on `a` gives `value`
/// whatever the parents of `a` hold, and every other object stores what
/// it stored before.
pub proof fn writes_stay_in_own_store(s: State, a: Object, key: Literal, value: Object, d: nat)
    requires
        s.wf(),
        s.has(a),
        s.knows(key),
        s.has(value),
        !is_special(key),
    ensures
        sem_set_attr(s, a, key, value).1 is Ok,
        ({
            let written = sem_set_attr(s, a, key, value).0;
            &&& sem_get(written, a, key, d) == (written, Ok::<Object, RuntimeError>(value))
            &&& written.objects.len() == s.objects.len()
            &&& forall|b: Object| s.has(b) && b != a ==> written.objects[b.id as int] == s.objects[b.id as int]
            &&& written.objects[a.id as int].parents == s.objects[a.id as int].parents
            &&& forall|other: Literal|
                other != key ==> written.get_own(a, other) == s.get_own(a, other)
        }),
{
    let written = sem_set_attr(s, a, key, value).0;
    lookup_after_put(s.objects[a.id as int].attrs, key, value);
    assert forall|other: Literal| other != key implies written.get_own(a, other) == s.get_own(
        a,
        other,
    ) by {
        lookup_other_after_put(s.objects[a.id as int].attrs, key, value, other);
    }
}

/// What an object stores itself is what a read gives, whoever else was
/// written to: a write to a child leaves what is read on the parent.
pub proof fn own_value_is_read(s: State, b: Object, key: Literal, d: nat)
    requires
        !is_special(key),
        s.get_own(b, key) is Some,
    ensures
        sem_get(s, b, key, d) == (s, Ok::<Object, RuntimeError>(s.get_own(b, key).unwrap())),
{
}

/// Looking for the hook changes nothing.
pub proof fn hook_lookup_is_pure(s: State, obj: Object, d: nat)
    ensures
        sem_resolve(s, obj, Literal { index: ATTR_MISSING }, d).0 == s,
    decreases d, 10nat, 0nat,
{
    let key = Literal { index: ATTR_MISSING };
    if s.get_own(obj, key) is None {
        hook_lookup_in_parents_is_pure(s, obj, s.objects[obj.id as int].parents, 0, d);
    }
}

/// Looking for the hook among the parents changes nothing.
pub proof fn hook_lookup_in_parents_is_pure(
    s: State,
    obj: Object,
    parents: Seq<Object>,
    i: int,
    d: nat,
)
    ensures
        sem_parents(s, obj, Literal { index: ATTR_MISSING }, parents, i, d).0 == s,
    decreases d, 5nat, parents.len() - i,
{
    let key = Literal { index: ATTR_MISSING };
    if 0 <= i < parents.len() {
        if parents[i] == obj {
            hook_lookup_in_parents_is_pure(s, obj, parents, i + 1, d);
        } else if d > 0 {
            hook_lookup_is_pure(s, parents[i], (d - 1) as nat);
            hook_lookup_in_parents_is_pure(s, obj, parents, i + 1, d);
        }
    }
}

/// The search is depth first, and the first parent wins. Where `a` does
/// not store `key` and neither defines nor inherits a hook, what the first
/// parent `b` of `a` resolves `key` to, by its own store, its hook or its
/// own parents, is what `a` resolves it to, found by inheritance: whatever
/// the later parents of `a` hold.
pub proof fn first_parent_wins(s: State, a: Object, b: Object, key: Literal, d: nat)
    requires
        !is_special(key),
        key.index != ATTR_MISSING,
        d >= 1,
        s.get_own(a, key) is None,
        s.objects[a.id as int].parents.len() >= 1,
        s.objects[a.id as int].parents[0] == b,
        b != a,
        sem_resolve(s, b, key, (d - 1) as nat).1 is Ok,
        sem_resolve(s, a, Literal { index: ATTR_MISSING }, d).1 matches Err(
            RuntimeError::MissingAttribute { .. },
        ),
    ensures
        ({
            let (left, found) = sem_resolve(s, b, key, (d - 1) as nat);
            &&& sem_resolve(s, a, key, d) == (
                left,
                Ok::<Found, RuntimeError>(
                    Found { value: found.unwrap().value, origin: Origin::Inherited },
                ),
            )
            &&& sem_get(s, a, key, d) == (left, Ok::<Object, RuntimeError>(found.unwrap().value))
            &&& s.get_own(b, key) matches Some(v) ==> left == s && found.unwrap().value == v
        }),
{
    hook_lookup_is_pure(s, a, d);
    let hooked = sem_hook(s, a, key, d);
    assert(hooked == (s, Ok::<Option<Object>, RuntimeError>(None)));
    let parents = s.objects[a.id as int].parents;
    let (left, found) = sem_resolve(s, b, key, (d - 1) as nat);
    assert(sem_parents(s, a, key, parents, 0, d) == (
        left,
        Ok::<Found, RuntimeError>(Found { value: found.unwrap().value, origin: Origin::Inherited }),
    ));
}

/// The reserved names are answered by the runtime, whatever the stores
/// hold: `this` is the owner of the active frame, `parents` is a new list
/// of the parents, and `stack` is a new list of the owners of all frames,
/// the active one first.
pub proof fn specials_ignore_the_stores(s: State, obj: Object, d: nat)
    ensures
        s.stack.len() > 0 ==> sem_get(s, obj, Literal { index: THIS }, d) == (
            s,
            Ok::<Object, RuntimeError>(s.stack.last().owner),
        ),
        s.stack.len() == 0 ==> sem_get(s, obj, Literal { index: THIS }, d) == (
            s,
            Err::<Object, RuntimeError>(
                RuntimeError::MissingAttribute { key: Literal { index: THIS }, receiver: obj },
            ),
        ),
        sem_get(s, obj, Literal { index: PARENTS }, d).1 is Ok,
        sem_get(s, obj, Literal { index: PARENTS }, d).0.objects.last().payload
            == PayloadView::List(s.objects[obj.id as int].parents),
        sem_get(s, obj, Literal { index: STACK }, d).1 is Ok,
        sem_get(s, obj, Literal { index: STACK }, d).0.objects.last().payload == PayloadView::List(
            owners(s.stack),
        ),
{
}

/// Calling a bound method with some arguments is calling the callable it
/// wraps with the remembered receiver before those arguments.
pub proof fn bound_call_prepends_owner(
    s: State,
    bound: Object,
    owner: Object,
    callable: Object,
    args: Seq<Object>,
    d: nat,
)
    requires
        s.get_own(bound, Literal { index: BOUND_OWNER }) == Some(owner),
        s.get_own(bound, Literal { index: BOUND_OBJECT }) == Some(callable),
    ensures
        sem_bound_call(s, bound, args, d) == sem_call_attr(
            s,
            callable,
            Literal { index: CALL },
            seq![owner] + args,
            d,
        ),
{
}

/// A scoped call leaves the stack as it found it wherever the call inside
/// does, whether that call succeeds or fails.
pub proof fn scoped_call_keeps_stack(s: State, this: Object, args: Seq<Object>, d: nat)
    requires
        args.len() > 0,
        ({
            let entered = s.push_frame(this, Seq::empty());
            sem_scoped_call(entered, args[0], d).0.stack == entered.stack
        }),
    ensures
        sem_instance_exec(s, this, args, d).0.stack == s.stack,
{
    let entered = s.push_frame(this, Seq::empty());
    assert(entered.stack.drop_last() =~= s.stack);
}

/// Whether `k` is among the names that `p` answers to.
pub open spec fn answers(s: State, p: Object, k: Literal, d: nat) -> bool {
    match sem_keys(s, p, d) {
        Ok(more) => more.contains(k),
        Err(_) => false,
    }
}

/// Whether some parent of `obj` from place `i` on, other than `obj`
/// itself, answers to `k`.
pub open spec fn some_parent_answers(
    s: State,
    obj: Object,
    parents: Seq<Object>,
    i: int,
    k: Literal,
    d: nat,
) -> bool {
    exists|j: int|
        i <= j < parents.len() && parents[j] != obj && #[trigger] answers(
            s,
            parents[j],
            k,
            (d - 1) as nat,
        )
}

/// Gathering the names of the parents keeps what was gathered in front,
/// lets no name in twice, and adds exactly the names that some parent
/// answers to.
pub proof fn gathered_names(
    s: State,
    obj: Object,
    parents: Seq<Object>,
    i: int,
    acc: Seq<Literal>,
    d: nat,
)
    requires
        0 <= i <= parents.len(),
        acc.no_duplicates(),
    ensures
        sem_keys_parents(s, obj, parents, i, acc, d) matches Ok(ks) ==> {
            &&& ks.no_duplicates()
            &&& acc.len() <= ks.len()
            &&& ks.subrange(0, acc.len() as int) == acc
            &&& forall|k: Literal|
                ks.contains(k) <==> (acc.contains(k) || some_parent_answers(s, obj, parents, i, k, d))
        },
    decreases parents.len() - i,
{
    if i >= parents.len() {
        assert(acc.subrange(0, acc.len() as int) =~= acc);
    } else if parents[i] == obj {
        gathered_names(s, obj, parents, i + 1, acc, d);
        match sem_keys_parents(s, obj, parents, i, acc, d) {
            Ok(ks) => {
                assert forall|k: Literal|
                    some_parent_answers(s, obj, parents, i, k, d) <==> some_parent_answers(
                        s,
                        obj,
                        parents,
                        i + 1,
                        k,
                        d,
                    ) by {}
            },
            Err(_) => {},
        }
    } else if d > 0 {
        match sem_keys(s, parents[i], (d - 1) as nat) {
            Ok(more) => {
                let next = merge(acc, more);
                merge_members(acc, more);
                gathered_names(s, obj, parents, i + 1, next, d);
                match sem_keys_parents(s, obj, parents, i, acc, d) {
                    Ok(ks) => {
                        assert(ks.subrange(0, acc.len() as int) =~= ks.subrange(
                            0,
                            next.len() as int,
                        ).subrange(0, acc.len() as int));
                        assert forall|k: Literal|
                            ks.contains(k) <==> (acc.contains(k) || some_parent_answers(
                                s,
                                obj,
                                parents,
                                i,
                                k,
                                d,
                            )) by {
                            if some_parent_answers(s, obj, parents, i + 1, k, d) {
                                assert(some_parent_answers(s, obj, parents, i, k, d));
                            }
                            if more.contains(k) {
                                assert(answers(s, parents[i], k, (d - 1) as nat));
                                assert(some_parent_answers(s, obj, parents, i, k, d));
                            }
                            if some_parent_answers(s, obj, parents, i, k, d) {
                                let j = choose|j: int|
                                    i <= j < parents.len() && parents[j] != obj
                                        && #[trigger] answers(s, parents[j], k, (d - 1) as nat);
                                if j == i {
                                    assert(more.contains(k));
                                } else {
                                    assert(some_parent_answers(s, obj, parents, i + 1, k, d));
                                }
                            }
                        }
                    },
                    Err(_) => {},
                }
            },
            Err(_) => {},
        }
    }
}

/// The names an object answers to. Without the parents they are exactly
/// the names it stores itself, in the order in which they were first set.
/// With the parents, those names come first, no name comes twice, and a
/// name is among them exactly when the object stores it or some parent
/// answers to it.
pub proof fn keys_are_own_then_inherited(s: State, obj: Object, d: nat)
    requires
        s.wf(),
        s.has(obj),
    ensures
        sem_mapping_keys(s, obj, false, d) == Ok::<Seq<Literal>, RuntimeError>(
            names(s.objects[obj.id as int].attrs),
        ),
        names(s.objects[obj.id as int].attrs).no_duplicates(),
        sem_mapping_keys(s, obj, true, d) matches Ok(ks) ==> {
            let own = names(s.objects[obj.id as int].attrs);
            &&& ks.no_duplicates()
            &&& own.len() <= ks.len()
            &&& ks.subrange(0, own.len() as int) == own
            &&& forall|k: Literal|
                ks.contains(k) <==> (own.contains(k) || some_parent_answers(
                    s,
                    obj,
                    s.objects[obj.id as int].parents,
                    0,
                    k,
                    d,
                ))
        },
{
    let data = s.objects[obj.id as int];
    assert(s.object_ok(data));
    let own = names(data.attrs);
    assert(own.no_duplicates());
    gathered_names(s, obj, data.parents, 0, own, d);
}


/// Installing methods keeps the state well formed and loses nothing.
pub proof fn install_keeps_wf(s: State, cls: Object, table: Seq<(Seq<char>, Builtin)>)
    requires
        s.wf(),
        s.has(cls),
    ensures
        sem_install(s, cls, table).wf(),
        sem_install(s, cls, table).extends(s),
        sem_install(s, cls, table).has(cls),
    decreases table.len(),
{
    if table.len() > 0 {
        let s1 = sem_install(s, cls, table.drop_last());
        install_keeps_wf(s, cls, table.drop_last());
        intern_wf(s1, table.last().0);
        let (s2, k) = s1.intern(table.last().0);
        let payload = PayloadView::Function(Function::Native(table.last().1));
        instantiate_wf(s2, Class::Function, payload);
        let (s3, f) = s2.instantiate(Class::Function, payload);
        set_own_wf(s3, cls, k, f);
    }
}

/// Initializing a class keeps the state well formed and leaves the class
/// claimed.
pub proof fn initialize_claims(s: State, c: Class)
    requires
        s.wf(),
    ensures
        sem_initialize(s, c).wf(),
        sem_initialize(s, c).extends(s),
        sem_initialize(s, c).classes[c.slot()].claimed,
{
    if !s.classes[c.slot()].claimed {
        with_claim_wf(s, c);
        let claimed = s.with_claim(c);
        class_of_wf(claimed, c);
        let (s1, cls) = claimed.class_of(c);
        instantiate_wf(s1, Class::Text, PayloadView::Text(c.title()));
        let (s2, title) = s1.instantiate(Class::Text, PayloadView::Text(c.title()));
        set_own_wf(s2, cls, Literal { index: NAME }, title);
        let s3 = s2.set_own(cls, Literal { index: NAME }, title);
        install_keeps_wf(s3, cls, c.methods());
    }
}

/// Initializing a class a second time changes nothing: the methods are
/// installed once, however often the class is initialized.
pub proof fn initialize_is_idempotent(s: State, c: Class)
    requires
        s.wf(),
    ensures
        sem_initialize(sem_initialize(s, c), c) == sem_initialize(s, c),
{
    initialize_claims(s, c);
}


/// Literals are equal exactly when their texts are: interning one text
/// twice gives one literal, and two texts give two.
pub proof fn literals_are_equal_as_texts(s: State, a: Seq<char>, b: Seq<char>)
    requires
        s.wf(),
        s.symbols.len() + 2 <= usize::MAX,
    ensures
        ({
            let (s1, ka) = s.intern(a);
            let (s2, kb) = s1.intern(b);
            &&& (ka == kb) <==> (a == b)
            &&& s2.symbols[ka.index as int] == a
            &&& s2.symbols[kb.index as int] == b
        }),
{
    symbol_position_sound(s.symbols, a);
    let (s1, ka) = s.intern(a);
    symbol_position_sound(s1.symbols, b);
}


/// Whether `cls` stores, under the literal of `name`, a function object
/// that carries the method `b`.
pub open spec fn has_method(t: State, cls: Object, name: Seq<char>, b: Builtin) -> bool {
    match symbol_position(t.symbols, name) {
        Some(p) => match t.get_own(cls, Literal { index: p as usize }) {
            Some(f) => t.has(f) && t.objects[f.id as int].payload == PayloadView::Function(
                Function::Native(b),
            ),
            None => false,
        },
        None => false,
    }
}

/// After the methods of a table are installed, each of them is there.
pub proof fn install_has_methods(s0: State, cls: Object, table: Seq<(Seq<char>, Builtin)>, j: int)
    requires
        s0.wf(),
        s0.has(cls),
        forall|a: int, b: int|
            0 <= a < table.len() && 0 <= b < table.len() && a != b ==> table[a].0 != table[b].0,
        0 <= j < table.len(),
        sem_install(s0, cls, table).fits(),
    ensures
        has_method(sem_install(s0, cls, table), cls, table[j].0, table[j].1),
    decreases table.len(),
{
    let front = table.drop_last();
    let s1 = sem_install(s0, cls, front);
    install_keeps_wf(s0, cls, front);
    let name = table.last().0;
    let payload = PayloadView::Function(Function::Native(table.last().1));
    intern_wf(s1, name);
    symbol_position_sound(s1.symbols, name);
    let (s2, k) = s1.intern(name);
    instantiate_wf(s2, Class::Function, payload);
    instantiate_keeps(s2, Class::Function, payload);
    let (s3, f) = s2.instantiate(Class::Function, payload);
    set_own_wf(s3, cls, k, f);
    let t = s3.set_own(cls, k, f);
    assert(t == sem_install(s0, cls, table));
    assert(t.symbols == s2.symbols);
    symbol_position_sound(t.symbols, name);
    assert(t.symbols[k.index as int] == name);
    let attrs = s3.objects[cls.id as int].attrs;
    if j == table.len() - 1 {
        lookup_after_put(attrs, k, f);
        assert(symbol_position(t.symbols, name) == Some(k.index as int));
        assert(t.get_own(cls, k) == Some(f));
        assert(f.id == s3.objects.len() - 1);
    } else {
        assert(s1.fits());
        assert forall|a: int, b: int|
            0 <= a < front.len() && 0 <= b < front.len() && a != b implies front[a].0
            != front[b].0 by {
            assert(front[a] == table[a] && front[b] == table[b]);
        }
        install_has_methods(s0, cls, front, j);
        let wanted = table[j].0;
        assert(front[j] == table[j]);
        assert(wanted != name);
        symbol_position_sound(s1.symbols, wanted);
        symbol_position_sound(t.symbols, wanted);
        let p = symbol_position(s1.symbols, wanted).unwrap();
        assert(t.symbols[p] == wanted);
        assert(symbol_position(t.symbols, wanted) == Some(p));
        let kj = Literal { index: p as usize };
        assert(kj != k);
        lookup_other_after_put(attrs, k, f, kj);
        assert(s3.objects[cls.id as int] == s1.objects[cls.id as int]);
        let fj = s1.get_own(cls, kj).unwrap();
        assert(s3.objects[fj.id as int] == s1.objects[fj.id as int]);
    }
}

/// Initializing a class leaves no partial table: where the class was not
/// claimed before, its class object afterwards stores every method of the
/// class under the literal of its name, and stores no name twice.
pub proof fn initialized_class_has_each_method(s: State, c: Class, i: int)
    requires
        s.wf(),
        !s.classes[c.slot()].claimed,
        0 <= i < c.methods().len(),
        sem_initialize(s, c).fits(),
    ensures
        sem_initialize(s, c).classes[c.slot()].object is Some,
        ({
            let t = sem_initialize(s, c);
            let cls = t.classes[c.slot()].object.unwrap();
            &&& t.has(cls)
            &&& has_method(t, cls, c.methods()[i].0, c.methods()[i].1)
            &&& names(t.objects[cls.id as int].attrs).no_duplicates()
        }),
{
    with_claim_wf(s, c);
    let claimed = s.with_claim(c);
    class_of_wf(claimed, c);
    let (s1, cls) = claimed.class_of(c);
    instantiate_wf(s1, Class::Text, PayloadView::Text(c.title()));
    let (s2, title) = s1.instantiate(Class::Text, PayloadView::Text(c.title()));
    set_own_wf(s2, cls, Literal { index: NAME }, title);
    let s3 = s2.set_own(cls, Literal { index: NAME }, title);
    install_keeps_wf(s3, cls, c.methods());
    method_names_distinct(c);
    install_has_methods(s3, cls, c.methods(), i);
    let t = sem_initialize(s, c);
    assert(t.object_ok(t.objects[cls.id as int]));
}

/// A deleted name is gone from the store it was deleted from, and is
/// handed back once: a second delete finds nothing.
pub proof fn deleted_name_is_gone(s: State, obj: Object, key: Literal)
    requires
        s.wf(),
        s.has(obj),
        s.get_own(obj, key) is Some,
    ensures
        sem_del_attr(s, obj, key).1 == Ok::<Object, RuntimeError>(s.get_own(obj, key).unwrap()),
        sem_del_attr(s, obj, key).0.get_own(obj, key) is None,
        sem_del_attr(sem_del_attr(s, obj, key).0, obj, key).1 == Err::<Object, RuntimeError>(
            RuntimeError::NotFound { key, receiver: obj },
        ),
{
    assert(s.object_ok(s.objects[obj.id as int]));
    lookup_after_del(s.objects[obj.id as int].attrs, key);
}

/// A hook decides only where it answers. Where `obj` does not store
/// `key`, a hook that answers with a value is the answer, and a hook that
/// declines, or the want of a hook, hands the search on to the parents, in
/// the state that asking the hook left.
pub proof fn hook_answers_or_hands_on(s: State, obj: Object, key: Literal, d: nat)
    requires
        !is_special(key),
        key.index != ATTR_MISSING,
        s.get_own(obj, key) is None,
    ensures
        ({
            let (asked, answer) = sem_hook(s, obj, key, d);
            match answer {
                Ok(Some(v)) => sem_resolve(s, obj, key, d) == (
                    asked,
                    Ok::<Found, RuntimeError>(Found { value: v, origin: Origin::Hook }),
                ),
                Ok(None) => sem_resolve(s, obj, key, d) == sem_parents(
                    asked,
                    obj,
                    key,
                    asked.objects[obj.id as int].parents,
                    0,
                    d,
                ),
                Err(e) => sem_resolve(s, obj, key, d) == (asked, Err::<Found, RuntimeError>(e)),
            }
        }),
{
}

/// A method found on a parent is called with its receiver in front of
/// the arguments; a function found in the receiver's own store is called
/// with the arguments alone. A method that is given no value at all fails
/// for want of a receiver.
pub proof fn receiver_is_injected(
    s: State,
    obj: Object,
    key: Literal,
    args: Seq<Object>,
    f: Function,
    d: nat,
)
    requires
        d > 0,
        sem_resolve(s, obj, key, d).1 matches Ok(found) && sem_resolve(s, obj, key, d).0.objects[found.value.id as int].payload
            == PayloadView::Function(f),
    ensures
        ({
            let (s1, found) = sem_resolve(s, obj, key, d);
            sem_call_attr(s, obj, key, args, d) == if found.unwrap().origin is Inherited {
                sem_apply(s1, f, seq![obj] + args, (d - 1) as nat)
            } else {
                sem_apply(s1, f, args, (d - 1) as nat)
            }
        }),
        !(f is Constant) ==> sem_apply(s, f, Seq::empty(), d) == (
            s,
            Err::<Object, RuntimeError>(RuntimeError::ArityOrIndexError { index: 0, len: 0 }),
        ),
{
}

/// Whether every name that `cls` stores, from place `from` on, is the
/// literal of the method at that place of `table`, counted from `from`.
pub open spec fn stores_table_from(
    t: State,
    cls: Object,
    from: int,
    table: Seq<(Seq<char>, Builtin)>,
) -> bool {
    let attrs = t.objects[cls.id as int].attrs;
    &&& attrs.len() == from + table.len()
    &&& forall|j: int|
        0 <= j < table.len() ==> t.symbols[(#[trigger] attrs[from + j]).0.index as int] == table[j].0
}

/// Installing a table on a class object that stores none of its names
/// adds one entry for each method, in the order of the table, and leaves
/// the entries that were there.
pub proof fn install_adds_each_once(s0: State, cls: Object, table: Seq<(Seq<char>, Builtin)>)
    requires
        s0.wf(),
        s0.has(cls),
        forall|a: int, b: int|
            0 <= a < table.len() && 0 <= b < table.len() && a != b ==> table[a].0 != table[b].0,
        forall|i: int, j: int|
            0 <= i < s0.objects[cls.id as int].attrs.len() && 0 <= j < table.len()
                ==> s0.symbols[s0.objects[cls.id as int].attrs[i].0.index as int] != table[j].0,
        sem_install(s0, cls, table).fits(),
    ensures
        stores_table_from(
            sem_install(s0, cls, table),
            cls,
            s0.objects[cls.id as int].attrs.len() as int,
            table,
        ),
        forall|i: int|
            0 <= i < s0.objects[cls.id as int].attrs.len() ==> sem_install(
                s0,
                cls,
                table,
            ).objects[cls.id as int].attrs[i].0 == s0.objects[cls.id as int].attrs[i].0,
    decreases table.len(),
{
    let old_attrs = s0.objects[cls.id as int].attrs;
    let from = old_attrs.len() as int;
    if table.len() > 0 {
        let front = table.drop_last();
        let s1 = sem_install(s0, cls, front);
        install_keeps_wf(s0, cls, front);
        let name = table.last().0;
        let payload = PayloadView::Function(Function::Native(table.last().1));
        intern_wf(s1, name);
        symbol_position_sound(s1.symbols, name);
        let (s2, k) = s1.intern(name);
        instantiate_wf(s2, Class::Function, payload);
        instantiate_keeps(s2, Class::Function, payload);
        let (s3, f) = s2.instantiate(Class::Function, payload);
        set_own_wf(s3, cls, k, f);
        let t = s3.set_own(cls, k, f);
        assert(t == sem_install(s0, cls, table));
        assert(s1.fits());
        assert forall|a: int, b: int|
            0 <= a < front.len() && 0 <= b < front.len() && a != b implies front[a].0
            != front[b].0 by {
            assert(front[a] == table[a] && front[b] == table[b]);
        }
        assert forall|i: int, j: int| 0 <= i < old_attrs.len() && 0 <= j < front.len() implies s0.symbols[old_attrs[i].0.index as int]
            != front[j].0 by {
            assert(front[j] == table[j]);
        }
        install_adds_each_once(s0, cls, front);
        let attrs1 = s1.objects[cls.id as int].attrs;
        assert(s3.objects[cls.id as int] == s1.objects[cls.id as int]);
        assert(s1.object_ok(s1.objects[cls.id as int]));
        assert(s0.object_ok(s0.objects[cls.id as int]));
        assert(t.symbols[k.index as int] == name);
        assert forall|i: int| 0 <= i < attrs1.len() implies attrs1[i].0 != k by {
            assert(s1.knows(attrs1[i].0));
            assert(t.symbols[attrs1[i].0.index as int] == s1.symbols[attrs1[i].0.index as int]);
            if i < from {
                assert(attrs1[i].0 == old_attrs[i].0);
                assert(s0.knows(old_attrs[i].0));
                assert(s1.symbols[old_attrs[i].0.index as int] == s0.symbols[old_attrs[i].0.index as int]);
                assert(s0.symbols[old_attrs[i].0.index as int] != table[table.len() - 1].0);
            } else {
                let j = i - from;
                assert(s1.symbols[attrs1[from + j].0.index as int] == front[j].0);
                assert(front[j] == table[j]);
            }
        }
        position_absent(attrs1, k);
        let attrs = t.objects[cls.id as int].attrs;
        assert(attrs == attrs1.push((k, f)));
        assert forall|j: int| 0 <= j < table.len() implies t.symbols[(
        #[trigger] attrs[from + j]).0.index as int] == table[j].0 by {
            if j < front.len() {
                assert(attrs[from + j] == attrs1[from + j]);
                assert(s1.knows(attrs1[from + j].0));
                assert(s1.symbols[attrs1[from + j].0.index as int] == front[j].0);
                assert(front[j] == table[j]);
            }
        }
    }
}

/// Initializing a class whose class object was not made before gives the
/// class object exactly the table of the class: the name of the class
/// first, then one entry for each method, in the order of the table, and
/// nothing else.
pub proof fn initialized_class_has_exactly_its_table(s: State, c: Class)
    requires
        s.wf(),
        !s.classes[c.slot()].claimed,
        s.classes[c.slot()].object is None,
        sem_initialize(s, c).fits(),
    ensures
        sem_initialize(s, c).classes[c.slot()].object is Some,
        ({
            let t = sem_initialize(s, c);
            let cls = t.classes[c.slot()].object.unwrap();
            let attrs = t.objects[cls.id as int].attrs;
            &&& attrs.len() == c.methods().len() + 1
            &&& attrs[0].0 == Literal { index: NAME }
            &&& stores_table_from(t, cls, 1, c.methods())
        }),
{
    with_claim_wf(s, c);
    let claimed = s.with_claim(c);
    class_of_wf(claimed, c);
    class_of_keeps(claimed, c);
    let (s1, cls) = claimed.class_of(c);
    instantiate_wf(s1, Class::Text, PayloadView::Text(c.title()));
    instantiate_keeps(s1, Class::Text, PayloadView::Text(c.title()));
    let (s2, title) = s1.instantiate(Class::Text, PayloadView::Text(c.title()));
    set_own_wf(s2, cls, Literal { index: NAME }, title);
    let s3 = s2.set_own(cls, Literal { index: NAME }, title);
    install_keeps_wf(s3, cls, c.methods());
    method_names_distinct(c);
    name_is_no_method(c);
    reserved_names_distinct();
    assert(s1.objects[cls.id as int].attrs.len() == 0);
    assert(s2.objects[cls.id as int] == s1.objects[cls.id as int]);
    let attrs3 = s3.objects[cls.id as int].attrs;
    assert(attrs3 =~= seq![(Literal { index: NAME }, title)]);
    assert(s3.symbols.subrange(0, RESERVED as int)[NAME as int] == s3.symbols[NAME as int]);
    assert(s3.symbols[NAME as int] == "name"@);
    install_adds_each_once(s3, cls, c.methods());
    let t = sem_install(s3, cls, c.methods());
    assert(t == sem_initialize(s, c));
    assert(s1.classes[c.slot()].object == Some(cls));
    assert(s2.classes[c.slot()].object == Some(cls));
    assert(s3.classes[c.slot()].object == Some(cls));
    assert(t.classes[c.slot()].object == Some(cls));
    assert(t.objects[cls.id as int].attrs[0].0 == attrs3[0].0);
}

/// The stack discipline holds to any depth of nesting. Every operation of
/// the runtime keeps the frames it found and, where `instance_jump`
/// entered no frame meanwhile, leaves the stack exactly as it found it;
/// and what holds of two steps one after the other holds of both
/// together.
pub proof fn stack_discipline_composes(a: State, b: State, c: State)
    requires
        b.keeps_frames(a),
        b.neutral(a),
        c.keeps_frames(b),
        c.neutral(b),
    ensures
        c.keeps_frames(a),
        c.neutral(a),
{
    assert forall|i: int| 0 <= i < a.stack.len() implies (#[trigger] c.stack[i]) == a.stack[i] by {
        assert(b.stack[i] == a.stack[i]);
    }
}

/// A frame that is entered around a step and left after it leaves no
/// trace: where the step kept the frames it found, so does the whole, and
/// where `instance_jump` entered no frame within the step, the stack
/// after the whole is the stack before it, whether the step failed or
/// not.
pub proof fn scoped_step_is_neutral(s: State, owner: Object, args: Seq<Object>, inner: State)
    requires
        inner.keeps_frames(s.push_frame(owner, args)),
        inner.neutral(s.push_frame(owner, args)),
    ensures
        inner.pop_frame().keeps_frames(s),
        inner.pop_frame().neutral(s),
{
    let entered = s.push_frame(owner, args);
    assert(entered.stack.drop_last() =~= s.stack);
    assert forall|i: int| 0 <= i < s.stack.len() implies (#[trigger] inner.pop_frame().stack[i])
        == s.stack[i] by {
        assert(inner.stack[i] == entered.stack[i]);
    }
}

/// An own hook that is a constant function answers for every name the
/// object lacks. Where `o` stores under `attr_missing` a function that
/// always gives `v`, and `v` is not the "no value" sentinel, reading a
/// name that `o` does not store gives `v`. The hook is asked once: one
/// text, that of the name, is made for it, and nothing else changes.
pub proof fn constant_hook_answers(s: State, o: Object, key: Literal, h: Object, v: Object, d: nat)
    requires
        s.wf(),
        s.has(o),
        !is_special(key),
        key.index != ATTR_MISSING,
        d >= 1,
        s.get_own(o, key) is None,
        s.get_own(o, Literal { index: ATTR_MISSING }) == Some(h),
        s.objects[h.id as int].payload == PayloadView::Function(Function::Constant(v)),
        !(s.objects[v.id as int].payload is Null),
    ensures
        sem_get(s, o, key, d).1 == Ok::<Object, RuntimeError>(v),
        sem_get(s, o, key, d).0 == s.instantiate(
            Class::Text,
            PayloadView::Text(s.symbols[key.index as int]),
        ).0,
{
    own_value_ok(s, o, Literal { index: ATTR_MISSING });
    assert(s.payload_ok(s.objects[h.id as int].payload)) by {
        assert(s.object_ok(s.objects[h.id as int]));
    }
    let text = PayloadView::Text(s.symbols[key.index as int]);
    instantiate_wf(s, Class::Text, text);
    instantiate_keeps(s, Class::Text, text);
    let (s2, k) = s.instantiate(Class::Text, text);
    let found = Found { value: h, origin: Origin::Own };
    assert(sem_resolve(s, o, Literal { index: ATTR_MISSING }, d) == (
        s,
        Ok::<Found, RuntimeError>(found),
    ));
    assert(s2.objects[h.id as int] == s.objects[h.id as int]);
    assert(s2.objects[v.id as int] == s.objects[v.id as int]);
    assert(sem_apply(s2, Function::Constant(v), seq![k], (d - 1) as nat) == (
        s2,
        Ok::<Object, RuntimeError>(v),
    ));
    assert(sem_dispatch(s2, o, found, seq![k], d) == (s2, Ok::<Object, RuntimeError>(v)));
    assert(sem_hook(s, o, key, d) == (s2, Ok::<Option<Object>, RuntimeError>(Some(v))));
}

/// A hook that declines hands the search on. Where `o` stores under
/// `attr_missing` a function that always gives the "no value" sentinel,
/// and the first parent `p` of `o` stores `key`, reading `key` on `o`
/// gives what `p` stores: neither the sentinel nor a failure.
pub proof fn declining_hook_hands_on_to_the_parent(
    s: State,
    o: Object,
    p: Object,
    key: Literal,
    h: Object,
    n: Object,
    d: nat,
)
    requires
        s.wf(),
        s.has(o),
        s.has(p),
        !is_special(key),
        key.index != ATTR_MISSING,
        d >= 1,
        s.get_own(o, key) is None,
        s.get_own(o, Literal { index: ATTR_MISSING }) == Some(h),
        s.objects[h.id as int].payload == PayloadView::Function(Function::Constant(n)),
        s.objects[n.id as int].payload is Null,
        s.objects[o.id as int].parents.len() >= 1,
        s.objects[o.id as int].parents[0] == p,
        p != o,
        s.get_own(p, key) is Some,
    ensures
        sem_get(s, o, key, d).1 == Ok::<Object, RuntimeError>(s.get_own(p, key).unwrap()),
{
    own_value_ok(s, o, Literal { index: ATTR_MISSING });
    assert(s.payload_ok(s.objects[h.id as int].payload)) by {
        assert(s.object_ok(s.objects[h.id as int]));
    }
    let text = PayloadView::Text(s.symbols[key.index as int]);
    instantiate_wf(s, Class::Text, text);
    instantiate_keeps(s, Class::Text, text);
    let (s2, k) = s.instantiate(Class::Text, text);
    let found = Found { value: h, origin: Origin::Own };
    assert(sem_resolve(s, o, Literal { index: ATTR_MISSING }, d) == (
        s,
        Ok::<Found, RuntimeError>(found),
    ));
    assert(s2.objects[h.id as int] == s.objects[h.id as int]);
    assert(s2.objects[n.id as int] == s.objects[n.id as int]);
    assert(s2.objects[o.id as int] == s.objects[o.id as int]);
    assert(s2.objects[p.id as int] == s.objects[p.id as int]);
    assert(sem_apply(s2, Function::Constant(n), seq![k], (d - 1) as nat) == (
        s2,
        Ok::<Object, RuntimeError>(n),
    ));
    assert(sem_dispatch(s2, o, found, seq![k], d) == (s2, Ok::<Object, RuntimeError>(n)));
    assert(sem_hook(s, o, key, d) == (s2, Ok::<Option<Object>, RuntimeError>(None)));
    let value = s.get_own(p, key).unwrap();
    assert(sem_resolve(s2, p, key, (d - 1) as nat) == (
        s2,
        Ok::<Found, RuntimeError>(Found { value, origin: Origin::Own }),
    ));
    assert(sem_parents(s2, o, key, s2.objects[o.id as int].parents, 0, d) == (
        s2,
        Ok::<Found, RuntimeError>(Found { value, origin: Origin::Inherited }),
    ));
}

/// A method found on a parent reads the receiver. Where the first parent
/// `k` of `i` stores under `method` a function that reads `name` of its
/// receiver, and `i` has no hook, then calling `method` on `i` with no
/// argument is reading `name` on `i`; raw retrieval of `method` on `i`
/// gives that function itself, unwrapped; and the function applied to no
/// value at all fails for want of a receiver.
pub proof fn inherited_reader_reads_the_receiver(
    s: State,
    i: Object,
    k: Object,
    method: Literal,
    name: Literal,
    f: Object,
    d: nat,
)
    requires
        !is_special(method),
        method.index != ATTR_MISSING,
        d >= 2,
        s.get_own(i, method) is None,
        s.objects[i.id as int].parents.len() >= 1,
        s.objects[i.id as int].parents[0] == k,
        k != i,
        s.get_own(k, method) == Some(f),
        s.objects[f.id as int].payload == PayloadView::Function(Function::Reader(name)),
        sem_resolve(s, i, Literal { index: ATTR_MISSING }, d).1 matches Err(
            RuntimeError::MissingAttribute { .. },
        ),
    ensures
        sem_call_attr(s, i, method, Seq::empty(), d) == sem_get(s, i, name, (d - 1) as nat),
        sem_get(s, i, method, d) == (s, Ok::<Object, RuntimeError>(f)),
        sem_apply(s, Function::Reader(name), seq![i], (d - 1) as nat) == sem_get(
            s,
            i,
            name,
            (d - 1) as nat,
        ),
        sem_apply(s, Function::Reader(name), Seq::empty(), (d - 1) as nat) == (
            s,
            Err::<Object, RuntimeError>(RuntimeError::ArityOrIndexError { index: 0, len: 0 }),
        ),
{
    first_parent_wins(s, i, k, method, d);
    let found = Found { value: f, origin: Origin::Inherited };
    assert(sem_resolve(s, i, method, d) == (s, Ok::<Found, RuntimeError>(found)));
    assert(seq![i] + Seq::<Object>::empty() =~= seq![i]);
    assert(sem_dispatch(s, i, found, Seq::empty(), d) == sem_apply(
        s,
        Function::Reader(name),
        seq![i],
        (d - 1) as nat,
    ));
}

} // verus!
