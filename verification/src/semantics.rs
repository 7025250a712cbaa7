//! What resolution and dispatch mean: each operation as a function from a
//! state to the state it leaves and the result it gives.
//!
//! Every function takes the number `d` of levels that may still be opened.
//! Following a parent and invoking a value each open one; where one is
//! needed and none is left the operation fails with `DepthExceeded`. That
//! number is the first part of every measure of termination; the second
//! part orders the functions that call one another without opening a
//! level.

use vstd::prelude::*;
use crate::class::Builtin;
use crate::class::Class;
use crate::class::Function;
use crate::error::RuntimeError;
use crate::keys::sem_mapping_keys;
use crate::literal::Literal;
use crate::literal::ATTR_MISSING;
use crate::literal::AT_BOOL;
use crate::literal::AT_TEXT;
use crate::literal::BOUND_OBJECT;
use crate::literal::BOUND_OWNER;
use crate::literal::CALL;
use crate::literal::CALL_NOSCOPE;
use crate::literal::ID;
use crate::literal::PARENTS;
use crate::literal::STACK;
use crate::literal::THIS;
use crate::object::Object;
use crate::object::PayloadView;
use crate::regexp::regex_captures;
use crate::regexp::regex_is_match;
use crate::regexp::RegexView;
use crate::state::owners;
use crate::state::State;
use crate::text::decimal;

verus! {

/// The step of the resolution that found a value.
#[derive(Clone, Copy, Debug, PartialEq, Eq, Structural)]
pub enum Origin {
    /// A reserved name, answered by the runtime.
    Special,
    /// The receiver's own store.
    Own,
    /// The missing-attribute hook.
    Hook,
    /// The store, the hook or the parents of a parent.
    Inherited,
}

/// A resolved attribute.
#[derive(Clone, Copy, Debug, PartialEq, Eq, Structural)]
pub struct Found {
    pub value: Object,
    pub origin: Origin,
}

/// The argument at place `i`, or the error that names the place and the
/// number of arguments given.
pub open spec fn arg(args: Seq<Object>, i: usize) -> Result<Object, RuntimeError> {
    if i < args.len() {
        Ok(args[i as int])
    } else {
        Err(RuntimeError::ArityOrIndexError { index: i, len: args.len() as usize })
    }
}

/// The literal that a text object names. An object that is no text names
/// none.
pub open spec fn sem_key_of(s: State, o: Object) -> (State, Result<Literal, RuntimeError>) {
    match s.objects[o.id as int].payload {
        PayloadView::Text(t) => {
            let (s1, k) = s.intern(t);
            (s1, Ok(k))
        },
        _ => (s, Err(RuntimeError::DowncastFailure { object: o, expected: Class::Text })),
    }
}

/// Storing: `parents` replaces the parent list by the items of a list
/// value; every other name goes to the receiver's own store, whoever
/// defines it up the chain.
pub open spec fn sem_set_attr(s: State, obj: Object, key: Literal, value: Object) -> (
    State,
    Result<(), RuntimeError>,
) {
    if key.index == PARENTS {
        match s.objects[value.id as int].payload {
            PayloadView::List(items) => (s.set_parents(obj, items), Ok(())),
            _ => (s, Err(RuntimeError::DowncastFailure { object: value, expected: Class::List })),
        }
    } else {
        (s.set_own(obj, key, value), Ok(()))
    }
}

/// Deleting: only from the receiver's own store, and an error where the
/// name is not there.
pub open spec fn sem_del_attr(s: State, obj: Object, key: Literal) -> (
    State,
    Result<Object, RuntimeError>,
) {
    match s.get_own(obj, key) {
        Some(v) => (s.del_own(obj, key), Ok(v)),
        None => (s, Err(RuntimeError::NotFound { key, receiver: obj })),
    }
}

/// Resolution of `key` on `obj`. In order: the reserved names; the own
/// store; the hook `attr_missing`, unless it declines with the "no value"
/// sentinel or is itself what is looked for; each parent in turn, by this
/// same resolution. The first success is the answer.
pub open spec fn sem_resolve(s: State, obj: Object, key: Literal, d: nat) -> (
    State,
    Result<Found, RuntimeError>,
)
    decreases d, (if key.index == ATTR_MISSING { 10nat } else { 20nat }), 0nat,
{
    if key.index == ID {
        let (s1, o) = s.instantiate(Class::Number, PayloadView::Number(obj.id as i128));
        (s1, Ok(Found { value: o, origin: Origin::Special }))
    } else if key.index == PARENTS {
        let (s1, o) = s.instantiate(
            Class::List,
            PayloadView::List(s.objects[obj.id as int].parents),
        );
        (s1, Ok(Found { value: o, origin: Origin::Special }))
    } else if key.index == THIS {
        match s.frame_at(0) {
            Some(f) => (s, Ok(Found { value: f.owner, origin: Origin::Special })),
            None => (s, Err(RuntimeError::MissingAttribute { key, receiver: obj })),
        }
    } else if key.index == STACK {
        let (s1, o) = s.instantiate(Class::List, PayloadView::List(owners(s.stack)));
        (s1, Ok(Found { value: o, origin: Origin::Special }))
    } else {
        match s.get_own(obj, key) {
            Some(v) => (s, Ok(Found { value: v, origin: Origin::Own })),
            None => {
                let (s1, hooked) = if key.index == ATTR_MISSING {
                    (s, Ok(None))
                } else {
                    sem_hook(s, obj, key, d)
                };
                match hooked {
                    Err(e) => (s1, Err(e)),
                    Ok(Some(v)) => (s1, Ok(Found { value: v, origin: Origin::Hook })),
                    Ok(None) => sem_parents(s1, obj, key, s1.objects[obj.id as int].parents, 0, d),
                }
            },
        }
    }
}

/// The hook: where `obj` defines or inherits `attr_missing`, it is called
/// with the text of `key`. `Some` is its answer; `None` says that there is
/// no hook or that it declined.
pub open spec fn sem_hook(s: State, obj: Object, key: Literal, d: nat) -> (
    State,
    Result<Option<Object>, RuntimeError>,
)
    decreases d, 15nat, 0nat,
{
    let (s1, hook) = sem_resolve(s, obj, Literal { index: ATTR_MISSING }, d);
    match hook {
        Err(RuntimeError::MissingAttribute { .. }) => (s1, Ok(None)),
        Err(e) => (s1, Err(e)),
        Ok(found) => {
            let (s2, k) = s1.instantiate(
                Class::Text,
                PayloadView::Text(s1.symbols[key.index as int]),
            );
            let (s3, r) = sem_dispatch(s2, obj, found, seq![k], d);
            match r {
                Err(e) => (s3, Err(e)),
                Ok(v) => if s3.is_null(v) {
                    (s3, Ok(None))
                } else {
                    (s3, Ok(Some(v)))
                },
            }
        },
    }
}

/// The search of `parents` from place `i` on. A parent that is the object
/// itself ends a chain and is passed over. Following any other parent
/// opens a level. A parent that misses the name hands on to the next; any
/// other failure ends the search.
pub open spec fn sem_parents(
    s: State,
    obj: Object,
    key: Literal,
    parents: Seq<Object>,
    i: int,
    d: nat,
) -> (State, Result<Found, RuntimeError>)
    decreases d, 5nat, parents.len() - i,
{
    if i < 0 || i >= parents.len() {
        (s, Err(RuntimeError::MissingAttribute { key, receiver: obj }))
    } else if parents[i] == obj {
        sem_parents(s, obj, key, parents, i + 1, d)
    } else if d == 0 {
        (s, Err(RuntimeError::DepthExceeded))
    } else {
        let (s1, r) = sem_resolve(s, parents[i], key, (d - 1) as nat);
        match r {
            Ok(f) => (s1, Ok(Found { value: f.value, origin: Origin::Inherited })),
            Err(RuntimeError::MissingAttribute { .. }) => sem_parents(s1, obj, key, parents, i + 1, d),
            Err(e) => (s1, Err(e)),
        }
    }
}

/// Raw retrieval: the value exactly as it was found.
pub open spec fn sem_get(s: State, obj: Object, key: Literal, d: nat) -> (
    State,
    Result<Object, RuntimeError>,
)
    decreases d, 25nat, 0nat,
{
    let (s1, r) = sem_resolve(s, obj, key, d);
    match r {
        Ok(f) => (s1, Ok(f.value)),
        Err(e) => (s1, Err(e)),
    }
}

/// Whether a found value is handed its receiver: it was found on a parent
/// and is callable.
pub open spec fn binds(s: State, found: Found) -> bool {
    found.origin is Inherited && s.objects[found.value.id as int].payload.callable()
}

/// The state and the bound method made of `owner` and `callable`.
pub open spec fn sem_bind(s: State, owner: Object, callable: Object) -> (State, Object) {
    let (s1, b) = s.instantiate(Class::BoundFunction, PayloadView::BoundFunction);
    (
        s1.set_own(b, Literal { index: BOUND_OWNER }, owner).set_own(
            b,
            Literal { index: BOUND_OBJECT },
            callable,
        ),
        b,
    )
}

/// Receiver retrieval: as raw retrieval, but a callable found on a parent
/// comes back bound to the receiver.
pub open spec fn sem_dot_get(s: State, obj: Object, key: Literal, d: nat) -> (
    State,
    Result<Object, RuntimeError>,
)
    decreases d, 25nat, 0nat,
{
    let (s1, r) = sem_resolve(s, obj, key, d);
    match r {
        Ok(f) => if binds(s1, f) {
            let (s2, b) = sem_bind(s1, obj, f.value);
            (s2, Ok(b))
        } else {
            (s1, Ok(f.value))
        },
        Err(e) => (s1, Err(e)),
    }
}

/// Invoking a found value for `receiver`. Where it binds, the receiver
/// becomes the first argument. A function is applied; any other value is
/// asked for its `call`.
pub open spec fn sem_dispatch(s: State, receiver: Object, found: Found, args: Seq<Object>, d: nat) -> (
    State,
    Result<Object, RuntimeError>,
)
    decreases d, 1nat, 0nat,
{
    let argv = if binds(s, found) {
        seq![receiver] + args
    } else {
        args
    };
    if d == 0 {
        (s, Err(RuntimeError::DepthExceeded))
    } else {
        match s.objects[found.value.id as int].payload {
            PayloadView::Function(f) => sem_apply(s, f, argv, (d - 1) as nat),
            _ => sem_call_attr(s, found.value, Literal { index: CALL }, argv, (d - 1) as nat),
        }
    }
}

/// Resolves `key` on `obj` as a receiver and invokes what was found.
pub open spec fn sem_call_attr(s: State, obj: Object, key: Literal, args: Seq<Object>, d: nat) -> (
    State,
    Result<Object, RuntimeError>,
)
    decreases d, 30nat, 0nat,
{
    let (s1, r) = sem_resolve(s, obj, key, d);
    match r {
        Ok(f) => sem_dispatch(s1, obj, f, args, d),
        Err(e) => (s1, Err(e)),
    }
}

/// Applying a function to a list of values. A method takes the first of
/// them as its receiver and fails where there is none.
pub open spec fn sem_apply(s: State, f: Function, argv: Seq<Object>, d: nat) -> (
    State,
    Result<Object, RuntimeError>,
)
    decreases d, 50nat, 0nat,
{
    match f {
        Function::Constant(o) => (s, Ok(o)),
        Function::Reader(k) => match arg(argv, 0) {
            Ok(this) => sem_get(s, this, k, d),
            Err(e) => (s, Err(e)),
        },
        Function::Native(b) => match arg(argv, 0) {
            Ok(this) => sem_native(s, b, this, argv.skip(1), d),
            Err(e) => (s, Err(e)),
        },
    }
}

/// The text that `inspect` gives for a bare object: the name of the class
/// of its payload and its identity.
pub open spec fn inspect_text(s: State, this: Object) -> Seq<char> {
    seq!['<'] + s.objects[this.id as int].payload.class().title() + seq![':'] + decimal(
        this.id as nat,
    ) + seq!['>']
}

/// One new text object for each name, in order.
pub open spec fn sem_name_objects(s: State, keys: Seq<Literal>) -> (State, Seq<Object>)
    decreases keys.len(),
{
    if keys.len() == 0 {
        (s, Seq::empty())
    } else {
        let (s1, front) = sem_name_objects(s, keys.drop_last());
        let (s2, o) = s1.instantiate(
            Class::Text,
            PayloadView::Text(s1.symbols[keys.last().index as int]),
        );
        (s2, front.push(o))
    }
}

/// One new object for each group of a match, in order: a text for a group
/// that took part, the "no value" sentinel for one that did not.
pub open spec fn sem_group_objects(s: State, groups: Seq<Option<Seq<char>>>) -> (State, Seq<Object>)
    decreases groups.len(),
{
    if groups.len() == 0 {
        (s, Seq::empty())
    } else {
        let (s1, front) = sem_group_objects(s, groups.drop_last());
        let (s2, o) = match groups.last() {
            Some(t) => s1.instantiate(Class::Text, PayloadView::Text(t)),
            None => s1.instantiate(Class::Null, PayloadView::Null),
        };
        (s2, front.push(o))
    }
}

/// The regular expression that `o` carries.
pub open spec fn regex_of(s: State, o: Object) -> Result<RegexView, RuntimeError> {
    match s.objects[o.id as int].payload {
        PayloadView::Regex(r) => Ok(r),
        _ => Err(RuntimeError::DowncastFailure { object: o, expected: Class::Regex }),
    }
}

/// The text of `o`: its payload where it is a text, else what its `@text`
/// gives, which must be a text.
pub open spec fn sem_text_of(s: State, o: Object, d: nat) -> (State, Result<Seq<char>, RuntimeError>)
    decreases d, 35nat, 0nat,
{
    match s.objects[o.id as int].payload {
        PayloadView::Text(t) => (s, Ok(t)),
        _ => {
            let (s1, r) = sem_call_attr(s, o, Literal { index: AT_TEXT }, Seq::empty(), d);
            match r {
                Ok(v) => match s1.objects[v.id as int].payload {
                    PayloadView::Text(t) => (s1, Ok(t)),
                    _ => (s1, Err(RuntimeError::DowncastFailure { object: v, expected: Class::Text })),
                },
                Err(e) => (s1, Err(e)),
            }
        },
    }
}

/// A new boolean object.
pub open spec fn sem_boolean(s: State, b: bool) -> (State, Result<Object, RuntimeError>) {
    let (s1, o) = s.instantiate(Class::Boolean, PayloadView::Boolean(b));
    (s1, Ok(o))
}

/// A new text object.
pub open spec fn sem_text(s: State, t: Seq<char>) -> (State, Result<Object, RuntimeError>) {
    let (s1, o) = s.instantiate(Class::Text, PayloadView::Text(t));
    (s1, Ok(o))
}

/// A new "no value" sentinel.
pub open spec fn sem_null(s: State) -> (State, Result<Object, RuntimeError>) {
    let (s1, o) = s.instantiate(Class::Null, PayloadView::Null);
    (s1, Ok(o))
}

/// A new list object.
pub open spec fn sem_list(s: State, items: Seq<Object>) -> (State, Result<Object, RuntimeError>) {
    let (s1, o) = s.instantiate(Class::List, PayloadView::List(items));
    (s1, Ok(o))
}

/// `inspect` of the base class: a text that names the receiver.
pub open spec fn sem_inspect(s: State, this: Object) -> (State, Result<Object, RuntimeError>) {
    sem_text(s, inspect_text(s, this))
}

/// The boolean of `o`: its payload where it is a boolean, else what its
/// `@bool` gives, which must be a boolean.
pub open spec fn sem_bool_of(s: State, o: Object, d: nat) -> (State, Result<bool, RuntimeError>)
    decreases d, 35nat, 0nat,
{
    match s.objects[o.id as int].payload {
        PayloadView::Boolean(b) => (s, Ok(b)),
        _ => {
            let (s1, r) = sem_call_attr(s, o, Literal { index: AT_BOOL }, Seq::empty(), d);
            match r {
                Ok(v) => match s1.objects[v.id as int].payload {
                    PayloadView::Boolean(b) => (s1, Ok(b)),
                    _ => (
                        s1,
                        Err(RuntimeError::DowncastFailure { object: v, expected: Class::Boolean }),
                    ),
                },
                Err(e) => (s1, Err(e)),
            }
        },
    }
}

/// Whether `__keys__` is to look at the parents too: what its first
/// argument says once it is converted to a boolean; `false` without one.
pub open spec fn sem_keys_flag(s: State, args: Seq<Object>, d: nat) -> (
    State,
    Result<bool, RuntimeError>,
)
    decreases d, 37nat, 0nat,
{
    if args.len() == 0 {
        (s, Ok(false))
    } else {
        sem_bool_of(s, args[0], d)
    }
}

/// `__keys__`: a list of texts, one for each name of the receiver, and of
/// its ancestors where the argument says so.
pub open spec fn sem_keys_list(s: State, this: Object, args: Seq<Object>, d: nat) -> (
    State,
    Result<Object, RuntimeError>,
)
    decreases d, 40nat, 0nat,
{
    let (s0, flag) = sem_keys_flag(s, args, d);
    match flag {
        Err(e) => (s0, Err(e)),
        Ok(include_parents) => {
            match sem_mapping_keys(s0, this, include_parents, d) {
                Err(e) => (s0, Err(e)),
                Ok(ks) => {
                    let (s1, items) = sem_name_objects(s0, ks);
                    sem_list(s1, items)
                },
            }
        },
    }
}

/// `__call_attr__`: calls the attribute that the first argument names with
/// the arguments that follow it.
pub open spec fn sem_call_attr_native(s: State, this: Object, args: Seq<Object>, d: nat) -> (
    State,
    Result<Object, RuntimeError>,
)
    decreases d, 40nat, 0nat,
{
    match arg(args, 0) {
        Err(e) => (s, Err(e)),
        Ok(attr) => {
            let (s1, key) = sem_key_of(s, attr);
            match key {
                Err(e) => (s1, Err(e)),
                Ok(k) => sem_call_attr(s1, this, k, args.skip(1), d),
            }
        },
    }
}

/// `__get_attr__` and `::`: raw retrieval of the attribute that the first
/// argument names.
pub open spec fn sem_get_attr_native(s: State, this: Object, args: Seq<Object>, d: nat) -> (
    State,
    Result<Object, RuntimeError>,
)
    decreases d, 40nat, 0nat,
{
    match arg(args, 0) {
        Err(e) => (s, Err(e)),
        Ok(attr) => {
            let (s1, key) = sem_key_of(s, attr);
            match key {
                Err(e) => (s1, Err(e)),
                Ok(k) => sem_get(s1, this, k, d),
            }
        },
    }
}

/// `__set_attr__` and `.=`: stores the second argument under the name the
/// first gives, and hands the stored value back.
pub open spec fn sem_set_attr_native(s: State, this: Object, args: Seq<Object>) -> (
    State,
    Result<Object, RuntimeError>,
) {
    match arg(args, 0) {
        Err(e) => (s, Err(e)),
        Ok(attr) => match arg(args, 1) {
            Err(e) => (s, Err(e)),
            Ok(value) => {
                let (s1, key) = sem_key_of(s, attr);
                match key {
                    Err(e) => (s1, Err(e)),
                    Ok(k) => {
                        let (s2, r) = sem_set_attr(s1, this, k, value);
                        match r {
                            Ok(_) => (s2, Ok(value)),
                            Err(e) => (s2, Err(e)),
                        }
                    },
                }
            },
        },
    }
}

/// `__has_attr__`: a boolean that says whether the receiver's own store
/// holds the name.
pub open spec fn sem_has_attr_native(s: State, this: Object, args: Seq<Object>) -> (
    State,
    Result<Object, RuntimeError>,
) {
    match arg(args, 0) {
        Err(e) => (s, Err(e)),
        Ok(attr) => {
            let (s1, key) = sem_key_of(s, attr);
            match key {
                Err(e) => (s1, Err(e)),
                Ok(k) => sem_boolean(s1, s1.get_own(this, k).is_some()),
            }
        },
    }
}

/// `__del_attr__`: removes the name from the receiver's own store and
/// hands back what it held.
pub open spec fn sem_del_attr_native(s: State, this: Object, args: Seq<Object>) -> (
    State,
    Result<Object, RuntimeError>,
) {
    match arg(args, 0) {
        Err(e) => (s, Err(e)),
        Ok(attr) => {
            let (s1, key) = sem_key_of(s, attr);
            match key {
                Err(e) => (s1, Err(e)),
                Ok(k) => sem_del_attr(s1, this, k),
            }
        },
    }
}

/// `.`: receiver retrieval of the attribute that the first argument
/// names.
pub open spec fn sem_dot_get_native(s: State, this: Object, args: Seq<Object>, d: nat) -> (
    State,
    Result<Object, RuntimeError>,
)
    decreases d, 40nat, 0nat,
{
    match arg(args, 0) {
        Err(e) => (s, Err(e)),
        Ok(attr) => {
            let (s1, key) = sem_key_of(s, attr);
            match key {
                Err(e) => (s1, Err(e)),
                Ok(k) => sem_dot_get(s1, this, k, d),
            }
        },
    }
}

/// Retrieval that does not fail on an absent name: where the receiver's
/// own store lacks it, a new "no value" sentinel.
pub open spec fn sem_get_or_default(s: State, obj: Object, key: Literal, d: nat) -> (
    State,
    Result<Object, RuntimeError>,
)
    decreases d, 35nat, 0nat,
{
    if s.get_own(obj, key).is_some() {
        sem_get(s, obj, key, d)
    } else {
        sem_null(s)
    }
}

/// `.?`: retrieval that does not fail on an absent name.
pub open spec fn sem_dot_get_q_native(s: State, this: Object, args: Seq<Object>, d: nat) -> (
    State,
    Result<Object, RuntimeError>,
)
    decreases d, 40nat, 0nat,
{
    match arg(args, 0) {
        Err(e) => (s, Err(e)),
        Ok(attr) => {
            let (s1, key) = sem_key_of(s, attr);
            match key {
                Err(e) => (s1, Err(e)),
                Ok(k) => sem_get_or_default(s1, this, k, d),
            }
        },
    }
}

/// Calling `callable` with no argument through the entry point it
/// exposes: `call_noscope` where that name resolves on it, through its own
/// store, its hook or its class, else `call`.
pub open spec fn sem_scoped_call(s: State, callable: Object, d: nat) -> (
    State,
    Result<Object, RuntimeError>,
)
    decreases d, 35nat, 0nat,
{
    let (s1, r) = sem_resolve(s, callable, Literal { index: CALL_NOSCOPE }, d);
    match r {
        Ok(f) => sem_dispatch(s1, callable, f, Seq::empty(), d),
        Err(RuntimeError::MissingAttribute { .. }) => sem_call_attr(
            s1,
            callable,
            Literal { index: CALL },
            Seq::empty(),
            d,
        ),
        Err(e) => (s1, Err(e)),
    }
}

/// `instance_exec`: calls the first argument in a frame that the receiver
/// owns. The frame is left when the call is over, however it ended.
pub open spec fn sem_instance_exec(s: State, this: Object, args: Seq<Object>, d: nat) -> (
    State,
    Result<Object, RuntimeError>,
)
    decreases d, 40nat, 0nat,
{
    match arg(args, 0) {
        Err(e) => (s, Err(e)),
        Ok(callable) => {
            let (s1, r) = sem_scoped_call(s.push_frame(this, Seq::empty()), callable, d);
            (s1.pop_frame(), r)
        },
    }
}

/// `instance_jump`: as `instance_exec`, but no frame is left; after a
/// call that succeeded a second one is entered. It stands outside the
/// stack discipline on purpose.
pub open spec fn sem_instance_jump(s: State, this: Object, args: Seq<Object>, d: nat) -> (
    State,
    Result<Object, RuntimeError>,
)
    decreases d, 40nat, 0nat,
{
    match arg(args, 0) {
        Err(e) => (s, Err(e)),
        Ok(callable) => {
            let (s1, r) = sem_scoped_call(s.leak_frame(this, Seq::empty()), callable, d);
            match r {
                Ok(v) => (s1.leak_frame(this, Seq::empty()), Ok(v)),
                Err(e) => (s1, Err(e)),
            }
        },
    }
}

/// `::@`: the receiver names an attribute, which is read, raw, on the
/// owner of the oldest frame. Where no frame is active, the error that
/// reading `this` gives.
pub open spec fn sem_root_get(s: State, this: Object, d: nat) -> (
    State,
    Result<Object, RuntimeError>,
)
    decreases d, 40nat, 0nat,
{
    if s.stack.len() == 0 {
        (s, Err(RuntimeError::MissingAttribute { key: Literal { index: THIS }, receiver: this }))
    } else {
        let (s1, key) = sem_key_of(s, this);
        match key {
            Err(e) => (s1, Err(e)),
            Ok(k) => sem_get(s1, s.stack[0].owner, k, d),
        }
    }
}

/// `call` of a function object: applies the function it carries.
pub open spec fn sem_function_call(s: State, this: Object, args: Seq<Object>, d: nat) -> (
    State,
    Result<Object, RuntimeError>,
)
    decreases d, 40nat, 0nat,
{
    match s.objects[this.id as int].payload {
        PayloadView::Function(f) => if d == 0 {
            (s, Err(RuntimeError::DepthExceeded))
        } else {
            sem_apply(s, f, args, (d - 1) as nat)
        },
        _ => (s, Err(RuntimeError::DowncastFailure { object: this, expected: Class::Function })),
    }
}

/// `call` of a bound method: the wrapped callable is called with the
/// remembered owner before the arguments.
pub open spec fn sem_bound_call(s: State, this: Object, args: Seq<Object>, d: nat) -> (
    State,
    Result<Object, RuntimeError>,
)
    decreases d, 40nat, 0nat,
{
    let (s1, owner) = sem_get(s, this, Literal { index: BOUND_OWNER }, d);
    match owner {
        Err(e) => (s1, Err(e)),
        Ok(o) => {
            let (s2, callable) = sem_get(s1, this, Literal { index: BOUND_OBJECT }, d);
            match callable {
                Err(e) => (s2, Err(e)),
                Ok(c) => sem_call_attr(s2, c, Literal { index: CALL }, seq![o] + args, d),
            }
        },
    }
}

/// `@text` and `inspect` of a regular expression: its text.
pub open spec fn sem_regex_at_text(s: State, this: Object) -> (State, Result<Object, RuntimeError>) {
    match regex_of(s, this) {
        Ok(r) => sem_text(s, r.render()),
        Err(e) => (s, Err(e)),
    }
}

/// `==` of regular expressions: whether pattern and flags agree.
pub open spec fn sem_regex_eql(s: State, this: Object, args: Seq<Object>) -> (
    State,
    Result<Object, RuntimeError>,
) {
    match arg(args, 0) {
        Err(e) => (s, Err(e)),
        Ok(rhs) => match regex_of(s, this) {
            Err(e) => (s, Err(e)),
            Ok(a) => match regex_of(s, rhs) {
                Err(e) => (s, Err(e)),
                Ok(b) => sem_boolean(s, a == b),
            },
        },
    }
}

/// `does_match`: whether the receiver matches in the text of the first
/// argument.
pub open spec fn sem_regex_does_match(s: State, this: Object, args: Seq<Object>, d: nat) -> (
    State,
    Result<Object, RuntimeError>,
)
    decreases d, 40nat, 0nat,
{
    match arg(args, 0) {
        Err(e) => (s, Err(e)),
        Ok(rhs) => match regex_of(s, this) {
            Err(e) => (s, Err(e)),
            Ok(r) => {
                let (s1, text) = sem_text_of(s, rhs, d);
                match text {
                    Err(e) => (s1, Err(e)),
                    Ok(t) => sem_boolean(s1, regex_is_match(r.pattern, r.flags, t)),
                }
            },
        },
    }
}

/// `match`: the groups of the first match of the receiver in the text of
/// the first argument, as a list; the "no value" sentinel where nothing
/// matches.
pub open spec fn sem_regex_match(s: State, this: Object, args: Seq<Object>, d: nat) -> (
    State,
    Result<Object, RuntimeError>,
)
    decreases d, 40nat, 0nat,
{
    match arg(args, 0) {
        Err(e) => (s, Err(e)),
        Ok(rhs) => match regex_of(s, this) {
            Err(e) => (s, Err(e)),
            Ok(r) => {
                let (s1, text) = sem_text_of(s, rhs, d);
                match text {
                    Err(e) => (s1, Err(e)),
                    Ok(t) => match regex_captures(r.pattern, r.flags, t) {
                        None => sem_null(s1),
                        Some(groups) => {
                            let (s2, items) = sem_group_objects(s1, groups);
                            sem_list(s2, items)
                        },
                    },
                }
            },
        },
    }
}

/// A method of the runtime, called on `this` with `args`.
pub open spec fn sem_native(s: State, b: Builtin, this: Object, args: Seq<Object>, d: nat) -> (
    State,
    Result<Object, RuntimeError>,
)
    decreases d, 45nat, 0nat,
{
    match b {
        Builtin::PristineInspect => sem_inspect(s, this),
        Builtin::PristineKeys => sem_keys_list(s, this, args, d),
        Builtin::PristineCallAttr => sem_call_attr_native(s, this, args, d),
        Builtin::PristineGetAttr => sem_get_attr_native(s, this, args, d),
        Builtin::PristineSetAttr => sem_set_attr_native(s, this, args),
        Builtin::PristineHasAttr => sem_has_attr_native(s, this, args),
        Builtin::PristineDelAttr => sem_del_attr_native(s, this, args),
        Builtin::PristineDotGetAttr => sem_dot_get_native(s, this, args, d),
        Builtin::PristineDotGetAttrQ => sem_dot_get_q_native(s, this, args, d),
        Builtin::PristineInstanceExec => sem_instance_exec(s, this, args, d),
        Builtin::PristineInstanceJump => sem_instance_jump(s, this, args, d),
        Builtin::PristineRootGetAttr => sem_root_get(s, this, d),
        Builtin::FunctionCall => sem_function_call(s, this, args, d),
        Builtin::BoundFunctionCall => sem_bound_call(s, this, args, d),
        Builtin::RegexAtText => sem_regex_at_text(s, this),
        Builtin::RegexInspect => sem_regex_at_text(s, this),
        Builtin::RegexEql => sem_regex_eql(s, this, args),
        Builtin::RegexDoesMatch => sem_regex_does_match(s, this, args, d),
        Builtin::RegexMatch => sem_regex_match(s, this, args, d),
    }
}

} // verus!
