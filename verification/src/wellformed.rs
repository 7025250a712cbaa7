//! The elementary changes of a state keep its invariant.

use vstd::prelude::*;
use crate::class::Class;
use crate::literal::Literal;
use crate::literal::reserved_names_distinct;
use crate::literal::reserved_names;
use crate::literal::RESERVED;
use crate::object::Object;
use crate::object::PayloadView;
use crate::state::State;
use crate::state::ObjectView;
use crate::state::FrameView;
use crate::state::symbol_position;
use crate::state::owners;
use crate::store::put_keeps_distinct;
use crate::store::del_keeps_distinct;
use crate::store::position_is_first;
use crate::store::put;
use crate::store::del;

verus! {

/// What is well formed in a state stays so in a state with more objects
/// and symbols.
pub proof fn ok_grows(s: State, t: State)
    requires
        s.objects.len() <= t.objects.len(),
        s.symbols.len() <= t.symbols.len(),
    ensures
        forall|v: ObjectView| s.object_ok(v) ==> #[trigger] t.object_ok(v),
        forall|f: FrameView| s.frame_ok(f) ==> #[trigger] t.frame_ok(f),
        forall|p: PayloadView| s.payload_ok(p) ==> #[trigger] t.payload_ok(p),
        forall|os: Seq<Object>| s.has_all(os) ==> #[trigger] t.has_all(os),
{
    assert forall|os: Seq<Object>| s.has_all(os) implies #[trigger] t.has_all(os) by {
        assert forall|i: int| 0 <= i < os.len() implies t.has(#[trigger] os[i]) by {
            assert(s.has(os[i]));
        }
    }
    assert forall|v: ObjectView| s.object_ok(v) implies #[trigger] t.object_ok(v) by {
        assert forall|i: int| 0 <= i < v.attrs.len() implies t.knows((#[trigger] v.attrs[i]).0)
            && t.has(v.attrs[i].1) by {
            assert(s.knows(v.attrs[i].0) && s.has(v.attrs[i].1));
        }
        assert(s.has_all(v.parents));
        assert(s.payload_ok(v.payload));
    }
}

/// The empty runtime is well formed.
pub proof fn initial_wf()
    ensures
        State::initial().wf(),
{
    reserved_names_distinct();
    let s = State::initial();
    assert(s.symbols.subrange(0, RESERVED as int) =~= reserved_names());
}

/// A new object keeps the state well formed and is an object of it.
pub proof fn create_wf(s: State, parents: Seq<Object>, payload: PayloadView)
    requires
        s.wf(),
        s.payload_ok(payload),
        forall|i: int| 0 <= i < parents.len() ==> (#[trigger] parents[i]).id <= s.objects.len(),
    ensures
        s.create(parents, payload).0.wf(),
        s.create(parents, payload).0.extends(s),
        s.create(parents, payload).0.has(s.create(parents, payload).1),
        s.create(parents, payload).0.objects.len() == s.objects.len() + 1,
        s.objects.len() <= usize::MAX ==> s.create(parents, payload).1.id == s.objects.len(),
{
    let (t, o) = s.create(parents, payload);
    ok_grows(s, t);
    let v = ObjectView { attrs: Seq::empty(), parents, payload };
    assert(t.object_ok(v)) by {
        assert(s.payload_ok(payload));
        assert(t.payload_ok(payload));
    }
    assert forall|i: int| 0 <= i < t.objects.len() implies t.object_ok(#[trigger] t.objects[i]) by {
        if i < s.objects.len() {
            assert(s.object_ok(s.objects[i]));
        }
    }
    assert forall|i: int| 0 <= i < t.stack.len() implies t.frame_ok(#[trigger] t.stack[i]) by {
        assert(s.frame_ok(s.stack[i]));
    }
}

/// Replacing one object by a well-formed one keeps the state well formed.
pub proof fn with_object_wf(s: State, o: Object, v: ObjectView)
    requires
        s.wf(),
        s.has(o),
        s.object_ok(v),
    ensures
        s.with_object(o, v).wf(),
        s.with_object(o, v).extends(s),
        s.with_object(o, v).objects.len() == s.objects.len(),
{
    let t = s.with_object(o, v);
    ok_grows(s, t);
    assert forall|i: int| 0 <= i < t.objects.len() implies t.object_ok(#[trigger] t.objects[i]) by {
        if i != o.id {
            assert(s.object_ok(s.objects[i]));
        }
    }
    assert forall|i: int| 0 <= i < t.stack.len() implies t.frame_ok(#[trigger] t.stack[i]) by {
        assert(s.frame_ok(s.stack[i]));
    }
}

/// Setting an attribute keeps the state well formed.
pub proof fn set_own_wf(s: State, o: Object, k: Literal, v: Object)
    requires
        s.wf(),
        s.has(o),
        s.knows(k),
        s.has(v),
    ensures
        s.set_own(o, k, v).wf(),
        s.set_own(o, k, v).extends(s),
        s.set_own(o, k, v).objects.len() == s.objects.len(),
{
    let old = s.objects[o.id as int];
    let after = ObjectView { attrs: put(old.attrs, k, v), ..old };
    assert(s.object_ok(old));
    put_keeps_distinct(old.attrs, k, v);
    position_is_first(old.attrs, k);
    assert forall|i: int| 0 <= i < after.attrs.len() implies s.knows(
        (#[trigger] after.attrs[i]).0,
    ) && s.has(after.attrs[i].1) by {
        if i < old.attrs.len() {
            assert(s.knows(old.attrs[i].0) && s.has(old.attrs[i].1));
        }
    }
    with_object_wf(s, o, after);
}

/// Deleting an attribute keeps the state well formed.
pub proof fn del_own_wf(s: State, o: Object, k: Literal)
    requires
        s.wf(),
        s.has(o),
    ensures
        s.del_own(o, k).wf(),
        s.del_own(o, k).extends(s),
        s.del_own(o, k).objects.len() == s.objects.len(),
{
    let old = s.objects[o.id as int];
    let after = ObjectView { attrs: del(old.attrs, k), ..old };
    assert(s.object_ok(old));
    del_keeps_distinct(old.attrs, k);
    position_is_first(old.attrs, k);
    assert forall|i: int| 0 <= i < after.attrs.len() implies s.knows(
        (#[trigger] after.attrs[i]).0,
    ) && s.has(after.attrs[i].1) by {
        match crate::store::position(old.attrs, k) {
            Some(p) => {
                let a = if i < p { i } else { i + 1 };
                assert(after.attrs[i] == old.attrs[a]);
                assert(s.knows(old.attrs[a].0) && s.has(old.attrs[a].1));
            },
            None => {
                assert(s.knows(old.attrs[i].0) && s.has(old.attrs[i].1));
            },
        }
    }
    with_object_wf(s, o, after);
}

/// Replacing the parents of an object keeps the state well formed.
pub proof fn set_parents_wf(s: State, o: Object, parents: Seq<Object>)
    requires
        s.wf(),
        s.has(o),
        s.has_all(parents),
    ensures
        s.set_parents(o, parents).wf(),
        s.set_parents(o, parents).extends(s),
        s.set_parents(o, parents).objects.len() == s.objects.len(),
{
    let old = s.objects[o.id as int];
    assert(s.object_ok(old));
    with_object_wf(s, o, ObjectView { parents, ..old });
}

/// Entering a frame keeps the state well formed.
pub proof fn push_frame_wf(s: State, owner: Object, args: Seq<Object>)
    requires
        s.wf(),
        s.has(owner),
        s.has_all(args),
    ensures
        s.push_frame(owner, args).wf(),
        s.push_frame(owner, args).extends(s),
{
    let t = s.push_frame(owner, args);
    assert forall|i: int| 0 <= i < t.objects.len() implies t.object_ok(#[trigger] t.objects[i]) by {
        assert(s.object_ok(s.objects[i]));
    }
    assert forall|i: int| 0 <= i < t.stack.len() implies t.frame_ok(#[trigger] t.stack[i]) by {
        if i < s.stack.len() {
            assert(s.frame_ok(s.stack[i]));
        }
    }
}

/// Leaving a frame keeps the state well formed.
pub proof fn pop_frame_wf(s: State)
    requires
        s.wf(),
    ensures
        s.pop_frame().wf(),
        s.pop_frame().extends(s),
{
    let t = s.pop_frame();
    assert forall|i: int| 0 <= i < t.objects.len() implies t.object_ok(#[trigger] t.objects[i]) by {
        assert(s.object_ok(s.objects[i]));
    }
    assert forall|i: int| 0 <= i < t.stack.len() implies t.frame_ok(#[trigger] t.stack[i]) by {
        assert(s.frame_ok(s.stack[i]));
    }
}

/// The owners of the frames of a well-formed state are objects of it.
pub proof fn owners_ok(s: State)
    requires
        s.wf(),
    ensures
        s.has_all(owners(s.stack)),
{
    let os = owners(s.stack);
    assert forall|i: int| 0 <= i < os.len() implies s.has(#[trigger] os[i]) by {
        assert(s.frame_ok(s.stack[s.stack.len() - 1 - i]));
    }
}

/// What `symbol_position` finds is a place of that text; what it does not
/// find is nowhere.
pub proof fn symbol_position_sound(symbols: Seq<Seq<char>>, text: Seq<char>)
    ensures
        match symbol_position(symbols, text) {
            Some(i) => 0 <= i < symbols.len() && symbols[i] == text && forall|j: int|
                0 <= j < i ==> symbols[j] != text,
            None => forall|j: int| 0 <= j < symbols.len() ==> symbols[j] != text,
        },
    decreases symbols.len(),
{
    if symbols.len() > 0 {
        let front = symbols.drop_last();
        symbol_position_sound(front, text);
        assert forall|j: int| 0 <= j < front.len() implies front[j] == symbols[j] by {}
        match symbol_position(front, text) {
            Some(i) => {
                assert(front[i] == symbols[i]);
            },
            None => {
                assert forall|j: int| 0 <= j < front.len() implies symbols[j] != text by {
                    assert(front[j] != text);
                }
            },
        }
    }
}

/// Interning keeps the state well formed; the literal it gives stands for
/// the text it was given.
pub proof fn intern_wf(s: State, text: Seq<char>)
    requires
        s.wf(),
    ensures
        s.intern(text).0.wf(),
        s.intern(text).0.extends(s),
        s.intern(text).0.knows(s.intern(text).1),
        s.intern(text).0.objects == s.objects,
        s.symbols.len() < usize::MAX ==> s.intern(text).0.symbols[s.intern(text).1.index as int]
            == text,
{
    symbol_position_sound(s.symbols, text);
    let (t, k) = s.intern(text);
    if symbol_position(s.symbols, text) is None {
        ok_grows(s, t);
        assert(t.symbols.subrange(0, RESERVED as int) =~= s.symbols.subrange(0, RESERVED as int));
        assert forall|i: int| 0 <= i < t.objects.len() implies t.object_ok(
            #[trigger] t.objects[i],
        ) by {
            assert(s.object_ok(s.objects[i]));
        }
        assert forall|i: int| 0 <= i < t.stack.len() implies t.frame_ok(#[trigger] t.stack[i]) by {
            assert(s.frame_ok(s.stack[i]));
        }
    }
}

/// Recording a class object keeps the state well formed.
pub proof fn with_class_object_wf(s: State, c: Class, o: Object)
    requires
        s.wf(),
        s.has(o),
        s.classes[c.slot()].object is None,
    ensures
        s.with_class_object(c, o).wf(),
        s.with_class_object(c, o).extends(s),
        s.with_class_object(c, o).objects == s.objects,
{
    let t = s.with_class_object(c, o);
    assert forall|i: int| 0 <= i < t.objects.len() implies t.object_ok(#[trigger] t.objects[i]) by {
        assert(s.object_ok(s.objects[i]));
    }
    assert forall|i: int| 0 <= i < t.stack.len() implies t.frame_ok(#[trigger] t.stack[i]) by {
        assert(s.frame_ok(s.stack[i]));
    }
}

/// Claiming a class keeps the state well formed.
pub proof fn with_claim_wf(s: State, c: Class)
    requires
        s.wf(),
    ensures
        s.with_claim(c).wf(),
        s.with_claim(c).extends(s),
        s.with_claim(c).objects == s.objects,
{
    let t = s.with_claim(c);
    assert forall|i: int| 0 <= i < t.objects.len() implies t.object_ok(#[trigger] t.objects[i]) by {
        assert(s.object_ok(s.objects[i]));
    }
    assert forall|i: int| 0 <= i < t.stack.len() implies t.frame_ok(#[trigger] t.stack[i]) by {
        assert(s.frame_ok(s.stack[i]));
    }
}


/// Asking for a class object keeps the state well formed, and the object
/// handed out is the one on record from then on.
pub proof fn class_of_wf(s: State, c: Class)
    requires
        s.wf(),
    ensures
        s.class_of(c).0.wf(),
        s.class_of(c).0.extends(s),
        s.class_of(c).0.has(s.class_of(c).1),
        s.class_of(c).0.classes[c.slot()].object == Some(s.class_of(c).1),
        s.class_of(c).0.symbols == s.symbols,
        s.class_of(c).0.stack == s.stack,
    decreases c.rank(),
{
    match s.classes[c.slot()].object {
        Some(o) => {
            assert(s.has(o));
        },
        None => match c.base() {
            None => {
                let (s1, o) = s.create_root(PayloadView::Pristine);
                create_wf(s, seq![Object { id: s.objects.len() as usize }], PayloadView::Pristine);
                with_class_object_wf(s1, c, o);
            },
            Some(b) => {
                class_of_wf(s, b);
                let (s1, p) = s.class_of(b);
                create_wf(s1, seq![p], PayloadView::Pristine);
                let (s2, o) = s1.create(seq![p], PayloadView::Pristine);
                assert(s1.classes[c.slot()].object is None) by {
                    class_slot_untouched(s, b, c);
                }
                with_class_object_wf(s2, c, o);
            },
        },
    }
}

/// Asking for the class object of `b` leaves the record of a class that
/// `b` does not descend from as it was.
pub proof fn class_slot_untouched(s: State, b: Class, c: Class)
    requires
        s.classes.len() == crate::class::CLASS_COUNT,
        b.rank() < c.rank(),
    ensures
        s.class_of(b).0.classes[c.slot()] == s.classes[c.slot()],
        s.class_of(b).0.classes.len() == s.classes.len(),
    decreases b.rank(),
{
    match s.classes[b.slot()].object {
        Some(o) => {},
        None => match b.base() {
            None => {},
            Some(bb) => {
                class_slot_untouched(s, bb, c);
            },
        },
    }
}

/// A new instance of a class keeps the state well formed and is an object
/// of it.
pub proof fn instantiate_wf(s: State, c: Class, payload: PayloadView)
    requires
        s.wf(),
        s.payload_ok(payload),
    ensures
        s.instantiate(c, payload).0.wf(),
        s.instantiate(c, payload).0.extends(s),
        s.instantiate(c, payload).0.has(s.instantiate(c, payload).1),
        s.instantiate(c, payload).0.symbols == s.symbols,
        s.instantiate(c, payload).0.stack == s.stack,
{
    class_of_wf(s, c);
    let (s1, cls) = s.class_of(c);
    ok_grows(s, s1);
    create_wf(s1, seq![cls], payload);
}


/// What an object of a well-formed state stores is an object of that
/// state.
pub proof fn own_value_ok(s: State, obj: Object, key: Literal)
    requires
        s.wf(),
        s.has(obj),
    ensures
        s.get_own(obj, key) matches Some(v) ==> s.has(v),
        s.has_all(s.objects[obj.id as int].parents),
        s.payload_ok(s.objects[obj.id as int].payload),
{
    let data = s.objects[obj.id as int];
    assert(s.object_ok(data));
    position_is_first(data.attrs, key);
    match crate::store::position(data.attrs, key) {
        Some(i) => {
            assert(s.has(data.attrs[i].1));
        },
        None => {},
    }
}

/// The names an object of a well-formed state stores are literals of that
/// state.
pub proof fn own_names_ok(s: State, obj: Object)
    requires
        s.wf(),
        s.has(obj),
    ensures
        forall|i: int|
            0 <= i < s.objects[obj.id as int].attrs.len() ==> s.knows(
                #[trigger] crate::store::names(s.objects[obj.id as int].attrs)[i],
            ),
{
    let data = s.objects[obj.id as int];
    assert(s.object_ok(data));
    assert forall|i: int| 0 <= i < data.attrs.len() implies s.knows(
        #[trigger] crate::store::names(data.attrs)[i],
    ) by {
        assert(s.knows(data.attrs[i].0));
    }
}


/// Asking for a class object touches no object that was there before.
pub proof fn class_of_keeps(s: State, c: Class)
    ensures
        s.class_of(c).0.keeps(s),
    decreases c.rank(),
{
    match s.classes[c.slot()].object {
        Some(o) => {},
        None => match c.base() {
            None => {},
            Some(b) => {
                class_of_keeps(s, b);
            },
        },
    }
}

/// A new instance touches no object that was there before; it is the
/// newest object, and carries the payload it was given.
pub proof fn instantiate_keeps(s: State, c: Class, payload: PayloadView)
    ensures
        s.instantiate(c, payload).0.keeps(s),
        s.instantiate(c, payload).0.objects.len() > s.objects.len(),
        s.instantiate(c, payload).0.objects.last().payload == payload,
        s.instantiate(c, payload).0.objects.last().attrs.len() == 0,
        s.instantiate(c, payload).0.fits() ==> s.instantiate(c, payload).1.id == s.instantiate(
            c,
            payload,
        ).0.objects.len() - 1,
{
    class_of_keeps(s, c);
}

} // verus!
