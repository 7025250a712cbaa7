//! The state of a runtime as contracts see it: objects, symbols, frames
//! and class registry as plain sequences, and the elementary changes to
//! them.

use vstd::prelude::*;
use crate::class::Class;
use crate::class::Function;
use crate::class::CLASS_COUNT;
use crate::literal::Literal;
use crate::literal::reserved_names;
use crate::literal::RESERVED;
use crate::object::Object;
use crate::object::PayloadView;
use crate::store::Entries;
use crate::store::distinct;
use crate::store::lookup;
use crate::store::put;
use crate::store::del;

verus! {

/// One object: its own attributes, its parents in order, its payload.
pub struct ObjectView {
    pub attrs: Entries,
    pub parents: Seq<Object>,
    pub payload: PayloadView,
}

/// One active invocation: the object that owns it and the arguments it was
/// entered with.
pub struct FrameView {
    pub owner: Object,
    pub args: Seq<Object>,
}

/// The registry's record of one class: its class object once it was made,
/// and whether the installing of its methods was claimed.
#[derive(Clone, Copy, Debug, PartialEq, Eq, Structural)]
pub struct ClassSlot {
    pub object: Option<Object>,
    pub claimed: bool,
}

/// A whole runtime. The identity of an object is its place in `objects`;
/// a literal is a place in `symbols`; the active frame is the last of
/// `stack`.
pub struct State {
    pub objects: Seq<ObjectView>,
    pub symbols: Seq<Seq<char>>,
    pub stack: Seq<FrameView>,
    pub classes: Seq<ClassSlot>,
    /// How many frames `instance_jump` has entered, which nothing leaves.
    pub jumps: nat,
}

/// Where `text` stands among the symbols, if it does.
pub open spec fn symbol_position(symbols: Seq<Seq<char>>, text: Seq<char>) -> Option<int>
    decreases symbols.len(),
{
    if symbols.len() == 0 {
        None
    } else {
        match symbol_position(symbols.drop_last(), text) {
            Some(i) => Some(i),
            None => if symbols.last() == text {
                Some(symbols.len() - 1)
            } else {
                None
            },
        }
    }
}

/// The owners of the frames, the active one first.
pub open spec fn owners(stack: Seq<FrameView>) -> Seq<Object> {
    Seq::new(stack.len(), |i: int| stack[stack.len() - 1 - i].owner)
}

impl State {
    /// Whether `o` is an object of this runtime.
    pub open spec fn has(self, o: Object) -> bool {
        o.id < self.objects.len()
    }

    /// Whether `k` is a literal of this runtime.
    pub open spec fn knows(self, k: Literal) -> bool {
        k.index < self.symbols.len()
    }

    /// Whether all of `os` are objects of this runtime.
    pub open spec fn has_all(self, os: Seq<Object>) -> bool {
        forall|i: int| 0 <= i < os.len() ==> self.has(#[trigger] os[i])
    }

    /// Whether a payload names only objects and literals of this runtime.
    pub open spec fn payload_ok(self, p: PayloadView) -> bool {
        match p {
            PayloadView::List(items) => self.has_all(items),
            PayloadView::Function(Function::Constant(o)) => self.has(o),
            PayloadView::Function(Function::Reader(k)) => self.knows(k),
            _ => true,
        }
    }

    /// Whether an object names only objects and literals of this runtime,
    /// each attribute once.
    pub open spec fn object_ok(self, v: ObjectView) -> bool {
        &&& distinct(v.attrs)
        &&& forall|i: int|
            0 <= i < v.attrs.len() ==> self.knows((#[trigger] v.attrs[i]).0) && self.has(
                v.attrs[i].1,
            )
        &&& self.has_all(v.parents)
        &&& self.payload_ok(v.payload)
    }

    /// Whether a frame names only objects of this runtime.
    pub open spec fn frame_ok(self, f: FrameView) -> bool {
        self.has(f.owner) && self.has_all(f.args)
    }

    /// The invariant of a runtime: every handle and literal it stores is
    /// its own, no store holds a name twice, and the symbol table starts
    /// with the reserved names and holds no text twice.
    pub open spec fn wf(self) -> bool {
        &&& self.classes.len() == CLASS_COUNT
        &&& self.symbols.len() >= RESERVED
        &&& self.symbols.subrange(0, RESERVED as int) == reserved_names()
        &&& self.symbols.no_duplicates()
        &&& forall|i: int| 0 <= i < self.objects.len() ==> self.object_ok(#[trigger] self.objects[i])
        &&& forall|i: int| 0 <= i < self.stack.len() ==> self.frame_ok(#[trigger] self.stack[i])
        &&& forall|i: int|
            0 <= i < self.classes.len() ==> ((#[trigger] self.classes[i]).object matches Some(o)
                ==> self.has(o))
    }

    /// Whether this state can follow `old`: no object and no symbol is
    /// lost or renamed, and no class object is replaced.
    pub open spec fn extends(self, old: State) -> bool {
        &&& old.objects.len() <= self.objects.len()
        &&& old.symbols.len() <= self.symbols.len()
        &&& forall|i: int| 0 <= i < old.symbols.len() ==> self.symbols[i] == old.symbols[i]
        &&& old.classes.len() == self.classes.len()
        &&& forall|i: int|
            0 <= i < old.classes.len() && old.classes[i].object is Some ==> self.classes[i].object
                == old.classes[i].object
        &&& forall|i: int|
            0 <= i < old.classes.len() && old.classes[i].claimed ==> self.classes[i].claimed
    }

    /// Whether this state keeps the frames of `old`: every frame of `old`
    /// is where it was, and no frame that `instance_jump` entered was
    /// forgotten.
    pub open spec fn keeps_frames(self, old: State) -> bool {
        &&& old.jumps <= self.jumps
        &&& old.stack.len() <= self.stack.len()
        &&& forall|i: int| 0 <= i < old.stack.len() ==> (#[trigger] self.stack[i]) == old.stack[i]
    }

    /// The stack discipline: where `instance_jump` entered no frame since
    /// `old`, the stack is that of `old`.
    pub open spec fn neutral(self, old: State) -> bool {
        self.jumps == old.jumps ==> self.stack == old.stack
    }

    /// Whether every object of `old` is in this state as it was in `old`.
    pub open spec fn keeps(self, old: State) -> bool {
        &&& old.objects.len() <= self.objects.len()
        &&& forall|i: int| 0 <= i < old.objects.len() ==> self.objects[i] == old.objects[i]
    }

    /// Whether the objects and the symbols can be counted by the machine.
    pub open spec fn fits(self) -> bool {
        self.objects.len() <= usize::MAX && self.symbols.len() <= usize::MAX
    }

    /// A runtime with no object, no frame and no class made yet.
    pub open spec fn initial() -> State {
        State {
            objects: Seq::empty(),
            symbols: reserved_names(),
            stack: Seq::empty(),
            classes: Seq::new(CLASS_COUNT as nat, |i: int| ClassSlot { object: None, claimed: false }),
            jumps: 0,
        }
    }

    /// The state with one object replaced.
    pub open spec fn with_object(self, o: Object, v: ObjectView) -> State {
        State { objects: self.objects.update(o.id as int, v), ..self }
    }

    /// A new object with the next identity, no attributes, and the given
    /// parents and payload.
    pub open spec fn create(self, parents: Seq<Object>, payload: PayloadView) -> (State, Object) {
        (
            State {
                objects: self.objects.push(ObjectView { attrs: Seq::empty(), parents, payload }),
                ..self
            },
            Object { id: self.objects.len() as usize },
        )
    }

    /// A new object that is its own sole parent: the end of a chain.
    pub open spec fn create_root(self, payload: PayloadView) -> (State, Object) {
        self.create(seq![Object { id: self.objects.len() as usize }], payload)
    }

    /// The value `o` itself stores under `k`.
    pub open spec fn get_own(self, o: Object, k: Literal) -> Option<Object> {
        lookup(self.objects[o.id as int].attrs, k)
    }

    /// The state after `o` stores `v` under `k`.
    pub open spec fn set_own(self, o: Object, k: Literal, v: Object) -> State {
        let old = self.objects[o.id as int];
        self.with_object(o, ObjectView { attrs: put(old.attrs, k, v), ..old })
    }

    /// The state after `o` forgets `k`.
    pub open spec fn del_own(self, o: Object, k: Literal) -> State {
        let old = self.objects[o.id as int];
        self.with_object(o, ObjectView { attrs: del(old.attrs, k), ..old })
    }

    /// The state after the parents of `o` are replaced.
    pub open spec fn set_parents(self, o: Object, parents: Seq<Object>) -> State {
        let old = self.objects[o.id as int];
        self.with_object(o, ObjectView { parents, ..old })
    }

    /// The state with one more frame, which becomes the active one.
    pub open spec fn push_frame(self, owner: Object, args: Seq<Object>) -> State {
        State { stack: self.stack.push(FrameView { owner, args }), ..self }
    }

    /// The state with one more frame that `instance_jump` entered: it
    /// becomes the active one and is counted.
    pub open spec fn leak_frame(self, owner: Object, args: Seq<Object>) -> State {
        State { jumps: self.jumps + 1, ..self.push_frame(owner, args) }
    }

    /// The state without its active frame.
    pub open spec fn pop_frame(self) -> State {
        if self.stack.len() == 0 {
            self
        } else {
            State { stack: self.stack.drop_last(), ..self }
        }
    }

    /// The frame `index` steps below the active one.
    pub open spec fn frame_at(self, index: int) -> Option<FrameView> {
        if 0 <= index < self.stack.len() {
            Some(self.stack[self.stack.len() - 1 - index])
        } else {
            None
        }
    }

    /// The literal of `text`: the one it has, or a new one at the end of
    /// the table.
    pub open spec fn intern(self, text: Seq<char>) -> (State, Literal) {
        match symbol_position(self.symbols, text) {
            Some(i) => (self, Literal { index: i as usize }),
            None => (
                State { symbols: self.symbols.push(text), ..self },
                Literal { index: self.symbols.len() as usize },
            ),
        }
    }

    /// The state with the class object of `c` recorded.
    pub open spec fn with_class_object(self, c: Class, o: Object) -> State {
        State {
            classes: self.classes.update(
                c.slot(),
                ClassSlot { object: Some(o), claimed: self.classes[c.slot()].claimed },
            ),
            ..self
        }
    }

    /// The state with the installing of the methods of `c` claimed.
    pub open spec fn with_claim(self, c: Class) -> State {
        State {
            classes: self.classes.update(
                c.slot(),
                ClassSlot { object: self.classes[c.slot()].object, claimed: true },
            ),
            ..self
        }
    }

    /// The class object of `c`: the one on record, or a new bare object
    /// whose parent is the class object of the base of `c`. The base class
    /// is its own parent.
    pub open spec fn class_of(self, c: Class) -> (State, Object)
        decreases c.rank(),
    {
        match self.classes[c.slot()].object {
            Some(o) => (self, o),
            None => match c.base() {
                None => {
                    let (s1, o) = self.create_root(PayloadView::Pristine);
                    (s1.with_class_object(c, o), o)
                },
                Some(b) => {
                    let (s1, p) = self.class_of(b);
                    let (s2, o) = s1.create(seq![p], PayloadView::Pristine);
                    (s2.with_class_object(c, o), o)
                },
            },
        }
    }

    /// A new object of class `c`: its sole parent is the class object.
    pub open spec fn instantiate(self, c: Class, payload: PayloadView) -> (State, Object) {
        let (s1, cls) = self.class_of(c);
        s1.create(seq![cls], payload)
    }

    /// Whether `o` is the "no value" sentinel.
    pub open spec fn is_null(self, o: Object) -> bool {
        self.objects[o.id as int].payload is Null
    }
}

} // verus!
