//! The runtime itself: the objects, the symbol table, the call stack and
//! the class registry, with the elementary operations on them.

use vstd::prelude::*;
use vstd::string::StringExecFns;
use crate::class::Class;
use crate::class::CLASS_COUNT;
use crate::literal::Literal;
use crate::literal::reserved_names;
use crate::object::Object;
use crate::object::Payload;
use crate::state::ClassSlot;
use crate::state::FrameView;
use crate::state::ObjectView;
use crate::state::State;
use crate::store::position;
use crate::store::position_found;
use crate::store::position_absent;
use crate::store::names;
use crate::wellformed::create_wf;
use crate::wellformed::del_own_wf;
use crate::wellformed::initial_wf;
use crate::wellformed::intern_wf;
use crate::wellformed::pop_frame_wf;
use crate::wellformed::push_frame_wf;
use crate::wellformed::set_own_wf;
use crate::wellformed::set_parents_wf;
use crate::wellformed::symbol_position_sound;
use crate::wellformed::with_claim_wf;
use crate::wellformed::with_class_object_wf;

verus! {

/// What the runtime keeps of one object.
pub struct ObjectData {
    pub attrs: Vec<(Literal, Object)>,
    pub parents: Vec<Object>,
    pub payload: Payload,
}

impl View for ObjectData {
    type V = ObjectView;

    open spec fn view(&self) -> ObjectView {
        ObjectView { attrs: self.attrs@, parents: self.parents@, payload: self.payload@ }
    }
}

/// One entry of the call stack.
#[derive(Debug)]
pub struct StackFrame {
    pub owner: Object,
    pub args: Vec<Object>,
}

impl View for StackFrame {
    type V = FrameView;

    open spec fn view(&self) -> FrameView {
        FrameView { owner: self.owner, args: self.args@ }
    }
}

/// A runtime. Objects are named by handles; several runtimes share
/// nothing.
pub struct Runtime {
    objects: Vec<ObjectData>,
    symbols: Vec<String>,
    stack: Vec<StackFrame>,
    classes: Vec<ClassSlot>,
    depth: usize,
    limit: usize,
    jumps: Ghost<nat>,
}

impl View for Runtime {
    type V = State;

    closed spec fn view(&self) -> State {
        State {
            objects: Seq::new(self.objects@.len(), |i: int| self.objects@[i]@),
            symbols: Seq::new(self.symbols@.len(), |i: int| self.symbols@[i]@),
            stack: Seq::new(self.stack@.len(), |i: int| self.stack@[i]@),
            classes: self.classes@,
            jumps: self.jumps@,
        }
    }
}

/// Where `key` stands in a store.
pub fn find(attrs: &Vec<(Literal, Object)>, key: Literal) -> (res: Option<usize>)
    ensures
        match res {
            Some(i) => position(attrs@, key) == Some(i as int) && i < attrs@.len(),
            None => position(attrs@, key) is None,
        },
{
    let mut i: usize = 0;
    while i < attrs.len()
        invariant
            i <= attrs@.len(),
            forall|j: int| 0 <= j < i ==> attrs@[j].0 != key,
        decreases attrs@.len() - i,
    {
        if attrs[i].0 == key {
            proof {
                position_found(attrs@, key, i as int);
            }
            return Some(i);
        }
        i = i + 1;
    }
    proof {
        position_absent(attrs@, key);
    }
    None
}

impl Runtime {
    /// How many nested calls and parents the runtime follows at most.
    pub closed spec fn depth_limit(&self) -> nat {
        self.limit as nat
    }

    /// How many of them are open now.
    pub closed spec fn depth_used(&self) -> nat {
        self.depth as nat
    }

    /// How many more can be opened.
    pub open spec fn remaining(&self) -> nat {
        (self.depth_limit() - self.depth_used()) as nat
    }

    /// The invariant of the runtime.
    pub open spec fn wf(&self) -> bool {
        self@.wf() && self.depth_used() <= self.depth_limit()
    }

    /// Whether `other` has the same depth account as this runtime.
    pub open spec fn same_depth(&self, other: &Runtime) -> bool {
        self.depth_limit() == other.depth_limit() && self.depth_used() == other.depth_used()
    }

    /// Whether the runtime can have come from `old`: it is well formed, its
    /// depth account is that of `old`, and it lost nothing `old` had.
    pub open spec fn follows(&self, old: &Runtime) -> bool {
        self.wf() && self.same_depth(old) && self@.extends(old@)
    }

    /// The objects and the symbols of a runtime can be counted by the
    /// machine.
    pub proof fn counted(&self)
        ensures
            self@.fits(),
    {
        assert(self.objects.len() == self.objects@.len());
        assert(self.symbols.len() == self.symbols@.len());
    }

    /// An empty runtime that follows calls and parents `limit` deep.
    pub fn new(limit: usize) -> (res: Runtime)
        ensures
            res.wf(),
            res@ == State::initial(),
            res.remaining() == limit,
    {
        let mut symbols: Vec<String> = Vec::new();
        symbols.push(String::from_str("id"));
        symbols.push(String::from_str("parents"));
        symbols.push(String::from_str("this"));
        symbols.push(String::from_str("stack"));
        symbols.push(String::from_str("attr_missing"));
        symbols.push(String::from_str("call"));
        symbols.push(String::from_str("call_noscope"));
        symbols.push(String::from_str("name"));
        symbols.push(String::from_str("__bound_object_owner__"));
        symbols.push(String::from_str("__bound_object__"));
        symbols.push(String::from_str("@text"));
        symbols.push(String::from_str("@bool"));
        let mut classes: Vec<ClassSlot> = Vec::new();
        let mut i: usize = 0;
        while i < CLASS_COUNT
            invariant
                i <= CLASS_COUNT,
                classes@.len() == i,
                forall|j: int| 0 <= j < i ==> classes@[j] == (ClassSlot { object: None, claimed: false }),
            decreases CLASS_COUNT - i,
        {
            classes.push(ClassSlot { object: None, claimed: false });
            i = i + 1;
        }
        let res = Runtime {
            objects: Vec::new(),
            symbols,
            stack: Vec::new(),
            classes,
            depth: 0,
            limit,
            jumps: Ghost(0),
        };
        proof {
            initial_wf();
            assert(res@.symbols =~= reserved_names());
            assert(res@.objects =~= State::initial().objects);
            assert(res@.stack =~= State::initial().stack);
            assert(res@.classes =~= State::initial().classes);
        }
        res
    }

    /// How many objects were made.
    pub fn count(&self) -> (res: usize)
        ensures
            res == self@.objects.len(),
    {
        self.objects.len()
    }

    /// Whether `obj` is an object of this runtime.
    pub fn contains(&self, obj: Object) -> (res: bool)
        ensures
            res == self@.has(obj),
    {
        obj.id < self.objects.len()
    }

    /// Whether `key` is a literal of this runtime.
    pub fn knows(&self, key: Literal) -> (res: bool)
        ensures
            res == self@.knows(key),
    {
        key.index < self.symbols.len()
    }

    /// The payload of `obj`.
    pub fn payload(&self, obj: Object) -> (res: &Payload)
        requires
            self@.has(obj),
        ensures
            res@ == self@.objects[obj.id as int].payload,
    {
        &self.objects[obj.id].payload
    }

    /// The parents of `obj`, in order.
    pub fn parents(&self, obj: Object) -> (res: &Vec<Object>)
        requires
            self@.has(obj),
        ensures
            res@ == self@.objects[obj.id as int].parents,
    {
        &self.objects[obj.id].parents
    }

    /// The own attributes of `obj`, oldest name first.
    pub fn attrs(&self, obj: Object) -> (res: &Vec<(Literal, Object)>)
        requires
            self@.has(obj),
        ensures
            res@ == self@.objects[obj.id as int].attrs,
    {
        &self.objects[obj.id].attrs
    }

    /// The text of `key`.
    pub fn symbol(&self, key: Literal) -> (res: &String)
        requires
            self@.knows(key),
        ensures
            res@ == self@.symbols[key.index as int],
    {
        &self.symbols[key.index]
    }

    /// The registry's record of `class`.
    pub fn slot(&self, class: Class) -> (res: ClassSlot)
        requires
            self@.classes.len() == CLASS_COUNT,
        ensures
            res == self@.classes[class.slot()],
    {
        self.classes[class.index()]
    }

    /// How many frames are active.
    pub fn stack_len(&self) -> (res: usize)
        ensures
            res == self@.stack.len(),
    {
        self.stack.len()
    }

    /// The frame at place `i` of the stack, counted from the oldest.
    pub(crate) fn frame(&self, i: usize) -> (res: &StackFrame)
        requires
            i < self@.stack.len(),
        ensures
            res@ == self@.stack[i as int],
    {
        &self.stack[i]
    }

    /// How many more levels of nesting can be opened.
    pub fn remaining_depth(&self) -> (res: usize)
        requires
            self.wf(),
        ensures
            res == self.remaining(),
    {
        self.limit - self.depth
    }

    /// Opens one more level of nesting, if the limit allows it.
    pub(crate) fn descend(&mut self) -> (res: bool)
        requires
            old(self).wf(),
        ensures
            final(self).wf(),
            final(self)@ == old(self)@,
            res == (old(self).remaining() > 0),
            res ==> final(self).remaining() == old(self).remaining() - 1,
            res ==> final(self).depth_used() == old(self).depth_used() + 1,
            !res ==> final(self).same_depth(old(self)),
            final(self).depth_limit() == old(self).depth_limit(),
    {
        if self.depth < self.limit {
            self.depth = self.depth + 1;
            true
        } else {
            false
        }
    }

    /// Closes one level of nesting.
    pub(crate) fn ascend(&mut self)
        requires
            old(self).wf(),
            old(self).depth_used() > 0,
        ensures
            final(self).wf(),
            final(self)@ == old(self)@,
            final(self).remaining() == old(self).remaining() + 1,
            final(self).depth_limit() == old(self).depth_limit(),
            final(self).depth_used() == old(self).depth_used() - 1,
    {
        self.depth = self.depth - 1;
    }

    /// Makes an object with the next identity.
    pub fn create(&mut self, parents: Vec<Object>, payload: Payload) -> (res: Object)
        requires
            old(self).wf(),
            old(self)@.has_all(parents@),
            old(self)@.payload_ok(payload@),
        ensures
            final(self).wf(),
            final(self).same_depth(old(self)),
            final(self)@.keeps_frames(old(self)@),
            final(self)@.neutral(old(self)@),
            final(self)@ == old(self)@.create(parents@, payload@).0,
            res == old(self)@.create(parents@, payload@).1,
            res.id == old(self)@.objects.len(),
            final(self)@.extends(old(self)@),
            final(self)@.has(res),
    {
        let id = self.objects.len();
        let ghost before = self@;
        let ghost data = ObjectView { attrs: Seq::empty(), parents: parents@, payload: payload@ };
        self.objects.push(ObjectData { attrs: Vec::new(), parents, payload });
        proof {
            assert(self@.objects =~= before.objects.push(data));
            assert(self@.symbols =~= before.symbols);
            assert(self@.stack =~= before.stack);
            create_wf(before, data.parents, data.payload);
        }
        Object { id }
    }

    /// Makes an object that is its own sole parent.
    pub fn create_root(&mut self, payload: Payload) -> (res: Object)
        requires
            old(self).wf(),
            old(self)@.payload_ok(payload@),
        ensures
            final(self).wf(),
            final(self).same_depth(old(self)),
            final(self)@.keeps_frames(old(self)@),
            final(self)@.neutral(old(self)@),
            final(self)@ == old(self)@.create_root(payload@).0,
            res == old(self)@.create_root(payload@).1,
            res.id == old(self)@.objects.len(),
            final(self)@.extends(old(self)@),
            final(self)@.has(res),
    {
        let id = self.objects.len();
        let ghost before = self@;
        let mut parents: Vec<Object> = Vec::new();
        parents.push(Object { id });
        assert(parents@ =~= seq![Object { id }]);
        let ghost data = ObjectView { attrs: Seq::empty(), parents: parents@, payload: payload@ };
        self.objects.push(ObjectData { attrs: Vec::new(), parents, payload });
        proof {
            assert(self@.objects =~= before.objects.push(data));
            assert(self@.symbols =~= before.symbols);
            assert(self@.stack =~= before.stack);
            create_wf(before, data.parents, data.payload);
        }
        Object { id }
    }

    /// The value `obj` itself stores under `key`.
    pub fn get_own(&self, obj: Object, key: Literal) -> (res: Option<Object>)
        requires
            self@.has(obj),
        ensures
            res == self@.get_own(obj, key),
    {
        let attrs = &self.objects[obj.id].attrs;
        match find(attrs, key) {
            Some(i) => Some(attrs[i].1),
            None => None,
        }
    }

    /// Whether `obj` itself stores something under `key`.
    pub fn has_own(&self, obj: Object, key: Literal) -> (res: bool)
        requires
            self@.has(obj),
        ensures
            res == self@.get_own(obj, key).is_some(),
    {
        find(&self.objects[obj.id].attrs, key).is_some()
    }

    /// Stores `value` under `key` in `obj` itself.
    pub fn set_own(&mut self, obj: Object, key: Literal, value: Object)
        requires
            old(self).wf(),
            old(self)@.has(obj),
            old(self)@.knows(key),
            old(self)@.has(value),
        ensures
            final(self).wf(),
            final(self).same_depth(old(self)),
            final(self)@.keeps_frames(old(self)@),
            final(self)@.neutral(old(self)@),
            final(self)@ == old(self)@.set_own(obj, key, value),
            final(self)@.extends(old(self)@),
            final(self)@.objects.len() == old(self)@.objects.len(),
    {
        let ghost before = self@;
        let found = find(&self.objects[obj.id].attrs, key);
        match found {
            Some(i) => {
                self.objects[obj.id].attrs[i] = (key, value);
            },
            None => {
                self.objects[obj.id].attrs.push((key, value));
            },
        }
        proof {
            assert(self@.objects =~= before.set_own(obj, key, value).objects);
            assert(self@.symbols =~= before.symbols);
            assert(self@.stack =~= before.stack);
            set_own_wf(before, obj, key, value);
        }
    }

    /// Removes `key` from `obj` itself and hands back what was stored,
    /// `None` where nothing was.
    pub(crate) fn take_own(&mut self, obj: Object, key: Literal) -> (res: Option<Object>)
        requires
            old(self).wf(),
            old(self)@.has(obj),
        ensures
            final(self).wf(),
            final(self).same_depth(old(self)),
            final(self)@.keeps_frames(old(self)@),
            final(self)@.neutral(old(self)@),
            res == old(self)@.get_own(obj, key),
            final(self)@ == old(self)@.del_own(obj, key),
            final(self)@.extends(old(self)@),
            final(self)@.objects.len() == old(self)@.objects.len(),
    {
        let ghost before = self@;
        let found = find(&self.objects[obj.id].attrs, key);
        let res = match found {
            Some(i) => {
                let entry = self.objects[obj.id].attrs.remove(i);
                Some(entry.1)
            },
            None => None,
        };
        proof {
            assert(self@.objects =~= before.del_own(obj, key).objects);
            assert(self@.symbols =~= before.symbols);
            assert(self@.stack =~= before.stack);
            del_own_wf(before, obj, key);
        }
        res
    }

    /// The names `obj` itself stores, oldest first.
    pub fn own_keys(&self, obj: Object) -> (res: Vec<Literal>)
        requires
            self@.has(obj),
        ensures
            res@ == names(self@.objects[obj.id as int].attrs),
    {
        let attrs = &self.objects[obj.id].attrs;
        let mut res: Vec<Literal> = Vec::new();
        let mut i: usize = 0;
        while i < attrs.len()
            invariant
                i <= attrs@.len(),
                res@.len() == i,
                forall|j: int| 0 <= j < i ==> res@[j] == attrs@[j].0,
            decreases attrs@.len() - i,
        {
            res.push(attrs[i].0);
            i = i + 1;
        }
        assert(res@ =~= names(attrs@));
        res
    }

    /// Replaces the parents of `obj`.
    pub fn set_parents(&mut self, obj: Object, parents: Vec<Object>)
        requires
            old(self).wf(),
            old(self)@.has(obj),
            old(self)@.has_all(parents@),
        ensures
            final(self).wf(),
            final(self).same_depth(old(self)),
            final(self)@.keeps_frames(old(self)@),
            final(self)@.neutral(old(self)@),
            final(self)@ == old(self)@.set_parents(obj, parents@),
            final(self)@.extends(old(self)@),
            final(self)@.objects.len() == old(self)@.objects.len(),
    {
        let ghost before = self@;
        let ghost wanted = parents@;
        self.objects[obj.id].parents = parents;
        proof {
            assert(self@.objects =~= before.set_parents(obj, wanted).objects);
            assert(self@.symbols =~= before.symbols);
            assert(self@.stack =~= before.stack);
            set_parents_wf(before, obj, wanted);
        }
    }

    /// Enters a frame owned by `owner`; it becomes the active one.
    pub fn push_frame(&mut self, owner: Object, args: Vec<Object>)
        requires
            old(self).wf(),
            old(self)@.has(owner),
            old(self)@.has_all(args@),
        ensures
            final(self).wf(),
            final(self).same_depth(old(self)),
            final(self)@ == old(self)@.push_frame(owner, args@),
            final(self)@.extends(old(self)@),
    {
        let ghost before = self@;
        let ghost wanted = args@;
        self.stack.push(StackFrame { owner, args });
        proof {
            assert(self@.stack =~= before.push_frame(owner, wanted).stack);
            assert(self@.objects =~= before.objects);
            assert(self@.symbols =~= before.symbols);
            push_frame_wf(before, owner, wanted);
        }
    }

    /// Enters a frame owned by `owner` for `instance_jump`: as
    /// `push_frame`, and the frame is counted among those that nothing
    /// leaves.
    pub(crate) fn leak_frame(&mut self, owner: Object, args: Vec<Object>)
        requires
            old(self).wf(),
            old(self)@.has(owner),
            old(self)@.has_all(args@),
        ensures
            final(self).wf(),
            final(self).same_depth(old(self)),
            final(self)@ == old(self)@.leak_frame(owner, args@),
            final(self)@.extends(old(self)@),
            final(self)@.keeps_frames(old(self)@),
            final(self)@.neutral(old(self)@),
    {
        self.push_frame(owner, args);
        self.jumps = Ghost((self.jumps@ + 1) as nat);
        proof {
            assert(self@.objects =~= old(self)@.objects);
            assert(self@.symbols =~= old(self)@.symbols);
            assert(self@.stack =~= old(self)@.push_frame(owner, args@).stack);
        }
    }

    /// Leaves the active frame and hands it back; `None` where no frame is
    /// active.
    pub fn pop_frame(&mut self) -> (res: Option<StackFrame>)
        requires
            old(self).wf(),
        ensures
            final(self).wf(),
            final(self).same_depth(old(self)),
            final(self)@ == old(self)@.pop_frame(),
            final(self)@.extends(old(self)@),
            match res {
                Some(f) => old(self)@.frame_at(0) == Some(f@),
                None => old(self)@.stack.len() == 0,
            },
    {
        let ghost before = self@;
        let res = self.stack.pop();
        proof {
            assert(self@.stack =~= before.pop_frame().stack);
            assert(self@.objects =~= before.objects);
            assert(self@.symbols =~= before.symbols);
            pop_frame_wf(before);
        }
        res
    }

    /// The owner and the arguments of the frame `index` steps below the
    /// active one; `None` where the stack is not that deep.
    pub fn frame_at(&self, index: usize) -> (res: Option<StackFrame>)
        ensures
            match res {
                Some(f) => self@.frame_at(index as int) == Some(f@),
                None => self@.frame_at(index as int) is None,
            },
    {
        if index < self.stack.len() {
            let frame = &self.stack[self.stack.len() - 1 - index];
            let args = copy_objects(&frame.args);
            Some(StackFrame { owner: frame.owner, args })
        } else {
            None
        }
    }

    /// The literal of `text`. A text seen before keeps its literal; a new
    /// one gets the next.
    pub fn intern(&mut self, text: &str) -> (res: Literal)
        requires
            old(self).wf(),
        ensures
            final(self).wf(),
            final(self).same_depth(old(self)),
            final(self)@.keeps_frames(old(self)@),
            final(self)@.neutral(old(self)@),
            final(self)@ == old(self)@.intern(text@).0,
            res == old(self)@.intern(text@).1,
            final(self)@.extends(old(self)@),
            final(self)@.knows(res),
            final(self)@.symbols[res.index as int] == text@,
            final(self)@.objects == old(self)@.objects,
    {
        let ghost before = self@;
        let owned = String::from_str(text);
        let mut i: usize = 0;
        while i < self.symbols.len()
            invariant
                owned@ == text@,
                before == old(self)@,
                old(self).wf(),
                self@ == before,
                self.same_depth(old(self)),
                i <= self.symbols@.len(),
                self.symbols@.len() == before.symbols.len(),
                forall|j: int| 0 <= j < i ==> before.symbols[j] != text@,
            decreases self.symbols@.len() - i,
        {
            if self.symbols[i] == owned {
                proof {
                    assert(before.symbols[i as int] == text@);
                    intern_wf(before, text@);
                    symbol_position_sound(before.symbols, text@);
                }
                return Literal { index: i };
            }
            assert(before.symbols[i as int] != text@);
            i = i + 1;
        }
        self.symbols.push(owned);
        proof {
            intern_wf(before, text@);
            symbol_position_sound(before.symbols, text@);
            assert(self@.symbols =~= before.symbols.push(text@));
            assert(self@.objects =~= before.objects);
            assert(self@.stack =~= before.stack);
        }
        Literal { index: i }
    }

    /// Records `obj` as the class object of `class`.
    pub(crate) fn record_class(&mut self, class: Class, obj: Object)
        requires
            old(self).wf(),
            old(self)@.has(obj),
            old(self)@.classes[class.slot()].object is None,
        ensures
            final(self).wf(),
            final(self).same_depth(old(self)),
            final(self)@.keeps_frames(old(self)@),
            final(self)@.neutral(old(self)@),
            final(self)@ == old(self)@.with_class_object(class, obj),
            final(self)@.extends(old(self)@),
    {
        let ghost before = self@;
        let i = class.index();
        let claimed = self.classes[i].claimed;
        self.classes[i] = ClassSlot { object: Some(obj), claimed };
        proof {
            assert(self@.objects =~= before.objects);
            assert(self@.symbols =~= before.symbols);
            assert(self@.stack =~= before.stack);
            with_class_object_wf(before, class, obj);
        }
    }

    /// Claims the installing of the methods of `class`.
    pub(crate) fn claim(&mut self, class: Class)
        requires
            old(self).wf(),
        ensures
            final(self).wf(),
            final(self).same_depth(old(self)),
            final(self)@.keeps_frames(old(self)@),
            final(self)@.neutral(old(self)@),
            final(self)@ == old(self)@.with_claim(class),
            final(self)@.extends(old(self)@),
    {
        let ghost before = self@;
        let i = class.index();
        let object = self.classes[i].object;
        self.classes[i] = ClassSlot { object, claimed: true };
        proof {
            assert(self@.objects =~= before.objects);
            assert(self@.symbols =~= before.symbols);
            assert(self@.stack =~= before.stack);
            with_claim_wf(before, class);
        }
    }
}

/// A copy of a list of handles.
pub fn copy_objects(items: &Vec<Object>) -> (res: Vec<Object>)
    ensures
        res@ == items@,
{
    let mut res: Vec<Object> = Vec::new();
    let mut i: usize = 0;
    while i < items.len()
        invariant
            i <= items@.len(),
            res@ == items@.subrange(0, i as int),
        decreases items@.len() - i,
    {
        res.push(items[i]);
        assert(items@.subrange(0, i as int).push(items@[i as int]) =~= items@.subrange(0, i + 1));
        i = i + 1;
    }
    assert(items@.subrange(0, items@.len() as int) =~= items@);
    res
}

} // verus!
