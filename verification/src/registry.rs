//! The class registry: one class object for each built-in type, made when
//! it is first asked for, and given its methods once.

use vstd::prelude::*;
use crate::class::Builtin;
use crate::class::Class;
use crate::class::Function;
use crate::literal::Literal;
use crate::literal::NAME;
use crate::object::Object;
use crate::object::Payload;
use crate::object::PayloadView;
use crate::pristine::Pristine;
use crate::runtime::Runtime;
use crate::state::State;
use crate::text::Text;
use crate::wellformed::class_of_wf;
use crate::wellformed::class_slot_untouched;
use crate::wellformed::instantiate_wf;
use crate::wellformed::ok_grows;

verus! {

/// The state after the methods of `table` are stored in `cls`, first to
/// last: each as a new function object under the literal of its name.
pub open spec fn sem_install(s: State, cls: Object, table: Seq<(Seq<char>, Builtin)>) -> State
    decreases table.len(),
{
    if table.len() == 0 {
        s
    } else {
        let s1 = sem_install(s, cls, table.drop_last());
        let (s2, k) = s1.intern(table.last().0);
        let (s3, f) = s2.instantiate(
            Class::Function,
            PayloadView::Function(Function::Native(table.last().1)),
        );
        s3.set_own(cls, k, f)
    }
}

/// Initializing a class. The first call claims the class, gives its class
/// object the name of the class and installs its methods. Every later
/// call finds the claim and changes nothing.
pub open spec fn sem_initialize(s: State, c: Class) -> State {
    if s.classes[c.slot()].claimed {
        s
    } else {
        let (s1, cls) = s.with_claim(c).class_of(c);
        let (s2, title) = s1.instantiate(Class::Text, PayloadView::Text(c.title()));
        let s3 = s2.set_own(cls, Literal { index: NAME }, title);
        sem_install(s3, cls, c.methods())
    }
}

impl Runtime {
    /// The class object of `class`, the same at every call. It is made at
    /// the first, after the class object of the base.
    pub fn class_for(&mut self, class: Class) -> (res: Object)
        requires
            old(self).wf(),
        ensures
            final(self).follows(old(self)),
            final(self)@.keeps_frames(old(self)@),
            final(self)@.neutral(old(self)@),
            (final(self)@, res) == old(self)@.class_of(class),
            final(self)@.has(res),
            final(self)@.classes[class.slot()].object == Some(res),
        decreases class.rank(),
    {
        proof {
            class_of_wf(self@, class);
        }
        match self.slot(class).object {
            Some(o) => o,
            None => {
                let obj = match class.parent() {
                    None => self.create_root(Payload::Pristine(Pristine)),
                    Some(base) => {
                        proof {
                            class_slot_untouched(self@, base, class);
                        }
                        let parent = self.class_for(base);
                        let mut parents: Vec<Object> = Vec::new();
                        parents.push(parent);
                        assert(parents@ =~= seq![parent]);
                        self.create(parents, Payload::Pristine(Pristine))
                    },
                };
                self.record_class(class, obj);
                obj
            },
        }
    }

    /// A new object of `class`: its sole parent is the class object.
    pub fn instantiate(&mut self, class: Class, payload: Payload) -> (res: Object)
        requires
            old(self).wf(),
            old(self)@.payload_ok(payload@),
        ensures
            final(self).follows(old(self)),
            final(self)@.keeps_frames(old(self)@),
            final(self)@.neutral(old(self)@),
            (final(self)@, res) == old(self)@.instantiate(class, payload@),
            final(self)@.has(res),
            final(self)@.objects[res.id as int].payload == payload@,
            final(self)@.objects[res.id as int].attrs == Seq::<(Literal, Object)>::empty(),
            final(self)@.symbols == old(self)@.symbols,
            final(self)@.stack == old(self)@.stack,
    {
        proof {
            instantiate_wf(self@, class, payload@);
        }
        let ghost before = self@;
        let cls = self.class_for(class);
        let mut parents: Vec<Object> = Vec::new();
        parents.push(cls);
        assert(parents@ =~= seq![cls]);
        proof {
            ok_grows(before, self@);
        }
        self.create(parents, payload)
    }

    /// Installs the methods of `class` on its class object, once. A call
    /// that finds the class claimed leaves the runtime as it is.
    pub fn initialize(&mut self, class: Class) -> (res: Result<(), crate::error::RuntimeError>)
        requires
            old(self).wf(),
        ensures
            final(self).follows(old(self)),
            final(self)@ == sem_initialize(old(self)@, class),
            res is Ok,
            old(self)@.classes[class.slot()].claimed ==> final(self)@ == old(self)@,
            final(self)@.classes[class.slot()].claimed,
    {
        if self.slot(class).claimed {
            return Ok(());
        }
        self.claim(class);
        let cls = self.class_for(class);
        let title = self.instantiate(Class::Text, Payload::Text(Text::from_str(class.name())));
        self.set_own(cls, Literal { index: NAME }, title);
        let count = class.method_count();
        let ghost start = self@;
        let mut i: usize = 0;
        assert(class.methods().take(0) =~= Seq::empty());
        while i < count
            invariant
                i <= count,
                count == class.methods().len(),
                self.follows(old(self)),
                start.wf(),
                start.has(cls),
                self@.has(cls),
                self@ == sem_install(start, cls, class.methods().take(i as int)),
                self@.classes[class.slot()].claimed,
            decreases count - i,
        {
            let (name, builtin) = class.method_at(i);
            let ghost before = self@;
            let key = self.intern(name);
            let method = self.instantiate(
                Class::Function,
                Payload::Function(Function::Native(builtin)),
            );
            self.set_own(cls, key, method);
            proof {
                let table = class.methods().take(i + 1);
                assert(table.drop_last() =~= class.methods().take(i as int));
                assert(table.last() == class.methods()[i as int]);
            }
            i = i + 1;
        }
        assert(class.methods().take(count as int) =~= class.methods());
        Ok(())
    }
}

} // verus!
