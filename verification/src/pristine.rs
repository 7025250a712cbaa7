//! The base class that every object inherits from, and its methods.

use vstd::prelude::*;
use vstd::string::StringExecFns;
use crate::class::Class;
use crate::dispatch::rest;
use crate::dispatch::try_arg;
use crate::error::RuntimeError;
use crate::literal::Literal;
use crate::literal::THIS;
use crate::object::Object;
use crate::object::Payload;
use crate::runtime::Runtime;
use crate::semantics::inspect_text;
use crate::semantics::sem_call_attr_native;
use crate::semantics::sem_del_attr_native;
use crate::semantics::sem_dot_get_native;
use crate::semantics::sem_dot_get_q_native;
use crate::semantics::sem_get_attr_native;
use crate::semantics::sem_has_attr_native;
use crate::semantics::sem_inspect;
use crate::semantics::sem_instance_exec;
use crate::semantics::sem_instance_jump;
use crate::semantics::sem_keys_list;
use crate::semantics::sem_root_get;
use crate::semantics::sem_scoped_call;
use crate::semantics::sem_name_objects;
use crate::semantics::sem_set_attr_native;
use crate::text::push_decimal;
use crate::text::Text;
use crate::wellformed::ok_grows;

verus! {

/// The payload of a bare object, and the home of the methods that every
/// object has.
#[derive(Debug, Clone, Copy, Default, PartialEq, Eq, PartialOrd, Ord, Hash)]
pub struct Pristine;

impl Runtime {
    /// One new text object for each of `keys`, in order.
    pub fn name_objects(&mut self, keys: &Vec<Literal>) -> (res: Vec<Object>)
        requires
            old(self).wf(),
            forall|i: int| 0 <= i < keys@.len() ==> old(self)@.knows(#[trigger] keys@[i]),
        ensures
            final(self).follows(old(self)),
            final(self)@.keeps_frames(old(self)@),
            final(self)@.neutral(old(self)@),
            (final(self)@, res@) == sem_name_objects(old(self)@, keys@),
            final(self)@.has_all(res@),
    {
        let mut res: Vec<Object> = Vec::new();
        let mut i: usize = 0;
        assert(keys@.take(0) =~= Seq::empty());
        while i < keys.len()
            invariant
                i <= keys@.len(),
                self.follows(old(self)),
                self@.keeps_frames(old(self)@),
                self@.neutral(old(self)@),
                self@.symbols == old(self)@.symbols,
                forall|j: int| 0 <= j < keys@.len() ==> old(self)@.knows(#[trigger] keys@[j]),
                (self@, res@) == sem_name_objects(old(self)@, keys@.take(i as int)),
                self@.has_all(res@),
            decreases keys@.len() - i,
        {
            let ghost before = self@;
            let ghost front = res@;
            assert(old(self)@.knows(keys@[i as int]));
            let name = Text::new(self.symbol(keys[i]).clone());
            let o = self.instantiate(Class::Text, Payload::Text(name));
            res.push(o);
            proof {
                let upto = keys@.take(i + 1);
                assert(upto.drop_last() =~= keys@.take(i as int));
                assert(upto.last() == keys@[i as int]);
                ok_grows(before, self@);
                assert(self@.has_all(res@)) by {
                    assert forall|j: int| 0 <= j < res@.len() implies self@.has(#[trigger] res@[j]) by {
                        if j < front.len() {
                            assert(before.has(front[j]));
                        }
                    }
                }
            }
            i = i + 1;
        }
        assert(keys@.take(keys@.len() as int) =~= keys@);
        res
    }

}

#[allow(non_snake_case)]
impl Pristine {
    /// `inspect`: a text that names the receiver by the class of its
    /// payload and its identity.
    pub fn qs_inspect(rt: &mut Runtime, this: Object, args: &Vec<Object>) -> (res: Result<
        Object,
        RuntimeError,
    >)
        requires
            old(rt).wf(),
            old(rt)@.has(this),
        ensures
            final(rt).follows(old(rt)),
            final(rt)@.keeps_frames(old(rt)@),
            final(rt)@.neutral(old(rt)@),
            (final(rt)@, res) == sem_inspect(old(rt)@, this),
            res matches Ok(v) ==> final(rt)@.has(v),
    {
        proof {
            reveal_strlit("<");
            reveal_strlit(":");
            reveal_strlit(">");
        }
        let mut out = String::from_str("<");
        out.append(rt.payload(this).class().name());
        out.append(":");
        push_decimal(&mut out, this.id);
        out.append(">");
        assert(out@ =~= inspect_text(rt@, this));
        Ok(rt.instantiate(Class::Text, Payload::Text(Text::new(out))))
    }

    /// `__call_attr__`: calls the attribute that the first argument names
    /// with the arguments that follow it.
    pub fn qs___call_attr__(rt: &mut Runtime, this: Object, args: &Vec<Object>) -> (res: Result<
        Object,
        RuntimeError,
    >)
        requires
            old(rt).wf(),
            old(rt)@.has(this),
            old(rt)@.has_all(args@),
        ensures
            final(rt).follows(old(rt)),
            final(rt)@.keeps_frames(old(rt)@),
            final(rt)@.neutral(old(rt)@),
            (final(rt)@, res) == sem_call_attr_native(old(rt)@, this, args@, old(rt).remaining()),
            res matches Ok(v) ==> final(rt)@.has(v),
        decreases old(rt).remaining(), 40nat, 0nat,
    {
        let attr = match try_arg(args, 0) {
            Ok(a) => a,
            Err(e) => {
                return Err(e);
            },
        };
        let others = rest(args);
        match rt.key_of(attr) {
            Ok(key) => rt.call_attr(this, key, &others),
            Err(e) => Err(e),
        }
    }

    /// `__get_attr__`: raw retrieval of the attribute that the first
    /// argument names.
    pub fn qs___get_attr__(rt: &mut Runtime, this: Object, args: &Vec<Object>) -> (res: Result<
        Object,
        RuntimeError,
    >)
        requires
            old(rt).wf(),
            old(rt)@.has(this),
            old(rt)@.has_all(args@),
        ensures
            final(rt).follows(old(rt)),
            final(rt)@.keeps_frames(old(rt)@),
            final(rt)@.neutral(old(rt)@),
            (final(rt)@, res) == sem_get_attr_native(old(rt)@, this, args@, old(rt).remaining()),
            res matches Ok(v) ==> final(rt)@.has(v),
        decreases old(rt).remaining(), 40nat, 0nat,
    {
        let attr = match try_arg(args, 0) {
            Ok(a) => a,
            Err(e) => {
                return Err(e);
            },
        };
        match rt.key_of(attr) {
            Ok(key) => rt.get_attr(this, key),
            Err(e) => Err(e),
        }
    }

    /// `__set_attr__`: stores the second argument under the name the
    /// first gives, and hands the stored value back.
    pub fn qs___set_attr__(rt: &mut Runtime, this: Object, args: &Vec<Object>) -> (res: Result<
        Object,
        RuntimeError,
    >)
        requires
            old(rt).wf(),
            old(rt)@.has(this),
            old(rt)@.has_all(args@),
        ensures
            final(rt).follows(old(rt)),
            final(rt)@.keeps_frames(old(rt)@),
            final(rt)@.neutral(old(rt)@),
            (final(rt)@, res) == sem_set_attr_native(old(rt)@, this, args@),
            res matches Ok(v) ==> final(rt)@.has(v),
    {
        let attr = match try_arg(args, 0) {
            Ok(a) => a,
            Err(e) => {
                return Err(e);
            },
        };
        let value = match try_arg(args, 1) {
            Ok(a) => a,
            Err(e) => {
                return Err(e);
            },
        };
        match rt.key_of(attr) {
            Ok(key) => match rt.set_attr(this, key, value) {
                Ok(_) => Ok(value),
                Err(e) => Err(e),
            },
            Err(e) => Err(e),
        }
    }

    /// `__has_attr__`: a boolean that says whether the receiver's own
    /// store holds the name.
    pub fn qs___has_attr__(rt: &mut Runtime, this: Object, args: &Vec<Object>) -> (res: Result<
        Object,
        RuntimeError,
    >)
        requires
            old(rt).wf(),
            old(rt)@.has(this),
            old(rt)@.has_all(args@),
        ensures
            final(rt).follows(old(rt)),
            final(rt)@.keeps_frames(old(rt)@),
            final(rt)@.neutral(old(rt)@),
            (final(rt)@, res) == sem_has_attr_native(old(rt)@, this, args@),
            res matches Ok(v) ==> final(rt)@.has(v),
    {
        let attr = match try_arg(args, 0) {
            Ok(a) => a,
            Err(e) => {
                return Err(e);
            },
        };
        match rt.key_of(attr) {
            Ok(key) => {
                let held = rt.has_attr(this, key);
                Ok(rt.instantiate(Class::Boolean, Payload::Boolean(held)))
            },
            Err(e) => Err(e),
        }
    }

    /// `__del_attr__`: removes the name from the receiver's own store and
    /// hands back what it held.
    pub fn qs___del_attr__(rt: &mut Runtime, this: Object, args: &Vec<Object>) -> (res: Result<
        Object,
        RuntimeError,
    >)
        requires
            old(rt).wf(),
            old(rt)@.has(this),
            old(rt)@.has_all(args@),
        ensures
            final(rt).follows(old(rt)),
            final(rt)@.keeps_frames(old(rt)@),
            final(rt)@.neutral(old(rt)@),
            (final(rt)@, res) == sem_del_attr_native(old(rt)@, this, args@),
            res matches Ok(v) ==> final(rt)@.has(v),
    {
        let attr = match try_arg(args, 0) {
            Ok(a) => a,
            Err(e) => {
                return Err(e);
            },
        };
        match rt.key_of(attr) {
            Ok(key) => rt.del_attr(this, key),
            Err(e) => Err(e),
        }
    }

    /// `.`: receiver retrieval of the attribute that the first argument
    /// names.
    pub fn qs_dot_get_attr(rt: &mut Runtime, this: Object, args: &Vec<Object>) -> (res: Result<
        Object,
        RuntimeError,
    >)
        requires
            old(rt).wf(),
            old(rt)@.has(this),
            old(rt)@.has_all(args@),
        ensures
            final(rt).follows(old(rt)),
            final(rt)@.keeps_frames(old(rt)@),
            final(rt)@.neutral(old(rt)@),
            (final(rt)@, res) == sem_dot_get_native(old(rt)@, this, args@, old(rt).remaining()),
            res matches Ok(v) ==> final(rt)@.has(v),
        decreases old(rt).remaining(), 40nat, 0nat,
    {
        let attr = match try_arg(args, 0) {
            Ok(a) => a,
            Err(e) => {
                return Err(e);
            },
        };
        match rt.key_of(attr) {
            Ok(key) => rt.dot_get_attr(this, key),
            Err(e) => Err(e),
        }
    }

    /// `.?`: retrieval that gives a "no value" sentinel where the
    /// receiver's own store lacks the name.
    pub fn qs_dot_get_attr_q(rt: &mut Runtime, this: Object, args: &Vec<Object>) -> (res: Result<
        Object,
        RuntimeError,
    >)
        requires
            old(rt).wf(),
            old(rt)@.has(this),
            old(rt)@.has_all(args@),
        ensures
            final(rt).follows(old(rt)),
            final(rt)@.keeps_frames(old(rt)@),
            final(rt)@.neutral(old(rt)@),
            (final(rt)@, res) == sem_dot_get_q_native(old(rt)@, this, args@, old(rt).remaining()),
            res matches Ok(v) ==> final(rt)@.has(v),
        decreases old(rt).remaining(), 40nat, 0nat,
    {
        let attr = match try_arg(args, 0) {
            Ok(a) => a,
            Err(e) => {
                return Err(e);
            },
        };
        match rt.key_of(attr) {
            Ok(key) => rt.get_attr_or_default(this, key),
            Err(e) => Err(e),
        }
    }

    /// `__keys__`: a list of texts, one for each name of the receiver,
    /// and of its ancestors where the first argument, converted to a
    /// boolean, is `true`.
    pub fn qs___keys__(rt: &mut Runtime, this: Object, args: &Vec<Object>) -> (res: Result<
        Object,
        RuntimeError,
    >)
        requires
            old(rt).wf(),
            old(rt)@.has(this),
            old(rt)@.has_all(args@),
        ensures
            final(rt).follows(old(rt)),
            final(rt)@.keeps_frames(old(rt)@),
            final(rt)@.neutral(old(rt)@),
            (final(rt)@, res) == sem_keys_list(old(rt)@, this, args@, old(rt).remaining()),
            res matches Ok(v) ==> final(rt)@.has(v),
        decreases old(rt).remaining(), 40nat, 0nat,
    {
        let include_parents = if args.len() == 0 {
            false
        } else {
            assert(rt@.has(args@[0]));
            match rt.bool_of(args[0]) {
                Ok(b) => b,
                Err(e) => {
                    return Err(e);
                },
            }
        };
        match rt.mapping_keys(this, include_parents) {
            Ok(keys) => {
                let items = rt.name_objects(&keys);
                Ok(rt.instantiate(Class::List, Payload::List(items)))
            },
            Err(e) => Err(e),
        }
    }

    /// `instance_exec`: calls the first argument in a frame that the
    /// receiver owns, and leaves the frame when the call is over, however
    /// it ended.
    pub fn qs_instance_exec(rt: &mut Runtime, this: Object, args: &Vec<Object>) -> (res: Result<
        Object,
        RuntimeError,
    >)
        requires
            old(rt).wf(),
            old(rt)@.has(this),
            old(rt)@.has_all(args@),
        ensures
            final(rt).follows(old(rt)),
            final(rt)@.keeps_frames(old(rt)@),
            final(rt)@.neutral(old(rt)@),
            (final(rt)@, res) == sem_instance_exec(old(rt)@, this, args@, old(rt).remaining()),
            res matches Ok(v) ==> final(rt)@.has(v),
        decreases old(rt).remaining(), 40nat, 0nat,
    {
        let callable = match try_arg(args, 0) {
            Ok(a) => a,
            Err(e) => {
                return Err(e);
            },
        };
        let ghost d = rt.remaining();
        let frame_args: Vec<Object> = Vec::new();
        assert(frame_args@ =~= Seq::<Object>::empty());
        let body = |x: &mut Runtime| -> (out: Result<Object, RuntimeError>)
                requires
                    old(x).wf(),
                    old(x)@.has(callable),
                    old(x).remaining() == d,
                ensures
                    final(x).follows(old(x)),
                    final(x)@.keeps_frames(old(x)@),
                    final(x)@.neutral(old(x)@),
                    (final(x)@, out) == sem_scoped_call(old(x)@, callable, d),
                    out matches Ok(v) ==> final(x)@.has(v),
                {
                    x.call_in_scope(callable)
                };
        let ghost before = rt@;
        let res = rt.run_in_new_frame(this, frame_args, body);
        proof {
            let entered = before.push_frame(this, Seq::empty());
            assert(entered.stack.drop_last() =~= before.stack);
        }
        res
    }

    /// `instance_jump`: calls the first argument in a frame that the
    /// receiver owns and, where the call succeeds, enters a second such
    /// frame. No frame is left: the method stands outside the stack
    /// discipline on purpose, for one old construct, and is not for new
    /// uses.
    pub fn qs_instance_jump(rt: &mut Runtime, this: Object, args: &Vec<Object>) -> (res: Result<
        Object,
        RuntimeError,
    >)
        requires
            old(rt).wf(),
            old(rt)@.has(this),
            old(rt)@.has_all(args@),
        ensures
            final(rt).follows(old(rt)),
            final(rt)@.keeps_frames(old(rt)@),
            final(rt)@.neutral(old(rt)@),
            (final(rt)@, res) == sem_instance_jump(old(rt)@, this, args@, old(rt).remaining()),
            res matches Ok(v) ==> final(rt)@.has(v),
        decreases old(rt).remaining(), 40nat, 0nat,
    {
        let callable = match try_arg(args, 0) {
            Ok(a) => a,
            Err(e) => {
                return Err(e);
            },
        };
        rt.leak_frame(this, Vec::new());
        match rt.call_in_scope(callable) {
            Ok(v) => {
                rt.leak_frame(this, Vec::new());
                Ok(v)
            },
            Err(e) => Err(e),
        }
    }

    /// `::@`: the receiver names an attribute, which is read, raw, on the
    /// owner of the oldest frame. Where no frame is active, the error
    /// that reading `this` gives.
    pub fn qs_root_get_attr(rt: &mut Runtime, this: Object, args: &Vec<Object>) -> (res: Result<
        Object,
        RuntimeError,
    >)
        requires
            old(rt).wf(),
            old(rt)@.has(this),
        ensures
            final(rt).follows(old(rt)),
            final(rt)@.keeps_frames(old(rt)@),
            final(rt)@.neutral(old(rt)@),
            (final(rt)@, res) == sem_root_get(old(rt)@, this, old(rt).remaining()),
            res matches Ok(v) ==> final(rt)@.has(v),
        decreases old(rt).remaining(), 40nat, 0nat,
    {
        if rt.stack_len() == 0 {
            return Err(
                RuntimeError::MissingAttribute { key: Literal { index: THIS }, receiver: this },
            );
        }
        let owner = rt.frame(0).owner;
        assert(rt@.frame_ok(rt@.stack[0]));
        match rt.key_of(this) {
            Ok(key) => rt.get_attr(owner, key),
            Err(e) => Err(e),
        }
    }
}

} // verus!
