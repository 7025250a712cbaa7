//! Dynamic dispatch: getting an attribute and calling it as one step.

use vstd::prelude::*;
use crate::bound_function::BoundFunction;
use crate::class::Builtin;
use crate::class::Class;
use crate::class::Function;
use crate::error::RuntimeError;
use crate::literal::Literal;
use crate::literal::AT_BOOL;
use crate::literal::AT_TEXT;
use crate::literal::CALL;
use crate::literal::CALL_NOSCOPE;
use crate::object::Object;
use crate::object::Payload;
use crate::pristine::Pristine;
use crate::regexp::Regex;
use crate::runtime::copy_objects;
use crate::runtime::Runtime;
use crate::semantics::arg;
use crate::semantics::binds;
use crate::semantics::sem_apply;
use crate::semantics::sem_bool_of;
use crate::semantics::sem_scoped_call;
use crate::semantics::sem_call_attr;
use crate::semantics::sem_dispatch;
use crate::semantics::sem_function_call;
use crate::semantics::sem_key_of;
use crate::semantics::sem_native;
use crate::semantics::sem_text_of;
use crate::semantics::Found;
use crate::text::Text;
use crate::wellformed::ok_grows;
use crate::wellformed::own_value_ok;

verus! {

/// The argument at place `i`, or the error that names the place and the
/// number of arguments given.
pub fn try_arg(args: &Vec<Object>, i: usize) -> (res: Result<Object, RuntimeError>)
    ensures
        res == arg(args@, i),
{
    if i < args.len() {
        Ok(args[i])
    } else {
        Err(RuntimeError::ArityOrIndexError { index: i, len: args.len() })
    }
}

/// The arguments after the first.
pub fn rest(args: &Vec<Object>) -> (res: Vec<Object>)
    requires
        args@.len() > 0,
    ensures
        res@ == args@.skip(1),
{
    let mut res: Vec<Object> = Vec::new();
    let mut i: usize = 1;
    while i < args.len()
        invariant
            1 <= i <= args@.len(),
            res@.len() == i - 1,
            forall|j: int| 0 <= j < i - 1 ==> res@[j] == args@[j + 1],
        decreases args@.len() - i,
    {
        res.push(args[i]);
        i = i + 1;
    }
    assert(res@ =~= args@.skip(1));
    res
}

/// `first` followed by `args`.
pub fn prepend(first: Object, args: &Vec<Object>) -> (res: Vec<Object>)
    ensures
        res@ == seq![first] + args@,
{
    let mut res: Vec<Object> = Vec::new();
    res.push(first);
    let mut i: usize = 0;
    while i < args.len()
        invariant
            i <= args@.len(),
            res@.len() == i + 1,
            res@[0] == first,
            forall|j: int| 0 <= j < i ==> res@[j + 1] == args@[j],
        decreases args@.len() - i,
    {
        res.push(args[i]);
        i = i + 1;
    }
    assert(res@ =~= seq![first] + args@);
    res
}

impl Runtime {
    /// The literal that the text object `o` names.
    pub fn key_of(&mut self, o: Object) -> (res: Result<Literal, RuntimeError>)
        requires
            old(self).wf(),
            old(self)@.has(o),
        ensures
            final(self).follows(old(self)),
            final(self)@.keeps_frames(old(self)@),
            final(self)@.neutral(old(self)@),
            (final(self)@, res) == sem_key_of(old(self)@, o),
            res matches Ok(k) ==> final(self)@.knows(k),
            final(self)@.objects == old(self)@.objects,
    {
        let name = match self.payload(o) {
            Payload::Text(t) => Some(t.clone()),
            _ => None,
        };
        match name {
            Some(t) => Ok(self.intern(t.as_str())),
            None => Err(RuntimeError::DowncastFailure { object: o, expected: Class::Text }),
        }
    }

    /// Invokes what was found for `receiver` with `args`.
    pub(crate) fn dispatch(&mut self, receiver: Object, found: Found, args: &Vec<Object>) -> (res: Result<
        Object,
        RuntimeError,
    >)
        requires
            old(self).wf(),
            old(self)@.has(receiver),
            old(self)@.has(found.value),
            old(self)@.has_all(args@),
        ensures
            final(self).follows(old(self)),
            final(self)@.keeps_frames(old(self)@),
            final(self)@.neutral(old(self)@),
            (final(self)@, res) == sem_dispatch(
                old(self)@,
                receiver,
                found,
                args@,
                old(self).remaining(),
            ),
            res matches Ok(v) ==> final(self)@.has(v),
        decreases old(self).remaining(), 1nat, 0nat,
    {
        let argv = if self.binds(found) {
            prepend(receiver, args)
        } else {
            copy_objects(args)
        };
        let function = match self.payload(found.value) {
            Payload::Function(f) => Some(*f),
            _ => None,
        };
        if !self.descend() {
            return Err(RuntimeError::DepthExceeded);
        }
        let res = match function {
            Some(f) => {
                proof {
                    own_value_ok(self@, found.value, Literal { index: CALL });
                }
                self.apply(f, &argv)
            },
            None => self.call_attr(found.value, Literal { index: CALL }, &argv),
        };
        self.ascend();
        res
    }

    /// Resolves `key` on `obj` as a receiver and invokes what is found
    /// with `args`.
    pub fn call_attr(&mut self, obj: Object, key: Literal, args: &Vec<Object>) -> (res: Result<
        Object,
        RuntimeError,
    >)
        requires
            old(self).wf(),
            old(self)@.has(obj),
            old(self)@.knows(key),
            old(self)@.has_all(args@),
        ensures
            final(self).follows(old(self)),
            final(self)@.keeps_frames(old(self)@),
            final(self)@.neutral(old(self)@),
            (final(self)@, res) == sem_call_attr(
                old(self)@,
                obj,
                key,
                args@,
                old(self).remaining(),
            ),
            res matches Ok(v) ==> final(self)@.has(v),
        decreases old(self).remaining(), 30nat, 0nat,
    {
        let ghost before = self@;
        match self.resolve(obj, key) {
            Ok(f) => {
                proof {
                    ok_grows(before, self@);
                }
                self.dispatch(obj, f, args)
            },
            Err(e) => Err(e),
        }
    }

    /// Applies `f` to `argv`.
    pub fn apply(&mut self, f: Function, argv: &Vec<Object>) -> (res: Result<Object, RuntimeError>)
        requires
            old(self).wf(),
            old(self)@.payload_ok(crate::object::PayloadView::Function(f)),
            old(self)@.has_all(argv@),
        ensures
            final(self).follows(old(self)),
            final(self)@.keeps_frames(old(self)@),
            final(self)@.neutral(old(self)@),
            (final(self)@, res) == sem_apply(old(self)@, f, argv@, old(self).remaining()),
            res matches Ok(v) ==> final(self)@.has(v),
        decreases old(self).remaining(), 50nat, 0nat,
    {
        match f {
            Function::Constant(o) => Ok(o),
            Function::Reader(k) => match try_arg(argv, 0) {
                Ok(this) => self.get_attr(this, k),
                Err(e) => Err(e),
            },
            Function::Native(b) => match try_arg(argv, 0) {
                Ok(this) => {
                    let args = rest(argv);
                    self.call_native(b, this, &args)
                },
                Err(e) => Err(e),
            },
        }
    }

    /// Calls a method of the runtime on `this` with `args`.
    pub fn call_native(&mut self, b: Builtin, this: Object, args: &Vec<Object>) -> (res: Result<
        Object,
        RuntimeError,
    >)
        requires
            old(self).wf(),
            old(self)@.has(this),
            old(self)@.has_all(args@),
        ensures
            final(self).follows(old(self)),
            final(self)@.keeps_frames(old(self)@),
            final(self)@.neutral(old(self)@),
            (final(self)@, res) == sem_native(old(self)@, b, this, args@, old(self).remaining()),
            res matches Ok(v) ==> final(self)@.has(v),
        decreases old(self).remaining(), 45nat, 0nat,
    {
        match b {
            Builtin::PristineInspect => Pristine::qs_inspect(self, this, args),
            Builtin::PristineKeys => Pristine::qs___keys__(self, this, args),
            Builtin::PristineCallAttr => Pristine::qs___call_attr__(self, this, args),
            Builtin::PristineGetAttr => Pristine::qs___get_attr__(self, this, args),
            Builtin::PristineSetAttr => Pristine::qs___set_attr__(self, this, args),
            Builtin::PristineHasAttr => Pristine::qs___has_attr__(self, this, args),
            Builtin::PristineDelAttr => Pristine::qs___del_attr__(self, this, args),
            Builtin::PristineDotGetAttr => Pristine::qs_dot_get_attr(self, this, args),
            Builtin::PristineDotGetAttrQ => Pristine::qs_dot_get_attr_q(self, this, args),
            Builtin::PristineInstanceExec => Pristine::qs_instance_exec(self, this, args),
            Builtin::PristineInstanceJump => Pristine::qs_instance_jump(self, this, args),
            Builtin::PristineRootGetAttr => Pristine::qs_root_get_attr(self, this, args),
            Builtin::FunctionCall => self.function_call(this, args),
            Builtin::BoundFunctionCall => BoundFunction::qs_call(self, this, args),
            Builtin::RegexAtText => Regex::qs_at_text(self, this, args),
            Builtin::RegexInspect => Regex::qs_inspect(self, this, args),
            Builtin::RegexEql => Regex::qs_eql(self, this, args),
            Builtin::RegexDoesMatch => Regex::qs_does_match(self, this, args),
            Builtin::RegexMatch => Regex::qs_match(self, this, args),
        }
    }

    /// `call` of a function object: applies the function that `this`
    /// carries to `args`.
    pub fn function_call(&mut self, this: Object, args: &Vec<Object>) -> (res: Result<
        Object,
        RuntimeError,
    >)
        requires
            old(self).wf(),
            old(self)@.has(this),
            old(self)@.has_all(args@),
        ensures
            final(self).follows(old(self)),
            final(self)@.keeps_frames(old(self)@),
            final(self)@.neutral(old(self)@),
            (final(self)@, res) == sem_function_call(
                old(self)@,
                this,
                args@,
                old(self).remaining(),
            ),
            res matches Ok(v) ==> final(self)@.has(v),
        decreases old(self).remaining(), 40nat, 0nat,
    {
        let function = match self.payload(this) {
            Payload::Function(f) => Some(*f),
            _ => None,
        };
        match function {
            Some(f) => {
                proof {
                    own_value_ok(self@, this, Literal { index: CALL });
                }
                if !self.descend() {
                    return Err(RuntimeError::DepthExceeded);
                }
                let res = self.apply(f, args);
                self.ascend();
                res
            },
            None => Err(RuntimeError::DowncastFailure { object: this, expected: Class::Function }),
        }
    }

    /// The text of `o`: its payload where it is a text, else what its
    /// `@text` gives.
    pub fn text_of(&mut self, o: Object) -> (res: Result<Text, RuntimeError>)
        requires
            old(self).wf(),
            old(self)@.has(o),
        ensures
            final(self).follows(old(self)),
            final(self)@.keeps_frames(old(self)@),
            final(self)@.neutral(old(self)@),
            match res {
                Ok(t) => (final(self)@, Ok::<Seq<char>, RuntimeError>(t@)) == sem_text_of(
                    old(self)@,
                    o,
                    old(self).remaining(),
                ),
                Err(e) => (final(self)@, Err::<Seq<char>, RuntimeError>(e)) == sem_text_of(
                    old(self)@,
                    o,
                    old(self).remaining(),
                ),
            },
        decreases old(self).remaining(), 35nat, 0nat,
    {
        let own = match self.payload(o) {
            Payload::Text(t) => Some(t.clone()),
            _ => None,
        };
        match own {
            Some(t) => Ok(t),
            None => {
                let none: Vec<Object> = Vec::new();
                assert(none@ =~= Seq::empty());
                match self.call_attr(o, Literal { index: AT_TEXT }, &none) {
                    Ok(v) => {
                        let text = match self.payload(v) {
                            Payload::Text(t) => Some(t.clone()),
                            _ => None,
                        };
                        match text {
                            Some(t) => Ok(t),
                            None => Err(
                                RuntimeError::DowncastFailure { object: v, expected: Class::Text },
                            ),
                        }
                    },
                    Err(e) => Err(e),
                }
            },
        }
    }

    /// The boolean of `o`: its payload where it is a boolean, else what
    /// its `@bool` gives.
    pub fn bool_of(&mut self, o: Object) -> (res: Result<bool, RuntimeError>)
        requires
            old(self).wf(),
            old(self)@.has(o),
        ensures
            final(self).follows(old(self)),
            final(self)@.keeps_frames(old(self)@),
            final(self)@.neutral(old(self)@),
            (final(self)@, res) == sem_bool_of(old(self)@, o, old(self).remaining()),
        decreases old(self).remaining(), 35nat, 0nat,
    {
        let own = match self.payload(o) {
            Payload::Boolean(b) => Some(*b),
            _ => None,
        };
        match own {
            Some(b) => Ok(b),
            None => {
                let none: Vec<Object> = Vec::new();
                assert(none@ =~= Seq::empty());
                match self.call_attr(o, Literal { index: AT_BOOL }, &none) {
                    Ok(v) => match self.payload(v) {
                        Payload::Boolean(b) => Ok(*b),
                        _ => Err(
                            RuntimeError::DowncastFailure { object: v, expected: Class::Boolean },
                        ),
                    },
                    Err(e) => Err(e),
                }
            },
        }
    }

    /// Calls `callable` with no argument through the entry point it
    /// exposes: `call_noscope` where that name resolves on it, else
    /// `call`.
    pub fn call_in_scope(&mut self, callable: Object) -> (res: Result<Object, RuntimeError>)
        requires
            old(self).wf(),
            old(self)@.has(callable),
        ensures
            final(self).follows(old(self)),
            final(self)@.keeps_frames(old(self)@),
            final(self)@.neutral(old(self)@),
            (final(self)@, res) == sem_scoped_call(old(self)@, callable, old(self).remaining()),
            res matches Ok(v) ==> final(self)@.has(v),
        decreases old(self).remaining(), 35nat, 0nat,
    {
        let none: Vec<Object> = Vec::new();
        assert(none@ =~= Seq::<Object>::empty());
        match self.resolve(callable, Literal { index: CALL_NOSCOPE }) {
            Ok(f) => self.dispatch(callable, f, &none),
            Err(RuntimeError::MissingAttribute { .. }) => self.call_attr(
                callable,
                Literal { index: CALL },
                &none,
            ),
            Err(e) => Err(e),
        }
    }
}

} // verus!
