//! Methods bound to the receiver they were found through.

use vstd::prelude::*;
use crate::dispatch::prepend;
use crate::error::RuntimeError;
use crate::literal::Literal;
use crate::literal::BOUND_OBJECT;
use crate::literal::BOUND_OWNER;
use crate::literal::CALL;
use crate::object::Object;
use crate::runtime::Runtime;
use crate::semantics::sem_bound_call;
use crate::wellformed::ok_grows;

verus! {

/// The payload of a bound method. The receiver and the callable it was
/// made of are attributes of the object that carries it.
#[derive(Debug, Clone, Copy, Default, PartialEq, Eq, PartialOrd, Ord, Hash)]
pub struct BoundFunction;

impl BoundFunction {
    /// `call` of a bound method: calls the wrapped callable with the
    /// remembered receiver before `args`.
    pub fn qs_call(rt: &mut Runtime, this: Object, args: &Vec<Object>) -> (res: Result<
        Object,
        RuntimeError,
    >)
        requires
            old(rt).wf(),
            old(rt)@.has(this),
            old(rt)@.has_all(args@),
        ensures
            final(rt).follows(old(rt)),
            final(rt)@.keeps_frames(old(rt)@),
            final(rt)@.neutral(old(rt)@),
            (final(rt)@, res) == sem_bound_call(old(rt)@, this, args@, old(rt).remaining()),
            res matches Ok(v) ==> final(rt)@.has(v),
        decreases old(rt).remaining(), 40nat, 0nat,
    {
        let ghost before = rt@;
        let owner = match rt.get_attr(this, Literal { index: BOUND_OWNER }) {
            Ok(o) => o,
            Err(e) => {
                return Err(e);
            },
        };
        let callable = match rt.get_attr(this, Literal { index: BOUND_OBJECT }) {
            Ok(c) => c,
            Err(e) => {
                return Err(e);
            },
        };
        let argv = prepend(owner, args);
        proof {
            ok_grows(before, rt@);
        }
        rt.call_attr(callable, Literal { index: CALL }, &argv)
    }
}

} // verus!
