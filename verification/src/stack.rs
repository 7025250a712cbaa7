//! Scoped frames: entering a frame for the time of one computation.

use vstd::prelude::*;
use crate::error::RuntimeError;
use crate::object::Object;
use crate::runtime::Runtime;

verus! {

impl Runtime {
    /// Runs `body` in a new frame owned by `owner`. The frame is entered
    /// before `body` runs and left after it, whether `body` succeeded or
    /// failed, and what `body` returned is returned unchanged. A `body`
    /// that leaves the stack as it found it therefore leaves no trace on
    /// the stack of the caller; one that keeps the stack discipline, as
    /// every operation of the runtime does, makes a call that keeps it.
    pub fn run_in_new_frame<T, F: FnOnce(&mut Runtime) -> Result<T, RuntimeError>>(
        &mut self,
        owner: Object,
        args: Vec<Object>,
        body: F,
    ) -> (res: Result<T, RuntimeError>)
        requires
            old(self).wf(),
            old(self)@.has(owner),
            old(self)@.has_all(args@),
            forall|x: &mut Runtime|
                (*x).wf() && (*x)@ == old(self)@.push_frame(owner, args@) && (*x).same_depth(
                    old(self),
                ) ==> call_requires(body, (x,)),
            forall|x: &mut Runtime, out: Result<T, RuntimeError>| #[trigger]
                call_ensures(body, (x,), out) ==> (*final(x)).follows(&*x),
        ensures
            final(self).follows(old(self)),
            exists|x: &mut Runtime|
                (*x)@ == old(self)@.push_frame(owner, args@) && (*x).same_depth(old(self))
                    && #[trigger] call_ensures(body, (x,), res)
                    && final(self)@ == (*final(x))@.pop_frame(),
            (forall|x: &mut Runtime, out: Result<T, RuntimeError>| #[trigger]
                call_ensures(body, (x,), out) ==> (*final(x))@.stack == (*x)@.stack)
                ==> final(self)@.stack == old(self)@.stack,
            (forall|x: &mut Runtime, out: Result<T, RuntimeError>| #[trigger]
                call_ensures(body, (x,), out) ==> (*final(x))@.keeps_frames((*x)@) && (*final(
                x))@.neutral((*x)@)) ==> final(self)@.keeps_frames(old(self)@) && final(
                self)@.neutral(old(self)@),
    {
        let ghost entered = self@.push_frame(owner, args@);
        self.push_frame(owner, args);
        let res = body(self);
        self.pop_frame();
        proof {
            assert(entered.stack.drop_last() =~= old(self)@.stack);
        }
        res
    }
}

} // verus!
