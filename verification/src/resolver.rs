//! The resolver: what an attribute name means on an object.

use vstd::prelude::*;
use crate::class::Class;
use crate::error::RuntimeError;
use crate::literal::Literal;
use crate::literal::ATTR_MISSING;
use crate::literal::BOUND_OBJECT;
use crate::literal::BOUND_OWNER;
use crate::literal::ID;
use crate::literal::PARENTS;
use crate::literal::STACK;
use crate::literal::THIS;
use crate::object::Object;
use crate::object::Payload;
use crate::object::PayloadView;
use crate::bound_function::BoundFunction;
use crate::runtime::copy_objects;
use crate::runtime::Runtime;
use crate::semantics::binds;
use crate::semantics::sem_bind;
use crate::semantics::sem_del_attr;
use crate::semantics::sem_dot_get;
use crate::semantics::sem_get;
use crate::semantics::sem_get_or_default;
use crate::semantics::sem_hook;
use crate::semantics::sem_parents;
use crate::semantics::sem_resolve;
use crate::semantics::sem_set_attr;
use crate::semantics::Found;
use crate::semantics::Origin;
use crate::state::owners;
use crate::text::Text;
use crate::wellformed::own_value_ok;
use crate::wellformed::owners_ok;

verus! {

impl Runtime {
    /// The owners of the active frames, the active one first.
    pub fn stack_owners(&self) -> (res: Vec<Object>)
        ensures
            res@ == owners(self@.stack),
    {
        let n = self.stack_len();
        let mut res: Vec<Object> = Vec::new();
        let mut i: usize = 0;
        while i < n
            invariant
                i <= n,
                n == self@.stack.len(),
                res@.len() == i,
                forall|j: int| 0 <= j < i ==> res@[j] == self@.stack[n - 1 - j].owner,
            decreases n - i,
        {
            res.push(self.frame(n - 1 - i).owner);
            i = i + 1;
        }
        assert(res@ =~= owners(self@.stack));
        res
    }

    /// Whether `obj` is the "no value" sentinel.
    pub fn is_null(&self, obj: Object) -> (res: bool)
        requires
            self@.has(obj),
        ensures
            res == self@.is_null(obj),
    {
        match self.payload(obj) {
            Payload::Null => true,
            _ => false,
        }
    }

    /// Resolves `key` on `obj` and says at which step it was found.
    pub fn resolve(&mut self, obj: Object, key: Literal) -> (res: Result<Found, RuntimeError>)
        requires
            old(self).wf(),
            old(self)@.has(obj),
            old(self)@.knows(key),
        ensures
            final(self).follows(old(self)),
            final(self)@.keeps_frames(old(self)@),
            final(self)@.neutral(old(self)@),
            (final(self)@, res) == sem_resolve(old(self)@, obj, key, old(self).remaining()),
            res matches Ok(f) ==> final(self)@.has(f.value),
            key.index == ID ==> (res matches Ok(f) && final(self)@.objects[f.value.id as int].payload
                == PayloadView::Number(obj.id as i128)),
        decreases old(self).remaining(), (if key.index == ATTR_MISSING { 10nat } else { 20nat }), 0nat,
    {
        proof {
            own_value_ok(self@, obj, key);
        }
        if key.index == ID {
            let o = self.instantiate(Class::Number, Payload::Number(obj.id as i128));
            return Ok(Found { value: o, origin: Origin::Special });
        }
        if key.index == PARENTS {
            let parents = copy_objects(self.parents(obj));
            let o = self.instantiate(Class::List, Payload::List(parents));
            return Ok(Found { value: o, origin: Origin::Special });
        }
        if key.index == THIS {
            let n = self.stack_len();
            if n > 0 {
                let owner = self.frame(n - 1).owner;
                assert(self@.frame_ok(self@.stack[n - 1]));
                return Ok(Found { value: owner, origin: Origin::Special });
            } else {
                return Err(RuntimeError::MissingAttribute { key, receiver: obj });
            }
        }
        if key.index == STACK {
            let all = self.stack_owners();
            proof {
                owners_ok(self@);
            }
            let o = self.instantiate(Class::List, Payload::List(all));
            return Ok(Found { value: o, origin: Origin::Special });
        }
        match self.get_own(obj, key) {
            Some(v) => Ok(Found { value: v, origin: Origin::Own }),
            None => {
                let hooked = if key.index == ATTR_MISSING {
                    Ok(None)
                } else {
                    self.hook(obj, key)
                };
                match hooked {
                    Err(e) => Err(e),
                    Ok(Some(v)) => Ok(Found { value: v, origin: Origin::Hook }),
                    Ok(None) => {
                        proof {
                            own_value_ok(self@, obj, key);
                        }
                        let parents = copy_objects(self.parents(obj));
                        self.search_parents(obj, key, parents)
                    },
                }
            },
        }
    }

    /// Asks the hook of `obj`, if it has one, for `key`.
    pub(crate) fn hook(&mut self, obj: Object, key: Literal) -> (res: Result<Option<Object>, RuntimeError>)
        requires
            old(self).wf(),
            old(self)@.has(obj),
            old(self)@.knows(key),
        ensures
            final(self).follows(old(self)),
            final(self)@.keeps_frames(old(self)@),
            final(self)@.neutral(old(self)@),
            (final(self)@, res) == sem_hook(old(self)@, obj, key, old(self).remaining()),
            res matches Ok(Some(v)) ==> final(self)@.has(v),
        decreases old(self).remaining(), 15nat, 0nat,
    {
        let hook = self.resolve(obj, Literal { index: ATTR_MISSING });
        match hook {
            Err(RuntimeError::MissingAttribute { .. }) => Ok(None),
            Err(e) => Err(e),
            Ok(found) => {
                let name = Text::new(self.symbol(key).clone());
                let k = self.instantiate(Class::Text, Payload::Text(name));
                let mut args: Vec<Object> = Vec::new();
                args.push(k);
                assert(args@ =~= seq![k]);
                let r = self.dispatch(obj, found, &args);
                match r {
                    Err(e) => Err(e),
                    Ok(v) => if self.is_null(v) {
                        Ok(None)
                    } else {
                        Ok(Some(v))
                    },
                }
            },
        }
    }

    /// Searches `parents`, in order, for `key`.
    pub(crate) fn search_parents(&mut self, obj: Object, key: Literal, parents: Vec<Object>) -> (res: Result<
        Found,
        RuntimeError,
    >)
        requires
            old(self).wf(),
            old(self)@.has(obj),
            old(self)@.knows(key),
            old(self)@.has_all(parents@),
        ensures
            final(self).follows(old(self)),
            final(self)@.keeps_frames(old(self)@),
            final(self)@.neutral(old(self)@),
            (final(self)@, res) == sem_parents(
                old(self)@,
                obj,
                key,
                parents@,
                0,
                old(self).remaining(),
            ),
            res matches Ok(f) ==> final(self)@.has(f.value),
        decreases old(self).remaining(), 5nat, 0nat,
    {
        let ghost d = self.remaining();
        let ghost goal = sem_parents(self@, obj, key, parents@, 0, d);
        let mut i: usize = 0;
        while i < parents.len()
            invariant
                i <= parents@.len(),
                self.follows(old(self)),
                self@.keeps_frames(old(self)@),
                self@.neutral(old(self)@),
                d == old(self).remaining(),
                old(self)@.has(obj),
                old(self)@.knows(key),
                old(self)@.has_all(parents@),
                goal == sem_parents(old(self)@, obj, key, parents@, 0, d),
                goal == sem_parents(self@, obj, key, parents@, i as int, d),
            decreases parents@.len() - i,
        {
            let p = parents[i];
            if !(p == obj) {
                assert(old(self)@.has(parents@[i as int]));
                if !self.descend() {
                    return Err(RuntimeError::DepthExceeded);
                }
                let r = self.resolve(p, key);
                self.ascend();
                match r {
                    Ok(f) => {
                        return Ok(Found { value: f.value, origin: Origin::Inherited });
                    },
                    Err(RuntimeError::MissingAttribute { .. }) => {},
                    Err(e) => {
                        return Err(e);
                    },
                }
            }
            i = i + 1;
        }
        Err(RuntimeError::MissingAttribute { key, receiver: obj })
    }

    /// Raw retrieval: the value of `key` on `obj` exactly as it was found.
    pub fn get_attr(&mut self, obj: Object, key: Literal) -> (res: Result<Object, RuntimeError>)
        requires
            old(self).wf(),
            old(self)@.has(obj),
            old(self)@.knows(key),
        ensures
            final(self).follows(old(self)),
            final(self)@.keeps_frames(old(self)@),
            final(self)@.neutral(old(self)@),
            (final(self)@, res) == sem_get(old(self)@, obj, key, old(self).remaining()),
            res matches Ok(v) ==> final(self)@.has(v),
            key.index == ID ==> (res matches Ok(v) && final(self)@.objects[v.id as int].payload
                == PayloadView::Number(obj.id as i128)),
        decreases old(self).remaining(), 25nat, 0nat,
    {
        match self.resolve(obj, key) {
            Ok(f) => Ok(f.value),
            Err(e) => Err(e),
        }
    }

    /// Whether `found` is handed its receiver when it is invoked.
    pub fn binds(&self, found: Found) -> (res: bool)
        requires
            self@.has(found.value),
        ensures
            res == binds(self@, found),
    {
        match found.origin {
            Origin::Inherited => self.payload(found.value).callable(),
            _ => false,
        }
    }

    /// Makes the bound method of `owner` and `callable`.
    pub fn bind(&mut self, owner: Object, callable: Object) -> (res: Object)
        requires
            old(self).wf(),
            old(self)@.has(owner),
            old(self)@.has(callable),
        ensures
            final(self).follows(old(self)),
            final(self)@.keeps_frames(old(self)@),
            final(self)@.neutral(old(self)@),
            (final(self)@, res) == sem_bind(old(self)@, owner, callable),
            final(self)@.has(res),
    {
        let b = self.instantiate(Class::BoundFunction, Payload::BoundFunction(BoundFunction));
        self.set_own(b, Literal { index: BOUND_OWNER }, owner);
        self.set_own(b, Literal { index: BOUND_OBJECT }, callable);
        b
    }

    /// Receiver retrieval: as `get_attr`, but a callable found on a parent
    /// comes back bound to `obj`.
    pub fn dot_get_attr(&mut self, obj: Object, key: Literal) -> (res: Result<Object, RuntimeError>)
        requires
            old(self).wf(),
            old(self)@.has(obj),
            old(self)@.knows(key),
        ensures
            final(self).follows(old(self)),
            final(self)@.keeps_frames(old(self)@),
            final(self)@.neutral(old(self)@),
            (final(self)@, res) == sem_dot_get(old(self)@, obj, key, old(self).remaining()),
            res matches Ok(v) ==> final(self)@.has(v),
        decreases old(self).remaining(), 25nat, 0nat,
    {
        match self.resolve(obj, key) {
            Ok(f) => {
                if self.binds(f) {
                    Ok(self.bind(obj, f.value))
                } else {
                    Ok(f.value)
                }
            },
            Err(e) => Err(e),
        }
    }

    /// Stores `value` under `key` on `obj` itself. `parents` replaces the
    /// parent list by the items of `value`, which must be a list.
    pub fn set_attr(&mut self, obj: Object, key: Literal, value: Object) -> (res: Result<
        (),
        RuntimeError,
    >)
        requires
            old(self).wf(),
            old(self)@.has(obj),
            old(self)@.knows(key),
            old(self)@.has(value),
        ensures
            final(self).follows(old(self)),
            final(self)@.keeps_frames(old(self)@),
            final(self)@.neutral(old(self)@),
            (final(self)@, res) == sem_set_attr(old(self)@, obj, key, value),
            final(self)@.objects.len() == old(self)@.objects.len(),
    {
        if key.index == PARENTS {
            proof {
                own_value_ok(self@, value, key);
            }
            let items = match self.payload(value) {
                Payload::List(items) => Some(copy_objects(items)),
                _ => None,
            };
            match items {
                Some(parents) => {
                    self.set_parents(obj, parents);
                    Ok(())
                },
                None => Err(RuntimeError::DowncastFailure { object: value, expected: Class::List }),
            }
        } else {
            self.set_own(obj, key, value);
            Ok(())
        }
    }

    /// Whether `obj` itself stores `key`.
    pub fn has_attr(&self, obj: Object, key: Literal) -> (res: bool)
        requires
            self@.has(obj),
        ensures
            res == self@.get_own(obj, key).is_some(),
    {
        self.has_own(obj, key)
    }

    /// Removes `key` from the own store of `obj` and hands back what it
    /// held. An error where the store does not hold `key`.
    pub fn del_own(&mut self, obj: Object, key: Literal) -> (res: Result<Object, RuntimeError>)
        requires
            old(self).wf(),
            old(self)@.has(obj),
        ensures
            final(self).follows(old(self)),
            final(self)@.keeps_frames(old(self)@),
            final(self)@.neutral(old(self)@),
            (final(self)@, res) == sem_del_attr(old(self)@, obj, key),
            res matches Ok(v) ==> final(self)@.has(v),
            final(self)@.objects.len() == old(self)@.objects.len(),
    {
        proof {
            own_value_ok(self@, obj, key);
            if self@.get_own(obj, key) is None {
                assert(self@.del_own(obj, key).objects =~= self@.objects);
            }
        }
        match self.take_own(obj, key) {
            Some(v) => Ok(v),
            None => Err(RuntimeError::NotFound { key, receiver: obj }),
        }
    }

    /// Deletes `key` on `obj`: from its own store only, whoever defines
    /// the name up the chain.
    pub fn del_attr(&mut self, obj: Object, key: Literal) -> (res: Result<Object, RuntimeError>)
        requires
            old(self).wf(),
            old(self)@.has(obj),
        ensures
            final(self).follows(old(self)),
            final(self)@.keeps_frames(old(self)@),
            final(self)@.neutral(old(self)@),
            (final(self)@, res) == sem_del_attr(old(self)@, obj, key),
            res matches Ok(v) ==> final(self)@.has(v),
            final(self)@.objects.len() == old(self)@.objects.len(),
    {
        self.del_own(obj, key)
    }

    /// Retrieval that does not fail on an absent name: where `obj` itself
    /// does not store `key`, a new "no value" sentinel.
    pub fn get_attr_or_default(&mut self, obj: Object, key: Literal) -> (res: Result<
        Object,
        RuntimeError,
    >)
        requires
            old(self).wf(),
            old(self)@.has(obj),
            old(self)@.knows(key),
        ensures
            final(self).follows(old(self)),
            final(self)@.keeps_frames(old(self)@),
            final(self)@.neutral(old(self)@),
            (final(self)@, res) == sem_get_or_default(old(self)@, obj, key, old(self).remaining()),
            res matches Ok(v) ==> final(self)@.has(v),
        decreases old(self).remaining(), 35nat, 0nat,
    {
        if self.has_attr(obj, key) {
            self.get_attr(obj, key)
        } else {
            Ok(self.instantiate(Class::Null, Payload::Null))
        }
    }
}

} // verus!
