//! Object handles and what an object carries besides its attributes.

use vstd::prelude::*;
use crate::class::Class;
use crate::class::Function;
use crate::text::Text;
use crate::regexp::Regex;
use crate::regexp::RegexView;
use crate::pristine::Pristine;
use crate::bound_function::BoundFunction;

verus! {

/// A handle to an object of a runtime. Its `id` is the identity of the
/// object: assigned once, in rising order, and never reused.
#[derive(Clone, Copy, Debug, PartialEq, Eq, Structural, Hash)]
pub struct Object {
    pub id: usize,
}

/// The native value of an object.
#[derive(Debug)]
pub enum Payload {
    /// No native value: a bare object.
    Pristine(Pristine),
    /// The "no value" sentinel.
    Null,
    Boolean(bool),
    Number(i128),
    Text(Text),
    List(Vec<Object>),
    Regex(Regex),
    Function(Function),
    /// A bound method; owner and callable are attributes of the object.
    BoundFunction(BoundFunction),
    /// The owner of a frame of guest code.
    Scope,
}

/// A payload as contracts see it.
pub enum PayloadView {
    Pristine,
    Null,
    Boolean(bool),
    Number(i128),
    Text(Seq<char>),
    List(Seq<Object>),
    Regex(RegexView),
    Function(Function),
    BoundFunction,
    Scope,
}

impl View for Payload {
    type V = PayloadView;

    open spec fn view(&self) -> PayloadView {
        match self {
            Payload::Pristine(_) => PayloadView::Pristine,
            Payload::Null => PayloadView::Null,
            Payload::Boolean(b) => PayloadView::Boolean(*b),
            Payload::Number(n) => PayloadView::Number(*n),
            Payload::Text(t) => PayloadView::Text(t@),
            Payload::List(items) => PayloadView::List(items@),
            Payload::Regex(r) => PayloadView::Regex(r@),
            Payload::Function(f) => PayloadView::Function(*f),
            Payload::BoundFunction(_) => PayloadView::BoundFunction,
            Payload::Scope => PayloadView::Scope,
        }
    }
}

impl PayloadView {
    /// The class whose instances carry such a payload.
    pub open spec fn class(self) -> Class {
        match self {
            PayloadView::Pristine => Class::Pristine,
            PayloadView::Null => Class::Null,
            PayloadView::Boolean(_) => Class::Boolean,
            PayloadView::Number(_) => Class::Number,
            PayloadView::Text(_) => Class::Text,
            PayloadView::List(_) => Class::List,
            PayloadView::Regex(_) => Class::Regex,
            PayloadView::Function(_) => Class::Function,
            PayloadView::BoundFunction => Class::BoundFunction,
            PayloadView::Scope => Class::Scope,
        }
    }

    /// Whether a value with this payload is wrapped with its receiver when
    /// it is found on a parent.
    pub open spec fn callable(self) -> bool {
        self is Function || self is BoundFunction
    }
}

impl Payload {
    /// The class whose instances carry such a payload.
    pub fn class(&self) -> (res: Class)
        ensures
            res == self@.class(),
    {
        match self {
            Payload::Pristine(_) => Class::Pristine,
            Payload::Null => Class::Null,
            Payload::Boolean(_) => Class::Boolean,
            Payload::Number(_) => Class::Number,
            Payload::Text(_) => Class::Text,
            Payload::List(_) => Class::List,
            Payload::Regex(_) => Class::Regex,
            Payload::Function(_) => Class::Function,
            Payload::BoundFunction(_) => Class::BoundFunction,
            Payload::Scope => Class::Scope,
        }
    }

    /// Whether a value with this payload is wrapped with its receiver when
    /// it is found on a parent.
    pub fn callable(&self) -> (res: bool)
        ensures
            res == self@.callable(),
    {
        match self {
            Payload::Function(_) => true,
            Payload::BoundFunction(_) => true,
            _ => false,
        }
    }
}

} // verus!
