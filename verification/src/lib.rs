//! The object runtime of a dynamically typed, prototype-based language.
//!
//! Every value is an object with an identity, a store of attributes and an
//! ordered list of parents. The runtime decides what an attribute name means
//! on an object, how a found method is called with its receiver, and which
//! frames are active while it runs.

pub mod text;
pub mod literal;
pub mod class;
pub mod object;
pub mod error;
pub mod store;
pub mod state;
pub mod wellformed;
pub mod runtime;
pub mod keys;
pub mod semantics;
pub mod registry;
pub mod resolver;
pub mod dispatch;
pub mod stack;
pub mod laws;
pub mod pristine;
pub mod bound_function;
pub mod regexp;
