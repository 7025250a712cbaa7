//! The ways an operation of the runtime can fail.

use vstd::prelude::*;
use crate::class::Class;
use crate::literal::Literal;
use crate::object::Object;

verus! {

/// A failure of resolution or dispatch. It is handed to the caller; the
/// runtime never turns one into a default value by itself.
#[derive(Clone, Copy, Debug, PartialEq, Eq, Structural)]
pub enum RuntimeError {
    /// No step of the resolution found `key` for `receiver`.
    MissingAttribute { key: Literal, receiver: Object },
    /// `key` was to be deleted from the own store of `receiver`, which does
    /// not hold it.
    NotFound { key: Literal, receiver: Object },
    /// The argument at `index` was needed and only `len` were given.
    ArityOrIndexError { index: usize, len: usize },
    /// The method table of `class` could not be installed.
    InitializationFailure { class: Class },
    /// `object` does not carry the payload of `expected`.
    DowncastFailure { object: Object, expected: Class },
    /// More calls and parents were nested than the runtime allows.
    DepthExceeded,
}

} // verus!
