//! The failures that building, evaluating and rewriting can report.

use vstd::prelude::*;

verus! {

/// Why an operation of this crate did not produce a value.
#[derive(Clone, Copy, Debug, PartialEq, Eq, Structural)]
pub enum ErrorCode {
    /// A descriptor's kind tag does not fit the constructor it was handed to,
    /// or a field that the constructor needs is absent.
    MalformedDescriptor,
    /// A function descriptor has the wrong number of children for its kind.
    ArityError,
    /// A value or column does not have the type that an expression declares,
    /// or a column's length is not the batch's row count.
    TypeMismatch,
    /// A rewrite met a state that well-formed plans never reach.
    RuleApplicationError,
}

} // verus!
