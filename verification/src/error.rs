//! The ways in which evaluating a derived signal can fail.

use vstd::prelude::*;

verus! {

/// Failure of one derived signal chain. An error is local to the chain that
/// met it: unrelated fields and entities keep working.
#[derive(Clone, Copy, Debug, PartialEq, Eq, Structural)]
pub enum EvalError {
    /// A child references a parent id with no matching entity in the index.
    MissingRelation,
    /// A lookup that must resolve to exactly one entity found more than one.
    Multiplicity,
    /// A ratio was requested of a negative value or with a non-positive
    /// total, where the quotient is not defined by this library.
    UndefinedRatio,
}

} // verus!
