//! Errors of the construct and reconstruct paths.

use vstd::prelude::*;

verus! {

/// Why constructing a spend or reconstructing an object failed.  None
/// of these is retryable: they signal caller error, malformed chain
/// data, or an evaluation failure under the fixed budget.
#[derive(Debug, PartialEq, Eq, Structural)]
pub enum DriverError {
    /// A memo list ended where a field was still expected.
    MissingMemo,
    /// A memo held a field of the wrong shape or width.
    InvalidMemo,
    /// A spend emitted no odd-amount successor coin.
    MissingChild,
    /// A layer was not in its required curried shape.
    NonStandardLayer,
    /// The exercised inner puzzle is not in the authorization set.
    MissingProof,
    /// A value fell outside the wire form's domain.
    Serialization,
    /// Program evaluation failed or exceeded its budget.
    Eval,
}

} // verus!
