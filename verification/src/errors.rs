//! Error kinds reported by the vector-commitment operations.
use vstd::prelude::*;

verus! {

/// Every failure the scheme can report. All conditions are local and
/// synchronous: nothing is retried internally.
#[derive(Clone, Copy, Debug, PartialEq, Eq, Structural)]
pub enum PointproofsError {
    /// A capacity bound `n` is zero or exceeds the hard ceiling.
    InvalidCapacity,
    /// A caller-supplied value vector is longer than the parameter capacity.
    CapacityExceeded,
    /// An index is not within the declared length.
    IndexOutOfRange,
    /// Serialized input does not have the required shape, or an unsupported
    /// serialization mode was requested.
    MalformedParameters,
    /// The entropy source could not supply random bytes, or a seed is too
    /// short to derive a trapdoor from.
    RandomnessFailure,
}

} // verus!
