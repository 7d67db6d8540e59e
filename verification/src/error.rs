//! The ways a clustering operation can fail.

use vstd::prelude::*;

verus! {

/// Why an operation on vectors or centroids was refused.
#[derive(Debug, Clone, Copy, PartialEq, Eq)]
pub enum KMeansError {
    /// Two vectors that were to be combined or compared differ in length.
    DimensionMismatch,
    /// The nearest candidate was asked for among no candidates at all.
    EmptyCandidates,
    /// A run was configured with zero clusters.
    InvalidClusterCount,
}

} // verus!
