//! Typed failures: caller misuse of the matrix, and engine-reported failure.

use vstd::prelude::*;

verus! {

/// Misuse of a [`crate::LowerDistanceMatrix`]: a lookup outside the packed
/// storage, or packed values whose number does not match the node count.
#[derive(Clone, Copy, Debug, PartialEq, Eq, Structural)]
pub enum MatrixError {
    /// A lookup addressed a slot outside the packed storage.
    OutOfRange,
    /// The packed values do not hold one slot per unordered pair.
    WrongLength,
}

/// Failure reported by the solving engine, carrying the name of the
/// algorithm that could not produce a tour.
#[derive(Debug)]
pub enum SolverError {
    SolverFailed(String),
}

impl SolverError {
    /// Name of the algorithm that reported the failure.
    pub open spec fn spec_algorithm(self) -> Seq<char> {
        match self {
            SolverError::SolverFailed(name) => name@,
        }
    }

    /// Name of the algorithm that reported the failure.
    pub fn algorithm(&self) -> (r: &str)
        ensures
            r@ == self.spec_algorithm(),
    {
        match self {
            SolverError::SolverFailed(name) => name.as_str(),
        }
    }
}

} // verus!
