//! A typed layer for solving the Traveling Salesman Problem on top of a
//! black-box combinatorial solving engine.
//!
//! The crate models pairwise costs as a packed lower-triangular
//! [`LowerDistanceMatrix`], invokes an injectable [`solver::SolvingEngine`]
//! through two entry points ([`solver::tsp_hk`] for the exact Held-Karp
//! routine and [`solver::tsp_lk`] for the Lin-Kernighan heuristic), and
//! interprets the engine's signed status into a [`Solution`] or a typed
//! [`SolverError`]. An independent length-recomputation routine,
//! [`Solution::calc_length_from_tour`], validates engine output and scores
//! externally supplied tours.

pub mod distance;
pub mod errors;
pub mod solver;

pub use distance::Distance;
pub use distance::LowerDistanceMatrix;
pub use distance::Node;
pub use errors::MatrixError;
pub use errors::SolverError;
pub use solver::Solution;
pub use solver::SolvingEngine;
