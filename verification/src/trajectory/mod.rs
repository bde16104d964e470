//! Trajectory planning support: random sampling, search-tree bookkeeping,
//! path shortcutting, the search of recorded frames, and the selectors of
//! interpolation and continuity.

pub mod controller;
pub mod planner;
pub mod polynomial;
pub mod recorder;
pub mod rrt;

pub use planner::TrajectoryContinuityMode;
pub use polynomial::PolynomialType;
pub use rrt::{RrtAlgorithm, SimpleRng};
