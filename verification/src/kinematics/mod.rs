//! Plain-value kinematics types: joint kinds and their actuation, solver
//! selectors, and collision report bookkeeping.

pub mod collision;
pub mod joint;
pub mod solver;

pub use collision::CollisionReport;
pub use joint::JointType;
pub use solver::{IKSolverMode, IKSolverType};
