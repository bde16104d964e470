//! Verified core of a robotic-arm kinematics simulator: the deterministic
//! random generator and search-tree bookkeeping used by the motion planner,
//! the text command language of the operator console, and the plain-value
//! types shared with the numeric engine.

pub mod kinematics;
pub mod text;
pub mod trajectory;
pub mod ui;
pub mod urdf;
pub mod workcell;
