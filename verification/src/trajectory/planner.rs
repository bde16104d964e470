use vstd::prelude::*;

verus! {

/// Mode determining velocity and acceleration continuity across waypoints.
#[derive(Debug, Clone, Copy, PartialEq, Eq, Structural)]
pub enum TrajectoryContinuityMode {
    /// Seamless C1/C2 continuity: computes continuous velocity and acceleration vectors
    /// across waypoints (minimum-jerk fly-through without halting).
    SmoothContinuous,
    /// Traditional point-to-point: arm decelerates to a complete stop at each waypoint (dwell mode).
    StopAtWaypoints,
}

impl Default for TrajectoryContinuityMode {
    /// Smooth fly-through is the default.
    fn default() -> (m: Self)
        ensures
            m == TrajectoryContinuityMode::SmoothContinuous,
    {
        TrajectoryContinuityMode::SmoothContinuous
    }
}

} // verus!
