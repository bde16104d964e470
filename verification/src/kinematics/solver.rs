use vstd::prelude::*;

verus! {

/// Mode of IK target matching.
#[derive(Debug, Clone, Copy, PartialEq, Eq, Structural)]
pub enum IKSolverMode {
    /// Match 3D end-effector position (X, Y, Z).
    PositionOnly,
    /// Match full 6D end-effector pose (Position + Orientation).
    FullPose,
}

/// Selector for the active inverse kinematics algorithm.
#[derive(Debug, Clone, Copy, PartialEq, Eq, Structural)]
pub enum IKSolverType {
    /// Iterative Forward And Backward Reaching Inverse Kinematics.
    FABRIK,
    /// Damped Least Squares (Levenberg-Marquardt) Jacobian solver.
    JacobianDLS,
    /// Jacobian Transpose solver.
    JacobianTranspose,
}

/// Default for the solver options that are switched on unless stated otherwise.
pub fn default_true() -> (r: bool)
    ensures
        r,
{
    true
}

} // verus!
