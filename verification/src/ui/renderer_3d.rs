use vstd::prelude::*;

verus! {

/// The gizmo handle that a pointer drag in the 3D view is moving.
#[derive(Debug, Clone, Copy, PartialEq, Eq, Structural)]
pub enum GizmoDragAxis {
    /// No handle is being dragged.
    NoAxis,
    AxisX,
    AxisY,
    AxisZ,
    TargetCenter,
    /// Red X-rotation ring.
    RotRoll,
    /// Green Y-rotation ring.
    RotPitch,
    /// Blue Z-rotation ring.
    RotYaw,
}

} // verus!
