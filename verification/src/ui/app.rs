use vstd::prelude::*;

verus! {

/// Active tab in the sidebar control panel.
#[derive(Debug, Clone, Copy, PartialEq, Eq, Structural)]
pub enum AppTab {
    IK,
    Robot,
    Chat,
    Trajectory,
    Manipulation,
    URDF,
}

} // verus!
