use vstd::prelude::*;

verus! {

/// Type of End-Of-Arm Tooling (EOAT) attached to the robot wrist flange.
#[derive(Debug, Clone, Copy, PartialEq, Eq, Structural)]
pub enum EOATType {
    /// 2-Finger Parallel Mechanical Gripper (e.g. Robotiq 2F-85).
    ParallelGripper,
    /// Pneumatic Suction Bellows Cup (e.g. Piab/Schunk vacuum cup).
    VacuumCup,
    /// Robotic Industrial MIG/TIG Welding Torch with electric arc.
    WeldingTorch,
}

impl Default for EOATType {
    /// The parallel gripper is fitted unless another tool is chosen.
    fn default() -> (t: Self)
        ensures
            t == EOATType::ParallelGripper,
    {
        EOATType::ParallelGripper
    }
}

} // verus!
