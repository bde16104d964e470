use kine_rs::kinematics::joint::{actuated_joint_indices, count_actuated};
use kine_rs::kinematics::solver::default_true;
use kine_rs::kinematics::{CollisionReport, JointType};
use kine_rs::trajectory::{RrtAlgorithm, TrajectoryContinuityMode};
use kine_rs::workcell::EOATType;

#[test]
fn collision_report_lists_each_link_once() {
    let mut report = CollisionReport::default();
    assert!(!report.in_collision);
    report.record_obstacle_contact(3, "Link 4 collision with obstacle 'Table'".to_string());
    report.record_obstacle_contact(3, "Link 4 collision with obstacle 'Obstacle'".to_string());
    report.record_self_contact(1, 3, "Self-collision: Link 2 intersects Link 4".to_string());
    assert!(report.in_collision);
    assert_eq!(report.colliding_links, vec![3, 1]);
    assert_eq!(report.details.len(), 3);
}

#[test]
fn actuated_joints_skip_fixed_ones() {
    let types = [
        JointType::Fixed,
        JointType::Revolute,
        JointType::Fixed,
        JointType::Prismatic,
        JointType::Continuous,
    ];
    assert_eq!(actuated_joint_indices(&types), vec![1, 3, 4]);
    assert_eq!(count_actuated(&types), 3);
    assert!(!JointType::Fixed.is_actuated());
    assert!(JointType::Continuous.is_actuated());
}

#[test]
fn defaults() {
    assert!(default_true());
    assert_eq!(RrtAlgorithm::default(), RrtAlgorithm::RrtConnect);
    assert_eq!(TrajectoryContinuityMode::default(), TrajectoryContinuityMode::SmoothContinuous);
    assert_eq!(EOATType::default(), EOATType::ParallelGripper);
}
