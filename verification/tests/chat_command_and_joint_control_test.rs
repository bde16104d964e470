use kine_rs::kinematics::JointType;
use kine_rs::ui::chat_command::{
    parse_chat_command, AxisAssignment, ChatCommand, ChatCommandConsole, ChatSender,
    ConsoleAction, JogDirection, JointAssignment, JointValueUnit, MoveAxis, OrientationAxis,
    RobotPreset,
};
use kine_rs::kinematics::IKSolverType;

fn chars(s: &str) -> Vec<char> {
    s.chars().collect()
}

/// Joint types of the built-in six-axis industrial arm: six revolute joints.
fn six_axis() -> Vec<JointType> {
    vec![JointType::Revolute; 6]
}

fn parse(input: &str) -> ChatCommand {
    parse_chat_command(input, &six_axis(), 3)
}

#[test]
fn test_chat_console_state_and_history() {
    let mut console = ChatCommandConsole::default();
    assert_eq!(console.messages.len(), 1);
    assert_eq!(console.messages[0].sender, ChatSender::Robot);

    console.add_user_message("joint 1 45");
    assert_eq!(console.messages.len(), 2);
    assert_eq!(console.messages[1].sender, ChatSender::User);

    console.add_robot_reply("Joint 1 set to 45°");
    assert_eq!(console.messages.len(), 3);
    assert_eq!(console.messages[2].sender, ChatSender::Robot);

    // History navigation
    console.command_history.push("home".to_string());
    console.command_history.push("joint 1 45".to_string());
    console.command_history.push("wave".to_string());

    console.history_prev();
    assert_eq!(console.input_text, "wave");
    console.history_prev();
    assert_eq!(console.input_text, "joint 1 45");
    console.history_next();
    assert_eq!(console.input_text, "wave");
    console.history_next();
    assert_eq!(console.input_text, "");

    // Clear
    console.clear();
    assert_eq!(console.messages.len(), 1);
    assert_eq!(console.messages[0].sender, ChatSender::System);
}

#[test]
fn console_history_stops_at_oldest_entry() {
    let mut console = ChatCommandConsole::new();
    console.command_history.push("home".to_string());
    console.command_history.push("wave".to_string());
    console.history_prev();
    console.history_prev();
    console.history_prev();
    assert_eq!(console.history_idx, Some(0));
    assert_eq!(console.input_text, "home");
    // Stepping back and forth returns to the same entry.
    console.history_next();
    assert_eq!(console.history_idx, Some(1));
    assert_eq!(console.input_text, "wave");
}

#[test]
fn console_history_prev_on_empty_history_does_nothing() {
    let mut console = ChatCommandConsole::new();
    console.input_text = "draft".to_string();
    console.history_prev();
    assert_eq!(console.history_idx, None);
    assert_eq!(console.input_text, "draft");
    console.history_next();
    assert_eq!(console.input_text, "draft");
}

#[test]
fn console_submit_logs_and_records_history() {
    let mut console = ChatCommandConsole::new();
    console.input_text = "wave".to_string();
    console.history_idx = Some(0);
    console.submit_command("wave");
    assert_eq!(console.messages.len(), 2);
    assert_eq!(console.messages[1].sender, ChatSender::User);
    assert_eq!(console.messages[1].text, "wave");
    assert!(!console.messages[1].is_error);
    assert_eq!(console.command_history, vec!["wave".to_string()]);
    assert_eq!(console.history_idx, None);
    assert_eq!(console.input_text, "");
    console.add_system_error("bad");
    assert!(console.messages[2].is_error);
    assert_eq!(console.messages[2].sender, ChatSender::System);
}

#[test]
fn parses_direct_joint_moves() {
    assert_eq!(
        parse("joint 1 45"),
        ChatCommand::SetJoint { number: 1, joint_index: 0, value: chars("45"), unit: JointValueUnit::Degrees }
    );
    assert_eq!(
        parse("j2 -30"),
        ChatCommand::SetJoint { number: 2, joint_index: 1, value: chars("-30"), unit: JointValueUnit::Degrees }
    );
    assert_eq!(
        parse("jog j1 +10"),
        ChatCommand::JogJoint { number: 1, joint_index: 0, delta: chars("+10"), unit: JointValueUnit::Degrees }
    );
    assert_eq!(
        parse("jog j2 -5"),
        ChatCommand::JogJoint { number: 2, joint_index: 1, delta: chars("-5"), unit: JointValueUnit::Degrees }
    );
    assert_eq!(
        parse("jog 3 15deg"),
        ChatCommand::JogJoint { number: 3, joint_index: 2, delta: chars("15"), unit: JointValueUnit::Degrees }
    );
    assert_eq!(
        parse("joints 10, 20, 30, -10, -20, -30"),
        ChatCommand::SetJoints {
            assignments: vec![
                JointAssignment { index: 0, degrees: chars("10") },
                JointAssignment { index: 1, degrees: chars("20") },
                JointAssignment { index: 2, degrees: chars("30") },
                JointAssignment { index: 3, degrees: chars("-10") },
                JointAssignment { index: 4, degrees: chars("-20") },
                JointAssignment { index: 5, degrees: chars("-30") },
            ]
        }
    );
    assert_eq!(parse("zero"), ChatCommand::Action(ConsoleAction::ZeroJoints));
    assert_eq!(parse("home"), ChatCommand::Action(ConsoleAction::GoHome));
}

#[test]
fn joint_numbers_address_actuated_joints_only() {
    let types = vec![JointType::Fixed, JointType::Revolute, JointType::Prismatic];
    assert_eq!(
        parse_chat_command("joint 2 0.1", &types, 3),
        ChatCommand::SetJoint { number: 2, joint_index: 2, value: chars("0.1"), unit: JointValueUnit::Meters }
    );
    assert_eq!(
        parse_chat_command("joint 3 10", &types, 3),
        ChatCommand::JointOutOfRange { number: 3, count: 2 }
    );
    assert_eq!(
        parse_chat_command("j0 10", &types, 3),
        ChatCommand::JointOutOfRange { number: 0, count: 2 }
    );
    // Only the first actuated joints get values from a `joints` list.
    assert_eq!(
        parse_chat_command("joints 5 6 7", &types, 3),
        ChatCommand::SetJoints {
            assignments: vec![
                JointAssignment { index: 0, degrees: chars("5") },
                JointAssignment { index: 1, degrees: chars("6") },
            ]
        }
    );
}

#[test]
fn unparsable_joint_values_fall_through() {
    // A `rad` suffix is not stripped, so the value is not a number and the
    // command is not a joint command.
    assert_eq!(parse("joint 1 0.5rad"), ChatCommand::Unknown);
    assert_eq!(parse("joint x 10"), ChatCommand::Unknown);
    assert_eq!(parse("joints a, b"), ChatCommand::Unknown);
    assert!(parse("joint x 10").is_error());
}

#[test]
fn parses_cartesian_moves_and_jogs() {
    assert_eq!(
        parse("move x 0.40 y 0.15 z 0.35"),
        ChatCommand::MoveTo {
            assignments: vec![
                AxisAssignment { axis: MoveAxis::X, value: chars("0.40"), relative: false },
                AxisAssignment { axis: MoveAxis::Y, value: chars("0.15"), relative: false },
                AxisAssignment { axis: MoveAxis::Z, value: chars("0.35"), relative: false },
            ]
        }
    );
    assert_eq!(
        parse("move +x 0.1 -x -0.2 -x 0.3 q 1"),
        ChatCommand::MoveTo {
            assignments: vec![
                AxisAssignment { axis: MoveAxis::X, value: chars("0.1"), relative: true },
                AxisAssignment { axis: MoveAxis::X, value: chars("-0.2"), relative: false },
                AxisAssignment { axis: MoveAxis::X, value: chars("0.3"), relative: true },
            ]
        }
    );
    assert_eq!(
        parse("up 0.05"),
        ChatCommand::JogCartesian { direction: JogDirection::Up, distance: Some(chars("0.05")), centimeters: false }
    );
    assert_eq!(
        parse("left 0.03"),
        ChatCommand::JogCartesian { direction: JogDirection::Left, distance: Some(chars("0.03")), centimeters: false }
    );
    assert_eq!(
        parse("down 5cm"),
        ChatCommand::JogCartesian { direction: JogDirection::Down, distance: None, centimeters: true }
    );
    assert_eq!(
        parse("forward 2m"),
        ChatCommand::JogCartesian { direction: JogDirection::Forward, distance: Some(chars("2")), centimeters: false }
    );
    assert_eq!(
        parse("goto 0.35 0.10 0.25"),
        ChatCommand::GoTo { x: chars("0.35"), y: chars("0.10"), z: chars("0.25") }
    );
    assert_eq!(
        parse("GOTO 0.35, 0.10,0.25"),
        ChatCommand::GoTo { x: chars("0.35"), y: chars("0.10"), z: chars("0.25") }
    );
    assert_eq!(parse("goto 1 2"), ChatCommand::Unknown);
}

#[test]
fn parses_tool_and_workcell_commands() {
    assert_eq!(parse("grip"), ChatCommand::Action(ConsoleAction::CloseGripper));
    assert_eq!(parse("release"), ChatCommand::Action(ConsoleAction::OpenGripper));
    assert_eq!(parse("gripper 75%"), ChatCommand::SetGripper { value: chars("75") });
    assert_eq!(parse("vacuum on"), ChatCommand::Action(ConsoleAction::VacuumOn));
    assert_eq!(parse("vacuum off"), ChatCommand::Action(ConsoleAction::VacuumOff));
    assert_eq!(parse("weld on"), ChatCommand::Action(ConsoleAction::WeldOn));
    assert_eq!(parse("weld off"), ChatCommand::Action(ConsoleAction::WeldOff));
    assert_eq!(parse("pick red"), ChatCommand::Pick { workpiece: 0 });
    assert_eq!(parse("pick brass"), ChatCommand::Pick { workpiece: 2 });
    assert_eq!(parse("pick 2"), ChatCommand::Pick { workpiece: 1 });
    assert_eq!(parse_chat_command("pick gold", &six_axis(), 2), ChatCommand::PickUsage);
    assert_eq!(parse("reset workpieces"), ChatCommand::Action(ConsoleAction::ResetWorkpieces));
}

#[test]
fn parses_routines_playback_and_settings() {
    assert_eq!(parse("wave"), ChatCommand::Action(ConsoleAction::Wave));
    assert_eq!(parse("nod"), ChatCommand::Action(ConsoleAction::Nod));
    assert_eq!(parse("  Dance  "), ChatCommand::Action(ConsoleAction::Dance));
    assert_eq!(parse("speed 2.5x"), ChatCommand::SetSpeed { value: chars("2.5") });
    assert_eq!(parse("loop off"), ChatCommand::Action(ConsoleAction::LoopOff));
    assert_eq!(parse("preset scara"), ChatCommand::LoadPreset(RobotPreset::Scara4Dof));
    assert_eq!(parse("preset iiwa"), ChatCommand::LoadPreset(RobotPreset::Redundant7Dof));
    assert_eq!(parse("preset banana"), ChatCommand::PresetUsage);
    assert_eq!(parse("solver fabrik"), ChatCommand::SelectSolver(IKSolverType::FABRIK));
    assert_eq!(
        parse("roll 30"),
        ChatCommand::SetOrientation { axis: OrientationAxis::Roll, degrees: chars("30") }
    );
    assert_eq!(
        parse("rpy 10 20 30"),
        ChatCommand::SetRpy { roll: chars("10"), pitch: chars("20"), yaw: chars("30") }
    );
    assert_eq!(parse("HELP"), ChatCommand::Action(ConsoleAction::Help));
    assert_eq!(parse("status"), ChatCommand::Action(ConsoleAction::Status));
}

#[test]
fn reports_empty_and_unknown_input_as_errors() {
    assert_eq!(parse("   \t "), ChatCommand::EmptyInput);
    assert!(parse("").is_error());
    assert_eq!(parse("fly away"), ChatCommand::Unknown);
    assert!(parse("fly away").is_error());
    assert!(parse("preset banana").is_error());
    assert!(!parse("wave").is_error());
}
