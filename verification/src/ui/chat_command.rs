use vstd::prelude::*;

use crate::kinematics::joint::{actuated_indices, actuated_joint_indices, lemma_actuated_indices_valid, JointType};
use crate::kinematics::solver::IKSolverType;
use crate::text::{
    all_digits, char_is_digit, contains, ends_with, equals, has_infix, has_prefix, has_suffix,
    is_digit, is_float_literal, is_float_literal_chars, parse_usize, parse_usize_chars, pieces,
    split_bounds, starts_with, trim, trim_bounds, trim_end_char, trim_end_char_len, trim_end_seq,
    trim_end_lit_len, trim_start_char, trim_start_char_start, words, bounded_views, all_digits_chars,
    Separator, chars_of, lowercase, to_lowercase, lemma_trim_idempotent,
};

verus! {

// ---------------------------------------------------------------------------
// Command vocabulary
// ---------------------------------------------------------------------------

/// A console command that takes no argument.
#[derive(Debug, Clone, Copy, PartialEq, Eq, Structural)]
pub enum ConsoleAction {
    Help,
    Status,
    GoHome,
    ZeroJoints,
    SyncTarget,
    ClearTrail,
    CloseGripper,
    OpenGripper,
    VacuumOn,
    VacuumOff,
    WeldOn,
    WeldOff,
    Wave,
    Nod,
    Dance,
    Play,
    Pause,
    Stop,
    LoopOn,
    LoopOff,
    ResetWorkpieces,
    FocusCamera,
    ResetCamera,
}

/// Built-in robot models that the `preset` command can load.
#[derive(Debug, Clone, Copy, PartialEq, Eq, Structural)]
pub enum RobotPreset {
    Industrial6Dof,
    Scara4Dof,
    Redundant7Dof,
    Planar3Dof,
}

/// How the number given for a joint is to be read.
#[derive(Debug, Clone, Copy, PartialEq, Eq, Structural)]
pub enum JointValueUnit {
    /// A prismatic joint: metres.
    Meters,
    /// A rotational joint whose value was written with a `rad` suffix.
    Radians,
    /// A rotational joint: degrees.
    Degrees,
}

/// Direction of a relative Cartesian jog of the tool.
#[derive(Debug, Clone, Copy, PartialEq, Eq, Structural)]
pub enum JogDirection {
    /// +Z
    Up,
    /// -Z
    Down,
    /// +Y
    Left,
    /// -Y
    Right,
    /// +X
    Forward,
    /// -X
    Backward,
}

/// Euler angle set by an orientation command.
#[derive(Debug, Clone, Copy, PartialEq, Eq, Structural)]
pub enum OrientationAxis {
    Roll,
    Pitch,
    Yaw,
}

/// Cartesian axis named in a `move` command.
#[derive(Debug, Clone, Copy, PartialEq, Eq, Structural)]
pub enum MoveAxis {
    X,
    Y,
    Z,
}

/// `joints` command: the actuated joint `index` (from 0) gets the angle `degrees`.
#[derive(Debug, Clone, PartialEq)]
pub struct JointAssignment {
    pub index: usize,
    pub degrees: Vec<char>,
}

/// `move` command: the target coordinate `axis` is set to `value`, or moved by
/// it when `relative`.
#[derive(Debug, Clone, PartialEq)]
pub struct AxisAssignment {
    pub axis: MoveAxis,
    pub value: Vec<char>,
    pub relative: bool,
}

/// A parsed console command. Numbers are kept as the literal text that the
/// command carried; every such text is a valid floating-point literal.
#[derive(Debug, Clone, PartialEq)]
pub enum ChatCommand {
    /// Nothing but whitespace was entered (an error).
    EmptyInput,
    Action(ConsoleAction),
    /// `gripper <value>[%]`: closing ratio, in percent when above 1.
    SetGripper { value: Vec<char> },
    LoadPreset(RobotPreset),
    /// `preset` with an unknown model name (an error).
    PresetUsage,
    /// `speed <value>[x]`: playback speed multiplier.
    SetSpeed { value: Vec<char> },
    /// `joint <n> <value>` / `j<n> <value>`: joint number `number` (from 1),
    /// which is the joint at `joint_index` in the chain.
    SetJoint { number: usize, joint_index: usize, value: Vec<char>, unit: JointValueUnit },
    /// `jog j<n> <delta>` / `jog <n> <delta>`.
    JogJoint { number: usize, joint_index: usize, delta: Vec<char>, unit: JointValueUnit },
    /// A joint number outside `1..=count` (an error).
    JointOutOfRange { number: usize, count: usize },
    /// `joints <a1>, <a2>, ...` in degrees.
    SetJoints { assignments: Vec<JointAssignment> },
    /// `up|down|left|right|forward|backward [<distance>]`.
    JogCartesian { direction: JogDirection, distance: Option<Vec<char>>, centimeters: bool },
    /// `goto <x> <y> <z>`.
    GoTo { x: Vec<char>, y: Vec<char>, z: Vec<char> },
    /// `move x <v> y <v> z <v>`.
    MoveTo { assignments: Vec<AxisAssignment> },
    /// `roll|pitch|yaw <degrees>`.
    SetOrientation { axis: OrientationAxis, degrees: Vec<char> },
    /// `rpy <roll> <pitch> <yaw>`.
    SetRpy { roll: Vec<char>, pitch: Vec<char>, yaw: Vec<char> },
    /// `pick <item>`: workpiece number `workpiece` (from 0).
    Pick { workpiece: usize },
    /// `pick` of a workpiece that does not exist (an error).
    PickUsage,
    SelectSolver(IKSolverType),
    /// Anything else (an error).
    Unknown,
}

// ---------------------------------------------------------------------------
// Mathematical model of commands
// ---------------------------------------------------------------------------

pub struct SpecJointAssignment {
    pub index: usize,
    pub degrees: Seq<char>,
}

pub struct SpecAxisAssignment {
    pub axis: MoveAxis,
    pub value: Seq<char>,
    pub relative: bool,
}

pub enum SpecChatCommand {
    EmptyInput,
    Action(ConsoleAction),
    SetGripper { value: Seq<char> },
    LoadPreset(RobotPreset),
    PresetUsage,
    SetSpeed { value: Seq<char> },
    SetJoint { number: usize, joint_index: usize, value: Seq<char>, unit: JointValueUnit },
    JogJoint { number: usize, joint_index: usize, delta: Seq<char>, unit: JointValueUnit },
    JointOutOfRange { number: usize, count: usize },
    SetJoints { assignments: Seq<SpecJointAssignment> },
    JogCartesian { direction: JogDirection, distance: Option<Seq<char>>, centimeters: bool },
    GoTo { x: Seq<char>, y: Seq<char>, z: Seq<char> },
    MoveTo { assignments: Seq<SpecAxisAssignment> },
    SetOrientation { axis: OrientationAxis, degrees: Seq<char> },
    SetRpy { roll: Seq<char>, pitch: Seq<char>, yaw: Seq<char> },
    Pick { workpiece: usize },
    PickUsage,
    SelectSolver(IKSolverType),
    Unknown,
}

impl View for JointAssignment {
    type V = SpecJointAssignment;

    open spec fn view(&self) -> SpecJointAssignment {
        SpecJointAssignment { index: self.index, degrees: self.degrees@ }
    }
}

impl View for AxisAssignment {
    type V = SpecAxisAssignment;

    open spec fn view(&self) -> SpecAxisAssignment {
        SpecAxisAssignment { axis: self.axis, value: self.value@, relative: self.relative }
    }
}

pub open spec fn opt_chars_view(o: Option<Vec<char>>) -> Option<Seq<char>> {
    match o {
        Some(v) => Some(v@),
        None => None,
    }
}

impl View for ChatCommand {
    type V = SpecChatCommand;

    open spec fn view(&self) -> SpecChatCommand {
        match self {
            ChatCommand::EmptyInput => SpecChatCommand::EmptyInput,
            ChatCommand::Action(a) => SpecChatCommand::Action(*a),
            ChatCommand::SetGripper { value } => SpecChatCommand::SetGripper { value: value@ },
            ChatCommand::LoadPreset(p) => SpecChatCommand::LoadPreset(*p),
            ChatCommand::PresetUsage => SpecChatCommand::PresetUsage,
            ChatCommand::SetSpeed { value } => SpecChatCommand::SetSpeed { value: value@ },
            ChatCommand::SetJoint { number, joint_index, value, unit } => SpecChatCommand::SetJoint {
                number: *number,
                joint_index: *joint_index,
                value: value@,
                unit: *unit,
            },
            ChatCommand::JogJoint { number, joint_index, delta, unit } => SpecChatCommand::JogJoint {
                number: *number,
                joint_index: *joint_index,
                delta: delta@,
                unit: *unit,
            },
            ChatCommand::JointOutOfRange { number, count } => SpecChatCommand::JointOutOfRange {
                number: *number,
                count: *count,
            },
            ChatCommand::SetJoints { assignments } => SpecChatCommand::SetJoints {
                assignments: assignments@.map_values(|a: JointAssignment| a@),
            },
            ChatCommand::JogCartesian { direction, distance, centimeters } =>
                SpecChatCommand::JogCartesian {
                direction: *direction,
                distance: opt_chars_view(*distance),
                centimeters: *centimeters,
            },
            ChatCommand::GoTo { x, y, z } => SpecChatCommand::GoTo { x: x@, y: y@, z: z@ },
            ChatCommand::MoveTo { assignments } => SpecChatCommand::MoveTo {
                assignments: assignments@.map_values(|a: AxisAssignment| a@),
            },
            ChatCommand::SetOrientation { axis, degrees } => SpecChatCommand::SetOrientation {
                axis: *axis,
                degrees: degrees@,
            },
            ChatCommand::SetRpy { roll, pitch, yaw } => SpecChatCommand::SetRpy {
                roll: roll@,
                pitch: pitch@,
                yaw: yaw@,
            },
            ChatCommand::Pick { workpiece } => SpecChatCommand::Pick { workpiece: *workpiece },
            ChatCommand::PickUsage => SpecChatCommand::PickUsage,
            ChatCommand::SelectSolver(s) => SpecChatCommand::SelectSolver(*s),
            ChatCommand::Unknown => SpecChatCommand::Unknown,
        }
    }
}

pub open spec fn option_view(o: Option<ChatCommand>) -> Option<SpecChatCommand> {
    match o {
        Some(c) => Some(c@),
        None => None,
    }
}

/// The commands that the console reports as errors.
pub open spec fn is_error_command(c: SpecChatCommand) -> bool {
    ||| c is EmptyInput
    ||| c is PresetUsage
    ||| c is JointOutOfRange
    ||| c is PickUsage
    ||| c is Unknown
}

impl ChatCommand {
    /// Whether the console answers this command with an error message.
    pub fn is_error(&self) -> (r: bool)
        ensures
            r == is_error_command(self@),
    {
        match self {
            ChatCommand::EmptyInput | ChatCommand::PresetUsage | ChatCommand::JointOutOfRange {
                ..
            } | ChatCommand::PickUsage | ChatCommand::Unknown => true,
            _ => false,
        }
    }
}


// ---------------------------------------------------------------------------
// The command language
// ---------------------------------------------------------------------------

/// The token at position `i`, if there is one.
pub open spec fn token_at(tokens: Seq<Seq<char>>, i: int) -> Option<Seq<char>> {
    if 0 <= i < tokens.len() {
        Some(tokens[i])
    } else {
        None
    }
}

/// Help, status, posture, trail and gripper open/close words.
pub open spec fn basic_action(lower: Seq<char>) -> Option<ConsoleAction> {
    if lower == "help"@ || lower == "commands"@ || lower == "?"@ || lower == "/help"@ {
        Some(ConsoleAction::Help)
    } else if lower == "status"@ || lower == "info"@ || lower == "pos"@ {
        Some(ConsoleAction::Status)
    } else if lower == "home"@ || lower == "reset"@ || lower == "reset home"@ {
        Some(ConsoleAction::GoHome)
    } else if lower == "zero"@ || lower == "zero joints"@ {
        Some(ConsoleAction::ZeroJoints)
    } else if lower == "sync"@ || lower == "sync target"@ {
        Some(ConsoleAction::SyncTarget)
    } else if lower == "clear trail"@ || lower == "reset trail"@ {
        Some(ConsoleAction::ClearTrail)
    } else if lower == "grip"@ || lower == "grab"@ || lower == "close"@ || lower
        == "close gripper"@ || lower == "clamp"@ {
        Some(ConsoleAction::CloseGripper)
    } else if lower == "release"@ || lower == "open"@ || lower == "open gripper"@ || lower
        == "drop"@ {
        Some(ConsoleAction::OpenGripper)
    } else {
        None
    }
}

/// `gripper <value>[%]`.
pub open spec fn gripper_command(lower: Seq<char>, tokens: Seq<Seq<char>>) -> Option<
    SpecChatCommand,
> {
    if has_prefix(lower, "gripper"@) && tokens.len() > 1 && is_float_literal(
        trim_end_char(tokens[1], '%'),
    ) {
        Some(SpecChatCommand::SetGripper { value: trim_end_char(tokens[1], '%') })
    } else {
        None
    }
}

/// Vacuum and welding switches.
pub open spec fn tool_action(lower: Seq<char>) -> Option<ConsoleAction> {
    if lower == "vacuum on"@ || lower == "vacuum"@ {
        Some(ConsoleAction::VacuumOn)
    } else if lower == "vacuum off"@ {
        Some(ConsoleAction::VacuumOff)
    } else if lower == "weld on"@ || lower == "weld"@ {
        Some(ConsoleAction::WeldOn)
    } else if lower == "weld off"@ {
        Some(ConsoleAction::WeldOff)
    } else {
        None
    }
}

/// The model that a preset name asks for.
pub open spec fn preset_named(name: Seq<char>) -> Option<RobotPreset> {
    if has_infix(name, "6dof"@) || has_infix(name, "industrial"@) || has_infix(name, "ur5"@) {
        Some(RobotPreset::Industrial6Dof)
    } else if has_infix(name, "scara"@) || has_infix(name, "4dof"@) {
        Some(RobotPreset::Scara4Dof)
    } else if has_infix(name, "7dof"@) || has_infix(name, "redundant"@) || has_infix(
        name,
        "iiwa"@,
    ) {
        Some(RobotPreset::Redundant7Dof)
    } else if has_infix(name, "planar"@) || has_infix(name, "2d"@) || has_infix(name, "3dof"@) {
        Some(RobotPreset::Planar3Dof)
    } else {
        None
    }
}

/// `preset <name>`: the named model, or the usage error.
pub open spec fn preset_command(lower: Seq<char>, tokens: Seq<Seq<char>>) -> Option<
    SpecChatCommand,
> {
    if has_prefix(lower, "preset"@) {
        let name = if tokens.len() > 1 {
            tokens[1]
        } else {
            Seq::empty()
        };
        match preset_named(name) {
            Some(p) => Some(SpecChatCommand::LoadPreset(p)),
            None => Some(SpecChatCommand::PresetUsage),
        }
    } else {
        None
    }
}

/// Scripted routines and trajectory playback words.
pub open spec fn routine_action(lower: Seq<char>) -> Option<ConsoleAction> {
    if lower == "wave"@ {
        Some(ConsoleAction::Wave)
    } else if lower == "nod"@ {
        Some(ConsoleAction::Nod)
    } else if lower == "dance"@ {
        Some(ConsoleAction::Dance)
    } else if lower == "play"@ || lower == "start"@ {
        Some(ConsoleAction::Play)
    } else if lower == "pause"@ {
        Some(ConsoleAction::Pause)
    } else if lower == "stop"@ {
        Some(ConsoleAction::Stop)
    } else if lower == "loop on"@ {
        Some(ConsoleAction::LoopOn)
    } else if lower == "loop off"@ {
        Some(ConsoleAction::LoopOff)
    } else {
        None
    }
}

/// `speed <value>[x]`.
pub open spec fn speed_command(lower: Seq<char>, tokens: Seq<Seq<char>>) -> Option<
    SpecChatCommand,
> {
    if has_prefix(lower, "speed"@) && tokens.len() > 1 && is_float_literal(
        trim_end_char(tokens[1], 'x'),
    ) {
        Some(SpecChatCommand::SetSpeed { value: trim_end_char(tokens[1], 'x') })
    } else {
        None
    }
}

/// The number of an angle written with optional `deg` and `°` suffixes.
pub open spec fn angle_token(value: Seq<char>) -> Seq<char> {
    trim_end_char(trim_end_seq(value, "deg"@), '°')
}

/// What a joint command with joint number `number` and value text `value`
/// does on a chain with joint types `types`: it addresses the `number`-th
/// actuated joint, or reports that no such joint exists.
pub open spec fn joint_target(
    number: usize,
    value: Seq<char>,
    types: Seq<JointType>,
    jog: bool,
) -> SpecChatCommand {
    let idx = actuated_indices(types);
    if 1 <= number <= idx.len() {
        let j = idx[number - 1];
        let unit = if types[j] == JointType::Prismatic {
            JointValueUnit::Meters
        } else if has_suffix(value, "rad"@) {
            JointValueUnit::Radians
        } else {
            JointValueUnit::Degrees
        };
        if jog {
            SpecChatCommand::JogJoint {
                number,
                joint_index: j as usize,
                delta: angle_token(value),
                unit,
            }
        } else {
            SpecChatCommand::SetJoint {
                number,
                joint_index: j as usize,
                value: angle_token(value),
                unit,
            }
        }
    } else {
        SpecChatCommand::JointOutOfRange { number, count: idx.len() as usize }
    }
}

/// A joint number text and a value text, if both parse.
pub open spec fn joint_operands(number: Option<Seq<char>>, value: Option<Seq<char>>) -> Option<
    (usize, Seq<char>),
> {
    match (number, value) {
        (Some(n), Some(v)) => if parse_usize(n) is Some && is_float_literal(angle_token(v)) {
            Some((parse_usize(n)->0, v))
        } else {
            None
        },
        _ => None,
    }
}

/// `joint <n> <value>` or `j<n> <value>`.
pub open spec fn joint_command(
    lower: Seq<char>,
    tokens: Seq<Seq<char>>,
    types: Seq<JointType>,
) -> Option<SpecChatCommand> {
    if has_prefix(lower, "joint "@) || (has_prefix(lower, "j"@) && lower.len() > 1 && is_digit(
        lower[1],
    )) {
        let operands = if has_prefix(lower, "joint "@) {
            joint_operands(token_at(tokens, 1), token_at(tokens, 2))
        } else {
            joint_operands(Some(trim_start_char(tokens[0], 'j')), token_at(tokens, 1))
        };
        match operands {
            Some((n, v)) => Some(joint_target(n, v, types, false)),
            None => None,
        }
    } else {
        None
    }
}

/// `jog j<n> <delta>` or `jog <n> <delta>`.
pub open spec fn jog_command(
    lower: Seq<char>,
    tokens: Seq<Seq<char>>,
    types: Seq<JointType>,
) -> Option<SpecChatCommand> {
    let second_names_joint = tokens.len() > 1 && has_prefix(tokens[1], "j"@);
    if has_prefix(lower, "jog j"@) || (has_prefix(lower, "jog "@) && tokens.len() > 1 && (
    has_prefix(tokens[1], "j"@) || all_digits(tokens[1]))) {
        let operands = if second_names_joint {
            joint_operands(Some(trim_start_char(tokens[1], 'j')), token_at(tokens, 2))
        } else {
            joint_operands(token_at(tokens, 1), token_at(tokens, 2))
        };
        match operands {
            Some((n, v)) => Some(joint_target(n, v, types, true)),
            None => None,
        }
    } else {
        None
    }
}

/// `input` after its first `k` characters (empty if it is shorter).
pub open spec fn after(input: Seq<char>, k: int) -> Seq<char> {
    if input.len() >= k {
        input.skip(k)
    } else {
        Seq::empty()
    }
}

/// The angles of a `joints` list: the `i`-th piece sets the `i`-th actuated
/// joint when there is one and the piece (without trailing `°`) is a number.
pub open spec fn joint_assignments(parts: Seq<Seq<char>>, dof: nat) -> Seq<SpecJointAssignment>
    decreases parts.len(),
{
    if parts.len() == 0 {
        Seq::empty()
    } else {
        let prev = joint_assignments(parts.drop_last(), dof);
        let i = parts.len() - 1;
        let angle = trim_end_char(parts.last(), '°');
        if i < dof && is_float_literal(angle) {
            prev.push(SpecJointAssignment { index: i as usize, degrees: angle })
        } else {
            prev
        }
    }
}

/// `joints <a1>, <a2>, ...`: applies when at least one angle was given.
pub open spec fn joints_command(input: Seq<char>, lower: Seq<char>, dof: nat) -> Option<
    SpecChatCommand,
> {
    if has_prefix(lower, "joints "@) {
        let parts = pieces(trim(after(input, 7)), Separator::CommaOrSpace);
        let assignments = joint_assignments(parts, dof);
        if assignments.len() > 0 {
            Some(SpecChatCommand::SetJoints { assignments })
        } else {
            None
        }
    } else {
        None
    }
}

/// The jog direction a command word starts with, in the order they are tried.
pub open spec fn jog_direction(lower: Seq<char>) -> Option<JogDirection> {
    if has_prefix(lower, "up"@) {
        Some(JogDirection::Up)
    } else if has_prefix(lower, "down"@) {
        Some(JogDirection::Down)
    } else if has_prefix(lower, "left"@) {
        Some(JogDirection::Left)
    } else if has_prefix(lower, "right"@) {
        Some(JogDirection::Right)
    } else if has_prefix(lower, "forward"@) {
        Some(JogDirection::Forward)
    } else if has_prefix(lower, "backward"@) {
        Some(JogDirection::Backward)
    } else {
        None
    }
}

/// The number of a distance written with optional `m` and then `cm` suffixes.
pub open spec fn distance_token(value: Seq<char>) -> Seq<char> {
    trim_end_seq(trim_end_char(value, 'm'), "cm"@)
}

/// `up|down|left|right|forward|backward [<distance>]`: the distance is absent
/// when missing or not a number; centimetres when the input mentions `cm`.
pub open spec fn cartesian_jog_command(
    input: Seq<char>,
    lower: Seq<char>,
    tokens: Seq<Seq<char>>,
) -> Option<SpecChatCommand> {
    match jog_direction(lower) {
        Some(direction) => Some(
            SpecChatCommand::JogCartesian {
                direction,
                distance: if tokens.len() > 1 && is_float_literal(distance_token(tokens[1])) {
                    Some(distance_token(tokens[1]))
                } else {
                    None
                },
                centimeters: has_infix(input, "cm"@),
            },
        ),
        None => None,
    }
}

/// `goto <x> <y> <z>` (separated by spaces or commas).
pub open spec fn goto_command(input: Seq<char>, lower: Seq<char>) -> Option<SpecChatCommand> {
    let parts = pieces(trim(after(input, 5)), Separator::CommaOrSpace);
    if has_prefix(lower, "goto "@) && parts.len() >= 3 && is_float_literal(parts[0])
        && is_float_literal(parts[1]) && is_float_literal(parts[2]) {
        Some(SpecChatCommand::GoTo { x: parts[0], y: parts[1], z: parts[2] })
    } else {
        None
    }
}

/// The axis a `move` key names.
pub open spec fn move_axis(key: Seq<char>) -> Option<MoveAxis> {
    if key == "x"@ || key == "-x"@ || key == "+x"@ {
        Some(MoveAxis::X)
    } else if key == "y"@ || key == "-y"@ || key == "+y"@ {
        Some(MoveAxis::Y)
    } else if key == "z"@ || key == "-z"@ || key == "+z"@ {
        Some(MoveAxis::Z)
    } else {
        None
    }
}

/// An `x` key adds its value to the current coordinate when written `+x`, or
/// `-x` followed by a value that does not start with `-`.
pub open spec fn is_relative_key(key: Seq<char>, value: Seq<char>) -> bool {
    key == "+x"@ || (key == "-x"@ && !has_prefix(value, "-"@))
}

/// The coordinate settings of a `move` command, scanning tokens from `i`:
/// an axis key followed by a number is one setting, anything else is skipped.
pub open spec fn move_assignments(tokens: Seq<Seq<char>>, i: int) -> Seq<SpecAxisAssignment>
    decreases tokens.len() - i,
{
    if i < 0 || i >= tokens.len() {
        Seq::empty()
    } else if i + 1 < tokens.len() && is_float_literal(tokens[i + 1]) && move_axis(
        tokens[i],
    ) is Some {
        let axis = move_axis(tokens[i])->0;
        seq![
            SpecAxisAssignment {
                axis,
                value: tokens[i + 1],
                relative: axis == MoveAxis::X && is_relative_key(tokens[i], tokens[i + 1]),
            },
        ] + move_assignments(tokens, i + 2)
    } else {
        move_assignments(tokens, i + 1)
    }
}

/// `move x <v> y <v> z <v>`: applies when at least one coordinate was given.
pub open spec fn move_command(lower: Seq<char>, tokens: Seq<Seq<char>>) -> Option<
    SpecChatCommand,
> {
    if has_prefix(lower, "move"@) && move_assignments(tokens, 1).len() > 0 {
        Some(SpecChatCommand::MoveTo { assignments: move_assignments(tokens, 1) })
    } else {
        None
    }
}

/// `roll|pitch|yaw <degrees>` and `rpy <roll> <pitch> <yaw>`.
pub open spec fn orientation_command(lower: Seq<char>, tokens: Seq<Seq<char>>) -> Option<
    SpecChatCommand,
> {
    let second_is_number = tokens.len() > 1 && is_float_literal(tokens[1]);
    if has_prefix(lower, "roll "@) && second_is_number {
        Some(SpecChatCommand::SetOrientation { axis: OrientationAxis::Roll, degrees: tokens[1] })
    } else if has_prefix(lower, "pitch "@) && second_is_number {
        Some(SpecChatCommand::SetOrientation { axis: OrientationAxis::Pitch, degrees: tokens[1] })
    } else if has_prefix(lower, "yaw "@) && second_is_number {
        Some(SpecChatCommand::SetOrientation { axis: OrientationAxis::Yaw, degrees: tokens[1] })
    } else if has_prefix(lower, "rpy "@) && tokens.len() >= 4 && is_float_literal(tokens[1])
        && is_float_literal(tokens[2]) && is_float_literal(tokens[3]) {
        Some(SpecChatCommand::SetRpy { roll: tokens[1], pitch: tokens[2], yaw: tokens[3] })
    } else {
        None
    }
}

/// The workpiece an item word names; the first one when it names none.
pub open spec fn workpiece_named(item: Seq<char>) -> usize {
    if has_infix(item, "red"@) || has_infix(item, "box"@) || has_infix(item, "cube"@) || item
        == "1"@ {
        0
    } else if has_infix(item, "blue"@) || has_infix(item, "cylinder"@) || has_infix(
        item,
        "billet"@,
    ) || item == "2"@ {
        1
    } else if has_infix(item, "gold"@) || has_infix(item, "sphere"@) || has_infix(item, "brass"@)
        || item == "3"@ {
        2
    } else {
        0
    }
}

/// `pick <item>`: the named workpiece if it exists, else the usage error.
pub open spec fn pick_command(lower: Seq<char>, tokens: Seq<Seq<char>>, workpieces: nat) -> Option<
    SpecChatCommand,
> {
    if has_prefix(lower, "pick"@) {
        let item = if tokens.len() > 1 {
            tokens[1]
        } else {
            Seq::empty()
        };
        let w = workpiece_named(item);
        if w < workpieces {
            Some(SpecChatCommand::Pick { workpiece: w })
        } else {
            Some(SpecChatCommand::PickUsage)
        }
    } else {
        None
    }
}

/// Workpiece reset, camera and solver words.
pub open spec fn late_command(lower: Seq<char>) -> Option<SpecChatCommand> {
    if lower == "reset workpieces"@ || lower == "reset demo"@ {
        Some(SpecChatCommand::Action(ConsoleAction::ResetWorkpieces))
    } else if lower == "focus"@ || lower == "focus tcp"@ {
        Some(SpecChatCommand::Action(ConsoleAction::FocusCamera))
    } else if lower == "reset camera"@ || lower == "camera home"@ {
        Some(SpecChatCommand::Action(ConsoleAction::ResetCamera))
    } else if lower == "solver dls"@ {
        Some(SpecChatCommand::SelectSolver(IKSolverType::JacobianDLS))
    } else if lower == "solver fabrik"@ {
        Some(SpecChatCommand::SelectSolver(IKSolverType::FABRIK))
    } else if lower == "solver transpose"@ {
        Some(SpecChatCommand::SelectSolver(IKSolverType::JacobianTranspose))
    } else {
        None
    }
}

/// The command that a trimmed input denotes, given its lower-case form
/// `lower`, its lower-cased words `tokens`, the joint types of the robot and
/// the number of workpieces. The forms are tried in a fixed order; a form
/// whose numbers do not parse gives way to the next.
pub open spec fn command_of(
    input: Seq<char>,
    lower: Seq<char>,
    tokens: Seq<Seq<char>>,
    types: Seq<JointType>,
    workpieces: nat,
) -> SpecChatCommand {
    let dof = actuated_indices(types).len();
    if input.len() == 0 {
        SpecChatCommand::EmptyInput
    } else if basic_action(lower) is Some {
        SpecChatCommand::Action(basic_action(lower)->0)
    } else if gripper_command(lower, tokens) is Some {
        gripper_command(lower, tokens)->0
    } else if tool_action(lower) is Some {
        SpecChatCommand::Action(tool_action(lower)->0)
    } else if preset_command(lower, tokens) is Some {
        preset_command(lower, tokens)->0
    } else if routine_action(lower) is Some {
        SpecChatCommand::Action(routine_action(lower)->0)
    } else if speed_command(lower, tokens) is Some {
        speed_command(lower, tokens)->0
    } else if joint_command(lower, tokens, types) is Some {
        joint_command(lower, tokens, types)->0
    } else if jog_command(lower, tokens, types) is Some {
        jog_command(lower, tokens, types)->0
    } else if joints_command(input, lower, dof) is Some {
        joints_command(input, lower, dof)->0
    } else if cartesian_jog_command(input, lower, tokens) is Some {
        cartesian_jog_command(input, lower, tokens)->0
    } else if goto_command(input, lower) is Some {
        goto_command(input, lower)->0
    } else if move_command(lower, tokens) is Some {
        move_command(lower, tokens)->0
    } else if orientation_command(lower, tokens) is Some {
        orientation_command(lower, tokens)->0
    } else if pick_command(lower, tokens, workpieces) is Some {
        pick_command(lower, tokens, workpieces)->0
    } else if late_command(lower) is Some {
        late_command(lower)->0
    } else {
        SpecChatCommand::Unknown
    }
}


// ---------------------------------------------------------------------------
// Recognising commands
// ---------------------------------------------------------------------------

/// The views of the tokens.
pub open spec fn token_views(tokens: Seq<Vec<char>>) -> Seq<Seq<char>> {
    tokens.map_values(|t: Vec<char>| t@)
}

fn basic_action_of(lower: &[char]) -> (r: Option<ConsoleAction>)
    ensures
        r == basic_action(lower@),
{
    if equals(lower, "help") || equals(lower, "commands") || equals(lower, "?") || equals(
        lower,
        "/help",
    ) {
        Some(ConsoleAction::Help)
    } else if equals(lower, "status") || equals(lower, "info") || equals(lower, "pos") {
        Some(ConsoleAction::Status)
    } else if equals(lower, "home") || equals(lower, "reset") || equals(lower, "reset home") {
        Some(ConsoleAction::GoHome)
    } else if equals(lower, "zero") || equals(lower, "zero joints") {
        Some(ConsoleAction::ZeroJoints)
    } else if equals(lower, "sync") || equals(lower, "sync target") {
        Some(ConsoleAction::SyncTarget)
    } else if equals(lower, "clear trail") || equals(lower, "reset trail") {
        Some(ConsoleAction::ClearTrail)
    } else if equals(lower, "grip") || equals(lower, "grab") || equals(lower, "close") || equals(
        lower,
        "close gripper",
    ) || equals(lower, "clamp") {
        Some(ConsoleAction::CloseGripper)
    } else if equals(lower, "release") || equals(lower, "open") || equals(lower, "open gripper")
        || equals(lower, "drop") {
        Some(ConsoleAction::OpenGripper)
    } else {
        None
    }
}

fn tool_action_of(lower: &[char]) -> (r: Option<ConsoleAction>)
    ensures
        r == tool_action(lower@),
{
    if equals(lower, "vacuum on") || equals(lower, "vacuum") {
        Some(ConsoleAction::VacuumOn)
    } else if equals(lower, "vacuum off") {
        Some(ConsoleAction::VacuumOff)
    } else if equals(lower, "weld on") || equals(lower, "weld") {
        Some(ConsoleAction::WeldOn)
    } else if equals(lower, "weld off") {
        Some(ConsoleAction::WeldOff)
    } else {
        None
    }
}

fn routine_action_of(lower: &[char]) -> (r: Option<ConsoleAction>)
    ensures
        r == routine_action(lower@),
{
    if equals(lower, "wave") {
        Some(ConsoleAction::Wave)
    } else if equals(lower, "nod") {
        Some(ConsoleAction::Nod)
    } else if equals(lower, "dance") {
        Some(ConsoleAction::Dance)
    } else if equals(lower, "play") || equals(lower, "start") {
        Some(ConsoleAction::Play)
    } else if equals(lower, "pause") {
        Some(ConsoleAction::Pause)
    } else if equals(lower, "stop") {
        Some(ConsoleAction::Stop)
    } else if equals(lower, "loop on") {
        Some(ConsoleAction::LoopOn)
    } else if equals(lower, "loop off") {
        Some(ConsoleAction::LoopOff)
    } else {
        None
    }
}

fn late_command_of(lower: &[char]) -> (r: Option<ChatCommand>)
    ensures
        option_view(r) == late_command(lower@),
{
    if equals(lower, "reset workpieces") || equals(lower, "reset demo") {
        Some(ChatCommand::Action(ConsoleAction::ResetWorkpieces))
    } else if equals(lower, "focus") || equals(lower, "focus tcp") {
        Some(ChatCommand::Action(ConsoleAction::FocusCamera))
    } else if equals(lower, "reset camera") || equals(lower, "camera home") {
        Some(ChatCommand::Action(ConsoleAction::ResetCamera))
    } else if equals(lower, "solver dls") {
        Some(ChatCommand::SelectSolver(IKSolverType::JacobianDLS))
    } else if equals(lower, "solver fabrik") {
        Some(ChatCommand::SelectSolver(IKSolverType::FABRIK))
    } else if equals(lower, "solver transpose") {
        Some(ChatCommand::SelectSolver(IKSolverType::JacobianTranspose))
    } else {
        None
    }
}

fn preset_named_of(name: &[char]) -> (r: Option<RobotPreset>)
    ensures
        r == preset_named(name@),
{
    if contains(name, "6dof") || contains(name, "industrial") || contains(name, "ur5") {
        Some(RobotPreset::Industrial6Dof)
    } else if contains(name, "scara") || contains(name, "4dof") {
        Some(RobotPreset::Scara4Dof)
    } else if contains(name, "7dof") || contains(name, "redundant") || contains(name, "iiwa") {
        Some(RobotPreset::Redundant7Dof)
    } else if contains(name, "planar") || contains(name, "2d") || contains(name, "3dof") {
        Some(RobotPreset::Planar3Dof)
    } else {
        None
    }
}

fn jog_direction_of(lower: &[char]) -> (r: Option<JogDirection>)
    ensures
        r == jog_direction(lower@),
{
    if starts_with(lower, "up") {
        Some(JogDirection::Up)
    } else if starts_with(lower, "down") {
        Some(JogDirection::Down)
    } else if starts_with(lower, "left") {
        Some(JogDirection::Left)
    } else if starts_with(lower, "right") {
        Some(JogDirection::Right)
    } else if starts_with(lower, "forward") {
        Some(JogDirection::Forward)
    } else if starts_with(lower, "backward") {
        Some(JogDirection::Backward)
    } else {
        None
    }
}

fn move_axis_of(key: &[char]) -> (r: Option<MoveAxis>)
    ensures
        r == move_axis(key@),
{
    if equals(key, "x") || equals(key, "-x") || equals(key, "+x") {
        Some(MoveAxis::X)
    } else if equals(key, "y") || equals(key, "-y") || equals(key, "+y") {
        Some(MoveAxis::Y)
    } else if equals(key, "z") || equals(key, "-z") || equals(key, "+z") {
        Some(MoveAxis::Z)
    } else {
        None
    }
}

fn workpiece_named_of(item: &[char]) -> (r: usize)
    ensures
        r == workpiece_named(item@),
{
    if contains(item, "red") || contains(item, "box") || contains(item, "cube") || equals(
        item,
        "1",
    ) {
        0
    } else if contains(item, "blue") || contains(item, "cylinder") || contains(item, "billet")
        || equals(item, "2") {
        1
    } else if contains(item, "gold") || contains(item, "sphere") || contains(item, "brass")
        || equals(item, "3") {
        2
    } else {
        0
    }
}

/// `value` without trailing `c`s, if that is a floating-point literal.
fn number_before_char(value: &[char], c: char) -> (r: Option<Vec<char>>)
    ensures
        opt_chars_view(r) == (if is_float_literal(trim_end_char(value@, c)) {
            Some(trim_end_char(value@, c))
        } else {
            None
        }),
{
    let e = trim_end_char_len(value, c);
    let v = &value[0..e];
    if is_float_literal_chars(v) {
        Some(vstd::slice::slice_to_vec(v))
    } else {
        None
    }
}

/// The angle number of `value` (without `deg`/`°` suffixes), if a literal.
fn angle_number(value: &[char]) -> (r: Option<Vec<char>>)
    ensures
        opt_chars_view(r) == (if is_float_literal(angle_token(value@)) {
            Some(angle_token(value@))
        } else {
            None
        }),
{
    let e = trim_end_lit_len(value, "deg");
    number_before_char(&value[0..e], '°')
}

/// The distance number of `value` (without `m`, then `cm`, suffixes), if a literal.
fn distance_number(value: &[char]) -> (r: Option<Vec<char>>)
    ensures
        opt_chars_view(r) == (if is_float_literal(distance_token(value@)) {
            Some(distance_token(value@))
        } else {
            None
        }),
{
    let e1 = trim_end_char_len(value, 'm');
    let v1 = &value[0..e1];
    let e2 = trim_end_lit_len(v1, "cm");
    let v2 = &v1[0..e2];
    if is_float_literal_chars(v2) {
        Some(vstd::slice::slice_to_vec(v2))
    } else {
        None
    }
}

fn gripper_command_of(lower: &[char], tokens: &Vec<Vec<char>>) -> (r: Option<ChatCommand>)
    ensures
        option_view(r) == gripper_command(lower@, token_views(tokens@)),
{
    if starts_with(lower, "gripper") && tokens.len() > 1 {
        match number_before_char(tokens[1].as_slice(), '%') {
            Some(value) => Some(ChatCommand::SetGripper { value }),
            None => None,
        }
    } else {
        None
    }
}

fn preset_command_of(lower: &[char], tokens: &Vec<Vec<char>>) -> (r: Option<ChatCommand>)
    ensures
        option_view(r) == preset_command(lower@, token_views(tokens@)),
{
    if starts_with(lower, "preset") {
        let p = if tokens.len() > 1 {
            preset_named_of(tokens[1].as_slice())
        } else {
            let empty: Vec<char> = Vec::new();
            preset_named_of(empty.as_slice())
        };
        match p {
            Some(p) => Some(ChatCommand::LoadPreset(p)),
            None => Some(ChatCommand::PresetUsage),
        }
    } else {
        None
    }
}

fn speed_command_of(lower: &[char], tokens: &Vec<Vec<char>>) -> (r: Option<ChatCommand>)
    ensures
        option_view(r) == speed_command(lower@, token_views(tokens@)),
{
    if starts_with(lower, "speed") && tokens.len() > 1 {
        match number_before_char(tokens[1].as_slice(), 'x') {
            Some(value) => Some(ChatCommand::SetSpeed { value }),
            None => None,
        }
    } else {
        None
    }
}

/// The command for joint number `number` with value text `value` (whose angle
/// number is `angle`) on a chain whose actuated joints are at `actuated`.
fn joint_target_of(
    number: usize,
    value: &[char],
    angle: Vec<char>,
    types: &[JointType],
    actuated: &Vec<usize>,
    jog: bool,
) -> (r: ChatCommand)
    requires
        actuated@.map_values(|i: usize| i as int) == actuated_indices(types@),
        angle@ == angle_token(value@),
    ensures
        r@ == joint_target(number, value@, types@, jog),
{
    proof {
        lemma_actuated_indices_valid(types@);
        assert(actuated@.len() == actuated_indices(types@).len());
    }
    if 1 <= number && number <= actuated.len() {
        let j = actuated[number - 1];
        assert(j as int == actuated_indices(types@)[number - 1]);
        let unit = if types[j] == JointType::Prismatic {
            JointValueUnit::Meters
        } else if ends_with(value, "rad") {
            JointValueUnit::Radians
        } else {
            JointValueUnit::Degrees
        };
        if jog {
            ChatCommand::JogJoint { number, joint_index: j, delta: angle, unit }
        } else {
            ChatCommand::SetJoint { number, joint_index: j, value: angle, unit }
        }
    } else {
        ChatCommand::JointOutOfRange { number, count: actuated.len() }
    }
}

/// Joint number and angle texts, when the number parses and the angle is a literal.
fn joint_operands_of(number: &[char], value: &[char]) -> (r: Option<(usize, Vec<char>)>)
    ensures
        match r {
            Some((n, a)) => joint_operands(Some(number@), Some(value@)) == Some((n, value@))
                && a@ == angle_token(value@),
            None => joint_operands(Some(number@), Some(value@)) is None,
        },
{
    match parse_usize_chars(number) {
        Some(n) => match angle_number(value) {
            Some(a) => Some((n, a)),
            None => None,
        },
        None => None,
    }
}

fn joint_command_of(
    lower: &[char],
    tokens: &Vec<Vec<char>>,
    types: &[JointType],
    actuated: &Vec<usize>,
) -> (r: Option<ChatCommand>)
    requires
        tokens@.len() > 0,
        actuated@.map_values(|i: usize| i as int) == actuated_indices(types@),
    ensures
        option_view(r) == joint_command(lower@, token_views(tokens@), types@),
{
    let ghost tv = token_views(tokens@);
    let long_form = starts_with(lower, "joint ");
    if !(long_form || (starts_with(lower, "j") && lower.len() > 1 && char_is_digit(lower[1]))) {
        return None;
    }
    let (number, value): (&[char], &[char]) = if long_form {
        if tokens.len() > 2 {
            (tokens[1].as_slice(), tokens[2].as_slice())
        } else {
            assert(token_at(tv, 2) is None);
            return None;
        }
    } else {
        let first = tokens[0].as_slice();
        let a = trim_start_char_start(first, 'j');
        if tokens.len() > 1 {
            (&first[a..first.len()], tokens[1].as_slice())
        } else {
            assert(token_at(tv, 1) is None);
            return None;
        }
    };
    match joint_operands_of(number, value) {
        Some((n, angle)) => Some(joint_target_of(n, value, angle, types, actuated, false)),
        None => None,
    }
}

fn jog_command_of(
    lower: &[char],
    tokens: &Vec<Vec<char>>,
    types: &[JointType],
    actuated: &Vec<usize>,
) -> (r: Option<ChatCommand>)
    requires
        actuated@.map_values(|i: usize| i as int) == actuated_indices(types@),
    ensures
        option_view(r) == jog_command(lower@, token_views(tokens@), types@),
{
    let ghost tv = token_views(tokens@);
    let second_names_joint = tokens.len() > 1 && starts_with(tokens[1].as_slice(), "j");
    let applies = starts_with(lower, "jog j") || (starts_with(lower, "jog ") && tokens.len() > 1 && (
    starts_with(tokens[1].as_slice(), "j") || all_digits_chars(tokens[1].as_slice())));
    if !applies || tokens.len() <= 2 {
        assert(!applies || token_at(tv, 2) is None);
        return None;
    }
    let value = tokens[2].as_slice();
    let number: &[char] = if second_names_joint {
        let second = tokens[1].as_slice();
        let a = trim_start_char_start(second, 'j');
        &second[a..second.len()]
    } else {
        tokens[1].as_slice()
    };
    match joint_operands_of(number, value) {
        Some((n, angle)) => Some(joint_target_of(n, value, angle, types, actuated, true)),
        None => None,
    }
}

/// `input` after its first `k` characters (empty if it is shorter).
fn after_chars(input: &[char], k: usize) -> (r: &[char])
    ensures
        r@ == after(input@, k as int),
{
    if input.len() >= k {
        &input[k..input.len()]
    } else {
        &input[0..0]
    }
}

/// `s` without surrounding whitespace.
fn trimmed(s: &[char]) -> (r: &[char])
    ensures
        r@ == trim(s@),
{
    let (a, b) = trim_bounds(s);
    &s[a..b]
}

fn joints_command_of(input: &[char], lower: &[char], dof: usize) -> (r: Option<ChatCommand>)
    ensures
        option_view(r) == joints_command(input@, lower@, dof as nat),
{
    if !starts_with(lower, "joints ") {
        return None;
    }
    let rem = trimmed(after_chars(input, 7));
    let bounds = split_bounds(rem, Separator::CommaOrSpace);
    let ghost parts = pieces(rem@, Separator::CommaOrSpace);
    let mut assignments: Vec<JointAssignment> = Vec::new();
    let mut i: usize = 0;
    while i < bounds.len()
        invariant
            i <= bounds@.len() == parts.len(),
            parts == bounded_views(rem@, bounds@),
            forall|k: int| 0 <= k < bounds@.len() ==> #[trigger] bounds@[k].0 < bounds@[k].1 <= rem@.len(),
            assignments@.map_values(|a: JointAssignment| a@) == joint_assignments(
                parts.take(i as int),
                dof as nat,
            ),
        decreases bounds@.len() - i,
    {
        let (p0, p1) = bounds[i];
        let part = &rem[p0..p1];
        assert(part@ == parts[i as int]);
        assert(parts.take(i + 1).drop_last() =~= parts.take(i as int));
        assert(parts.take(i + 1).last() == part@);
        let ghost old_assignments = assignments@;
        if i < dof {
            match number_before_char(part, '°') {
                Some(degrees) => {
                    assignments.push(JointAssignment { index: i, degrees });
                    assert(assignments@.map_values(|a: JointAssignment| a@) =~= old_assignments.map_values(
                        |a: JointAssignment| a@,
                    ).push(SpecJointAssignment { index: i, degrees: trim_end_char(part@, '°') }));
                },
                None => {},
            }
        }
        i = i + 1;
    }
    assert(parts.take(i as int) =~= parts);
    if assignments.len() > 0 {
        Some(ChatCommand::SetJoints { assignments })
    } else {
        None
    }
}

fn cartesian_jog_command_of(input: &[char], lower: &[char], tokens: &Vec<Vec<char>>) -> (r:
    Option<ChatCommand>)
    ensures
        option_view(r) == cartesian_jog_command(input@, lower@, token_views(tokens@)),
{
    match jog_direction_of(lower) {
        Some(direction) => {
            let distance = if tokens.len() > 1 {
                distance_number(tokens[1].as_slice())
            } else {
                None
            };
            Some(
                ChatCommand::JogCartesian {
                    direction,
                    distance,
                    centimeters: contains(input, "cm"),
                },
            )
        },
        None => None,
    }
}

fn goto_command_of(input: &[char], lower: &[char]) -> (r: Option<ChatCommand>)
    ensures
        option_view(r) == goto_command(input@, lower@),
{
    if !starts_with(lower, "goto ") {
        return None;
    }
    let rem = trimmed(after_chars(input, 5));
    let bounds = split_bounds(rem, Separator::CommaOrSpace);
    let ghost parts = pieces(rem@, Separator::CommaOrSpace);
    if bounds.len() < 3 {
        return None;
    }
    let x = &rem[bounds[0].0..bounds[0].1];
    let y = &rem[bounds[1].0..bounds[1].1];
    let z = &rem[bounds[2].0..bounds[2].1];
    assert(x@ == parts[0] && y@ == parts[1] && z@ == parts[2]);
    if is_float_literal_chars(x) && is_float_literal_chars(y) && is_float_literal_chars(z) {
        Some(
            ChatCommand::GoTo {
                x: vstd::slice::slice_to_vec(x),
                y: vstd::slice::slice_to_vec(y),
                z: vstd::slice::slice_to_vec(z),
            },
        )
    } else {
        None
    }
}

fn move_command_of(lower: &[char], tokens: &Vec<Vec<char>>) -> (r: Option<ChatCommand>)
    ensures
        option_view(r) == move_command(lower@, token_views(tokens@)),
{
    if !starts_with(lower, "move") {
        return None;
    }
    let ghost tv = token_views(tokens@);
    let n = tokens.len();
    let mut assignments: Vec<AxisAssignment> = Vec::new();
    let mut i: usize = 1;
    assert(assignments@.map_values(|a: AxisAssignment| a@) + move_assignments(tv, 1)
        =~= move_assignments(tv, 1));
    while i < n
        invariant
            n == tokens@.len() == tv.len(),
            tv == token_views(tokens@),
            1 <= i,
            move_assignments(tv, 1) == assignments@.map_values(|a: AxisAssignment| a@)
                + move_assignments(tv, i as int),
        decreases n - i,
    {
        let ghost before = assignments@.map_values(|a: AxisAssignment| a@);
        let key = tokens[i].as_slice();
        if i + 1 < n && is_float_literal_chars(tokens[i + 1].as_slice()) {
            match move_axis_of(key) {
                Some(axis) => {
                    let value = tokens[i + 1].as_slice();
                    let relative = match axis {
                        MoveAxis::X => equals(key, "+x") || (equals(key, "-x") && !starts_with(
                            value,
                            "-",
                        )),
                        _ => false,
                    };
                    assignments.push(
                        AxisAssignment { axis, value: vstd::slice::slice_to_vec(value), relative },
                    );
                    assert(assignments@.map_values(|a: AxisAssignment| a@) =~= before.push(
                        SpecAxisAssignment { axis, value: value@, relative },
                    ));
                    assert(move_assignments(tv, i as int) == seq![
                        SpecAxisAssignment { axis, value: value@, relative },
                    ] + move_assignments(tv, i + 2));
                    i = i + 2;
                    continue ;
                },
                None => {},
            }
        }
        i = i + 1;
    }
    assert(move_assignments(tv, i as int) =~= Seq::<SpecAxisAssignment>::empty());
    if assignments.len() > 0 {
        Some(ChatCommand::MoveTo { assignments })
    } else {
        None
    }
}

fn orientation_command_of(lower: &[char], tokens: &Vec<Vec<char>>) -> (r: Option<ChatCommand>)
    ensures
        option_view(r) == orientation_command(lower@, token_views(tokens@)),
{
    let second_is_number = tokens.len() > 1 && is_float_literal_chars(tokens[1].as_slice());
    if starts_with(lower, "roll ") && second_is_number {
        Some(
            ChatCommand::SetOrientation {
                axis: OrientationAxis::Roll,
                degrees: vstd::slice::slice_to_vec(tokens[1].as_slice()),
            },
        )
    } else if starts_with(lower, "pitch ") && second_is_number {
        Some(
            ChatCommand::SetOrientation {
                axis: OrientationAxis::Pitch,
                degrees: vstd::slice::slice_to_vec(tokens[1].as_slice()),
            },
        )
    } else if starts_with(lower, "yaw ") && second_is_number {
        Some(
            ChatCommand::SetOrientation {
                axis: OrientationAxis::Yaw,
                degrees: vstd::slice::slice_to_vec(tokens[1].as_slice()),
            },
        )
    } else if starts_with(lower, "rpy ") && tokens.len() >= 4 && is_float_literal_chars(
        tokens[1].as_slice(),
    ) && is_float_literal_chars(tokens[2].as_slice()) && is_float_literal_chars(
        tokens[3].as_slice(),
    ) {
        Some(
            ChatCommand::SetRpy {
                roll: vstd::slice::slice_to_vec(tokens[1].as_slice()),
                pitch: vstd::slice::slice_to_vec(tokens[2].as_slice()),
                yaw: vstd::slice::slice_to_vec(tokens[3].as_slice()),
            },
        )
    } else {
        None
    }
}

fn pick_command_of(lower: &[char], tokens: &Vec<Vec<char>>, workpieces: usize) -> (r: Option<
    ChatCommand,
>)
    ensures
        option_view(r) == pick_command(lower@, token_views(tokens@), workpieces as nat),
{
    if !starts_with(lower, "pick") {
        return None;
    }
    let w = if tokens.len() > 1 {
        workpiece_named_of(tokens[1].as_slice())
    } else {
        let empty: Vec<char> = Vec::new();
        workpiece_named_of(empty.as_slice())
    };
    if w < workpieces {
        Some(ChatCommand::Pick { workpiece: w })
    } else {
        Some(ChatCommand::PickUsage)
    }
}

/// Recognises the command that the trimmed `input` denotes, given its
/// lower-case form `lower` and its lower-cased words `lower_tokens`, for a
/// robot with the given joint types and number of workpieces.
pub fn classify_chat_command(
    input: &[char],
    lower: &[char],
    lower_tokens: &Vec<Vec<char>>,
    joint_types: &[JointType],
    num_workpieces: usize,
) -> (cmd: ChatCommand)
    requires
        trim(input@) == input@,
        lower_tokens@.len() == words(input@).len(),
    ensures
        cmd@ == command_of(
            input@,
            lower@,
            token_views(lower_tokens@),
            joint_types@,
            num_workpieces as nat,
        ),
{
    if input.len() == 0 {
        return ChatCommand::EmptyInput;
    }
    proof {
        crate::text::lemma_trimmed_text_has_word(input@);
    }
    let actuated = actuated_joint_indices(joint_types);
    proof {
        lemma_actuated_indices_valid(joint_types@);
        assert(actuated@.len() == actuated_indices(joint_types@).len());
    }
    if let Some(a) = basic_action_of(lower) {
        return ChatCommand::Action(a);
    }
    if let Some(c) = gripper_command_of(lower, lower_tokens) {
        return c;
    }
    if let Some(a) = tool_action_of(lower) {
        return ChatCommand::Action(a);
    }
    if let Some(c) = preset_command_of(lower, lower_tokens) {
        return c;
    }
    if let Some(a) = routine_action_of(lower) {
        return ChatCommand::Action(a);
    }
    if let Some(c) = speed_command_of(lower, lower_tokens) {
        return c;
    }
    if let Some(c) = joint_command_of(lower, lower_tokens, joint_types, &actuated) {
        return c;
    }
    if let Some(c) = jog_command_of(lower, lower_tokens, joint_types, &actuated) {
        return c;
    }
    if let Some(c) = joints_command_of(input, lower, actuated.len()) {
        return c;
    }
    if let Some(c) = cartesian_jog_command_of(input, lower, lower_tokens) {
        return c;
    }
    if let Some(c) = goto_command_of(input, lower) {
        return c;
    }
    if let Some(c) = move_command_of(lower, lower_tokens) {
        return c;
    }
    if let Some(c) = orientation_command_of(lower, lower_tokens) {
        return c;
    }
    if let Some(c) = pick_command_of(lower, lower_tokens, num_workpieces) {
        return c;
    }
    if let Some(c) = late_command_of(lower) {
        return c;
    }
    ChatCommand::Unknown
}


/// The lower-cased words of `input`.
pub open spec fn lowered_words(input: Seq<char>) -> Seq<Seq<char>> {
    words(input).map_values(|w: Seq<char>| lowercase(w))
}

/// Executes the first step of a console command: recognises what the text
/// `raw_input` asks for, for a robot with the given joint types and number of
/// workpieces. The input is trimmed; the command words are compared in lower
/// case (`str::to_lowercase`), while the `joints`, `goto` and `cm` forms read
/// the trimmed input itself.
pub fn parse_chat_command(raw_input: &str, joint_types: &[JointType], num_workpieces: usize) -> (cmd:
    ChatCommand)
    ensures
        cmd@ == command_of(
            trim(raw_input@),
            lowercase(trim(raw_input@)),
            lowered_words(trim(raw_input@)),
            joint_types@,
            num_workpieces as nat,
        ),
{
    let chars = chars_of(raw_input);
    let (a, b) = trim_bounds(chars.as_slice());
    let input = &chars.as_slice()[a..b];
    let text = raw_input.substring_char(a, b);
    assert(text@ == input@);
    let lower_string = to_lowercase(text);
    let lower = chars_of(lower_string.as_str());
    let bounds = split_bounds(input, Separator::Whitespace);
    let ghost ws = words(input@);
    let mut tokens: Vec<Vec<char>> = Vec::new();
    let mut k: usize = 0;
    while k < bounds.len()
        invariant
            k <= bounds@.len() == ws.len(),
            ws == bounded_views(input@, bounds@),
            text@ == input@,
            forall|j: int| 0 <= j < bounds@.len() ==> #[trigger] bounds@[j].0 < bounds@[j].1 <= input@.len(),
            token_views(tokens@) == ws.take(k as int).map_values(|w: Seq<char>| lowercase(w)),
        decreases bounds@.len() - k,
    {
        let (p0, p1) = bounds[k];
        let word = text.substring_char(p0, p1);
        assert(word@ == ws[k as int]);
        let lowered = to_lowercase(word);
        let ghost before = token_views(tokens@);
        tokens.push(chars_of(lowered.as_str()));
        assert(token_views(tokens@) =~= before.push(lowercase(ws[k as int])));
        assert(ws.take(k + 1).map_values(|w: Seq<char>| lowercase(w)) =~= ws.take(k as int).map_values(
            |w: Seq<char>| lowercase(w),
        ).push(lowercase(ws[k as int])));
        k = k + 1;
    }
    assert(ws.take(k as int) =~= ws);
    proof {
        lemma_trim_idempotent(chars@);
    }
    classify_chat_command(input, lower.as_slice(), &tokens, joint_types, num_workpieces)
}


// ---------------------------------------------------------------------------
// Chat console state
// ---------------------------------------------------------------------------

/// Who sent the chat message.
#[derive(Debug, Clone, Copy, PartialEq, Eq, Structural)]
pub enum ChatSender {
    User,
    Robot,
    System,
}

/// A recorded chat / command message.
#[derive(Debug, Clone)]
pub struct ChatMessage {
    pub sender: ChatSender,
    pub text: String,
    pub is_error: bool,
}

pub struct MessageView {
    pub sender: ChatSender,
    pub text: Seq<char>,
    pub is_error: bool,
}

impl View for ChatMessage {
    type V = MessageView;

    open spec fn view(&self) -> MessageView {
        MessageView { sender: self.sender, text: self.text@, is_error: self.is_error }
    }
}

/// Interactive chat and robotic command console state.
#[derive(Debug, Clone)]
pub struct ChatCommandConsole {
    pub messages: Vec<ChatMessage>,
    pub input_text: String,
    pub command_history: Vec<String>,
    pub history_idx: Option<usize>,
    pub is_floating_open: bool,
}

/// The console as values: the message log, the input line, the submitted
/// commands, the selected history entry and whether the floating bar is open.
pub struct ConsoleView {
    pub messages: Seq<MessageView>,
    pub input: Seq<char>,
    pub history: Seq<Seq<char>>,
    pub selected: Option<usize>,
    pub floating_open: bool,
}

impl View for ChatCommandConsole {
    type V = ConsoleView;

    open spec fn view(&self) -> ConsoleView {
        ConsoleView {
            messages: self.messages@.map_values(|m: ChatMessage| m@),
            input: self.input_text@,
            history: self.command_history@.map_values(|s: String| s@),
            selected: self.history_idx,
            floating_open: self.is_floating_open,
        }
    }
}

/// `v` with `m` appended to its message log.
pub open spec fn with_message(v: ConsoleView, m: MessageView) -> ConsoleView {
    ConsoleView { messages: v.messages.push(m), ..v }
}

/// Recalling the previous command: from no selection the newest entry is
/// selected, otherwise the one before the selection (staying at the oldest).
/// The input line shows the selected entry when there is one at that index.
pub open spec fn history_prev_view(v: ConsoleView) -> ConsoleView {
    if v.history.len() == 0 {
        v
    } else {
        let next: int = match v.selected {
            None => v.history.len() - 1,
            Some(i) => if i > 0 {
                i - 1
            } else {
                0
            },
        };
        ConsoleView {
            selected: Some(next as usize),
            input: if next < v.history.len() {
                v.history[next]
            } else {
                v.input
            },
            ..v
        }
    }
}

/// Moving to the next command: the entry after the selection, or, past the
/// newest entry, no selection and an empty input line.
pub open spec fn history_next_view(v: ConsoleView) -> ConsoleView {
    match v.selected {
        None => v,
        Some(i) => if i + 1 < v.history.len() {
            ConsoleView { selected: Some((i + 1) as usize), input: v.history[i + 1], ..v }
        } else {
            ConsoleView { selected: None, input: Seq::empty(), ..v }
        },
    }
}

/// Submitting a command: it is logged as a user message, appended to the
/// history, the selection is dropped and the input line emptied.
pub open spec fn submit_view(v: ConsoleView, command: Seq<char>) -> ConsoleView {
    ConsoleView {
        messages: v.messages.push(
            MessageView { sender: ChatSender::User, text: command, is_error: false },
        ),
        history: v.history.push(command),
        selected: None,
        input: Seq::empty(),
        ..v
    }
}

/// The greeting the console starts with.
pub open spec fn greeting() -> MessageView {
    MessageView {
        sender: ChatSender::Robot,
        text: "🤖 RoboSim AI Copilot online! Type commands like 'move x 0.4 y 0.2 z 0.3', 'joint 1 45', 'grip', 'wave', or 'help' to command the robotic arm."@,
        is_error: false,
    }
}

/// The notice that replaces the log when it is cleared.
pub open spec fn cleared_notice() -> MessageView {
    MessageView {
        sender: ChatSender::System,
        text: "Console cleared. Ready for commands."@,
        is_error: false,
    }
}

fn message(sender: ChatSender, text: &str, is_error: bool) -> (m: ChatMessage)
    ensures
        m@ == (MessageView { sender, text: text@, is_error }),
{
    ChatMessage { sender, text: String::from_str(text), is_error }
}

impl ChatCommandConsole {
    /// A console showing the greeting, with an empty input line and history
    /// and the floating command bar open.
    pub fn new() -> (c: Self)
        ensures
            c@ == (ConsoleView {
                messages: seq![greeting()],
                input: Seq::empty(),
                history: Seq::empty(),
                selected: None,
                floating_open: true,
            }),
    {
        let mut c = ChatCommandConsole {
            messages: Vec::new(),
            input_text: String::new(),
            command_history: Vec::new(),
            history_idx: None,
            is_floating_open: true,
        };
        c.messages.push(message(ChatSender::Robot, "🤖 RoboSim AI Copilot online! Type commands like 'move x 0.4 y 0.2 z 0.3', 'joint 1 45', 'grip', 'wave', or 'help' to command the robotic arm.", false));
        assert(c@.messages =~= seq![greeting()]);
        assert(c@.history =~= Seq::<Seq<char>>::empty());
        c
    }

    fn push_message(&mut self, m: ChatMessage)
        ensures
            final(self)@ == with_message(old(self)@, m@),
    {
        let ghost before = self@;
        self.messages.push(m);
        assert(self@.messages =~= before.messages.push(m@));
    }

    pub fn add_user_message(&mut self, text: &str)
        ensures
            final(self)@ == with_message(
                old(self)@,
                MessageView { sender: ChatSender::User, text: text@, is_error: false },
            ),
    {
        self.push_message(message(ChatSender::User, text, false));
    }

    pub fn add_robot_reply(&mut self, text: &str)
        ensures
            final(self)@ == with_message(
                old(self)@,
                MessageView { sender: ChatSender::Robot, text: text@, is_error: false },
            ),
    {
        self.push_message(message(ChatSender::Robot, text, false));
    }

    pub fn add_system_error(&mut self, text: &str)
        ensures
            final(self)@ == with_message(
                old(self)@,
                MessageView { sender: ChatSender::System, text: text@, is_error: true },
            ),
    {
        self.push_message(message(ChatSender::System, text, true));
    }

    /// Replaces the log by a single notice that the console was cleared.
    pub fn clear(&mut self)
        ensures
            final(self)@ == (ConsoleView { messages: seq![cleared_notice()], ..old(self)@ }),
    {
        let ghost before = self@;
        self.messages = Vec::new();
        self.messages.push(message(ChatSender::System, "Console cleared. Ready for commands.", false));
        assert(self@.messages =~= seq![cleared_notice()]);
        assert(self@ == (ConsoleView { messages: seq![cleared_notice()], ..before }));
    }

    /// History navigation: previous command (arrow up).
    pub fn history_prev(&mut self)
        ensures
            final(self)@ == history_prev_view(old(self)@),
    {
        if self.command_history.len() == 0 {
            return;
        }
        let next_idx = match self.history_idx {
            None => self.command_history.len() - 1,
            Some(idx) => idx.saturating_sub(1),
        };
        self.history_idx = Some(next_idx);
        if next_idx < self.command_history.len() {
            self.input_text = self.command_history[next_idx].clone();
        }
    }

    /// History navigation: next command (arrow down).
    pub fn history_next(&mut self)
        requires
            old(self).history_idx != Some(usize::MAX),
        ensures
            final(self)@ == history_next_view(old(self)@),
    {
        if let Some(idx) = self.history_idx {
            if idx + 1 < self.command_history.len() {
                self.history_idx = Some(idx + 1);
                self.input_text = self.command_history[idx + 1].clone();
            } else {
                self.history_idx = None;
                self.input_text = String::new();
            }
        }
    }

    /// Records a submitted command before it runs: logs it as a user message,
    /// appends it to the history, drops the history selection and empties the
    /// input line.
    pub fn submit_command(&mut self, command: &str)
        ensures
            final(self)@ == submit_view(old(self)@, command@),
    {
        let ghost before = self@;
        self.add_user_message(command);
        self.command_history.push(String::from_str(command));
        self.history_idx = None;
        self.input_text = String::new();
        assert(self@.history =~= before.history.push(command@));
    }
}

impl Default for ChatCommandConsole {
    fn default() -> (c: Self)
        ensures
            c@ == (ConsoleView {
                messages: seq![greeting()],
                input: Seq::empty(),
                history: Seq::empty(),
                selected: None,
                floating_open: true,
            }),
    {
        ChatCommandConsole::new()
    }
}

/// Stepping back through the history and then forward again returns to the
/// entry that was selected, whenever there is an older entry to step back to.
pub proof fn lemma_history_back_then_forward(v: ConsoleView)
    requires
        v.selected matches Some(i) && 0 < i < v.history.len(),
    ensures
        history_next_view(history_prev_view(v)).selected == v.selected,
        history_next_view(history_prev_view(v)).input == v.history[v.selected->0 as int],
        history_next_view(history_prev_view(v)).history == v.history,
        history_next_view(history_prev_view(v)).messages == v.messages,
{
}

/// From no selection, stepping back recalls the newest command and stepping
/// forward again leaves the history with an empty input line.
pub proof fn lemma_history_recall_newest(v: ConsoleView)
    requires
        v.selected is None,
        0 < v.history.len() <= usize::MAX,
    ensures
        history_prev_view(v).input == v.history.last(),
        history_next_view(history_prev_view(v)).selected is None,
        history_next_view(history_prev_view(v)).input == Seq::<char>::empty(),
{
}

/// History navigation never changes the message log or the recorded history.
pub proof fn lemma_history_navigation_keeps_log(v: ConsoleView)
    ensures
        history_prev_view(v).messages == v.messages,
        history_prev_view(v).history == v.history,
        history_next_view(v).messages == v.messages,
        history_next_view(v).history == v.history,
{
}

/// The history selection, when there is one, names an entry of the history.
pub open spec fn selection_in_history(v: ConsoleView) -> bool {
    v.selected matches Some(i) ==> i < v.history.len()
}

/// Every console operation keeps the history selection within the history:
/// recalling older or newer commands, submitting a command, logging a message
/// and clearing the log.
pub proof fn lemma_console_keeps_selection_in_history(v: ConsoleView, command: Seq<char>, m: MessageView)
    requires
        selection_in_history(v),
    ensures
        selection_in_history(history_prev_view(v)),
        selection_in_history(history_next_view(v)),
        selection_in_history(submit_view(v, command)),
        selection_in_history(with_message(v, m)),
        selection_in_history(ConsoleView { messages: seq![cleared_notice()], ..v }),
{
}


/// `roll`, `pitch` and `yaw` each set the Euler angle they name: an input
/// whose lower-case form starts with the word and a space, followed by a
/// number, sets that angle to that number; `rpy` followed by three numbers
/// sets roll, pitch and yaw in that order.
pub proof fn lemma_orientation_words_name_their_angle(
    input: Seq<char>,
    lower: Seq<char>,
    tokens: Seq<Seq<char>>,
    types: Seq<JointType>,
    workpieces: nat,
)
    requires
        input.len() > 0,
        tokens.len() > 1,
        is_float_literal(tokens[1]),
    ensures
        has_prefix(lower, "roll "@) ==> command_of(input, lower, tokens, types, workpieces)
            == (SpecChatCommand::SetOrientation { axis: OrientationAxis::Roll, degrees: tokens[1] }),
        has_prefix(lower, "pitch "@) ==> command_of(input, lower, tokens, types, workpieces)
            == (SpecChatCommand::SetOrientation { axis: OrientationAxis::Pitch, degrees: tokens[1] }),
        has_prefix(lower, "yaw "@) ==> command_of(input, lower, tokens, types, workpieces)
            == (SpecChatCommand::SetOrientation { axis: OrientationAxis::Yaw, degrees: tokens[1] }),
        has_prefix(lower, "rpy "@) && tokens.len() >= 4 && is_float_literal(tokens[2])
            && is_float_literal(tokens[3]) ==> command_of(input, lower, tokens, types, workpieces)
            == (SpecChatCommand::SetRpy { roll: tokens[1], pitch: tokens[2], yaw: tokens[3] }),
{
    reveal_strlit("/help");
    reveal_strlit("?");
    reveal_strlit("backward");
    reveal_strlit("camera home");
    reveal_strlit("clamp");
    reveal_strlit("clear trail");
    reveal_strlit("close gripper");
    reveal_strlit("close");
    reveal_strlit("commands");
    reveal_strlit("dance");
    reveal_strlit("down");
    reveal_strlit("drop");
    reveal_strlit("focus tcp");
    reveal_strlit("focus");
    reveal_strlit("forward");
    reveal_strlit("goto ");
    reveal_strlit("grab");
    reveal_strlit("grip");
    reveal_strlit("gripper");
    reveal_strlit("help");
    reveal_strlit("home");
    reveal_strlit("info");
    reveal_strlit("j");
    reveal_strlit("jog ");
    reveal_strlit("jog j");
    reveal_strlit("joint ");
    reveal_strlit("joints ");
    reveal_strlit("left");
    reveal_strlit("loop off");
    reveal_strlit("loop on");
    reveal_strlit("move");
    reveal_strlit("nod");
    reveal_strlit("open gripper");
    reveal_strlit("open");
    reveal_strlit("pause");
    reveal_strlit("pick");
    reveal_strlit("pitch ");
    reveal_strlit("play");
    reveal_strlit("pos");
    reveal_strlit("preset");
    reveal_strlit("release");
    reveal_strlit("reset camera");
    reveal_strlit("reset demo");
    reveal_strlit("reset home");
    reveal_strlit("reset trail");
    reveal_strlit("reset workpieces");
    reveal_strlit("reset");
    reveal_strlit("right");
    reveal_strlit("roll ");
    reveal_strlit("rpy ");
    reveal_strlit("solver dls");
    reveal_strlit("solver fabrik");
    reveal_strlit("solver transpose");
    reveal_strlit("speed");
    reveal_strlit("start");
    reveal_strlit("status");
    reveal_strlit("stop");
    reveal_strlit("sync target");
    reveal_strlit("sync");
    reveal_strlit("up");
    reveal_strlit("vacuum off");
    reveal_strlit("vacuum on");
    reveal_strlit("vacuum");
    reveal_strlit("wave");
    reveal_strlit("weld off");
    reveal_strlit("weld on");
    reveal_strlit("weld");
    reveal_strlit("yaw ");
    reveal_strlit("zero joints");
    reveal_strlit("zero");
    if has_prefix(lower, "roll "@) {
        assert(lower[0] == "roll "@[0] && lower[1] == "roll "@[1]);
    }
    if has_prefix(lower, "pitch "@) {
        assert(lower[0] == "pitch "@[0] && lower[1] == "pitch "@[1] && lower[2] == "pitch "@[2]);
    }
    if has_prefix(lower, "yaw "@) {
        assert(lower[0] == "yaw "@[0]);
    }
    if has_prefix(lower, "rpy "@) {
        assert(lower[0] == "rpy "@[0] && lower[1] == "rpy "@[1]);
    }
}

/// Whether a preset name asks for the industrial six-axis arm.
pub open spec fn names_industrial(name: Seq<char>) -> bool {
    has_infix(name, "industrial"@) || has_infix(name, "6dof"@) || has_infix(name, "ur5"@)
}

/// Whether a preset name asks for the SCARA arm.
pub open spec fn names_scara(name: Seq<char>) -> bool {
    has_infix(name, "scara"@) || has_infix(name, "4dof"@)
}

/// Whether a preset name asks for the redundant seven-axis arm.
pub open spec fn names_redundant(name: Seq<char>) -> bool {
    has_infix(name, "7dof"@) || has_infix(name, "redundant"@) || has_infix(name, "iiwa"@)
}

/// Whether a preset name asks for the planar arm.
pub open spec fn names_planar(name: Seq<char>) -> bool {
    has_infix(name, "planar"@) || has_infix(name, "2d"@) || has_infix(name, "3dof"@)
}

/// `preset <name>` loads the model the name asks for; a name that asks for
/// several is read in the order industrial, SCARA, redundant, planar. No
/// other input loads a model, and a model is loaded only when its name asks
/// for it.
pub proof fn lemma_preset_names_pick_their_model(
    input: Seq<char>,
    lower: Seq<char>,
    tokens: Seq<Seq<char>>,
    types: Seq<JointType>,
    workpieces: nat,
)
    requires
        input.len() > 0,
    ensures
        ({
            let cmd = command_of(input, lower, tokens, types, workpieces);
            let name = if tokens.len() > 1 { tokens[1] } else { Seq::<char>::empty() };
            &&& has_prefix(lower, "preset"@) && names_industrial(name) ==> cmd
                == SpecChatCommand::LoadPreset(RobotPreset::Industrial6Dof)
            &&& has_prefix(lower, "preset"@) && !names_industrial(name) && names_scara(name) ==> cmd
                == SpecChatCommand::LoadPreset(RobotPreset::Scara4Dof)
            &&& has_prefix(lower, "preset"@) && !names_industrial(name) && !names_scara(name)
                && names_redundant(name) ==> cmd == SpecChatCommand::LoadPreset(RobotPreset::Redundant7Dof)
            &&& has_prefix(lower, "preset"@) && !names_industrial(name) && !names_scara(name)
                && !names_redundant(name) && names_planar(name) ==> cmd
                == SpecChatCommand::LoadPreset(RobotPreset::Planar3Dof)
            &&& cmd == SpecChatCommand::LoadPreset(RobotPreset::Industrial6Dof) ==> has_prefix(lower, "preset"@)
                && names_industrial(name)
            &&& cmd == SpecChatCommand::LoadPreset(RobotPreset::Scara4Dof) ==> has_prefix(lower, "preset"@)
                && names_scara(name) && !names_industrial(name)
            &&& cmd == SpecChatCommand::LoadPreset(RobotPreset::Redundant7Dof) ==> has_prefix(lower, "preset"@)
                && names_redundant(name) && !names_industrial(name) && !names_scara(name)
            &&& cmd == SpecChatCommand::LoadPreset(RobotPreset::Planar3Dof) ==> has_prefix(lower, "preset"@)
                && names_planar(name) && !names_industrial(name) && !names_scara(name) && !names_redundant(name)
        }),
{
    reveal_strlit("/help");
    reveal_strlit("?");
    reveal_strlit("backward");
    reveal_strlit("camera home");
    reveal_strlit("clamp");
    reveal_strlit("clear trail");
    reveal_strlit("close gripper");
    reveal_strlit("close");
    reveal_strlit("commands");
    reveal_strlit("dance");
    reveal_strlit("down");
    reveal_strlit("drop");
    reveal_strlit("focus tcp");
    reveal_strlit("focus");
    reveal_strlit("forward");
    reveal_strlit("goto ");
    reveal_strlit("grab");
    reveal_strlit("grip");
    reveal_strlit("gripper");
    reveal_strlit("help");
    reveal_strlit("home");
    reveal_strlit("info");
    reveal_strlit("j");
    reveal_strlit("jog ");
    reveal_strlit("jog j");
    reveal_strlit("joint ");
    reveal_strlit("joints ");
    reveal_strlit("left");
    reveal_strlit("loop off");
    reveal_strlit("loop on");
    reveal_strlit("move");
    reveal_strlit("nod");
    reveal_strlit("open gripper");
    reveal_strlit("open");
    reveal_strlit("pause");
    reveal_strlit("pick");
    reveal_strlit("pitch ");
    reveal_strlit("play");
    reveal_strlit("pos");
    reveal_strlit("preset");
    reveal_strlit("release");
    reveal_strlit("reset camera");
    reveal_strlit("reset demo");
    reveal_strlit("reset home");
    reveal_strlit("reset trail");
    reveal_strlit("reset workpieces");
    reveal_strlit("reset");
    reveal_strlit("right");
    reveal_strlit("roll ");
    reveal_strlit("rpy ");
    reveal_strlit("solver dls");
    reveal_strlit("solver fabrik");
    reveal_strlit("solver transpose");
    reveal_strlit("speed");
    reveal_strlit("start");
    reveal_strlit("status");
    reveal_strlit("stop");
    reveal_strlit("sync target");
    reveal_strlit("sync");
    reveal_strlit("up");
    reveal_strlit("vacuum off");
    reveal_strlit("vacuum on");
    reveal_strlit("vacuum");
    reveal_strlit("wave");
    reveal_strlit("weld off");
    reveal_strlit("weld on");
    reveal_strlit("weld");
    reveal_strlit("yaw ");
    reveal_strlit("zero joints");
    reveal_strlit("zero");
    if has_prefix(lower, "preset"@) {
        assert(lower[0] == "preset"@[0] && lower[1] == "preset"@[1] && lower[2] == "preset"@[2]);
    }
}

} // verus!
