use kine_rs::kinematics::joint::JointType;
use kine_rs::urdf::{parse_urdf, urdf_joint_type, urdf_joint_type_label, UrdfRobot};
use kine_rs::urdf::parser::UrdfLinkColor;

const SAMPLE_URDF_PLANAR_3DOF: &str = r#"<?xml version="1.0"?>
<robot name="planar_3dof_arm">
  <link name="base_link">
    <visual>
      <geometry>
        <cylinder radius="0.08" length="0.05"/>
      </geometry>
      <material name="dark_gray">
        <color rgba="0.25 0.25 0.28 1.0"/>
      </material>
    </visual>
  </link>

  <joint name="joint_1" type="revolute">
    <parent link="base_link"/>
    <child link="link_1"/>
    <origin xyz="0 0 0.05" rpy="0 0 0"/>
    <axis xyz="0 0 1"/>
    <limit lower="-2.96" upper="2.96" effort="50.0" velocity="3.14"/>
  </joint>

  <link name="link_1">
    <visual>
      <geometry>
        <cylinder radius="0.04" length="0.4"/>
      </geometry>
      <material name="blue">
        <color rgba="0.2 0.5 0.85 1.0"/>
      </material>
    </visual>
  </link>

  <joint name="joint_2" type="revolute">
    <parent link="link_1"/>
    <child link="link_2"/>
    <origin xyz="0.4 0 0" rpy="0 0 0"/>
    <axis xyz="0 0 1"/>
    <limit lower="-2.6" upper="2.6" effort="30.0" velocity="3.14"/>
  </joint>

  <link name="link_2">
    <visual>
      <geometry>
        <cylinder radius="0.035" length="0.3"/>
      </geometry>
      <material name="orange">
        <color rgba="0.95 0.5 0.2 1.0"/>
      </material>
    </visual>
  </link>

  <joint name="joint_3" type="revolute">
    <parent link="link_2"/>
    <child link="link_3"/>
    <origin xyz="0.3 0 0" rpy="0 0 0"/>
    <axis xyz="0 0 1"/>
    <limit lower="-2.8" upper="2.8" effort="15.0" velocity="3.14"/>
  </joint>

  <link name="link_3">
    <visual>
      <geometry>
        <cylinder radius="0.025" length="0.15"/>
      </geometry>
      <material name="green">
        <color rgba="0.2 0.8 0.4 1.0"/>
      </material>
    </visual>
  </link>
</robot>
"#;

const SAMPLE_URDF_INDUSTRIAL_6DOF: &str = r#"<?xml version="1.0"?>
<robot name="industrial_6dof_robot">
  <link name="base_link">
    <visual>
      <geometry>
        <cylinder radius="0.1" length="0.1"/>
      </geometry>
      <material name="dark">
        <color rgba="0.2 0.2 0.25 1.0"/>
      </material>
    </visual>
  </link>

  <joint name="base_joint" type="revolute">
    <parent link="base_link"/>
    <child link="shoulder_link"/>
    <origin xyz="0 0 0.15" rpy="0 0 0"/>
    <axis xyz="0 0 1"/>
    <limit lower="-3.14" upper="3.14" effort="150" velocity="3.14"/>
  </joint>

  <link name="shoulder_link">
    <visual>
      <geometry>
        <cylinder radius="0.06" length="0.12"/>
      </geometry>
      <material name="cyan">
        <color rgba="0.1 0.65 0.85 1.0"/>
      </material>
    </visual>
  </link>

  <joint name="shoulder_lift_joint" type="revolute">
    <parent link="shoulder_link"/>
    <child link="upper_arm_link"/>
    <origin xyz="0 0.1 0.1" rpy="0 0 0"/>
    <axis xyz="0 1 0"/>
    <limit lower="-2.6" upper="2.6" effort="150" velocity="3.14"/>
  </joint>

  <link name="upper_arm_link">
    <visual>
      <geometry>
        <cylinder radius="0.05" length="0.42"/>
      </geometry>
      <material name="white">
        <color rgba="0.9 0.9 0.95 1.0"/>
      </material>
    </visual>
  </link>

  <joint name="elbow_joint" type="revolute">
    <parent link="upper_arm_link"/>
    <child link="forearm_link"/>
    <origin xyz="0 -0.1 0.42" rpy="0 0 0"/>
    <axis xyz="0 1 0"/>
    <limit lower="-3.0" upper="3.0" effort="150" velocity="3.14"/>
  </joint>

  <link name="forearm_link">
    <visual>
      <geometry>
        <cylinder radius="0.045" length="0.38"/>
      </geometry>
      <material name="cyan_forearm">
        <color rgba="0.1 0.65 0.85 1.0"/>
      </material>
    </visual>
  </link>

  <joint name="wrist_1_joint" type="revolute">
    <parent link="forearm_link"/>
    <child link="wrist_1_link"/>
    <origin xyz="0 0.1 0.38" rpy="0 0 0"/>
    <axis xyz="0 1 0"/>
    <limit lower="-3.14" upper="3.14" effort="50" velocity="3.14"/>
  </joint>

  <link name="wrist_1_link">
    <visual>
      <geometry>
        <cylinder radius="0.04" length="0.09"/>
      </geometry>
      <material name="orange">
        <color rgba="0.95 0.45 0.15 1.0"/>
      </material>
    </visual>
  </link>

  <joint name="wrist_2_joint" type="revolute">
    <parent link="wrist_1_link"/>
    <child link="wrist_2_link"/>
    <origin xyz="0 0.09 0" rpy="0 0 0"/>
    <axis xyz="0 0 1"/>
    <limit lower="-3.14" upper="3.14" effort="50" velocity="3.14"/>
  </joint>

  <link name="wrist_2_link">
    <visual>
      <geometry>
        <cylinder radius="0.035" length="0.09"/>
      </geometry>
      <material name="gold">
        <color rgba="0.9 0.75 0.1 1.0"/>
      </material>
    </visual>
  </link>

  <joint name="wrist_3_joint" type="revolute">
    <parent link="wrist_2_link"/>
    <child link="ee_link"/>
    <origin xyz="0 0 0.09" rpy="0 0 0"/>
    <axis xyz="0 1 0"/>
    <limit lower="-3.14" upper="3.14" effort="50" velocity="3.14"/>
  </joint>

  <link name="ee_link">
    <visual>
      <geometry>
        <cylinder radius="0.03" length="0.05"/>
      </geometry>
      <material name="emerald">
        <color rgba="0.1 0.85 0.5 1.0"/>
      </material>
    </visual>
  </link>
</robot>
"#;

fn text(v: &[char]) -> String {
    v.iter().collect()
}

fn chain_names(robot: &UrdfRobot) -> Vec<String> {
    robot.chain.iter().map(|&j| text(&robot.joints[j].name)).collect()
}

#[test]
fn test_parse_planar_urdf() {
    let robot = parse_urdf(SAMPLE_URDF_PLANAR_3DOF).expect("Should parse planar URDF successfully");
    assert_eq!(text(&robot.name), "planar_3dof_arm");
    assert_eq!(robot.chain.len(), 3);
    assert_eq!(robot.colors.len(), 3);
}

#[test]
fn test_parse_industrial_urdf() {
    let robot = parse_urdf(SAMPLE_URDF_INDUSTRIAL_6DOF)
        .expect("Should parse 6-DOF industrial URDF successfully");
    assert_eq!(text(&robot.name), "industrial_6dof_robot");
    assert_eq!(robot.chain.len(), 6);
    assert_eq!(robot.dof(), 6);
}

#[test]
fn industrial_chain_runs_from_the_base_outwards() {
    let robot = parse_urdf(SAMPLE_URDF_INDUSTRIAL_6DOF).unwrap();
    assert_eq!(
        chain_names(&robot),
        vec![
            "base_joint",
            "shoulder_lift_joint",
            "elbow_joint",
            "wrist_1_joint",
            "wrist_2_joint",
            "wrist_3_joint"
        ]
    );
    assert_eq!(text(&robot.joints[robot.chain[0]].parent_link), "base_link");
    for w in robot.chain.windows(2) {
        assert_eq!(robot.joints[w[1]].parent_link, robot.joints[w[0]].child_link);
    }
}

#[test]
fn chain_link_colors_come_from_the_link_materials() {
    let robot = parse_urdf(SAMPLE_URDF_INDUSTRIAL_6DOF).unwrap();
    match &robot.colors[0] {
        UrdfLinkColor::Rgba(parts) => {
            let parts: Vec<String> = parts.iter().map(|p| text(p)).collect();
            assert_eq!(parts, vec!["0.1", "0.65", "0.85", "1.0"]);
        },
        other => panic!("expected an RGBA color, got {:?}", other),
    }
}

#[test]
fn joint_numbers_are_kept_as_written() {
    let robot = parse_urdf(SAMPLE_URDF_PLANAR_3DOF).unwrap();
    let first = &robot.joints[robot.chain[0]];
    assert_eq!(first.joint_type, JointType::Revolute);
    let xyz: Vec<String> = first.origin_xyz.as_ref().unwrap().iter().map(|p| text(p)).collect();
    assert_eq!(xyz, vec!["0", "0", "0.05"]);
    let (lower, upper) = first.limits.as_ref().unwrap();
    assert_eq!(text(lower), "-2.96");
    assert_eq!(text(upper), "2.96");
}

#[test]
fn missing_robot_name_defaults() {
    let xml = r#"<robot><joint name="j" type="prismatic"><parent link="a"/><child link="b"/></joint></robot>"#;
    let robot = parse_urdf(xml).unwrap();
    assert_eq!(text(&robot.name), "unnamed_robot");
    assert_eq!(robot.chain, vec![0]);
    assert_eq!(robot.dof(), 1);
    assert!(matches!(robot.colors[0], UrdfLinkColor::Palette(0)));
}

#[test]
fn described_link_without_color_is_default_gray() {
    let xml = r#"<robot name="r"><link name="b"/><joint name="j" type="fixed"><parent link="a"/><child link="b"/></joint></robot>"#;
    let robot = parse_urdf(xml).unwrap();
    assert!(matches!(robot.colors[0], UrdfLinkColor::LinkDefault));
    assert_eq!(robot.joints[0].joint_type, JointType::Fixed);
    assert_eq!(robot.dof(), 0);
}

#[test]
fn root_element_must_be_robot() {
    let err = parse_urdf("<model name=\"x\"/>").unwrap_err();
    assert_eq!(err, "Root XML element must be <robot>");
}

#[test]
fn robot_without_joints_is_refused() {
    let err = parse_urdf("<robot name=\"x\"><link name=\"a\"/></robot>").unwrap_err();
    assert_eq!(err, "URDF does not contain any valid joints");
}

#[test]
fn cyclic_chain_is_refused() {
    let xml = r#"<robot name="r">
      <joint name="j1" type="revolute"><parent link="a"/><child link="b"/></joint>
      <joint name="j2" type="revolute"><parent link="b"/><child link="a"/></joint>
    </robot>"#;
    let err = parse_urdf(xml).unwrap_err();
    assert_eq!(err, "URDF joint chain does not end: a link is reached twice");
}

#[test]
fn malformed_xml_is_reported_with_prefix() {
    let err = parse_urdf("<robot name=\"x\">").unwrap_err();
    assert!(err.starts_with("XML parse error: "), "{}", err);
    assert!(err.len() > "XML parse error: ".len());
}

#[test]
fn joint_type_labels_round_trip() {
    for t in [JointType::Revolute, JointType::Continuous, JointType::Prismatic, JointType::Fixed] {
        let label: Vec<char> = urdf_joint_type_label(t).chars().collect();
        assert_eq!(urdf_joint_type(&label), t);
    }
    let continuous: Vec<char> = "continuous".chars().collect();
    assert_eq!(urdf_joint_type(&continuous), JointType::Continuous);
    let unknown: Vec<char> = "floating".chars().collect();
    assert_eq!(urdf_joint_type(&unknown), JointType::Fixed);
}
