//! URDF (Unified Robot Description Format) reading: the XML document model
//! and the assembly of a serial kinematic chain from a robot description.

pub mod parser;
pub mod xml;

pub use parser::{parse_urdf, urdf_joint_type, urdf_joint_type_label, UrdfRobot};
