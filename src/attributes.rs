//! Joint attributes.
use vstd::prelude::*;

verus! {

/// The kind of motion a joint allows.
#[derive(Debug, Clone, Copy, PartialEq, Eq, Structural)]
pub enum JointType {
    Prismatic,
    Revolute,
    Fixed,
    Floating,
    Planar,
    Continuous,
}

impl JointType {
    /// The markup name of the joint type.
    pub open spec fn name(self) -> Seq<char> {
        match self {
            JointType::Prismatic => "prismatic"@,
            JointType::Revolute => "revolute"@,
            JointType::Fixed => "fixed"@,
            JointType::Floating => "floating"@,
            JointType::Planar => "planar"@,
            JointType::Continuous => "continuous"@,
        }
    }

    pub fn as_str(&self) -> (r: &'static str)
        ensures
            r@ == self.name(),
    {
        match self {
            JointType::Prismatic => "prismatic",
            JointType::Revolute => "revolute",
            JointType::Fixed => "fixed",
            JointType::Floating => "floating",
            JointType::Planar => "planar",
            JointType::Continuous => "continuous",
        }
    }
}

/// A named joint and its type.
#[derive(Debug, Clone)]
pub struct JointAttributes {
    pub joint_name: String,
    pub joint_type: JointType,
}

impl Default for JointAttributes {
    /// An unnamed revolute joint.
    fn default() -> (r: Self)
        ensures
            r.joint_name@ == Seq::<char>::empty(),
            r.joint_type == JointType::Revolute,
    {
        JointAttributes { joint_name: String::new(), joint_type: JointType::Revolute }
    }
}

} // verus!
