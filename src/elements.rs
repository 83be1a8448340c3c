//! Plain value records of link and joint elements.
use vstd::prelude::*;

verus! {

/// A rigid-body pose: translation `xyz` and rotation `rpy` (radians), each
/// component in billionths.
#[derive(Debug, Clone, Copy)]
pub struct Origin {
    pub xyz: (i64, i64, i64),
    pub rpy: (i64, i64, i64),
}

impl Default for Origin {
    /// The identity pose.
    fn default() -> (r: Self)
        ensures
            r.xyz == (0i64, 0i64, 0i64),
            r.rpy == (0i64, 0i64, 0i64),
    {
        Origin { xyz: (0, 0, 0), rpy: (0, 0, 0) }
    }
}

/// Joint calibration reference positions, in billionths.
#[derive(Debug)]
pub struct Calibration {
    pub rising: Option<i64>,
    pub falling: i64,
}

impl Default for Calibration {
    fn default() -> (r: Self)
        ensures
            r.rising == Some(0i64),
            r.falling == 0,
    {
        Calibration { rising: Some(0), falling: 0 }
    }
}

/// Joint damping and friction, in billionths.
#[derive(Debug)]
pub struct Dynamics {
    pub damping: Option<i64>,
    pub friction: Option<i64>,
}

impl Default for Dynamics {
    fn default() -> (r: Self)
        ensures
            r.damping == Some(0i64),
            r.friction == Some(0i64),
    {
        Dynamics { damping: Some(0), friction: Some(0) }
    }
}

/// Joint limits, in billionths.
#[derive(Debug)]
pub struct Limits {
    pub lower: Option<i64>,
    pub upper: Option<i64>,
    pub effort: Option<i64>,
    pub velocity: Option<i64>,
}

impl Default for Limits {
    fn default() -> (r: Self)
        ensures
            r.lower == Some(0i64),
            r.upper == Some(0i64),
            r.effort == Some(0i64),
            r.velocity == Some(0i64),
    {
        Limits { lower: Some(0), upper: Some(0), effort: Some(0), velocity: Some(0) }
    }
}

/// A joint that mimics another one, with factor and offset in billionths.
#[derive(Debug)]
pub struct JointMimic {
    pub joint: String,
    pub multiplier: Option<i64>,
    pub offset: Option<i64>,
}

impl Default for JointMimic {
    fn default() -> (r: Self)
        ensures
            r.joint@ == Seq::<char>::empty(),
            r.multiplier.is_none(),
            r.offset.is_none(),
    {
        JointMimic { joint: String::new(), multiplier: None, offset: None }
    }
}

/// Soft limits and gains of a joint's safety controller, in billionths.
#[derive(Debug)]
pub struct SafetyController {
    pub soft_lower_limit: i64,
    pub soft_upper_limit: i64,
    pub k_position: i64,
    pub k_velocity: i64,
}

impl Default for SafetyController {
    fn default() -> (r: Self)
        ensures
            r.soft_lower_limit == 0,
            r.soft_upper_limit == 0,
            r.k_position == 0,
            r.k_velocity == 0,
    {
        SafetyController { soft_lower_limit: 0, soft_upper_limit: 0, k_position: 0, k_velocity: 0 }
    }
}

/// Safety margin and position gain, in billionths.
#[derive(Debug)]
pub struct SafetyParams {
    pub safety_pos_margin: i64,
    pub safety_k_position: i64,
}

impl Default for SafetyParams {
    fn default() -> (r: Self)
        ensures
            r.safety_pos_margin == 0,
            r.safety_k_position == 0,
    {
        SafetyParams { safety_pos_margin: 0, safety_k_position: 0 }
    }
}

} // verus!
