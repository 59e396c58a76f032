//! Objective primitives: one descriptor per goal or behaviour of the
//! weighted ensemble.
//!
//! Each primitive here is the discrete identity of one term — which chain,
//! which axis, which degree of freedom, which link pair it concerns — and
//! whether its gradient comes in closed form or by finite differencing. The
//! numeric evaluation of a term against a kinematics result is double
//! precision work and stays with the numeric layer, which dispatches on
//! these descriptors.

use vstd::prelude::*;

verus! {

/// How the gradient of a primitive is obtained.
#[derive(Clone, Copy, Debug, PartialEq, Eq, Structural)]
pub enum GradientKind {
    ClosedForm,
    FiniteDiff,
}

/// Matches one linear axis of the end-effector position of one chain
/// against its goal, under that axis' tolerance band.
#[derive(Clone, Copy, Debug, PartialEq, Eq, Structural)]
pub struct MatchEEPosiDoF {
    pub arm_idx: usize,
    pub axis: usize,
}

impl MatchEEPosiDoF {
    pub fn new(arm_idx: usize, axis: usize) -> (r: Self)
        ensures
            r == (MatchEEPosiDoF { arm_idx, axis }),
    {
        Self { arm_idx, axis }
    }
}

/// Matches one angular axis of the end-effector orientation of one chain
/// against its goal, under that axis' tolerance band.
#[derive(Clone, Copy, Debug, PartialEq, Eq, Structural)]
pub struct MatchEERotaDoF {
    pub arm_idx: usize,
    pub axis: usize,
}

impl MatchEERotaDoF {
    pub fn new(arm_idx: usize, axis: usize) -> (r: Self)
        ensures
            r == (MatchEERotaDoF { arm_idx, axis }),
    {
        Self { arm_idx, axis }
    }
}

/// Penalises one pair of non-adjacent link segments of one chain coming
/// closer than the safety margin.
#[derive(Clone, Copy, Debug, PartialEq, Eq, Structural)]
pub struct SelfCollision {
    pub arm_idx: usize,
    pub first_link: usize,
    pub second_link: usize,
}

impl SelfCollision {
    pub fn new(arm_idx: usize, first_link: usize, second_link: usize) -> (r: Self)
        ensures
            r == (SelfCollision { arm_idx, first_link, second_link }),
    {
        Self { arm_idx, first_link, second_link }
    }
}

/// Rewards configurations away from kinematic singularities.
#[derive(Clone, Copy, Debug, PartialEq, Eq, Structural)]
pub struct MaximizeManipulability;

/// Soft wall keeping one degree of freedom inside its joint limits;
/// degrees of freedom carrying the unbounded sentinel pair contribute a
/// fixed low cost instead.
#[derive(Clone, Copy, Debug, PartialEq, Eq, Structural)]
pub struct EachJointLimits {
    pub joint_idx: usize,
}

impl EachJointLimits {
    pub fn new(joint_idx: usize) -> (r: Self)
        ensures
            r == (EachJointLimits { joint_idx }),
    {
        Self { joint_idx }
    }
}

/// Minimises the first finite difference of the retained history.
#[derive(Clone, Copy, Debug, PartialEq, Eq, Structural)]
pub struct MinimizeVelocity;

/// Minimises the second finite difference of the retained history.
#[derive(Clone, Copy, Debug, PartialEq, Eq, Structural)]
pub struct MinimizeAcceleration;

/// Minimises the third finite difference of the retained history.
#[derive(Clone, Copy, Debug, PartialEq, Eq, Structural)]
pub struct MinimizeJerk;

/// Matches the whole end-effector position of one chain against its goal
/// (the lighter preset, no tolerance band).
#[derive(Clone, Copy, Debug, PartialEq, Eq, Structural)]
pub struct MatchEEPosGoals {
    pub arm_idx: usize,
}

impl MatchEEPosGoals {
    pub fn new(arm_idx: usize) -> (r: Self)
        ensures
            r == (MatchEEPosGoals { arm_idx }),
    {
        Self { arm_idx }
    }
}

/// Matches the whole end-effector orientation of one chain against its goal
/// (the lighter preset, no tolerance band).
#[derive(Clone, Copy, Debug, PartialEq, Eq, Structural)]
pub struct MatchEEQuatGoals {
    pub arm_idx: usize,
}

impl MatchEEQuatGoals {
    pub fn new(arm_idx: usize) -> (r: Self)
        ensures
            r == (MatchEEQuatGoals { arm_idx }),
    {
        Self { arm_idx }
    }
}

/// The closed set of objective primitives, dispatched as tagged variants.
#[derive(Clone, Copy, Debug, PartialEq, Eq, Structural)]
pub enum Objective {
    PosiDoF(MatchEEPosiDoF),
    RotaDoF(MatchEERotaDoF),
    SelfColl(SelfCollision),
    Manipulability(MaximizeManipulability),
    JointLimits(EachJointLimits),
    Velocity(MinimizeVelocity),
    Acceleration(MinimizeAcceleration),
    Jerk(MinimizeJerk),
    PosGoals(MatchEEPosGoals),
    QuatGoals(MatchEEQuatGoals),
}

impl Objective {
    /// The gradient strategy of the primitive. Every primitive of this
    /// ensemble obtains its gradient by finite differencing; the ensemble
    /// aggregator batches them per perturbed degree of freedom.
    pub open spec fn spec_gradient_kind(self) -> GradientKind {
        GradientKind::FiniteDiff
    }

    pub fn gradient_kind(&self) -> (r: GradientKind)
        ensures
            r == self.spec_gradient_kind(),
    {
        GradientKind::FiniteDiff
    }
}

} // verus!
