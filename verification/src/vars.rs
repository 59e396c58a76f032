//! Solver state: the robot description, the accepted joint vector and its
//! three predecessors (for velocity, acceleration and jerk terms), the
//! per-chain goal pose with its tolerance band, and the cached initial
//! end-effector poses.

use vstd::prelude::*;

use crate::robot::Robot;
use crate::scalar::{all_finite, vec_all_finite, Scalar};

verus! {

/// A position or translation: three scalars.
#[derive(Clone, Copy, Debug, PartialEq, Eq, Structural)]
pub struct Vec3 {
    pub x: Scalar,
    pub y: Scalar,
    pub z: Scalar,
}

/// A unit quaternion, stored as its four scalar components.
#[derive(Clone, Copy, Debug, PartialEq, Eq, Structural)]
pub struct Quat {
    pub w: Scalar,
    pub x: Scalar,
    pub y: Scalar,
    pub z: Scalar,
}

/// A six-component tolerance: three linear half-widths followed by three
/// angular half-widths, each a non-negative deadband about the goal.
#[derive(Clone, Copy, Debug, PartialEq, Eq, Structural)]
pub struct Tolerance {
    pub linear: Vec3,
    pub angular: Vec3,
}

impl Tolerance {
    /// The all-zero tolerance: exact matching on every axis.
    pub fn zero() -> (r: Tolerance)
        ensures
            r == Tolerance::spec_zero(),
    {
        let z = Scalar::zero();
        Tolerance { linear: Vec3 { x: z, y: z, z: z }, angular: Vec3 { x: z, y: z, z: z } }
    }

    pub open spec fn spec_zero() -> Tolerance {
        Tolerance {
            linear: Vec3 { x: Scalar { bits: 0 }, y: Scalar { bits: 0 }, z: Scalar { bits: 0 } },
            angular: Vec3 { x: Scalar { bits: 0 }, y: Scalar { bits: 0 }, z: Scalar { bits: 0 } },
        }
    }
}

/// The mutable state of one solver instance.
#[derive(Clone, Debug)]
pub struct RelaxedIKVars {
    pub robot: Robot,
    pub init_state: Vec<Scalar>,
    pub xopt: Vec<Scalar>,
    pub prev_state: Vec<Scalar>,
    pub prev_state2: Vec<Scalar>,
    pub prev_state3: Vec<Scalar>,
    pub goal_positions: Vec<Vec3>,
    pub goal_quats: Vec<Quat>,
    pub tolerances: Vec<Tolerance>,
    pub init_ee_positions: Vec<Vec3>,
    pub init_ee_quats: Vec<Quat>,
}

impl RelaxedIKVars {
    /// Well-formedness: every retained joint vector has one entry per
    /// degree of freedom and contains only finite values, and the goal and
    /// cached pose vectors have one entry per chain.
    pub open spec fn wf(self) -> bool {
        &&& self.robot.wf()
        &&& self.init_state@.len() == self.robot.num_dofs
        &&& self.xopt@.len() == self.robot.num_dofs
        &&& self.prev_state@.len() == self.robot.num_dofs
        &&& self.prev_state2@.len() == self.robot.num_dofs
        &&& self.prev_state3@.len() == self.robot.num_dofs
        &&& all_finite(self.xopt@)
        &&& all_finite(self.prev_state@)
        &&& all_finite(self.prev_state2@)
        &&& all_finite(self.prev_state3@)
        &&& self.goal_positions@.len() == self.robot.num_chains
        &&& self.goal_quats@.len() == self.robot.num_chains
        &&& self.tolerances@.len() == self.robot.num_chains
        &&& self.init_ee_positions@.len() == self.robot.num_chains
        &&& self.init_ee_quats@.len() == self.robot.num_chains
    }

    /// Builds a fresh state from the robot, a starting joint vector, and the
    /// end-effector poses the numeric layer computed for that vector. The
    /// whole history starts at the starting vector; the goals start at the
    /// initial poses with zero tolerance.
    pub fn new(
        robot: Robot,
        starting_config: Vec<Scalar>,
        init_ee_positions: Vec<Vec3>,
        init_ee_quats: Vec<Quat>,
    ) -> (r: Option<RelaxedIKVars>)
        requires
            robot.wf(),
        ensures
            match r {
                Some(vars) => {
                    &&& vars.wf()
                    &&& vars.robot == robot
                    &&& vars.init_state@ == starting_config@
                    &&& vars.xopt@ == starting_config@
                    &&& vars.prev_state@ == starting_config@
                    &&& vars.prev_state2@ == starting_config@
                    &&& vars.prev_state3@ == starting_config@
                    &&& vars.goal_positions@ == init_ee_positions@
                    &&& vars.goal_quats@ == init_ee_quats@
                    &&& vars.init_ee_positions@ == init_ee_positions@
                    &&& vars.init_ee_quats@ == init_ee_quats@
                    &&& forall|i: int|
                        0 <= i < vars.tolerances@.len() ==> vars.tolerances@[i]
                            == Tolerance::spec_zero()
                },
                None => {
                    starting_config@.len() != robot.num_dofs || !all_finite(starting_config@)
                        || init_ee_positions@.len() != robot.num_chains
                        || init_ee_quats@.len() != robot.num_chains
                },
            },
    {
        if starting_config.len() != robot.num_dofs || !vec_all_finite(&starting_config)
            || init_ee_positions.len() != robot.num_chains
            || init_ee_quats.len() != robot.num_chains {
            return None;
        }
        let mut tolerances: Vec<Tolerance> = Vec::new();
        let mut i: usize = 0;
        while i < robot.num_chains
            invariant
                0 <= i <= robot.num_chains,
                tolerances@.len() == i,
                forall|j: int| 0 <= j < i ==> tolerances@[j] == Tolerance::spec_zero(),
            decreases robot.num_chains - i,
        {
            tolerances.push(Tolerance::zero());
            i = i + 1;
        }
        Some(
            RelaxedIKVars {
                robot,
                init_state: starting_config.clone(),
                xopt: starting_config.clone(),
                prev_state: starting_config.clone(),
                prev_state2: starting_config.clone(),
                prev_state3: starting_config,
                goal_positions: init_ee_positions.clone(),
                goal_quats: init_ee_quats.clone(),
                tolerances,
                init_ee_positions,
                init_ee_quats,
            },
        )
    }

    /// Commits an accepted joint vector: the history shifts by one step and
    /// the new vector becomes the current state.
    pub fn update(&mut self, xopt: Vec<Scalar>)
        requires
            old(self).wf(),
            xopt@.len() == old(self).robot.num_dofs,
            all_finite(xopt@),
        ensures
            final(self).wf(),
            final(self).xopt@ == xopt@,
            final(self).prev_state@ == old(self).xopt@,
            final(self).prev_state2@ == old(self).prev_state@,
            final(self).prev_state3@ == old(self).prev_state2@,
            final(self).robot == old(self).robot,
            final(self).init_state@ == old(self).init_state@,
            final(self).goal_positions@ == old(self).goal_positions@,
            final(self).goal_quats@ == old(self).goal_quats@,
            final(self).tolerances@ == old(self).tolerances@,
            final(self).init_ee_positions@ == old(self).init_ee_positions@,
            final(self).init_ee_quats@ == old(self).init_ee_quats@,
    {
        self.prev_state3 = self.prev_state2.clone();
        self.prev_state2 = self.prev_state.clone();
        self.prev_state = self.xopt.clone();
        self.xopt = xopt;
    }

    /// Clears the history to a fresh state at `init_state`, and replaces the
    /// cached initial end-effector poses with the ones the numeric layer
    /// recomputed for it. Goals and tolerances keep their values.
    pub fn reset(
        &mut self,
        init_state: Vec<Scalar>,
        init_ee_positions: Vec<Vec3>,
        init_ee_quats: Vec<Quat>,
    ) -> (ok: bool)
        requires
            old(self).wf(),
        ensures
            final(self).wf(),
            ok == (init_state@.len() == old(self).robot.num_dofs && all_finite(init_state@)
                && init_ee_positions@.len() == old(self).robot.num_chains
                && init_ee_quats@.len() == old(self).robot.num_chains),
            ok ==> {
                &&& final(self).init_state@ == init_state@
                &&& final(self).xopt@ == init_state@
                &&& final(self).prev_state@ == init_state@
                &&& final(self).prev_state2@ == init_state@
                &&& final(self).prev_state3@ == init_state@
                &&& final(self).init_ee_positions@ == init_ee_positions@
                &&& final(self).init_ee_quats@ == init_ee_quats@
                &&& final(self).robot == old(self).robot
                &&& final(self).goal_positions@ == old(self).goal_positions@
                &&& final(self).goal_quats@ == old(self).goal_quats@
                &&& final(self).tolerances@ == old(self).tolerances@
            },
            !ok ==> *final(self) == *old(self),
    {
        if init_state.len() != self.robot.num_dofs || !vec_all_finite(&init_state)
            || init_ee_positions.len() != self.robot.num_chains
            || init_ee_quats.len() != self.robot.num_chains {
            return false;
        }
        self.prev_state3 = init_state.clone();
        self.prev_state2 = init_state.clone();
        self.prev_state = init_state.clone();
        self.xopt = init_state.clone();
        self.init_state = init_state;
        self.init_ee_positions = init_ee_positions;
        self.init_ee_quats = init_ee_quats;
        true
    }
}

} // verus!
