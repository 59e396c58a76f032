//! The top-level solver state machine.
//!
//! One tick runs: stage the goals, hand the warm-start vector to the
//! numeric optimiser, then commit its candidate. The commit step is the
//! validation of the design: a candidate with any NaN or infinite component
//! is discarded and the previously accepted joint vector is returned
//! unchanged, with the history untouched; a finite candidate is returned
//! and becomes the new current state, shifting the history by one step.
//! The optimiser itself is double-precision work and lives with the
//! numeric layer; this module pins everything around it.

use vstd::prelude::*;

use crate::objective_master::{relaxed_entries, standard_entries, sum_lengths, ObjectiveMaster};
use crate::scalar::{all_finite, vec_all_finite, Scalar};
use crate::vars::{Quat, RelaxedIKVars, Tolerance, Vec3};

verus! {

/// A malformed goal update: one of the flat input arrays does not have the
/// length the chain count demands.
#[derive(Clone, Copy, Debug, PartialEq, Eq, Structural)]
pub enum GoalError {
    PositionGoalLength,
    OrientationGoalLength,
    ToleranceLength,
}

impl GoalError {
    /// A short description of the violated precondition.
    pub fn message(&self) -> (r: &'static str) {
        match self {
            GoalError::PositionGoalLength => "position goals must hold three numbers per chain",
            GoalError::OrientationGoalLength => {
                "orientation goals must hold four numbers per chain"
            },
            GoalError::ToleranceLength => "tolerances must hold six numbers per chain",
        }
    }
}

/// Whether `len` equals `n * k`, decided without overflowing.
fn is_exact_multiple(len: usize, n: usize, k: usize) -> (r: bool)
    requires
        1 <= k,
    ensures
        r == (len as int == n as int * k as int),
{
    let q = len / k;
    let rem = len % k;
    proof {
        vstd::arithmetic::div_mod::lemma_fundamental_div_mod(len as int, k as int);
        assert(len as int == k as int * (len as int / k as int) + (len as int % k as int));
        if rem == 0 && q == n {
            assert(len as int == n as int * k as int) by (nonlinear_arith)
                requires
                    len as int == k as int * (len as int / k as int),
                    len as int / k as int == n as int,
            ;
        }
        if len as int == n as int * k as int {
            assert((n as int * k as int) / k as int == n as int && (n as int * k as int) % k as int
                == 0) by (nonlinear_arith)
                requires
                    k as int >= 1,
            ;
        }
    }
    rem == 0 && q == n
}

/// What the validation step accepts: the candidate itself when every
/// component is finite, the previously accepted vector otherwise.
pub open spec fn validated_output(prev: Seq<Scalar>, candidate: Seq<Scalar>) -> Seq<Scalar> {
    if all_finite(candidate) {
        candidate
    } else {
        prev
    }
}

/// One solver instance: its mutable state and its weighted ensemble.
#[derive(Clone, Debug)]
pub struct RelaxedIK {
    pub vars: RelaxedIKVars,
    pub om: ObjectiveMaster,
}

impl RelaxedIK {
    /// Well-formedness of the pair.
    pub open spec fn wf(self) -> bool {
        &&& self.vars.wf()
        &&& self.om.wf()
        &&& self.om.num_chains == self.vars.robot.num_chains
    }

    /// Builds a solver over the full tolerance-band ensemble.
    pub fn new(vars: RelaxedIKVars) -> (r: RelaxedIK)
        requires
            vars.wf(),
            forall|i: int|
                0 <= i < vars.robot.chain_lengths@.len()
                    ==> (#[trigger] vars.robot.chain_lengths@[i]) >= 2,
            sum_lengths(vars.robot.chain_lengths@, vars.robot.chain_lengths@.len() as int)
                <= usize::MAX,
        ensures
            r.wf(),
            r.vars == vars,
            r.om.matches_entries(relaxed_entries(vars.robot.chain_lengths@)),
            !r.om.lite,
    {
        let om = ObjectiveMaster::relaxed_ik(&vars.robot.chain_lengths);
        RelaxedIK { vars, om }
    }

    /// Builds a solver over the lighter standard ensemble.
    pub fn new_standard(vars: RelaxedIKVars) -> (r: RelaxedIK)
        requires
            vars.wf(),
            vars.robot.num_chains * 2 <= usize::MAX,
        ensures
            r.wf(),
            r.vars == vars,
            r.om.matches_entries(standard_entries(vars.robot.num_chains as int)),
            r.om.lite,
    {
        let om = ObjectiveMaster::standard_ik(vars.robot.num_chains);
        RelaxedIK { vars, om }
    }

    /// The optimiser's warm start: the previously accepted joint vector.
    pub fn warm_start(&self) -> (r: Vec<Scalar>)
        requires
            self.wf(),
        ensures
            r@ == self.vars.xopt@,
            all_finite(r@),
            r@.len() == self.vars.robot.num_dofs,
    {
        self.vars.xopt.clone()
    }

    /// Stages a goal update from the flat per-chain arrays: three position
    /// components, four orientation components (x, y, z, w order, stored as
    /// w, x, y, z), and six tolerance components per chain. Rejects, in
    /// this order, a position array whose length is not three per chain, an
    /// orientation array whose length is not four per chain, and a
    /// tolerance array whose length is not six per chain, leaving the state
    /// untouched.
    pub fn set_position_goals(
        &mut self,
        pos_goals: &Vec<Scalar>,
        quat_goals: &Vec<Scalar>,
        tolerances: &Vec<Scalar>,
    ) -> (r: Result<(), GoalError>)
        requires
            old(self).wf(),
        ensures
            final(self).wf(),
            final(self).vars.robot == old(self).vars.robot,
            final(self).om == old(self).om,
            r == (if pos_goals@.len() != old(self).vars.robot.num_chains * 3 {
                Err::<(), GoalError>(GoalError::PositionGoalLength)
            } else if quat_goals@.len() != old(self).vars.robot.num_chains * 4 {
                Err::<(), GoalError>(GoalError::OrientationGoalLength)
            } else if tolerances@.len() != old(self).vars.robot.num_chains * 6 {
                Err::<(), GoalError>(GoalError::ToleranceLength)
            } else {
                Ok::<(), GoalError>(())
            }),
            r is Err ==> *final(self) == *old(self),
            r is Ok ==> {
                &&& final(self).vars.goal_positions@.len() == old(self).vars.robot.num_chains
                &&& forall|i: int|
                    0 <= i < old(self).vars.robot.num_chains
                        ==> (#[trigger] final(self).vars.goal_positions@[i]) == (Vec3 {
                        x: pos_goals@[3 * i],
                        y: pos_goals@[3 * i + 1],
                        z: pos_goals@[3 * i + 2],
                    })
                &&& forall|i: int|
                    0 <= i < old(self).vars.robot.num_chains
                        ==> (#[trigger] final(self).vars.goal_quats@[i]) == (Quat {
                        w: quat_goals@[4 * i + 3],
                        x: quat_goals@[4 * i],
                        y: quat_goals@[4 * i + 1],
                        z: quat_goals@[4 * i + 2],
                    })
                &&& forall|i: int|
                    0 <= i < old(self).vars.robot.num_chains
                        ==> (#[trigger] final(self).vars.tolerances@[i]) == (Tolerance {
                        linear: Vec3 {
                            x: tolerances@[6 * i],
                            y: tolerances@[6 * i + 1],
                            z: tolerances@[6 * i + 2],
                        },
                        angular: Vec3 {
                            x: tolerances@[6 * i + 3],
                            y: tolerances@[6 * i + 4],
                            z: tolerances@[6 * i + 5],
                        },
                    })
                &&& final(self).vars.xopt@ == old(self).vars.xopt@
                &&& final(self).vars.prev_state@ == old(self).vars.prev_state@
                &&& final(self).vars.prev_state2@ == old(self).vars.prev_state2@
                &&& final(self).vars.prev_state3@ == old(self).vars.prev_state3@
                &&& final(self).vars.init_state@ == old(self).vars.init_state@
                &&& final(self).vars.init_ee_positions@ == old(self).vars.init_ee_positions@
                &&& final(self).vars.init_ee_quats@ == old(self).vars.init_ee_quats@
            },
    {
        let num_chains = self.vars.robot.num_chains;
        if !is_exact_multiple(pos_goals.len(), num_chains, 3) {
            return Err(GoalError::PositionGoalLength);
        }
        if !is_exact_multiple(quat_goals.len(), num_chains, 4) {
            return Err(GoalError::OrientationGoalLength);
        }
        if !is_exact_multiple(tolerances.len(), num_chains, 6) {
            return Err(GoalError::ToleranceLength);
        }
        let pos_len: usize = pos_goals.len();
        let quat_len: usize = quat_goals.len();
        let tol_len: usize = tolerances.len();
        let mut goal_positions: Vec<Vec3> = Vec::new();
        let mut goal_quats: Vec<Quat> = Vec::new();
        let mut tols: Vec<Tolerance> = Vec::new();
        let mut i: usize = 0;
        while i < num_chains
            invariant
                num_chains == self.vars.robot.num_chains,
                pos_len == pos_goals@.len(),
                quat_len == quat_goals@.len(),
                tol_len == tolerances@.len(),
                pos_goals@.len() == num_chains * 3,
                quat_goals@.len() == num_chains * 4,
                tolerances@.len() == num_chains * 6,
                0 <= i <= num_chains,
                goal_positions@.len() == i,
                goal_quats@.len() == i,
                tols@.len() == i,
                forall|q: int|
                    0 <= q < i ==> (#[trigger] goal_positions@[q]) == (Vec3 {
                        x: pos_goals@[3 * q],
                        y: pos_goals@[3 * q + 1],
                        z: pos_goals@[3 * q + 2],
                    }),
                forall|q: int|
                    0 <= q < i ==> (#[trigger] goal_quats@[q]) == (Quat {
                        w: quat_goals@[4 * q + 3],
                        x: quat_goals@[4 * q],
                        y: quat_goals@[4 * q + 1],
                        z: quat_goals@[4 * q + 2],
                    }),
                forall|q: int|
                    0 <= q < i ==> (#[trigger] tols@[q]) == (Tolerance {
                        linear: Vec3 {
                            x: tolerances@[6 * q],
                            y: tolerances@[6 * q + 1],
                            z: tolerances@[6 * q + 2],
                        },
                        angular: Vec3 {
                            x: tolerances@[6 * q + 3],
                            y: tolerances@[6 * q + 4],
                            z: tolerances@[6 * q + 5],
                        },
                    }),
            decreases num_chains - i,
        {
            goal_positions.push(
                Vec3 { x: pos_goals[3 * i], y: pos_goals[3 * i + 1], z: pos_goals[3 * i + 2] },
            );
            goal_quats.push(
                Quat {
                    w: quat_goals[4 * i + 3],
                    x: quat_goals[4 * i],
                    y: quat_goals[4 * i + 1],
                    z: quat_goals[4 * i + 2],
                },
            );
            tols.push(
                Tolerance {
                    linear: Vec3 {
                        x: tolerances[6 * i],
                        y: tolerances[6 * i + 1],
                        z: tolerances[6 * i + 2],
                    },
                    angular: Vec3 {
                        x: tolerances[6 * i + 3],
                        y: tolerances[6 * i + 4],
                        z: tolerances[6 * i + 5],
                    },
                },
            );
            i = i + 1;
        }
        self.vars.goal_positions = goal_positions;
        self.vars.goal_quats = goal_quats;
        self.vars.tolerances = tols;
        Ok(())
    }

    /// Replaces the goal pose of one chain; the numeric layer uses this
    /// after accumulating velocity deltas onto the previous goal.
    pub fn set_chain_goal(&mut self, chain: usize, position: Vec3, orientation: Quat)
        requires
            old(self).wf(),
            chain < old(self).vars.robot.num_chains,
        ensures
            final(self).wf(),
            final(self).vars.goal_positions@ == old(self).vars.goal_positions@.update(
                chain as int,
                position,
            ),
            final(self).vars.goal_quats@ == old(self).vars.goal_quats@.update(
                chain as int,
                orientation,
            ),
            final(self).vars.tolerances@ == old(self).vars.tolerances@,
            final(self).vars.xopt@ == old(self).vars.xopt@,
            final(self).vars.prev_state@ == old(self).vars.prev_state@,
            final(self).vars.prev_state2@ == old(self).vars.prev_state2@,
            final(self).vars.prev_state3@ == old(self).vars.prev_state3@,
            final(self).vars.robot == old(self).vars.robot,
            final(self).om == old(self).om,
    {
        self.vars.goal_positions.set(chain, position);
        self.vars.goal_quats.set(chain, orientation);
    }

    /// Validates and commits the optimiser's candidate: a candidate with a
    /// NaN or infinite component is discarded and the previously accepted
    /// vector returned with the state untouched; a finite candidate is
    /// committed to the history and returned.
    pub fn commit_candidate(&mut self, candidate: Vec<Scalar>) -> (r: Vec<Scalar>)
        requires
            old(self).wf(),
            candidate@.len() == old(self).vars.robot.num_dofs,
        ensures
            final(self).wf(),
            r@ == validated_output(old(self).vars.xopt@, candidate@),
            all_finite(r@),
            r@.len() == old(self).vars.robot.num_dofs,
            all_finite(candidate@) ==> {
                &&& final(self).vars.xopt@ == candidate@
                &&& final(self).vars.prev_state@ == old(self).vars.xopt@
                &&& final(self).vars.prev_state2@ == old(self).vars.prev_state@
                &&& final(self).vars.prev_state3@ == old(self).vars.prev_state2@
            },
            !all_finite(candidate@) ==> *final(self) == *old(self),
            final(self).vars.goal_positions@ == old(self).vars.goal_positions@,
            final(self).vars.goal_quats@ == old(self).vars.goal_quats@,
            final(self).vars.tolerances@ == old(self).vars.tolerances@,
            final(self).vars.robot == old(self).vars.robot,
            final(self).om == old(self).om,
    {
        if !vec_all_finite(&candidate) {
            return self.vars.xopt.clone();
        }
        self.vars.update(candidate.clone());
        candidate
    }

    /// Clears the history to a fresh state, with the end-effector poses the
    /// numeric layer recomputed for it.
    pub fn reset(&mut self, init_state: Vec<Scalar>, ee_positions: Vec<Vec3>, ee_quats: Vec<Quat>)
        -> (ok: bool)
        requires
            old(self).wf(),
        ensures
            final(self).wf(),
            final(self).om == old(self).om,
            ok == (init_state@.len() == old(self).vars.robot.num_dofs && all_finite(init_state@)
                && ee_positions@.len() == old(self).vars.robot.num_chains && ee_quats@.len()
                == old(self).vars.robot.num_chains),
            ok ==> final(self).vars.xopt@ == init_state@ && final(self).vars.prev_state@
                == init_state@ && final(self).vars.prev_state2@ == init_state@
                && final(self).vars.prev_state3@ == init_state@
                && final(self).vars.init_state@ == init_state@,
            !ok ==> *final(self) == *old(self),
    {
        self.vars.reset(init_state, ee_positions, ee_quats)
    }

    /// Flattens the current per-chain goal positions into one array, three
    /// components per chain.
    pub fn goal_positions_flat(&self) -> (r: Vec<Scalar>)
        requires
            self.wf(),
        ensures
            r@.len() == self.vars.robot.num_chains * 3,
            forall|i: int|
                0 <= i < self.vars.robot.num_chains ==> r@[3 * i]
                    == (#[trigger] self.vars.goal_positions@[i]).x && r@[3 * i + 1]
                    == self.vars.goal_positions@[i].y && r@[3 * i + 2]
                    == self.vars.goal_positions@[i].z,
    {
        let mut out: Vec<Scalar> = Vec::new();
        let mut i: usize = 0;
        while i < self.vars.goal_positions.len()
            invariant
                self.vars.goal_positions@.len() == self.vars.robot.num_chains,
                0 <= i <= self.vars.goal_positions@.len(),
                out@.len() == 3 * i,
                forall|q: int|
                    0 <= q < i ==> out@[3 * q] == (#[trigger] self.vars.goal_positions@[q]).x
                        && out@[3 * q + 1] == self.vars.goal_positions@[q].y && out@[3 * q + 2]
                        == self.vars.goal_positions@[q].z,
            decreases self.vars.goal_positions@.len() - i,
        {
            let g = self.vars.goal_positions[i];
            out.push(g.x);
            out.push(g.y);
            out.push(g.z);
            i = i + 1;
        }
        out
    }
}

/// Validation never lets a NaN or infinite component through: whatever the
/// optimiser produced, the output of the commit step is finite whenever the
/// previously accepted vector was.
pub proof fn lemma_validated_output_finite(prev: Seq<Scalar>, candidate: Seq<Scalar>)
    requires
        all_finite(prev),
    ensures
        all_finite(validated_output(prev, candidate)),
        !all_finite(candidate) ==> validated_output(prev, candidate) == prev,
{
}

/// The commit step is deterministic: equal states and equal candidates
/// give equal outputs and equal successor states. Replaying a goal
/// sequence against an identical initial state therefore replays the
/// accepted outputs exactly, as far as this crate decides them.
pub proof fn lemma_commit_deterministic(
    prev1: Seq<Scalar>,
    candidate1: Seq<Scalar>,
    prev2: Seq<Scalar>,
    candidate2: Seq<Scalar>,
)
    requires
        prev1 == prev2,
        candidate1 == candidate2,
    ensures
        validated_output(prev1, candidate1) == validated_output(prev2, candidate2),
{
}

} // verus!
