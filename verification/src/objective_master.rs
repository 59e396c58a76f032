//! The weighted objective ensemble and its two presets.
//!
//! Weights are stated in hundredths, so that every configured weight of the
//! ensemble is an exact integer (the numeric layer divides by one hundred
//! when it evaluates a term). The construction of both presets is pinned
//! exactly: the standard preset pairs a whole-pose position and orientation
//! match per chain at unit weight; the full preset lays out six per-axis
//! pose terms per chain, a joint-limit term per degree of freedom, the
//! velocity/acceleration/jerk and manipulability terms, and a self-collision
//! term for every non-adjacent link pair of every chain.

use vstd::prelude::*;

use crate::objective::{
    EachJointLimits, GradientKind, MatchEEPosGoals, MatchEEPosiDoF, MatchEEQuatGoals,
    MatchEERotaDoF, MaximizeManipulability, MinimizeAcceleration, MinimizeJerk, MinimizeVelocity,
    Objective, SelfCollision,
};

verus! {

/// Weight of a whole-pose match term, in hundredths (1.0).
pub const STANDARD_POSE_WEIGHT: u64 = 100;

/// Weight of a per-axis position match term, in hundredths (50.0).
pub const POSITION_AXIS_WEIGHT: u64 = 5000;

/// Weight of a per-axis orientation match term, in hundredths (10.0).
pub const ORIENTATION_AXIS_WEIGHT: u64 = 1000;

/// Weight of a joint-limit term, in hundredths (0.1).
pub const JOINT_LIMIT_WEIGHT: u64 = 10;

/// Weight of the velocity-minimisation term, in hundredths (0.7).
pub const VELOCITY_WEIGHT: u64 = 70;

/// Weight of the acceleration-minimisation term, in hundredths (0.5).
pub const ACCELERATION_WEIGHT: u64 = 50;

/// Weight of the jerk-minimisation term, in hundredths (0.3).
pub const JERK_WEIGHT: u64 = 30;

/// Weight of the manipulability term, in hundredths (1.0).
pub const MANIPULABILITY_WEIGHT: u64 = 100;

/// Weight of a self-collision term, in hundredths (0.01).
pub const SELF_COLLISION_WEIGHT: u64 = 1;

/// The entries of the standard preset for the first `n` chains: a
/// whole-pose position match and a whole-pose orientation match per chain.
pub open spec fn standard_entries(n: int) -> Seq<(Objective, u64)>
    decreases n,
{
    if n <= 0 {
        Seq::empty()
    } else {
        standard_entries(n - 1) + seq![
            (Objective::PosGoals(MatchEEPosGoals { arm_idx: (n - 1) as usize }), STANDARD_POSE_WEIGHT),
            (Objective::QuatGoals(MatchEEQuatGoals { arm_idx: (n - 1) as usize }), STANDARD_POSE_WEIGHT),
        ]
    }
}

/// The six per-axis pose entries of chain `i` of the full preset.
pub open spec fn chain_pose_entries(i: int) -> Seq<(Objective, u64)> {
    seq![
        (Objective::PosiDoF(MatchEEPosiDoF { arm_idx: i as usize, axis: 0 }), POSITION_AXIS_WEIGHT),
        (Objective::PosiDoF(MatchEEPosiDoF { arm_idx: i as usize, axis: 1 }), POSITION_AXIS_WEIGHT),
        (Objective::PosiDoF(MatchEEPosiDoF { arm_idx: i as usize, axis: 2 }), POSITION_AXIS_WEIGHT),
        (Objective::RotaDoF(MatchEERotaDoF { arm_idx: i as usize, axis: 0 }), ORIENTATION_AXIS_WEIGHT),
        (Objective::RotaDoF(MatchEERotaDoF { arm_idx: i as usize, axis: 1 }), ORIENTATION_AXIS_WEIGHT),
        (Objective::RotaDoF(MatchEERotaDoF { arm_idx: i as usize, axis: 2 }), ORIENTATION_AXIS_WEIGHT),
    ]
}

/// The per-axis pose entries of the first `n` chains of the full preset.
pub open spec fn pose_entries(n: int) -> Seq<(Objective, u64)>
    decreases n,
{
    if n <= 0 {
        Seq::empty()
    } else {
        pose_entries(n - 1) + chain_pose_entries(n - 1)
    }
}

/// The joint-limit entries of the first `d` degrees of freedom.
pub open spec fn limit_entries(d: int) -> Seq<(Objective, u64)>
    decreases d,
{
    if d <= 0 {
        Seq::empty()
    } else {
        limit_entries(d - 1) + seq![
            (Objective::JointLimits(EachJointLimits { joint_idx: (d - 1) as usize }), JOINT_LIMIT_WEIGHT),
        ]
    }
}

/// The motion-smoothness and manipulability entries of the full preset.
pub open spec fn motion_entries() -> Seq<(Objective, u64)> {
    seq![
        (Objective::Velocity(MinimizeVelocity), VELOCITY_WEIGHT),
        (Objective::Acceleration(MinimizeAcceleration), ACCELERATION_WEIGHT),
        (Objective::Jerk(MinimizeJerk), JERK_WEIGHT),
        (Objective::Manipulability(MaximizeManipulability), MANIPULABILITY_WEIGHT),
    ]
}

/// The self-collision entries of chain `arm` pairing link `j` with links
/// `k, k+1, ..., len-1`.
pub open spec fn sc_partner_entries(arm: int, j: int, k: int, len: int) -> Seq<(Objective, u64)>
    decreases len - k,
{
    if k >= len || len < 0 {
        Seq::empty()
    } else {
        seq![
            (
                Objective::SelfColl(
                    SelfCollision {
                        arm_idx: arm as usize,
                        first_link: j as usize,
                        second_link: k as usize,
                    },
                ),
                SELF_COLLISION_WEIGHT,
            ),
        ] + sc_partner_entries(arm, j, k + 1, len)
    }
}

/// The self-collision entries of chain `arm` for first links
/// `j, j+1, ..., len-3`, each paired with every link at least two further
/// down the chain.
pub open spec fn sc_chain_entries(arm: int, j: int, len: int) -> Seq<(Objective, u64)>
    decreases len - j,
{
    if j >= len - 2 || len < 0 {
        Seq::empty()
    } else {
        sc_partner_entries(arm, j, j + 2, len) + sc_chain_entries(arm, j + 1, len)
    }
}

/// The self-collision entries of the first `n` chains.
pub open spec fn sc_entries(lengths: Seq<usize>, n: int) -> Seq<(Objective, u64)>
    decreases n,
{
    if n <= 0 {
        Seq::empty()
    } else {
        sc_entries(lengths, n - 1) + sc_chain_entries(n - 1, 0, lengths[n - 1] as int)
    }
}

/// Sum of the first `i` chain lengths.
pub open spec fn sum_lengths(lengths: Seq<usize>, i: int) -> int
    decreases i,
{
    if i <= 0 {
        0
    } else {
        sum_lengths(lengths, i - 1) + lengths[i - 1]
    }
}

/// The full ensemble of the tolerance-band preset for the given chain
/// lengths: per-axis pose entries, joint-limit entries, motion entries,
/// self-collision entries, in that order.
pub open spec fn relaxed_entries(lengths: Seq<usize>) -> Seq<(Objective, u64)> {
    pose_entries(lengths.len() as int) + limit_entries(sum_lengths(lengths, lengths.len() as int))
        + motion_entries() + sc_entries(lengths, lengths.len() as int)
}

/// The parallel vectors hold exactly the given entries, in order.
pub open spec fn paired(objs: Seq<Objective>, ws: Seq<u64>, entries: Seq<(Objective, u64)>) -> bool {
    &&& objs.len() == entries.len()
    &&& ws.len() == entries.len()
    &&& forall|i: int|
        0 <= i < entries.len() ==> (#[trigger] objs[i]) == entries[i].0 && ws[i] == entries[i].1
}

/// Appending one primitive and its weight appends one entry.
pub proof fn lemma_paired_push(
    objs: Seq<Objective>,
    ws: Seq<u64>,
    entries: Seq<(Objective, u64)>,
    o: Objective,
    w: u64,
)
    requires
        paired(objs, ws, entries),
    ensures
        paired(objs.push(o), ws.push(w), entries + seq![(o, w)]),
{
    let objs2 = objs.push(o);
    let ws2 = ws.push(w);
    let entries2 = entries + seq![(o, w)];
    assert forall|i: int| 0 <= i < entries2.len() implies (#[trigger] objs2[i]) == entries2[i].0
        && ws2[i] == entries2[i].1 by {
        if i < entries.len() {
            assert(objs[i] == entries[i].0 && ws[i] == entries[i].1);
        }
    }
}

/// The self-collision entries of chain `arm` pairing link `j` with links
/// `j+2, ..., k-1`: the part of the row already laid out when the partner
/// loop stands at `k`.
pub open spec fn sc_partner_prefix(arm: int, j: int, k: int, len: int) -> Seq<(Objective, u64)>
    decreases k - j,
{
    if k <= j + 2 {
        Seq::empty()
    } else {
        sc_partner_prefix(arm, j, k - 1, len) + seq![
            (
                Objective::SelfColl(
                    SelfCollision {
                        arm_idx: arm as usize,
                        first_link: j as usize,
                        second_link: (k - 1) as usize,
                    },
                ),
                SELF_COLLISION_WEIGHT,
            ),
        ]
    }
}

/// The self-collision entries of chain `arm` for the rows with first link
/// `0, ..., j-1`, each row complete.
pub open spec fn sc_rows_done(arm: int, j: int, len: int) -> Seq<(Objective, u64)>
    decreases j,
{
    if j <= 0 {
        Seq::empty()
    } else {
        sc_rows_done(arm, j - 1, len) + sc_partner_entries(arm, j - 1, j + 1, len)
    }
}

/// One more partner extends the row prefix by one entry.
proof fn lemma_sc_partner_prefix_step(arm: int, j: int, k: int, len: int)
    requires
        j + 2 <= k,
    ensures
        sc_partner_prefix(arm, j, k + 1, len) == sc_partner_prefix(arm, j, k, len) + seq![
            (
                Objective::SelfColl(
                    SelfCollision {
                        arm_idx: arm as usize,
                        first_link: j as usize,
                        second_link: k as usize,
                    },
                ),
                SELF_COLLISION_WEIGHT,
            ),
        ],
{
}

/// Laid out upward or downward, a row's entries agree: the prefix at `k`
/// plus the remaining partners equal the whole row.
proof fn lemma_sc_partner_split(arm: int, j: int, k: int, len: int)
    requires
        0 <= j,
        j + 2 <= k <= len,
    ensures
        sc_partner_prefix(arm, j, k, len) + sc_partner_entries(arm, j, k, len)
            == sc_partner_entries(arm, j, j + 2, len),
    decreases k - j,
{
    if k == j + 2 {
        assert(sc_partner_prefix(arm, j, k, len) + sc_partner_entries(arm, j, k, len)
            =~= sc_partner_entries(arm, j, j + 2, len));
    } else {
        lemma_sc_partner_split(arm, j, k - 1, len);
        lemma_sc_partner_prefix_step(arm, j, k - 1, len);
        let e = (
            Objective::SelfColl(
                SelfCollision {
                    arm_idx: arm as usize,
                    first_link: j as usize,
                    second_link: (k - 1) as usize,
                },
            ),
            SELF_COLLISION_WEIGHT,
        );
        assert(sc_partner_entries(arm, j, k - 1, len) =~= seq![e] + sc_partner_entries(
            arm,
            j,
            k,
            len,
        ));
        assert(sc_partner_prefix(arm, j, k, len) =~= sc_partner_prefix(arm, j, k - 1, len)
            + seq![e]);
        assert(sc_partner_prefix(arm, j, k, len) + sc_partner_entries(arm, j, k, len)
            =~= sc_partner_prefix(arm, j, k - 1, len) + sc_partner_entries(arm, j, k - 1, len));
    }
}

/// The complete row prefix equals the row of [`sc_partner_entries`].
proof fn lemma_sc_partner_prefix_full(arm: int, j: int, len: int)
    requires
        0 <= j,
        j + 2 <= len,
    ensures
        sc_partner_prefix(arm, j, len, len) == sc_partner_entries(arm, j, j + 2, len),
{
    lemma_sc_partner_split(arm, j, len, len);
    assert(sc_partner_prefix(arm, j, len, len) + sc_partner_entries(arm, j, len, len)
        =~= sc_partner_prefix(arm, j, len, len));
}

/// One more finished row extends the finished-rows sequence by that row.
proof fn lemma_sc_rows_done_step(arm: int, j: int, len: int)
    requires
        j >= 1,
    ensures
        sc_rows_done(arm, j, len) == sc_rows_done(arm, j - 1, len) + sc_partner_entries(
            arm,
            j - 1,
            j + 1,
            len,
        ),
{
}

/// Rows laid out upward or downward agree: the finished rows up to `j` plus
/// the remaining rows equal the whole chain's entries.
proof fn lemma_sc_rows_split(arm: int, j: int, len: int)
    requires
        0 <= j <= len - 2,
    ensures
        sc_rows_done(arm, j, len) + sc_chain_entries(arm, j, len) == sc_chain_entries(arm, 0, len),
    decreases j,
{
    if j == 0 {
        assert(sc_rows_done(arm, 0, len) + sc_chain_entries(arm, 0, len) =~= sc_chain_entries(
            arm,
            0,
            len,
        ));
    } else {
        lemma_sc_rows_split(arm, j - 1, len);
        lemma_sc_rows_done_step(arm, j, len);
        assert(sc_chain_entries(arm, j - 1, len) == sc_partner_entries(arm, j - 1, j + 1, len)
            + sc_chain_entries(arm, j, len));
        assert(sc_rows_done(arm, j, len) + sc_chain_entries(arm, j, len) =~= sc_rows_done(
            arm,
            j - 1,
            len,
        ) + sc_chain_entries(arm, j - 1, len));
    }
}

/// All rows finished equals the whole chain's self-collision entries.
proof fn lemma_sc_rows_done_complete(arm: int, len: int)
    requires
        len >= 2,
    ensures
        sc_rows_done(arm, len - 2, len) == sc_chain_entries(arm, 0, len),
{
    lemma_sc_rows_split(arm, len - 2, len);
    assert(sc_rows_done(arm, len - 2, len) + sc_chain_entries(arm, len - 2, len) =~= sc_rows_done(
        arm,
        len - 2,
        len,
    ));
}

/// `sum_lengths` grows monotonically with the number of chains counted.
pub proof fn lemma_sum_lengths_monotonic(lengths: Seq<usize>, i: int, j: int)
    requires
        0 <= i <= j <= lengths.len(),
    ensures
        sum_lengths(lengths, i) <= sum_lengths(lengths, j),
    decreases j - i,
{
    if i < j {
        lemma_sum_lengths_monotonic(lengths, i + 1, j);
    }
}

/// The weighted objective ensemble: parallel vectors of primitives and
/// their weights (in hundredths), the chain count, and the two evaluation
/// flags — whether the lite kinematics path (end-effector pose only) is
/// used, and whether the gradient is taken by whole-ensemble finite
/// differencing rather than per-primitive dispatch.
#[derive(Clone, Debug)]
pub struct ObjectiveMaster {
    pub objectives: Vec<Objective>,
    pub num_chains: usize,
    pub weight_priors: Vec<u64>,
    pub lite: bool,
    pub finite_diff_grad: bool,
}

impl ObjectiveMaster {
    /// The parallel vectors pair up.
    pub open spec fn wf(self) -> bool {
        self.objectives@.len() == self.weight_priors@.len()
    }

    /// The ensemble holds exactly the given entries, in order.
    pub open spec fn matches_entries(self, entries: Seq<(Objective, u64)>) -> bool {
        paired(self.objectives@, self.weight_priors@, entries)
    }

    /// Builds the standard preset: per chain, a whole-pose position match
    /// and a whole-pose orientation match, at unit weight, on the lite
    /// evaluation path.
    pub fn standard_ik(num_chains: usize) -> (r: ObjectiveMaster)
        requires
            num_chains * 2 <= usize::MAX,
        ensures
            r.wf(),
            r.matches_entries(standard_entries(num_chains as int)),
            r.num_chains == num_chains,
            r.lite,
            r.finite_diff_grad,
    {
        let mut objectives: Vec<Objective> = Vec::new();
        let mut weight_priors: Vec<u64> = Vec::new();
        let mut i: usize = 0;
        while i < num_chains
            invariant
                0 <= i <= num_chains,
                standard_entries(i as int).len() == 2 * i,
                paired(objectives@, weight_priors@, standard_entries(i as int)),
            decreases num_chains - i,
        {
            let pos = Objective::PosGoals(MatchEEPosGoals::new(i));
            let quat = Objective::QuatGoals(MatchEEQuatGoals::new(i));
            proof {
                lemma_paired_push(
                    objectives@,
                    weight_priors@,
                    standard_entries(i as int),
                    pos,
                    STANDARD_POSE_WEIGHT,
                );
            }
            objectives.push(pos);
            weight_priors.push(STANDARD_POSE_WEIGHT);
            proof {
                lemma_paired_push(
                    objectives@,
                    weight_priors@,
                    standard_entries(i as int) + seq![(pos, STANDARD_POSE_WEIGHT)],
                    quat,
                    STANDARD_POSE_WEIGHT,
                );
            }
            objectives.push(quat);
            weight_priors.push(STANDARD_POSE_WEIGHT);
            i = i + 1;
            proof {
                assert(standard_entries(i as int) =~= standard_entries(i as int - 1)
                    + seq![(pos, STANDARD_POSE_WEIGHT)] + seq![(quat, STANDARD_POSE_WEIGHT)]);
            }
        }
        ObjectiveMaster { objectives, num_chains, weight_priors, lite: true, finite_diff_grad: true }
    }

    /// Builds the full tolerance-band preset for the given chain lengths:
    /// six per-axis pose terms per chain, one joint-limit term per degree of
    /// freedom, the velocity/acceleration/jerk and manipulability terms, and
    /// one self-collision term per non-adjacent link pair of each chain.
    pub fn relaxed_ik(chain_lengths: &Vec<usize>) -> (r: ObjectiveMaster)
        requires
            forall|i: int| 0 <= i < chain_lengths@.len() ==> (#[trigger] chain_lengths@[i]) >= 2,
            sum_lengths(chain_lengths@, chain_lengths@.len() as int) <= usize::MAX,
        ensures
            r.wf(),
            r.matches_entries(relaxed_entries(chain_lengths@)),
            r.num_chains == chain_lengths@.len(),
            !r.lite,
            !r.finite_diff_grad,
    {
        let num_chains: usize = chain_lengths.len();
        let mut objectives: Vec<Objective> = Vec::new();
        let mut weight_priors: Vec<u64> = Vec::new();
        let mut num_dofs: usize = 0;

        let mut i: usize = 0;
        while i < num_chains
            invariant
                num_chains == chain_lengths@.len(),
                sum_lengths(chain_lengths@, chain_lengths@.len() as int) <= usize::MAX,
                0 <= i <= num_chains,
                num_dofs == sum_lengths(chain_lengths@, i as int),
                paired(objectives@, weight_priors@, pose_entries(i as int)),
            decreases num_chains - i,
        {
            proof {
                lemma_sum_lengths_monotonic(chain_lengths@, i as int + 1, chain_lengths@.len() as int);
            }
            objectives.push(Objective::PosiDoF(MatchEEPosiDoF::new(i, 0)));
            weight_priors.push(POSITION_AXIS_WEIGHT);
            objectives.push(Objective::PosiDoF(MatchEEPosiDoF::new(i, 1)));
            weight_priors.push(POSITION_AXIS_WEIGHT);
            objectives.push(Objective::PosiDoF(MatchEEPosiDoF::new(i, 2)));
            weight_priors.push(POSITION_AXIS_WEIGHT);
            objectives.push(Objective::RotaDoF(MatchEERotaDoF::new(i, 0)));
            weight_priors.push(ORIENTATION_AXIS_WEIGHT);
            objectives.push(Objective::RotaDoF(MatchEERotaDoF::new(i, 1)));
            weight_priors.push(ORIENTATION_AXIS_WEIGHT);
            objectives.push(Objective::RotaDoF(MatchEERotaDoF::new(i, 2)));
            weight_priors.push(ORIENTATION_AXIS_WEIGHT);
            num_dofs = num_dofs + chain_lengths[i];
            i = i + 1;
            proof {
                assert(pose_entries(i as int) =~= pose_entries(i as int - 1)
                    + chain_pose_entries(i as int - 1));
            }
        }

        let base_pose: Ghost<Seq<(Objective, u64)>> = Ghost(pose_entries(num_chains as int));
        let mut j: usize = 0;
        while j < num_dofs
            invariant
                base_pose@ == pose_entries(num_chains as int),
                0 <= j <= num_dofs,
                paired(objectives@, weight_priors@, base_pose@ + limit_entries(j as int)),
            decreases num_dofs - j,
        {
            objectives.push(Objective::JointLimits(EachJointLimits::new(j)));
            weight_priors.push(JOINT_LIMIT_WEIGHT);
            j = j + 1;
            proof {
                assert(base_pose@ + limit_entries(j as int) =~= (base_pose@ + limit_entries(
                    j as int - 1,
                )) + seq![
                    (
                        Objective::JointLimits(EachJointLimits { joint_idx: (j - 1) as usize }),
                        JOINT_LIMIT_WEIGHT,
                    ),
                ]);
            }
        }

        let pre_motion: Ghost<Seq<(Objective, u64)>> = Ghost(
            base_pose@ + limit_entries(num_dofs as int),
        );
        proof {
            lemma_paired_push(
                objectives@,
                weight_priors@,
                pre_motion@,
                Objective::Velocity(MinimizeVelocity),
                VELOCITY_WEIGHT,
            );
        }
        objectives.push(Objective::Velocity(MinimizeVelocity));
        weight_priors.push(VELOCITY_WEIGHT);
        proof {
            lemma_paired_push(
                objectives@,
                weight_priors@,
                pre_motion@ + seq![(Objective::Velocity(MinimizeVelocity), VELOCITY_WEIGHT)],
                Objective::Acceleration(MinimizeAcceleration),
                ACCELERATION_WEIGHT,
            );
        }
        objectives.push(Objective::Acceleration(MinimizeAcceleration));
        weight_priors.push(ACCELERATION_WEIGHT);
        proof {
            lemma_paired_push(
                objectives@,
                weight_priors@,
                pre_motion@ + seq![(Objective::Velocity(MinimizeVelocity), VELOCITY_WEIGHT)]
                    + seq![(Objective::Acceleration(MinimizeAcceleration), ACCELERATION_WEIGHT)],
                Objective::Jerk(MinimizeJerk),
                JERK_WEIGHT,
            );
        }
        objectives.push(Objective::Jerk(MinimizeJerk));
        weight_priors.push(JERK_WEIGHT);
        proof {
            lemma_paired_push(
                objectives@,
                weight_priors@,
                pre_motion@ + seq![(Objective::Velocity(MinimizeVelocity), VELOCITY_WEIGHT)]
                    + seq![(Objective::Acceleration(MinimizeAcceleration), ACCELERATION_WEIGHT)]
                    + seq![(Objective::Jerk(MinimizeJerk), JERK_WEIGHT)],
                Objective::Manipulability(MaximizeManipulability),
                MANIPULABILITY_WEIGHT,
            );
        }
        objectives.push(Objective::Manipulability(MaximizeManipulability));
        weight_priors.push(MANIPULABILITY_WEIGHT);

        let base: Ghost<Seq<(Objective, u64)>> = Ghost(
            base_pose@ + limit_entries(num_dofs as int) + motion_entries(),
        );
        proof {
            assert(base@ =~= pre_motion@
                + seq![(Objective::Velocity(MinimizeVelocity), VELOCITY_WEIGHT)]
                + seq![(Objective::Acceleration(MinimizeAcceleration), ACCELERATION_WEIGHT)]
                + seq![(Objective::Jerk(MinimizeJerk), JERK_WEIGHT)]
                + seq![(Objective::Manipulability(MaximizeManipulability), MANIPULABILITY_WEIGHT)]);
            assert(paired(objectives@, weight_priors@, base@));
        }

        let mut a: usize = 0;
        while a < num_chains
            invariant
                num_chains == chain_lengths@.len(),
                forall|q: int| 0 <= q < chain_lengths@.len() ==> (#[trigger] chain_lengths@[q]) >= 2,
                0 <= a <= num_chains,
                paired(objectives@, weight_priors@, base@ + sc_entries(chain_lengths@, a as int)),
            decreases num_chains - a,
        {
            let len: usize = chain_lengths[a];
            let done: Ghost<Seq<(Objective, u64)>> = Ghost(
                base@ + sc_entries(chain_lengths@, a as int),
            );
            let mut sj: usize = 0;
            while sj < len - 2
                invariant
                    num_chains == chain_lengths@.len(),
                    0 <= a < num_chains,
                    len == chain_lengths@[a as int],
                    len >= 2,
                    0 <= sj <= len - 2,
                    done@ == base@ + sc_entries(chain_lengths@, a as int),
                    paired(objectives@, weight_priors@, done@ + sc_rows_done(a as int, sj as int, len as int)),
                decreases len - 2 - sj,
            {
                let mut sk: usize = sj + 2;
                while sk < len
                    invariant
                        num_chains == chain_lengths@.len(),
                        0 <= a < num_chains,
                        len == chain_lengths@[a as int],
                        len >= 2,
                        0 <= sj < len - 2,
                        sj + 2 <= sk <= len,
                        done@ == base@ + sc_entries(chain_lengths@, a as int),
                        paired(
                            objectives@,
                            weight_priors@,
                            done@ + sc_rows_done(a as int, sj as int, len as int)
                                + sc_partner_prefix(a as int, sj as int, sk as int, len as int),
                        ),
                    decreases len - sk,
                {
                    objectives.push(Objective::SelfColl(SelfCollision::new(a, sj, sk)));
                    weight_priors.push(SELF_COLLISION_WEIGHT);
                    sk = sk + 1;
                    proof {
                        lemma_sc_partner_prefix_step(a as int, sj as int, sk as int - 1, len as int);
                        assert(done@ + sc_rows_done(a as int, sj as int, len as int)
                            + sc_partner_prefix(a as int, sj as int, sk as int, len as int)
                            =~= (done@ + sc_rows_done(a as int, sj as int, len as int)
                            + sc_partner_prefix(a as int, sj as int, sk as int - 1, len as int))
                            + seq![
                            (
                                Objective::SelfColl(
                                    SelfCollision {
                                        arm_idx: a,
                                        first_link: sj,
                                        second_link: (sk - 1) as usize,
                                    },
                                ),
                                SELF_COLLISION_WEIGHT,
                            ),
                        ]);
                    }
                }
                sj = sj + 1;
                proof {
                    lemma_sc_partner_prefix_full(a as int, sj as int - 1, len as int);
                    lemma_sc_rows_done_step(a as int, sj as int, len as int);
                    assert(done@ + sc_rows_done(a as int, sj as int, len as int) =~= done@
                        + sc_rows_done(a as int, sj as int - 1, len as int) + sc_partner_prefix(
                        a as int,
                        sj as int - 1,
                        len as int,
                        len as int,
                    ));
                }
            }
            a = a + 1;
            proof {
                lemma_sc_rows_done_complete(a as int - 1, len as int);
                assert(sc_entries(chain_lengths@, a as int) == sc_entries(
                    chain_lengths@,
                    a as int - 1,
                ) + sc_chain_entries(a as int - 1, 0, len as int));
                assert(base@ + sc_entries(chain_lengths@, a as int) =~= (base@ + sc_entries(
                    chain_lengths@,
                    a as int - 1,
                )) + sc_rows_done(a as int - 1, (len - 2) as int, len as int));
            }
        }

        proof {
            assert(relaxed_entries(chain_lengths@) =~= base@ + sc_entries(
                chain_lengths@,
                num_chains as int,
            ));
        }
        ObjectiveMaster {
            objectives,
            num_chains,
            weight_priors,
            lite: false,
            finite_diff_grad: false,
        }
    }

    /// The indices of the primitives whose gradient is taken by finite
    /// differencing, in increasing order.
    pub fn finite_diff_indices(&self) -> (r: Vec<usize>)
        ensures
            r@ == fd_indices(self.objectives@, self.objectives@.len() as int),
    {
        let mut out: Vec<usize> = Vec::new();
        let mut i: usize = 0;
        while i < self.objectives.len()
            invariant
                0 <= i <= self.objectives@.len(),
                out@ == fd_indices(self.objectives@, i as int),
            decreases self.objectives@.len() - i,
        {
            let is_fd = match self.objectives[i].gradient_kind() {
                GradientKind::FiniteDiff => true,
                GradientKind::ClosedForm => false,
            };
            if is_fd {
                out.push(i);
            }
            i = i + 1;
            proof {
                assert(out@ =~= fd_indices(self.objectives@, i as int));
            }
        }
        out
    }
}

/// The indices among the first `i` primitives whose gradient is taken by
/// finite differencing.
pub open spec fn fd_indices(objs: Seq<Objective>, i: int) -> Seq<usize>
    decreases i,
{
    if i <= 0 {
        Seq::empty()
    } else if objs[i - 1].spec_gradient_kind() == GradientKind::FiniteDiff {
        fd_indices(objs, i - 1) + seq![(i - 1) as usize]
    } else {
        fd_indices(objs, i - 1)
    }
}

} // verus!
