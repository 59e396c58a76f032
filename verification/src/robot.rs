//! A multi-chain robot: several kinematic chains sharing one global joint
//! vector, partitioned across the chains by precomputed index maps.

use vstd::prelude::*;

use crate::chain::Chain;
use crate::scalar::Scalar;

verus! {

/// Bit pattern of the lower sentinel limit (-999.0) marking an
/// unbounded/continuous degree of freedom.
pub const UNBOUNDED_LOWER_BITS: u64 = 0xc08f_3800_0000_0000;

/// Bit pattern of the upper sentinel limit (999.0) marking an
/// unbounded/continuous degree of freedom.
pub const UNBOUNDED_UPPER_BITS: u64 = 0x408f_3800_0000_0000;

/// Sum of the degree-of-freedom counts of the first `i` chains.
pub open spec fn dofs_before(chains: Seq<Chain>, i: int) -> int
    decreases i,
{
    if i <= 0 {
        0
    } else {
        dofs_before(chains, i - 1) + chains[i - 1].spec_num_dof()
    }
}

/// A robot: its chains, the index map carving each chain's slice out of the
/// global joint vector, and per-degree-of-freedom joint limits.
#[derive(Clone, Debug)]
pub struct Robot {
    pub arms: Vec<Chain>,
    pub num_chains: usize,
    pub num_dofs: usize,
    pub chain_indices: Vec<Vec<usize>>,
    pub chain_lengths: Vec<usize>,
    pub lower_joint_limits: Vec<Scalar>,
    pub upper_joint_limits: Vec<Scalar>,
}

impl Robot {
    /// Well-formedness: the bookkeeping fields agree with the chains, each
    /// chain's indices are the consecutive run following its predecessors',
    /// and one limit pair exists per degree of freedom.
    pub open spec fn wf(self) -> bool {
        &&& self.num_chains == self.arms@.len()
        &&& self.chain_indices@.len() == self.arms@.len()
        &&& self.chain_lengths@.len() == self.arms@.len()
        &&& self.num_dofs == dofs_before(self.arms@, self.arms@.len() as int)
        &&& forall|i: int|
            0 <= i < self.arms@.len() ==> (#[trigger] self.chain_lengths@[i]) as int
                == self.arms@[i].spec_num_dof()
        &&& forall|i: int|
            0 <= i < self.arms@.len() ==> (#[trigger] self.chain_indices@[i])@.len()
                == self.arms@[i].spec_num_dof()
        &&& forall|i: int, j: int|
            0 <= i < self.arms@.len() && 0 <= j < self.chain_indices@[i]@.len()
                ==> (#[trigger] self.chain_indices@[i]@[j]) as int == dofs_before(self.arms@, i) + j
        &&& self.lower_joint_limits@.len() == self.num_dofs
        &&& self.upper_joint_limits@.len() == self.num_dofs
    }

    /// Builds a robot from its chains and limit vectors, assigning each
    /// chain the consecutive run of global indices that follows its
    /// predecessors' degrees of freedom.
    pub fn new(arms: Vec<Chain>, lower_joint_limits: Vec<Scalar>, upper_joint_limits: Vec<Scalar>)
        -> (r: Option<Robot>)
        ensures
            match r {
                Some(robot) => {
                    &&& robot.wf()
                    &&& robot.arms@ == arms@
                    &&& robot.lower_joint_limits@ == lower_joint_limits@
                    &&& robot.upper_joint_limits@ == upper_joint_limits@
                    &&& lower_joint_limits@.len() == robot.num_dofs
                    &&& upper_joint_limits@.len() == robot.num_dofs
                },
                None => {
                    dofs_before(arms@, arms@.len() as int) > usize::MAX
                        || lower_joint_limits@.len() != dofs_before(arms@, arms@.len() as int)
                        || upper_joint_limits@.len() != dofs_before(arms@, arms@.len() as int)
                },
            },
    {
        let num_chains: usize = arms.len();
        let mut chain_indices: Vec<Vec<usize>> = Vec::new();
        let mut chain_lengths: Vec<usize> = Vec::new();
        let mut num_dofs: usize = 0;
        let mut i: usize = 0;
        while i < num_chains
            invariant
                num_chains == arms@.len(),
                0 <= i <= num_chains,
                chain_indices@.len() == i,
                chain_lengths@.len() == i,
                num_dofs == dofs_before(arms@, i as int),
                forall|a: int|
                    0 <= a < i ==> (#[trigger] chain_lengths@[a]) as int
                        == arms@[a].spec_num_dof(),
                forall|a: int|
                    0 <= a < i ==> (#[trigger] chain_indices@[a])@.len()
                        == arms@[a].spec_num_dof(),
                forall|a: int, j: int|
                    0 <= a < i && 0 <= j < chain_indices@[a]@.len()
                        ==> (#[trigger] chain_indices@[a]@[j]) as int == dofs_before(arms@, a) + j,
            decreases num_chains - i,
        {
            let dof: usize = arms[i].num_dof();
            if dof > usize::MAX - num_dofs {
                proof {
                    lemma_dofs_before_monotonic(arms@, i as int + 1, arms@.len() as int);
                }
                return None;
            }
            let mut indices: Vec<usize> = Vec::new();
            let mut j: usize = 0;
            while j < dof
                invariant
                    0 <= j <= dof,
                    num_dofs + dof <= usize::MAX,
                    indices@.len() == j,
                    forall|q: int|
                        0 <= q < j ==> (#[trigger] indices@[q]) as int == num_dofs + q,
                decreases dof - j,
            {
                indices.push(num_dofs + j);
                j = j + 1;
            }
            chain_indices.push(indices);
            chain_lengths.push(dof);
            num_dofs = num_dofs + dof;
            i = i + 1;
        }
        if lower_joint_limits.len() != num_dofs || upper_joint_limits.len() != num_dofs {
            return None;
        }
        Some(
            Robot {
                arms,
                num_chains,
                num_dofs,
                chain_indices,
                chain_lengths,
                lower_joint_limits,
                upper_joint_limits,
            },
        )
    }

    /// Gathers, for each chain, the slice of the global joint vector that
    /// its index map selects.
    pub fn split_into_subchains(&self, x: &Vec<Scalar>) -> (r: Vec<Vec<Scalar>>)
        requires
            self.wf(),
            x@.len() == self.num_dofs,
        ensures
            r@.len() == self.num_chains,
            forall|i: int|
                0 <= i < r@.len() ==> (#[trigger] r@[i])@.len() == self.chain_indices@[i]@.len(),
            forall|i: int, j: int|
                0 <= i < r@.len() && 0 <= j < r@[i]@.len()
                    ==> (#[trigger] r@[i]@[j]) == x@[self.chain_indices@[i]@[j] as int],
    {
        proof {
            self.lemma_indices_in_range();
        }
        let mut out: Vec<Vec<Scalar>> = Vec::new();
        let mut i: usize = 0;
        while i < self.chain_indices.len()
            invariant
                self.wf(),
                x@.len() == self.num_dofs,
                0 <= i <= self.chain_indices@.len(),
                out@.len() == i,
                forall|a: int|
                    0 <= a < i ==> (#[trigger] out@[a])@.len() == self.chain_indices@[a]@.len(),
                forall|a: int, j: int|
                    0 <= a < i && 0 <= j < out@[a]@.len()
                        ==> (#[trigger] out@[a]@[j]) == x@[self.chain_indices@[a]@[j] as int],
            decreases self.chain_indices@.len() - i,
        {
            proof {
                self.lemma_indices_in_range();
            }
            let row = &self.chain_indices[i];
            let mut values: Vec<Scalar> = Vec::new();
            let mut j: usize = 0;
            while j < row.len()
                invariant
                    self.wf(),
                    x@.len() == self.num_dofs,
                    0 <= i < self.chain_indices@.len(),
                    row@ == self.chain_indices@[i as int]@,
                    forall|q: int|
                        0 <= q < row@.len() ==> 0 <= (#[trigger] row@[q]) < x@.len(),
                    0 <= j <= row@.len(),
                    values@.len() == j,
                    forall|q: int|
                        0 <= q < j ==> (#[trigger] values@[q]) == x@[row@[q] as int],
                decreases row@.len() - j,
            {
                values.push(x[row[j]]);
                j = j + 1;
            }
            out.push(values);
            i = i + 1;
        }
        out
    }

    /// The degree of freedom carries the sentinel pair marking an
    /// unbounded/continuous joint.
    pub fn joint_is_unbounded(&self, joint_idx: usize) -> (r: bool)
        requires
            self.wf(),
            joint_idx < self.num_dofs,
        ensures
            r == (self.lower_joint_limits@[joint_idx as int].bits == UNBOUNDED_LOWER_BITS
                && self.upper_joint_limits@[joint_idx as int].bits == UNBOUNDED_UPPER_BITS),
    {
        self.lower_joint_limits[joint_idx].bits == UNBOUNDED_LOWER_BITS
            && self.upper_joint_limits[joint_idx].bits == UNBOUNDED_UPPER_BITS
    }

    /// Every index a well-formed robot stores lies inside the global joint
    /// vector.
    pub proof fn lemma_indices_in_range(self)
        requires
            self.wf(),
        ensures
            forall|i: int, j: int|
                0 <= i < self.chain_indices@.len() && 0 <= j < self.chain_indices@[i]@.len()
                    ==> 0 <= (#[trigger] self.chain_indices@[i]@[j]) < self.num_dofs,
    {
        assert forall|i: int, j: int|
            0 <= i < self.chain_indices@.len() && 0 <= j
                < self.chain_indices@[i]@.len() implies 0 <= (#[trigger] self.chain_indices@[i]@[j])
            < self.num_dofs by {
            lemma_dofs_before_monotonic(self.arms@, i + 1, self.arms@.len() as int);
        }
    }
}

/// `dofs_before` grows monotonically with the number of chains counted.
pub proof fn lemma_dofs_before_monotonic(chains: Seq<Chain>, i: int, j: int)
    requires
        0 <= i <= j <= chains.len(),
    ensures
        dofs_before(chains, i) <= dofs_before(chains, j),
    decreases j - i,
{
    if i < j {
        crate::chain::lemma_dof_count_prefix_bounds(
            chains[i].joints@,
            chains[i].joints@.len() as int,
        );
        lemma_dofs_before_monotonic(chains, i + 1, j);
    }
}

/// The index maps of a well-formed robot partition the global joint vector:
/// every global degree of freedom is claimed by exactly one chain, at
/// exactly one position.
pub proof fn lemma_chain_indices_partition(robot: Robot, d: int)
    requires
        robot.wf(),
        0 <= d < robot.num_dofs,
    ensures
        exists|i: int, j: int|
            0 <= i < robot.chain_indices@.len() && 0 <= j < robot.chain_indices@[i]@.len()
                && robot.chain_indices@[i]@[j] == d,
        forall|i1: int, j1: int, i2: int, j2: int|
            0 <= i1 < robot.chain_indices@.len() && 0 <= j1 < robot.chain_indices@[i1]@.len()
                && 0 <= i2 < robot.chain_indices@.len() && 0 <= j2 < robot.chain_indices@[i2]@.len()
                && robot.chain_indices@[i1]@[j1] == d && robot.chain_indices@[i2]@[j2] == d
                ==> i1 == i2 && j1 == j2,
{
    lemma_dofs_before_covers(robot.arms@, robot.arms@.len() as int, d);
    let i = choose|i: int|
        0 <= i < robot.arms@.len() && #[trigger] dofs_before(robot.arms@, i) <= d < dofs_before(
            robot.arms@,
            i,
        ) + robot.arms@[i].spec_num_dof();
    let j = d - dofs_before(robot.arms@, i);
    assert(robot.chain_indices@[i]@[j] == d);
    assert forall|i1: int, j1: int, i2: int, j2: int|
        0 <= i1 < robot.chain_indices@.len() && 0 <= j1 < robot.chain_indices@[i1]@.len() && 0 <= i2
            < robot.chain_indices@.len() && 0 <= j2 < robot.chain_indices@[i2]@.len()
            && robot.chain_indices@[i1]@[j1] == d && robot.chain_indices@[i2]@[j2]
            == d implies i1 == i2 && j1 == j2 by {
        if i1 < i2 {
            crate::chain::lemma_dof_count_prefix_bounds(
                robot.arms@[i1].joints@,
                robot.arms@[i1].joints@.len() as int,
            );
            lemma_dofs_before_monotonic(robot.arms@, i1 + 1, i2);
        }
        if i2 < i1 {
            crate::chain::lemma_dof_count_prefix_bounds(
                robot.arms@[i2].joints@,
                robot.arms@[i2].joints@.len() as int,
            );
            lemma_dofs_before_monotonic(robot.arms@, i2 + 1, i1);
        }
    }
}

/// Every position below the total degree-of-freedom count falls inside the
/// run of exactly one chain.
proof fn lemma_dofs_before_covers(chains: Seq<Chain>, n: int, d: int)
    requires
        0 <= n <= chains.len(),
        0 <= d < dofs_before(chains, n),
    ensures
        exists|i: int|
            0 <= i < n && #[trigger] dofs_before(chains, i) <= d < dofs_before(chains, i)
                + chains[i].spec_num_dof(),
    decreases n,
{
    if n > 0 {
        if d < dofs_before(chains, n - 1) {
            lemma_dofs_before_covers(chains, n - 1, d);
            let i = choose|i: int|
                0 <= i < n - 1 && #[trigger] dofs_before(chains, i) <= d < dofs_before(chains, i)
                    + chains[i].spec_num_dof();
            assert(0 <= i < n && dofs_before(chains, i) <= d < dofs_before(chains, i)
                + chains[i].spec_num_dof());
        } else {
            assert(dofs_before(chains, n - 1) <= d < dofs_before(chains, n - 1)
                + chains[n - 1].spec_num_dof());
        }
    }
}

} // verus!
