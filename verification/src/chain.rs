//! Description of one kinematic chain: an ordered sequence of joints from a
//! base link to an end effector.
//!
//! A joint turns or slides about one of the six signed coordinate axes, or is
//! fixed. Every non-fixed joint consumes one entry of the chain's joint
//! vector, in traversal order; the forward-kinematics pass appends one frame
//! per joint to the frame list, after a leading identity frame, and the
//! orientation list carries one extra trailing entry mirroring the final
//! orientation.

use vstd::prelude::*;

verus! {

/// A signed local joint axis.
#[derive(Clone, Copy, Debug, PartialEq, Eq, Structural)]
pub enum Axis {
    X,
    Y,
    Z,
    NegX,
    NegY,
    NegZ,
}

/// The kind of a joint. Revolute and continuous joints rotate about their
/// axis, prismatic joints slide along it, fixed joints consume no joint
/// value.
#[derive(Clone, Copy, Debug, PartialEq, Eq, Structural)]
pub enum JointKind {
    Revolute,
    Continuous,
    Prismatic,
    Fixed,
}

impl JointKind {
    /// The joint consumes one entry of the joint vector.
    pub open spec fn spec_is_articulated(self) -> bool {
        self != JointKind::Fixed
    }

    pub fn is_articulated(&self) -> (r: bool)
        ensures
            r == self.spec_is_articulated(),
    {
        match self {
            JointKind::Fixed => false,
            _ => true,
        }
    }
}

/// The axis denoted by a label: a single `x`/`y`/`z` in either case for
/// the positive axes, or a lower-case letter behind a minus sign for the
/// negated ones. Anything else denotes no axis.
pub open spec fn spec_axis_of_label(s: Seq<char>) -> Option<Axis> {
    if s.len() == 1 {
        if s[0] == 'x' || s[0] == 'X' {
            Some(Axis::X)
        } else if s[0] == 'y' || s[0] == 'Y' {
            Some(Axis::Y)
        } else if s[0] == 'z' || s[0] == 'Z' {
            Some(Axis::Z)
        } else {
            None
        }
    } else if s.len() == 2 && s[0] == '-' {
        if s[1] == 'x' {
            Some(Axis::NegX)
        } else if s[1] == 'y' {
            Some(Axis::NegY)
        } else if s[1] == 'z' {
            Some(Axis::NegZ)
        } else {
            None
        }
    } else {
        None
    }
}

impl Axis {
    /// Classifies an axis label.
    pub fn from_label(label: &str) -> (r: Option<Axis>)
        ensures
            r == spec_axis_of_label(label@),
    {
        let n = label.unicode_len();
        if n == 1 {
            let c = label.get_char(0);
            if c == 'x' || c == 'X' {
                Some(Axis::X)
            } else if c == 'y' || c == 'Y' {
                Some(Axis::Y)
            } else if c == 'z' || c == 'Z' {
                Some(Axis::Z)
            } else {
                None
            }
        } else if n == 2 {
            let c0 = label.get_char(0);
            let c1 = label.get_char(1);
            if c0 != '-' {
                None
            } else if c1 == 'x' {
                Some(Axis::NegX)
            } else if c1 == 'y' {
                Some(Axis::NegY)
            } else if c1 == 'z' {
                Some(Axis::NegZ)
            } else {
                None
            }
        } else {
            None
        }
    }
}

/// The joint kind denoted by a label: `revolute`, `continuous`,
/// `prismatic` or `fixed`, exactly. Anything else denotes no kind.
pub open spec fn spec_kind_of_label(s: Seq<char>) -> Option<JointKind> {
    if s =~= "revolute"@ {
        Some(JointKind::Revolute)
    } else if s =~= "continuous"@ {
        Some(JointKind::Continuous)
    } else if s =~= "prismatic"@ {
        Some(JointKind::Prismatic)
    } else if s =~= "fixed"@ {
        Some(JointKind::Fixed)
    } else {
        None
    }
}

impl JointKind {
    /// Classifies a joint-kind label.
    pub fn from_label(label: &str) -> (r: Option<JointKind>)
        ensures
            r == spec_kind_of_label(label@),
    {
        proof {
            reveal_strlit("revolute");
            reveal_strlit("continuous");
            reveal_strlit("prismatic");
            reveal_strlit("fixed");
        }
        if str_equals(label, "revolute") {
            Some(JointKind::Revolute)
        } else if str_equals(label, "continuous") {
            Some(JointKind::Continuous)
        } else if str_equals(label, "prismatic") {
            Some(JointKind::Prismatic)
        } else if str_equals(label, "fixed") {
            Some(JointKind::Fixed)
        } else {
            None
        }
    }
}

/// Character-by-character string equality.
fn str_equals(a: &str, b: &str) -> (r: bool)
    ensures
        r == (a@ =~= b@),
{
    let n = a.unicode_len();
    if n != b.unicode_len() {
        return false;
    }
    let mut i: usize = 0;
    while i < n
        invariant
            n == a@.len(),
            n == b@.len(),
            0 <= i <= n,
            forall|q: int| 0 <= q < i ==> a@[q] == b@[q],
        decreases n - i,
    {
        if a.get_char(i) != b.get_char(i) {
            return false;
        }
        i = i + 1;
    }
    true
}

/// One joint descriptor: its kind, its signed local axis, and whether the
/// static rotation offset preceding it is non-identity (the traversal skips
/// the offset multiplication otherwise). The static translation and the
/// offset rotation themselves are numeric data and stay with the numeric
/// layer, at the same position of its own descriptor list.
#[derive(Clone, Copy, Debug, PartialEq, Eq, Structural)]
pub struct JointDesc {
    pub kind: JointKind,
    pub axis: Axis,
    pub has_rot_offset: bool,
}

/// An ordered sequence of joint descriptors, immutable after construction.
#[derive(Clone, Debug, PartialEq, Eq)]
pub struct Chain {
    pub joints: Vec<JointDesc>,
}

/// The number of articulated joints among the first `i` descriptors.
pub open spec fn dof_count_prefix(joints: Seq<JointDesc>, i: int) -> int
    decreases i,
{
    if i <= 0 {
        0
    } else {
        dof_count_prefix(joints, i - 1)
            + if joints[i - 1].kind.spec_is_articulated() {
                1int
            } else {
                0int
            }
    }
}

impl Chain {
    /// The number of degrees of freedom: one per articulated joint.
    pub open spec fn spec_num_dof(self) -> int {
        dof_count_prefix(self.joints@, self.joints@.len() as int)
    }

    /// Index into the chain's joint vector consumed by descriptor `i`
    /// (meaningful when descriptor `i` is articulated): the number of
    /// articulated descriptors before it.
    pub open spec fn spec_joint_value_index(self, i: int) -> int {
        dof_count_prefix(self.joints@, i)
    }

    pub fn new(joints: Vec<JointDesc>) -> (r: Chain)
        ensures
            r.joints@ == joints@,
    {
        Chain { joints }
    }

    pub fn len(&self) -> (r: usize)
        ensures
            r == self.joints@.len(),
    {
        self.joints.len()
    }

    /// Counts the degrees of freedom of the chain.
    pub fn num_dof(&self) -> (r: usize)
        ensures
            r == self.spec_num_dof(),
    {
        let mut count: usize = 0;
        let mut i: usize = 0;
        while i < self.joints.len()
            invariant
                0 <= i <= self.joints@.len(),
                count == dof_count_prefix(self.joints@, i as int),
                count <= i,
            decreases self.joints@.len() - i,
        {
            if self.joints[i].kind.is_articulated() {
                count = count + 1;
            }
            i = i + 1;
        }
        count
    }

    /// For each descriptor, the joint-vector index it consumes, or `None`
    /// for a fixed joint. Articulated descriptors consume indices
    /// `0, 1, 2, ...` in traversal order.
    pub fn joint_value_indices(&self) -> (r: Vec<Option<usize>>)
        ensures
            r@.len() == self.joints@.len(),
            forall|i: int|
                0 <= i < r@.len() ==> r@[i] == (if self.joints@[i].kind.spec_is_articulated() {
                    Some(self.spec_joint_value_index(i) as usize)
                } else {
                    None::<usize>
                }),
    {
        let mut out: Vec<Option<usize>> = Vec::new();
        let mut next: usize = 0;
        let mut i: usize = 0;
        while i < self.joints.len()
            invariant
                0 <= i <= self.joints@.len(),
                out@.len() == i,
                next == dof_count_prefix(self.joints@, i as int),
                next <= i,
                forall|j: int|
                    0 <= j < i ==> out@[j] == (if self.joints@[j].kind.spec_is_articulated() {
                        Some(dof_count_prefix(self.joints@, j) as usize)
                    } else {
                        None::<usize>
                    }),
            decreases self.joints@.len() - i,
        {
            if self.joints[i].kind.is_articulated() {
                out.push(Some(next));
                next = next + 1;
            } else {
                out.push(None);
            }
            i = i + 1;
        }
        out
    }

    /// Number of frame positions the forward-kinematics pass produces: a
    /// leading identity frame plus one frame per descriptor.
    pub fn frame_position_count(&self) -> (r: usize)
        requires
            self.joints@.len() < usize::MAX,
        ensures
            r == self.joints@.len() + 1,
    {
        self.joints.len() + 1
    }

    /// Number of frame orientations produced: one more than positions, the
    /// trailing entry mirroring the final orientation.
    pub fn frame_orientation_count(&self) -> (r: usize)
        requires
            self.joints@.len() + 1 < usize::MAX,
        ensures
            r == self.joints@.len() + 2,
    {
        self.joints.len() + 2
    }
}

/// The degree-of-freedom count of a prefix never exceeds its length and
/// grows monotonically with the prefix.
pub proof fn lemma_dof_count_prefix_bounds(joints: Seq<JointDesc>, i: int)
    requires
        0 <= i <= joints.len(),
    ensures
        0 <= dof_count_prefix(joints, i) <= i,
    decreases i,
{
    if i > 0 {
        lemma_dof_count_prefix_bounds(joints, i - 1);
    }
}

} // verus!
