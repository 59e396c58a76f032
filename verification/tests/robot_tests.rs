use relaxed_ik_core::chain::{Axis, Chain, JointDesc, JointKind};
use relaxed_ik_core::robot::{Robot, UNBOUNDED_LOWER_BITS, UNBOUNDED_UPPER_BITS};
use relaxed_ik_core::scalar::Scalar;

fn s(v: f64) -> Scalar {
    Scalar::new(v.to_bits())
}

fn joint(kind: JointKind, axis: Axis) -> JointDesc {
    JointDesc { kind, axis, has_rot_offset: false }
}

fn six_dof_chain() -> Chain {
    Chain::new(vec![
        joint(JointKind::Revolute, Axis::Z),
        joint(JointKind::Revolute, Axis::Y),
        joint(JointKind::Revolute, Axis::Y),
        joint(JointKind::Revolute, Axis::Y),
        joint(JointKind::Revolute, Axis::Z),
        joint(JointKind::Revolute, Axis::Y),
    ])
}

#[test]
fn dof_count_skips_fixed_joints() {
    let chain = Chain::new(vec![
        joint(JointKind::Fixed, Axis::X),
        joint(JointKind::Revolute, Axis::Z),
        joint(JointKind::Prismatic, Axis::Y),
        joint(JointKind::Fixed, Axis::X),
        joint(JointKind::Continuous, Axis::NegZ),
    ]);
    assert_eq!(chain.num_dof(), 3);
    assert_eq!(
        chain.joint_value_indices(),
        vec![None, Some(0), Some(1), None, Some(2)]
    );
}

#[test]
fn frame_counts_follow_the_descriptor_list() {
    let chain = six_dof_chain();
    assert_eq!(chain.frame_position_count(), 7);
    assert_eq!(chain.frame_orientation_count(), 8);
}

#[test]
fn robot_assigns_consecutive_index_runs() {
    let a = Chain::new(vec![
        joint(JointKind::Revolute, Axis::Z),
        joint(JointKind::Fixed, Axis::X),
        joint(JointKind::Revolute, Axis::Y),
    ]);
    let b = Chain::new(vec![
        joint(JointKind::Revolute, Axis::X),
        joint(JointKind::Prismatic, Axis::Z),
        joint(JointKind::Revolute, Axis::NegY),
    ]);
    let limits = vec![s(-1.0); 5];
    let robot = Robot::new(vec![a, b], limits.clone(), limits).unwrap();
    assert_eq!(robot.num_chains, 2);
    assert_eq!(robot.num_dofs, 5);
    assert_eq!(robot.chain_lengths, vec![2, 3]);
    assert_eq!(robot.chain_indices, vec![vec![0, 1], vec![2, 3, 4]]);
}

#[test]
fn robot_rejects_limit_vectors_of_the_wrong_length() {
    let a = six_dof_chain();
    let limits = vec![s(-1.0); 5];
    assert!(Robot::new(vec![a], limits.clone(), limits).is_none());
}

#[test]
fn split_gathers_each_chains_slice() {
    let a = Chain::new(vec![
        joint(JointKind::Revolute, Axis::Z),
        joint(JointKind::Revolute, Axis::Y),
    ]);
    let b = Chain::new(vec![joint(JointKind::Revolute, Axis::X)]);
    let limits = vec![s(-999.0), s(-1.0), s(-2.0)];
    let uppers = vec![s(999.0), s(1.0), s(2.0)];
    let robot = Robot::new(vec![a, b], limits, uppers).unwrap();
    let x = vec![s(0.25), s(0.5), s(0.75)];
    let parts = robot.split_into_subchains(&x);
    assert_eq!(parts, vec![vec![s(0.25), s(0.5)], vec![s(0.75)]]);
}

#[test]
fn sentinel_pair_marks_unbounded_joints() {
    let a = Chain::new(vec![
        joint(JointKind::Continuous, Axis::Z),
        joint(JointKind::Revolute, Axis::Y),
    ]);
    let lower = vec![s(-999.0), s(-1.0)];
    let upper = vec![s(999.0), s(1.0)];
    assert_eq!((-999.0f64).to_bits(), UNBOUNDED_LOWER_BITS);
    assert_eq!((999.0f64).to_bits(), UNBOUNDED_UPPER_BITS);
    let robot = Robot::new(vec![a], lower, upper).unwrap();
    assert!(robot.joint_is_unbounded(0));
    assert!(!robot.joint_is_unbounded(1));
}

#[test]
fn axis_labels_classify_like_the_descriptor_table() {
    assert_eq!(Axis::from_label("x"), Some(Axis::X));
    assert_eq!(Axis::from_label("X"), Some(Axis::X));
    assert_eq!(Axis::from_label("y"), Some(Axis::Y));
    assert_eq!(Axis::from_label("Z"), Some(Axis::Z));
    assert_eq!(Axis::from_label("-x"), Some(Axis::NegX));
    assert_eq!(Axis::from_label("-y"), Some(Axis::NegY));
    assert_eq!(Axis::from_label("-z"), Some(Axis::NegZ));
    // Negated axes are written in lower case only.
    assert_eq!(Axis::from_label("-X"), None);
    assert_eq!(Axis::from_label("w"), None);
    assert_eq!(Axis::from_label(""), None);
    assert_eq!(Axis::from_label("xy"), None);
}

#[test]
fn kind_labels_classify_exactly() {
    assert_eq!(JointKind::from_label("revolute"), Some(JointKind::Revolute));
    assert_eq!(JointKind::from_label("continuous"), Some(JointKind::Continuous));
    assert_eq!(JointKind::from_label("prismatic"), Some(JointKind::Prismatic));
    assert_eq!(JointKind::from_label("fixed"), Some(JointKind::Fixed));
    assert_eq!(JointKind::from_label("Revolute"), None);
    assert_eq!(JointKind::from_label("revolute "), None);
    assert_eq!(JointKind::from_label(""), None);
}
