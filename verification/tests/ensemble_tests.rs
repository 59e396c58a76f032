use relaxed_ik_core::objective::{GradientKind, Objective};
use relaxed_ik_core::objective_master::ObjectiveMaster;

#[test]
fn standard_preset_pairs_pose_terms_per_chain() {
    let om = ObjectiveMaster::standard_ik(2);
    assert!(om.lite);
    assert!(om.finite_diff_grad);
    assert_eq!(om.num_chains, 2);
    assert_eq!(om.objectives.len(), 4);
    assert_eq!(om.weight_priors, vec![100, 100, 100, 100]);
    match (&om.objectives[0], &om.objectives[1], &om.objectives[2], &om.objectives[3]) {
        (
            Objective::PosGoals(p0),
            Objective::QuatGoals(q0),
            Objective::PosGoals(p1),
            Objective::QuatGoals(q1),
        ) => {
            assert_eq!(p0.arm_idx, 0);
            assert_eq!(q0.arm_idx, 0);
            assert_eq!(p1.arm_idx, 1);
            assert_eq!(q1.arm_idx, 1);
        }
        _ => panic!("unexpected standard ensemble layout"),
    }
}

#[test]
fn full_preset_lays_out_the_documented_ensemble() {
    // One chain of six degrees of freedom.
    let om = ObjectiveMaster::relaxed_ik(&vec![6]);
    assert!(!om.lite);
    assert!(!om.finite_diff_grad);
    // 6 pose terms, 6 joint-limit terms, 4 motion terms, C(5,2)-adjacent
    // pairs: (j,k) with k >= j+2, j in 0..4 -> 4+3+2+1 = 10 pairs.
    assert_eq!(om.objectives.len(), 6 + 6 + 4 + 10);
    assert_eq!(om.weight_priors.len(), om.objectives.len());

    // Pose terms: three position axes at 50.0, three orientation axes at 10.0
    // (weights carried in hundredths).
    for axis in 0..3 {
        match &om.objectives[axis] {
            Objective::PosiDoF(p) => {
                assert_eq!(p.arm_idx, 0);
                assert_eq!(p.axis, axis);
            }
            other => panic!("expected position term, got {other:?}"),
        }
        assert_eq!(om.weight_priors[axis], 5000);
    }
    for axis in 0..3 {
        match &om.objectives[3 + axis] {
            Objective::RotaDoF(p) => {
                assert_eq!(p.arm_idx, 0);
                assert_eq!(p.axis, axis);
            }
            other => panic!("expected orientation term, got {other:?}"),
        }
        assert_eq!(om.weight_priors[3 + axis], 1000);
    }

    // Joint limits at 0.1 per degree of freedom.
    for j in 0..6 {
        match &om.objectives[6 + j] {
            Objective::JointLimits(p) => assert_eq!(p.joint_idx, j),
            other => panic!("expected joint-limit term, got {other:?}"),
        }
        assert_eq!(om.weight_priors[6 + j], 10);
    }

    // Velocity 0.7, acceleration 0.5, jerk 0.3, manipulability 1.0.
    assert!(matches!(om.objectives[12], Objective::Velocity(_)));
    assert!(matches!(om.objectives[13], Objective::Acceleration(_)));
    assert!(matches!(om.objectives[14], Objective::Jerk(_)));
    assert!(matches!(om.objectives[15], Objective::Manipulability(_)));
    assert_eq!(&om.weight_priors[12..16], &[70, 50, 30, 100]);

    // Self-collision pairs in row order at 0.01 each.
    let mut expected = Vec::new();
    for j in 0..4usize {
        for k in (j + 2)..6usize {
            expected.push((j, k));
        }
    }
    for (n, (j, k)) in expected.into_iter().enumerate() {
        match &om.objectives[16 + n] {
            Objective::SelfColl(p) => {
                assert_eq!(p.arm_idx, 0);
                assert_eq!(p.first_link, j);
                assert_eq!(p.second_link, k);
            }
            other => panic!("expected self-collision term, got {other:?}"),
        }
        assert_eq!(om.weight_priors[16 + n], 1);
    }
}

#[test]
fn full_preset_numbers_limits_across_chains() {
    let om = ObjectiveMaster::relaxed_ik(&vec![2, 3]);
    // 12 pose terms, then limits 0..5 across both chains.
    for j in 0..5 {
        match &om.objectives[12 + j] {
            Objective::JointLimits(p) => assert_eq!(p.joint_idx, j),
            other => panic!("expected joint-limit term, got {other:?}"),
        }
    }
    // Chain of length 2 contributes no self-collision pair; chain of
    // length 3 contributes exactly (0, 2).
    let tail: Vec<_> = om.objectives[12 + 5 + 4..].to_vec();
    assert_eq!(tail.len(), 1);
    match &tail[0] {
        Objective::SelfColl(p) => {
            assert_eq!(p.arm_idx, 1);
            assert_eq!(p.first_link, 0);
            assert_eq!(p.second_link, 2);
        }
        other => panic!("expected self-collision term, got {other:?}"),
    }
}

#[test]
fn every_primitive_reports_finite_difference_gradients() {
    let om = ObjectiveMaster::relaxed_ik(&vec![3]);
    for o in &om.objectives {
        assert_eq!(o.gradient_kind(), GradientKind::FiniteDiff);
    }
    let fd = om.finite_diff_indices();
    let all: Vec<usize> = (0..om.objectives.len()).collect();
    assert_eq!(fd, all);
}
