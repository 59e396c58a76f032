use relaxed_ik_core::chain::{Axis, Chain, JointDesc, JointKind};
use relaxed_ik_core::robot::Robot;
use relaxed_ik_core::scalar::Scalar;
use relaxed_ik_core::solver::{GoalError, RelaxedIK};
use relaxed_ik_core::vars::{Quat, RelaxedIKVars, Vec3};

fn s(v: f64) -> Scalar {
    Scalar::new(v.to_bits())
}

fn revolute(axis: Axis) -> JointDesc {
    JointDesc { kind: JointKind::Revolute, axis, has_rot_offset: false }
}

fn one_chain_solver(dof: usize) -> RelaxedIK {
    let mut joints = Vec::new();
    let axes = [Axis::Z, Axis::Y, Axis::Y, Axis::Y, Axis::Z, Axis::Y];
    for i in 0..dof {
        joints.push(revolute(axes[i % axes.len()]));
    }
    let chain = Chain::new(joints);
    let lower = vec![s(-3.14); dof];
    let upper = vec![s(3.14); dof];
    let robot = Robot::new(vec![chain], lower, upper).unwrap();
    let start = vec![s(0.0); dof];
    let ee_pos = vec![Vec3 { x: s(0.3), y: s(0.0), z: s(0.6) }];
    let ee_quat = vec![Quat { w: s(1.0), x: s(0.0), y: s(0.0), z: s(0.0) }];
    let vars = RelaxedIKVars::new(robot, start, ee_pos, ee_quat).unwrap();
    RelaxedIK::new(vars)
}

#[test]
fn vars_construction_seeds_history_and_goals() {
    let ik = one_chain_solver(6);
    assert_eq!(ik.vars.xopt, vec![s(0.0); 6]);
    assert_eq!(ik.vars.prev_state3, vec![s(0.0); 6]);
    assert_eq!(ik.vars.goal_positions, vec![Vec3 { x: s(0.3), y: s(0.0), z: s(0.6) }]);
    assert_eq!(ik.vars.tolerances[0].linear.x.bits, 0);
    assert_eq!(ik.warm_start(), vec![s(0.0); 6]);
}

#[test]
fn goal_staging_groups_the_flat_arrays() {
    let mut ik = one_chain_solver(6);
    let pos = vec![s(0.1), s(0.2), s(0.3)];
    // Orientation arrives in x, y, z, w order.
    let quat = vec![s(0.0), s(0.0), s(0.0), s(1.0)];
    let tol = vec![s(0.01), s(0.02), s(0.03), s(0.04), s(0.05), s(0.06)];
    assert_eq!(ik.set_position_goals(&pos, &quat, &tol), Ok(()));
    assert_eq!(ik.vars.goal_positions[0], Vec3 { x: s(0.1), y: s(0.2), z: s(0.3) });
    // Stored as w, x, y, z.
    assert_eq!(ik.vars.goal_quats[0], Quat { w: s(1.0), x: s(0.0), y: s(0.0), z: s(0.0) });
    assert_eq!(ik.vars.tolerances[0].linear, Vec3 { x: s(0.01), y: s(0.02), z: s(0.03) });
    assert_eq!(ik.vars.tolerances[0].angular, Vec3 { x: s(0.04), y: s(0.05), z: s(0.06) });
}

#[test]
fn goal_staging_rejects_wrong_lengths_in_order() {
    let mut ik = one_chain_solver(6);
    let good_pos = vec![s(0.0); 3];
    let good_quat = vec![s(0.0); 4];
    let good_tol = vec![s(0.0); 6];
    assert_eq!(
        ik.set_position_goals(&vec![s(0.0); 2], &good_quat, &good_tol),
        Err(GoalError::PositionGoalLength)
    );
    assert_eq!(
        ik.set_position_goals(&good_pos, &vec![s(0.0); 5], &good_tol),
        Err(GoalError::OrientationGoalLength)
    );
    assert_eq!(
        ik.set_position_goals(&good_pos, &good_quat, &vec![s(0.0); 7]),
        Err(GoalError::ToleranceLength)
    );
    // A rejected update leaves the previous goals in place.
    assert_eq!(ik.vars.goal_positions[0], Vec3 { x: s(0.3), y: s(0.0), z: s(0.6) });
}

#[test]
fn finite_candidate_is_committed_and_history_shifts() {
    let mut ik = one_chain_solver(3);
    let first = vec![s(0.1), s(0.2), s(0.3)];
    let out = ik.commit_candidate(first.clone());
    assert_eq!(out, first);
    assert_eq!(ik.vars.xopt, first);
    assert_eq!(ik.vars.prev_state, vec![s(0.0); 3]);

    let second = vec![s(0.2), s(0.3), s(0.4)];
    let out = ik.commit_candidate(second.clone());
    assert_eq!(out, second);
    assert_eq!(ik.vars.xopt, second);
    assert_eq!(ik.vars.prev_state, first);
    assert_eq!(ik.vars.prev_state2, vec![s(0.0); 3]);
}

#[test]
fn nan_candidate_returns_previous_state_unchanged() {
    let mut ik = one_chain_solver(3);
    let good = vec![s(0.5), s(0.6), s(0.7)];
    ik.commit_candidate(good.clone());

    let bad = vec![s(0.9), s(f64::NAN), s(1.1)];
    let out = ik.commit_candidate(bad);
    assert_eq!(out, good);
    assert_eq!(ik.vars.xopt, good);
    // History did not advance.
    assert_eq!(ik.vars.prev_state, vec![s(0.0); 3]);
}

#[test]
fn infinite_candidate_is_rejected_too() {
    let mut ik = one_chain_solver(2);
    let out = ik.commit_candidate(vec![s(f64::INFINITY), s(0.0)]);
    assert_eq!(out, vec![s(0.0); 2]);
    assert_eq!(ik.vars.xopt, vec![s(0.0); 2]);
}

#[test]
fn reset_clears_history_and_caches_new_poses() {
    let mut ik = one_chain_solver(3);
    ik.commit_candidate(vec![s(0.1), s(0.2), s(0.3)]);
    ik.commit_candidate(vec![s(0.4), s(0.5), s(0.6)]);
    let fresh = vec![s(1.0), s(1.1), s(1.2)];
    let pos = vec![Vec3 { x: s(9.0), y: s(8.0), z: s(7.0) }];
    let quat = vec![Quat { w: s(0.0), x: s(1.0), y: s(0.0), z: s(0.0) }];
    assert!(ik.reset(fresh.clone(), pos.clone(), quat));
    assert_eq!(ik.vars.xopt, fresh);
    assert_eq!(ik.vars.prev_state, fresh);
    assert_eq!(ik.vars.prev_state2, fresh);
    assert_eq!(ik.vars.prev_state3, fresh);
    assert_eq!(ik.vars.init_ee_positions, pos);
}

#[test]
fn reset_rejects_a_non_finite_vector() {
    let mut ik = one_chain_solver(2);
    let pos = vec![Vec3 { x: s(0.0), y: s(0.0), z: s(0.0) }];
    let quat = vec![Quat { w: s(1.0), x: s(0.0), y: s(0.0), z: s(0.0) }];
    assert!(!ik.reset(vec![s(0.0), s(f64::NAN)], pos, quat));
    assert_eq!(ik.vars.xopt, vec![s(0.0); 2]);
}

#[test]
fn goal_positions_flatten_in_chain_order() {
    let mut ik = one_chain_solver(6);
    let pos = vec![s(0.25), s(0.5), s(0.75)];
    let quat = vec![s(0.0), s(0.0), s(0.0), s(1.0)];
    let tol = vec![s(0.0); 6];
    ik.set_position_goals(&pos, &quat, &tol).unwrap();
    assert_eq!(ik.goal_positions_flat(), pos);
}

#[test]
fn replaying_identical_inputs_replays_identical_outputs() {
    let run = || {
        let mut ik = one_chain_solver(3);
        let mut outputs = Vec::new();
        for step in 0..4u32 {
            let v = f64::from(step) * 0.125;
            let candidate = vec![s(v), s(v + 0.5), s(v + 1.0)];
            outputs.push(ik.commit_candidate(candidate));
        }
        outputs
    };
    let a = run();
    let b = run();
    assert_eq!(a, b);
}

#[test]
fn chain_goal_replacement_touches_one_chain_only() {
    let mut ik = one_chain_solver(6);
    let position = Vec3 { x: s(1.0), y: s(2.0), z: s(3.0) };
    let orientation = Quat { w: s(0.5), x: s(0.5), y: s(0.5), z: s(0.5) };
    let history_before = ik.vars.xopt.clone();
    ik.set_chain_goal(0, position, orientation);
    assert_eq!(ik.vars.goal_positions[0], position);
    assert_eq!(ik.vars.goal_quats[0], orientation);
    assert_eq!(ik.vars.xopt, history_before);
}

#[test]
fn goal_errors_carry_distinct_messages() {
    let msgs = [
        GoalError::PositionGoalLength.message(),
        GoalError::OrientationGoalLength.message(),
        GoalError::ToleranceLength.message(),
    ];
    for m in &msgs {
        assert!(!m.is_empty());
    }
    assert_ne!(msgs[0], msgs[1]);
    assert_ne!(msgs[1], msgs[2]);
    assert_ne!(msgs[0], msgs[2]);
}

#[test]
fn two_chain_goal_staging_indexes_per_chain() {
    let a = Chain::new(vec![revolute(Axis::Z), revolute(Axis::Y)]);
    let b = Chain::new(vec![revolute(Axis::X), revolute(Axis::Y), revolute(Axis::Z)]);
    let lower = vec![s(-1.0); 5];
    let upper = vec![s(1.0); 5];
    let robot = Robot::new(vec![a, b], lower, upper).unwrap();
    let vars = RelaxedIKVars::new(
        robot,
        vec![s(0.0); 5],
        vec![Vec3 { x: s(0.0), y: s(0.0), z: s(0.0) }; 2],
        vec![Quat { w: s(1.0), x: s(0.0), y: s(0.0), z: s(0.0) }; 2],
    )
    .unwrap();
    let mut ik = RelaxedIK::new(vars);
    let pos = vec![s(1.0), s(2.0), s(3.0), s(4.0), s(5.0), s(6.0)];
    let quat = vec![s(0.1), s(0.2), s(0.3), s(0.4), s(0.5), s(0.6), s(0.7), s(0.8)];
    let tol = vec![s(0.0); 12];
    assert_eq!(ik.set_position_goals(&pos, &quat, &tol), Ok(()));
    assert_eq!(ik.vars.goal_positions[1], Vec3 { x: s(4.0), y: s(5.0), z: s(6.0) });
    assert_eq!(ik.vars.goal_quats[1], Quat { w: s(0.8), x: s(0.5), y: s(0.6), z: s(0.7) });
    assert_eq!(ik.goal_positions_flat(), pos);
}
