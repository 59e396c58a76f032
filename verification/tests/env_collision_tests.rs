use relaxed_ik_core::env_collision::{
    select_top_obstacles, CollisionObjectData, LinkData, ObstacleInfo, ObstacleScore,
    ProximityStatus, RelaxedIKEnvCollision,
};

fn obstacle(name: &str, is_dynamic: bool) -> ObstacleInfo {
    ObstacleInfo { name: name.to_string(), is_dynamic }
}

fn tracker() -> RelaxedIKEnvCollision {
    RelaxedIKEnvCollision::init_collision_world(
        vec![5, 3],
        vec![obstacle("table", false), obstacle("ball", true), obstacle("box", true)],
    )
}

#[test]
fn collision_object_data_keeps_its_fields() {
    let data = CollisionObjectData::new("Link 2".to_string(), LinkData::new(true, 0));
    assert_eq!(data.name, "Link 2");
    assert!(data.link_data.is_link);
    assert_eq!(data.link_data.arm_idx, 0);
}

#[test]
fn fresh_tracker_has_no_active_pair() {
    let t = tracker();
    for o in 0..3 {
        assert!(!t.is_active(0, o));
        assert!(!t.is_active(1, o));
    }
}

#[test]
fn within_margin_adds_and_disjoint_prunes() {
    let mut t = tracker();
    t.process_proximity_event(0, 1, 2, ProximityStatus::WithinMargin);
    t.process_proximity_event(0, 1, 4, ProximityStatus::Intersecting);
    assert!(t.is_active(0, 1));
    assert_eq!(t.active_links(0, 1), vec![2, 4]);
    // The other chain and obstacles are untouched.
    assert!(!t.is_active(0, 0));
    assert!(!t.is_active(1, 1));

    t.process_proximity_event(0, 1, 2, ProximityStatus::Disjoint);
    assert_eq!(t.active_links(0, 1), vec![4]);
    assert!(t.is_active(0, 1));

    // Removing the last link prunes the obstacle from the map.
    t.process_proximity_event(0, 1, 4, ProximityStatus::Disjoint);
    assert!(!t.is_active(0, 1));
    assert_eq!(t.active_links(0, 1), Vec::<usize>::new());
}

#[test]
fn repeated_transitions_are_idempotent() {
    let mut t = tracker();
    t.process_proximity_event(1, 2, 0, ProximityStatus::WithinMargin);
    t.process_proximity_event(1, 2, 0, ProximityStatus::WithinMargin);
    assert_eq!(t.active_links(1, 2), vec![0]);
    t.process_proximity_event(1, 2, 0, ProximityStatus::Disjoint);
    t.process_proximity_event(1, 2, 0, ProximityStatus::Disjoint);
    assert!(!t.is_active(1, 2));
}

#[test]
fn dynamic_obstacles_are_found_by_name() {
    let t = tracker();
    assert_eq!(t.find_dynamic_obstacle(&"ball".to_string()), Some(1));
    assert_eq!(t.find_dynamic_obstacle(&"box".to_string()), Some(2));
    // A static obstacle is not addressable as dynamic.
    assert_eq!(t.find_dynamic_obstacle(&"table".to_string()), None);
    assert_eq!(t.find_dynamic_obstacle(&"nothing".to_string()), None);
}

#[test]
fn first_dynamic_match_wins() {
    let t = RelaxedIKEnvCollision::init_collision_world(
        vec![2],
        vec![obstacle("ball", true), obstacle("ball", true)],
    );
    assert_eq!(t.find_dynamic_obstacle(&"ball".to_string()), Some(0));
}

#[test]
fn top_selection_orders_by_key_descending() {
    let scores = vec![
        ObstacleScore { key: 10, handle: 0 },
        ObstacleScore { key: 30, handle: 1 },
        ObstacleScore { key: 20, handle: 2 },
    ];
    let picked = select_top_obstacles(&scores, 2);
    assert_eq!(
        picked,
        vec![ObstacleScore { key: 30, handle: 1 }, ObstacleScore { key: 20, handle: 2 }]
    );
}

#[test]
fn top_selection_breaks_ties_by_smaller_handle() {
    let scores = vec![
        ObstacleScore { key: 20, handle: 7 },
        ObstacleScore { key: 20, handle: 3 },
        ObstacleScore { key: 20, handle: 5 },
    ];
    let picked = select_top_obstacles(&scores, 2);
    assert_eq!(
        picked,
        vec![ObstacleScore { key: 20, handle: 3 }, ObstacleScore { key: 20, handle: 5 }]
    );
}

#[test]
fn top_selection_is_independent_of_input_order() {
    let a = vec![
        ObstacleScore { key: 5, handle: 2 },
        ObstacleScore { key: 9, handle: 0 },
        ObstacleScore { key: 5, handle: 1 },
        ObstacleScore { key: 1, handle: 3 },
    ];
    let mut b = a.clone();
    b.reverse();
    assert_eq!(select_top_obstacles(&a, 3), select_top_obstacles(&b, 3));
    assert_eq!(
        select_top_obstacles(&a, 3),
        vec![
            ObstacleScore { key: 9, handle: 0 },
            ObstacleScore { key: 5, handle: 1 },
            ObstacleScore { key: 5, handle: 2 },
        ]
    );
}

#[test]
fn asking_for_more_than_exists_returns_everything_sorted() {
    let scores = vec![
        ObstacleScore { key: 2, handle: 1 },
        ObstacleScore { key: 4, handle: 0 },
    ];
    let picked = select_top_obstacles(&scores, 10);
    assert_eq!(
        picked,
        vec![ObstacleScore { key: 4, handle: 0 }, ObstacleScore { key: 2, handle: 1 }]
    );
    assert_eq!(select_top_obstacles(&scores, 0), Vec::<ObstacleScore>::new());
}
