use ants::ant::{weakest_of, Ant, AntState, AntTuning};
use ants::marker::{Marker, MarkerType};
use ants::marker_map::MarkerMap;
use ants::vector::Vector;

fn tuning(drop_rate: u64) -> AntTuning {
    AntTuning::new(10, 200, 50, 5, 30, drop_rate).unwrap()
}

fn ant_at(x: i64, y: i64, drop_rate: u64) -> Ant {
    let mut a = Ant::new(Vector::new(x, y), tuning(drop_rate));
    a.desired_wander_dir = Vector::new(1000, 0);
    a
}

#[test]
fn tuning_rejects_invalid_values() {
    assert!(AntTuning::new(10, 200, 50, 5, 30, 0).is_none());
    assert!(AntTuning::new(10, 2_000_000, 50, 5, 30, 1).is_none());
    assert!(AntTuning::new(10, 200, 2_000_000_000, 5, 30, 1).is_none());
    assert!(AntTuning::new(10, 200, 50, 5, 30, 1).is_some());
}

#[test]
fn new_ant_wanders_from_its_position() {
    let a = Ant::new(Vector::new(4, -4), tuning(2));
    assert_eq!(a.state, AntState::Wander);
    assert_eq!(a.pos, Vector::new(4, -4));
    assert_eq!(a.ticks_since_marker, 0);
    let d = a.desired_wander_dir;
    let sq = d.x * d.x + d.y * d.y;
    assert!(sq <= 1_000_000 && sq >= 996 * 996);
}

#[test]
fn random_headings_are_unit_directions() {
    for h in ants::random::random_headings(50) {
        let sq = h.x * h.x + h.y * h.y;
        assert!(sq <= 1_000_000 && sq >= 996 * 996);
    }
}

#[test]
fn wrap_screen_moves_to_opposite_edge() {
    let mut a = ant_at(-1, 50, 1);
    a.wrap_screen((100, 80));
    assert_eq!(a.pos, Vector::new(100, 50));
    a.set_pos(Vector::new(101, -3));
    a.wrap_screen((100, 80));
    assert_eq!(a.pos, Vector::new(0, 80));
    a.set_pos(Vector::new(40, 80));
    a.wrap_screen((100, 80));
    assert_eq!(a.pos, Vector::new(40, 80));
}

#[test]
fn deposit_cadence_one_marker_every_k_ticks() {
    let mut a = ant_at(0, 0, 3);
    let mut m = MarkerMap::new(100, 1);
    let mut laid_at = Vec::new();
    for tick in 1..=9 {
        let before = m.len();
        a.drop_marker_if_due(MarkerType::Explore, &mut m);
        if m.len() > before {
            laid_at.push(tick);
        }
    }
    assert_eq!(laid_at, vec![3, 6, 9]);
    assert_eq!(a.ticks_since_marker, 0);
}

#[test]
fn deposit_every_tick_with_rate_one() {
    let mut a = ant_at(5, 6, 1);
    let mut m = MarkerMap::new(100, 1);
    a.drop_marker_if_due(MarkerType::Return, &mut m);
    a.drop_marker_if_due(MarkerType::Return, &mut m);
    assert_eq!(m.len(), 2);
    assert_eq!(
        m.get_markers()[0],
        Marker::new(MarkerType::Return, Vector::new(5, 6), 100)
    );
}

#[test]
fn move_to_heads_for_target_at_speed() {
    let mut a = ant_at(0, 0, 1);
    a.move_to(Vector::new(30, 40));
    assert_eq!(a.velocity, Vector::new(6, 8));
    assert_eq!(a.pos, Vector::new(6, 8));
}

#[test]
fn target_state_steps_toward_target() {
    let mut a = ant_at(0, 0, 1);
    a.state = AntState::Target;
    a.target = Vector::new(0, -100);
    let m = MarkerMap::new(100, 1);
    a.update_with_heading(&m, Vector::new(0, 1000));
    assert_eq!(a.pos, Vector::new(0, -10));
    assert_eq!(a.state, AntState::Target);
}

#[test]
fn wander_blends_heading_and_moves() {
    let mut a = ant_at(0, 0, 1);
    let m = MarkerMap::new(100, 1);
    a.update_with_heading(&m, Vector::new(0, 1000));
    // (1000 * 1000, 1000 * 200) normalised: length 1019803, so (980, 196).
    assert_eq!(a.desired_wander_dir, Vector::new(980, 196));
    assert_eq!(a.velocity, Vector::new(9, 1));
    assert_eq!(a.pos, Vector::new(9, 1));
}

#[test]
fn wander_keeps_direction_when_blend_cancels() {
    let t = AntTuning::new(10, 1000, 50, 5, 30, 1).unwrap();
    let mut a = Ant::new(Vector::new(0, 0), t);
    a.desired_wander_dir = Vector::new(1000, 0);
    a.wander(Vector::new(-1000, 0));
    assert_eq!(a.desired_wander_dir, Vector::new(1000, 0));
    assert_eq!(a.pos, Vector::new(10, 0));
}

#[test]
fn weakest_marker_is_selected() {
    let near = vec![
        Marker::new(MarkerType::Explore, Vector::new(1, 0), 90),
        Marker::new(MarkerType::Explore, Vector::new(2, 0), 40),
        Marker::new(MarkerType::Explore, Vector::new(3, 0), 10),
    ];
    assert_eq!(weakest_of(&near, MarkerType::Explore), Some(2));
    assert_eq!(weakest_of(&near, MarkerType::Return), None);
    let tied = vec![
        Marker::new(MarkerType::Return, Vector::new(1, 0), 40),
        Marker::new(MarkerType::Explore, Vector::new(2, 0), 5),
        Marker::new(MarkerType::Return, Vector::new(3, 0), 40),
    ];
    assert_eq!(weakest_of(&tied, MarkerType::Return), Some(0));
}

#[test]
fn trail_following_targets_least_intense_marker() {
    // Intensities 10 (far), 40 and 90 (near): the ant must head for the
    // weakest one, not the closest or the strongest.
    let mut m = MarkerMap::new(100, 10);
    m.add_marker(MarkerType::Explore, Vector::new(-20, 0));
    for _ in 0..3 {
        m.update();
    }
    m.add_marker(MarkerType::Explore, Vector::new(0, 15));
    for _ in 0..5 {
        m.update();
    }
    m.add_marker(MarkerType::Explore, Vector::new(5, 0));
    m.update();
    let levels: Vec<u64> = m.get_markers().iter().map(|k| k.intensity).collect();
    assert_eq!(levels, vec![10, 40, 90]);
    let mut a = ant_at(0, 0, 1);
    a.state = AntState::FollowExplore;
    a.update_with_heading(&m, Vector::new(0, 1000));
    assert_eq!(a.velocity, Vector::new(-10, 0));
    assert_eq!(a.pos, Vector::new(-10, 0));
    assert_eq!(a.state, AntState::FollowExplore);
}

#[test]
fn trail_loss_falls_back_to_wander() {
    let mut m = MarkerMap::new(100, 1);
    m.add_marker(MarkerType::Return, Vector::new(3, 0));
    m.add_marker(MarkerType::Explore, Vector::new(500, 0));
    let mut a = ant_at(0, 0, 1);
    a.state = AntState::FollowExplore;
    a.follow_marker(MarkerType::Explore, &m, Vector::new(1000, 0));
    assert_eq!(a.state, AntState::Wander);
    assert_eq!(a.pos, Vector::new(10, 0));
}

#[test]
fn follow_return_uses_return_markers() {
    let mut m = MarkerMap::new(100, 1);
    m.add_marker(MarkerType::Explore, Vector::new(0, 20));
    m.add_marker(MarkerType::Return, Vector::new(0, -20));
    let mut a = ant_at(0, 0, 1);
    a.state = AntState::FollowReturn;
    a.update(&m);
    assert_eq!(a.pos, Vector::new(0, -10));
    assert_eq!(a.state, AntState::FollowReturn);
}

#[test]
fn set_pos_and_grid_cell() {
    let mut a = ant_at(0, 0, 1);
    a.set_pos(Vector::new(55, 5));
    assert_eq!(a.pos, Vector::new(55, 5));
    assert_eq!(a.map_pos_to_grid((10, 10), (100, 100)), (5, 0));
}
