use ants::ant::{AntState, AntTuning};
use ants::colony::{mean_position, Colony};
use ants::food::Food;
use ants::marker::MarkerType;
use ants::marker_map::MarkerMap;
use ants::vector::Vector;
use ants::world::World;

fn single_ant_colony(speed: u64) -> Colony {
    let tuning = AntTuning::new(speed, 200, 50, 5, 10, 1).unwrap();
    let mut c = Colony::new(1, Vector::new(0, 0), Vector::new(1, 1), 10, tuning).unwrap();
    c.ants[0].desired_wander_dir = Vector::new(1000, 0);
    c
}

fn east() -> Vec<Vector> {
    vec![Vector::new(1000, 0)]
}

#[test]
fn colony_new_rejects_invalid_setup() {
    let tuning = AntTuning::new(3, 200, 50, 5, 10, 1).unwrap();
    let a = Vector::new(0, 0);
    let b = Vector::new(100, 100);
    assert!(Colony::new(0, a, b, 10, tuning).is_none());
    assert!(Colony::new(3, b, a, 10, tuning).is_none());
    assert!(Colony::new(3, a, b, 2_000_000_000, tuning).is_none());
    let mut bad = tuning;
    bad.marker_drop_rate = 0;
    assert!(Colony::new(3, a, b, 10, bad).is_none());
}

#[test]
fn colony_new_gathers_ants_on_home() {
    let tuning = AntTuning::new(3, 200, 50, 5, 10, 2).unwrap();
    let c = Colony::new(5, Vector::new(10, 20), Vector::new(30, 40), 7, tuning).unwrap();
    assert_eq!(c.ant_count(), 5);
    assert_eq!(c.collected_food_count(), 0);
    let home = c.ant_hill.pos;
    assert!(home.x >= 10 && home.x < 30 && home.y >= 20 && home.y < 40);
    assert!(c.ants.iter().all(|a| a.pos == home && a.state == AntState::Wander));
}

#[test]
fn home_is_mean_of_spawn_points() {
    let tuning = AntTuning::new(3, 200, 50, 5, 10, 2).unwrap();
    let points = vec![Vector::new(1, -10), Vector::new(4, -3), Vector::new(6, 2)];
    assert_eq!(mean_position(&points), Vector::new(3, -3));
    let c = Colony::from_spawn_points(&points, 7, tuning).unwrap();
    assert_eq!(c.ant_hill.pos, Vector::new(3, -3));
    assert_eq!(c.ant_hill.radius, 7);
    assert_eq!(c.ant_count(), 3);
    assert!(c.ants.iter().all(|a| a.pos == Vector::new(3, -3)));
    assert!(Colony::from_spawn_points(&Vec::new(), 7, tuning).is_none());
    assert!(Colony::from_spawn_points(&vec![Vector::new(2_000_000_000, 0)], 7, tuning).is_none());
}

#[test]
fn world_wraps_ants_at_its_edges() {
    let tuning = AntTuning::new(10, 0, 1, 1, 1, 1).unwrap();
    let mut w = World::new(1, (100, 100), 1, tuning, 100, 1).unwrap();
    w.foods.clear();
    w.colony.ants[0].set_pos(Vector::new(95, 50));
    w.colony.ants[0].desired_wander_dir = Vector::new(1000, 0);
    w.update_with_headings(&east());
    assert_eq!(w.colony.ants[0].pos, Vector::new(0, 50));
}

#[test]
fn sensing_food_switches_to_target() {
    let mut c = single_ant_colony(2);
    let mut foods = vec![Food::new(Vector::new(40, 0), 1)];
    let mut m = MarkerMap::new(100, 1);
    c.update_with_headings(&mut foods, &mut m, &east());
    assert_eq!(c.ants[0].state, AntState::Target);
    assert_eq!(c.ants[0].target, Vector::new(40, 0));
    assert_eq!(c.ants[0].pos, Vector::new(2, 0));
    assert_eq!(m.get_markers()[0].marker_type, MarkerType::Explore);
}

#[test]
fn pickup_at_exact_radius_happens_once() {
    let mut c = single_ant_colony(1);
    c.ants[0].state = AntState::Target;
    c.ants[0].target = Vector::new(300, 0);
    c.ants[0].set_pos(Vector::new(295, 0));
    let mut foods = vec![Food::new(Vector::new(300, 0), 3), Food::new(Vector::new(296, 0), 3)];
    let mut m = MarkerMap::new(100, 1);
    c.update_with_headings(&mut foods, &mut m, &east());
    assert_eq!(c.ants[0].state, AntState::FollowExplore);
    assert_eq!(foods[0].remaining, 2);
    assert_eq!(foods[1].remaining, 3);
    c.update_with_headings(&mut foods, &mut m, &east());
    assert_eq!(foods[0].remaining + foods[1].remaining, 5);
    assert_eq!(c.collected_food_count(), 0);
}

#[test]
fn delivery_counts_once_per_round_trip() {
    let mut c = single_ant_colony(1);
    c.ants[0].state = AntState::FollowExplore;
    c.ants[0].set_pos(Vector::new(15, 0));
    let mut foods: Vec<Food> = Vec::new();
    let mut m = MarkerMap::new(100, 1);
    c.update_with_headings(&mut foods, &mut m, &east());
    assert_eq!(c.collected_food_count(), 1);
    assert_eq!(c.ants[0].state, AntState::FollowReturn);
    assert_eq!(m.get_markers()[0].marker_type, MarkerType::Return);
    c.update_with_headings(&mut foods, &mut m, &east());
    assert_eq!(c.collected_food_count(), 1);
}

#[test]
fn homeward_ant_near_home_approaches_directly() {
    let mut c = single_ant_colony(2);
    c.ants[0].state = AntState::FollowExplore;
    c.ants[0].set_pos(Vector::new(0, 40));
    let mut foods = vec![Food::new(Vector::new(0, 41), 5)];
    let mut m = MarkerMap::new(100, 1);
    c.update_with_headings(&mut foods, &mut m, &east());
    assert_eq!(c.ants[0].state, AntState::Home);
    assert_eq!(c.ants[0].target, Vector::new(0, 0));
    assert_eq!(c.ants[0].pos, Vector::new(0, 38));
    assert_eq!(foods[0].remaining, 5);
}

#[test]
fn empty_food_source_is_ignored() {
    let mut c = single_ant_colony(2);
    let mut foods = vec![Food::new(Vector::new(10, 0), 0)];
    let mut m = MarkerMap::new(100, 1);
    c.update_with_headings(&mut foods, &mut m, &east());
    assert_eq!(c.ants[0].state, AntState::Wander);
}

#[test]
fn food_sub_food_stops_at_empty() {
    let mut f = Food::new(Vector::new(0, 0), 1);
    assert!(f.sub_food());
    assert_eq!(f.remaining, 0);
    assert!(!f.sub_food());
    assert_eq!(f.remaining, 0);
}

#[test]
fn center_ants_moves_all_to_home() {
    let mut c = single_ant_colony(2);
    c.ants[0].set_pos(Vector::new(70, -3));
    c.center_ants();
    assert_eq!(c.ants[0].pos, c.ant_hill.pos);
}

#[test]
fn end_to_end_round_trip() {
    let mut c = single_ant_colony(2);
    assert_eq!(c.ants[0].pos, Vector::new(0, 0));
    assert_eq!(c.ant_hill.pos, Vector::new(0, 0));
    let mut foods = vec![Food::new(Vector::new(40, 0), 1)];
    let mut m = MarkerMap::new(1000, 1);
    let mut reached_target = false;
    let mut picked = false;
    for _ in 0..25 {
        c.update_with_headings(&mut foods, &mut m, &east());
        if c.ants[0].state == AntState::Target {
            reached_target = true;
        }
        if foods[0].remaining == 0 {
            picked = true;
            break;
        }
    }
    assert!(reached_target);
    assert!(picked);
    let a = c.ants[0];
    assert!(a.state == AntState::FollowExplore || a.state == AntState::Home);
    assert!(m
        .get_markers()
        .iter()
        .any(|k| k.marker_type == MarkerType::Explore && k.pos.y == 0 && k.pos.x > 0 && k.pos.x < 40));
    for _ in 0..40 {
        if c.collected_food_count() == 1 {
            break;
        }
        c.update_with_headings(&mut foods, &mut m, &east());
    }
    assert_eq!(c.collected_food_count(), 1);
    assert_eq!(c.ants[0].state, AntState::FollowReturn);
}

#[test]
fn world_new_and_tick() {
    let tuning = AntTuning::new(3, 200, 50, 5, 10, 2).unwrap();
    assert!(World::new(10, (0, 100), 10, tuning, 100, 1).is_none());
    let mut w = World::new(10, (200, 100), 10, tuning, 100, 1).unwrap();
    assert_eq!(w.colony.ant_count(), 10);
    assert!(w.foods.len() >= 2 && w.foods.len() < 10);
    assert!(w
        .foods
        .iter()
        .all(|f| f.pos.x >= 0 && f.pos.x < 200 && f.pos.y >= 0 && f.pos.y < 100 && f.remaining >= 15 && f.remaining < 255));
    w.insert_food(Vector::new(5, 5), 7);
    assert_eq!(w.foods.last().unwrap().remaining, 7);
    w.update();
    w.update();
    assert_eq!(w.markers.len(), 10);
}

#[test]
fn world_tick_decays_before_colony() {
    let tuning = AntTuning::new(3, 200, 50, 5, 10, 1).unwrap();
    let mut w = World::new(1, (100, 100), 10, tuning, 1, 1).unwrap();
    w.colony.ants[0].desired_wander_dir = Vector::new(1000, 0);
    w.update_with_headings(&east());
    // The marker laid this tick is fresh; the decay ran before it was laid.
    assert_eq!(w.markers.len(), 1);
    assert_eq!(w.markers.get_markers()[0].intensity, 1);
    w.update_with_headings(&east());
    assert_eq!(w.markers.len(), 1);
}
