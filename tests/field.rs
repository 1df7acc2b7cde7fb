use ants::marker::{Marker, MarkerType};
use ants::marker_map::MarkerMap;
use ants::vector::Vector;

fn intensities(m: &MarkerMap) -> Vec<u64> {
    m.get_markers().iter().map(|k| k.intensity).collect()
}

#[test]
fn deposit_appends_at_default_intensity() {
    let mut m = MarkerMap::new(100, 5);
    m.add_marker(MarkerType::Explore, Vector::new(1, 2));
    m.add_marker(MarkerType::Explore, Vector::new(1, 2));
    assert_eq!(m.len(), 2);
    assert_eq!(
        m.get_markers()[1],
        Marker::new(MarkerType::Explore, Vector::new(1, 2), 100)
    );
    assert_eq!(m.default_intensity(), 100);
    assert_eq!(m.degradation_rate(), 5);
}

#[test]
fn decay_lowers_by_rate_until_removal() {
    let mut m = MarkerMap::new(3, 1);
    m.add_marker(MarkerType::Return, Vector::new(0, 0));
    m.update();
    assert_eq!(intensities(&m), vec![2]);
    m.update();
    assert_eq!(intensities(&m), vec![1]);
    m.update();
    assert_eq!(m.len(), 0);
}

#[test]
fn decay_removes_only_exhausted_markers_in_order() {
    let mut m = MarkerMap::new(10, 4);
    m.add_marker(MarkerType::Explore, Vector::new(0, 0));
    m.update();
    m.update();
    m.add_marker(MarkerType::Return, Vector::new(1, 0));
    m.add_marker(MarkerType::Explore, Vector::new(2, 0));
    assert_eq!(intensities(&m), vec![2, 10, 10]);
    m.update();
    assert_eq!(intensities(&m), vec![6, 6]);
    assert_eq!(m.get_markers()[0].pos, Vector::new(1, 0));
    assert_eq!(m.get_markers()[1].marker_type, MarkerType::Explore);
}

#[test]
fn marker_update_stops_at_zero() {
    let mut k = Marker::new(MarkerType::Explore, Vector::new(0, 0), 3);
    k.update(2);
    assert_eq!(k.intensity, 1);
    k.update(2);
    assert_eq!(k.intensity, 0);
}

#[test]
fn query_returns_markers_within_radius_inclusive() {
    let mut m = MarkerMap::new(50, 1);
    m.add_marker(MarkerType::Explore, Vector::new(3, 4));
    m.add_marker(MarkerType::Return, Vector::new(6, 0));
    m.add_marker(MarkerType::Explore, Vector::new(-3, 4));
    m.add_marker(MarkerType::Explore, Vector::new(0, 0));
    let near = m.get_markers_in_zone(Vector::new(0, 0), 5);
    let positions: Vec<Vector> = near.iter().map(|k| k.pos).collect();
    assert_eq!(
        positions,
        vec![Vector::new(3, 4), Vector::new(-3, 4), Vector::new(0, 0)]
    );
}

#[test]
fn query_with_zero_radius_returns_markers_at_the_point() {
    let mut m = MarkerMap::new(50, 1);
    m.add_marker(MarkerType::Explore, Vector::new(7, 7));
    m.add_marker(MarkerType::Return, Vector::new(7, 8));
    m.add_marker(MarkerType::Return, Vector::new(7, 7));
    let near = m.get_markers_in_zone(Vector::new(7, 7), 0);
    assert_eq!(near.len(), 2);
    assert!(near.iter().all(|k| k.pos == Vector::new(7, 7)));
    assert!(m.get_markers_in_zone(Vector::new(0, 0), 0).is_empty());
}
