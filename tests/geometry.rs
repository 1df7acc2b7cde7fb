use ants::util::map_pos_to_grid;
use ants::random::heading_from_draw;
use ants::vector::{div_trunc, isqrt, isqrt_ceil, Vector, UNIT};

#[test]
fn isqrt_exact_and_between_squares() {
    assert_eq!(isqrt(0), 0);
    assert_eq!(isqrt(1), 1);
    assert_eq!(isqrt(3), 1);
    assert_eq!(isqrt(4), 2);
    assert_eq!(isqrt(15), 3);
    assert_eq!(isqrt(16), 4);
    assert_eq!(isqrt(17), 4);
    assert_eq!(isqrt(u64::MAX as u128), 4294967295);
    assert_eq!(isqrt(1u128 << 80), 1u128 << 40);
    assert_eq!(isqrt_ceil(17), 5);
    assert_eq!(isqrt_ceil(16), 4);
}

#[test]
fn div_trunc_rounds_toward_zero() {
    assert_eq!(div_trunc(7, 2), 3);
    assert_eq!(div_trunc(-7, 2), -3);
    assert_eq!(div_trunc(0, 5), 0);
}

#[test]
fn normalize_scales_to_unit() {
    let v = Vector::new(3, 4);
    assert_eq!(v.sqrt_magnitude(), 5);
    assert_eq!(v.normalize(), Vector::new(600, 800));
    assert_eq!(Vector::new(-3, -4).normalize(), Vector::new(-600, -800));
    assert_eq!(Vector::new(0, -250).normalize(), Vector::new(0, -UNIT));
}

#[test]
fn normalize_short_vectors_to_unit_length() {
    assert_eq!(Vector::new(1, 1).normalize(), Vector::new(706, 706));
    assert_eq!(Vector::new(2, 1).normalize(), Vector::new(894, 447));
    assert_eq!(Vector::new(-1, 0).normalize(), Vector::new(-1000, 0));
    for (x, y) in [(1, 2), (3, -7), (999, 1), (-5, -5), (1, 1_999_999_999)] {
        let r = Vector::new(x, y).normalize();
        let sq = r.x * r.x + r.y * r.y;
        assert!(sq <= 1_000_000 && sq >= 996 * 996, "({}, {}) gave {:?}", x, y, r);
    }
}

#[test]
fn heading_from_draw_keeps_ring_points_only() {
    assert_eq!(heading_from_draw(0, 0), None);
    assert_eq!(heading_from_draw(100, 100), None);
    assert_eq!(heading_from_draw(1000, 1000), None);
    assert_eq!(heading_from_draw(0, 600), Some(Vector::new(0, 1000)));
    assert_eq!(heading_from_draw(-300, 400), Some(Vector::new(-600, 800)));
}

#[test]
fn addition() {
    assert_eq!(Vector::new(3, -4).add(&Vector::new(-1, 10)), Vector::new(2, 6));
}

#[test]
fn multiply_float_uses_fixed_point_factor() {
    let d = Vector::new(600, 800);
    assert_eq!(d.multiply_float(5000), Vector::new(3000, 4000));
    assert_eq!(Vector::new(-1, 1).multiply_float(1500), Vector::new(-1, 1));
}

#[test]
fn subtraction_and_squared_distance() {
    let a = Vector::new(10, -2);
    let b = Vector::new(7, 2);
    assert_eq!(a.sub(&b), Vector::new(3, -4));
    assert_eq!(a.squared_distance(&b), 25);
    assert_eq!(a.squared_distance(&a), 0);
}

#[test]
fn grid_mapping_clamps_to_edges() {
    assert_eq!(map_pos_to_grid(Vector::new(15, 25), (10, 10), (100, 100)), (1, 2));
    assert_eq!(map_pos_to_grid(Vector::new(-5, 0), (10, 10), (100, 100)), (0, 0));
    assert_eq!(map_pos_to_grid(Vector::new(100, 250), (10, 10), (100, 100)), (9, 9));
    assert_eq!(map_pos_to_grid(Vector::new(99, 50), (4, 2), (100, 100)), (3, 1));
}
