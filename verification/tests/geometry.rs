use road_guidance::fixed::{divide, integer_sqrt};
use road_guidance::geometry::{closest_point_on_segment_capped, face_normal};
use road_guidance::vector::Point3;

fn p(x: i64, y: i64, z: i64) -> Point3 {
    Point3::new(x, y, z)
}

#[test]
fn projection_of_a_point_beside_the_segment() {
    let a = p(0, 0, 0);
    let b = p(10_000, 0, 0);
    assert_eq!(closest_point_on_segment_capped(a, b, p(2_500, 700, -300)), Some(p(2_500, 0, 0)));
}

#[test]
fn projection_on_a_skew_segment() {
    let a = p(1_000, 2_000, 3_000);
    let b = p(4_000, 6_000, 3_000);
    assert_eq!(
        closest_point_on_segment_capped(a, b, p(3_000, 3_000, 5_000)),
        Some(p(2_200, 3_600, 3_000))
    );
}

#[test]
fn projection_rounds_toward_the_start_of_the_segment() {
    let a = p(0, 0, 0);
    let b = p(-3_000, -7_000, 2_000);
    assert_eq!(
        closest_point_on_segment_capped(a, b, p(-1_000, -2_000, 500)),
        Some(p(-870, -2_032, 580))
    );
}

#[test]
fn points_of_the_segment_project_to_themselves() {
    let a = p(0, 0, 0);
    let b = p(9_000, 3_000, -6_000);
    assert_eq!(closest_point_on_segment_capped(a, b, a), Some(a));
    assert_eq!(closest_point_on_segment_capped(a, b, b), Some(b));
    let third = p(3_000, 1_000, -2_000);
    assert_eq!(closest_point_on_segment_capped(a, b, third), Some(third));
    let two_thirds = p(6_000, 2_000, -4_000);
    assert_eq!(closest_point_on_segment_capped(a, b, two_thirds), Some(two_thirds));
}

#[test]
fn points_of_the_line_beyond_the_ends_have_no_projection() {
    let a = p(0, 0, 0);
    let b = p(9_000, 3_000, -6_000);
    assert_eq!(closest_point_on_segment_capped(a, b, p(-3_000, -1_000, 2_000)), None);
    assert_eq!(closest_point_on_segment_capped(a, b, p(12_000, 4_000, -8_000)), None);
}

#[test]
fn projection_is_capped_before_the_start() {
    let a = p(0, 0, 0);
    let b = p(10_000, 0, 0);
    assert_eq!(closest_point_on_segment_capped(a, b, p(-1, 500, 0)), None);
}

#[test]
fn projection_is_capped_after_the_end() {
    let a = p(0, 0, 0);
    let b = p(10_000, 0, 0);
    assert_eq!(closest_point_on_segment_capped(a, b, p(10_001, 500, 0)), None);
}

#[test]
fn projection_at_the_very_ends_is_kept() {
    let a = p(0, 0, 0);
    let b = p(10_000, 0, 0);
    assert_eq!(closest_point_on_segment_capped(a, b, p(0, 500, 0)), Some(a));
    assert_eq!(closest_point_on_segment_capped(a, b, p(10_000, -500, 20)), Some(b));
}

#[test]
fn normal_of_a_flat_triangle_points_up() {
    let n = face_normal(p(0, 0, 0), p(0, 0, 1_000), p(1_000, 0, 0));
    assert_eq!(n, p(0, 1_000, 0));
}

#[test]
fn normal_turns_over_with_the_winding() {
    let n = face_normal(p(0, 0, 0), p(1_000, 0, 0), p(0, 0, 1_000));
    assert_eq!(n, p(0, -1_000, 0));
}

#[test]
fn normal_of_a_triangle_without_area_is_zero() {
    let n = face_normal(p(0, 0, 0), p(1_000, 0, 0), p(2_000, 0, 0));
    assert_eq!(n, p(0, 0, 0));
}

#[test]
fn vector_arithmetic() {
    let a = p(1, -2, 3);
    let b = p(-4, 5, 6);
    assert_eq!(a.plus(b), p(-3, 3, 9));
    assert_eq!(a.minus(b), p(5, -7, -3));
    assert_eq!(a.negated(), p(-1, 2, -3));
    assert_eq!(a.dot(b), 4);
    assert_eq!(a.cross(b), p(-27, -18, -3));
    assert_eq!(a.norm_sq(), 14);
    assert_eq!(Point3::zero(), p(0, 0, 0));
}

#[test]
fn scaling_rounds_toward_zero() {
    assert_eq!(p(1_000, -1_000, 1).scaled(1_500), p(1_500, -1_500, 1));
    assert_eq!(p(999, -999, 3).scaled(500), p(499, -499, 1));
    assert_eq!(p(7, -7, 0).scaled(-1_000), p(-7, 7, 0));
}

#[test]
fn normalizing_gives_a_vector_of_length_one_unit() {
    assert_eq!(p(3_000, 4_000, 0).normalized(), p(600, 800, 0));
    assert_eq!(p(-7, 0, 24).normalized(), p(-280, 0, 960));
    assert_eq!(p(123_456, -654_321, 111).normalized(), p(185, -982, 0));
    assert_eq!(p(0, 0, 0).normalized(), p(0, 0, 0));
}

#[test]
fn normalizing_the_largest_vector() {
    let n = p(i64::MAX, i64::MIN, i64::MAX).normalized();
    assert_eq!(n, p(577, -577, 577));
}

#[test]
fn bounds_check() {
    assert!(p(5, -5, 0).in_bounds(5));
    assert!(!p(6, 0, 0).in_bounds(5));
    assert!(!p(0, 0, -6).in_bounds(5));
    assert!(!p(0, 0, 0).in_bounds(-1));
    assert!(p(i64::MIN + 1, 0, 0).in_bounds(i64::MAX));
    assert!(!p(i64::MIN, 0, 0).in_bounds(i64::MAX));
}

#[test]
fn square_roots_are_floored() {
    assert_eq!(integer_sqrt(0), 0);
    assert_eq!(integer_sqrt(1), 1);
    assert_eq!(integer_sqrt(3), 1);
    assert_eq!(integer_sqrt(4), 2);
    assert_eq!(integer_sqrt(99), 9);
    assert_eq!(integer_sqrt(100), 10);
    assert_eq!(integer_sqrt(1_000_000_000_000_000_000_000_000), 1_000_000_000_000);
    assert_eq!(integer_sqrt(u128::MAX), u64::MAX);
}

#[test]
fn division_rounds_toward_zero() {
    assert_eq!(divide(7, 2), 3);
    assert_eq!(divide(-7, 2), -3);
    assert_eq!(divide(6, 3), 2);
    assert_eq!(divide(-6, 3), -2);
    assert_eq!(divide(0, 5), 0);
    assert_eq!(divide(i128::MIN, 1), i128::MIN);
    assert_eq!(divide(i128::MIN, 2), i128::MIN / 2);
    assert_eq!(divide(i128::MIN, 3), i128::MIN / 3);
    assert_eq!(divide(i128::MIN, i128::MAX), -1);
}

#[test]
fn short_vectors_normalize_to_one_unit() {
    assert_eq!(p(1, 1, 1).normalized(), p(577, 577, 577));
    assert_eq!(p(1, 1, 0).normalized(), p(707, 707, 0));
    assert_eq!(p(0, -1, 1).normalized(), p(0, -707, 707));
    assert_eq!(p(1, 2, 2).normalized(), p(333, 666, 666));
    assert_eq!(p(-2, 3, -6).normalized(), p(-285, 428, -857));
    assert_eq!(p(2, -1, 0).normalized(), p(894, -447, 0));
    assert_eq!(p(1, 0, 0).normalized(), p(1_000, 0, 0));
    assert_eq!(p(1_000, 1, 0).normalized(), p(999, 0, 0));
}

#[test]
fn vectors_about_two_to_the_32_long_normalize_to_one_unit() {
    assert_eq!(p(4_294_967_295, 1, 0).normalized(), p(1_000, 0, 0));
    assert_eq!(p(4_294_967_296, 0, 0).normalized(), p(1_000, 0, 0));
    assert_eq!(p(4_294_967_296, 1, 1).normalized(), p(1_000, 0, 0));
    assert_eq!(p(0, -3_037_000_500, 3_037_000_500).normalized(), p(0, -707, 707));
}

#[test]
fn normal_of_a_tiny_triangle_is_one_unit_long() {
    let n = face_normal(p(0, 0, 0), p(1, 0, 0), p(0, 1, 1));
    assert_eq!(n, p(0, -707, 707));
    assert_eq!(n.norm_sq(), 999_698);
    assert_eq!(face_normal(p(0, 0, 0), p(0, 1, 1), p(1, 0, 0)), p(0, 707, -707));
}
