use vect::{Scalar, Vector, Vector2, Vector3};

fn v2(x: i128, y: i128) -> Vector2 {
    Vector2::new(Scalar::from_int(x), Scalar::from_int(y))
}

#[test]
fn constants_have_the_documented_components() {
    assert_eq!(Vector2::up(), v2(0, 1));
    assert_eq!(Vector2::down(), v2(0, -1));
    assert_eq!(Vector2::left(), v2(-1, 0));
    assert_eq!(Vector2::right(), v2(1, 0));
    assert_eq!(Vector2::zero(), v2(0, 0));
}

#[test]
fn add_components() {
    assert_eq!(v2(1, 2).add(v2(3, 4)), v2(4, 6));
}

#[test]
fn add_assign_components() {
    let mut a = v2(1, 2);
    a.add_assign(v2(3, 4));
    assert_eq!(a, v2(4, 6));
}

#[test]
fn sub_components() {
    assert_eq!(v2(5, 8).sub(v2(6, 4)), v2(-1, 4));
}

#[test]
fn sub_assign_components() {
    let mut a = v2(5, 8);
    a.sub_assign(v2(6, 4));
    assert_eq!(a, v2(-1, 4));
}

#[test]
fn mul_by_scalar() {
    assert_eq!(v2(3, 4).mul(Scalar::from_int(3)), v2(9, 12));
    let mut a = v2(3, 4);
    a.mul_assign(Scalar::from_int(3));
    assert_eq!(a, v2(9, 12));
}

#[test]
fn div_by_scalar() {
    let r = v2(5, 8).div(Scalar::from_int(2));
    assert!(r.eq_value(&Vector2::new(Scalar::new(5, 2), Scalar::from_int(4))));
    let mut a = v2(5, 8);
    a.div_assign(Scalar::from_int(2));
    assert!(a.eq_value(&r));
}

#[test]
fn scalar_on_the_left_mul() {
    // 2 * (5/2, 5) == (5, 10).
    let v = Vector2::new(Scalar::new(5, 2), Scalar::from_int(5));
    let r = Vector2::scalar_mul(Scalar::from_int(2), v);
    assert!(r.eq_value(&v2(5, 10)));
}

#[test]
fn scalar_on_the_left_div() {
    // 6 / (2, 3) == (3, 2), dividing the scalar by each component.
    let r = Vector2::scalar_div(Scalar::from_int(6), v2(2, 3));
    assert!(r.eq_value(&v2(3, 2)));
}

#[test]
fn add_zero_is_identity() {
    let v = v2(7, -9);
    assert_eq!(v.add(Vector2::zero()), v);
}

#[test]
fn sub_self_is_zero() {
    let v = Vector2::new(Scalar::new(7, 3), Scalar::new(-2, 5));
    assert!(v.sub(v).eq_value(&Vector2::zero()));
}

#[test]
fn mul_one_is_identity() {
    let v = Vector2::new(Scalar::new(7, 3), Scalar::new(-2, 5));
    assert_eq!(v.mul(Scalar::from_int(1)), v);
}

#[test]
fn dot_product_value() {
    let d = v2(1, 2).dot(&v2(3, 4));
    assert!(d.eq_value(&Scalar::from_int(11)));
}

#[test]
fn dot_is_commutative() {
    let a = Vector2::new(Scalar::new(1, 2), Scalar::from_int(-3));
    let b = Vector2::new(Scalar::from_int(5), Scalar::new(7, 4));
    assert!(a.dot(&b).eq_value(&b.dot(&a)));
}

#[test]
fn sqr_magnitude_value() {
    assert!(v2(3, 4).sqr_magnitude().eq_value(&Scalar::from_int(25)));
}

#[test]
fn scale_is_componentwise() {
    assert_eq!(v2(1, 2).scale(v2(3, 4)), v2(3, 8));
}

#[test]
fn lerp_returns_endpoints_exactly() {
    let a = v2(1, 2);
    let b = v2(5, 6);
    assert_eq!(a.lerp(b, Scalar::from_int(0)), a);
    assert_eq!(a.lerp(b, Scalar::from_int(-3)), a);
    assert_eq!(a.lerp(b, Scalar::from_int(1)), b);
    assert_eq!(a.lerp(b, Scalar::from_int(2)), b);
}

#[test]
fn lerp_midpoint_value() {
    let r = v2(0, 0).lerp(v2(2, 4), Scalar::new(1, 2));
    assert!(r.eq_value(&v2(1, 2)));
}

#[test]
fn lerp_unclamped_extrapolates() {
    let r = v2(0, 0).lerp_unclamped(v2(1, 0), Scalar::from_int(2));
    assert!(r.eq_value(&v2(2, 0)));
}

#[test]
fn reflect_across_up_normal() {
    let r = v2(1, 2).reflect(Vector2::up());
    assert_eq!(r, v2(1, -2));
}

#[test]
fn clamp_magnitude_divides_when_too_long() {
    // |(3, 4)| == 5 > 2, so the result is (3, 4) / 2, not a rescale to 2.
    let r = v2(3, 4).clamp_magnitude(Scalar::from_int(2));
    assert!(r.eq_value(&Vector2::new(Scalar::new(3, 2), Scalar::from_int(2))));
}

#[test]
fn clamp_magnitude_keeps_short_vectors() {
    let v = v2(1, 1);
    assert_eq!(v.clamp_magnitude(Scalar::from_int(5)), v);
}

#[test]
fn clamp_magnitude_negative_limit_divides() {
    // Every magnitude exceeds a negative limit, so the division happens and
    // flips the direction.
    let r = v2(1, 0).clamp_magnitude(Scalar::from_int(-1));
    assert!(r.eq_value(&v2(-1, 0)));
}

#[test]
fn project_onto_axis() {
    let r = v2(2, 3).project(v2(1, 0));
    assert!(r.eq_value(&v2(2, 0)));
}

#[test]
fn min_max_follow_lexicographic_order() {
    let a = v2(1, 5);
    let b = v2(2, 0);
    assert_eq!(a.max(b), b);
    assert_eq!(a.min(b), a);
    assert_eq!(a.max(a), a);
    let c = v2(1, 7);
    assert_eq!(a.max(c), c);
    assert_eq!(a.min(c), a);
}

#[test]
fn le_and_eq_value_compare_by_value() {
    assert!(v2(1, 5).le(&v2(2, 0)));
    assert!(v2(1, 2).le(&v2(1, 3)));
    assert!(!v2(1, 4).le(&v2(1, 3)));
    let halves = Vector2::new(Scalar::new(2, 2), Scalar::new(4, 2));
    assert_ne!(halves, v2(1, 2));
    assert!(halves.eq_value(&v2(1, 2)));
}

#[test]
fn pair_and_array_conversions_round_trip() {
    let v = v2(3, -7);
    assert_eq!(Vector2::from_pair(v.to_pair()), v);
    assert_eq!(Vector2::from_array(v.to_array()), v);
    let (x, y) = v.to_pair();
    assert_eq!(x, Scalar::from_int(3));
    assert_eq!(y, Scalar::from_int(-7));
}

#[test]
fn conversion_round_trip_is_lossless() {
    let v = Vector2::new(Scalar::new(3, 2), Scalar::from_int(-7));
    assert_eq!(Vector2::from(Vector3::from(v)), v);
}

#[test]
fn narrowing_drops_z() {
    let v = Vector3::new(Scalar::from_int(1), Scalar::from_int(2), Scalar::from_int(9));
    let n = Vector2::from(v);
    assert_eq!(n, v2(1, 2));
    // Widening back cannot restore the dropped component.
    let w = Vector3::from(n);
    assert_eq!(w.z, Scalar::from_int(0));
    assert_ne!(w, v);
}
