use vect::{Scalar, Vector, Vector2, Vector3};

fn v3(x: i128, y: i128, z: i128) -> Vector3 {
    Vector3::new(Scalar::from_int(x), Scalar::from_int(y), Scalar::from_int(z))
}

#[test]
fn constants_have_the_documented_components_3d() {
    assert_eq!(Vector3::up(), v3(0, 1, 0));
    assert_eq!(Vector3::down(), v3(0, -1, 0));
    assert_eq!(Vector3::left(), v3(-1, 0, 0));
    assert_eq!(Vector3::right(), v3(1, 0, 0));
    assert_eq!(Vector3::forward(), v3(0, 0, 1));
    assert_eq!(Vector3::back(), v3(0, 0, -1));
    assert_eq!(Vector3::zero(), v3(0, 0, 0));
}

#[test]
fn add_components_3d() {
    assert_eq!(v3(1, 2, 3).add(v3(4, 5, 6)), v3(5, 7, 9));
    let mut a = v3(1, 2, 3);
    a.add_assign(v3(4, 5, 6));
    assert_eq!(a, v3(5, 7, 9));
}

#[test]
fn sub_components_3d() {
    assert_eq!(v3(5, 8, 2).sub(v3(6, 4, 2)), v3(-1, 4, 0));
}

#[test]
fn mul_div_by_scalar_3d() {
    assert_eq!(v3(1, -2, 3).mul(Scalar::from_int(4)), v3(4, -8, 12));
    let r = v3(4, -8, 12).div(Scalar::from_int(4));
    assert!(r.eq_value(&v3(1, -2, 3)));
}

#[test]
fn scalar_on_the_left_mul_3d() {
    let r = Vector3::scalar_mul(Scalar::from_int(2), v3(1, -2, 3));
    assert!(r.eq_value(&v3(2, -4, 6)));
}

#[test]
fn scalar_on_the_left_div_3d() {
    // 12 / (2, 3, 4) == (6, 4, 3).
    let r = Vector3::scalar_div(Scalar::from_int(12), v3(2, 3, 4));
    assert!(r.eq_value(&v3(6, 4, 3)));
}

#[test]
fn add_zero_is_identity_3d() {
    let v = v3(7, -9, 11);
    assert_eq!(v.add(Vector3::zero()), v);
}

#[test]
fn sub_self_is_zero_3d() {
    let v = Vector3::new(Scalar::new(7, 3), Scalar::new(-2, 5), Scalar::new(1, 9));
    assert!(v.sub(v).eq_value(&Vector3::zero()));
}

#[test]
fn mul_one_is_identity_3d() {
    let v = Vector3::new(Scalar::new(7, 3), Scalar::new(-2, 5), Scalar::new(1, 9));
    assert_eq!(v.mul(Scalar::from_int(1)), v);
}

#[test]
fn cross_product_example() {
    let r = v3(3, -3, 1).cross(v3(4, 9, 2));
    assert_eq!(r, v3(-15, -2, 39));
}

#[test]
fn cross_is_anticommutative() {
    let a = v3(3, -3, 1);
    let b = v3(4, 9, 2);
    let rab = a.cross(b);
    let rba = b.cross(a);
    assert!(rab.eq_value(&rba.mul(Scalar::from_int(-1))));
}

#[test]
fn cross_with_self_is_zero() {
    let a = v3(3, -3, 1);
    assert!(a.cross(a).eq_value(&Vector3::zero()));
}

#[test]
fn dot_product_value_3d() {
    // (1, 2, 3) . (4, -5, 6) == 4 - 10 + 18 == 12.
    assert!(v3(1, 2, 3).dot(&v3(4, -5, 6)).eq_value(&Scalar::from_int(12)));
    assert!(v3(1, 2, 3).dot(&v3(4, -5, 6)).eq_value(&v3(4, -5, 6).dot(&v3(1, 2, 3))));
}

#[test]
fn sqr_magnitude_value_3d() {
    assert!(v3(1, 2, 2).sqr_magnitude().eq_value(&Scalar::from_int(9)));
}

#[test]
fn scale_is_componentwise_3d() {
    assert_eq!(v3(1, 2, 3).scale(v3(4, 5, 6)), v3(4, 10, 18));
}

#[test]
fn lerp_returns_endpoints_exactly_3d() {
    let a = v3(1, 2, 3);
    let b = v3(4, 5, 6);
    assert_eq!(a.lerp(b, Scalar::from_int(0)), a);
    assert_eq!(a.lerp(b, Scalar::new(-1, 2)), a);
    assert_eq!(a.lerp(b, Scalar::from_int(1)), b);
    assert_eq!(a.lerp(b, Scalar::new(3, 2)), b);
}

#[test]
fn lerp_midpoint_value_3d() {
    let r = v3(0, 0, 0).lerp(v3(2, 4, 6), Scalar::new(1, 2));
    assert!(r.eq_value(&v3(1, 2, 3)));
}

#[test]
fn lerp_unclamped_extrapolates_3d() {
    let r = v3(0, 0, 0).lerp_unclamped(v3(1, 0, 1), Scalar::from_int(2));
    assert!(r.eq_value(&v3(2, 0, 2)));
}

#[test]
fn reflect_across_up_normal_3d() {
    let r = v3(1, 2, 0).reflect(Vector3::up());
    assert_eq!(r, v3(1, -2, 0));
}

#[test]
fn clamp_magnitude_divides_when_too_long_3d() {
    // |(2, 3, 6)| == 7 > 2, so the result is the vector divided by 2.
    let r = v3(2, 3, 6).clamp_magnitude(Scalar::from_int(2));
    assert!(r.eq_value(&Vector3::new(
        Scalar::from_int(1),
        Scalar::new(3, 2),
        Scalar::from_int(3),
    )));
}

#[test]
fn clamp_magnitude_keeps_short_vectors_3d() {
    let v = v3(1, 1, 1);
    assert_eq!(v.clamp_magnitude(Scalar::from_int(9)), v);
}

#[test]
fn project_onto_axis_3d() {
    let r = v3(2, 3, 4).project(v3(0, 0, 1));
    assert!(r.eq_value(&v3(0, 0, 4)));
}

#[test]
fn min_max_follow_lexicographic_order_3d() {
    let a = v3(1, 5, 9);
    let b = v3(1, 6, 0);
    assert_eq!(a.max(b), b);
    assert_eq!(a.min(b), a);
}

#[test]
fn le_and_eq_value_compare_by_value_3d() {
    assert!(v3(1, 2, 3).le(&v3(1, 2, 3)));
    assert!(v3(1, 2, 3).le(&v3(1, 2, 4)));
    assert!(!v3(1, 2, 5).le(&v3(1, 2, 4)));
    let halves = Vector3::new(Scalar::new(2, 2), Scalar::new(4, 2), Scalar::new(6, 2));
    assert_ne!(halves, v3(1, 2, 3));
    assert!(halves.eq_value(&v3(1, 2, 3)));
}

#[test]
fn widening_appends_zero() {
    let v = Vector2::new(Scalar::new(3, 2), Scalar::from_int(-7));
    let w = Vector3::from(v);
    assert_eq!(w.x, Scalar::new(3, 2));
    assert_eq!(w.y, Scalar::from_int(-7));
    assert_eq!(w.z, Scalar::from_int(0));
}
