use vect::Scalar;

#[test]
fn scalar_new_keeps_positive_denominator() {
    let a = Scalar::new(1, 2);
    assert_eq!(a.num, 1);
    assert_eq!(a.den, 2);
}

#[test]
fn scalar_new_moves_sign_into_numerator() {
    let a = Scalar::new(1, -2);
    assert_eq!(a.num, -1);
    assert_eq!(a.den, 2);
    let b = Scalar::new(-3, -4);
    assert_eq!(b.num, 3);
    assert_eq!(b.den, 4);
}

#[test]
fn scalar_from_int_has_denominator_one() {
    let a = Scalar::from_int(7);
    assert_eq!(a.num, 7);
    assert_eq!(a.den, 1);
}

#[test]
fn scalar_add_is_exact() {
    // 1/2 + 1/3 == 5/6, kept unreduced as (1*3 + 1*2) / (2*3).
    let r = Scalar::new(1, 2).add(Scalar::new(1, 3));
    assert_eq!(r, Scalar::new(5, 6));
}

#[test]
fn scalar_sub_is_exact() {
    // 1/2 - 1/3 == 1/6.
    let r = Scalar::new(1, 2).sub(Scalar::new(1, 3));
    assert_eq!(r, Scalar::new(1, 6));
}

#[test]
fn scalar_mul_is_exact() {
    // 2/3 * 3/4 == 6/12, unreduced.
    let r = Scalar::new(2, 3).mul(Scalar::new(3, 4));
    assert_eq!(r, Scalar::new(6, 12));
    assert!(r.eq_value(&Scalar::new(1, 2)));
}

#[test]
fn scalar_div_is_exact() {
    // (1/2) / (3/4) == 4/6.
    let r = Scalar::new(1, 2).div(Scalar::new(3, 4));
    assert_eq!(r, Scalar::new(4, 6));
    assert!(r.eq_value(&Scalar::new(2, 3)));
}

#[test]
fn scalar_div_by_negative_keeps_denominator_positive() {
    // 1 / (-2) == -1/2 with a positive denominator.
    let r = Scalar::from_int(1).div(Scalar::from_int(-2));
    assert_eq!(r.num, -1);
    assert_eq!(r.den, 2);
}

#[test]
fn scalar_neg_flips_numerator() {
    let r = Scalar::new(3, 4).neg();
    assert_eq!(r, Scalar::new(-3, 4));
}

#[test]
fn scalar_value_comparisons() {
    let half = Scalar::new(1, 2);
    let two_quarters = Scalar::new(2, 4);
    assert_ne!(half, two_quarters);
    assert!(half.eq_value(&two_quarters));
    assert!(half.le(&two_quarters));
    assert!(!half.lt(&two_quarters));
    assert!(Scalar::new(1, 3).lt(&half));
    assert!(Scalar::from_int(0).is_zero());
    assert!(Scalar::new(0, 5).is_zero());
    assert!(!half.is_zero());
}
