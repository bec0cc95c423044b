//! The vector capability contract.
//!
//! A type is a vector when it realizes this trait: a fixed number of scalar
//! components with componentwise arithmetic, a dot product, interpolation,
//! magnitude clamping, reflection, projection and an ordering comparison.
//! Every method's contract is stated over [`Vector::model`], the sequence of
//! rational component values, using the specification functions of
//! [`crate::algebra`]; the two realizations, [`crate::Vector2`] and
//! [`crate::Vector3`], differ only in their dimension.
//!
//! Operations whose result is irrational on most inputs (Euclidean
//! magnitude and the distance, normalization, angle and spherical
//! interpolation built on it) are not part of this contract: they cannot be
//! computed by an exact scalar type and belong to floating-point callers.
//!
//! Each arithmetic method multiplies component numerators and denominators,
//! so it carries a precondition bounding the components it consumes; the
//! limits are documented in [`crate::algebra`].

use vstd::prelude::*;

use crate::algebra::{
    lex_le, linear_limit, magnitude_exceeds, nested_limit, product_limit, project_limit, vadd,
    vdiv_s, vdot, veqv, vhadamard, vlerp_unclamped, vmul_s, vproject, vreflect, vsub, vwf,
    vwithin, vzero,
};
use crate::scalar::{rat_int, rat_le, rat_within, Rational, Scalar};

verus! {

pub trait Vector: Sized {
    /// Mathematical value of the vector: its component rationals in order.
    spec fn model(self) -> Seq<Rational>;

    /// Number of components of this vector type.
    spec fn dim() -> nat;

    /// The additive identity: all components zero.
    fn zero() -> (r: Self)
        ensures
            vwf(r.model()),
            r.model() == vzero(Self::dim()),
    ;

    /// Componentwise sum of two vectors.
    fn add(self, other: Self) -> (r: Self)
        requires
            vwf(self.model()),
            vwf(other.model()),
            other.model().len() == self.model().len(),
            vwithin(self.model(), linear_limit()),
            vwithin(other.model(), linear_limit()),
        ensures
            vwf(r.model()),
            r.model() == vadd(self.model(), other.model()),
    ;

    /// Componentwise difference of two vectors.
    fn sub(self, other: Self) -> (r: Self)
        requires
            vwf(self.model()),
            vwf(other.model()),
            other.model().len() == self.model().len(),
            vwithin(self.model(), linear_limit()),
            vwithin(other.model(), linear_limit()),
        ensures
            vwf(r.model()),
            r.model() == vsub(self.model(), other.model()),
    ;

    /// The vector scaled by `rhs`.
    fn mul(self, rhs: Scalar) -> (r: Self)
        requires
            vwf(self.model()),
            rhs.wf(),
            vwithin(self.model(), linear_limit()),
            rat_within(rhs@, linear_limit()),
        ensures
            vwf(r.model()),
            r.model() == vmul_s(self.model(), rhs@),
    ;

    /// The vector divided by the nonzero scalar `rhs`.
    fn div(self, rhs: Scalar) -> (r: Self)
        requires
            vwf(self.model()),
            rhs.wf(),
            rhs@.num != 0,
            vwithin(self.model(), linear_limit()),
            rat_within(rhs@, linear_limit()),
        ensures
            vwf(r.model()),
            r.model() == vdiv_s(self.model(), rhs@),
    ;

    /// Adds `other` into the vector in place.
    fn add_assign(&mut self, other: Self)
        requires
            vwf(old(self).model()),
            vwf(other.model()),
            other.model().len() == old(self).model().len(),
            vwithin(old(self).model(), linear_limit()),
            vwithin(other.model(), linear_limit()),
        ensures
            vwf(final(self).model()),
            final(self).model() == vadd(old(self).model(), other.model()),
    ;

    /// Subtracts `other` from the vector in place.
    fn sub_assign(&mut self, other: Self)
        requires
            vwf(old(self).model()),
            vwf(other.model()),
            other.model().len() == old(self).model().len(),
            vwithin(old(self).model(), linear_limit()),
            vwithin(other.model(), linear_limit()),
        ensures
            vwf(final(self).model()),
            final(self).model() == vsub(old(self).model(), other.model()),
    ;

    /// Scales the vector by `rhs` in place.
    fn mul_assign(&mut self, rhs: Scalar)
        requires
            vwf(old(self).model()),
            rhs.wf(),
            vwithin(old(self).model(), linear_limit()),
            rat_within(rhs@, linear_limit()),
        ensures
            vwf(final(self).model()),
            final(self).model() == vmul_s(old(self).model(), rhs@),
    ;

    /// Divides the vector by the nonzero scalar `rhs` in place.
    fn div_assign(&mut self, rhs: Scalar)
        requires
            vwf(old(self).model()),
            rhs.wf(),
            rhs@.num != 0,
            vwithin(old(self).model(), linear_limit()),
            rat_within(rhs@, linear_limit()),
        ensures
            vwf(final(self).model()),
            final(self).model() == vdiv_s(old(self).model(), rhs@),
    ;

    /// The squared Euclidean magnitude: the dot product of the vector with
    /// itself. Exact, unlike the magnitude itself, which is irrational for
    /// most vectors.
    fn sqr_magnitude(&self) -> (r: Scalar)
        requires
            vwf(self.model()),
            vwithin(self.model(), product_limit()),
        ensures
            r.wf(),
            r@ == vdot(self.model(), self.model()),
    ;

    /// The dot product of two vectors.
    fn dot(&self, other: &Self) -> (r: Scalar)
        requires
            vwf(self.model()),
            vwf(other.model()),
            other.model().len() == self.model().len(),
            vwithin(self.model(), product_limit()),
            vwithin(other.model(), product_limit()),
        ensures
            r.wf(),
            r@ == vdot(self.model(), other.model()),
    ;

    /// The componentwise (Hadamard) product of two vectors.
    fn scale(self, other: Self) -> (r: Self)
        requires
            vwf(self.model()),
            vwf(other.model()),
            other.model().len() == self.model().len(),
            vwithin(self.model(), product_limit()),
            vwithin(other.model(), product_limit()),
        ensures
            vwf(r.model()),
            r.model() == vhadamard(self.model(), other.model()),
    ;

    /// Linear interpolation from `self` to `other`, with `t` clamped to
    /// `[0, 1]`: at most `self` is returned for `t <= 0` and `other` for
    /// `t >= 1`, both exactly; in between the blend `(1 - t) * self +
    /// t * other` is computed.
    fn lerp(self, other: Self, t: Scalar) -> (r: Self)
        requires
            vwf(self.model()),
            vwf(other.model()),
            other.model().len() == self.model().len(),
            vwithin(self.model(), product_limit()),
            vwithin(other.model(), product_limit()),
            t.wf(),
            rat_within(t@, product_limit()),
        ensures
            rat_le(t@, rat_int(0)) ==> r == self,
            !rat_le(t@, rat_int(0)) && rat_le(rat_int(1), t@) ==> r == other,
            !rat_le(t@, rat_int(0)) && !rat_le(rat_int(1), t@) ==> {
                &&& vwf(r.model())
                &&& r.model() == vlerp_unclamped(self.model(), other.model(), t@)
            },
    ;

    /// Linear interpolation without clamping: `(1 - t) * self + t * other`
    /// for every `t`, extrapolating outside `[0, 1]`.
    fn lerp_unclamped(self, other: Self, t: Scalar) -> (r: Self)
        requires
            vwf(self.model()),
            vwf(other.model()),
            other.model().len() == self.model().len(),
            vwithin(self.model(), product_limit()),
            vwithin(other.model(), product_limit()),
            t.wf(),
            rat_within(t@, product_limit()),
        ensures
            vwf(r.model()),
            r.model() == vlerp_unclamped(self.model(), other.model(), t@),
    ;

    /// Magnitude clamping as a division: when the magnitude of the vector
    /// exceeds `max_len`, the vector is divided by `max_len` (so the
    /// resulting magnitude is `magnitude / max_len`, not `max_len`);
    /// otherwise the vector is returned unchanged. When division happens,
    /// `max_len` must be nonzero.
    fn clamp_magnitude(self, max_len: Scalar) -> (r: Self)
        requires
            vwf(self.model()),
            vwithin(self.model(), nested_limit()),
            max_len.wf(),
            rat_within(max_len@, nested_limit()),
            magnitude_exceeds(self.model(), max_len@) ==> max_len@.num != 0,
        ensures
            magnitude_exceeds(self.model(), max_len@) ==> {
                &&& vwf(r.model())
                &&& r.model() == vdiv_s(self.model(), max_len@)
            },
            !magnitude_exceeds(self.model(), max_len@) ==> r == self,
    ;

    /// Reflection across the plane (or line) whose unit normal is `normal`:
    /// `-2 * (self . normal) * normal + self`. The formula mirrors `self`
    /// only when `normal` has unit length; no normalization is performed.
    fn reflect(self, normal: Self) -> (r: Self)
        requires
            vwf(self.model()),
            vwf(normal.model()),
            normal.model().len() == self.model().len(),
            vwithin(self.model(), nested_limit()),
            vwithin(normal.model(), nested_limit()),
        ensures
            vwf(r.model()),
            r.model() == vreflect(self.model(), normal.model()),
    ;

    /// Projection of the vector onto `onto`, which must not have the zero
    /// value: `((self . onto) / (onto . onto)) * onto`.
    fn project(self, onto: Self) -> (r: Self)
        requires
            vwf(self.model()),
            vwf(onto.model()),
            onto.model().len() == self.model().len(),
            vwithin(self.model(), project_limit()),
            vwithin(onto.model(), project_limit()),
            !veqv(onto.model(), vzero(onto.model().len())),
        ensures
            vwf(r.model()),
            r.model() == vproject(self.model(), onto.model()),
    ;

    /// Lexicographic value comparison: whether `self <= other` in the
    /// ordering that componentwise comparison induces.
    fn le(&self, other: &Self) -> (r: bool)
        requires
            vwf(self.model()),
            vwf(other.model()),
            other.model().len() == self.model().len(),
            vwithin(self.model(), linear_limit()),
            vwithin(other.model(), linear_limit()),
        ensures
            r == lex_le(self.model(), other.model()),
    ;

    /// Componentwise value equality of two vectors.
    fn eq_value(&self, other: &Self) -> (r: bool)
        requires
            vwf(self.model()),
            vwf(other.model()),
            other.model().len() == self.model().len(),
            vwithin(self.model(), linear_limit()),
            vwithin(other.model(), linear_limit()),
        ensures
            r == veqv(self.model(), other.model()),
    ;

    /// The larger of the two vectors in the lexicographic ordering,
    /// preferring `self` when the values are equal.
    fn max(self, other: Self) -> (r: Self)
        requires
            vwf(self.model()),
            vwf(other.model()),
            other.model().len() == self.model().len(),
            vwithin(self.model(), linear_limit()),
            vwithin(other.model(), linear_limit()),
        ensures
            r == (if lex_le(other.model(), self.model()) {
                self
            } else {
                other
            }),
    ;

    /// The smaller of the two vectors in the lexicographic ordering,
    /// preferring `self` when the values are equal.
    fn min(self, other: Self) -> (r: Self)
        requires
            vwf(self.model()),
            vwf(other.model()),
            other.model().len() == self.model().len(),
            vwithin(self.model(), linear_limit()),
            vwithin(other.model(), linear_limit()),
        ensures
            r == (if lex_le(self.model(), other.model()) {
                self
            } else {
                other
            }),
    ;
}

} // verus!
