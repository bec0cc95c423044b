//! The 2-component vector type.
//!
//! A `Vector2` is an ordered pair of exact rational scalars with value
//! semantics: every operation returns a new value (or, for the in-place
//! variants, overwrites the whole value). Its mathematical model is the
//! two-element sequence of its component rationals, and the contracts of the
//! [`Vector`] capability trait say exactly which model every operation
//! returns.

use vstd::prelude::*;
use vstd::std_specs::convert::{FromSpec, FromSpecImpl};

use crate::algebra::{
    lemma_vdot2, lemma_vdot_self_zero, lemma_vdot_within, lemma_vwithin_widen, lex_le,
    linear_limit, nested_limit, product_limit, project_limit, vadd, vdiv_s, vdot, veqv,
    vhadamard, vlerp_unclamped, vmul_s, vproject, vreflect, vscale, vscalar_div, vsub, vwf,
    vwithin, vzero,
};
use crate::scalar::{
    lemma_add_within, lemma_div_within, lemma_mul_within, rat_div, rat_eqv, rat_int, rat_mul,
    rat_wf, rat_within, Rational, Scalar,
};
use crate::vector::Vector;
use crate::vector3::Vector3;

verus! {

/// An ordered pair of exact rational scalars.
#[derive(Clone, Copy, Debug, PartialEq, Eq, Structural)]
pub struct Vector2 {
    pub x: Scalar,
    pub y: Scalar,
}

impl View for Vector2 {
    type V = Seq<Rational>;

    open spec fn view(&self) -> Seq<Rational> {
        seq![self.x@, self.y@]
    }
}

impl Vector2 {
    /// The components of the model, spelled out.
    proof fn lemma_parts(self)
        ensures
            self@.len() == 2,
            self@[0] == self.x@,
            self@[1] == self.y@,
    {
    }

    /// Well-formed components make a well-formed model.
    proof fn lemma_wf_parts(self)
        requires
            rat_wf(self.x@),
            rat_wf(self.y@),
        ensures
            vwf(self@),
    {
        assert forall|i: int| 0 <= i < self@.len() implies rat_wf(#[trigger] self@[i]) by {
            assert(self@[i] == self.x@ || self@[i] == self.y@);
        }
    }

    /// Creates a new `Vector2` from its components.
    pub fn new(x: Scalar, y: Scalar) -> (r: Self)
        ensures
            r.x == x,
            r.y == y,
            r@ == seq![x@, y@],
    {
        Vector2 { x, y }
    }

    /// Shorthand for the unit vector (0, 1).
    pub fn up() -> (r: Self)
        ensures
            vwf(r@),
            r@ == seq![rat_int(0), rat_int(1)],
    {
        let r = Vector2 { x: Scalar::from_int(0), y: Scalar::from_int(1) };
        proof {
            r.lemma_wf_parts();
            assert(r@ =~= seq![rat_int(0), rat_int(1)]);
        }
        r
    }

    /// Shorthand for the unit vector (0, -1).
    pub fn down() -> (r: Self)
        ensures
            vwf(r@),
            r@ == seq![rat_int(0), rat_int(-1)],
    {
        let r = Vector2 { x: Scalar::from_int(0), y: Scalar::from_int(-1) };
        proof {
            r.lemma_wf_parts();
            assert(r@ =~= seq![rat_int(0), rat_int(-1)]);
        }
        r
    }

    /// Shorthand for the unit vector (-1, 0).
    pub fn left() -> (r: Self)
        ensures
            vwf(r@),
            r@ == seq![rat_int(-1), rat_int(0)],
    {
        let r = Vector2 { x: Scalar::from_int(-1), y: Scalar::from_int(0) };
        proof {
            r.lemma_wf_parts();
            assert(r@ =~= seq![rat_int(-1), rat_int(0)]);
        }
        r
    }

    /// Shorthand for the unit vector (1, 0).
    pub fn right() -> (r: Self)
        ensures
            vwf(r@),
            r@ == seq![rat_int(1), rat_int(0)],
    {
        let r = Vector2 { x: Scalar::from_int(1), y: Scalar::from_int(0) };
        proof {
            r.lemma_wf_parts();
            assert(r@ =~= seq![rat_int(1), rat_int(0)]);
        }
        r
    }

    /// The scalar-on-the-left product `lhs * rhs`, componentwise.
    pub fn scalar_mul(lhs: Scalar, rhs: Self) -> (r: Self)
        requires
            lhs.wf(),
            vwf(rhs@),
            rat_within(lhs@, linear_limit()),
            vwithin(rhs@, linear_limit()),
        ensures
            vwf(r@),
            r@ == vscale(lhs@, rhs@),
    {
        proof {
            rhs.lemma_parts();
            lemma_mul_within(lhs@, rhs.x@, linear_limit(), linear_limit());
            lemma_mul_within(lhs@, rhs.y@, linear_limit(), linear_limit());
        }
        let r = Vector2 { x: lhs.mul(rhs.x), y: lhs.mul(rhs.y) };
        proof {
            r.lemma_wf_parts();
            assert(r@ =~= vscale(lhs@, rhs@));
        }
        r
    }

    /// The scalar-on-the-left quotient `lhs / rhs`: the scalar divided by
    /// each component, all of which must be nonzero.
    pub fn scalar_div(lhs: Scalar, rhs: Self) -> (r: Self)
        requires
            lhs.wf(),
            vwf(rhs@),
            rat_within(lhs@, linear_limit()),
            vwithin(rhs@, linear_limit()),
            forall|i: int| 0 <= i < rhs@.len() ==> #[trigger] rhs@[i].num != 0,
        ensures
            vwf(r@),
            r@ == vscalar_div(lhs@, rhs@),
    {
        proof {
            rhs.lemma_parts();
            assert(rhs@[0].num != 0 && rhs@[1].num != 0);
            lemma_div_within(lhs@, rhs.x@, linear_limit(), linear_limit());
            lemma_div_within(lhs@, rhs.y@, linear_limit(), linear_limit());
        }
        let r = Vector2 { x: lhs.div(rhs.x), y: lhs.div(rhs.y) };
        proof {
            r.lemma_wf_parts();
            assert(r@ =~= vscalar_div(lhs@, rhs@));
        }
        r
    }

    /// The components as a pair, in order.
    pub fn to_pair(self) -> (r: (Scalar, Scalar))
        ensures
            r.0 == self.x,
            r.1 == self.y,
    {
        (self.x, self.y)
    }

    /// Builds the vector from a pair of components.
    pub fn from_pair(p: (Scalar, Scalar)) -> (r: Self)
        ensures
            r.x == p.0,
            r.y == p.1,
    {
        Vector2 { x: p.0, y: p.1 }
    }

    /// The components as a fixed-size array, in order.
    pub fn to_array(self) -> (r: [Scalar; 2])
        ensures
            r[0] == self.x,
            r[1] == self.y,
    {
        [self.x, self.y]
    }

    /// Builds the vector from a fixed-size array of components.
    pub fn from_array(a: [Scalar; 2]) -> (r: Self)
        ensures
            r.x == a[0],
            r.y == a[1],
    {
        Vector2 { x: a[0], y: a[1] }
    }
}

impl Vector for Vector2 {
    open spec fn model(self) -> Seq<Rational> {
        self@
    }

    open spec fn dim() -> nat {
        2
    }

    fn zero() -> Self {
        let r = Vector2 { x: Scalar::from_int(0), y: Scalar::from_int(0) };
        proof {
            r.lemma_wf_parts();
            assert(r@ =~= vzero(Self::dim()));
        }
        r
    }

    fn add(self, other: Self) -> Self {
        proof {
            self.lemma_parts();
            other.lemma_parts();
            lemma_add_within(self.x@, other.x@, linear_limit(), linear_limit());
            lemma_add_within(self.y@, other.y@, linear_limit(), linear_limit());
        }
        let r = Vector2 { x: self.x.add(other.x), y: self.y.add(other.y) };
        proof {
            r.lemma_wf_parts();
            assert(r@ =~= vadd(self@, other@));
        }
        r
    }

    fn sub(self, other: Self) -> Self {
        proof {
            self.lemma_parts();
            other.lemma_parts();
            lemma_add_within(self.x@, other.x@, linear_limit(), linear_limit());
            lemma_add_within(self.y@, other.y@, linear_limit(), linear_limit());
        }
        let r = Vector2 { x: self.x.sub(other.x), y: self.y.sub(other.y) };
        proof {
            r.lemma_wf_parts();
            assert(r@ =~= vsub(self@, other@));
        }
        r
    }

    fn mul(self, rhs: Scalar) -> Self {
        proof {
            self.lemma_parts();
            lemma_mul_within(self.x@, rhs@, linear_limit(), linear_limit());
            lemma_mul_within(self.y@, rhs@, linear_limit(), linear_limit());
        }
        let r = Vector2 { x: self.x.mul(rhs), y: self.y.mul(rhs) };
        proof {
            r.lemma_wf_parts();
            assert(r@ =~= vmul_s(self@, rhs@));
        }
        r
    }

    fn div(self, rhs: Scalar) -> Self {
        proof {
            self.lemma_parts();
            lemma_div_within(self.x@, rhs@, linear_limit(), linear_limit());
            lemma_div_within(self.y@, rhs@, linear_limit(), linear_limit());
        }
        let r = Vector2 { x: self.x.div(rhs), y: self.y.div(rhs) };
        proof {
            r.lemma_wf_parts();
            assert(r@ =~= vdiv_s(self@, rhs@));
        }
        r
    }

    fn add_assign(&mut self, other: Self) {
        let s = *self;
        *self = s.add(other);
    }

    fn sub_assign(&mut self, other: Self) {
        let s = *self;
        *self = s.sub(other);
    }

    fn mul_assign(&mut self, rhs: Scalar) {
        let s = *self;
        *self = s.mul(rhs);
    }

    fn div_assign(&mut self, rhs: Scalar) {
        let s = *self;
        *self = s.div(rhs);
    }

    fn sqr_magnitude(&self) -> Scalar {
        self.dot(self)
    }

    fn dot(&self, other: &Self) -> Scalar {
        proof {
            self.lemma_parts();
            other.lemma_parts();
            lemma_mul_within(self.x@, other.x@, product_limit(), product_limit());
            lemma_mul_within(self.y@, other.y@, product_limit(), product_limit());
            lemma_add_within(
                rat_mul(self.x@, other.x@),
                rat_mul(self.y@, other.y@),
                product_limit() * product_limit(),
                product_limit() * product_limit(),
            );
            lemma_vdot2(self@, other@);
        }
        let mx = self.x.mul(other.x);
        let my = self.y.mul(other.y);
        mx.add(my)
    }

    fn scale(self, other: Self) -> Self {
        proof {
            self.lemma_parts();
            other.lemma_parts();
            lemma_mul_within(self.x@, other.x@, product_limit(), product_limit());
            lemma_mul_within(self.y@, other.y@, product_limit(), product_limit());
        }
        let r = Vector2 { x: self.x.mul(other.x), y: self.y.mul(other.y) };
        proof {
            r.lemma_wf_parts();
            assert(r@ =~= vhadamard(self@, other@));
        }
        r
    }

    fn lerp(self, other: Self, t: Scalar) -> Self {
        let zero = Scalar::from_int(0);
        let one = Scalar::from_int(1);
        proof {
            lemma_mul_within(t@, rat_int(0), product_limit(), 1);
            lemma_mul_within(rat_int(1), t@, 1, product_limit());
        }
        if t.le(&zero) {
            self
        } else if one.le(&t) {
            other
        } else {
            self.lerp_unclamped(other, t)
        }
    }

    fn lerp_unclamped(self, other: Self, t: Scalar) -> Self {
        let one = Scalar::from_int(1);
        proof {
            self.lemma_parts();
            other.lemma_parts();
            lemma_add_within(rat_int(1), t@, 1, product_limit());
        }
        let s = one.sub(t);
        proof {
            lemma_mul_within(s@, self.x@, 2 * product_limit(), product_limit());
            lemma_mul_within(s@, self.y@, 2 * product_limit(), product_limit());
            lemma_mul_within(t@, other.x@, product_limit(), product_limit());
            lemma_mul_within(t@, other.y@, product_limit(), product_limit());
            lemma_add_within(
                rat_mul(s@, self.x@),
                rat_mul(t@, other.x@),
                2 * product_limit() * product_limit(),
                product_limit() * product_limit(),
            );
            lemma_add_within(
                rat_mul(s@, self.y@),
                rat_mul(t@, other.y@),
                2 * product_limit() * product_limit(),
                product_limit() * product_limit(),
            );
        }
        let r = Vector2 {
            x: s.mul(self.x).add(t.mul(other.x)),
            y: s.mul(self.y).add(t.mul(other.y)),
        };
        proof {
            r.lemma_wf_parts();
            assert(r@ =~= vlerp_unclamped(self@, other@, t@));
        }
        r
    }

    fn clamp_magnitude(self, max_len: Scalar) -> Self {
        let zero = Scalar::from_int(0);
        proof {
            self.lemma_parts();
            lemma_vwithin_widen(self@, nested_limit(), product_limit());
            lemma_mul_within(max_len@, rat_int(0), nested_limit(), 1);
            lemma_mul_within(max_len@, max_len@, nested_limit(), nested_limit());
            lemma_vdot_within(self@, self@, nested_limit());
            lemma_mul_within(
                rat_mul(max_len@, max_len@),
                vdot(self@, self@),
                nested_limit() * nested_limit(),
                4 * (nested_limit() * nested_limit() * nested_limit() * nested_limit()
                    * nested_limit() * nested_limit()),
            );
        }
        let s = self.sqr_magnitude();
        let m2 = max_len.mul(max_len);
        let exceeds = if max_len.lt(&zero) {
            true
        } else {
            m2.lt(&s)
        };
        if exceeds {
            proof {
                lemma_div_within(self.x@, max_len@, nested_limit(), nested_limit());
                lemma_div_within(self.y@, max_len@, nested_limit(), nested_limit());
            }
            let r = Vector2 { x: self.x.div(max_len), y: self.y.div(max_len) };
            proof {
                r.lemma_wf_parts();
                assert(r@ =~= vdiv_s(self@, max_len@));
            }
            r
        } else {
            self
        }
    }

    fn reflect(self, normal: Self) -> Self {
        proof {
            self.lemma_parts();
            normal.lemma_parts();
            lemma_vwithin_widen(self@, nested_limit(), product_limit());
            lemma_vwithin_widen(normal@, nested_limit(), product_limit());
            lemma_vdot_within(self@, normal@, nested_limit());
        }
        let d = self.dot(&normal);
        let k = Scalar::from_int(-2).mul(d);
        proof {
            lemma_mul_within(
                rat_int(-2),
                d@,
                2,
                4 * (nested_limit() * nested_limit() * nested_limit() * nested_limit()
                    * nested_limit() * nested_limit()),
            );
            let k6: int = 8 * (nested_limit() * nested_limit() * nested_limit() * nested_limit()
                * nested_limit() * nested_limit());
            lemma_mul_within(k@, normal.x@, k6, nested_limit());
            lemma_mul_within(k@, normal.y@, k6, nested_limit());
            lemma_add_within(rat_mul(k@, normal.x@), self.x@, k6 * nested_limit(), nested_limit());
            lemma_add_within(rat_mul(k@, normal.y@), self.y@, k6 * nested_limit(), nested_limit());
        }
        let r = Vector2 {
            x: k.mul(normal.x).add(self.x),
            y: k.mul(normal.y).add(self.y),
        };
        proof {
            r.lemma_wf_parts();
            assert(r@ =~= vreflect(self@, normal@));
        }
        r
    }

    fn project(self, onto: Self) -> Self {
        proof {
            self.lemma_parts();
            onto.lemma_parts();
            lemma_vwithin_widen(self@, project_limit(), product_limit());
            lemma_vwithin_widen(onto@, project_limit(), product_limit());
            lemma_vdot_within(self@, onto@, project_limit());
            lemma_vdot_within(onto@, onto@, project_limit());
            lemma_vdot_self_zero(onto@);
        }
        let dv = self.dot(&onto);
        let dd = onto.dot(&onto);
        proof {
            let p6: int = 4 * (project_limit() * project_limit() * project_limit() * project_limit()
                * project_limit() * project_limit());
            assert(p6 == 72057594037927936) by (nonlinear_arith)
                requires
                    p6 == 4 * (project_limit() * project_limit() * project_limit()
                        * project_limit() * project_limit() * project_limit()),
                    project_limit() == 0x200,
            ;
            assert(p6 * p6 == 5192296858534827628530496329220096) by (nonlinear_arith)
                requires
                    p6 == 72057594037927936,
            ;
            assert(p6 * p6 * project_limit() == 2658455991569831745807614120560689152)
                by (nonlinear_arith)
                requires
                    p6 * p6 == 5192296858534827628530496329220096,
                    project_limit() == 0x200,
            ;
            lemma_div_within(dv@, dd@, p6, p6);
            lemma_mul_within(rat_div(dv@, dd@), onto.x@, p6 * p6, project_limit());
            lemma_mul_within(rat_div(dv@, dd@), onto.y@, p6 * p6, project_limit());
        }
        let k = dv.div(dd);
        let r = Vector2 { x: k.mul(onto.x), y: k.mul(onto.y) };
        proof {
            r.lemma_wf_parts();
            assert(r@ =~= vproject(self@, onto@));
        }
        r
    }

    fn le(&self, other: &Self) -> bool {
        proof {
            self.lemma_parts();
            other.lemma_parts();
            lemma_mul_within(self.x@, other.x@, linear_limit(), linear_limit());
            lemma_mul_within(self.y@, other.y@, linear_limit(), linear_limit());
            reveal_with_fuel(lex_le, 4);
            assert(self@.skip(1) =~= seq![self.y@]);
            assert(other@.skip(1) =~= seq![other.y@]);
            assert(seq![self.y@].skip(1) =~= Seq::<Rational>::empty());
            assert(seq![other.y@].skip(1) =~= Seq::<Rational>::empty());
        }
        if self.x.lt(&other.x) {
            true
        } else if self.x.eq_value(&other.x) {
            self.y.le(&other.y)
        } else {
            false
        }
    }

    fn eq_value(&self, other: &Self) -> bool {
        proof {
            self.lemma_parts();
            other.lemma_parts();
            lemma_mul_within(self.x@, other.x@, linear_limit(), linear_limit());
            lemma_mul_within(self.y@, other.y@, linear_limit(), linear_limit());
        }
        let ex = self.x.eq_value(&other.x);
        let ey = self.y.eq_value(&other.y);
        let r = ex && ey;
        proof {
            if r {
                assert forall|i: int| 0 <= i < self@.len() implies rat_eqv(
                    #[trigger] self@[i],
                    other@[i],
                ) by {
                    assert(i == 0 || i == 1);
                }
                assert(veqv(self@, other@));
            } else {
                if veqv(self@, other@) {
                    assert(rat_eqv(self@[0], other@[0]));
                    assert(rat_eqv(self@[1], other@[1]));
                }
            }
        }
        r
    }

    fn max(self, other: Self) -> Self {
        if other.le(&self) {
            self
        } else {
            other
        }
    }

    fn min(self, other: Self) -> Self {
        if self.le(&other) {
            self
        } else {
            other
        }
    }
}

impl From<Vector3> for Vector2 {
    /// Narrows a `Vector3` into a `Vector2`, discarding the third component.
    fn from(vector: Vector3) -> (r: Vector2) {
        Vector2 { x: vector.x, y: vector.y }
    }
}

impl FromSpecImpl<Vector3> for Vector2 {
    open spec fn obeys_from_spec() -> bool {
        true
    }

    open spec fn from_spec(vector: Vector3) -> Vector2 {
        Vector2 { x: vector.x, y: vector.y }
    }
}

/// The model of a narrowed `Vector3` is the original model with the third
/// component dropped.
pub proof fn lemma_narrow_model(v: Vector3)
    ensures
        <Vector2 as FromSpec<Vector3>>::from_spec(v)@ == v@.take(2),
{
    assert(<Vector2 as FromSpec<Vector3>>::from_spec(v)@ =~= v@.take(2));
}

} // verus!
