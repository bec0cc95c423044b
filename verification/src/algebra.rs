//! The mathematical model of vectors and its laws.
//!
//! A vector's value is a sequence of [`Rational`] components. The functions
//! here define, at the specification level, exactly what each vector
//! operation computes; the executable methods of the vector types promise in
//! their contracts to return these values. The lemmas at the end state the
//! algebraic laws of the operations (identities, symmetry, anti-symmetry,
//! interpolation endpoints) and are proved once for every dimension.

use vstd::prelude::*;

use crate::scalar::{
    fits, lemma_add_within, lemma_eqv_zero, lemma_mul_within, lemma_rat_add_zero,
    lemma_rat_blend_one, lemma_rat_blend_zero, lemma_rat_cross_term, lemma_rat_mul_one,
    lemma_rat_mul_sub_self, lemma_rat_mul_symmetric, lemma_rat_sub_self,
    lemma_rat_sub_square_symmetric, rat_add, rat_div, rat_eqv, rat_int, rat_lt, rat_mul,
    rat_neg, rat_sub, rat_wf, rat_within, Rational,
};

verus! {

/// Every component is well-formed.
pub open spec fn vwf(a: Seq<Rational>) -> bool {
    forall|i: int| 0 <= i < a.len() ==> rat_wf(#[trigger] a[i])
}

/// Every component is within `bound` (see [`rat_within`]).
pub open spec fn vwithin(a: Seq<Rational>, bound: int) -> bool {
    forall|i: int| 0 <= i < a.len() ==> rat_within(#[trigger] a[i], bound)
}

/// Componentwise value equality of two vectors.
pub open spec fn veqv(a: Seq<Rational>, b: Seq<Rational>) -> bool {
    &&& a.len() == b.len()
    &&& forall|i: int| 0 <= i < a.len() ==> rat_eqv(#[trigger] a[i], b[i])
}

/// The zero vector of dimension `n`.
pub open spec fn vzero(n: nat) -> Seq<Rational> {
    Seq::new(n, |i: int| rat_int(0))
}

/// Componentwise negation.
pub open spec fn vneg(a: Seq<Rational>) -> Seq<Rational> {
    Seq::new(a.len(), |i: int| rat_neg(a[i]))
}

/// Componentwise sum.
pub open spec fn vadd(a: Seq<Rational>, b: Seq<Rational>) -> Seq<Rational> {
    Seq::new(a.len(), |i: int| rat_add(a[i], b[i]))
}

/// Componentwise difference.
pub open spec fn vsub(a: Seq<Rational>, b: Seq<Rational>) -> Seq<Rational> {
    Seq::new(a.len(), |i: int| rat_sub(a[i], b[i]))
}

/// Vector times scalar, the scalar on the right: `a * s`.
pub open spec fn vmul_s(a: Seq<Rational>, s: Rational) -> Seq<Rational> {
    Seq::new(a.len(), |i: int| rat_mul(a[i], s))
}

/// Scalar times vector, the scalar on the left: `s * a`.
pub open spec fn vscale(s: Rational, a: Seq<Rational>) -> Seq<Rational> {
    Seq::new(a.len(), |i: int| rat_mul(s, a[i]))
}

/// Vector divided by a scalar, componentwise.
pub open spec fn vdiv_s(a: Seq<Rational>, s: Rational) -> Seq<Rational> {
    Seq::new(a.len(), |i: int| rat_div(a[i], s))
}

/// A scalar divided by a vector, componentwise: `s / a`. Meaningful only
/// when every component is nonzero.
pub open spec fn vscalar_div(s: Rational, a: Seq<Rational>) -> Seq<Rational> {
    Seq::new(a.len(), |i: int| rat_div(s, a[i]))
}

/// Componentwise (Hadamard) product of two vectors.
pub open spec fn vhadamard(a: Seq<Rational>, b: Seq<Rational>) -> Seq<Rational> {
    Seq::new(a.len(), |i: int| rat_mul(a[i], b[i]))
}

/// Dot product: the sum of the componentwise products.
pub open spec fn vdot(a: Seq<Rational>, b: Seq<Rational>) -> Rational
    decreases a.len(),
{
    if a.len() == 0 {
        rat_int(0)
    } else {
        rat_add(vdot(a.drop_last(), b.drop_last()), rat_mul(a.last(), b.last()))
    }
}

/// Linear interpolation without clamping: `(1 - t) * a + t * b`.
pub open spec fn vlerp_unclamped(a: Seq<Rational>, b: Seq<Rational>, t: Rational) -> Seq<
    Rational,
> {
    vadd(vscale(rat_sub(rat_int(1), t), a), vscale(t, b))
}

/// Reflection of `v` across the plane with normal `n`: `-2 * (v . n) * n + v`.
/// The caller is expected to pass a unit-length normal; the formula itself is
/// applied as written either way.
pub open spec fn vreflect(v: Seq<Rational>, n: Seq<Rational>) -> Seq<Rational> {
    vadd(vscale(rat_mul(rat_int(-2), vdot(v, n)), n), v)
}

/// Projection of `v` onto `o`: `((v . o) / (o . o)) * o`.
/// Meaningful only when `o` is not the zero vector.
pub open spec fn vproject(v: Seq<Rational>, o: Seq<Rational>) -> Seq<Rational> {
    vscale(rat_div(vdot(v, o), vdot(o, o)), o)
}

/// The 3-dimensional cross product.
pub open spec fn vcross(a: Seq<Rational>, b: Seq<Rational>) -> Seq<Rational> {
    seq![
        rat_sub(rat_mul(a[1], b[2]), rat_mul(a[2], b[1])),
        rat_sub(rat_mul(a[2], b[0]), rat_mul(a[0], b[2])),
        rat_sub(rat_mul(a[0], b[1]), rat_mul(a[1], b[0])),
    ]
}

/// Lexicographic value ordering on vectors of equal dimension, the ordering
/// that componentwise comparison induces.
pub open spec fn lex_le(a: Seq<Rational>, b: Seq<Rational>) -> bool
    decreases a.len(),
{
    if a.len() == 0 || b.len() == 0 {
        true
    } else if rat_lt(a[0], b[0]) {
        true
    } else if rat_eqv(a[0], b[0]) {
        lex_le(a.skip(1), b.skip(1))
    } else {
        false
    }
}

/// Whether the Euclidean magnitude of `v` is greater than `m`, written
/// without a square root: `sqrt(v . v) > m` iff `m < 0` or `m * m < v . v`.
pub open spec fn magnitude_exceeds(v: Seq<Rational>, m: Rational) -> bool {
    rat_lt(m, rat_int(0)) || rat_lt(rat_mul(m, m), vdot(v, v))
}

/// Component limit for the linear operations (sums, differences, scalar
/// products, comparisons): numerators and denominators up to `2^62`.
pub open spec fn linear_limit() -> int {
    0x4000_0000_0000_0000
}

/// Component limit for the quadratic operations (dot product, squared
/// magnitude, Hadamard product, cross product, interpolation): up to `2^20`.
pub open spec fn product_limit() -> int {
    0x10_0000
}

/// Component limit for the operations that nest a dot product inside
/// further arithmetic (reflection, magnitude clamping): up to `2^15`.
pub open spec fn nested_limit() -> int {
    0x8000
}

/// Component limit for projection, which divides one dot product by
/// another before scaling: up to `2^9`.
pub open spec fn project_limit() -> int {
    0x200
}

/// A vector within a limit is within every larger limit.
pub proof fn lemma_vwithin_widen(a: Seq<Rational>, p: int, q: int)
    requires
        vwithin(a, p),
        p <= q,
    ensures
        vwithin(a, q),
{
    assert forall|i: int| 0 <= i < a.len() implies rat_within(#[trigger] a[i], q) by {
        assert(rat_within(a[i], p));
    }
}

/// Unfolding of the dot product in dimension 2.
pub proof fn lemma_vdot2(a: Seq<Rational>, b: Seq<Rational>)
    requires
        a.len() == 2,
        b.len() == 2,
    ensures
        vdot(a, b) == rat_add(rat_mul(a[0], b[0]), rat_mul(a[1], b[1])),
{
    reveal_with_fuel(vdot, 4);
    let a1 = a.drop_last();
    let b1 = b.drop_last();
    assert(a1.drop_last().len() == 0);
    assert(vdot(a1, b1) == rat_add(rat_int(0), rat_mul(a[0], b[0])));
}

/// Unfolding of the dot product in dimension 3.
pub proof fn lemma_vdot3(a: Seq<Rational>, b: Seq<Rational>)
    requires
        a.len() == 3,
        b.len() == 3,
    ensures
        vdot(a, b) == rat_add(
            rat_add(rat_mul(a[0], b[0]), rat_mul(a[1], b[1])),
            rat_mul(a[2], b[2]),
        ),
{
    lemma_vdot2(a.drop_last(), b.drop_last());
    reveal_with_fuel(vdot, 2);
}

/// The dot product of two bounded vectors of dimension 2 or 3 is within
/// `4 * bound^6`.
pub proof fn lemma_vdot_within(a: Seq<Rational>, b: Seq<Rational>, bound: int)
    requires
        1 <= bound,
        a.len() == b.len(),
        a.len() == 2 || a.len() == 3,
        vwf(a),
        vwf(b),
        vwithin(a, bound),
        vwithin(b, bound),
        fits(4 * (bound * bound * bound * bound * bound * bound)),
    ensures
        rat_wf(vdot(a, b)),
        rat_within(vdot(a, b), 4 * (bound * bound * bound * bound * bound * bound)),
{
    let b2: int = bound * bound;
    let b4: int = b2 * b2;
    let b6: int = b4 * b2;
    assert(1 <= b2 && 1 <= b4 && 1 <= b6 && b2 <= b4 && b4 <= b6 && b6 <= 4 * b6 && 2 * b4
        <= 4 * b6 && 2 * b2 * b2 == 2 * b4 && 2 * (2 * b4) * b2 == 4 * b6 && bound * bound
        == b2 && 4 * (bound * bound * bound * bound * bound * bound) == 4 * b6)
        by (nonlinear_arith)
        requires
            1 <= bound,
            b2 == bound * bound,
            b4 == b2 * b2,
            b6 == b4 * b2,
    ;
    lemma_mul_within(a[0], b[0], bound, bound);
    lemma_mul_within(a[1], b[1], bound, bound);
    lemma_add_within(rat_mul(a[0], b[0]), rat_mul(a[1], b[1]), b2, b2);
    if a.len() == 2 {
        lemma_vdot2(a, b);
    } else {
        lemma_mul_within(a[2], b[2], bound, bound);
        lemma_add_within(
            rat_add(rat_mul(a[0], b[0]), rat_mul(a[1], b[1])),
            rat_mul(a[2], b[2]),
            2 * b4,
            b2,
        );
        lemma_vdot3(a, b);
    }
}

/// The dot product of a well-formed vector of dimension 2 or 3 with itself
/// has numerator zero exactly when the vector is the zero vector.
pub proof fn lemma_vdot_self_zero(a: Seq<Rational>)
    requires
        a.len() == 2 || a.len() == 3,
        vwf(a),
    ensures
        vdot(a, a).num == 0 <==> veqv(a, vzero(a.len())),
{
    if a.len() == 2 {
        lemma_vdot2(a, a);
        assert(vdot(a, a).num == a[0].num * a[0].num * (a[1].den * a[1].den) + a[1].num
            * a[1].num * (a[0].den * a[0].den));
        assert(vdot(a, a).num == 0 <==> (a[0].num == 0 && a[1].num == 0))
            by (nonlinear_arith)
            requires
                vdot(a, a).num == a[0].num * a[0].num * (a[1].den * a[1].den) + a[1].num
                    * a[1].num * (a[0].den * a[0].den),
                a[0].den > 0,
                a[1].den > 0,
        ;
        if a[0].num == 0 && a[1].num == 0 {
            assert forall|i: int| 0 <= i < a.len() implies rat_eqv(
                #[trigger] a[i],
                vzero(a.len())[i],
            ) by {
                assert(vzero(a.len())[i] == rat_int(0));
                assert(a[i] == a[0] || a[i] == a[1]);
                lemma_eqv_zero(a[i]);
            }
            assert(veqv(a, vzero(a.len())));
        }
        if veqv(a, vzero(a.len())) {
            assert(rat_eqv(a[0], vzero(a.len())[0]));
            assert(rat_eqv(a[1], vzero(a.len())[1]));
            assert(vzero(a.len())[0] == rat_int(0));
            assert(vzero(a.len())[1] == rat_int(0));
            lemma_eqv_zero(a[0]);
            lemma_eqv_zero(a[1]);
        }
    } else {
        lemma_vdot3(a, a);
        let s2 = rat_add(rat_mul(a[0], a[0]), rat_mul(a[1], a[1]));
        assert(vdot(a, a).num == s2.num * (a[2].den * a[2].den) + a[2].num * a[2].num
            * s2.den);
        assert(s2.num == a[0].num * a[0].num * (a[1].den * a[1].den) + a[1].num * a[1].num
            * (a[0].den * a[0].den));
        assert(s2.den == a[0].den * a[0].den * (a[1].den * a[1].den));
        assert(vdot(a, a).num == 0 <==> (a[0].num == 0 && a[1].num == 0 && a[2].num == 0))
            by (nonlinear_arith)
            requires
                vdot(a, a).num == s2.num * (a[2].den * a[2].den) + a[2].num * a[2].num
                    * s2.den,
                s2.num == a[0].num * a[0].num * (a[1].den * a[1].den) + a[1].num * a[1].num
                    * (a[0].den * a[0].den),
                s2.den == a[0].den * a[0].den * (a[1].den * a[1].den),
                a[0].den > 0,
                a[1].den > 0,
                a[2].den > 0,
        ;
        if a[0].num == 0 && a[1].num == 0 && a[2].num == 0 {
            assert forall|i: int| 0 <= i < a.len() implies rat_eqv(
                #[trigger] a[i],
                vzero(a.len())[i],
            ) by {
                assert(vzero(a.len())[i] == rat_int(0));
                assert(a[i] == a[0] || a[i] == a[1] || a[i] == a[2]);
                lemma_eqv_zero(a[i]);
            }
            assert(veqv(a, vzero(a.len())));
        }
        if veqv(a, vzero(a.len())) {
            assert(rat_eqv(a[0], vzero(a.len())[0]));
            assert(rat_eqv(a[1], vzero(a.len())[1]));
            assert(rat_eqv(a[2], vzero(a.len())[2]));
            assert(vzero(a.len())[0] == rat_int(0));
            assert(vzero(a.len())[1] == rat_int(0));
            assert(vzero(a.len())[2] == rat_int(0));
            lemma_eqv_zero(a[0]);
            lemma_eqv_zero(a[1]);
            lemma_eqv_zero(a[2]);
        }
    }
}

/// Adding the zero vector changes nothing: `v + zero() == v`, exactly, for
/// every well-formed vector.
pub proof fn lemma_add_zero_identity(v: Seq<Rational>)
    ensures
        vadd(v, vzero(v.len())) == v,
{
    assert forall|i: int| 0 <= i < v.len() implies vadd(v, vzero(v.len()))[i] == v[i] by {
        assert(vzero(v.len())[i] == rat_int(0));
        lemma_rat_add_zero(v[i]);
    }
    assert(vadd(v, vzero(v.len())) =~= v);
}

/// Subtracting a vector from itself gives the zero vector: `v - v == zero()`
/// as values, for every vector.
pub proof fn lemma_sub_self_zero(v: Seq<Rational>)
    ensures
        veqv(vsub(v, v), vzero(v.len())),
{
    assert forall|i: int| 0 <= i < v.len() implies rat_eqv(
        #[trigger] vsub(v, v)[i],
        vzero(v.len())[i],
    ) by {
        assert(vzero(v.len())[i] == rat_int(0));
        lemma_rat_sub_self(v[i]);
    }
}

/// Scaling by one changes nothing: `v * 1 == v`, exactly, for every vector.
pub proof fn lemma_mul_one_identity(v: Seq<Rational>)
    ensures
        vmul_s(v, rat_int(1)) == v,
{
    assert forall|i: int| 0 <= i < v.len() implies vmul_s(v, rat_int(1))[i] == v[i] by {
        lemma_rat_mul_one(v[i]);
    }
    assert(vmul_s(v, rat_int(1)) =~= v);
}

/// The dot product is commutative: `dot(a, b) == dot(b, a)`, exactly, for
/// all vectors of equal dimension.
pub proof fn lemma_dot_symmetric(a: Seq<Rational>, b: Seq<Rational>)
    requires
        a.len() == b.len(),
    ensures
        vdot(a, b) == vdot(b, a),
    decreases a.len(),
{
    if a.len() > 0 {
        lemma_dot_symmetric(a.drop_last(), b.drop_last());
        lemma_rat_mul_symmetric(a.last(), b.last());
    }
}

/// Two vectors whose squared components agree have the same dot product
/// with themselves.
proof fn lemma_vdot_square_congruent(u: Seq<Rational>, w: Seq<Rational>)
    requires
        u.len() == w.len(),
        forall|i: int|
            0 <= i < u.len() ==> rat_mul(#[trigger] u[i], u[i]) == rat_mul(w[i], w[i]),
    ensures
        vdot(u, u) == vdot(w, w),
    decreases u.len(),
{
    if u.len() > 0 {
        assert(rat_mul(u[u.len() - 1], u[u.len() - 1]) == rat_mul(
            w[w.len() - 1],
            w[w.len() - 1],
        ));
        lemma_vdot_square_congruent(u.drop_last(), w.drop_last());
    }
}

/// The squared distance is symmetric: the difference `a - b` has the same
/// dot product with itself as `b - a`, exactly. This is the algebraic core
/// of the symmetry of the Euclidean distance, whose square root is taken by
/// floating-point callers.
pub proof fn lemma_sqr_distance_symmetric(a: Seq<Rational>, b: Seq<Rational>)
    requires
        a.len() == b.len(),
    ensures
        vdot(vsub(a, b), vsub(a, b)) == vdot(vsub(b, a), vsub(b, a)),
{
    assert forall|i: int| 0 <= i < a.len() implies rat_mul(
        #[trigger] vsub(a, b)[i],
        vsub(a, b)[i],
    ) == rat_mul(vsub(b, a)[i], vsub(b, a)[i]) by {
        lemma_rat_sub_square_symmetric(a[i], b[i]);
    }
    lemma_vdot_square_congruent(vsub(a, b), vsub(b, a));
}

/// The cross product is anti-commutative:
/// `cross(a, b) == -cross(b, a)`, exactly.
pub proof fn lemma_cross_antisymmetric(a: Seq<Rational>, b: Seq<Rational>)
    requires
        a.len() == 3,
        b.len() == 3,
    ensures
        vcross(a, b) == vneg(vcross(b, a)),
{
    lemma_rat_cross_term(a[1], b[2], a[2], b[1]);
    lemma_rat_cross_term(a[2], b[0], a[0], b[2]);
    lemma_rat_cross_term(a[0], b[1], a[1], b[0]);
    assert(vcross(a, b) =~= vneg(vcross(b, a)));
}

/// The cross product of a vector with itself is the zero vector, as values.
pub proof fn lemma_cross_self_zero(a: Seq<Rational>)
    requires
        a.len() == 3,
    ensures
        veqv(vcross(a, a), vzero(3)),
{
    assert forall|i: int| 0 <= i < 3 implies rat_eqv(
        #[trigger] vcross(a, a)[i],
        vzero(3)[i],
    ) by {
        assert(vzero(3)[i] == rat_int(0));
        lemma_rat_mul_sub_self(a[1], a[2]);
        lemma_rat_mul_sub_self(a[2], a[0]);
        lemma_rat_mul_sub_self(a[0], a[1]);
        assert(i == 0 || i == 1 || i == 2);
    }
    assert(vcross(a, a).len() == vzero(3).len());
}

/// The unclamped blend hits its endpoints as values: at `t == 0` it has the
/// value of `a`, at `t == 1` the value of `b`. (The clamped interpolation
/// returns the endpoints themselves, which its contract states exactly.)
pub proof fn lemma_lerp_unclamped_endpoints(a: Seq<Rational>, b: Seq<Rational>)
    requires
        a.len() == b.len(),
        vwf(a),
        vwf(b),
    ensures
        veqv(vlerp_unclamped(a, b, rat_int(0)), a),
        veqv(vlerp_unclamped(a, b, rat_int(1)), b),
{
    assert forall|i: int| 0 <= i < a.len() implies rat_eqv(
        #[trigger] vlerp_unclamped(a, b, rat_int(0))[i],
        a[i],
    ) by {
        lemma_rat_blend_zero(a[i], b[i]);
    }
    assert forall|i: int| 0 <= i < a.len() implies rat_eqv(
        #[trigger] vlerp_unclamped(a, b, rat_int(1))[i],
        b[i],
    ) by {
        lemma_rat_blend_one(a[i], b[i]);
    }
}

} // verus!

