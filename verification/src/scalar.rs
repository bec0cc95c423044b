//! The scalar type of the library: an exact rational number.
//!
//! A scalar is a fraction of two machine integers with a positive
//! denominator. Its mathematical value is the ghost [`Rational`], a fraction
//! of unbounded integers, and every executable operation states in its
//! contract exactly which rational it returns. Operations do not reduce
//! fractions, so the contracts pin down the representation itself, not just
//! the value; value equality is a separate, explicit comparison.
//!
//! Every operation multiplies numerators and denominators, so each carries a
//! precondition saying that those products fit the machine integer type.
//! Callers working with components below the documented limits discharge
//! those preconditions with the `lemma_*_within` lemmas.

use vstd::prelude::*;

verus! {

/// Mathematical value of a scalar: a fraction of unbounded integers,
/// well-formed when the denominator is positive.
pub ghost struct Rational {
    pub num: int,
    pub den: int,
}

/// A rational is well-formed when its denominator is positive.
pub open spec fn rat_wf(r: Rational) -> bool {
    r.den > 0
}

/// The rational with value `n`.
pub open spec fn rat_int(n: int) -> Rational {
    Rational { num: n, den: 1 }
}

/// Exact sum: `a/b + c/d == (a*d + c*b) / (b*d)`.
pub open spec fn rat_add(a: Rational, b: Rational) -> Rational {
    Rational { num: a.num * b.den + b.num * a.den, den: a.den * b.den }
}

/// Exact difference: `a/b - c/d == (a*d - c*b) / (b*d)`.
pub open spec fn rat_sub(a: Rational, b: Rational) -> Rational {
    Rational { num: a.num * b.den - b.num * a.den, den: a.den * b.den }
}

/// Exact product: `(a/b) * (c/d) == (a*c) / (b*d)`.
pub open spec fn rat_mul(a: Rational, b: Rational) -> Rational {
    Rational { num: a.num * b.num, den: a.den * b.den }
}

/// Exact negation.
pub open spec fn rat_neg(a: Rational) -> Rational {
    Rational { num: -a.num, den: a.den }
}

/// Exact quotient `(a/b) / (c/d) == (a*d) / (b*c)`, with the sign moved into
/// the numerator so the denominator stays positive. Meaningful only when the
/// divisor is nonzero.
pub open spec fn rat_div(a: Rational, b: Rational) -> Rational {
    if b.num >= 0 {
        Rational { num: a.num * b.den, den: a.den * b.num }
    } else {
        Rational { num: -(a.num * b.den), den: -(a.den * b.num) }
    }
}

/// Value equality of two well-formed rationals: `a/b == c/d` iff `a*d == c*b`.
pub open spec fn rat_eqv(a: Rational, b: Rational) -> bool {
    a.num * b.den == b.num * a.den
}

/// Value ordering of two well-formed rationals: `a/b <= c/d` iff `a*d <= c*b`.
pub open spec fn rat_le(a: Rational, b: Rational) -> bool {
    a.num * b.den <= b.num * a.den
}

/// Strict value ordering of two well-formed rationals.
pub open spec fn rat_lt(a: Rational, b: Rational) -> bool {
    a.num * b.den < b.num * a.den
}

/// Both numerator and denominator are bounded by `bound` in magnitude
/// (and the denominator is positive).
pub open spec fn rat_within(r: Rational, bound: int) -> bool {
    &&& -bound <= r.num
    &&& r.num <= bound
    &&& 0 < r.den
    &&& r.den <= bound
}

/// `x` can be carried by the scalar's machine integer type.
/// The range is kept symmetric so that a fitting value can also be negated.
pub open spec fn fits(x: int) -> bool {
    -(i128::MAX as int) <= x <= i128::MAX as int
}

/// All products formed when adding `a` and `b` fit the machine integers.
pub open spec fn add_fits(a: Rational, b: Rational) -> bool {
    &&& fits(a.num * b.den)
    &&& fits(b.num * a.den)
    &&& fits(a.num * b.den + b.num * a.den)
    &&& fits(a.den * b.den)
}

/// All products formed when subtracting `b` from `a` fit the machine integers.
pub open spec fn sub_fits(a: Rational, b: Rational) -> bool {
    &&& fits(a.num * b.den)
    &&& fits(b.num * a.den)
    &&& fits(a.num * b.den - b.num * a.den)
    &&& fits(a.den * b.den)
}

/// Both products formed when multiplying `a` and `b` fit the machine integers.
pub open spec fn mul_fits(a: Rational, b: Rational) -> bool {
    &&& fits(a.num * b.num)
    &&& fits(a.den * b.den)
}

/// Both products formed when dividing `a` by `b` fit the machine integers.
pub open spec fn div_fits(a: Rational, b: Rational) -> bool {
    &&& fits(a.num * b.den)
    &&& fits(a.den * b.num)
}

/// Both cross products formed when comparing `a` and `b` fit the machine
/// integers.
pub open spec fn cmp_fits(a: Rational, b: Rational) -> bool {
    &&& fits(a.num * b.den)
    &&& fits(b.num * a.den)
}

/// An exact rational scalar: `num / den` with `den > 0`.
///
/// The fields are public so that callers and contracts can see the exact
/// representation, mirroring the component fields of the vector types.
/// Constructors only build values with a positive denominator; operations
/// require well-formed inputs (`wf`) and preserve well-formedness.
#[derive(Clone, Copy, Debug, PartialEq, Eq, Structural)]
pub struct Scalar {
    pub num: i128,
    pub den: i128,
}

impl View for Scalar {
    type V = Rational;

    open spec fn view(&self) -> Rational {
        Rational { num: self.num as int, den: self.den as int }
    }
}

impl Scalar {
    /// The scalar is well-formed: its denominator is positive.
    pub open spec fn wf(self) -> bool {
        rat_wf(self@)
    }

    /// Builds the scalar `num / den`, moving the divisor's sign into the
    /// numerator so the denominator is positive.
    pub fn new(num: i128, den: i128) -> (r: Self)
        requires
            den != 0,
            num != i128::MIN,
            den != i128::MIN,
        ensures
            r.wf(),
            den > 0 ==> r@ == (Rational { num: num as int, den: den as int }),
            den < 0 ==> r@ == (Rational { num: -(num as int), den: -(den as int) }),
    {
        if den > 0 {
            Scalar { num, den }
        } else {
            Scalar { num: -num, den: -den }
        }
    }

    /// The scalar with integer value `n`.
    pub fn from_int(n: i128) -> (r: Self)
        ensures
            r.wf(),
            r@ == rat_int(n as int),
    {
        Scalar { num: n, den: 1 }
    }

    /// Exact sum of two scalars.
    pub fn add(self, other: Self) -> (r: Self)
        requires
            self.wf(),
            other.wf(),
            add_fits(self@, other@),
        ensures
            r.wf(),
            r@ == rat_add(self@, other@),
    {
        proof {
            assert(self.den as int * (other.den as int) > 0) by (nonlinear_arith)
                requires
                    self.den > 0,
                    other.den > 0,
            ;
        }
        Scalar { num: self.num * other.den + other.num * self.den, den: self.den * other.den }
    }

    /// Exact difference of two scalars.
    pub fn sub(self, other: Self) -> (r: Self)
        requires
            self.wf(),
            other.wf(),
            sub_fits(self@, other@),
        ensures
            r.wf(),
            r@ == rat_sub(self@, other@),
    {
        proof {
            assert(self.den as int * (other.den as int) > 0) by (nonlinear_arith)
                requires
                    self.den > 0,
                    other.den > 0,
            ;
        }
        Scalar { num: self.num * other.den - other.num * self.den, den: self.den * other.den }
    }

    /// Exact product of two scalars.
    pub fn mul(self, other: Self) -> (r: Self)
        requires
            self.wf(),
            other.wf(),
            mul_fits(self@, other@),
        ensures
            r.wf(),
            r@ == rat_mul(self@, other@),
    {
        proof {
            assert(self.den as int * (other.den as int) > 0) by (nonlinear_arith)
                requires
                    self.den > 0,
                    other.den > 0,
            ;
        }
        Scalar { num: self.num * other.num, den: self.den * other.den }
    }

    /// Exact negation of a scalar.
    pub fn neg(self) -> (r: Self)
        requires
            self.wf(),
            self.num != i128::MIN,
        ensures
            r.wf(),
            r@ == rat_neg(self@),
    {
        Scalar { num: -self.num, den: self.den }
    }

    /// Exact quotient of two scalars; the divisor must be nonzero.
    pub fn div(self, other: Self) -> (r: Self)
        requires
            self.wf(),
            other.wf(),
            other@.num != 0,
            div_fits(self@, other@),
        ensures
            r.wf(),
            r@ == rat_div(self@, other@),
    {
        proof {
            assert(other.num > 0 ==> self.den as int * (other.num as int) > 0)
                by (nonlinear_arith)
                requires
                    self.den > 0,
            ;
            assert(other.num < 0 ==> self.den as int * (other.num as int) < 0)
                by (nonlinear_arith)
                requires
                    self.den > 0,
            ;
        }
        if other.num >= 0 {
            Scalar { num: self.num * other.den, den: self.den * other.num }
        } else {
            Scalar { num: -(self.num * other.den), den: -(self.den * other.num) }
        }
    }

    /// Value equality: whether the two fractions denote the same rational.
    pub fn eq_value(&self, other: &Self) -> (r: bool)
        requires
            self.wf(),
            other.wf(),
            cmp_fits(self@, other@),
        ensures
            r == rat_eqv(self@, other@),
    {
        self.num * other.den == other.num * self.den
    }

    /// Value ordering: whether `self <= other` as rationals.
    pub fn le(&self, other: &Self) -> (r: bool)
        requires
            self.wf(),
            other.wf(),
            cmp_fits(self@, other@),
        ensures
            r == rat_le(self@, other@),
    {
        self.num * other.den <= other.num * self.den
    }

    /// Strict value ordering: whether `self < other` as rationals.
    pub fn lt(&self, other: &Self) -> (r: bool)
        requires
            self.wf(),
            other.wf(),
            cmp_fits(self@, other@),
        ensures
            r == rat_lt(self@, other@),
    {
        self.num * other.den < other.num * self.den
    }

    /// Whether the scalar's value is zero.
    pub fn is_zero(&self) -> (r: bool)
        requires
            self.wf(),
        ensures
            r == rat_eqv(self@, rat_int(0)),
    {
        self.num == 0
    }
}

/// A rational has the value zero exactly when its numerator is zero.
pub proof fn lemma_eqv_zero(a: Rational)
    by (nonlinear_arith)
    ensures
        rat_eqv(a, rat_int(0)) <==> a.num == 0,
{
}

/// Adding zero changes nothing, exactly: not only the value but the
/// representation is kept.
pub proof fn lemma_rat_add_zero(a: Rational)
    by (nonlinear_arith)
    ensures
        rat_add(a, rat_int(0)) == a,
{
}

/// Multiplying by one changes nothing, exactly.
pub proof fn lemma_rat_mul_one(a: Rational)
    by (nonlinear_arith)
    ensures
        rat_mul(a, rat_int(1)) == a,
{
}

/// Subtracting a rational from itself gives the value zero.
pub proof fn lemma_rat_sub_self(a: Rational)
    by (nonlinear_arith)
    ensures
        rat_eqv(rat_sub(a, a), rat_int(0)),
{
}

/// Multiplication of rationals is commutative, exactly.
pub proof fn lemma_rat_mul_symmetric(a: Rational, b: Rational)
    by (nonlinear_arith)
    ensures
        rat_mul(a, b) == rat_mul(b, a),
{
}

/// The square of a difference does not depend on the order of the operands.
pub proof fn lemma_rat_sub_square_symmetric(a: Rational, b: Rational)
    by (nonlinear_arith)
    ensures
        rat_mul(rat_sub(a, b), rat_sub(a, b)) == rat_mul(rat_sub(b, a), rat_sub(b, a)),
{
}

/// The building block of cross-product anti-commutativity:
/// `p*q - r*s == -(s*r - q*p)`, exactly.
pub proof fn lemma_rat_cross_term(p: Rational, q: Rational, r: Rational, s: Rational)
    by (nonlinear_arith)
    ensures
        rat_sub(rat_mul(p, q), rat_mul(r, s)) == rat_neg(
            rat_sub(rat_mul(s, r), rat_mul(q, p)),
        ),
{
}

/// The difference of a product and its mirror image has the value zero.
pub proof fn lemma_rat_mul_sub_self(p: Rational, q: Rational)
    by (nonlinear_arith)
    ensures
        rat_eqv(rat_sub(rat_mul(p, q), rat_mul(q, p)), rat_int(0)),
{
}

/// The blend `(1 - 0) * x + 0 * y` has the value `x`.
pub proof fn lemma_rat_blend_zero(x: Rational, y: Rational)
    by (nonlinear_arith)
    requires
        rat_wf(x),
        rat_wf(y),
    ensures
        rat_eqv(rat_add(rat_mul(rat_sub(rat_int(1), rat_int(0)), x), rat_mul(rat_int(0), y)), x),
{
}

/// The blend `(1 - 1) * x + 1 * y` has the value `y`.
pub proof fn lemma_rat_blend_one(x: Rational, y: Rational)
    by (nonlinear_arith)
    requires
        rat_wf(x),
        rat_wf(y),
    ensures
        rat_eqv(rat_add(rat_mul(rat_sub(rat_int(1), rat_int(1)), x), rat_mul(rat_int(1), y)), y),
{
}

/// Bounded inputs make addition safe: if `a` and `b` are within `p` and `q`
/// and `2*p*q` fits, the sum's products fit and the sum is within `2*p*q`.
pub proof fn lemma_add_within(a: Rational, b: Rational, p: int, q: int)
    by (nonlinear_arith)
    requires
        1 <= p,
        1 <= q,
        rat_within(a, p),
        rat_within(b, q),
        fits(2 * p * q),
    ensures
        add_fits(a, b),
        sub_fits(a, b),
        rat_within(rat_add(a, b), 2 * p * q),
        rat_within(rat_sub(a, b), 2 * p * q),
{
}

/// Bounded inputs make multiplication safe: if `a` and `b` are within `p`
/// and `q` and `p*q` fits, the product's parts fit and it is within `p*q`.
pub proof fn lemma_mul_within(a: Rational, b: Rational, p: int, q: int)
    by (nonlinear_arith)
    requires
        1 <= p,
        1 <= q,
        rat_within(a, p),
        rat_within(b, q),
        fits(p * q),
    ensures
        mul_fits(a, b),
        cmp_fits(a, b),
        rat_within(rat_mul(a, b), p * q),
{
}

/// Bounded inputs make division safe: if `a` and `b` are within `p` and `q`,
/// `b` is nonzero and `p*q` fits, the quotient's parts fit and it is within
/// `p*q`.
pub proof fn lemma_div_within(a: Rational, b: Rational, p: int, q: int)
    by (nonlinear_arith)
    requires
        1 <= p,
        1 <= q,
        rat_within(a, p),
        rat_within(b, q),
        rat_wf(b),
        b.num != 0,
        fits(p * q),
    ensures
        div_fits(a, b),
        rat_within(rat_div(a, b), p * q),
{
}

} // verus!
