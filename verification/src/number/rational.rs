//! Rational numbers: an integer over a positive natural, kept as they are
//! computed, without reduction to lowest terms.

use crate::number::integer::Integer;
use crate::number::natural::Natural;
use vstd::prelude::*;

verus! {

/// A fraction of two mathematical integers: what a `Rational` holds.
pub struct Ratio {
    pub num: int,
    pub den: int,
}

impl Ratio {
    /// The whole number `v`, over one.
    pub open spec fn whole(v: int) -> Ratio {
        Ratio { num: v, den: 1 }
    }

    /// A fraction has a positive denominator.
    pub open spec fn valid(self) -> bool {
        self.den > 0
    }

    /// The sum, over the product of the denominators.
    pub open spec fn add(self, other: Ratio) -> Ratio {
        Ratio { num: self.num * other.den + other.num * self.den, den: self.den * other.den }
    }

    /// The difference, over the product of the denominators.
    pub open spec fn sub(self, other: Ratio) -> Ratio {
        Ratio { num: self.num * other.den - other.num * self.den, den: self.den * other.den }
    }

    /// The product: numerator times numerator over denominator times
    /// denominator.
    pub open spec fn mul(self, other: Ratio) -> Ratio {
        Ratio { num: self.num * other.num, den: self.den * other.den }
    }

    /// The quotient by a fraction other than zero; the sign moves to the
    /// numerator.
    pub open spec fn div(self, other: Ratio) -> Ratio {
        if other.num < 0 {
            Ratio { num: -(self.num * other.den), den: self.den * (-other.num) }
        } else {
            Ratio { num: self.num * other.den, den: self.den * other.num }
        }
    }

    /// Whether this fraction is the smaller number.
    pub open spec fn less_than(self, other: Ratio) -> bool {
        self.num * other.den < other.num * self.den
    }

    /// Whether the two fractions are the same number.
    pub open spec fn same(self, other: Ratio) -> bool {
        self.num * other.den == other.num * self.den
    }
}

/// A rational number.
#[derive(Debug)]
pub struct Rational {
    num: Integer,
    den: Natural,
}

impl View for Rational {
    type V = Ratio;

    closed spec fn view(&self) -> Ratio {
        Ratio { num: self.num@, den: self.den@ as int }
    }
}

impl Rational {
    #[verifier::type_invariant]
    spec fn positive_denominator(self) -> bool {
        self.den@ > 0
    }

    /// The fraction `num / den`, unless `den` is zero.
    pub fn new(num: Integer, den: Natural) -> (r: Option<Rational>)
        ensures
            r is Some <==> den@ != 0,
            r matches Some(q) ==> q@ == (Ratio { num: num@, den: den@ as int }),
    {
        if den.is_zero() {
            None
        } else {
            Some(Rational { num, den })
        }
    }

    /// The whole number `v`.
    pub fn from_int(v: i64) -> (r: Rational)
        ensures
            r@ == Ratio::whole(v as int),
    {
        Rational { num: Integer::from_i64(v), den: Natural::from_u64(1) }
    }

    /// The fraction `num / den`, unless `den` is zero.
    pub fn from_ratio(num: i64, den: u64) -> (r: Option<Rational>)
        ensures
            r is Some <==> den != 0,
            r matches Some(q) ==> q@ == (Ratio { num: num as int, den: den as int }),
    {
        Rational::new(Integer::from_i64(num), Natural::from_u64(den))
    }

    /// The numerator.
    pub fn numerator(&self) -> (n: Integer)
        ensures
            n@ == self@.num,
    {
        self.num.clone()
    }

    /// The denominator.
    pub fn denominator(&self) -> (d: Natural)
        ensures
            d@ == self@.den,
            self@.den > 0,
    {
        proof {
            use_type_invariant(self);
        }
        self.den.clone()
    }

    /// The sum of two numbers.
    pub fn add(&self, other: &Rational) -> (r: Rational)
        ensures
            r@ == self@.add(other@),
    {
        proof {
            use_type_invariant(self);
            use_type_invariant(other);
            lemma_product_positive(self.den@ as int, other.den@ as int);
        }
        let left: Integer = self.num.mul_natural(&other.den);
        let right: Integer = other.num.mul_natural(&self.den);
        Rational { num: left.add(&right), den: self.den.mul(&other.den) }
    }

    /// The difference of two numbers.
    pub fn sub(&self, other: &Rational) -> (r: Rational)
        ensures
            r@ == self@.sub(other@),
    {
        proof {
            use_type_invariant(self);
            use_type_invariant(other);
            lemma_product_positive(self.den@ as int, other.den@ as int);
        }
        let left: Integer = self.num.mul_natural(&other.den);
        let right: Integer = other.num.mul_natural(&self.den);
        Rational { num: left.sub(&right), den: self.den.mul(&other.den) }
    }

    /// The product of two numbers.
    pub fn mul(&self, other: &Rational) -> (r: Rational)
        ensures
            r@ == self@.mul(other@),
    {
        proof {
            use_type_invariant(self);
            use_type_invariant(other);
            lemma_product_positive(self.den@ as int, other.den@ as int);
        }
        Rational { num: self.num.mul(&other.num), den: self.den.mul(&other.den) }
    }

    /// The quotient of two numbers, unless the divisor is zero.
    pub fn div(&self, other: &Rational) -> (r: Option<Rational>)
        ensures
            r is Some <==> other@.num != 0,
            r matches Some(q) ==> q@ == self@.div(other@),
    {
        if other.num.is_zero() {
            return None;
        }
        proof {
            use_type_invariant(self);
            use_type_invariant(other);
            lemma_product_positive(self.den@ as int, crate::number::integer::abs(other.num@) as int);
        }
        let scaled: Integer = self.num.mul_natural(&other.den);
        let den: Natural = self.den.mul(&other.num.magnitude());
        if other.num.is_negative() {
            Some(Rational { num: scaled.negated(), den })
        } else {
            Some(Rational { num: scaled, den })
        }
    }

    /// Whether this number is less than `other`.
    pub fn less_than(&self, other: &Rational) -> (b: bool)
        ensures
            b == self@.less_than(other@),
    {
        let left: Integer = self.num.mul_natural(&other.den);
        let right: Integer = other.num.mul_natural(&self.den);
        left.less_than(&right)
    }

    /// Whether the two are the same number, whatever their terms.
    pub fn same_value(&self, other: &Rational) -> (b: bool)
        ensures
            b == self@.same(other@),
    {
        let left: Integer = self.num.mul_natural(&other.den);
        let right: Integer = other.num.mul_natural(&self.den);
        left.equals(&right)
    }
}

impl Clone for Rational {
    fn clone(&self) -> (r: Rational)
        ensures
            r@ == self@,
    {
        proof {
            use_type_invariant(self);
        }
        Rational { num: self.num.clone(), den: self.den.clone() }
    }
}

/// Multiplying by one over one changes nothing, not even the terms.
pub proof fn lemma_mul_whole_one(a: Ratio, one: Ratio)
    requires
        one == Ratio::whole(1),
    ensures
        a.mul(one) == a,
{
    assert(a.num * one.num == a.num) by (nonlinear_arith)
        requires
            one.num == 1,
    ;
    assert(a.den * one.den == a.den) by (nonlinear_arith)
        requires
            one.den == 1,
    ;
}

/// Adding zero over one changes nothing, not even the terms.
pub proof fn lemma_add_whole_zero(a: Ratio, zero: Ratio)
    requires
        zero == Ratio::whole(0),
    ensures
        a.add(zero) == a,
{
    assert(a.num * zero.den + zero.num * a.den == a.num) by (nonlinear_arith)
        requires
            zero.den == 1,
            zero.num == 0,
    ;
    assert(a.den * zero.den == a.den) by (nonlinear_arith)
        requires
            zero.den == 1,
    ;
}

/// The product of two positive integers is positive.
pub proof fn lemma_product_positive(a: int, b: int)
    by (nonlinear_arith)
    requires
        a > 0,
        b > 0,
    ensures
        a * b > 0,
{
}

/// Sums, differences and products of fractions are fractions.
pub proof fn lemma_valid_closed(a: Ratio, b: Ratio)
    requires
        a.valid(),
        b.valid(),
    ensures
        a.add(b).valid(),
        a.sub(b).valid(),
        a.mul(b).valid(),
{
    lemma_product_positive(a.den, b.den);
}

/// Being the same number is transitive.
pub proof fn lemma_same_transitive(a: Ratio, b: Ratio, c: Ratio)
    requires
        a.same(b),
        b.same(c),
        b.den != 0,
    ensures
        a.same(c),
{
    assert((a.num * c.den) * b.den == (c.num * a.den) * b.den) by (nonlinear_arith)
        requires
            a.num * b.den == b.num * a.den,
            b.num * c.den == c.num * b.den,
    ;
    assert(a.num * c.den == c.num * a.den) by (nonlinear_arith)
        requires
            (a.num * c.den) * b.den == (c.num * a.den) * b.den,
            b.den != 0,
    ;
}

proof fn lemma_rearrange(a: int, b: int, c: int, d: int)
    by (nonlinear_arith)
    ensures
        (a * b) * (c * d) == (a * c) * (b * d),
        (a * b) * (c * d) == (a * d) * (b * c),
        (a * b) * (c * d) == (c * d) * (a * b),
{
}

proof fn lemma_distribute(x: int, y: int, z: int)
    by (nonlinear_arith)
    ensures
        (x + y) * z == x * z + y * z,
        (x - y) * z == x * z - y * z,
{
}

/// The sum of the same numbers is the same number.
pub proof fn lemma_add_same(a: Ratio, a2: Ratio, b: Ratio, b2: Ratio)
    requires
        a.same(a2),
        b.same(b2),
    ensures
        a.add(b).same(a2.add(b2)),
{
    lemma_distribute(a.num * b.den, b.num * a.den, a2.den * b2.den);
    lemma_distribute(a2.num * b2.den, b2.num * a2.den, a.den * b.den);
    lemma_rearrange(a.num, b.den, a2.den, b2.den);
    lemma_rearrange(a2.num, a.den, b.den, b2.den);
    lemma_rearrange(a2.num, b2.den, a.den, b.den);
    lemma_rearrange(b.num, a.den, a2.den, b2.den);
    lemma_rearrange(b2.num, b.den, a.den, a2.den);
    lemma_rearrange(b2.num, a2.den, a.den, b.den);
}

/// The difference of the same numbers is the same number.
pub proof fn lemma_sub_same(a: Ratio, a2: Ratio, b: Ratio, b2: Ratio)
    requires
        a.same(a2),
        b.same(b2),
    ensures
        a.sub(b).same(a2.sub(b2)),
{
    lemma_distribute(a.num * b.den, b.num * a.den, a2.den * b2.den);
    lemma_distribute(a2.num * b2.den, b2.num * a2.den, a.den * b.den);
    lemma_rearrange(a.num, b.den, a2.den, b2.den);
    lemma_rearrange(a2.num, a.den, b.den, b2.den);
    lemma_rearrange(a2.num, b2.den, a.den, b.den);
    lemma_rearrange(b.num, a.den, a2.den, b2.den);
    lemma_rearrange(b2.num, b.den, a.den, a2.den);
    lemma_rearrange(b2.num, a2.den, a.den, b.den);
}

/// The product of the same numbers is the same number.
pub proof fn lemma_mul_same(a: Ratio, a2: Ratio, b: Ratio, b2: Ratio)
    requires
        a.same(a2),
        b.same(b2),
    ensures
        a.mul(b).same(a2.mul(b2)),
{
    let x = a.num * a2.den;
    let y = b.num * b2.den;
    assert((a.num * b.num) * (a2.den * b2.den) == x * y) by (nonlinear_arith)
        requires
            x == a.num * a2.den,
            y == b.num * b2.den,
    ;
    assert((a2.num * b2.num) * (a.den * b.den) == x * y) by (nonlinear_arith)
        requires
            x == a2.num * a.den,
            y == b2.num * b.den,
    ;
}

proof fn lemma_regroup(a: int, b: int, c: int)
    by (nonlinear_arith)
    ensures
        (a * b) * c == a * (b * c),
        (a * b) * c == (a * c) * b,
        (a * b) * c == c * (a * b),
{
}

proof fn lemma_scaled(n: int, d: int, k: int)
    by (nonlinear_arith)
    ensures
        n * (d * k) == (n * k) * d,
{
}

/// A fraction whose terms are both multiplied by `k` is the same number.
pub proof fn lemma_scaled_same(a: Ratio, b: Ratio, k: int)
    requires
        b.num == a.num * k,
        b.den == a.den * k,
    ensures
        a.same(b),
        b.same(a),
{
    lemma_scaled(a.num, a.den, k);
}

/// `(u + z) - (v + z)` is the number `u - v`.
pub proof fn lemma_sub_cancels(u: Ratio, v: Ratio, z: Ratio)
    ensures
        u.add(z).sub(v.add(z)).same(u.sub(v)),
{
    let l = u.add(z).sub(v.add(z));
    let r = u.sub(v);
    let k = z.den * z.den;
    lemma_distribute(u.num * z.den, z.num * u.den, v.den * z.den);
    lemma_distribute(v.num * z.den, z.num * v.den, u.den * z.den);
    lemma_rearrange(u.num, z.den, v.den, z.den);
    lemma_rearrange(z.num, u.den, v.den, z.den);
    lemma_rearrange(v.num, z.den, u.den, z.den);
    lemma_rearrange(u.den, z.den, v.den, z.den);
    lemma_distribute(u.num * v.den, v.num * u.den, k);
    assert(l.num == r.num * k);
    assert(l.den == r.den * k);
    lemma_scaled_same(r, l, k);
}

/// `u * w - v * w` is the number `(u - v) * w`.
pub proof fn lemma_sub_factors(u: Ratio, v: Ratio, w: Ratio)
    ensures
        u.mul(w).sub(v.mul(w)).same(u.sub(v).mul(w)),
{
    let l = u.mul(w).sub(v.mul(w));
    let r = u.sub(v).mul(w);
    lemma_rearrange(u.num, w.num, v.den, w.den);
    lemma_rearrange(v.num, w.num, u.den, w.den);
    lemma_rearrange(u.den, w.den, v.den, w.den);
    lemma_regroup(u.num * v.den, w.num, w.den);
    lemma_regroup(v.num * u.den, w.num, w.den);
    lemma_regroup(u.den * v.den, w.den, w.den);
    lemma_distribute((u.num * v.den) * w.num, (v.num * u.den) * w.num, w.den);
    lemma_distribute(u.num * v.den, v.num * u.den, w.num);
    assert(l.num == r.num * w.den);
    assert(l.den == r.den * w.den);
    lemma_scaled_same(r, l, w.den);
}

/// `(x + y) * w` is the number `x * w + y * w`.
pub proof fn lemma_mul_distributes(x: Ratio, y: Ratio, w: Ratio)
    ensures
        x.add(y).mul(w).same(x.mul(w).add(y.mul(w))),
{
    let l = x.add(y).mul(w);
    let r = x.mul(w).add(y.mul(w));
    lemma_rearrange(x.num, w.num, y.den, w.den);
    lemma_rearrange(y.num, w.num, x.den, w.den);
    lemma_rearrange(x.den, w.den, y.den, w.den);
    lemma_regroup(x.num * y.den, w.num, w.den);
    lemma_regroup(y.num * x.den, w.num, w.den);
    lemma_regroup(x.den * y.den, w.den, w.den);
    lemma_distribute((x.num * y.den) * w.num, (y.num * x.den) * w.num, w.den);
    lemma_distribute(x.num * y.den, y.num * x.den, w.num);
    assert(r.num == l.num * w.den);
    assert(r.den == l.den * w.den);
    lemma_scaled_same(l, r, w.den);
}

/// `(x * y) * z` is the number `x * (y * z)`.
pub proof fn lemma_mul_associates(x: Ratio, y: Ratio, z: Ratio)
    ensures
        x.mul(y).mul(z).same(x.mul(y.mul(z))),
{
    let l = x.mul(y).mul(z);
    let r = x.mul(y.mul(z));
    assert(l.num * r.den == r.num * l.den) by (nonlinear_arith)
        requires
            l.num == (x.num * y.num) * z.num,
            l.den == (x.den * y.den) * z.den,
            r.num == x.num * (y.num * z.num),
            r.den == x.den * (y.den * z.den),
    ;
}

/// `(x + y) + z` is `x + (y + z)`, in the same terms.
pub proof fn lemma_add_associates(x: Ratio, y: Ratio, z: Ratio)
    ensures
        x.add(y).add(z) == x.add(y.add(z)),
{
    lemma_distribute(x.num * y.den, y.num * x.den, z.den);
    lemma_distribute(y.num * z.den, z.num * y.den, x.den);
    lemma_regroup(x.num, y.den, z.den);
    lemma_regroup(y.num, x.den, z.den);
    lemma_regroup(z.num, y.den, x.den);
    lemma_regroup(x.den, y.den, z.den);
    lemma_regroup(z.num, x.den, y.den);
}

} // verus!
