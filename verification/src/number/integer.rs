//! Integers of unbounded size: a sign and a magnitude.

use crate::number::natural::Natural;
use vstd::prelude::*;

verus! {

/// An integer of unbounded size.
#[derive(Debug)]
pub struct Integer {
    negative: bool,
    magnitude: Natural,
}

impl View for Integer {
    type V = int;

    closed spec fn view(&self) -> int {
        if self.negative {
            -(self.magnitude@ as int)
        } else {
            self.magnitude@ as int
        }
    }
}

/// The absolute value of `v`.
pub open spec fn abs(v: int) -> nat {
    if v < 0 {
        (-v) as nat
    } else {
        v as nat
    }
}

impl Integer {
    /// The integer zero.
    pub fn zero() -> (r: Integer)
        ensures
            r@ == 0,
    {
        Integer { negative: false, magnitude: Natural::zero() }
    }

    /// The natural number `n` as an integer.
    pub fn from_natural(n: Natural) -> (r: Integer)
        ensures
            r@ == n@,
    {
        Integer { negative: false, magnitude: n }
    }

    /// The integer `v`.
    pub fn from_i64(v: i64) -> (r: Integer)
        ensures
            r@ == v,
    {
        if v >= 0 {
            Integer { negative: false, magnitude: Natural::from_u64(v as u64) }
        } else {
            let m: u64 = (-(v + 1)) as u64 + 1;
            Integer { negative: true, magnitude: Natural::from_u64(m) }
        }
    }

    /// Whether this integer is below zero.
    pub fn is_negative(&self) -> (b: bool)
        ensures
            b == (self@ < 0),
    {
        self.negative && !self.magnitude.is_zero()
    }

    /// Whether this integer is zero.
    pub fn is_zero(&self) -> (b: bool)
        ensures
            b == (self@ == 0),
    {
        self.magnitude.is_zero()
    }

    /// The absolute value.
    pub fn magnitude(&self) -> (m: Natural)
        ensures
            m@ == abs(self@),
    {
        self.magnitude.clone()
    }

    /// The integer of opposite sign.
    pub fn negated(&self) -> (r: Integer)
        ensures
            r@ == -self@,
    {
        Integer { negative: !self.negative, magnitude: self.magnitude.clone() }
    }

    /// The sum of two integers.
    pub fn add(&self, other: &Integer) -> (r: Integer)
        ensures
            r@ == self@ + other@,
    {
        if self.negative == other.negative {
            Integer { negative: self.negative, magnitude: self.magnitude.add(&other.magnitude) }
        } else {
            match self.magnitude.checked_sub(&other.magnitude) {
                Some(d) => Integer { negative: self.negative, magnitude: d },
                None => {
                    match other.magnitude.checked_sub(&self.magnitude) {
                        Some(d) => Integer { negative: other.negative, magnitude: d },
                        None => vstd::pervasive::unreached(),
                    }
                },
            }
        }
    }

    /// The difference of two integers.
    pub fn sub(&self, other: &Integer) -> (r: Integer)
        ensures
            r@ == self@ - other@,
    {
        self.add(&other.negated())
    }

    /// The product of two integers.
    pub fn mul(&self, other: &Integer) -> (r: Integer)
        ensures
            r@ == self@ * other@,
    {
        proof {
            let a = self.magnitude@ as int;
            let b = other.magnitude@ as int;
            assert((-a) * (-b) == a * b) by (nonlinear_arith);
            assert((-a) * b == -(a * b)) by (nonlinear_arith);
            assert(a * (-b) == -(a * b)) by (nonlinear_arith);
        }
        Integer {
            negative: self.negative != other.negative,
            magnitude: self.magnitude.mul(&other.magnitude),
        }
    }

    /// The product of this integer and a natural number.
    pub fn mul_natural(&self, other: &Natural) -> (r: Integer)
        ensures
            r@ == self@ * other@,
    {
        proof {
            let a = self.magnitude@ as int;
            let b = other@ as int;
            assert((-a) * b == -(a * b)) by (nonlinear_arith);
        }
        Integer { negative: self.negative, magnitude: self.magnitude.mul(other) }
    }

    /// Whether this integer is less than `other`.
    pub fn less_than(&self, other: &Integer) -> (b: bool)
        ensures
            b == (self@ < other@),
    {
        self.sub(other).is_negative()
    }

    /// Whether the two integers are equal.
    pub fn equals(&self, other: &Integer) -> (b: bool)
        ensures
            b == (self@ == other@),
    {
        self.sub(other).is_zero()
    }
}

impl Clone for Integer {
    fn clone(&self) -> (r: Integer)
        ensures
            r@ == self@,
    {
        Integer { negative: self.negative, magnitude: self.magnitude.clone() }
    }
}

} // verus!
