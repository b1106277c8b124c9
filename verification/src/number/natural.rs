//! Natural numbers of unbounded size, held as little-endian limbs of 32 bits.

use vstd::prelude::*;

verus! {

/// The radix of one limb.
pub const RADIX: u64 = 0x1_0000_0000;

/// `RADIX` raised to the power `n`.
pub open spec fn radix_pow(n: nat) -> nat
    decreases n,
{
    if n == 0 {
        1
    } else {
        RADIX as nat * radix_pow((n - 1) as nat)
    }
}

/// The limb at position `i`; positions past the end read as zero.
pub open spec fn limb_at(limbs: Seq<u32>, i: int) -> nat {
    if 0 <= i < limbs.len() {
        limbs[i] as nat
    } else {
        0
    }
}

/// The number that the lowest `n` limb positions hold.
pub open spec fn low_value(limbs: Seq<u32>, n: nat) -> nat
    decreases n,
{
    if n == 0 {
        0
    } else {
        low_value(limbs, (n - 1) as nat) + limb_at(limbs, n - 1) * radix_pow((n - 1) as nat)
    }
}

/// The number that a little-endian limb sequence holds.
pub open spec fn limbs_value(limbs: Seq<u32>) -> nat {
    low_value(limbs, limbs.len())
}

/// Every power of the radix is positive.
proof fn lemma_radix_pow_positive(n: nat)
    ensures
        radix_pow(n) > 0,
    decreases n,
{
    if n > 0 {
        lemma_radix_pow_positive((n - 1) as nat);
        let p = radix_pow((n - 1) as nat);
        assert(RADIX as nat * p > 0) by (nonlinear_arith)
            requires
                p > 0,
                RADIX == 0x1_0000_0000,
        ;
    }
}

/// The power of a sum is the product of the powers.
proof fn lemma_radix_pow_add(a: nat, b: nat)
    ensures
        radix_pow(a + b) == radix_pow(a) * radix_pow(b),
    decreases b,
{
    if b == 0 {
        assert(radix_pow(a) * 1 == radix_pow(a));
    } else {
        lemma_radix_pow_add(a, (b - 1) as nat);
        let pa = radix_pow(a);
        let pb = radix_pow((b - 1) as nat);
        let r = RADIX as nat;
        assert(radix_pow(a + b) == r * radix_pow((a + b - 1) as nat));
        assert(r * (pa * pb) == pa * (r * pb)) by (nonlinear_arith);
    }
}

/// Sequences that agree on the lowest `n` positions hold the same low value.
proof fn lemma_low_value_agree(a: Seq<u32>, b: Seq<u32>, n: nat)
    requires
        forall|j: int| 0 <= j < n ==> limb_at(a, j) == limb_at(b, j),
    ensures
        low_value(a, n) == low_value(b, n),
    decreases n,
{
    if n > 0 {
        lemma_low_value_agree(a, b, (n - 1) as nat);
    }
}

/// Positions past the end add nothing.
proof fn lemma_low_value_beyond(a: Seq<u32>, n: nat)
    requires
        n >= a.len(),
    ensures
        low_value(a, n) == limbs_value(a),
    decreases n,
{
    if n > a.len() {
        lemma_low_value_beyond(a, (n - 1) as nat);
        assert(limb_at(a, n - 1) == 0);
        assert(0 * radix_pow((n - 1) as nat) == 0);
    }
}

/// `n` limbs hold a number below `RADIX^n`.
proof fn lemma_low_value_bound(a: Seq<u32>, n: nat)
    ensures
        low_value(a, n) < radix_pow(n),
    decreases n,
{
    if n > 0 {
        lemma_low_value_bound(a, (n - 1) as nat);
        let p = radix_pow((n - 1) as nat);
        let d = limb_at(a, n - 1);
        assert(d * p + p <= 0x1_0000_0000 * p) by (nonlinear_arith)
            requires
                d <= 0xffff_ffff,
        ;
    }
}

/// A limb pushed on top counts `RADIX^len` times its value.
proof fn lemma_value_push(a: Seq<u32>, d: u32)
    ensures
        limbs_value(a.push(d)) == limbs_value(a) + d as nat * radix_pow(a.len()),
{
    lemma_low_value_agree(a.push(d), a, a.len());
}

/// The low value is zero exactly when every limb below `n` is zero.
proof fn lemma_low_value_zero(a: Seq<u32>, n: nat)
    ensures
        low_value(a, n) == 0 <==> forall|j: int| 0 <= j < n ==> limb_at(a, j) == 0,
    decreases n,
{
    if n > 0 {
        lemma_low_value_zero(a, (n - 1) as nat);
        lemma_radix_pow_positive((n - 1) as nat);
        let p = radix_pow((n - 1) as nat);
        let d = limb_at(a, n - 1);
        if d == 0 {
            assert(d * p == 0);
        } else {
            assert(d * p > 0) by (nonlinear_arith)
                requires
                    d > 0,
                    p > 0,
            ;
            assert(limb_at(a, n - 1) != 0);
        }
    }
}

/// Limbs below a run of `k` zero limbs count `RADIX^k` times as much.
proof fn lemma_value_shift(zeros: Seq<u32>, a: Seq<u32>, m: nat)
    requires
        forall|j: int| 0 <= j < zeros.len() ==> zeros[j] == 0,
        m <= a.len(),
    ensures
        low_value(zeros + a, zeros.len() + m) == radix_pow(zeros.len()) * low_value(a, m),
    decreases m,
{
    let k = zeros.len();
    let s = zeros + a;
    if m == 0 {
        lemma_low_value_zero(s, k);
        assert(radix_pow(k) * 0 == 0);
    } else {
        lemma_value_shift(zeros, a, (m - 1) as nat);
        lemma_radix_pow_add(k, (m - 1) as nat);
        let pk = radix_pow(k);
        let pm = radix_pow((m - 1) as nat);
        let d = limb_at(a, m - 1);
        let low = low_value(a, (m - 1) as nat);
        assert(limb_at(s, k + m - 1) == d);
        assert(pk * low + d * (pk * pm) == pk * (low + d * pm)) by (nonlinear_arith);
    }
}

proof fn lemma_carry_step(v: nat, p: nat, digit: nat, carry_out: nat, carry_in: nat, x: nat)
    by (nonlinear_arith)
    requires
        digit + carry_out * 0x1_0000_0000 == x + carry_in,
    ensures
        v + digit * p + carry_out * (0x1_0000_0000 * p) == v + carry_in * p + x * p,
{
}

proof fn lemma_borrow_step(
    v: nat,
    low_b: nat,
    low_a: nat,
    p: nat,
    digit: nat,
    y: nat,
    borrow_in: nat,
    x: nat,
    borrow_out: nat,
)
    by (nonlinear_arith)
    requires
        digit + y + borrow_in == x + borrow_out * 0x1_0000_0000,
        v + low_b == low_a + borrow_in * p,
    ensures
        v + digit * p + (low_b + y * p) == low_a + x * p + borrow_out * (0x1_0000_0000 * p),
{
}

proof fn lemma_scale_step(low: nat, d: nat, p: nat, m: nat)
    by (nonlinear_arith)
    ensures
        (low + d * p) * m == low * m + (d * m) * p,
{
}

fn limb_or_zero(limbs: &Vec<u32>, i: usize) -> (d: u32)
    ensures
        d as nat == limb_at(limbs@, i as int),
{
    if i < limbs.len() {
        limbs[i]
    } else {
        0
    }
}

/// A natural number of unbounded size.
#[derive(Debug)]
pub struct Natural {
    limbs: Vec<u32>,
}

impl View for Natural {
    type V = nat;

    closed spec fn view(&self) -> nat {
        limbs_value(self.limbs@)
    }
}

impl Natural {
    /// The number zero.
    pub fn zero() -> (r: Natural)
        ensures
            r@ == 0,
    {
        Natural { limbs: Vec::new() }
    }

    /// The number that `limbs` holds, least significant limb first.
    pub fn from_limbs(limbs: Vec<u32>) -> (r: Natural)
        ensures
            r@ == limbs_value(limbs@),
    {
        Natural { limbs }
    }

    /// The limbs of this number, least significant first.
    pub fn to_limbs(&self) -> (limbs: Vec<u32>)
        ensures
            limbs_value(limbs@) == self@,
    {
        self.limbs.clone()
    }

    /// The sum of two numbers.
    pub fn add(&self, other: &Natural) -> (r: Natural)
        ensures
            r@ == self@ + other@,
    {
        let n: usize = if self.limbs.len() > other.limbs.len() {
            self.limbs.len()
        } else {
            other.limbs.len()
        };
        let mut out: Vec<u32> = Vec::new();
        let mut carry: u64 = 0;
        let mut i: usize = 0;
        while i < n
            invariant
                i <= n,
                out.len() == i,
                carry <= 1,
                limbs_value(out@) + carry * radix_pow(i as nat) == low_value(
                    self.limbs@,
                    i as nat,
                ) + low_value(other.limbs@, i as nat),
            decreases n - i,
        {
            let x: u32 = limb_or_zero(&self.limbs, i);
            let y: u32 = limb_or_zero(&other.limbs, i);
            let sum: u64 = x as u64 + y as u64 + carry;
            let digit: u32 = (sum % RADIX) as u32;
            let next: u64 = sum / RADIX;
            proof {
                lemma_value_push(out@, digit);
                let p = radix_pow(i as nat);
                lemma_carry_step(
                    limbs_value(out@),
                    p,
                    digit as nat,
                    next as nat,
                    carry as nat,
                    (x as nat + y as nat),
                );
                assert((x as nat + y as nat) * p == x as nat * p + y as nat * p)
                    by (nonlinear_arith);
            }
            out.push(digit);
            carry = next;
            i += 1;
        }
        proof {
            lemma_value_push(out@, carry as u32);
            lemma_low_value_beyond(self.limbs@, n as nat);
            lemma_low_value_beyond(other.limbs@, n as nat);
        }
        out.push(carry as u32);
        Natural { limbs: out }.trimmed()
    }

    /// The same number without zero limbs at the top.
    fn trimmed(self) -> (r: Natural)
        ensures
            r@ == self@,
            r.limbs@.len() == 0 || r.limbs@.last() != 0,
    {
        let mut limbs: Vec<u32> = self.limbs;
        while limbs.len() > 0 && limbs[limbs.len() - 1] == 0
            invariant
                limbs_value(limbs@) == self@,
            decreases limbs.len(),
        {
            proof {
                lemma_low_value_agree(limbs@, limbs@.drop_last(), (limbs.len() - 1) as nat);
                assert(0 * radix_pow((limbs.len() - 1) as nat) == 0);
            }
            limbs.pop();
        }
        Natural { limbs }
    }

    /// The number `v`.
    pub fn from_u64(v: u64) -> (r: Natural)
        ensures
            r@ == v,
    {
        let low: u32 = (v % RADIX) as u32;
        let high: u32 = (v / RADIX) as u32;
        let mut limbs: Vec<u32> = Vec::new();
        proof {
            lemma_value_push(limbs@, low);
            lemma_value_push(limbs@.push(low), high);
            assert(limbs_value(limbs@) == 0);
            assert(radix_pow(1) == RADIX as nat * radix_pow(0));
        }
        limbs.push(low);
        limbs.push(high);
        proof {
            let ones = radix_pow(0);
            let radix = radix_pow(1);
            assert(low as nat * ones == low as nat) by (nonlinear_arith)
                requires
                    ones == 1,
            ;
            assert(high as nat * radix == high as nat * 0x1_0000_0000) by (nonlinear_arith)
                requires
                    radix == 0x1_0000_0000,
            ;
        }
        Natural { limbs }.trimmed()
    }

    /// Whether this number is zero.
    pub fn is_zero(&self) -> (b: bool)
        ensures
            b == (self@ == 0),
    {
        let mut i: usize = 0;
        while i < self.limbs.len()
            invariant
                i <= self.limbs.len(),
                forall|j: int| 0 <= j < i ==> limb_at(self.limbs@, j) == 0,
            decreases self.limbs.len() - i,
        {
            if self.limbs[i] != 0 {
                proof {
                    lemma_low_value_zero(self.limbs@, self.limbs@.len());
                    assert(limb_at(self.limbs@, i as int) != 0);
                }
                return false;
            }
            i += 1;
        }
        proof {
            lemma_low_value_zero(self.limbs@, self.limbs@.len());
        }
        true
    }

    /// The difference modulo `RADIX^n`, `n` the longer length, and whether
    /// `other` is the greater.
    fn sub_with_borrow(&self, other: &Natural) -> (r: (Natural, bool))
        ensures
            r.1 == (self@ < other@),
            !r.1 ==> r.0@ == self@ - other@,
    {
        let n: usize = if self.limbs.len() > other.limbs.len() {
            self.limbs.len()
        } else {
            other.limbs.len()
        };
        let mut out: Vec<u32> = Vec::new();
        let mut borrow: u64 = 0;
        let mut i: usize = 0;
        while i < n
            invariant
                i <= n,
                out.len() == i,
                borrow <= 1,
                limbs_value(out@) + low_value(other.limbs@, i as nat) == low_value(
                    self.limbs@,
                    i as nat,
                ) + borrow * radix_pow(i as nat),
            decreases n - i,
        {
            let x: u64 = limb_or_zero(&self.limbs, i) as u64;
            let y: u64 = limb_or_zero(&other.limbs, i) as u64;
            let taken: u64 = y + borrow;
            let mut digit: u32 = 0;
            let mut next: u64 = 0;
            if x >= taken {
                digit = (x - taken) as u32;
            } else {
                digit = (x + RADIX - taken) as u32;
                next = 1;
            }
            proof {
                lemma_value_push(out@, digit);
                lemma_borrow_step(
                    limbs_value(out@),
                    low_value(other.limbs@, i as nat),
                    low_value(self.limbs@, i as nat),
                    radix_pow(i as nat),
                    digit as nat,
                    y as nat,
                    borrow as nat,
                    x as nat,
                    next as nat,
                );
            }
            out.push(digit);
            borrow = next;
            i += 1;
        }
        proof {
            lemma_low_value_beyond(self.limbs@, n as nat);
            lemma_low_value_beyond(other.limbs@, n as nat);
            lemma_low_value_bound(self.limbs@, n as nat);
            lemma_low_value_bound(other.limbs@, n as nat);
            lemma_low_value_bound(out@, n as nat);
            assert(1 * radix_pow(n as nat) == radix_pow(n as nat));
            assert(0 * radix_pow(n as nat) == 0);
        }
        (Natural { limbs: out }.trimmed(), borrow == 1)
    }

    /// Whether this number is less than `other`.
    pub fn less_than(&self, other: &Natural) -> (b: bool)
        ensures
            b == (self@ < other@),
    {
        self.sub_with_borrow(other).1
    }

    /// Whether the two numbers are equal.
    pub fn equals(&self, other: &Natural) -> (b: bool)
        ensures
            b == (self@ == other@),
    {
        !self.less_than(other) && !other.less_than(self)
    }

    /// The difference `self - other`, where `other` is not the greater.
    pub fn checked_sub(&self, other: &Natural) -> (r: Option<Natural>)
        ensures
            r is Some <==> self@ >= other@,
            r matches Some(d) ==> d@ == self@ - other@,
    {
        let (diff, borrow) = self.sub_with_borrow(other);
        if borrow {
            None
        } else {
            Some(diff)
        }
    }

    /// The product of this number and one limb.
    fn mul_limb(&self, m: u32) -> (r: Natural)
        ensures
            r@ == self@ * m,
    {
        let mut out: Vec<u32> = Vec::new();
        let mut carry: u64 = 0;
        let mut i: usize = 0;
        proof {
            assert(low_value(self.limbs@, 0) == 0);
            assert(0 * (m as nat) == 0);
            assert(0 * radix_pow(0) == 0);
        }
        while i < self.limbs.len()
            invariant
                i <= self.limbs.len(),
                out.len() == i,
                carry < RADIX,
                limbs_value(out@) + carry * radix_pow(i as nat) == low_value(self.limbs@, i as nat)
                    * m,
            decreases self.limbs.len() - i,
        {
            let x: u32 = self.limbs[i];
            assert(x as nat * m as nat <= 0xffff_ffff * 0xffff_ffff) by (nonlinear_arith)
                requires
                    x <= 0xffff_ffff,
                    m <= 0xffff_ffff,
            ;
            let prod: u64 = x as u64 * m as u64 + carry;
            let digit: u32 = (prod % RADIX) as u32;
            let next: u64 = prod / RADIX;
            proof {
                lemma_value_push(out@, digit);
                let p = radix_pow(i as nat);
                lemma_carry_step(
                    limbs_value(out@),
                    p,
                    digit as nat,
                    next as nat,
                    carry as nat,
                    x as nat * m as nat,
                );
                lemma_scale_step(low_value(self.limbs@, i as nat), x as nat, p, m as nat);
            }
            out.push(digit);
            carry = next;
            i += 1;
        }
        proof {
            lemma_value_push(out@, carry as u32);
        }
        out.push(carry as u32);
        Natural { limbs: out }
    }

    /// This number times `RADIX^k`.
    fn shifted(&self, k: usize) -> (r: Natural)
        ensures
            r@ == self@ * radix_pow(k as nat),
    {
        let mut out: Vec<u32> = Vec::new();
        let mut j: usize = 0;
        while j < k
            invariant
                j <= k,
                out.len() == j,
                forall|t: int| 0 <= t < j ==> out@[t] == 0,
            decreases k - j,
        {
            out.push(0);
            j += 1;
        }
        let ghost zeros = out@;
        let mut i: usize = 0;
        while i < self.limbs.len()
            invariant
                i <= self.limbs.len(),
                zeros.len() == k,
                out@ =~= zeros + self.limbs@.take(i as int),
            decreases self.limbs.len() - i,
        {
            out.push(self.limbs[i]);
            i += 1;
        }
        proof {
            assert(self.limbs@.take(self.limbs@.len() as int) =~= self.limbs@);
            lemma_value_shift(zeros, self.limbs@, self.limbs@.len());
            assert(radix_pow(k as nat) * self@ == self@ * radix_pow(k as nat))
                by (nonlinear_arith);
        }
        Natural { limbs: out }
    }

    /// The product of two numbers.
    pub fn mul(&self, other: &Natural) -> (r: Natural)
        ensures
            r@ == self@ * other@,
    {
        let mut acc: Natural = Natural::zero();
        let mut i: usize = 0;
        while i < self.limbs.len()
            invariant
                i <= self.limbs.len(),
                acc@ == low_value(self.limbs@, i as nat) * other@,
            decreases self.limbs.len() - i,
        {
            let part: Natural = other.mul_limb(self.limbs[i]).shifted(i);
            proof {
                let d = self.limbs@[i as int] as nat;
                let p = radix_pow(i as nat);
                let o = other@;
                let low = low_value(self.limbs@, i as nat);
                assert((low + d * p) * o == low * o + (o * d) * p) by (nonlinear_arith);
            }
            acc = acc.add(&part);
            i += 1;
        }
        acc
    }
}

impl Clone for Natural {
    fn clone(&self) -> (r: Natural)
        ensures
            r@ == self@,
    {
        Natural { limbs: self.limbs.clone() }
    }
}

} // verus!
