use vglyph::number::integer::Integer;
use vglyph::number::natural::Natural;
use vglyph::number::rational::Rational;

fn natural(limbs: &[u32]) -> Natural {
    Natural::from_limbs(limbs.to_vec())
}

fn trimmed(n: &Natural) -> Vec<u32> {
    let mut limbs = n.to_limbs();
    while limbs.last() == Some(&0) {
        limbs.pop();
    }
    limbs
}

fn q(num: i64, den: u64) -> Rational {
    Rational::from_ratio(num, den).unwrap()
}

#[test]
fn natural_from_u64_splits_into_limbs() {
    assert_eq!(trimmed(&Natural::from_u64(0)), Vec::<u32>::new());
    assert_eq!(trimmed(&Natural::from_u64(7)), vec![7]);
    assert_eq!(trimmed(&Natural::from_u64(0x1_0000_0005)), vec![5, 1]);
    assert_eq!(trimmed(&Natural::from_u64(u64::MAX)), vec![u32::MAX, u32::MAX]);
}

#[test]
fn natural_add_carries_across_limbs() {
    let a = natural(&[u32::MAX, u32::MAX]);
    let b = Natural::from_u64(1);
    assert_eq!(trimmed(&a.add(&b)), vec![0, 0, 1]);
    assert_eq!(trimmed(&b.add(&a)), vec![0, 0, 1]);
    assert_eq!(trimmed(&Natural::zero().add(&Natural::zero())), Vec::<u32>::new());
}

#[test]
fn natural_add_ignores_leading_zero_limbs() {
    let a = natural(&[3, 0, 0]);
    let b = natural(&[4]);
    assert_eq!(trimmed(&a.add(&b)), vec![7]);
    assert!(a.equals(&Natural::from_u64(3)));
}

#[test]
fn natural_mul_is_schoolbook_product() {
    // (2^32 + 1) * (2^32 - 1) = 2^64 - 1
    let a = natural(&[1, 1]);
    let b = natural(&[u32::MAX]);
    assert_eq!(trimmed(&a.mul(&b)), vec![u32::MAX, u32::MAX]);
    // (2^64 - 1)^2 = 2^128 - 2^65 + 1
    let m = Natural::from_u64(u64::MAX);
    assert_eq!(trimmed(&m.mul(&m)), vec![1, 0, u32::MAX - 1, u32::MAX]);
    assert!(m.mul(&Natural::zero()).is_zero());
    assert_eq!(trimmed(&Natural::from_u64(12345).mul(&Natural::from_u64(6789))), vec![83810205]);
}

#[test]
fn natural_checked_sub_borrows_and_refuses() {
    let a = natural(&[0, 0, 1]);
    let b = Natural::from_u64(1);
    assert_eq!(trimmed(&a.checked_sub(&b).unwrap()), vec![u32::MAX, u32::MAX]);
    assert!(b.checked_sub(&a).is_none());
    assert!(a.checked_sub(&a).unwrap().is_zero());
}

#[test]
fn natural_order_and_equality() {
    let small = natural(&[5, 1]);
    let large = natural(&[4, 2]);
    assert!(small.less_than(&large));
    assert!(!large.less_than(&small));
    assert!(!small.less_than(&small));
    assert!(small.equals(&natural(&[5, 1, 0])));
    assert!(!small.equals(&large));
    assert!(Natural::zero().is_zero());
    assert!(natural(&[0, 0]).is_zero());
    assert!(!natural(&[0, 1]).is_zero());
}

#[test]
fn natural_clone_keeps_the_value() {
    let a = natural(&[9, 8, 7]);
    assert!(a.clone().equals(&a));
}

#[test]
fn integer_arithmetic_with_signs() {
    let five = Integer::from_i64(5);
    let minus_three = Integer::from_i64(-3);
    assert!(five.add(&minus_three).equals(&Integer::from_i64(2)));
    assert!(minus_three.add(&five).equals(&Integer::from_i64(2)));
    assert!(minus_three.sub(&five).equals(&Integer::from_i64(-8)));
    assert!(five.sub(&five).is_zero());
    assert!(five.mul(&minus_three).equals(&Integer::from_i64(-15)));
    assert!(minus_three.mul(&minus_three).equals(&Integer::from_i64(9)));
    assert!(minus_three.less_than(&five));
    assert!(!five.less_than(&minus_three));
    assert!(minus_three.is_negative());
    assert!(!five.is_negative());
    assert!(minus_three.negated().equals(&Integer::from_i64(3)));
    assert!(minus_three.magnitude().equals(&Natural::from_u64(3)));
}

#[test]
fn integer_extremes() {
    let min = Integer::from_i64(i64::MIN);
    assert!(min.is_negative());
    assert!(min.magnitude().equals(&Natural::from_u64(1u64 << 63)));
    let max = Integer::from_i64(i64::MAX);
    assert!(min.add(&max).equals(&Integer::from_i64(-1)));
    assert!(Integer::zero().negated().is_zero());
    assert!(!Integer::zero().negated().is_negative());
    assert!(Integer::from_natural(Natural::from_u64(4)).equals(&Integer::from_i64(4)));
    assert!(Integer::from_i64(-4).mul_natural(&Natural::from_u64(3)).equals(&Integer::from_i64(-12)));
}

#[test]
fn rational_terms_are_kept_as_computed() {
    // 1/2 + 1/2 = (1*2 + 1*2) / (2*2)
    let sum = q(1, 2).add(&q(1, 2));
    assert!(sum.numerator().equals(&Integer::from_i64(4)));
    assert!(sum.denominator().equals(&Natural::from_u64(4)));
    assert!(sum.same_value(&q(1, 1)));
    // 3/4 - 1/6 = (3*6 - 1*4) / (4*6)
    let diff = q(3, 4).sub(&q(1, 6));
    assert!(diff.numerator().equals(&Integer::from_i64(14)));
    assert!(diff.denominator().equals(&Natural::from_u64(24)));
    // 2/3 * 5/7 = 10/21
    let product = q(2, 3).mul(&q(5, 7));
    assert!(product.numerator().equals(&Integer::from_i64(10)));
    assert!(product.denominator().equals(&Natural::from_u64(21)));
}

#[test]
fn rational_division_moves_the_sign_up() {
    let quotient = q(1, 2).div(&q(-3, 4)).unwrap();
    assert!(quotient.numerator().equals(&Integer::from_i64(-4)));
    assert!(quotient.denominator().equals(&Natural::from_u64(6)));
    assert!(quotient.same_value(&q(-2, 3)));
    assert!(q(1, 2).div(&q(0, 5)).is_none());
}

#[test]
fn rational_order_and_sameness() {
    assert!(q(1, 3).less_than(&q(1, 2)));
    assert!(!q(1, 2).less_than(&q(1, 3)));
    assert!(q(-1, 2).less_than(&q(1, 3)));
    assert!(!q(2, 4).less_than(&q(1, 2)));
    assert!(q(2, 4).same_value(&q(1, 2)));
    assert!(!q(2, 5).same_value(&q(1, 2)));
    assert!(Rational::from_int(3).same_value(&q(6, 2)));
}

#[test]
fn rational_refuses_a_zero_denominator() {
    assert!(Rational::from_ratio(1, 0).is_none());
    assert!(Rational::new(Integer::from_i64(1), Natural::zero()).is_none());
    assert!(Rational::new(Integer::from_i64(1), Natural::from_u64(2)).unwrap().same_value(&q(1, 2)));
}
