use kdseg::rational::Rat;

fn ri(n: i64) -> Rat {
    Rat::from_int(n)
}

#[test]
fn from_int_is_exact() {
    let v = ri(42);
    assert_eq!(v.num, 42);
    assert_eq!(v.den, 1);
}

#[test]
fn new_normalises_sign() {
    let v = Rat::new(3, -6).unwrap();
    assert!(v.den > 0);
    assert!(v.eq_val(&Rat::new(-1, 2).unwrap()));
}

#[test]
fn new_rejects_zero_denominator() {
    assert!(Rat::new(1, 0).is_none());
}

#[test]
fn new_rejects_unnegatable_components() {
    assert!(Rat::new(i64::MIN, 1).is_none());
    assert!(Rat::new(1, i64::MIN).is_none());
}

#[test]
fn add_halves() {
    let half = Rat::new(1, 2).unwrap();
    let sum = half.checked_add(&half).unwrap();
    assert!(sum.eq_val(&ri(1)));
}

#[test]
fn sub_exact() {
    let a = Rat::new(1, 3).unwrap();
    let b = Rat::new(1, 6).unwrap();
    let d = a.checked_sub(&b).unwrap();
    assert!(d.eq_val(&Rat::new(1, 6).unwrap()));
}

#[test]
fn mul_exact() {
    let a = Rat::new(2, 3).unwrap();
    let b = Rat::new(9, 4).unwrap();
    let p = a.checked_mul(&b).unwrap();
    assert!(p.eq_val(&Rat::new(3, 2).unwrap()));
}

#[test]
fn div_exact() {
    let a = ri(7);
    let b = ri(-2);
    let q = a.checked_div(&b).unwrap();
    assert!(q.den > 0);
    assert!(q.eq_val(&Rat::new(-7, 2).unwrap()));
}

#[test]
fn abs_flips_negatives_only() {
    assert!(ri(-9).abs().eq_val(&ri(9)));
    assert!(ri(9).abs().eq_val(&ri(9)));
}

#[test]
fn comparisons_cross_representations() {
    let half = Rat::new(1, 2).unwrap();
    let two_quarters = Rat::new(2, 4).unwrap();
    assert!(half.eq_val(&two_quarters));
    assert!(half.le(&two_quarters));
    assert!(!half.lt(&two_quarters));
    assert!(Rat::new(-1, 2).unwrap().lt(&half));
}

#[test]
fn add_overflow_is_reported() {
    let big = ri(i64::MAX);
    assert!(big.checked_add(&ri(1)).is_none());
}

#[test]
fn add_of_incompatible_denominators_overflows() {
    let a = Rat::new(1, 4_000_000_000).unwrap();
    let b = Rat::new(1, 4_000_000_001).unwrap();
    assert!(a.checked_add(&b).is_none());
}

#[test]
fn mul_overflow_is_reported() {
    let big = ri(4_000_000_000);
    assert!(big.checked_mul(&big).is_none());
}
