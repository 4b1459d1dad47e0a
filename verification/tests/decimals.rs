use hyperliquid_lens::decimal::{dec_eq, dec_le, dec_max, dec_min, dec_sum, Dec, MAX_MANTISSA, MAX_SCALE};
use rust_decimal::Decimal;
use std::collections::VecDeque;

fn value(d: Dec) -> Decimal {
    Decimal::from_i128_with_scale(d.mantissa, d.scale)
}

#[test]
fn constructors() {
    assert_eq!(Dec::new(-125, 2), Dec { mantissa: -125, scale: 2 });
    assert_eq!(Dec::zero(), Dec { mantissa: 0, scale: 0 });
    assert_eq!(Dec::one(), Dec { mantissa: 1, scale: 0 });
    assert_eq!(Dec::from_usize(42), Dec { mantissa: 42, scale: 0 });
    assert_eq!(MAX_SCALE, 28);
    assert_eq!(MAX_MANTISSA, (1i128 << 96) - 1);
    assert_eq!(value(Dec::new(-125, 2)), "-1.25".parse::<Decimal>().unwrap());
}

#[test]
fn comparisons_go_by_value() {
    let a = Dec::new(150, 2);
    let b = Dec::new(15, 1);
    assert!(dec_eq(&a, &b));
    assert!(dec_le(&a, &b));
    assert!(dec_le(&Dec::new(-1, 0), &Dec::zero()));
    assert!(!dec_le(&Dec::new(2, 0), &Dec::new(19, 1)));
    assert!(!dec_eq(&Dec::new(1, 28), &Dec::zero()));
}

#[test]
fn max_and_min_break_ties_like_ord() {
    let a = Dec::new(150, 2);
    let b = Dec::new(15, 1);
    assert_eq!(dec_max(a, b), b);
    assert_eq!(dec_min(a, b), a);
    assert_eq!(dec_max(Dec::new(3, 0), Dec::new(2, 0)), Dec::new(3, 0));
    assert_eq!(dec_min(Dec::new(3, 0), Dec::new(2, 0)), Dec::new(2, 0));
}

#[test]
fn sums_are_exact() {
    let v: VecDeque<Dec> = vec![Dec::new(1, 1), Dec::new(2, 1), Dec::new(-5, 2)].into();
    assert_eq!(value(dec_sum(&v)), "0.25".parse::<Decimal>().unwrap());
    assert_eq!(value(dec_sum(&VecDeque::new())), Decimal::ZERO);
    let many: VecDeque<Dec> = (0..1000).map(|_| Dec::new(1_000_000_000_000_000, 0)).collect();
    assert_eq!(value(dec_sum(&many)), Decimal::from(1_000_000_000_000_000_000i64));
}

