use rolling_search::{ConfigError, ModularValue};

fn mv(v: u64, m: u64) -> ModularValue {
    ModularValue::from(v, m).unwrap()
}

#[test]
fn from_normalises_into_range() {
    let x = mv(10, 7);
    assert_eq!(x.value(), 3);
    assert_eq!(x.modulus(), 7);
    assert_eq!(mv(6, 7).value(), 6);
    assert_eq!(mv(7, 7).value(), 0);
    assert_eq!(mv(u64::MAX, 7907).value(), u64::MAX % 7907);
}

#[test]
fn from_rejects_modulus_zero_and_one() {
    assert_eq!(ModularValue::from(5, 0), Err(ConfigError::InvalidModulus));
    assert_eq!(ModularValue::from(5, 1), Err(ConfigError::InvalidModulus));
    assert!(ModularValue::from(5, 2).is_ok());
}

#[test]
fn add_wraps_at_the_modulus() {
    assert_eq!(mv(5, 7).add(mv(4, 7)).value(), 2);
    assert_eq!(mv(3, 7).add(mv(3, 7)).value(), 6);
    assert_eq!(mv(0, 7).add(mv(0, 7)).value(), 0);
}

#[test]
fn sub_never_goes_negative() {
    assert_eq!(mv(2, 7).sub(mv(5, 7)).value(), 4);
    assert_eq!(mv(5, 7).sub(mv(2, 7)).value(), 3);
    assert_eq!(mv(0, 7).sub(mv(6, 7)).value(), 1);
    assert_eq!(mv(4, 7).sub(mv(4, 7)).value(), 0);
}

#[test]
fn mul_reduces_the_product() {
    assert_eq!(mv(3, 7).mul(mv(5, 7)).value(), 1);
    assert_eq!(mv(6, 7).mul(mv(6, 7)).value(), 1);
    assert_eq!(mv(0, 7).mul(mv(6, 7)).value(), 0);
}

#[test]
fn pow_by_repeated_multiplication() {
    assert_eq!(mv(3, 7).pow(0).value(), 1);
    assert_eq!(mv(3, 7).pow(1).value(), 3);
    assert_eq!(mv(3, 7).pow(4).value(), 4);
    assert_eq!(mv(256, 7907).pow(4).value(), 3501);
    let mut by_hand = mv(1, 7907);
    for _ in 0..100 {
        by_hand = by_hand.mul(mv(256, 7907));
    }
    assert_eq!(mv(256, 7907).pow(100), by_hand);
}

#[test]
fn wide_moduli_do_not_overflow() {
    let m = u64::MAX;
    let a = mv(m - 1, m);
    // (m - 1)^2 = m^2 - 2m + 1, which is 1 modulo m
    assert_eq!(a.mul(a).value(), 1);
    assert_eq!(a.add(a).value(), m - 2);
    assert_eq!(mv(0, m).sub(a).value(), 1);
    assert_eq!(a.pow(2).value(), 1);
    assert_eq!(a.pow(3).value(), m - 1);
}

#[test]
fn equality_compares_residue_and_modulus() {
    assert_eq!(mv(10, 7), mv(3, 7));
    assert_ne!(mv(3, 7), mv(4, 7));
    assert_ne!(mv(3, 7), mv(3, 8));
}
