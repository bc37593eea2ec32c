use cairo_vm_hints::bits::{bit_length_u128, count_ones_u128, trailing_ones_u128};
use cairo_vm_hints::felt::div_rem;
use cairo_vm_hints::uint256::U256;
use cairo_vm_hints::utils::split_u256;
use num_bigint::BigUint;

fn word(value: u128) -> U256 {
    U256::from_u128(value)
}

#[test]
fn bit_counts_agree_with_the_machine() {
    for v in [0u128, 1, 2, 3, 7, 8, 0b1011, 255, 256, u64::MAX as u128, u128::MAX, u128::MAX - 1] {
        assert_eq!(bit_length_u128(v), 128 - v.leading_zeros());
        assert_eq!(trailing_ones_u128(v), v.trailing_ones());
        assert_eq!(count_ones_u128(v), v.count_ones());
    }
}

#[test]
fn bytes_round_trip() {
    let x = U256 { high: 0x0102_0304_0506_0708_090a_0b0c_0d0e_0f10, low: 0x1112_1314_1516_1718_191a_1b1c_1d1e_1f20 };
    let bytes = x.to_be_bytes();
    let expected: Vec<u8> = (1..=32).collect();
    assert_eq!(bytes.to_vec(), expected);
    assert_eq!(U256::from_be_bytes(&bytes), x);
    assert_eq!(BigUint::from_bytes_be(&bytes), (BigUint::from(x.high) << 128) + BigUint::from(x.low));
}

#[test]
fn comparisons_follow_the_value() {
    let small = U256 { high: 0, low: u128::MAX };
    let large = U256 { high: 1, low: 0 };
    assert!(small.lt(&large));
    assert!(small.le(&large));
    assert!(!large.lt(&small));
    assert!(!large.le(&small));
    assert!(small.le(&small));
    assert!(!small.lt(&small));
}

#[test]
fn bits_of_a_word() {
    assert_eq!(word(0).bits(), 0);
    assert_eq!(word(1).bits(), 1);
    assert_eq!(word(255).bits(), 8);
    assert_eq!(word(256).bits(), 9);
    assert_eq!(U256 { high: 1, low: 0 }.bits(), 129);
    assert_eq!(U256 { high: u128::MAX, low: 0 }.bits(), 256);
}

#[test]
fn field_elements_are_below_the_prime() {
    let prime = U256 { high: 0x800_0000_0000_0011_0000_0000_0000_0000, low: 1 };
    let below = U256 { high: prime.high, low: 0 };
    assert!(below.is_felt());
    assert!(!prime.is_felt());
    assert!(word(0).is_felt());
    assert!(!U256 { high: u128::MAX, low: u128::MAX }.is_felt());
}

#[test]
fn flags_are_one_and_zero() {
    assert_eq!(U256::from_bool(true), word(1));
    assert_eq!(U256::from_bool(false), word(0));
    assert_eq!(U256::from_u64(9), word(9));
    assert_eq!(U256::from_usize(9), word(9));
}

#[test]
fn split_gives_the_low_half_first() {
    let x = U256 { high: 77, low: 99 };
    assert_eq!(split_u256(&x), [word(99), word(77)]);
    assert_eq!(split_u256(&word(5)), [word(5), word(0)]);
}

#[test]
fn division_of_field_elements_as_integers() {
    assert_eq!(div_rem(&word(7), &word(2)), (word(3), word(1)));
    let value = U256 { high: 5, low: 17 };
    let divisor = U256 { high: 1, low: 0 };
    assert_eq!(div_rem(&value, &divisor), (word(5), word(17)));
    assert_eq!(div_rem(&word(3), &value), (word(0), word(3)));
}
