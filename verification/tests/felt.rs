use starknet_syscalls::felt::Felt;
use starknet_syscalls::objects::{felt_to_hash, Address};

#[test]
fn felt_to_usize_keeps_small_values() {
    assert_eq!(Felt::from_u64(7).to_usize(), Some(7));
    assert_eq!(Felt::zero().to_usize(), Some(0));
    assert_eq!(Felt::from_usize(usize::MAX).to_usize(), Some(usize::MAX));
}

#[test]
fn felt_to_usize_refuses_large_values() {
    assert_eq!(Felt::from_u128(u128::MAX).to_usize(), None);
    assert_eq!(Felt::from_digits(0, 1, 0, 0).unwrap().to_usize(), None);
    assert_eq!(Felt::from_digits(0, 0, 1, 0).unwrap().to_usize(), None);
    assert_eq!(Felt::from_digits(0, 0, 0, 1).unwrap().to_usize(), None);
}

#[test]
fn digits_at_or_above_the_modulus_are_refused() {
    let greatest = Felt::from_digits(0, 0, 0, 0x0800000000000011);
    assert!(greatest.is_some());
    assert!(Felt::from_digits(1, 0, 0, 0x0800000000000011).is_none());
    assert!(Felt::from_digits(0, 1, 0, 0x0800000000000011).is_none());
    assert!(Felt::from_digits(0, 0, 1, 0x0800000000000011).is_none());
    assert!(Felt::from_digits(0, 0, 0, 0x0800000000000012).is_none());
    assert!(Felt::from_digits(u64::MAX, u64::MAX, u64::MAX, 0x0800000000000010).is_some());
}

#[test]
fn values_of_all_widths_agree() {
    assert_eq!(Felt::from_u64(9), Felt::from_u128(9));
    assert_eq!(Felt::from_u64(9), Felt::from_usize(9));
    assert_eq!(Felt::from_u128(1 << 64), Felt::from_digits(0, 1, 0, 0).unwrap());
    assert_eq!(Felt::from_u64(0), Felt::zero());
}

#[test]
fn bytes_are_big_endian() {
    let felt = Felt::from_digits(
        0x18191a1b1c1d1e1f,
        0x1011121314151617,
        0x08090a0b0c0d0e0f,
        0x0001020304050607,
    )
    .unwrap();
    let expected: Vec<u8> = (0..32).collect();
    assert_eq!(felt.to_bytes_be().to_vec(), expected);
    assert_eq!(felt_to_hash(&felt).to_vec(), expected);
    assert_eq!(Address(felt).to_32_bytes().to_vec(), expected);
}

#[test]
fn different_addresses_have_different_keys() {
    let one = Address(Felt::from_u64(1));
    let other = Address(Felt::from_digits(0, 0, 0, 1).unwrap());
    assert_ne!(one.to_32_bytes(), other.to_32_bytes());
    assert_eq!(one.to_32_bytes()[31], 1);
    assert_eq!(other.to_32_bytes()[7], 1);
}
