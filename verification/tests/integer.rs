use python_terms::integer::{decimal, Integer};

fn big() -> Integer {
    // 2^64 + 5
    Integer::from_limbs(false, vec![5, 1, 0])
}

#[test]
fn limbs_are_trimmed() {
    assert_eq!(big().limbs(), &vec![5u64, 1]);
    assert_eq!(Integer::from_limbs(true, vec![0, 0]), Integer::from_u64(0));
}

#[test]
fn radix_text_of_large_and_small_numbers() {
    assert_eq!(big().to_string_radix(10), "18446744073709551621");
    assert_eq!(big().to_string_radix(16), "10000000000000005");
    assert_eq!(Integer::from_u64(0).to_string_radix(10), "0");
    assert_eq!(Integer::from_u64(255).to_string_radix(16), "ff");
    assert_eq!(decimal(1024), "1024");
}

#[test]
fn bits_of_numbers() {
    assert_eq!(Integer::from_u64(0).significant_bits(), 0);
    assert_eq!(Integer::from_u64(4).significant_bits(), 3);
    assert_eq!(Integer::from_i64(-7).significant_bits(), 3);
    assert_eq!(big().significant_bits(), 65);
    assert!(big().get_bit(0));
    assert!(!big().get_bit(1));
    assert!(big().get_bit(64));
    assert!(!big().get_bit(65));
}

#[test]
fn remainders_are_not_negative() {
    let m = Integer::from_u64(7);
    assert_eq!(Integer::from_u64(15).rem_euc(&m), Integer::from_u64(1));
    assert_eq!(Integer::from_i64(-1).rem_euc(&m), Integer::from_u64(6));
    assert_eq!(Integer::from_i64(-14).rem_euc(&m), Integer::from_u64(0));
    assert_eq!(big().rem_euc(&Integer::from_u64(10)), Integer::from_u64(1));
}

#[test]
fn signs() {
    assert!(Integer::from_i64(i64::MIN).is_negative());
    assert_eq!(Integer::from_i64(i64::MIN).limbs(), &vec![1u64 << 63]);
    assert!(Integer::from_i64(0).is_zero());
    assert!(!Integer::from_i64(-3).is_zero());
    assert_eq!(Integer::from_i64(-3).clone(), Integer::from_i64(-3));
}
