use tipjar::key::Key;
use tipjar::policy::{
    compute_fee, is_release_authorized, net_amount, split_shares, BPS_DENOMINATOR,
    PLATFORM_FEE_BPS, RELEASE_TIMEOUT_SECONDS,
};
use tipjar::types::ErrorCode;

#[test]
fn fee_on_one_thousand_at_default_rate() {
    assert_eq!(compute_fee(1000, PLATFORM_FEE_BPS), Ok(5));
    assert_eq!(net_amount(1000, PLATFORM_FEE_BPS), Ok(995));
}

#[test]
fn fee_rounds_down() {
    assert_eq!(compute_fee(199, 50), Ok(0));
    assert_eq!(compute_fee(201, 50), Ok(1));
    assert_eq!(net_amount(201, 50), Ok(200));
}

#[test]
fn fee_and_net_sum_to_amount() {
    for &(amount, bps) in &[(0u64, 50u64), (1, 10000), (12345, 333), (999_999, 0), (7, 9999)] {
        let fee = compute_fee(amount, bps).unwrap();
        let net = net_amount(amount, bps).unwrap();
        assert_eq!(fee + net, amount);
        assert!(fee <= amount);
    }
}

#[test]
fn full_rate_takes_everything() {
    assert_eq!(compute_fee(777, BPS_DENOMINATOR), Ok(777));
    assert_eq!(net_amount(777, BPS_DENOMINATOR), Ok(0));
}

#[test]
fn fee_overflow_is_rejected() {
    assert_eq!(compute_fee(u64::MAX, 50), Err(ErrorCode::ArithmeticOverflow));
    assert_eq!(net_amount(u64::MAX, 2), Err(ErrorCode::ArithmeticOverflow));
    assert_eq!(compute_fee(u64::MAX, 1), Ok(u64::MAX / 10000));
}

#[test]
fn split_gives_odd_unit_to_buyer() {
    assert_eq!(split_shares(995), (497, 498));
    assert_eq!(split_shares(1000), (500, 500));
    assert_eq!(split_shares(1), (0, 1));
    assert_eq!(split_shares(0), (0, 0));
    let (s, b) = split_shares(u64::MAX);
    assert_eq!(s as u128 + b as u128, u64::MAX as u128);
    assert_eq!(b - s, 1);
}

#[test]
fn release_authorization_window() {
    let authority = Key::new([9u8; 32]);
    let other = Key::new([3u8; 32]);
    assert!(is_release_authorized(authority, authority, None, 0));
    assert!(!is_release_authorized(other, authority, None, 1_000_000));
    assert!(!is_release_authorized(other, authority, Some(100), 100 + RELEASE_TIMEOUT_SECONDS));
    assert!(is_release_authorized(other, authority, Some(100), 101 + RELEASE_TIMEOUT_SECONDS));
    assert!(is_release_authorized(other, authority, Some(i64::MIN), i64::MAX));
    assert!(!is_release_authorized(other, authority, Some(i64::MAX), i64::MIN));
}

#[test]
fn keys_compare_by_bytes() {
    let mut b = [5u8; 32];
    let k1 = Key::new(b);
    b[31] = 6;
    let k2 = Key::new(b);
    assert!(k1 == Key::new([5u8; 32]));
    assert!(k1 != k2);
    assert_eq!(k2.to_bytes()[31], 6);
}
