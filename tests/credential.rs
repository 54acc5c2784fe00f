use tipjar::credential::{
    initialize, issue_kyc_nft, nft_name, renew_kyc_nft, revoke_kyc_nft, verify_kyc_status,
    ErrorCode, VerificationLevel,
};
use tipjar::key::Key;

fn key(b: u8) -> Key {
    Key::new([b; 32])
}

#[test]
fn issue_then_verify() {
    let mut auth = initialize(key(1), key(2));
    let rec = issue_kyc_nft(
        &mut auth,
        key(3),
        key(4),
        "Ana".to_string(),
        "ID-1".to_string(),
        VerificationLevel::Standard,
        "https://example.org/meta.json".to_string(),
        100,
    )
    .unwrap();
    assert_eq!(auth.total_issued, 1);
    assert!(rec.is_valid);
    assert_eq!(rec.issued_at, 100);
    assert_eq!(rec.expires_at, None);
    assert_eq!(verify_kyc_status(&rec, 1_000_000), Ok(()));
}

#[test]
fn inactive_authority_cannot_issue() {
    let mut auth = initialize(key(1), key(2));
    auth.is_active = false;
    let r = issue_kyc_nft(
        &mut auth,
        key(3),
        key(4),
        "Ana".to_string(),
        "ID-1".to_string(),
        VerificationLevel::Basic,
        "uri".to_string(),
        0,
    );
    assert_eq!(r.unwrap_err(), ErrorCode::SystemNotActive);
    assert_eq!(auth.total_issued, 0);
}

#[test]
fn revoke_once_only() {
    let mut auth = initialize(key(1), key(2));
    let mut rec = issue_kyc_nft(
        &mut auth,
        key(3),
        key(4),
        "Ana".to_string(),
        "ID-1".to_string(),
        VerificationLevel::Premium,
        "uri".to_string(),
        0,
    )
    .unwrap();
    assert_eq!(
        revoke_kyc_nft(&mut auth, key(7), &mut rec, "fraud".to_string(), 5),
        Err(ErrorCode::Unauthorized)
    );
    assert_eq!(revoke_kyc_nft(&mut auth, key(1), &mut rec, "fraud".to_string(), 5), Ok(()));
    assert!(!rec.is_valid);
    assert_eq!(rec.revoked_at, Some(5));
    assert_eq!(rec.revocation_reason.as_deref(), Some("fraud"));
    assert_eq!(auth.total_revoked, 1);
    assert_eq!(
        revoke_kyc_nft(&mut auth, key(1), &mut rec, "again".to_string(), 6),
        Err(ErrorCode::AlreadyRevoked)
    );
    assert_eq!(auth.total_revoked, 1);
    assert_eq!(verify_kyc_status(&rec, 6), Err(ErrorCode::KycRevoked));
    assert_eq!(renew_kyc_nft(&auth, key(1), &mut rec, Some(100), 7), Err(ErrorCode::KycRevoked));
}

#[test]
fn renewal_sets_expiry() {
    let mut auth = initialize(key(1), key(2));
    let mut rec = issue_kyc_nft(
        &mut auth,
        key(3),
        key(4),
        "Ana".to_string(),
        "ID-1".to_string(),
        VerificationLevel::Enhanced,
        "uri".to_string(),
        0,
    )
    .unwrap();
    assert_eq!(renew_kyc_nft(&auth, key(8), &mut rec, Some(50), 10), Err(ErrorCode::Unauthorized));
    assert_eq!(renew_kyc_nft(&auth, key(1), &mut rec, Some(50), 10), Ok(()));
    assert_eq!(rec.expires_at, Some(50));
    assert_eq!(rec.last_updated, Some(10));
    assert_eq!(verify_kyc_status(&rec, 49), Ok(()));
    assert_eq!(verify_kyc_status(&rec, 50), Err(ErrorCode::KycExpired));
}

#[test]
fn level_names() {
    assert_eq!(VerificationLevel::Basic.to_string(), "Basic");
    assert_eq!(VerificationLevel::Premium.to_string(), "Premium");
    assert_eq!(nft_name(VerificationLevel::Standard), "KYC Verification - Standard");
}
