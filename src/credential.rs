//! Identity credentials: a registry authority issues one credential record
//! per verified user, and can revoke or renew it. A credential is valid while
//! it is not revoked and not past its expiry.
use vstd::prelude::*;

use crate::key::Key;

verus! {

/// How thoroughly a user's identity was checked.
#[derive(Clone, Copy, Debug, PartialEq, Eq, Structural)]
pub enum VerificationLevel {
    Basic,
    Standard,
    Enhanced,
    Premium,
}

/// The name of a verification level.
pub open spec fn level_name(level: VerificationLevel) -> Seq<char> {
    match level {
        VerificationLevel::Basic => "Basic"@,
        VerificationLevel::Standard => "Standard"@,
        VerificationLevel::Enhanced => "Enhanced"@,
        VerificationLevel::Premium => "Premium"@,
    }
}

impl VerificationLevel {
    /// The level's name.
    pub fn to_string(&self) -> (r: &'static str)
        ensures
            r@ == level_name(*self),
    {
        match self {
            VerificationLevel::Basic => "Basic",
            VerificationLevel::Standard => "Standard",
            VerificationLevel::Enhanced => "Enhanced",
            VerificationLevel::Premium => "Premium",
        }
    }
}

/// Why a credential operation was rejected.
#[derive(Clone, Copy, Debug, PartialEq, Eq, Structural)]
pub enum ErrorCode {
    SystemNotActive,
    AlreadyRevoked,
    KycRevoked,
    KycExpired,
    InvalidVerificationLevel,
    Unauthorized,
}

/// The issuing authority: who may revoke and renew, and running totals.
#[derive(Clone, Copy, Debug)]
pub struct KycAuthority {
    pub authority: Key,
    pub total_issued: u64,
    pub total_revoked: u64,
    pub collection_mint: Key,
    pub is_active: bool,
}

/// One user's credential.
#[derive(Debug)]
pub struct KycRecord {
    pub user: Key,
    pub mint: Key,
    pub user_name: String,
    pub user_id: String,
    pub verification_level: VerificationLevel,
    pub issued_at: i64,
    pub expires_at: Option<i64>,
    pub last_updated: Option<i64>,
    pub is_valid: bool,
    pub revoked_at: Option<i64>,
    pub revocation_reason: Option<String>,
    pub metadata_uri: String,
}

/// Whether a credential is valid at `now`: not revoked, and either without
/// expiry or not yet expired.
pub open spec fn credential_valid(record: KycRecord, now: i64) -> bool {
    record.is_valid && match record.expires_at {
        Some(t) => now < t,
        None => true,
    }
}

/// Sets up an active issuing authority with nothing issued yet.
pub fn initialize(authority: Key, collection_mint: Key) -> (r: KycAuthority)
    ensures
        r == (KycAuthority {
            authority,
            total_issued: 0,
            total_revoked: 0,
            collection_mint,
            is_active: true,
        }),
{
    KycAuthority { authority, total_issued: 0, total_revoked: 0, collection_mint, is_active: true }
}

/// The display name of the credential token for `level`.
pub fn nft_name(level: VerificationLevel) -> (r: String)
    ensures
        r@ == "KYC Verification - "@ + level_name(level),
{
    let mut name = String::from_str("KYC Verification - ");
    name.append(level.to_string());
    name
}

/// Issues a credential for `user`, held as the token `mint`; counts it.
pub fn issue_kyc_nft(
    kyc_authority: &mut KycAuthority,
    user: Key,
    mint: Key,
    user_name: String,
    user_id: String,
    verification_level: VerificationLevel,
    metadata_uri: String,
    now: i64,
) -> (r: Result<KycRecord, ErrorCode>)
    requires
        old(kyc_authority).total_issued < u64::MAX,
    ensures
        !old(kyc_authority).is_active ==> r == Err::<KycRecord, ErrorCode>(ErrorCode::SystemNotActive)
            && *final(kyc_authority) == *old(kyc_authority),
        old(kyc_authority).is_active ==> r == Ok::<KycRecord, ErrorCode>(
            KycRecord {
                user,
                mint,
                user_name,
                user_id,
                verification_level,
                issued_at: now,
                expires_at: None,
                last_updated: None,
                is_valid: true,
                revoked_at: None,
                revocation_reason: None,
                metadata_uri,
            },
        ) && *final(kyc_authority) == (KycAuthority {
            total_issued: (old(kyc_authority).total_issued + 1) as u64,
            ..*old(kyc_authority)
        }),
{
    if !kyc_authority.is_active {
        return Err(ErrorCode::SystemNotActive);
    }
    kyc_authority.total_issued = kyc_authority.total_issued + 1;
    Ok(
        KycRecord {
            user,
            mint,
            user_name,
            user_id,
            verification_level,
            issued_at: now,
            expires_at: None,
            last_updated: None,
            is_valid: true,
            revoked_at: None,
            revocation_reason: None,
            metadata_uri,
        },
    )
}

/// The authority revokes a valid credential, recording why; counts it.
pub fn revoke_kyc_nft(
    kyc_authority: &mut KycAuthority,
    caller: Key,
    kyc_record: &mut KycRecord,
    reason: String,
    now: i64,
) -> (r: Result<(), ErrorCode>)
    requires
        old(kyc_authority).total_revoked < u64::MAX,
    ensures
        caller != old(kyc_authority).authority ==> r == Err::<(), ErrorCode>(ErrorCode::Unauthorized),
        caller == old(kyc_authority).authority && !old(kyc_record).is_valid ==> r == Err::<
            (),
            ErrorCode,
        >(ErrorCode::AlreadyRevoked),
        r is Err ==> *final(kyc_authority) == *old(kyc_authority) && *final(kyc_record)
            == *old(kyc_record),
        caller == old(kyc_authority).authority && old(kyc_record).is_valid ==> r is Ok
            && *final(kyc_record) == (KycRecord {
                is_valid: false,
                revoked_at: Some(now),
                revocation_reason: Some(reason),
                ..*old(kyc_record)
            }) && *final(kyc_authority) == (KycAuthority {
                total_revoked: (old(kyc_authority).total_revoked + 1) as u64,
                ..*old(kyc_authority)
            }),
{
    if caller != kyc_authority.authority {
        return Err(ErrorCode::Unauthorized);
    }
    if !kyc_record.is_valid {
        return Err(ErrorCode::AlreadyRevoked);
    }
    kyc_record.is_valid = false;
    kyc_record.revoked_at = Some(now);
    kyc_record.revocation_reason = Some(reason);
    kyc_authority.total_revoked = kyc_authority.total_revoked + 1;
    Ok(())
}

/// The authority sets a new expiry (or none) on a valid credential.
pub fn renew_kyc_nft(
    kyc_authority: &KycAuthority,
    caller: Key,
    kyc_record: &mut KycRecord,
    new_expiration: Option<i64>,
    now: i64,
) -> (r: Result<(), ErrorCode>)
    ensures
        caller != kyc_authority.authority ==> r == Err::<(), ErrorCode>(ErrorCode::Unauthorized),
        caller == kyc_authority.authority && !old(kyc_record).is_valid ==> r == Err::<(), ErrorCode>(
            ErrorCode::KycRevoked,
        ),
        r is Err ==> *final(kyc_record) == *old(kyc_record),
        caller == kyc_authority.authority && old(kyc_record).is_valid ==> r is Ok
            && *final(kyc_record) == (KycRecord {
                expires_at: new_expiration,
                last_updated: Some(now),
                ..*old(kyc_record)
            }),
{
    if caller != kyc_authority.authority {
        return Err(ErrorCode::Unauthorized);
    }
    if !kyc_record.is_valid {
        return Err(ErrorCode::KycRevoked);
    }
    kyc_record.expires_at = new_expiration;
    kyc_record.last_updated = Some(now);
    Ok(())
}

/// Checks that a credential is valid at `now`: revoked ones fail with
/// `KycRevoked`, expired ones with `KycExpired`.
pub fn verify_kyc_status(kyc_record: &KycRecord, now: i64) -> (r: Result<(), ErrorCode>)
    ensures
        !kyc_record.is_valid ==> r == Err::<(), ErrorCode>(ErrorCode::KycRevoked),
        kyc_record.is_valid && !credential_valid(*kyc_record, now) ==> r == Err::<(), ErrorCode>(
            ErrorCode::KycExpired,
        ),
        r is Ok <==> credential_valid(*kyc_record, now),
{
    if !kyc_record.is_valid {
        return Err(ErrorCode::KycRevoked);
    }
    match kyc_record.expires_at {
        Some(t) => {
            if !(now < t) {
                return Err(ErrorCode::KycExpired);
            }
        },
        None => {},
    }
    Ok(())
}

} // verus!
