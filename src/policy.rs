//! Fee, split and release-timeout arithmetic.
use vstd::prelude::*;

use crate::key::Key;
use crate::types::ErrorCode;

verus! {

/// Largest fiat amount one order may carry: 9,000 units with 6 implied
/// decimals.
pub const MAX_TRANSACTION_AMOUNT_MXN: u64 = 9_000_000_000;

/// Default platform fee: 0.5%.
pub const PLATFORM_FEE_BPS: u64 = 50;

/// Basis points in a whole.
pub const BPS_DENOMINATOR: u64 = 10_000;

/// Bond, in lamports, that the initiator of a dispute posts.
pub const DISPUTE_DEPOSIT_LAMPORTS: u64 = 10_000_000;

/// Seconds after payment confirmation from which anyone may release funds.
pub const RELEASE_TIMEOUT_SECONDS: i64 = 86_400;

/// The platform fee on `amount` at `fee_bps`: `floor(amount * fee_bps / 10000)`.
pub open spec fn fee_of(amount: int, fee_bps: int) -> int {
    amount * fee_bps / 10000
}

/// What is left of `amount` once the fee is taken.
pub open spec fn net_of(amount: int, fee_bps: int) -> int {
    amount - fee_of(amount, fee_bps)
}

/// Whether `amount * fee_bps` fits the 64-bit width the fee is computed in.
pub open spec fn fee_fits(amount: int, fee_bps: int) -> bool {
    amount * fee_bps <= u64::MAX
}

/// The seller's half of a split: the floor of half the net amount.
pub open spec fn seller_share_of(net: int) -> int {
    net / 2
}

/// The buyer's half of a split: the rest, so the odd unit goes to the buyer.
pub open spec fn buyer_share_of(net: int) -> int {
    net - seller_share_of(net)
}

/// Whether `actor` may release escrowed funds: the platform authority always,
/// anyone else once strictly more than the timeout has passed since payment
/// was confirmed.
pub open spec fn release_authorized(
    actor: Key,
    authority: Key,
    payment_confirmed_at: Option<i64>,
    now: i64,
) -> bool {
    actor == authority || match payment_confirmed_at {
        Some(t) => now - t > RELEASE_TIMEOUT_SECONDS,
        None => false,
    }
}

/// The platform fee on `amount`, rejecting a product that overflows.
pub fn compute_fee(amount: u64, fee_bps: u64) -> (r: Result<u64, ErrorCode>)
    requires
        fee_bps <= BPS_DENOMINATOR,
    ensures
        fee_fits(amount as int, fee_bps as int) ==> r == Ok::<u64, ErrorCode>(
            fee_of(amount as int, fee_bps as int) as u64,
        ),
        !fee_fits(amount as int, fee_bps as int) ==> r == Err::<u64, ErrorCode>(
            ErrorCode::ArithmeticOverflow,
        ),
{
    match amount.checked_mul(fee_bps) {
        Some(p) => Ok(p / BPS_DENOMINATOR),
        None => Err(ErrorCode::ArithmeticOverflow),
    }
}

/// `amount` less the platform fee, rejecting a fee computation that overflows.
pub fn net_amount(amount: u64, fee_bps: u64) -> (r: Result<u64, ErrorCode>)
    requires
        fee_bps <= BPS_DENOMINATOR,
    ensures
        fee_fits(amount as int, fee_bps as int) ==> r == Ok::<u64, ErrorCode>(
            net_of(amount as int, fee_bps as int) as u64,
        ),
        !fee_fits(amount as int, fee_bps as int) ==> r == Err::<u64, ErrorCode>(
            ErrorCode::ArithmeticOverflow,
        ),
{
    let fee = compute_fee(amount, fee_bps)?;
    proof {
        lemma_fee_within_amount(amount as int, fee_bps as int);
    }
    Ok(amount - fee)
}

/// Splits a net amount between seller and buyer: `(seller, buyer)`.
pub fn split_shares(net: u64) -> (r: (u64, u64))
    ensures
        r.0 == seller_share_of(net as int),
        r.1 == buyer_share_of(net as int),
{
    let seller = net / 2;
    (seller, net - seller)
}

/// Whether `actor` may release funds at `now`; see `release_authorized`.
pub fn is_release_authorized(
    actor: Key,
    authority: Key,
    payment_confirmed_at: Option<i64>,
    now: i64,
) -> (r: bool)
    ensures
        r == release_authorized(actor, authority, payment_confirmed_at, now),
{
    if actor == authority {
        return true;
    }
    match payment_confirmed_at {
        Some(t) => (now as i128) - (t as i128) > (RELEASE_TIMEOUT_SECONDS as i128),
        None => false,
    }
}

/// The fee lies between zero and the amount whenever the rate is at most 100%.
pub proof fn lemma_fee_within_amount(amount: int, fee_bps: int)
    requires
        0 <= amount,
        0 <= fee_bps <= 10000,
    ensures
        0 <= fee_of(amount, fee_bps) <= amount,
{
    assert(0 <= amount * fee_bps <= amount * 10000) by (nonlinear_arith)
        requires
            0 <= amount,
            0 <= fee_bps <= 10000,
    ;
    assert(amount * fee_bps / 10000 <= amount) by (nonlinear_arith)
        requires
            0 <= amount * fee_bps <= amount * 10000,
    ;
    assert(0 <= amount * fee_bps / 10000) by (nonlinear_arith)
        requires
            0 <= amount * fee_bps,
    ;
}

/// For every amount and every rate of at most 100%, the fee and the net
/// amount add up to the amount, and the fee is between zero and the amount.
pub proof fn lemma_fee_and_net_partition_amount(amount: u64, fee_bps: u64)
    requires
        fee_bps <= BPS_DENOMINATOR,
    ensures
        fee_of(amount as int, fee_bps as int) + net_of(amount as int, fee_bps as int)
            == amount,
        0 <= fee_of(amount as int, fee_bps as int) <= amount,
        0 <= net_of(amount as int, fee_bps as int) <= amount,
{
    lemma_fee_within_amount(amount as int, fee_bps as int);
}

/// For every net amount, the two split shares add up to it and the buyer's
/// share exceeds the seller's by the odd unit at most.
pub proof fn lemma_split_partitions_net(net: u64)
    ensures
        seller_share_of(net as int) + buyer_share_of(net as int) == net,
        0 <= buyer_share_of(net as int) - seller_share_of(net as int) <= 1,
        buyer_share_of(net as int) - seller_share_of(net as int) == net % 2,
        0 <= seller_share_of(net as int),
{
}

} // verus!
