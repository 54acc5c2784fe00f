//! The abstract state of a market and, for each operation, the transition it
//! makes: the new state and what it returns, or the error that leaves the
//! state unchanged.
use vstd::prelude::*;

use crate::address::escrow_address_of;
use crate::key::Key;
use crate::policy::{
    buyer_share_of, fee_fits, fee_of, net_of, release_authorized, seller_share_of, BPS_DENOMINATOR,
    DISPUTE_DEPOSIT_LAMPORTS, MAX_TRANSACTION_AMOUNT_MXN,
};
use crate::types::{
    route_serves, AssetRoute, Payout, Dispute, DisputeResolution, DisputeStatus, ErrorCode, Order, OrderStatus, PaymentMethod,
    Platform, TokenType, UserProfile,
};

verus! {

/// Everything a market holds: the platform, the user profiles, the orders and,
/// at the same index as each order, its dispute if one was opened.
pub struct MarketState {
    pub program_id: Key,
    pub platform: Platform,
    pub profiles: Seq<UserProfile>,
    pub orders: Seq<Order>,
    pub disputes: Seq<Option<Dispute>>,
}

/// The index of the order with id `id`, if there is one.
pub open spec fn order_index(orders: Seq<Order>, id: Seq<char>) -> Option<int> {
    if exists|i: int| 0 <= i < orders.len() && #[trigger] orders[i].order_id@ == id {
        Some(choose|i: int| 0 <= i < orders.len() && #[trigger] orders[i].order_id@ == id)
    } else {
        None
    }
}

/// The index of the profile owned by `owner`, if there is one.
pub open spec fn profile_index(profiles: Seq<UserProfile>, owner: Key) -> Option<int> {
    if exists|i: int| 0 <= i < profiles.len() && #[trigger] profiles[i].owner == owner {
        Some(choose|i: int| 0 <= i < profiles.len() && #[trigger] profiles[i].owner == owner)
    } else {
        None
    }
}

/// The profile owned by `owner`, if there is one.
pub open spec fn profile_of(profiles: Seq<UserProfile>, owner: Key) -> Option<UserProfile> {
    match profile_index(profiles, owner) {
        Some(i) => Some(profiles[i]),
        None => None,
    }
}

/// A profile that records one more trade, completed successfully. At the
/// counters' limit it is left as it is, so the counters never wrap and
/// `successful + disputed <= total` keeps holding.
pub open spec fn with_success(p: UserProfile) -> UserProfile {
    if p.total_trades < u64::MAX {
        UserProfile {
            total_trades: (p.total_trades + 1) as u64,
            successful_trades: (p.successful_trades + 1) as u64,
            ..p
        }
    } else {
        p
    }
}

/// A profile that records one more trade, ended in a dispute it opened.
pub open spec fn with_dispute(p: UserProfile) -> UserProfile {
    if p.total_trades < u64::MAX {
        UserProfile {
            total_trades: (p.total_trades + 1) as u64,
            disputed_trades: (p.disputed_trades + 1) as u64,
            ..p
        }
    } else {
        p
    }
}

/// The profiles after `owner`'s records a successful trade.
pub open spec fn credit_success(profiles: Seq<UserProfile>, owner: Key) -> Seq<UserProfile> {
    profiles.map_values(|p: UserProfile| if p.owner == owner { with_success(p) } else { p })
}

/// The profiles after `owner`'s records a disputed trade.
pub open spec fn credit_dispute(profiles: Seq<UserProfile>, owner: Key) -> Seq<UserProfile> {
    profiles.map_values(|p: UserProfile| if p.owner == owner { with_dispute(p) } else { p })
}

/// Whether a profile's counters are consistent.
pub open spec fn profile_ok(p: UserProfile) -> bool {
    p.successful_trades + p.disputed_trades <= p.total_trades
}

/// The order status that each dispute resolution leads to.
pub open spec fn status_for(resolution: DisputeResolution) -> OrderStatus {
    match resolution {
        DisputeResolution::FavorBuyer => OrderStatus::Completed,
        DisputeResolution::FavorSeller => OrderStatus::Cancelled,
        DisputeResolution::Split => OrderStatus::PartialRefund,
    }
}

/// Whether a terminal order reached through a dispute agrees with the
/// dispute's recorded resolution, and its escrow is either untouched or empty.
pub open spec fn resolved_ok(o: Order, d: Option<Dispute>) -> bool {
    &&& d is Some
    &&& d->0.status == DisputeStatus::Resolved
    &&& d->0.resolution is Some
    &&& status_for(d->0.resolution->0) == o.status
    &&& (o.escrow_balance == 0 || o.escrow_balance == o.amount)
}

/// Whether an order and its dispute slot are consistent with the lifecycle.
pub open spec fn order_ok(o: Order, d: Option<Dispute>) -> bool {
    &&& o.amount > 0
    &&& (o.buyer is Some ==> o.buyer->0 != o.seller)
    &&& (d is Some ==> d->0.order@ == o.order_id@)
    &&& (d is Some ==> (d->0.status == DisputeStatus::Open <==> d->0.resolution is None))
    &&& match o.status {
        OrderStatus::Open => o.buyer is None && o.escrow_balance == 0 && d is None,
        OrderStatus::Accepted => o.buyer is Some && o.escrow_balance == 0 && d is None,
        OrderStatus::Funded => o.buyer is Some && o.escrow_balance == o.amount && d is None,
        OrderStatus::PaymentConfirmed => {
            &&& o.buyer is Some
            &&& o.escrow_balance == o.amount
            &&& d is None
            &&& o.payment_confirmed_at is Some
        },
        OrderStatus::Disputed => {
            &&& o.buyer is Some
            &&& o.escrow_balance == o.amount
            &&& d is Some
            &&& d->0.status == DisputeStatus::Open
        },
        OrderStatus::Completed => (d is None && o.escrow_balance == 0) || resolved_ok(o, d),
        OrderStatus::Cancelled => (d is None && o.escrow_balance == 0) || resolved_ok(o, d),
        OrderStatus::PartialRefund => resolved_ok(o, d),
    }
}

impl MarketState {
    /// The market's invariant.
    pub open spec fn wf(self) -> bool {
        &&& self.platform.fee_bps <= BPS_DENOMINATOR
        &&& self.disputes.len() == self.orders.len()
        &&& forall|i: int, j: int|
            0 <= i < self.orders.len() && 0 <= j < self.orders.len()
                && #[trigger] self.orders[i].order_id@ == #[trigger] self.orders[j].order_id@
                ==> i == j
        &&& forall|i: int, j: int|
            0 <= i < self.profiles.len() && 0 <= j < self.profiles.len()
                && #[trigger] self.profiles[i].owner == #[trigger] self.profiles[j].owner
                ==> i == j
        &&& forall|i: int| 0 <= i < self.profiles.len() ==> profile_ok(#[trigger] self.profiles[i])
        &&& forall|i: int|
            0 <= i < self.orders.len() ==> order_ok(#[trigger] self.orders[i], self.disputes[i])
    }

    /// This state with order `i` replaced.
    pub open spec fn with_order(self, i: int, o: Order) -> MarketState {
        MarketState { orders: self.orders.update(i, o), ..self }
    }
}

/// A fresh profile for `user`.
pub open spec fn new_profile(user: Key, kyc_verified: bool, kyc_nft_mint: Option<Key>, now: i64) -> UserProfile {
    UserProfile {
        owner: user,
        kyc_verified,
        kyc_nft_mint,
        total_trades: 0,
        successful_trades: 0,
        disputed_trades: 0,
        is_active: true,
        created_at: now,
    }
}

/// Registering a profile for `user`.
pub open spec fn create_profile_step(
    m: MarketState,
    user: Key,
    kyc_verified: bool,
    kyc_nft_mint: Option<Key>,
    now: i64,
) -> Result<MarketState, ErrorCode> {
    if profile_index(m.profiles, user) is Some {
        Err(ErrorCode::AlreadyExists)
    } else {
        Ok(MarketState { profiles: m.profiles.push(new_profile(user, kyc_verified, kyc_nft_mint, now)), ..m })
    }
}

/// The key whose bytes are `b`.
pub open spec fn key_with_bytes(b: Seq<u8>) -> Key {
    Key { bytes: choose|a: [u8; 32]| #[trigger] a@ == b }
}

/// The platform authority recording a change in `user`'s eligibility, as
/// reported by the credential service (a revocation, a renewal).
pub open spec fn user_status_step(
    m: MarketState,
    caller: Key,
    user: Key,
    kyc_verified: bool,
    is_active: bool,
) -> Result<MarketState, ErrorCode> {
    if caller != m.platform.authority {
        Err(ErrorCode::Unauthorized)
    } else {
        match profile_index(m.profiles, user) {
            None => Err(ErrorCode::NotFound),
            Some(i) => Ok(
                MarketState {
                    profiles: m.profiles.update(
                        i,
                        UserProfile { kyc_verified, is_active, ..m.profiles[i] },
                    ),
                    ..m
                },
            ),
        }
    }
}

/// A fresh open order.
pub open spec fn new_order(
    seller: Key,
    order_id: String,
    amount: u64,
    amount_mxn: u64,
    token_type: TokenType,
    payment_method: PaymentMethod,
    stp_reference: String,
    escrow: Key,
    now: i64,
) -> Order {
    Order {
        order_id,
        seller,
        buyer: None,
        amount,
        amount_mxn,
        token_type,
        payment_method,
        status: OrderStatus::Open,
        stp_reference,
        stp_transaction_id: None,
        stp_oracle_confirmed: false,
        escrow,
        escrow_balance: 0,
        created_at: now,
        accepted_at: None,
        funded_at: None,
        payment_confirmed_at: None,
        completed_at: None,
    }
}

/// Creating an order: its id must be free and usable as an address seed,
/// the seller must have a profile, the amounts must be in range, and the
/// seller verified and active.
pub open spec fn create_order_step(
    m: MarketState,
    seller: Key,
    order_id: String,
    amount: u64,
    amount_mxn: u64,
    token_type: TokenType,
    payment_method: PaymentMethod,
    stp_reference: String,
    now: i64,
) -> Result<MarketState, ErrorCode> {
    let escrow = escrow_address_of(m.program_id, order_id@);
    if escrow is None {
        Err(ErrorCode::InvalidOrderId)
    } else if order_index(m.orders, order_id@) is Some {
        Err(ErrorCode::AlreadyExists)
    } else if profile_of(m.profiles, seller) is None {
        Err(ErrorCode::NotFound)
    } else if amount == 0 {
        Err(ErrorCode::InvalidAmount)
    } else if amount_mxn == 0 || amount_mxn > MAX_TRANSACTION_AMOUNT_MXN {
        Err(ErrorCode::ExceedsMaxLimit)
    } else if !profile_of(m.profiles, seller)->0.kyc_verified {
        Err(ErrorCode::KYCRequired)
    } else if !profile_of(m.profiles, seller)->0.is_active {
        Err(ErrorCode::UserNotActive)
    } else {
        let key = key_with_bytes(escrow->0);
        let o = new_order(seller, order_id, amount, amount_mxn, token_type, payment_method, stp_reference, key, now);
        Ok(MarketState { orders: m.orders.push(o), disputes: m.disputes.push(None), ..m })
    }
}

/// A buyer taking an open order: the order must be open, and the buyer have
/// a verified, active profile and not be the seller.
pub open spec fn accept_step(m: MarketState, buyer: Key, id: Seq<char>, now: i64) -> Result<
    MarketState,
    ErrorCode,
> {
    match order_index(m.orders, id) {
        None => Err(ErrorCode::NotFound),
        Some(i) => {
            let o = m.orders[i];
            if o.status != OrderStatus::Open {
                Err(ErrorCode::OrderNotOpen)
            } else if profile_of(m.profiles, buyer) is None {
                Err(ErrorCode::NotFound)
            } else if !profile_of(m.profiles, buyer)->0.kyc_verified {
                Err(ErrorCode::KYCRequired)
            } else if !profile_of(m.profiles, buyer)->0.is_active {
                Err(ErrorCode::UserNotActive)
            } else if o.seller == buyer {
                Err(ErrorCode::CannotTradeWithSelf)
            } else {
                Ok(
                    m.with_order(
                        i,
                        Order {
                            buyer: Some(buyer),
                            status: OrderStatus::Accepted,
                            accepted_at: Some(now),
                            ..o
                        },
                    ),
                )
            }
        },
    }
}

/// The seller funding the escrow of an accepted order over `route`. On
/// success it returns the amount to move from the seller into escrow.
pub open spec fn deposit_step(
    m: MarketState,
    seller: Key,
    id: Seq<char>,
    route: AssetRoute,
    now: i64,
) -> Result<(MarketState, u64), ErrorCode> {
    match order_index(m.orders, id) {
        None => Err(ErrorCode::NotFound),
        Some(i) => {
            let o = m.orders[i];
            if o.status != OrderStatus::Accepted {
                Err(ErrorCode::InvalidOrderStatus)
            } else if !route_serves(route, o.token_type) {
                Err(ErrorCode::InvalidTokenType)
            } else if o.seller != seller {
                Err(ErrorCode::UnauthorizedSeller)
            } else {
                Ok(
                    (
                        m.with_order(
                            i,
                            Order {
                                status: OrderStatus::Funded,
                                funded_at: Some(now),
                                escrow_balance: o.amount,
                                ..o
                            },
                        ),
                        o.amount,
                    ),
                )
            }
        },
    }
}

/// The buyer declaring the fiat payment sent, with the payment rail's
/// transaction id.
pub open spec fn confirm_step(
    m: MarketState,
    buyer: Key,
    id: Seq<char>,
    transaction_id: String,
    now: i64,
) -> Result<MarketState, ErrorCode> {
    match order_index(m.orders, id) {
        None => Err(ErrorCode::NotFound),
        Some(i) => {
            let o = m.orders[i];
            if o.status != OrderStatus::Funded {
                Err(ErrorCode::InvalidOrderStatus)
            } else if o.buyer != Some(buyer) {
                Err(ErrorCode::UnauthorizedBuyer)
            } else {
                Ok(
                    m.with_order(
                        i,
                        Order {
                            stp_transaction_id: Some(transaction_id),
                            status: OrderStatus::PaymentConfirmed,
                            payment_confirmed_at: Some(now),
                            ..o
                        },
                    ),
                )
            }
        },
    }
}

/// The payout that gives the buyer the net amount and the treasury the fee.
pub open spec fn buyer_payout(amount: u64, fee_bps: u64) -> Payout {
    Payout {
        to_seller: 0,
        to_buyer: net_of(amount as int, fee_bps as int) as u64,
        to_treasury: fee_of(amount as int, fee_bps as int) as u64,
    }
}

/// The payout that returns the whole amount to the seller.
pub open spec fn seller_payout(amount: u64) -> Payout {
    Payout { to_seller: amount, to_buyer: 0, to_treasury: 0 }
}

/// The payout that splits the net amount between seller and buyer and gives
/// the treasury the fee.
pub open spec fn split_payout(amount: u64, fee_bps: u64) -> Payout {
    Payout {
        to_seller: seller_share_of(net_of(amount as int, fee_bps as int)) as u64,
        to_buyer: buyer_share_of(net_of(amount as int, fee_bps as int)) as u64,
        to_treasury: fee_of(amount as int, fee_bps as int) as u64,
    }
}

/// Releasing the escrow of a paid order to the buyer, less the fee, over
/// `route`. Both parties' profiles record a successful trade.
pub open spec fn release_step(
    m: MarketState,
    actor: Key,
    id: Seq<char>,
    route: AssetRoute,
    now: i64,
) -> Result<(MarketState, Payout), ErrorCode> {
    match order_index(m.orders, id) {
        None => Err(ErrorCode::NotFound),
        Some(i) => {
            let o = m.orders[i];
            if o.status != OrderStatus::PaymentConfirmed {
                Err(ErrorCode::InvalidOrderStatus)
            } else if !route_serves(route, o.token_type) {
                Err(ErrorCode::InvalidTokenType)
            } else if !release_authorized(actor, m.platform.authority, o.payment_confirmed_at, now) {
                Err(ErrorCode::Unauthorized)
            } else if !fee_fits(o.amount as int, m.platform.fee_bps as int) {
                Err(ErrorCode::ArithmeticOverflow)
            } else if o.escrow_balance < o.amount {
                Err(ErrorCode::InsufficientFunds)
            } else {
                let o2 = Order {
                    status: OrderStatus::Completed,
                    completed_at: Some(now),
                    stp_oracle_confirmed: true,
                    escrow_balance: (o.escrow_balance - o.amount) as u64,
                    ..o
                };
                let seller_credited = credit_success(m.profiles, o.seller);
                let profiles = match o.buyer {
                    Some(b) => credit_success(seller_credited, b),
                    None => seller_credited,
                };
                Ok(
                    (
                        MarketState { profiles, ..m.with_order(i, o2) },
                        buyer_payout(o.amount, m.platform.fee_bps),
                    ),
                )
            }
        },
    }
}

/// A fresh open dispute of the order with id `order`.
pub open spec fn new_dispute(
    order: String,
    initiator: Key,
    reason: String,
    evidence: String,
    now: i64,
) -> Dispute {
    Dispute {
        order,
        initiator,
        reason,
        evidence,
        status: DisputeStatus::Open,
        resolver: None,
        resolution: None,
        resolution_notes: None,
        created_at: now,
        resolved_at: None,
        deposit: DISPUTE_DEPOSIT_LAMPORTS,
    }
}

/// The seller or buyer contesting a funded order. The initiator's profile
/// records a disputed trade; on success it returns the bond to move from the
/// initiator into the dispute record.
pub open spec fn open_dispute_step(
    m: MarketState,
    initiator: Key,
    id: Seq<char>,
    reason: String,
    evidence: String,
    now: i64,
) -> Result<(MarketState, u64), ErrorCode> {
    match order_index(m.orders, id) {
        None => Err(ErrorCode::NotFound),
        Some(i) => {
            let o = m.orders[i];
            if o.status != OrderStatus::Funded && o.status != OrderStatus::PaymentConfirmed {
                Err(ErrorCode::InvalidOrderStatus)
            } else if m.disputes[i] is Some {
                Err(ErrorCode::AlreadyExists)
            } else if initiator != o.seller && o.buyer != Some(initiator) {
                Err(ErrorCode::Unauthorized)
            } else {
                let d = new_dispute(o.order_id, initiator, reason, evidence, now);
                let o2 = Order { status: OrderStatus::Disputed, ..o };
                Ok(
                    (
                        MarketState {
                            profiles: credit_dispute(m.profiles, initiator),
                            disputes: m.disputes.update(i, Some(d)),
                            ..m.with_order(i, o2)
                        },
                        DISPUTE_DEPOSIT_LAMPORTS,
                    ),
                )
            }
        },
    }
}

/// The platform authority deciding an open dispute. The order moves to the
/// status the resolution leads to; no escrowed funds move. The bond goes back
/// to the initiator: on success it returns the amount to move from the
/// dispute record to the initiator.
pub open spec fn resolve_step(
    m: MarketState,
    resolver: Key,
    id: Seq<char>,
    resolution: DisputeResolution,
    notes: String,
    now: i64,
) -> Result<(MarketState, u64), ErrorCode> {
    match order_index(m.orders, id) {
        None => Err(ErrorCode::NotFound),
        Some(i) => {
            let o = m.orders[i];
            match m.disputes[i] {
                None => Err(ErrorCode::NotFound),
                Some(d) => {
                    if d.status != DisputeStatus::Open {
                        Err(ErrorCode::DisputeAlreadyResolved)
                    } else if resolver != m.platform.authority {
                        Err(ErrorCode::Unauthorized)
                    } else if o.status != OrderStatus::Disputed {
                        Err(ErrorCode::InvalidOrderStatus)
                    } else {
                        let d2 = Dispute {
                            resolver: Some(resolver),
                            resolution: Some(resolution),
                            status: DisputeStatus::Resolved,
                            resolved_at: Some(now),
                            resolution_notes: Some(notes),
                            deposit: 0,
                            ..d
                        };
                        let o2 = Order { status: status_for(resolution), ..o };
                        Ok(
                            (
                                MarketState {
                                    disputes: m.disputes.update(i, Some(d2)),
                                    ..m.with_order(i, o2)
                                },
                                d.deposit,
                            ),
                        )
                    }
                },
            }
        },
    }
}

/// What settling a resolution pays out of an escrow holding `amount`.
pub open spec fn resolution_payout(resolution: DisputeResolution, amount: u64, fee_bps: u64) -> Payout {
    match resolution {
        DisputeResolution::FavorBuyer => buyer_payout(amount, fee_bps),
        DisputeResolution::FavorSeller => seller_payout(amount),
        DisputeResolution::Split => split_payout(amount, fee_bps),
    }
}

/// Whether the order at `i` has a recorded resolution that its status agrees
/// with and an escrow that still holds the funds.
pub open spec fn awaits_settlement(m: MarketState, i: int) -> bool {
    let o = m.orders[i];
    let d = m.disputes[i];
    &&& d is Some
    &&& d->0.resolution is Some
    &&& status_for(d->0.resolution->0) == o.status
    &&& o.escrow_balance != 0
}

/// The platform authority paying out the escrow of a resolved dispute as the
/// recorded resolution says, over `route`.
pub open spec fn settle_step(
    m: MarketState,
    resolver: Key,
    id: Seq<char>,
    route: AssetRoute,
) -> Result<(MarketState, Payout), ErrorCode> {
    match order_index(m.orders, id) {
        None => Err(ErrorCode::NotFound),
        Some(i) => {
            let o = m.orders[i];
            if !awaits_settlement(m, i) {
                Err(ErrorCode::InvalidOrderStatus)
            } else if resolver != m.platform.authority {
                Err(ErrorCode::Unauthorized)
            } else if !route_serves(route, o.token_type) {
                Err(ErrorCode::InvalidTokenType)
            } else if !fee_fits(o.amount as int, m.platform.fee_bps as int) {
                Err(ErrorCode::ArithmeticOverflow)
            } else if o.escrow_balance < o.amount {
                Err(ErrorCode::InsufficientFunds)
            } else {
                let o2 = Order { escrow_balance: (o.escrow_balance - o.amount) as u64, ..o };
                Ok(
                    (
                        m.with_order(i, o2),
                        resolution_payout(m.disputes[i]->0.resolution->0, o.amount, m.platform.fee_bps),
                    ),
                )
            }
        },
    }
}

/// Settling a dispute that was resolved with a split; any other recorded
/// resolution is a state error.
pub open spec fn split_step(
    m: MarketState,
    resolver: Key,
    id: Seq<char>,
    route: AssetRoute,
) -> Result<(MarketState, Payout), ErrorCode> {
    match order_index(m.orders, id) {
        None => Err(ErrorCode::NotFound),
        Some(i) => {
            if m.disputes[i] is None || m.disputes[i]->0.resolution != Some(DisputeResolution::Split) {
                Err(ErrorCode::InvalidOrderStatus)
            } else {
                settle_step(m, resolver, id, route)
            }
        },
    }
}

/// The seller cancelling a funded order and taking the escrow back in full.
pub open spec fn cancel_step(
    m: MarketState,
    seller: Key,
    id: Seq<char>,
    route: AssetRoute,
) -> Result<(MarketState, Payout), ErrorCode> {
    match order_index(m.orders, id) {
        None => Err(ErrorCode::NotFound),
        Some(i) => {
            let o = m.orders[i];
            if o.status != OrderStatus::Funded {
                Err(ErrorCode::InvalidOrderStatus)
            } else if o.seller != seller {
                Err(ErrorCode::UnauthorizedSeller)
            } else if !route_serves(route, o.token_type) {
                Err(ErrorCode::InvalidTokenType)
            } else if o.escrow_balance < o.amount {
                Err(ErrorCode::InsufficientFunds)
            } else {
                let o2 = Order {
                    status: OrderStatus::Cancelled,
                    escrow_balance: (o.escrow_balance - o.amount) as u64,
                    ..o
                };
                Ok((m.with_order(i, o2), seller_payout(o.amount)))
            }
        },
    }
}

/// The platform authority setting the advisory oracle flag of an order.
pub open spec fn oracle_step(m: MarketState, oracle: Key, id: Seq<char>, confirmed: bool) -> Result<
    MarketState,
    ErrorCode,
> {
    match order_index(m.orders, id) {
        None => Err(ErrorCode::NotFound),
        Some(i) => {
            if oracle != m.platform.authority {
                Err(ErrorCode::Unauthorized)
            } else {
                Ok(m.with_order(i, Order { stp_oracle_confirmed: confirmed, ..m.orders[i] }))
            }
        },
    }
}

/// Whether profile owners are unique and every profile's counters are
/// consistent.
pub open spec fn profiles_ok(profiles: Seq<UserProfile>) -> bool {
    &&& forall|i: int, j: int|
        0 <= i < profiles.len() && 0 <= j < profiles.len() && #[trigger] profiles[i].owner
            == #[trigger] profiles[j].owner ==> i == j
    &&& forall|i: int| 0 <= i < profiles.len() ==> profile_ok(#[trigger] profiles[i])
}

/// Recording a successful trade keeps owners unique and counters consistent.
pub(crate) proof fn lemma_credit_success_ok(profiles: Seq<UserProfile>, owner: Key)
    requires
        profiles_ok(profiles),
    ensures
        profiles_ok(credit_success(profiles, owner)),
        credit_success(profiles, owner).len() == profiles.len(),
{
    let ps = credit_success(profiles, owner);
    assert forall|i: int| 0 <= i < ps.len() implies #[trigger] ps[i].owner == profiles[i].owner
        && profile_ok(ps[i]) by {
        assert(profile_ok(profiles[i]));
    }
    assert forall|i: int, j: int|
        0 <= i < ps.len() && 0 <= j < ps.len() && #[trigger] ps[i].owner == #[trigger] ps[j].owner
        implies i == j by {
        assert(profiles[i].owner == profiles[j].owner);
    }
}

/// Recording a disputed trade keeps owners unique and counters consistent.
pub(crate) proof fn lemma_credit_dispute_ok(profiles: Seq<UserProfile>, owner: Key)
    requires
        profiles_ok(profiles),
    ensures
        profiles_ok(credit_dispute(profiles, owner)),
        credit_dispute(profiles, owner).len() == profiles.len(),
{
    let ps = credit_dispute(profiles, owner);
    assert forall|i: int| 0 <= i < ps.len() implies #[trigger] ps[i].owner == profiles[i].owner
        && profile_ok(ps[i]) by {
        assert(profile_ok(profiles[i]));
    }
    assert forall|i: int, j: int|
        0 <= i < ps.len() && 0 <= j < ps.len() && #[trigger] ps[i].owner == #[trigger] ps[j].owner
        implies i == j by {
        assert(profiles[i].owner == profiles[j].owner);
    }
}

/// A state that differs from a well-formed one only at order `i`, its
/// dispute and the profiles is well-formed when the order keeps its id, the
/// new order agrees with its dispute and the profiles stay consistent.
pub(crate) proof fn lemma_wf_after_update(m: MarketState, s: MarketState, i: int)
    requires
        m.wf(),
        0 <= i < m.orders.len(),
        s.platform == m.platform,
        s.orders.len() == m.orders.len(),
        s.disputes.len() == m.disputes.len(),
        forall|j: int| 0 <= j < m.orders.len() && j != i ==> #[trigger] s.orders[j] == m.orders[j],
        forall|j: int| 0 <= j < m.orders.len() && j != i ==> #[trigger] s.disputes[j] == m.disputes[j],
        s.orders[i].order_id@ == m.orders[i].order_id@,
        order_ok(s.orders[i], s.disputes[i]),
        profiles_ok(s.profiles),
    ensures
        s.wf(),
{
    assert forall|j: int| 0 <= j < s.orders.len() implies #[trigger] s.orders[j].order_id@
        == m.orders[j].order_id@ by {
        if j != i {
            assert(s.orders[j] == m.orders[j]);
        }
    }
    assert forall|a: int, b: int|
        0 <= a < s.orders.len() && 0 <= b < s.orders.len() && #[trigger] s.orders[a].order_id@
            == #[trigger] s.orders[b].order_id@ implies a == b by {
        assert(m.orders[a].order_id@ == m.orders[b].order_id@);
    }
    assert forall|j: int| 0 <= j < s.orders.len() implies order_ok(
        #[trigger] s.orders[j],
        s.disputes[j],
    ) by {
        if j != i {
            assert(s.orders[j] == m.orders[j]);
            assert(s.disputes[j] == m.disputes[j]);
        }
    }
}

} // verus!
