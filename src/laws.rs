//! Properties of the market that hold across operations and calls.
use vstd::prelude::*;

use crate::key::Key;
use crate::model::{
    accept_step, cancel_step, confirm_step, create_profile_step, deposit_step, open_dispute_step,
    oracle_step, order_index, order_ok, release_step, resolve_step, settle_step, split_step, MarketState,
};
use crate::policy::{
    lemma_fee_and_net_partition_amount, lemma_split_partitions_net, net_of, release_authorized,
    fee_fits, RELEASE_TIMEOUT_SECONDS,
};
use crate::types::{
    is_terminal, route_serves, AssetRoute, DisputeResolution, ErrorCode, OrderStatus, Payout,
};

verus! {

/// One operation on an existing order, with its arguments.
pub enum Action {
    Accept { buyer: Key, now: i64 },
    Deposit { seller: Key, route: AssetRoute, now: i64 },
    Confirm { buyer: Key, transaction_id: String, now: i64 },
    Release { actor: Key, route: AssetRoute, now: i64 },
    OpenDispute { initiator: Key, reason: String, evidence: String, now: i64 },
    Resolve { resolver: Key, resolution: DisputeResolution, notes: String, now: i64 },
    Settle { resolver: Key, route: AssetRoute },
    Split { resolver: Key, route: AssetRoute },
    Cancel { seller: Key, route: AssetRoute },
    Oracle { oracle: Key, confirmed: bool },
}

/// The state an action on the order with id `id` leads to, or its error.
pub open spec fn order_step(m: MarketState, id: Seq<char>, a: Action) -> Result<MarketState, ErrorCode> {
    match a {
        Action::Accept { buyer, now } => accept_step(m, buyer, id, now),
        Action::Deposit { seller, route, now } => match deposit_step(m, seller, id, route, now) {
            Ok((s, _)) => Ok(s),
            Err(e) => Err(e),
        },
        Action::Confirm { buyer, transaction_id, now } => confirm_step(m, buyer, id, transaction_id, now),
        Action::Release { actor, route, now } => match release_step(m, actor, id, route, now) {
            Ok((s, _)) => Ok(s),
            Err(e) => Err(e),
        },
        Action::OpenDispute { initiator, reason, evidence, now } => match open_dispute_step(
            m,
            initiator,
            id,
            reason,
            evidence,
            now,
        ) {
            Ok((s, _)) => Ok(s),
            Err(e) => Err(e),
        },
        Action::Resolve { resolver, resolution, notes, now } => match resolve_step(
            m,
            resolver,
            id,
            resolution,
            notes,
            now,
        ) {
            Ok((s, _)) => Ok(s),
            Err(e) => Err(e),
        },
        Action::Settle { resolver, route } => match settle_step(m, resolver, id, route) {
            Ok((s, _)) => Ok(s),
            Err(e) => Err(e),
        },
        Action::Split { resolver, route } => match split_step(m, resolver, id, route) {
            Ok((s, _)) => Ok(s),
            Err(e) => Err(e),
        },
        Action::Cancel { seller, route } => match cancel_step(m, seller, id, route) {
            Ok((s, _)) => Ok(s),
            Err(e) => Err(e),
        },
        Action::Oracle { oracle, confirmed } => oracle_step(m, oracle, id, confirmed),
    }
}

/// A completed order got there by exactly one path: a release with no
/// dispute ever opened, or a dispute resolved in the buyer's favour.
pub proof fn lemma_completed_by_exactly_one_path(m: MarketState, i: int)
    requires
        m.wf(),
        0 <= i < m.orders.len(),
        m.orders[i].status == OrderStatus::Completed,
    ensures
        (m.disputes[i] is None) != (m.disputes[i] is Some && m.disputes[i]->0.resolution == Some(
            DisputeResolution::FavorBuyer,
        )),
{
    assert(order_ok(m.orders[i], m.disputes[i]));
}

/// Only two actions complete an order: a release of a paid order with no
/// dispute, and a resolution in the buyer's favour of a disputed order.
/// Once completed, neither applies again.
pub proof fn lemma_completion_paths(m: MarketState, id: Seq<char>, a: Action)
    requires
        m.wf(),
        order_index(m.orders, id) is Some,
    ensures
        ({
            let i = order_index(m.orders, id)->0;
            order_step(m, id, a) is Ok && m.orders[i].status != OrderStatus::Completed
                && order_step(m, id, a)->Ok_0.orders[i].status == OrderStatus::Completed ==> {
                ||| (a is Release && m.orders[i].status == OrderStatus::PaymentConfirmed
                    && m.disputes[i] is None && order_step(m, id, a)->Ok_0.disputes[i] is None)
                ||| (a is Resolve && a->Resolve_resolution == DisputeResolution::FavorBuyer
                    && m.orders[i].status == OrderStatus::Disputed)
            }
        }),
        ({
            let i = order_index(m.orders, id)->0;
            m.orders[i].status == OrderStatus::Completed && (a is Release || a is Resolve)
                ==> order_step(m, id, a) is Err
        }),
{
    let i = order_index(m.orders, id)->0;
    assert(order_ok(m.orders[i], m.disputes[i]));
}

/// Escrow holds the order's amount from funding on, every disbursement takes
/// exactly that amount and leaves the escrow empty, and once an order is
/// terminal with an empty escrow every disbursement fails with a state error.
pub proof fn lemma_escrow_disbursed_once(
    m: MarketState,
    id: Seq<char>,
    actor: Key,
    route: AssetRoute,
    now: i64,
)
    requires
        m.wf(),
        order_index(m.orders, id) is Some,
    ensures
        ({
            let i = order_index(m.orders, id)->0;
            &&& (deposit_step(m, actor, id, route, now) is Ok ==> {
                let s = deposit_step(m, actor, id, route, now)->Ok_0.0;
                s.orders[i].status == OrderStatus::Funded && s.orders[i].escrow_balance
                    == m.orders[i].amount
            })
            &&& (release_step(m, actor, id, route, now) is Ok ==> {
                let (s, p) = release_step(m, actor, id, route, now)->Ok_0;
                s.orders[i].escrow_balance == 0 && p.total() == m.orders[i].amount
            })
            &&& (cancel_step(m, actor, id, route) is Ok ==> {
                let (s, p) = cancel_step(m, actor, id, route)->Ok_0;
                s.orders[i].escrow_balance == 0 && p.total() == m.orders[i].amount
            })
            &&& (settle_step(m, actor, id, route) is Ok ==> {
                let (s, p) = settle_step(m, actor, id, route)->Ok_0;
                s.orders[i].escrow_balance == 0 && p.total() == m.orders[i].amount
            })
            &&& (split_step(m, actor, id, route) is Ok ==> {
                let (s, p) = split_step(m, actor, id, route)->Ok_0;
                s.orders[i].escrow_balance == 0 && p.total() == m.orders[i].amount
            })
        }),
        ({
            let i = order_index(m.orders, id)->0;
            is_terminal(m.orders[i].status) && m.orders[i].escrow_balance == 0 ==> {
                &&& release_step(m, actor, id, route, now) == Err::<(MarketState, Payout), ErrorCode>(ErrorCode::InvalidOrderStatus)
                &&& cancel_step(m, actor, id, route) == Err::<(MarketState, Payout), ErrorCode>(ErrorCode::InvalidOrderStatus)
                &&& settle_step(m, actor, id, route) == Err::<(MarketState, Payout), ErrorCode>(ErrorCode::InvalidOrderStatus)
                &&& split_step(m, actor, id, route) == Err::<(MarketState, Payout), ErrorCode>(ErrorCode::InvalidOrderStatus)
            }
        }),
{
    let i = order_index(m.orders, id)->0;
    let o = m.orders[i];
    assert(order_ok(o, m.disputes[i]));
    if fee_fits(o.amount as int, m.platform.fee_bps as int) {
        lemma_fee_and_net_partition_amount(o.amount, m.platform.fee_bps);
        lemma_split_partitions_net(net_of(o.amount as int, m.platform.fee_bps as int) as u64);
    }
}

/// A paid order's release, over the route its asset uses and with a fee that
/// fits, succeeds exactly when the caller is the platform authority or the
/// timeout since payment confirmation has passed; otherwise it is
/// unauthorized.
pub proof fn lemma_release_authorization(
    m: MarketState,
    id: Seq<char>,
    actor: Key,
    route: AssetRoute,
    now: i64,
)
    requires
        m.wf(),
        order_index(m.orders, id) is Some,
        m.orders[order_index(m.orders, id)->0].status == OrderStatus::PaymentConfirmed,
        route_serves(route, m.orders[order_index(m.orders, id)->0].token_type),
        fee_fits(
            m.orders[order_index(m.orders, id)->0].amount as int,
            m.platform.fee_bps as int,
        ),
    ensures
        ({
            let o = m.orders[order_index(m.orders, id)->0];
            &&& o.payment_confirmed_at is Some
            &&& actor == m.platform.authority ==> release_step(m, actor, id, route, now) is Ok
            &&& now - o.payment_confirmed_at->0 > RELEASE_TIMEOUT_SECONDS ==> release_step(
                m,
                actor,
                id,
                route,
                now,
            ) is Ok
            &&& actor != m.platform.authority && now - o.payment_confirmed_at->0
                <= RELEASE_TIMEOUT_SECONDS ==> release_step(m, actor, id, route, now) == Err::<
                (MarketState, Payout),
                ErrorCode,
            >(ErrorCode::Unauthorized)
            &&& (release_step(m, actor, id, route, now) is Ok <==> release_authorized(
                actor,
                m.platform.authority,
                o.payment_confirmed_at,
                now,
            ))
        }),
{
    let i = order_index(m.orders, id)->0;
    assert(order_ok(m.orders[i], m.disputes[i]));
}

/// A user can register only one profile: once registered, registering again
/// fails with `AlreadyExists`, whatever the arguments.
pub proof fn lemma_profile_registered_once(
    m: MarketState,
    user: Key,
    kyc_verified: bool,
    kyc_nft_mint: Option<Key>,
    now: i64,
    again_verified: bool,
    again_mint: Option<Key>,
    again_now: i64,
)
    requires
        create_profile_step(m, user, kyc_verified, kyc_nft_mint, now) is Ok,
    ensures
        create_profile_step(
            create_profile_step(m, user, kyc_verified, kyc_nft_mint, now)->Ok_0,
            user,
            again_verified,
            again_mint,
            again_now,
        ) == Err::<MarketState, ErrorCode>(ErrorCode::AlreadyExists),
{
    let s = create_profile_step(m, user, kyc_verified, kyc_nft_mint, now)->Ok_0;
    let k = s.profiles.len() - 1;
    assert(s.profiles[k].owner == user);
}

/// Only an open order can be accepted: on an order in any other status,
/// accepting fails with `OrderNotOpen`.
pub proof fn lemma_accept_requires_open(m: MarketState, buyer: Key, id: Seq<char>, now: i64)
    requires
        order_index(m.orders, id) is Some,
        m.orders[order_index(m.orders, id)->0].status != OrderStatus::Open,
    ensures
        accept_step(m, buyer, id, now) == Err::<MarketState, ErrorCode>(ErrorCode::OrderNotOpen),
{
}

/// The edges of the order lifecycle.
pub open spec fn lifecycle_edge(from: OrderStatus, to: OrderStatus) -> bool {
    match (from, to) {
        (OrderStatus::Open, OrderStatus::Accepted) => true,
        (OrderStatus::Accepted, OrderStatus::Funded) => true,
        (OrderStatus::Funded, OrderStatus::PaymentConfirmed) => true,
        (OrderStatus::PaymentConfirmed, OrderStatus::Completed) => true,
        (OrderStatus::Funded, OrderStatus::Cancelled) => true,
        (OrderStatus::Funded, OrderStatus::Disputed) => true,
        (OrderStatus::PaymentConfirmed, OrderStatus::Disputed) => true,
        (OrderStatus::Disputed, OrderStatus::Completed) => true,
        (OrderStatus::Disputed, OrderStatus::Cancelled) => true,
        (OrderStatus::Disputed, OrderStatus::PartialRefund) => true,
        _ => false,
    }
}

/// Every action on an order either leaves its status as it is or moves it
/// along one edge of the lifecycle, a terminal status never changes, and no
/// other order is touched.
pub proof fn lemma_status_follows_lifecycle(m: MarketState, id: Seq<char>, a: Action)
    requires
        m.wf(),
        order_index(m.orders, id) is Some,
        order_step(m, id, a) is Ok,
    ensures
        ({
            let i = order_index(m.orders, id)->0;
            let s = order_step(m, id, a)->Ok_0;
            &&& s.orders.len() == m.orders.len()
            &&& s.orders[i].status == m.orders[i].status || lifecycle_edge(
                m.orders[i].status,
                s.orders[i].status,
            )
            &&& is_terminal(m.orders[i].status) ==> s.orders[i].status == m.orders[i].status
            &&& forall|j: int| 0 <= j < m.orders.len() && j != i ==> #[trigger] s.orders[j] == m.orders[j]
        }),
{
    let i = order_index(m.orders, id)->0;
    assert(order_ok(m.orders[i], m.disputes[i]));
}

/// Opening a dispute on an order that is neither funded nor paid fails with
/// `InvalidOrderStatus`, whether or not a dispute already exists; in a
/// well-formed market it never fails with `AlreadyExists`.
pub proof fn lemma_open_dispute_needs_funded_order(
    m: MarketState,
    initiator: Key,
    id: Seq<char>,
    reason: String,
    evidence: String,
    now: i64,
)
    requires
        m.wf(),
        order_index(m.orders, id) is Some,
    ensures
        ({
            let o = m.orders[order_index(m.orders, id)->0];
            o.status != OrderStatus::Funded && o.status != OrderStatus::PaymentConfirmed
                ==> open_dispute_step(m, initiator, id, reason, evidence, now) == Err::<
                (MarketState, u64),
                ErrorCode,
            >(ErrorCode::InvalidOrderStatus)
        }),
        open_dispute_step(m, initiator, id, reason, evidence, now) != Err::<(MarketState, u64), ErrorCode>(
            ErrorCode::AlreadyExists,
        ),
{
    let i = order_index(m.orders, id)->0;
    assert(order_ok(m.orders[i], m.disputes[i]));
}

} // verus!
