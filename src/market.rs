//! The market: the platform, its user profiles, its orders and their
//! disputes, changed only through the operations below. Each operation checks
//! the current state first and either applies its whole transition or
//! returns an error and changes nothing.
use vstd::prelude::*;

use crate::address::derive_escrow_key;
use crate::key::Key;
use crate::model::{
    accept_step, cancel_step, confirm_step, create_order_step, create_profile_step, credit_dispute,
    credit_success, deposit_step, key_with_bytes, lemma_credit_dispute_ok, lemma_credit_success_ok,
    lemma_wf_after_update, new_profile, open_dispute_step, oracle_step, order_index, order_ok,
    profile_index, profile_of, profile_ok, profiles_ok, release_step, resolve_step, settle_step,
    split_step, status_for, user_status_step, with_dispute, with_success, MarketState,
};
use crate::policy::{
    compute_fee, is_release_authorized, lemma_fee_within_amount, split_shares, BPS_DENOMINATOR,
    DISPUTE_DEPOSIT_LAMPORTS, MAX_TRANSACTION_AMOUNT_MXN, PLATFORM_FEE_BPS,
};
use crate::types::{
    route_matches, AssetRoute, Dispute, DisputeResolution, DisputeStatus, ErrorCode, Order,
    OrderStatus, PaymentMethod, Payout, Platform, TokenType, UserProfile,
};

verus! {

/// A market of escrowed trades.
pub struct Market {
    program_id: Key,
    platform: Platform,
    profiles: Vec<UserProfile>,
    orders: Vec<Order>,
    disputes: Vec<Option<Dispute>>,
}

impl View for Market {
    type V = MarketState;

    closed spec fn view(&self) -> MarketState {
        MarketState {
            program_id: self.program_id,
            platform: self.platform,
            profiles: self.profiles@,
            orders: self.orders@,
            disputes: self.disputes@,
        }
    }
}

impl Market {
    /// Takes order `i` out of the market; `put_order` puts it back.
    fn take_order(&mut self, i: usize) -> (o: Order)
        requires
            i < old(self)@.orders.len(),
        ensures
            o == old(self)@.orders[i as int],
            final(self)@ == (MarketState { orders: old(self)@.orders.remove(i as int), ..old(self)@ }),
    {
        self.orders.remove(i)
    }

    /// Puts order `o` back at index `i`.
    fn put_order(&mut self, i: usize, o: Order)
        requires
            i <= old(self)@.orders.len(),
        ensures
            final(self)@ == (MarketState { orders: old(self)@.orders.insert(i as int, o), ..old(self)@ }),
    {
        self.orders.insert(i, o);
    }

    /// Records a successful trade on `owner`'s profile.
    fn credit_success_of(&mut self, owner: Key)
        requires
            profiles_ok(old(self)@.profiles),
        ensures
            final(self)@ == (MarketState {
                profiles: credit_success(old(self)@.profiles, owner),
                ..old(self)@
            }),
    {
        let ghost start = self.profiles@;
        let mut k: usize = 0;
        while k < self.profiles.len()
            invariant
                profiles_ok(start),
                self.profiles@.len() == start.len(),
                0 <= k <= start.len(),
                forall|j: int|
                    0 <= j < k ==> #[trigger] self.profiles@[j] == (if start[j].owner == owner {
                        with_success(start[j])
                    } else {
                        start[j]
                    }),
                forall|j: int| k <= j < start.len() ==> #[trigger] self.profiles@[j] == start[j],
                self.program_id == old(self).program_id,
                self.platform == old(self).platform,
                self.orders == old(self).orders,
                self.disputes == old(self).disputes,
                start == old(self)@.profiles,
            decreases start.len() - k,
        {
            if self.profiles[k].owner == owner {
                let mut p = self.profiles[k];
                assert(profile_ok(start[k as int]));
                if p.total_trades < u64::MAX {
                    p.total_trades = p.total_trades + 1;
                    p.successful_trades = p.successful_trades + 1;
                }
                self.profiles.set(k, p);
            }
            k = k + 1;
        }
        assert(self.profiles@ =~= credit_success(start, owner));
    }

    /// Records a disputed trade on `owner`'s profile.
    fn credit_dispute_of(&mut self, owner: Key)
        requires
            profiles_ok(old(self)@.profiles),
        ensures
            final(self)@ == (MarketState {
                profiles: credit_dispute(old(self)@.profiles, owner),
                ..old(self)@
            }),
    {
        let ghost start = self.profiles@;
        let mut k: usize = 0;
        while k < self.profiles.len()
            invariant
                profiles_ok(start),
                self.profiles@.len() == start.len(),
                0 <= k <= start.len(),
                forall|j: int|
                    0 <= j < k ==> #[trigger] self.profiles@[j] == (if start[j].owner == owner {
                        with_dispute(start[j])
                    } else {
                        start[j]
                    }),
                forall|j: int| k <= j < start.len() ==> #[trigger] self.profiles@[j] == start[j],
                self.program_id == old(self).program_id,
                self.platform == old(self).platform,
                self.orders == old(self).orders,
                self.disputes == old(self).disputes,
                start == old(self)@.profiles,
            decreases start.len() - k,
        {
            if self.profiles[k].owner == owner {
                let mut p = self.profiles[k];
                assert(profile_ok(start[k as int]));
                if p.total_trades < u64::MAX {
                    p.total_trades = p.total_trades + 1;
                    p.disputed_trades = p.disputed_trades + 1;
                }
                self.profiles.set(k, p);
            }
            k = k + 1;
        }
        assert(self.profiles@ =~= credit_dispute(start, owner));
    }

    /// The market's invariant.
    pub open spec fn wf(&self) -> bool {
        self@.wf()
    }

    /// The platform record.
    pub fn platform(&self) -> (r: &Platform)
        ensures
            *r == self@.platform,
    {
        &self.platform
    }

    /// The id of the program whose derived addresses the market uses.
    pub fn program_id(&self) -> (r: Key)
        ensures
            r == self@.program_id,
    {
        self.program_id
    }

    /// The index of the order with id `id`.
    fn find_order(&self, id: &String) -> (r: Option<usize>)
        requires
            self.wf(),
        ensures
            match r {
                Some(i) => order_index(self@.orders, id@) == Some(i as int),
                None => order_index(self@.orders, id@) is None,
            },
    {
        let mut i: usize = 0;
        while i < self.orders.len()
            invariant
                self.wf(),
                0 <= i <= self.orders@.len(),
                forall|j: int| 0 <= j < i ==> (#[trigger] self.orders@[j]).order_id@ != id@,
            decreases self.orders@.len() - i,
        {
            if self.orders[i].order_id == *id {
                proof {
                    let k = i as int;
                    assert(self@.orders[k].order_id@ == id@);
                    let c = choose|c: int|
                        0 <= c < self@.orders.len() && #[trigger] self@.orders[c].order_id@ == id@;
                    assert(self@.orders[c].order_id@ == self@.orders[k].order_id@);
                }
                return Some(i);
            }
            i = i + 1;
        }
        proof {
            assert(forall|j: int|
                0 <= j < self@.orders.len() ==> (#[trigger] self@.orders[j]).order_id@ != id@);
        }
        None
    }

    /// The index of the profile owned by `owner`.
    fn find_profile(&self, owner: Key) -> (r: Option<usize>)
        requires
            self.wf(),
        ensures
            match r {
                Some(i) => profile_index(self@.profiles, owner) == Some(i as int),
                None => profile_index(self@.profiles, owner) is None,
            },
    {
        let mut i: usize = 0;
        while i < self.profiles.len()
            invariant
                self.wf(),
                0 <= i <= self.profiles@.len(),
                forall|j: int| 0 <= j < i ==> (#[trigger] self.profiles@[j]).owner != owner,
            decreases self.profiles@.len() - i,
        {
            if self.profiles[i].owner == owner {
                proof {
                    let k = i as int;
                    assert(self@.profiles[k].owner == owner);
                    let c = choose|c: int|
                        0 <= c < self@.profiles.len() && #[trigger] self@.profiles[c].owner == owner;
                    assert(self@.profiles[c].owner == self@.profiles[k].owner);
                }
                return Some(i);
            }
            i = i + 1;
        }
        proof {
            assert(forall|j: int|
                0 <= j < self@.profiles.len() ==> (#[trigger] self@.profiles[j]).owner != owner);
        }
        None
    }

    /// The profile owned by `owner`.
    pub fn profile(&self, owner: Key) -> (r: Option<&UserProfile>)
        requires
            self.wf(),
        ensures
            match r {
                Some(p) => profile_of(self@.profiles, owner) == Some(*p),
                None => profile_of(self@.profiles, owner) is None,
            },
    {
        match self.find_profile(owner) {
            Some(i) => Some(&self.profiles[i]),
            None => None,
        }
    }

    /// The order with id `id`.
    pub fn order(&self, id: &String) -> (r: Option<&Order>)
        requires
            self.wf(),
        ensures
            match r {
                Some(o) => order_index(self@.orders, id@) is Some
                    && *o == self@.orders[order_index(self@.orders, id@)->0],
                None => order_index(self@.orders, id@) is None,
            },
    {
        match self.find_order(id) {
            Some(i) => Some(&self.orders[i]),
            None => None,
        }
    }

    /// The dispute of the order with id `id`, if one was opened.
    pub fn dispute(&self, id: &String) -> (r: Option<&Dispute>)
        requires
            self.wf(),
        ensures
            match r {
                Some(d) => order_index(self@.orders, id@) is Some
                    && self@.disputes[order_index(self@.orders, id@)->0] == Some(*d),
                None => order_index(self@.orders, id@) is None
                    || self@.disputes[order_index(self@.orders, id@)->0] is None,
            },
    {
        match self.find_order(id) {
            Some(i) => match &self.disputes[i] {
                Some(d) => Some(d),
                None => None,
            },
            None => None,
        }
    }
}

/// Sets up a market whose platform has authority `authority`, sends fees to
/// `treasury` and charges the default fee.
pub fn initialize_platform(program_id: Key, authority: Key, treasury: Key) -> (r: Market)
    ensures
        r.wf(),
        r@.program_id == program_id,
        r@.platform == (Platform {
            authority,
            treasury,
            fee_bps: PLATFORM_FEE_BPS,
            total_volume: 0,
            total_transactions: 0,
            is_active: true,
        }),
        r@.profiles.len() == 0,
        r@.orders.len() == 0,
        r@.disputes.len() == 0,
{
    let r = Market {
        program_id,
        platform: Platform {
            authority,
            treasury,
            fee_bps: PLATFORM_FEE_BPS,
            total_volume: 0,
            total_transactions: 0,
            is_active: true,
        },
        profiles: Vec::new(),
        orders: Vec::new(),
        disputes: Vec::new(),
    };
    r
}

/// Sets up a market as `initialize_platform` does, but charging `fee_bps`
/// basis points; a rate above 100% is rejected.
pub fn initialize_platform_with_fee(program_id: Key, authority: Key, treasury: Key, fee_bps: u64) -> (r:
    Result<Market, ErrorCode>)
    ensures
        fee_bps > BPS_DENOMINATOR ==> r is Err && r->Err_0 == ErrorCode::InvalidAmount,
        fee_bps <= BPS_DENOMINATOR ==> r is Ok && r->Ok_0.wf() && r->Ok_0@.program_id == program_id
            && r->Ok_0@.platform == (Platform {
            authority,
            treasury,
            fee_bps,
            total_volume: 0,
            total_transactions: 0,
            is_active: true,
        }) && r->Ok_0@.profiles.len() == 0 && r->Ok_0@.orders.len() == 0
            && r->Ok_0@.disputes.len() == 0,
{
    if fee_bps > BPS_DENOMINATOR {
        return Err(ErrorCode::InvalidAmount);
    }
    let mut m = initialize_platform(program_id, authority, treasury);
    m.platform.fee_bps = fee_bps;
    Ok(m)
}

/// Registers a profile for `user`; a user has at most one.
pub fn create_user_profile(
    m: &mut Market,
    user: Key,
    kyc_verified: bool,
    kyc_nft_mint: Option<Key>,
    now: i64,
) -> (r: Result<(), ErrorCode>)
    requires
        old(m).wf(),
    ensures
        final(m).wf(),
        match create_profile_step(old(m)@, user, kyc_verified, kyc_nft_mint, now) {
            Ok(s) => r is Ok && final(m)@ == s,
            Err(e) => r == Err::<(), ErrorCode>(e) && final(m)@ == old(m)@,
        },
{
    if m.find_profile(user).is_some() {
        return Err(ErrorCode::AlreadyExists);
    }
    let p = UserProfile {
        owner: user,
        kyc_verified,
        kyc_nft_mint,
        total_trades: 0,
        successful_trades: 0,
        disputed_trades: 0,
        is_active: true,
        created_at: now,
    };
    m.profiles.push(p);
    proof {
        let old_ps = old(m)@.profiles;
        let ps = m@.profiles;
        assert(ps == old_ps.push(new_profile(user, kyc_verified, kyc_nft_mint, now)));
        assert forall|i: int, j: int|
            0 <= i < ps.len() && 0 <= j < ps.len() && #[trigger] ps[i].owner == #[trigger] ps[j].owner
            implies i == j by {
            if i < old_ps.len() && j < old_ps.len() {
                assert(old_ps[i].owner == old_ps[j].owner);
            } else if i < old_ps.len() {
                assert(old_ps[i].owner == user);
            } else if j < old_ps.len() {
                assert(old_ps[j].owner == user);
            }
        }
        assert(m@.orders == old(m)@.orders);
    }
    Ok(())
}

/// The platform authority records a change in `user`'s eligibility.
pub fn set_user_status(m: &mut Market, caller: Key, user: Key, kyc_verified: bool, is_active: bool) -> (r:
    Result<(), ErrorCode>)
    requires
        old(m).wf(),
    ensures
        final(m).wf(),
        match user_status_step(old(m)@, caller, user, kyc_verified, is_active) {
            Ok(s) => r is Ok && final(m)@ == s,
            Err(e) => r == Err::<(), ErrorCode>(e) && final(m)@ == old(m)@,
        },
{
    if caller != m.platform.authority {
        return Err(ErrorCode::Unauthorized);
    }
    let i = match m.find_profile(user) {
        Some(i) => i,
        None => return Err(ErrorCode::NotFound),
    };
    let mut p = m.profiles[i];
    p.kyc_verified = kyc_verified;
    p.is_active = is_active;
    m.profiles.set(i, p);
    proof {
        let ps = m@.profiles;
        let old_ps = old(m)@.profiles;
        assert forall|a: int| 0 <= a < ps.len() implies #[trigger] ps[a].owner == old_ps[a].owner
            && profile_ok(ps[a]) by {
            assert(profile_ok(old_ps[a]));
        }
        assert forall|a: int, b: int|
            0 <= a < ps.len() && 0 <= b < ps.len() && #[trigger] ps[a].owner == #[trigger] ps[b].owner
            implies a == b by {
            assert(old_ps[a].owner == old_ps[b].owner);
        }
    }
    Ok(())
}

/// Lists a new order for `seller`, with its escrow account at the address
/// derived from `order_id`.
pub fn create_order(
    m: &mut Market,
    seller: Key,
    order_id: String,
    amount: u64,
    amount_mxn: u64,
    token_type: TokenType,
    payment_method: PaymentMethod,
    stp_reference: String,
    now: i64,
) -> (r: Result<(), ErrorCode>)
    requires
        old(m).wf(),
    ensures
        final(m).wf(),
        match create_order_step(
            old(m)@,
            seller,
            order_id,
            amount,
            amount_mxn,
            token_type,
            payment_method,
            stp_reference,
            now,
        ) {
            Ok(s) => r is Ok && final(m)@ == s,
            Err(e) => r == Err::<(), ErrorCode>(e) && final(m)@ == old(m)@,
        },
{
    let escrow = match derive_escrow_key(&m.program_id, &order_id) {
        Some(k) => k,
        None => return Err(ErrorCode::InvalidOrderId),
    };
    if m.find_order(&order_id).is_some() {
        return Err(ErrorCode::AlreadyExists);
    }
    let pi = match m.find_profile(seller) {
        Some(i) => i,
        None => return Err(ErrorCode::NotFound),
    };
    if amount == 0 {
        return Err(ErrorCode::InvalidAmount);
    }
    if amount_mxn == 0 || amount_mxn > MAX_TRANSACTION_AMOUNT_MXN {
        return Err(ErrorCode::ExceedsMaxLimit);
    }
    if !m.profiles[pi].kyc_verified {
        return Err(ErrorCode::KYCRequired);
    }
    if !m.profiles[pi].is_active {
        return Err(ErrorCode::UserNotActive);
    }
    proof {
        let a = choose|a: [u8; 32]| #[trigger] a@ == escrow.bytes@;
        assert(a@ == escrow.bytes@);
        assert(a =~= escrow.bytes);
        assert(key_with_bytes(escrow.bytes@) == escrow);
    }
    let ghost id = order_id@;
    let o = Order {
        order_id,
        seller,
        buyer: None,
        amount,
        amount_mxn,
        token_type,
        payment_method,
        status: OrderStatus::Open,
        stp_reference,
        stp_transaction_id: None,
        stp_oracle_confirmed: false,
        escrow,
        escrow_balance: 0,
        created_at: now,
        accepted_at: None,
        funded_at: None,
        payment_confirmed_at: None,
        completed_at: None,
    };
    m.orders.push(o);
    m.disputes.push(None);
    proof {
        let old_os = old(m)@.orders;
        let os = m@.orders;
        assert forall|i: int, j: int|
            0 <= i < os.len() && 0 <= j < os.len() && #[trigger] os[i].order_id@
                == #[trigger] os[j].order_id@ implies i == j by {
            if i < old_os.len() && j < old_os.len() {
                assert(old_os[i].order_id@ == old_os[j].order_id@);
            } else if i < old_os.len() {
                assert(old_os[i].order_id@ == id);
            } else if j < old_os.len() {
                assert(old_os[j].order_id@ == id);
            }
        }
        assert forall|i: int| 0 <= i < os.len() implies order_ok(#[trigger] os[i], m@.disputes[i]) by {
            if i < old_os.len() {
                assert(os[i] == old_os[i]);
                assert(m@.disputes[i] == old(m)@.disputes[i]);
            }
        }
    }
    Ok(())
}

proof fn lemma_replaced(m: MarketState, i: int, o: Order)
    requires
        0 <= i < m.orders.len(),
    ensures
        m.orders.remove(i).insert(i, o) == m.orders.update(i, o),
{
    assert(m.orders.remove(i).insert(i, o) =~= m.orders.update(i, o));
}

/// `buyer` takes the open order `order_id`.
pub fn accept_order(m: &mut Market, buyer: Key, order_id: &String, now: i64) -> (r: Result<
    (),
    ErrorCode,
>)
    requires
        old(m).wf(),
    ensures
        final(m).wf(),
        match accept_step(old(m)@, buyer, order_id@, now) {
            Ok(s) => r is Ok && final(m)@ == s,
            Err(e) => r == Err::<(), ErrorCode>(e) && final(m)@ == old(m)@,
        },
{
    let i = match m.find_order(order_id) {
        Some(i) => i,
        None => return Err(ErrorCode::NotFound),
    };
    if m.orders[i].status != OrderStatus::Open {
        return Err(ErrorCode::OrderNotOpen);
    }
    let pi = match m.find_profile(buyer) {
        Some(p) => p,
        None => return Err(ErrorCode::NotFound),
    };
    if !m.profiles[pi].kyc_verified {
        return Err(ErrorCode::KYCRequired);
    }
    if !m.profiles[pi].is_active {
        return Err(ErrorCode::UserNotActive);
    }
    if m.orders[i].seller == buyer {
        return Err(ErrorCode::CannotTradeWithSelf);
    }
    let mut o = m.take_order(i);
    o.buyer = Some(buyer);
    o.status = OrderStatus::Accepted;
    o.accepted_at = Some(now);
    m.put_order(i, o);
    proof {
        lemma_replaced(old(m)@, i as int, o);
        assert(m@ == old(m)@.with_order(i as int, o));
        lemma_wf_after_update(old(m)@, m@, i as int);
    }
    Ok(())
}

/// The seller of `order_id` funds its escrow over `route`; returns the amount
/// to move into escrow.
fn deposit_to_escrow(m: &mut Market, seller: Key, order_id: &String, route: AssetRoute, now: i64) -> (r:
    Result<u64, ErrorCode>)
    requires
        old(m).wf(),
    ensures
        final(m).wf(),
        match deposit_step(old(m)@, seller, order_id@, route, now) {
            Ok((s, amount)) => r == Ok::<u64, ErrorCode>(amount) && final(m)@ == s,
            Err(e) => r == Err::<u64, ErrorCode>(e) && final(m)@ == old(m)@,
        },
{
    let i = match m.find_order(order_id) {
        Some(i) => i,
        None => return Err(ErrorCode::NotFound),
    };
    if m.orders[i].status != OrderStatus::Accepted {
        return Err(ErrorCode::InvalidOrderStatus);
    }
    if !route_matches(route, m.orders[i].token_type) {
        return Err(ErrorCode::InvalidTokenType);
    }
    if m.orders[i].seller != seller {
        return Err(ErrorCode::UnauthorizedSeller);
    }
    let mut o = m.take_order(i);
    let amount = o.amount;
    o.status = OrderStatus::Funded;
    o.funded_at = Some(now);
    o.escrow_balance = amount;
    m.put_order(i, o);
    proof {
        lemma_replaced(old(m)@, i as int, o);
        assert(m@ == old(m)@.with_order(i as int, o));
        lemma_wf_after_update(old(m)@, m@, i as int);
    }
    Ok(amount)
}

/// The seller of a SOL order funds its escrow with lamports; returns the
/// amount to transfer.
pub fn deposit_to_escrow_native(m: &mut Market, seller: Key, order_id: &String, now: i64) -> (r: Result<
    u64,
    ErrorCode,
>)
    requires
        old(m).wf(),
    ensures
        final(m).wf(),
        match deposit_step(old(m)@, seller, order_id@, AssetRoute::Native, now) {
            Ok((s, amount)) => r == Ok::<u64, ErrorCode>(amount) && final(m)@ == s,
            Err(e) => r == Err::<u64, ErrorCode>(e) && final(m)@ == old(m)@,
        },
{
    deposit_to_escrow(m, seller, order_id, AssetRoute::Native, now)
}

/// The seller of a token order funds its escrow through the token program;
/// returns the amount to transfer.
pub fn deposit_to_escrow_spl(m: &mut Market, seller: Key, order_id: &String, now: i64) -> (r: Result<
    u64,
    ErrorCode,
>)
    requires
        old(m).wf(),
    ensures
        final(m).wf(),
        match deposit_step(old(m)@, seller, order_id@, AssetRoute::Token, now) {
            Ok((s, amount)) => r == Ok::<u64, ErrorCode>(amount) && final(m)@ == s,
            Err(e) => r == Err::<u64, ErrorCode>(e) && final(m)@ == old(m)@,
        },
{
    deposit_to_escrow(m, seller, order_id, AssetRoute::Token, now)
}

/// The buyer of `order_id` declares the fiat payment sent, with the payment
/// rail's transaction id.
pub fn confirm_fiat_payment(
    m: &mut Market,
    buyer: Key,
    order_id: &String,
    stp_transaction_id: String,
    now: i64,
) -> (r: Result<(), ErrorCode>)
    requires
        old(m).wf(),
    ensures
        final(m).wf(),
        match confirm_step(old(m)@, buyer, order_id@, stp_transaction_id, now) {
            Ok(s) => r is Ok && final(m)@ == s,
            Err(e) => r == Err::<(), ErrorCode>(e) && final(m)@ == old(m)@,
        },
{
    let i = match m.find_order(order_id) {
        Some(i) => i,
        None => return Err(ErrorCode::NotFound),
    };
    if m.orders[i].status != OrderStatus::Funded {
        return Err(ErrorCode::InvalidOrderStatus);
    }
    let is_buyer = match m.orders[i].buyer {
        Some(b) => b == buyer,
        None => false,
    };
    if !is_buyer {
        return Err(ErrorCode::UnauthorizedBuyer);
    }
    let mut o = m.take_order(i);
    o.stp_transaction_id = Some(stp_transaction_id);
    o.status = OrderStatus::PaymentConfirmed;
    o.payment_confirmed_at = Some(now);
    m.put_order(i, o);
    proof {
        lemma_replaced(old(m)@, i as int, o);
        assert(m@ == old(m)@.with_order(i as int, o));
        lemma_wf_after_update(old(m)@, m@, i as int);
    }
    Ok(())
}

/// Releases the escrow of the paid order `order_id` over `route`: the buyer
/// gets the net amount and the treasury the fee.
fn release_funds(m: &mut Market, actor: Key, order_id: &String, route: AssetRoute, now: i64) -> (r:
    Result<Payout, ErrorCode>)
    requires
        old(m).wf(),
    ensures
        final(m).wf(),
        match release_step(old(m)@, actor, order_id@, route, now) {
            Ok((s, p)) => r == Ok::<Payout, ErrorCode>(p) && final(m)@ == s,
            Err(e) => r == Err::<Payout, ErrorCode>(e) && final(m)@ == old(m)@,
        },
{
    let i = match m.find_order(order_id) {
        Some(i) => i,
        None => return Err(ErrorCode::NotFound),
    };
    if m.orders[i].status != OrderStatus::PaymentConfirmed {
        return Err(ErrorCode::InvalidOrderStatus);
    }
    if !route_matches(route, m.orders[i].token_type) {
        return Err(ErrorCode::InvalidTokenType);
    }
    if !is_release_authorized(actor, m.platform.authority, m.orders[i].payment_confirmed_at, now) {
        return Err(ErrorCode::Unauthorized);
    }
    let amount = m.orders[i].amount;
    let fee = match compute_fee(amount, m.platform.fee_bps) {
        Ok(f) => f,
        Err(e) => return Err(e),
    };
    if m.orders[i].escrow_balance < amount {
        return Err(ErrorCode::InsufficientFunds);
    }
    proof {
        lemma_fee_within_amount(amount as int, m.platform.fee_bps as int);
    }
    let net = amount - fee;
    let mut o = m.take_order(i);
    let seller = o.seller;
    let buyer = o.buyer;
    o.status = OrderStatus::Completed;
    o.completed_at = Some(now);
    o.stp_oracle_confirmed = true;
    o.escrow_balance = o.escrow_balance - amount;
    m.put_order(i, o);
    proof {
        lemma_replaced(old(m)@, i as int, o);
        assert(m@ == old(m)@.with_order(i as int, o));
        lemma_credit_success_ok(m@.profiles, seller);
    }
    m.credit_success_of(seller);
    match buyer {
        Some(b) => {
            proof {
                lemma_credit_success_ok(m@.profiles, b);
            }
            m.credit_success_of(b);
        },
        None => {},
    }
    proof {
        lemma_wf_after_update(old(m)@, m@, i as int);
    }
    Ok(Payout { to_seller: 0, to_buyer: net, to_treasury: fee })
}

/// Releases the lamports escrowed for the paid SOL order `order_id`.
pub fn release_funds_native(m: &mut Market, actor: Key, order_id: &String, now: i64) -> (r: Result<
    Payout,
    ErrorCode,
>)
    requires
        old(m).wf(),
    ensures
        final(m).wf(),
        match release_step(old(m)@, actor, order_id@, AssetRoute::Native, now) {
            Ok((s, p)) => r == Ok::<Payout, ErrorCode>(p) && final(m)@ == s,
            Err(e) => r == Err::<Payout, ErrorCode>(e) && final(m)@ == old(m)@,
        },
{
    release_funds(m, actor, order_id, AssetRoute::Native, now)
}

/// Releases the tokens escrowed for the paid token order `order_id`.
pub fn release_funds_spl(m: &mut Market, actor: Key, order_id: &String, now: i64) -> (r: Result<
    Payout,
    ErrorCode,
>)
    requires
        old(m).wf(),
    ensures
        final(m).wf(),
        match release_step(old(m)@, actor, order_id@, AssetRoute::Token, now) {
            Ok((s, p)) => r == Ok::<Payout, ErrorCode>(p) && final(m)@ == s,
            Err(e) => r == Err::<Payout, ErrorCode>(e) && final(m)@ == old(m)@,
        },
{
    release_funds(m, actor, order_id, AssetRoute::Token, now)
}

/// The seller or buyer of the funded order `order_id` contests it; returns
/// the bond to move from the initiator into the dispute record.
pub fn open_dispute(
    m: &mut Market,
    initiator: Key,
    order_id: &String,
    reason: String,
    evidence: String,
    now: i64,
) -> (r: Result<u64, ErrorCode>)
    requires
        old(m).wf(),
    ensures
        final(m).wf(),
        match open_dispute_step(old(m)@, initiator, order_id@, reason, evidence, now) {
            Ok((s, bond)) => r == Ok::<u64, ErrorCode>(bond) && final(m)@ == s,
            Err(e) => r == Err::<u64, ErrorCode>(e) && final(m)@ == old(m)@,
        },
{
    let i = match m.find_order(order_id) {
        Some(i) => i,
        None => return Err(ErrorCode::NotFound),
    };
    if m.orders[i].status != OrderStatus::Funded && m.orders[i].status
        != OrderStatus::PaymentConfirmed {
        return Err(ErrorCode::InvalidOrderStatus);
    }
    if m.disputes[i].is_some() {
        return Err(ErrorCode::AlreadyExists);
    }
    let is_buyer = match m.orders[i].buyer {
        Some(b) => b == initiator,
        None => false,
    };
    if m.orders[i].seller != initiator && !is_buyer {
        return Err(ErrorCode::Unauthorized);
    }
    let d = Dispute {
        order: m.orders[i].order_id.clone(),
        initiator,
        reason,
        evidence,
        status: DisputeStatus::Open,
        resolver: None,
        resolution: None,
        resolution_notes: None,
        created_at: now,
        resolved_at: None,
        deposit: DISPUTE_DEPOSIT_LAMPORTS,
    };
    m.disputes.set(i, Some(d));
    let mut o = m.take_order(i);
    o.status = OrderStatus::Disputed;
    m.put_order(i, o);
    proof {
        lemma_replaced(old(m)@, i as int, o);
        lemma_credit_dispute_ok(m@.profiles, initiator);
    }
    m.credit_dispute_of(initiator);
    proof {
        lemma_wf_after_update(old(m)@, m@, i as int);
    }
    Ok(DISPUTE_DEPOSIT_LAMPORTS)
}

/// The order status a dispute resolution leads to.
fn resolution_status(resolution: DisputeResolution) -> (r: OrderStatus)
    ensures
        r == status_for(resolution),
{
    match resolution {
        DisputeResolution::FavorBuyer => OrderStatus::Completed,
        DisputeResolution::FavorSeller => OrderStatus::Cancelled,
        DisputeResolution::Split => OrderStatus::PartialRefund,
    }
}

/// The platform authority decides the open dispute of `order_id`. No escrowed
/// funds move; returns the bond to hand back to the initiator.
pub fn resolve_dispute(
    m: &mut Market,
    resolver: Key,
    order_id: &String,
    resolution: DisputeResolution,
    resolution_notes: String,
    now: i64,
) -> (r: Result<u64, ErrorCode>)
    requires
        old(m).wf(),
    ensures
        final(m).wf(),
        match resolve_step(old(m)@, resolver, order_id@, resolution, resolution_notes, now) {
            Ok((s, bond)) => r == Ok::<u64, ErrorCode>(bond) && final(m)@ == s,
            Err(e) => r == Err::<u64, ErrorCode>(e) && final(m)@ == old(m)@,
        },
{
    let i = match m.find_order(order_id) {
        Some(i) => i,
        None => return Err(ErrorCode::NotFound),
    };
    match &m.disputes[i] {
        None => return Err(ErrorCode::NotFound),
        Some(d) => {
            if d.status != DisputeStatus::Open {
                return Err(ErrorCode::DisputeAlreadyResolved);
            }
        },
    }
    if resolver != m.platform.authority {
        return Err(ErrorCode::Unauthorized);
    }
    if m.orders[i].status != OrderStatus::Disputed {
        return Err(ErrorCode::InvalidOrderStatus);
    }
    let taken = m.disputes.remove(i);
    let mut d = match taken {
        Some(d) => d,
        None => return Err(ErrorCode::NotFound),
    };
    let bond = d.deposit;
    d.resolver = Some(resolver);
    d.resolution = Some(resolution);
    d.status = DisputeStatus::Resolved;
    d.resolved_at = Some(now);
    d.resolution_notes = Some(resolution_notes);
    d.deposit = 0;
    m.disputes.insert(i, Some(d));
    let mut o = m.take_order(i);
    o.status = resolution_status(resolution);
    m.put_order(i, o);
    proof {
        lemma_replaced(old(m)@, i as int, o);
        assert(old(m)@.disputes.remove(i as int).insert(i as int, Some(d)) =~= old(m)@.disputes.update(
            i as int,
            Some(d),
        ));
        lemma_wf_after_update(old(m)@, m@, i as int);
    }
    Ok(bond)
}

/// The platform authority pays out the escrow of the resolved dispute of
/// `order_id` as the recorded resolution says, over `route`.
pub fn settle_dispute(m: &mut Market, resolver: Key, order_id: &String, route: AssetRoute) -> (r: Result<
    Payout,
    ErrorCode,
>)
    requires
        old(m).wf(),
    ensures
        final(m).wf(),
        match settle_step(old(m)@, resolver, order_id@, route) {
            Ok((s, p)) => r == Ok::<Payout, ErrorCode>(p) && final(m)@ == s,
            Err(e) => r == Err::<Payout, ErrorCode>(e) && final(m)@ == old(m)@,
        },
{
    let i = match m.find_order(order_id) {
        Some(i) => i,
        None => return Err(ErrorCode::NotFound),
    };
    let resolution = match &m.disputes[i] {
        Some(d) => match d.resolution {
            Some(res) => res,
            None => return Err(ErrorCode::InvalidOrderStatus),
        },
        None => return Err(ErrorCode::InvalidOrderStatus),
    };
    if resolution_status(resolution) != m.orders[i].status || m.orders[i].escrow_balance == 0 {
        return Err(ErrorCode::InvalidOrderStatus);
    }
    if resolver != m.platform.authority {
        return Err(ErrorCode::Unauthorized);
    }
    if !route_matches(route, m.orders[i].token_type) {
        return Err(ErrorCode::InvalidTokenType);
    }
    let amount = m.orders[i].amount;
    let fee = match compute_fee(amount, m.platform.fee_bps) {
        Ok(f) => f,
        Err(e) => return Err(e),
    };
    if m.orders[i].escrow_balance < amount {
        return Err(ErrorCode::InsufficientFunds);
    }
    proof {
        lemma_fee_within_amount(amount as int, m.platform.fee_bps as int);
    }
    let net = amount - fee;
    let payout = match resolution {
        DisputeResolution::FavorBuyer => Payout { to_seller: 0, to_buyer: net, to_treasury: fee },
        DisputeResolution::FavorSeller => Payout { to_seller: amount, to_buyer: 0, to_treasury: 0 },
        DisputeResolution::Split => {
            let (seller_share, buyer_share) = split_shares(net);
            Payout { to_seller: seller_share, to_buyer: buyer_share, to_treasury: fee }
        },
    };
    let mut o = m.take_order(i);
    o.escrow_balance = o.escrow_balance - amount;
    m.put_order(i, o);
    proof {
        lemma_replaced(old(m)@, i as int, o);
        assert(m@ == old(m)@.with_order(i as int, o));
        lemma_wf_after_update(old(m)@, m@, i as int);
    }
    Ok(payout)
}

/// Settles a dispute resolved with a split; any other recorded resolution is
/// a state error.
fn resolve_dispute_split(m: &mut Market, resolver: Key, order_id: &String, route: AssetRoute) -> (r:
    Result<Payout, ErrorCode>)
    requires
        old(m).wf(),
    ensures
        final(m).wf(),
        match split_step(old(m)@, resolver, order_id@, route) {
            Ok((s, p)) => r == Ok::<Payout, ErrorCode>(p) && final(m)@ == s,
            Err(e) => r == Err::<Payout, ErrorCode>(e) && final(m)@ == old(m)@,
        },
{
    let i = match m.find_order(order_id) {
        Some(i) => i,
        None => return Err(ErrorCode::NotFound),
    };
    let is_split = match &m.disputes[i] {
        Some(d) => match d.resolution {
            Some(DisputeResolution::Split) => true,
            _ => false,
        },
        None => false,
    };
    if !is_split {
        return Err(ErrorCode::InvalidOrderStatus);
    }
    settle_dispute(m, resolver, order_id, route)
}

/// Pays out, in lamports, the split of a SOL order's dispute.
pub fn resolve_dispute_split_native(m: &mut Market, resolver: Key, order_id: &String) -> (r: Result<
    Payout,
    ErrorCode,
>)
    requires
        old(m).wf(),
    ensures
        final(m).wf(),
        match split_step(old(m)@, resolver, order_id@, AssetRoute::Native) {
            Ok((s, p)) => r == Ok::<Payout, ErrorCode>(p) && final(m)@ == s,
            Err(e) => r == Err::<Payout, ErrorCode>(e) && final(m)@ == old(m)@,
        },
{
    resolve_dispute_split(m, resolver, order_id, AssetRoute::Native)
}

/// Pays out, through the token program, the split of a token order's dispute.
pub fn resolve_dispute_split_spl(m: &mut Market, resolver: Key, order_id: &String) -> (r: Result<
    Payout,
    ErrorCode,
>)
    requires
        old(m).wf(),
    ensures
        final(m).wf(),
        match split_step(old(m)@, resolver, order_id@, AssetRoute::Token) {
            Ok((s, p)) => r == Ok::<Payout, ErrorCode>(p) && final(m)@ == s,
            Err(e) => r == Err::<Payout, ErrorCode>(e) && final(m)@ == old(m)@,
        },
{
    resolve_dispute_split(m, resolver, order_id, AssetRoute::Token)
}

/// The seller cancels the funded order `order_id` and takes the escrow back.
fn cancel_order(m: &mut Market, seller: Key, order_id: &String, route: AssetRoute) -> (r: Result<
    Payout,
    ErrorCode,
>)
    requires
        old(m).wf(),
    ensures
        final(m).wf(),
        match cancel_step(old(m)@, seller, order_id@, route) {
            Ok((s, p)) => r == Ok::<Payout, ErrorCode>(p) && final(m)@ == s,
            Err(e) => r == Err::<Payout, ErrorCode>(e) && final(m)@ == old(m)@,
        },
{
    let i = match m.find_order(order_id) {
        Some(i) => i,
        None => return Err(ErrorCode::NotFound),
    };
    if m.orders[i].status != OrderStatus::Funded {
        return Err(ErrorCode::InvalidOrderStatus);
    }
    if m.orders[i].seller != seller {
        return Err(ErrorCode::UnauthorizedSeller);
    }
    if !route_matches(route, m.orders[i].token_type) {
        return Err(ErrorCode::InvalidTokenType);
    }
    let amount = m.orders[i].amount;
    if m.orders[i].escrow_balance < amount {
        return Err(ErrorCode::InsufficientFunds);
    }
    let mut o = m.take_order(i);
    o.status = OrderStatus::Cancelled;
    o.escrow_balance = o.escrow_balance - amount;
    m.put_order(i, o);
    proof {
        lemma_replaced(old(m)@, i as int, o);
        assert(m@ == old(m)@.with_order(i as int, o));
        lemma_wf_after_update(old(m)@, m@, i as int);
    }
    Ok(Payout { to_seller: amount, to_buyer: 0, to_treasury: 0 })
}

/// The seller cancels a funded SOL order and takes the lamports back.
pub fn cancel_order_native(m: &mut Market, seller: Key, order_id: &String) -> (r: Result<
    Payout,
    ErrorCode,
>)
    requires
        old(m).wf(),
    ensures
        final(m).wf(),
        match cancel_step(old(m)@, seller, order_id@, AssetRoute::Native) {
            Ok((s, p)) => r == Ok::<Payout, ErrorCode>(p) && final(m)@ == s,
            Err(e) => r == Err::<Payout, ErrorCode>(e) && final(m)@ == old(m)@,
        },
{
    cancel_order(m, seller, order_id, AssetRoute::Native)
}

/// The seller cancels a funded token order and takes the tokens back.
pub fn cancel_order_spl(m: &mut Market, seller: Key, order_id: &String) -> (r: Result<
    Payout,
    ErrorCode,
>)
    requires
        old(m).wf(),
    ensures
        final(m).wf(),
        match cancel_step(old(m)@, seller, order_id@, AssetRoute::Token) {
            Ok((s, p)) => r == Ok::<Payout, ErrorCode>(p) && final(m)@ == s,
            Err(e) => r == Err::<Payout, ErrorCode>(e) && final(m)@ == old(m)@,
        },
{
    cancel_order(m, seller, order_id, AssetRoute::Token)
}

/// The platform authority sets the advisory oracle flag of `order_id`.
pub fn update_oracle_status(m: &mut Market, oracle: Key, order_id: &String, confirmed: bool) -> (r:
    Result<(), ErrorCode>)
    requires
        old(m).wf(),
    ensures
        final(m).wf(),
        match oracle_step(old(m)@, oracle, order_id@, confirmed) {
            Ok(s) => r is Ok && final(m)@ == s,
            Err(e) => r == Err::<(), ErrorCode>(e) && final(m)@ == old(m)@,
        },
{
    let i = match m.find_order(order_id) {
        Some(i) => i,
        None => return Err(ErrorCode::NotFound),
    };
    if oracle != m.platform.authority {
        return Err(ErrorCode::Unauthorized);
    }
    let mut o = m.take_order(i);
    o.stp_oracle_confirmed = confirmed;
    m.put_order(i, o);
    proof {
        lemma_replaced(old(m)@, i as int, o);
        assert(m@ == old(m)@.with_order(i as int, o));
        lemma_wf_after_update(old(m)@, m@, i as int);
    }
    Ok(())
}

} // verus!
