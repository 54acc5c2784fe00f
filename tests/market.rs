use tipjar::address::derive_escrow_key;
use tipjar::key::Key;
use tipjar::market::{
    accept_order, cancel_order_native, cancel_order_spl, confirm_fiat_payment, create_order,
    create_user_profile, deposit_to_escrow_native, deposit_to_escrow_spl, initialize_platform,
    initialize_platform_with_fee, open_dispute, release_funds_native, release_funds_spl,
    resolve_dispute, resolve_dispute_split_native, resolve_dispute_split_spl, set_user_status,
    settle_dispute, update_oracle_status, Market,
};
use tipjar::policy::DISPUTE_DEPOSIT_LAMPORTS;
use tipjar::types::{
    AssetRoute, DisputeResolution, DisputeStatus, ErrorCode, OrderStatus, PaymentMethod, Payout,
    TokenType,
};

fn key(b: u8) -> Key {
    Key::new([b; 32])
}

fn program() -> Key {
    key(200)
}

fn authority() -> Key {
    key(100)
}

fn treasury() -> Key {
    key(101)
}

fn seller() -> Key {
    key(1)
}

fn buyer() -> Key {
    key(2)
}

fn id(s: &str) -> String {
    s.to_string()
}

fn market_with_users() -> Market {
    let mut m = initialize_platform(program(), authority(), treasury());
    create_user_profile(&mut m, seller(), true, Some(key(50)), 10).unwrap();
    create_user_profile(&mut m, buyer(), true, None, 11).unwrap();
    m
}

fn open_order(m: &mut Market, order_id: &str, amount: u64, token: TokenType) {
    create_order(
        m,
        seller(),
        id(order_id),
        amount,
        500_000_000,
        token,
        PaymentMethod::SPEI,
        id("REF-1"),
        100,
    )
    .unwrap();
}

fn funded_order(m: &mut Market, order_id: &str, amount: u64) {
    open_order(m, order_id, amount, TokenType::SOL);
    accept_order(m, buyer(), &id(order_id), 200).unwrap();
    assert_eq!(deposit_to_escrow_native(m, seller(), &id(order_id), 300), Ok(amount));
}

#[test]
fn happy_path_release_by_authority() {
    let mut m = market_with_users();
    open_order(&mut m, "O1", 1000, TokenType::SOL);
    let o = m.order(&id("O1")).unwrap();
    assert_eq!(o.status, OrderStatus::Open);
    assert_eq!(o.escrow_balance, 0);
    assert_eq!(Some(o.escrow), derive_escrow_key(&program(), &id("O1")));
    accept_order(&mut m, buyer(), &id("O1"), 200).unwrap();
    assert_eq!(deposit_to_escrow_native(&mut m, seller(), &id("O1"), 300), Ok(1000));
    assert_eq!(m.order(&id("O1")).unwrap().escrow_balance, 1000);
    confirm_fiat_payment(&mut m, buyer(), &id("O1"), id("STP-9"), 400).unwrap();
    let payout = release_funds_native(&mut m, authority(), &id("O1"), 500).unwrap();
    assert_eq!(payout, Payout { to_seller: 0, to_buyer: 995, to_treasury: 5 });
    let o = m.order(&id("O1")).unwrap();
    assert_eq!(o.escrow_balance, 0);
    assert_eq!(o.status, OrderStatus::Completed);
    assert_eq!(o.completed_at, Some(500));
    assert!(o.stp_oracle_confirmed);
    assert_eq!(o.stp_transaction_id.as_deref(), Some("STP-9"));
    for user in [seller(), buyer()] {
        let p = m.profile(user).unwrap();
        assert_eq!(p.total_trades, 1);
        assert_eq!(p.successful_trades, 1);
        assert_eq!(p.disputed_trades, 0);
    }
}

#[test]
fn second_release_fails_with_state_error() {
    let mut m = market_with_users();
    funded_order(&mut m, "O1", 1000);
    confirm_fiat_payment(&mut m, buyer(), &id("O1"), id("STP-9"), 400).unwrap();
    release_funds_native(&mut m, authority(), &id("O1"), 500).unwrap();
    assert_eq!(
        release_funds_native(&mut m, authority(), &id("O1"), 600),
        Err(ErrorCode::InvalidOrderStatus)
    );
    assert_eq!(cancel_order_native(&mut m, seller(), &id("O1")), Err(ErrorCode::InvalidOrderStatus));
    assert_eq!(
        settle_dispute(&mut m, authority(), &id("O1"), AssetRoute::Native),
        Err(ErrorCode::InvalidOrderStatus)
    );
    assert_eq!(
        resolve_dispute_split_native(&mut m, authority(), &id("O1")),
        Err(ErrorCode::InvalidOrderStatus)
    );
    assert_eq!(m.profile(buyer()).unwrap().successful_trades, 1);
}

#[test]
fn release_after_timeout_by_anyone() {
    let mut m = market_with_users();
    funded_order(&mut m, "O1", 1000);
    let confirmed_at = 1_000;
    confirm_fiat_payment(&mut m, buyer(), &id("O1"), id("STP-9"), confirmed_at).unwrap();
    let outsider = key(77);
    assert_eq!(
        release_funds_native(&mut m, outsider, &id("O1"), confirmed_at + 3_600),
        Err(ErrorCode::Unauthorized)
    );
    assert_eq!(
        release_funds_native(&mut m, outsider, &id("O1"), confirmed_at + 86_400),
        Err(ErrorCode::Unauthorized)
    );
    let payout = release_funds_native(&mut m, outsider, &id("O1"), confirmed_at + 90_000).unwrap();
    assert_eq!(payout, Payout { to_seller: 0, to_buyer: 995, to_treasury: 5 });
    assert_eq!(m.order(&id("O1")).unwrap().status, OrderStatus::Completed);
}

#[test]
fn release_without_confirmation_is_a_state_error() {
    let mut m = market_with_users();
    funded_order(&mut m, "O1", 1000);
    assert_eq!(
        release_funds_native(&mut m, key(77), &id("O1"), 300 + 90_000),
        Err(ErrorCode::InvalidOrderStatus)
    );
    assert_eq!(
        release_funds_native(&mut m, authority(), &id("O1"), 300 + 90_000),
        Err(ErrorCode::InvalidOrderStatus)
    );
    assert_eq!(m.order(&id("O1")).unwrap().escrow_balance, 1000);
}

#[test]
fn dispute_split_on_funded_order() {
    let mut m = market_with_users();
    funded_order(&mut m, "O1", 1000);
    assert_eq!(
        open_dispute(&mut m, buyer(), &id("O1"), id("no crypto"), id("receipt"), 400),
        Ok(DISPUTE_DEPOSIT_LAMPORTS)
    );
    assert_eq!(m.order(&id("O1")).unwrap().status, OrderStatus::Disputed);
    assert_eq!(m.profile(buyer()).unwrap().disputed_trades, 1);
    assert_eq!(m.profile(buyer()).unwrap().total_trades, 1);
    assert_eq!(m.profile(seller()).unwrap().disputed_trades, 0);
    assert_eq!(
        resolve_dispute(&mut m, authority(), &id("O1"), DisputeResolution::Split, id("half"), 500),
        Ok(DISPUTE_DEPOSIT_LAMPORTS)
    );
    assert_eq!(m.order(&id("O1")).unwrap().status, OrderStatus::PartialRefund);
    let d = m.dispute(&id("O1")).unwrap();
    assert_eq!(d.status, DisputeStatus::Resolved);
    assert_eq!(d.resolution, Some(DisputeResolution::Split));
    assert_eq!(d.resolver, Some(authority()));
    assert_eq!(d.deposit, 0);
    assert_eq!(m.order(&id("O1")).unwrap().escrow_balance, 1000);
    assert_eq!(
        resolve_dispute_split_spl(&mut m, authority(), &id("O1")),
        Err(ErrorCode::InvalidTokenType)
    );
    assert_eq!(
        resolve_dispute_split_native(&mut m, key(9), &id("O1")),
        Err(ErrorCode::Unauthorized)
    );
    let payout = resolve_dispute_split_native(&mut m, authority(), &id("O1")).unwrap();
    assert_eq!(payout, Payout { to_seller: 497, to_buyer: 498, to_treasury: 5 });
    let o = m.order(&id("O1")).unwrap();
    assert_eq!(o.status, OrderStatus::PartialRefund);
    assert_eq!(o.escrow_balance, 0);
    assert_eq!(
        resolve_dispute_split_native(&mut m, authority(), &id("O1")),
        Err(ErrorCode::InvalidOrderStatus)
    );
}

#[test]
fn dispute_for_buyer_then_settle() {
    let mut m = market_with_users();
    funded_order(&mut m, "O1", 1000);
    confirm_fiat_payment(&mut m, buyer(), &id("O1"), id("STP-9"), 400).unwrap();
    open_dispute(&mut m, seller(), &id("O1"), id("no fiat"), id("bank"), 450).unwrap();
    assert_eq!(m.profile(seller()).unwrap().disputed_trades, 1);
    assert_eq!(
        release_funds_native(&mut m, authority(), &id("O1"), 460),
        Err(ErrorCode::InvalidOrderStatus)
    );
    assert_eq!(
        resolve_dispute(&mut m, key(9), &id("O1"), DisputeResolution::FavorBuyer, id("x"), 470),
        Err(ErrorCode::Unauthorized)
    );
    resolve_dispute(&mut m, authority(), &id("O1"), DisputeResolution::FavorBuyer, id("ok"), 480)
        .unwrap();
    assert_eq!(m.order(&id("O1")).unwrap().status, OrderStatus::Completed);
    assert_eq!(
        resolve_dispute(&mut m, authority(), &id("O1"), DisputeResolution::Split, id("again"), 490),
        Err(ErrorCode::DisputeAlreadyResolved)
    );
    assert_eq!(
        resolve_dispute_split_native(&mut m, authority(), &id("O1")),
        Err(ErrorCode::InvalidOrderStatus)
    );
    assert_eq!(
        release_funds_native(&mut m, authority(), &id("O1"), 495),
        Err(ErrorCode::InvalidOrderStatus)
    );
    let payout = settle_dispute(&mut m, authority(), &id("O1"), AssetRoute::Native).unwrap();
    assert_eq!(payout, Payout { to_seller: 0, to_buyer: 995, to_treasury: 5 });
    assert_eq!(m.order(&id("O1")).unwrap().escrow_balance, 0);
    assert_eq!(
        settle_dispute(&mut m, authority(), &id("O1"), AssetRoute::Native),
        Err(ErrorCode::InvalidOrderStatus)
    );
}

#[test]
fn dispute_for_seller_refunds_in_full() {
    let mut m = market_with_users();
    funded_order(&mut m, "O1", 1000);
    open_dispute(&mut m, seller(), &id("O1"), id("r"), id("e"), 450).unwrap();
    assert_eq!(
        open_dispute(&mut m, buyer(), &id("O1"), id("r"), id("e"), 451),
        Err(ErrorCode::InvalidOrderStatus)
    );
    resolve_dispute(&mut m, authority(), &id("O1"), DisputeResolution::FavorSeller, id("n"), 480)
        .unwrap();
    assert_eq!(m.order(&id("O1")).unwrap().status, OrderStatus::Cancelled);
    assert_eq!(
        open_dispute(&mut m, buyer(), &id("O1"), id("r"), id("e"), 481),
        Err(ErrorCode::InvalidOrderStatus)
    );
    assert_eq!(cancel_order_native(&mut m, seller(), &id("O1")), Err(ErrorCode::InvalidOrderStatus));
    assert_eq!(
        settle_dispute(&mut m, authority(), &id("O1"), AssetRoute::Native),
        Ok(Payout { to_seller: 1000, to_buyer: 0, to_treasury: 0 })
    );
}

#[test]
fn dispute_guards() {
    let mut m = market_with_users();
    open_order(&mut m, "O1", 1000, TokenType::SOL);
    assert_eq!(
        open_dispute(&mut m, seller(), &id("O1"), id("r"), id("e"), 1),
        Err(ErrorCode::InvalidOrderStatus)
    );
    accept_order(&mut m, buyer(), &id("O1"), 2).unwrap();
    deposit_to_escrow_native(&mut m, seller(), &id("O1"), 3).unwrap();
    assert_eq!(
        open_dispute(&mut m, key(66), &id("O1"), id("r"), id("e"), 4),
        Err(ErrorCode::Unauthorized)
    );
    assert_eq!(
        resolve_dispute(&mut m, authority(), &id("O1"), DisputeResolution::Split, id("n"), 5),
        Err(ErrorCode::NotFound)
    );
    assert!(m.dispute(&id("O1")).is_none());
}

#[test]
fn cancel_refunds_seller_once() {
    let mut m = market_with_users();
    funded_order(&mut m, "O1", 1000);
    assert_eq!(cancel_order_native(&mut m, buyer(), &id("O1")), Err(ErrorCode::UnauthorizedSeller));
    assert_eq!(cancel_order_spl(&mut m, seller(), &id("O1")), Err(ErrorCode::InvalidTokenType));
    assert_eq!(
        cancel_order_native(&mut m, seller(), &id("O1")),
        Ok(Payout { to_seller: 1000, to_buyer: 0, to_treasury: 0 })
    );
    let o = m.order(&id("O1")).unwrap();
    assert_eq!(o.status, OrderStatus::Cancelled);
    assert_eq!(o.escrow_balance, 0);
    assert_eq!(cancel_order_native(&mut m, seller(), &id("O1")), Err(ErrorCode::InvalidOrderStatus));
}

#[test]
fn second_profile_and_second_accept_fail() {
    let mut m = market_with_users();
    assert_eq!(create_user_profile(&mut m, seller(), true, None, 99), Err(ErrorCode::AlreadyExists));
    assert_eq!(m.profile(seller()).unwrap().created_at, 10);
    open_order(&mut m, "O1", 1000, TokenType::SOL);
    accept_order(&mut m, buyer(), &id("O1"), 200).unwrap();
    create_user_profile(&mut m, key(3), true, None, 12).unwrap();
    assert_eq!(accept_order(&mut m, key(3), &id("O1"), 201), Err(ErrorCode::OrderNotOpen));
    assert_eq!(m.order(&id("O1")).unwrap().buyer, Some(buyer()));
}

#[test]
fn create_order_validation() {
    let mut m = market_with_users();
    let mk = |m: &mut Market, oid: &str, who: Key, amount: u64, fiat: u64| {
        create_order(m, who, id(oid), amount, fiat, TokenType::USDC, PaymentMethod::STP, id("R"), 1)
    };
    assert_eq!(mk(&mut m, "A", seller(), 0, 1), Err(ErrorCode::InvalidAmount));
    assert_eq!(mk(&mut m, "A", seller(), 1, 0), Err(ErrorCode::ExceedsMaxLimit));
    assert_eq!(mk(&mut m, "A", seller(), 1, 9_000_000_001), Err(ErrorCode::ExceedsMaxLimit));
    assert_eq!(mk(&mut m, "A", key(40), 1, 1), Err(ErrorCode::NotFound));
    assert_eq!(mk(&mut m, "A", seller(), 1, 9_000_000_000), Ok(()));
    assert_eq!(mk(&mut m, "A", seller(), 5, 5), Err(ErrorCode::AlreadyExists));
    let long = "x".repeat(33);
    assert_eq!(mk(&mut m, &long, seller(), 5, 5), Err(ErrorCode::InvalidOrderId));
    assert_eq!(derive_escrow_key(&program(), &long), None);
    let edge = "y".repeat(32);
    assert_eq!(mk(&mut m, &edge, seller(), 5, 5), Ok(()));
    create_user_profile(&mut m, key(4), false, None, 1).unwrap();
    assert_eq!(mk(&mut m, "B", key(4), 1, 1), Err(ErrorCode::KYCRequired));
    set_user_status(&mut m, authority(), key(4), true, false).unwrap();
    assert_eq!(mk(&mut m, "B", key(4), 1, 1), Err(ErrorCode::UserNotActive));
    assert_eq!(set_user_status(&mut m, key(4), key(4), true, true), Err(ErrorCode::Unauthorized));
    assert_eq!(set_user_status(&mut m, authority(), key(41), true, true), Err(ErrorCode::NotFound));
    set_user_status(&mut m, authority(), key(4), true, true).unwrap();
    assert_eq!(mk(&mut m, "B", key(4), 1, 1), Ok(()));
}

#[test]
fn accept_order_validation() {
    let mut m = market_with_users();
    open_order(&mut m, "O1", 1000, TokenType::SOL);
    assert_eq!(accept_order(&mut m, buyer(), &id("missing"), 1), Err(ErrorCode::NotFound));
    assert_eq!(accept_order(&mut m, seller(), &id("O1"), 1), Err(ErrorCode::CannotTradeWithSelf));
    assert_eq!(accept_order(&mut m, key(30), &id("O1"), 1), Err(ErrorCode::NotFound));
    create_user_profile(&mut m, key(30), false, None, 1).unwrap();
    assert_eq!(accept_order(&mut m, key(30), &id("O1"), 1), Err(ErrorCode::KYCRequired));
    set_user_status(&mut m, authority(), key(30), true, false).unwrap();
    assert_eq!(accept_order(&mut m, key(30), &id("O1"), 1), Err(ErrorCode::UserNotActive));
    assert_eq!(m.order(&id("O1")).unwrap().status, OrderStatus::Open);
}

#[test]
fn deposit_and_confirm_guards() {
    let mut m = market_with_users();
    open_order(&mut m, "T1", 1000, TokenType::USDT);
    assert_eq!(
        deposit_to_escrow_spl(&mut m, seller(), &id("T1"), 1),
        Err(ErrorCode::InvalidOrderStatus)
    );
    accept_order(&mut m, buyer(), &id("T1"), 2).unwrap();
    assert_eq!(
        deposit_to_escrow_native(&mut m, seller(), &id("T1"), 3),
        Err(ErrorCode::InvalidTokenType)
    );
    assert_eq!(
        deposit_to_escrow_spl(&mut m, buyer(), &id("T1"), 3),
        Err(ErrorCode::UnauthorizedSeller)
    );
    assert_eq!(
        confirm_fiat_payment(&mut m, buyer(), &id("T1"), id("S"), 3),
        Err(ErrorCode::InvalidOrderStatus)
    );
    assert_eq!(deposit_to_escrow_spl(&mut m, seller(), &id("T1"), 3), Ok(1000));
    assert_eq!(m.order(&id("T1")).unwrap().funded_at, Some(3));
    assert_eq!(
        confirm_fiat_payment(&mut m, seller(), &id("T1"), id("S"), 4),
        Err(ErrorCode::UnauthorizedBuyer)
    );
    confirm_fiat_payment(&mut m, buyer(), &id("T1"), id("S"), 4).unwrap();
    assert_eq!(
        release_funds_native(&mut m, authority(), &id("T1"), 5),
        Err(ErrorCode::InvalidTokenType)
    );
    assert_eq!(
        release_funds_spl(&mut m, authority(), &id("T1"), 5),
        Ok(Payout { to_seller: 0, to_buyer: 995, to_treasury: 5 })
    );
}

#[test]
fn fee_overflow_fails_closed() {
    let mut m = market_with_users();
    funded_order(&mut m, "BIG", u64::MAX);
    confirm_fiat_payment(&mut m, buyer(), &id("BIG"), id("S"), 4).unwrap();
    assert_eq!(
        release_funds_native(&mut m, authority(), &id("BIG"), 5),
        Err(ErrorCode::ArithmeticOverflow)
    );
    let o = m.order(&id("BIG")).unwrap();
    assert_eq!(o.status, OrderStatus::PaymentConfirmed);
    assert_eq!(o.escrow_balance, u64::MAX);
}

#[test]
fn oracle_flag_is_authority_only() {
    let mut m = market_with_users();
    open_order(&mut m, "O1", 1000, TokenType::SOL);
    assert_eq!(update_oracle_status(&mut m, key(5), &id("O1"), true), Err(ErrorCode::Unauthorized));
    assert!(!m.order(&id("O1")).unwrap().stp_oracle_confirmed);
    update_oracle_status(&mut m, authority(), &id("O1"), true).unwrap();
    assert!(m.order(&id("O1")).unwrap().stp_oracle_confirmed);
}

#[test]
fn platform_setup() {
    let m = initialize_platform(program(), authority(), treasury());
    assert_eq!(m.platform().fee_bps, 50);
    assert!(m.platform().is_active);
    assert_eq!(m.platform().treasury, treasury());
    assert!(m.program_id() == program());
    assert!(initialize_platform_with_fee(program(), authority(), treasury(), 10_001).is_err());
    let mut m2 = initialize_platform_with_fee(program(), authority(), treasury(), 100).ok().unwrap();
    create_user_profile(&mut m2, seller(), true, None, 0).unwrap();
    create_user_profile(&mut m2, buyer(), true, None, 0).unwrap();
    funded_order(&mut m2, "F", 1000);
    confirm_fiat_payment(&mut m2, buyer(), &id("F"), id("S"), 4).unwrap();
    assert_eq!(
        release_funds_native(&mut m2, authority(), &id("F"), 5),
        Ok(Payout { to_seller: 0, to_buyer: 990, to_treasury: 10 })
    );
}

#[test]
fn escrow_addresses_are_distinct_per_order() {
    let a = derive_escrow_key(&program(), &id("O1")).unwrap();
    let b = derive_escrow_key(&program(), &id("O2")).unwrap();
    let again = derive_escrow_key(&program(), &id("O1")).unwrap();
    assert!(a != b);
    assert!(a == again);
    assert!(a != program());
    let order_addr = tipjar::address::derive_order_key(&program(), &id("O1")).unwrap();
    assert!(order_addr != a);
}
