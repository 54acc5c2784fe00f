//! The records of the escrow engine and the errors its operations report.
use vstd::prelude::*;

use crate::key::Key;

verus! {

/// The asset an order trades.
#[derive(Clone, Copy, Debug, PartialEq, Eq, Structural)]
pub enum TokenType {
    SOL,
    USDC,
    USDT,
}

/// How the buyer pays the fiat side of the trade.
#[derive(Clone, Copy, Debug, PartialEq, Eq, Structural)]
pub enum PaymentMethod {
    STP,
    SPEI,
    Cash,
}

/// Where an order stands in its lifecycle.
#[derive(Clone, Copy, Debug, PartialEq, Eq, Structural)]
pub enum OrderStatus {
    Open,
    Accepted,
    Funded,
    PaymentConfirmed,
    Completed,
    Cancelled,
    Disputed,
    PartialRefund,
}

/// Where a dispute stands.
#[derive(Clone, Copy, Debug, PartialEq, Eq, Structural)]
pub enum DisputeStatus {
    Open,
    Resolved,
}

/// The arbiter's decision on a dispute.
#[derive(Clone, Copy, Debug, PartialEq, Eq, Structural)]
pub enum DisputeResolution {
    FavorBuyer,
    FavorSeller,
    Split,
}

/// Which transfer mechanism an operation uses: native lamports or a token
/// program. Each order's `token_type` selects exactly one.
#[derive(Clone, Copy, Debug, PartialEq, Eq, Structural)]
pub enum AssetRoute {
    Native,
    Token,
}

/// Why an operation was rejected. A rejected operation changes nothing.
#[derive(Clone, Copy, Debug, PartialEq, Eq, Structural)]
pub enum ErrorCode {
    InvalidAmount,
    ExceedsMaxLimit,
    KYCRequired,
    UserNotActive,
    OrderNotOpen,
    InvalidOrderStatus,
    InvalidTokenType,
    UnauthorizedSeller,
    UnauthorizedBuyer,
    CannotTradeWithSelf,
    Unauthorized,
    DisputeAlreadyResolved,
    AlreadyExists,
    NotFound,
    InvalidOrderId,
    ArithmeticOverflow,
    InsufficientFunds,
}

impl ErrorCode {
    /// A short human-readable description of the error.
    pub fn message(&self) -> &'static str {
        match self {
            ErrorCode::InvalidAmount => "Invalid amount",
            ErrorCode::ExceedsMaxLimit => "Amount exceeds maximum limit of 9,000 MXN",
            ErrorCode::KYCRequired => "KYC verification required",
            ErrorCode::UserNotActive => "User is not active",
            ErrorCode::OrderNotOpen => "Order is not open",
            ErrorCode::InvalidOrderStatus => "Invalid order status",
            ErrorCode::InvalidTokenType => "Invalid token type",
            ErrorCode::UnauthorizedSeller => "Unauthorized seller",
            ErrorCode::UnauthorizedBuyer => "Unauthorized buyer",
            ErrorCode::CannotTradeWithSelf => "Cannot trade with yourself",
            ErrorCode::Unauthorized => "Unauthorized",
            ErrorCode::DisputeAlreadyResolved => "Dispute already resolved",
            ErrorCode::AlreadyExists => "Record already exists",
            ErrorCode::NotFound => "Record not found",
            ErrorCode::InvalidOrderId => "Order id cannot be used as an address seed",
            ErrorCode::ArithmeticOverflow => "Arithmetic overflow",
            ErrorCode::InsufficientFunds => "Insufficient escrow funds",
        }
    }
}

/// The platform singleton: trusted authority, fee destination and fee rate.
#[derive(Clone, Copy, Debug)]
pub struct Platform {
    pub authority: Key,
    pub treasury: Key,
    pub fee_bps: u64,
    pub total_volume: u64,
    pub total_transactions: u64,
    pub is_active: bool,
}

/// A user's trading eligibility and statistics.
#[derive(Clone, Copy, Debug)]
pub struct UserProfile {
    pub owner: Key,
    pub kyc_verified: bool,
    pub kyc_nft_mint: Option<Key>,
    pub total_trades: u64,
    pub successful_trades: u64,
    pub disputed_trades: u64,
    pub is_active: bool,
    pub created_at: i64,
}

/// One trade. `escrow_balance` is what the order's custodial escrow account
/// currently holds.
#[derive(Debug)]
pub struct Order {
    pub order_id: String,
    pub seller: Key,
    pub buyer: Option<Key>,
    pub amount: u64,
    pub amount_mxn: u64,
    pub token_type: TokenType,
    pub payment_method: PaymentMethod,
    pub status: OrderStatus,
    pub stp_reference: String,
    pub stp_transaction_id: Option<String>,
    pub stp_oracle_confirmed: bool,
    pub escrow: Key,
    pub escrow_balance: u64,
    pub created_at: i64,
    pub accepted_at: Option<i64>,
    pub funded_at: Option<i64>,
    pub payment_confirmed_at: Option<i64>,
    pub completed_at: Option<i64>,
}

/// A contest of one order, opened by its seller or buyer. `order` is the
/// disputed order's id; `deposit` is the bond the initiator posted and the
/// record still holds.
#[derive(Debug)]
pub struct Dispute {
    pub order: String,
    pub initiator: Key,
    pub reason: String,
    pub evidence: String,
    pub status: DisputeStatus,
    pub resolver: Option<Key>,
    pub resolution: Option<DisputeResolution>,
    pub resolution_notes: Option<String>,
    pub created_at: i64,
    pub resolved_at: Option<i64>,
    pub deposit: u64,
}

/// What one disbursement pays out of an order's escrow. The three legs are
/// applied together or not at all.
#[derive(Clone, Copy, Debug, PartialEq, Eq, Structural)]
pub struct Payout {
    pub to_seller: u64,
    pub to_buyer: u64,
    pub to_treasury: u64,
}

impl Payout {
    /// The total a payout takes out of escrow.
    pub open spec fn total(self) -> int {
        self.to_seller + self.to_buyer + self.to_treasury
    }
}

/// Whether an order's asset travels by `route`: native lamports for SOL,
/// the token program for every other asset.
pub open spec fn route_serves(route: AssetRoute, token_type: TokenType) -> bool {
    match route {
        AssetRoute::Native => token_type == TokenType::SOL,
        AssetRoute::Token => token_type != TokenType::SOL,
    }
}

/// Executable form of `route_serves`.
pub fn route_matches(route: AssetRoute, token_type: TokenType) -> (r: bool)
    ensures
        r == route_serves(route, token_type),
{
    match route {
        AssetRoute::Native => token_type == TokenType::SOL,
        AssetRoute::Token => token_type != TokenType::SOL,
    }
}

/// Statuses from which no operation moves an order on.
pub open spec fn is_terminal(s: OrderStatus) -> bool {
    s == OrderStatus::Completed || s == OrderStatus::Cancelled || s == OrderStatus::PartialRefund
}

} // verus!
