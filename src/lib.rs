//! Escrow engine for peer-to-peer trades of a custodial asset against
//! off-chain fiat payment, with platform fees, timeout-based release and
//! dispute resolution, plus the identity-credential registry that gates
//! who may trade.

pub mod address;
pub mod credential;
pub mod key;
pub mod laws;
pub mod market;
pub mod model;
pub mod policy;
pub mod types;
