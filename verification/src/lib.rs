//! Two verified ledger engines over an external runtime: a multi-asset
//! conditional escrow (offers that lock assets from a creator until the
//! recipient satisfies the expected conditions) and a staking ledger
//! (accounts lock a base asset and accrue time-proportional rewards).
//!
//! The runtime — caller identity, a monotonic clock, asset custody and the
//! attached payments of a call — is passed into each transition as plain
//! values, and each transition returns the asset movements it requires, so
//! the whole of the engines' logic is verified here.

pub mod errors;
pub mod escrow;
pub mod staking;
