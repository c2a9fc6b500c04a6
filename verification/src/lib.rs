//! Accounting and settlement core of a liquid-staking hub.
//!
//! Users deposit a native staking asset, receive a derivative receipt token
//! representing a claim on the pooled stake, and later redeem that receipt for
//! the underlying asset plus accrued rewards, net of protocol fees and any
//! slashing. This crate holds the ledger and settlement logic: exchange-rate
//! tracking, bonding, batched unbonding, delayed withdrawal settlement,
//! slashing reconciliation, and fair-share validator selection. Every state
//! transition is a pure function over plain values; the surrounding contract
//! plumbing performs queries and dispatches the returned instructions.

pub mod bond;
pub mod compound;
pub mod dec;
pub mod hubconfig;
pub mod laws;
pub mod ledger;
pub mod msg;
pub mod select;
pub mod slashing;
pub mod gov;
pub mod rewards;
pub mod testing;
pub mod types;
pub mod unbond;
pub mod withdraw;

use vstd::prelude::*;

verus! {

/// Fixed-point scale used by the external decimal type: 18 fractional digits.
pub const DEC_ONE: u128 = 1_000_000_000_000_000_000u128;

} // verus!
