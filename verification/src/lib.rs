//! A time-weighted reward-distribution ledger.
//!
//! Participants lock ("stake") units of one fungible asset and continuously
//! earn units of a second fungible asset over a funded distribution window,
//! proportionally to their share of the total locked amount.  This crate
//! holds the verified accounting engine: the reward-per-unit accumulator,
//! per-account settlement, window scheduling, and the decision kernel of the
//! safe-transfer protocol.  The hosting environment (which supplies the
//! caller identity, the current time, and the actual asset transfers) stays
//! outside: every operation takes `now` and `caller` as plain arguments and
//! returns the transfer it wants performed as a plain request value.

use vstd::prelude::*;

pub mod account;
pub mod errors;
pub mod ledger;
pub mod transfer;
pub mod laws;

verus! {

/// An amount of a fungible asset.  Timestamps and durations share this type,
/// as the accumulator mixes them in one fixed-point computation.
pub type Balance = u128;

/// An account identifier, reduced to a plain number.  The hosting
/// environment maps its native account addresses onto these.
pub type AccountId = u128;

/// Fixed-point scaling constant for the reward-per-unit accumulator.
/// One unit of reward per unit staked is represented as `SCALE`.
pub const SCALE: u128 = 1_000_000_000_000_000_000;

} // verus!
