//! The error taxonomy and the typed notifications of the ledger.
//!
//! Every error aborts the enclosing operation: a public operation that
//! returns an `Err` leaves the ledger exactly as it found it.  The
//! notifications are returned to the caller as plain values; the hosting
//! environment is the one that actually emits them.

use vstd::prelude::*;
use crate::{AccountId, Balance};

verus! {

/// Why a ledger operation was refused.
#[derive(Clone, Copy, Debug, PartialEq, Eq, Structural)]
pub enum Error {
    /// The caller is not the administrator of an administrator-gated operation.
    NotAdmin,
    /// A stake or withdrawal of zero units was requested.
    AmountShouldBeGreaterThanZero,
    /// A withdrawal or transfer asks for more than the available balance,
    /// or a sweep tries to redirect one of the two managed assets.
    InsufficientFunds,
    /// The allowance granted to the ledger does not cover a transfer-in.
    NotEnoughAllowance,
    /// The external asset service signalled that a transfer failed.
    TokenTransferFailed,
    /// An arithmetic step of the fixed-point accounting would overflow,
    /// or an observed custody balance moved the wrong way.
    Overflow,
    /// The distribution window is still running, so its duration is locked.
    StakingStillInProgress,
    /// Funding was requested while the window duration is still zero.
    DurationNotConfigured,
}

/// Notification that `caller` staked `amount` units (the requested amount,
/// not the amount the asset service actually delivered).
#[derive(Clone, Copy, Debug, PartialEq, Eq, Structural)]
pub struct Staked {
    pub caller: AccountId,
    pub amount: Balance,
}

/// Notification that `caller` withdrew `amount` units of the staked asset.
#[derive(Clone, Copy, Debug, PartialEq, Eq, Structural)]
pub struct Withdraw {
    pub caller: AccountId,
    pub amount: Balance,
}

/// Notification that `caller` was paid `reward` units of the reward asset.
#[derive(Clone, Copy, Debug, PartialEq, Eq, Structural)]
pub struct RewardPaid {
    pub caller: AccountId,
    pub reward: Balance,
}

/// Notification that the distribution window was funded with `reward` units.
#[derive(Clone, Copy, Debug, PartialEq, Eq, Structural)]
pub struct RewardNotified {
    pub reward: Balance,
}

/// Notification that the window duration was changed to `duration`.
#[derive(Clone, Copy, Debug, PartialEq, Eq, Structural)]
pub struct DurationUpdate {
    pub duration: Balance,
}

} // verus!
