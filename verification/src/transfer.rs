//! Decision kernel of the safe-transfer protocol.
//!
//! The ledger never moves assets itself: a mutating operation first commits
//! its own accounting, then hands the hosting environment a plain request
//! value (`PullRequest` or `PushRequest`) naming the move it needs.  The
//! environment performs the balance and allowance queries and the actual
//! transfer, and feeds the observed plain values back into the functions
//! here, which decide — exactly as the protocol demands — whether the move
//! counts as successful and how much was really received.  A failure aborts
//! the whole enclosing operation; the hosting environment provides the
//! all-or-nothing rollback.

use vstd::prelude::*;
use crate::{AccountId, Balance};
use crate::errors::Error;

verus! {

/// A transfer-in the ledger asks the hosting environment to perform:
/// pull `amount` units of `token` from `from` into the ledger's custody.
/// The environment may let the asset re-enter the ledger during the move;
/// the requesting operation has already committed its accounting.
#[derive(Clone, Copy, Debug, PartialEq, Eq, Structural)]
pub struct PullRequest {
    pub from: AccountId,
    pub token: AccountId,
    pub amount: Balance,
}

/// A transfer-out the ledger asks the hosting environment to perform:
/// push `amount` units of `token` from the ledger's custody to `to`.
#[derive(Clone, Copy, Debug, PartialEq, Eq, Structural)]
pub struct PushRequest {
    pub to: AccountId,
    pub token: AccountId,
    pub amount: Balance,
}

/// Checks that a transfer-in may even be attempted: the source must hold at
/// least the requested amount, and must have granted the ledger at least
/// that much allowance.  Called with the balances observed just before the
/// move; on an error the move must not be attempted.
pub fn pull_preflight(from_balance: Balance, allowance: Balance, amount: Balance) -> (r: Result<
    (),
    Error,
>)
    ensures
        r == (if from_balance < amount {
            Err::<(), Error>(Error::InsufficientFunds)
        } else if allowance < amount {
            Err::<(), Error>(Error::NotEnoughAllowance)
        } else {
            Ok::<(), Error>(())
        }),
{
    if from_balance < amount {
        Err(Error::InsufficientFunds)
    } else if allowance < amount {
        Err(Error::NotEnoughAllowance)
    } else {
        Ok(())
    }
}

/// Reconciles a completed transfer-in.  `balance_before` and
/// `balance_after` are the ledger's custody balances observed around the
/// move, and `transfer_succeeded` is the asset service's own verdict.  On
/// success the result is the amount actually received, which may fall short
/// of the requested amount for fee-levying assets; a custody balance that
/// decreased is reported as an overflow of the reconciling subtraction.
pub fn pull_reconcile(
    balance_before: Balance,
    balance_after: Balance,
    transfer_succeeded: bool,
) -> (r: Result<Balance, Error>)
    ensures
        r == (if !transfer_succeeded {
            Err::<Balance, Error>(Error::TokenTransferFailed)
        } else if balance_after < balance_before {
            Err::<Balance, Error>(Error::Overflow)
        } else {
            Ok::<Balance, Error>((balance_after - balance_before) as Balance)
        }),
{
    if !transfer_succeeded {
        Err(Error::TokenTransferFailed)
    } else {
        match balance_after.checked_sub(balance_before) {
            Some(received) => Ok(received),
            None => Err(Error::Overflow),
        }
    }
}

/// Judges a completed transfer-out: any failure signalled by the asset
/// service fails the whole enclosing operation, so no partial credit is
/// ever issued.
pub fn push_outcome(transfer_succeeded: bool) -> (r: Result<(), Error>)
    ensures
        r == (if transfer_succeeded {
            Ok::<(), Error>(())
        } else {
            Err::<(), Error>(Error::TokenTransferFailed)
        }),
{
    if transfer_succeeded {
        Ok(())
    } else {
        Err(Error::TokenTransferFailed)
    }
}

} // verus!
