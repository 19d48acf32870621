//! The ledger-wide laws, stated as public proof functions.
//!
//! Each law here holds of every reachable ledger: `Contract::new`
//! establishes `wf` and `conserves`, and every mutating operation's
//! contract re-establishes `wf`, keeps the stored accumulator from
//! falling, and — under a clock that has not moved backwards between
//! calls — preserves `conserves`.

use vstd::prelude::*;
use vstd::arithmetic::mul::lemma_mul_inequality_converse;
use crate::{AccountId, Balance, SCALE};
use crate::account::{lemma_owed_nonneg, sum_staked};
use crate::ledger::{lemma_rpt_monotone, Contract};

verus! {

/// The staked balances of all accounts always add up to the recorded
/// total supply.
pub proof fn lemma_total_supply_is_sum_of_stakes(l: Contract)
    requires
        l.wf(),
    ensures
        sum_staked(l.accounts@) == l.total_supply,
{
}

/// The reward-per-unit accumulator never decreases: whenever its live
/// value is computable at all, it lies at or above the stored value —
/// and every mutating operation's contract moves the stored value only
/// to such a live value.
pub proof fn lemma_accumulator_never_decreases(l: Contract, now: Balance)
    requires
        l.rpt_ok(now),
    ensures
        l.rpt_spec(now) >= l.reward_per_token_stored,
{
    lemma_rpt_monotone(l, now);
}

/// Each view operation is a pure function of the ledger state and the
/// observed time: with no intervening mutation, asking twice yields the
/// same answer.
pub proof fn lemma_views_idempotent(l1: Contract, l2: Contract, now: Balance, account: AccountId)
    requires
        l1 == l2,
    ensures
        l1.rpt_spec(now) == l2.rpt_spec(now),
        l1.earned_spec(now, account) == l2.earned_spec(now, account),
        l1.eff_time_spec(now) == l2.eff_time_spec(now),
        l1.staked_of(account) == l2.staked_of(account),
{
}

/// Conservation: the reward asset ever paid out through `get_reward`
/// never exceeds the reward asset ever funded through
/// `notify_reward_amount`.
pub proof fn lemma_reward_conservation(l: Contract)
    requires
        l.wf(),
        l.conserves(),
    ensures
        l.paid_total@ <= l.funded_total@,
{
    lemma_owed_nonneg(l.accounts@, l.reward_per_token_stored as int);
    assert(l.emission_scaled() >= 0) by (nonlinear_arith)
        requires
            l.emission_scaled() == (l.period_to_finish - l.last_updated_time) * l.reward_rate
                * SCALE,
            l.period_to_finish >= l.last_updated_time,
            l.reward_rate >= 0,
            SCALE > 0,
    ;
    assert(l.paid_total@ * SCALE <= l.funded_total@ * SCALE);
    lemma_mul_inequality_converse(l.paid_total@, l.funded_total@, SCALE as int);
}

} // verus!
