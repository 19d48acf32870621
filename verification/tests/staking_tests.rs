//! End-to-end tests of the reward ledger: the funding scenarios, the error
//! taxonomy, and the safe-transfer decision kernel.

use staking_rewards::errors::{DurationUpdate, Error, RewardPaid, Staked, Withdraw};
use staking_rewards::ledger::Contract;
use staking_rewards::transfer::{
    pull_preflight, pull_reconcile, push_outcome, PullRequest, PushRequest,
};
use staking_rewards::SCALE;

const REWARD_TOKEN: u128 = 2;
const STAKED_TOKEN: u128 = 1;
const ADMIN: u128 = 9;
const ALICE: u128 = 5;
const BOB: u128 = 6;

fn fresh(duration: u128) -> Contract {
    Contract::new(REWARD_TOKEN, STAKED_TOKEN, duration, ADMIN)
}

#[test]
fn new_ledger_is_empty() {
    let c = fresh(100);
    assert_eq!(c.total_supply(), 0);
    assert_eq!(c.balance_of(ALICE), 0);
    assert_eq!(c.earned(0, ALICE), Ok(0));
    assert_eq!(c.reward_per_token(0), Ok(0));
    assert_eq!(c.get_reward_for_duration(), Ok(0));
    assert_eq!(c.return_address_zero(), 0);
}

#[test]
fn funding_sets_rate_and_window() {
    let mut c = fresh(100);
    let r = c.notify_reward_amount(0, ADMIN, 1000).unwrap();
    assert_eq!(
        r,
        (
            PullRequest { from: ADMIN, token: REWARD_TOKEN, amount: 1000 },
            staking_rewards::errors::RewardNotified { reward: 1000 },
        )
    );
    assert_eq!(c.get_reward_for_duration(), Ok(1000));
    assert_eq!(c.last_time_reward_applicable(150), 100);
    assert_eq!(c.last_time_reward_applicable(50), 50);
}

#[test]
fn scenario_fund_then_stake_earns_half_at_half_time() {
    let mut c = fresh(100);
    c.notify_reward_amount(0, ADMIN, 1000).unwrap();
    let (req, evt) = c.stake(0, ALICE, 100).unwrap();
    assert_eq!(req, PullRequest { from: ALICE, token: STAKED_TOKEN, amount: 100 });
    assert_eq!(evt, Staked { caller: ALICE, amount: 100 });
    assert_eq!(c.total_supply(), 100);
    assert_eq!(c.reward_per_token(50), Ok(5 * SCALE));
    assert_eq!(c.earned(50, ALICE), Ok(500));
}

#[test]
fn scenario_two_equal_stakers_split_the_fund() {
    let mut c = fresh(100);
    c.notify_reward_amount(0, ADMIN, 1000).unwrap();
    c.stake(0, ALICE, 100).unwrap();
    c.stake(0, BOB, 100).unwrap();
    assert_eq!(c.total_supply(), 200);
    assert_eq!(c.earned(100, ALICE), Ok(500));
    assert_eq!(c.earned(100, BOB), Ok(500));
    // past the window's end nothing more accrues
    assert_eq!(c.earned(250, ALICE), Ok(500));
}

#[test]
fn scenario_overdraw_fails_and_changes_nothing() {
    let mut c = fresh(100);
    c.notify_reward_amount(0, ADMIN, 1000).unwrap();
    c.stake(0, ALICE, 50).unwrap();
    let before_total = c.total_supply();
    let before_balance = c.balance_of(ALICE);
    let before_rpt = c.reward_per_token(10).unwrap();
    assert_eq!(c.withdraw(10, ALICE, 100), Err(Error::InsufficientFunds));
    assert_eq!(c.total_supply(), before_total);
    assert_eq!(c.balance_of(ALICE), before_balance);
    assert_eq!(c.reward_per_token(10), Ok(before_rpt));
}

#[test]
fn scenario_refunding_mid_window_rolls_leftover_into_rate() {
    let mut c = fresh(100);
    c.notify_reward_amount(0, ADMIN, 500).unwrap();
    assert_eq!(c.get_reward_for_duration(), Ok(500));
    // at t = 50 half the emission (250) is still scheduled:
    // new rate = (500 + 50 * 5) / 100 = 7
    c.notify_reward_amount(50, ADMIN, 500).unwrap();
    assert_eq!(c.get_reward_for_duration(), Ok(700));
    assert_eq!(c.last_time_reward_applicable(200), 150);
}

#[test]
fn scenario_fee_on_transfer_drift_is_accounted_at_requested_amount() {
    let mut c = fresh(100);
    let (req, _) = c.stake(0, ALICE, 100).unwrap();
    assert_eq!(req.amount, 100);
    // the asset levies a fee: custody observed 98 where 100 was requested
    let custody_before: u128 = 0;
    let custody_after: u128 = 98;
    assert_eq!(pull_reconcile(custody_before, custody_after, true), Ok(98));
    // the ledger accounts the requested amount regardless
    assert_eq!(c.balance_of(ALICE), 100);
    assert_eq!(c.total_supply(), 100);
    // a later withdrawal of the full accounted balance still succeeds in
    // the books and requests the full 100 back from custody
    let (push, _) = c.withdraw(0, ALICE, 100).unwrap();
    assert_eq!(push, PushRequest { to: ALICE, token: STAKED_TOKEN, amount: 100 });
    assert_eq!(c.balance_of(ALICE), 0);
    assert_eq!(c.total_supply(), 0);
}

#[test]
fn views_are_idempotent_without_mutation() {
    let mut c = fresh(100);
    c.notify_reward_amount(0, ADMIN, 1000).unwrap();
    c.stake(0, ALICE, 40).unwrap();
    assert_eq!(c.reward_per_token(30), c.reward_per_token(30));
    assert_eq!(c.earned(30, ALICE), c.earned(30, ALICE));
    assert_eq!(c.balance_of(ALICE), c.balance_of(ALICE));
}

#[test]
fn accumulator_never_decreases_across_operations() {
    let mut c = fresh(100);
    c.notify_reward_amount(0, ADMIN, 1000).unwrap();
    let r0 = c.reward_per_token(0).unwrap();
    c.stake(0, ALICE, 100).unwrap();
    let r1 = c.reward_per_token(10).unwrap();
    c.stake(10, BOB, 300).unwrap();
    let r2 = c.reward_per_token(20).unwrap();
    c.withdraw(20, ALICE, 50).unwrap();
    let r3 = c.reward_per_token(60).unwrap();
    c.get_reward(60, BOB).unwrap();
    let r4 = c.reward_per_token(90).unwrap();
    assert!(r0 <= r1 && r1 <= r2 && r2 <= r3 && r3 <= r4);
}

#[test]
fn total_supply_is_the_sum_of_balances() {
    let mut c = fresh(100);
    c.stake(0, ALICE, 30).unwrap();
    c.stake(0, BOB, 70).unwrap();
    assert_eq!(c.total_supply(), c.balance_of(ALICE) + c.balance_of(BOB));
    c.withdraw(5, BOB, 20).unwrap();
    assert_eq!(c.total_supply(), c.balance_of(ALICE) + c.balance_of(BOB));
}

#[test]
fn payouts_never_exceed_funding() {
    let mut c = fresh(100);
    c.notify_reward_amount(0, ADMIN, 1000).unwrap();
    c.stake(0, ALICE, 100).unwrap();
    c.stake(30, BOB, 300).unwrap();
    let mut paid: u128 = 0;
    if let Some((push, _)) = c.get_reward(70, ALICE).unwrap() {
        paid += push.amount;
    }
    if let Some((push, _)) = c.get_reward(120, BOB).unwrap() {
        paid += push.amount;
    }
    if let Some((push, _)) = c.get_reward(150, ALICE).unwrap() {
        paid += push.amount;
    }
    assert!(paid <= 1000);
}

#[test]
fn staking_zero_is_refused() {
    let mut c = fresh(100);
    assert_eq!(c.stake(0, ALICE, 0), Err(Error::AmountShouldBeGreaterThanZero));
    assert_eq!(c.withdraw(0, ALICE, 0), Err(Error::AmountShouldBeGreaterThanZero));
}

#[test]
fn overflowing_a_position_is_refused() {
    let mut c = fresh(100);
    c.stake(0, ALICE, u128::MAX).unwrap();
    assert_eq!(c.stake(0, ALICE, 1), Err(Error::Overflow));
    assert_eq!(c.total_supply(), u128::MAX);
}

#[test]
fn accumulator_overflow_is_reported() {
    let mut c = fresh(1);
    c.notify_reward_amount(0, ADMIN, u128::MAX).unwrap();
    c.stake(0, ALICE, 10).unwrap();
    // one elapsed unit at the maximal rate cannot be scaled without overflow
    assert_eq!(c.reward_per_token(1), Err(Error::Overflow));
    assert_eq!(c.earned(1, ALICE), Err(Error::Overflow));
    assert_eq!(c.stake(1, ALICE, 1), Err(Error::Overflow));
}

#[test]
fn claiming_pays_once_and_zeroes_the_accrual() {
    let mut c = fresh(100);
    c.notify_reward_amount(0, ADMIN, 1000).unwrap();
    c.stake(0, ALICE, 100).unwrap();
    let paid = c.get_reward(50, ALICE).unwrap();
    assert_eq!(
        paid,
        Some((
            PushRequest { to: ALICE, token: REWARD_TOKEN, amount: 500 },
            RewardPaid { caller: ALICE, reward: 500 },
        ))
    );
    assert_eq!(c.earned(50, ALICE), Ok(0));
    assert_eq!(c.get_reward(50, ALICE), Ok(None));
    // accrual resumes afterwards
    assert_eq!(c.earned(60, ALICE), Ok(100));
}

#[test]
fn exit_returns_stake_and_reward_together() {
    let mut c = fresh(100);
    c.notify_reward_amount(0, ADMIN, 1000).unwrap();
    c.stake(0, ALICE, 100).unwrap();
    let ((push, evt), reward) = c.exit(50, ALICE).unwrap();
    assert_eq!(push, PushRequest { to: ALICE, token: STAKED_TOKEN, amount: 100 });
    assert_eq!(evt, Withdraw { caller: ALICE, amount: 100 });
    assert_eq!(
        reward,
        Some((
            PushRequest { to: ALICE, token: REWARD_TOKEN, amount: 500 },
            RewardPaid { caller: ALICE, reward: 500 },
        ))
    );
    assert_eq!(c.balance_of(ALICE), 0);
    assert_eq!(c.total_supply(), 0);
    assert_eq!(c.earned(50, ALICE), Ok(0));
}

#[test]
fn exit_with_nothing_staked_is_refused() {
    let mut c = fresh(100);
    assert_eq!(c.exit(0, ALICE), Err(Error::AmountShouldBeGreaterThanZero));
}

#[test]
fn funding_is_administrator_gated() {
    let mut c = fresh(100);
    assert_eq!(c.notify_reward_amount(0, ALICE, 1000), Err(Error::NotAdmin));
    assert_eq!(c.set_reward_duration(0, ALICE, 50), Err(Error::NotAdmin));
    assert_eq!(c.pull_out_psp22_tokens(ALICE, 7, 1), Err(Error::NotAdmin));
}

#[test]
fn funding_with_unconfigured_duration_is_refused() {
    let mut c = fresh(0);
    assert_eq!(c.notify_reward_amount(0, ADMIN, 1000), Err(Error::DurationNotConfigured));
}

#[test]
fn duration_is_locked_while_the_window_runs() {
    let mut c = fresh(100);
    c.notify_reward_amount(0, ADMIN, 1000).unwrap();
    assert_eq!(c.set_reward_duration(60, ADMIN, 50), Err(Error::StakingStillInProgress));
    assert_eq!(c.set_reward_duration(100, ADMIN, 50), Err(Error::StakingStillInProgress));
    let evt = c.set_reward_duration(101, ADMIN, 50).unwrap();
    assert_eq!(evt, DurationUpdate { duration: 50 });
    c.notify_reward_amount(101, ADMIN, 500).unwrap();
    assert_eq!(c.get_reward_for_duration(), Ok(500));
}

#[test]
fn sweeping_managed_assets_is_refused() {
    let c = fresh(100);
    assert_eq!(c.pull_out_psp22_tokens(ADMIN, STAKED_TOKEN, 5), Err(Error::InsufficientFunds));
    assert_eq!(c.pull_out_psp22_tokens(ADMIN, REWARD_TOKEN, 5), Err(Error::InsufficientFunds));
    assert_eq!(
        c.pull_out_psp22_tokens(ADMIN, 7, 5),
        Ok(PushRequest { to: ADMIN, token: 7, amount: 5 })
    );
}

#[test]
fn pull_preflight_checks_balance_then_allowance() {
    assert_eq!(pull_preflight(50, 100, 60), Err(Error::InsufficientFunds));
    assert_eq!(pull_preflight(100, 50, 60), Err(Error::NotEnoughAllowance));
    assert_eq!(pull_preflight(100, 100, 60), Ok(()));
}

#[test]
fn pull_reconcile_reports_failures_and_received_amount() {
    assert_eq!(pull_reconcile(10, 20, false), Err(Error::TokenTransferFailed));
    assert_eq!(pull_reconcile(20, 10, true), Err(Error::Overflow));
    assert_eq!(pull_reconcile(10, 110, true), Ok(100));
}

#[test]
fn push_outcome_propagates_the_verdict() {
    assert_eq!(push_outcome(true), Ok(()));
    assert_eq!(push_outcome(false), Err(Error::TokenTransferFailed));
}
