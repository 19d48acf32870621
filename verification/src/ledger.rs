//! The Reward Ledger itself: state, accumulator, settlement, and the
//! public operations.
//!
//! Every operation is a pure state transition over plain values.  The
//! hosting environment passes in the current time `now` and the `caller`
//! identity, applies the returned transfer requests through the external
//! asset service, and provides all-or-nothing rollback: when an operation
//! returns an error, or a requested transfer subsequently fails, the whole
//! call is discarded, so no partial effect is ever observable.  The
//! contracts below promise, in addition, that an operation returning an
//! error has already left the ledger exactly as it found it.

use vstd::prelude::*;
use vstd::arithmetic::div_mod::{
    lemma_fundamental_div_mod, lemma_div_pos_is_pos, lemma_mod_bound, lemma_div_of0,
};
use vstd::arithmetic::mul::lemma_mul_inequality;
use crate::{AccountId, Balance, SCALE};
use crate::account::{
    AccountEntry, entry_of, ids_unique, lookup, owed_scaled, owed_term, sum_staked,
    get_entry, upsert_entry, lemma_owed_shift, lemma_staked_le_sum,
    lemma_lookup_index, lemma_entries_bound,
};
use crate::errors::{DurationUpdate, Error, RewardNotified, RewardPaid, Staked, Withdraw};
use crate::transfer::{PullRequest, PushRequest};

verus! {

/// The synthetic account identifier used as the global sentinel: settling
/// it refreshes the accumulator without touching any account's record.
pub const ZERO_ADDRESS: AccountId = 0;

/// The Reward Ledger's persistent state.
///
/// `funded_total` and `paid_total` are ghost tallies of the reward units
/// ever funded through `notify_reward_amount` and ever paid out through
/// `get_reward`; they exist only for the conservation statement and cost
/// nothing at run time.
#[derive(Clone)]
pub struct Contract {
    pub admin: AccountId,
    pub staked_token: AccountId,
    pub reward_token: AccountId,
    pub period_to_finish: Balance,
    pub reward_rate: Balance,
    pub reward_duration: Balance,
    pub last_updated_time: Balance,
    pub reward_per_token_stored: Balance,
    pub total_supply: Balance,
    pub accounts: Vec<AccountEntry>,
    pub funded_total: Ghost<int>,
    pub paid_total: Ghost<int>,
}

impl Contract {
    /// The record the ledger holds for `id`, an all-zero position if none.
    pub open spec fn entry_spec(self, id: AccountId) -> AccountEntry {
        entry_of(self.accounts@, id)
    }

    /// Staked balance of `id`.
    pub open spec fn staked_of(self, id: AccountId) -> Balance {
        self.entry_spec(id).staked
    }

    /// Accumulator snapshot `id` was last settled against.
    pub open spec fn paid_of(self, id: AccountId) -> Balance {
        self.entry_spec(id).reward_per_token_paid
    }

    /// Reward already settled to `id` but not yet paid out.
    pub open spec fn accrued_of(self, id: AccountId) -> Balance {
        self.entry_spec(id).accrued_reward
    }

    /// The effective time for reward accrual: `now`, capped at the end of
    /// the funded distribution window.
    pub open spec fn eff_time_spec(self, now: Balance) -> Balance {
        if now < self.period_to_finish {
            now
        } else {
            self.period_to_finish
        }
    }

    /// The live reward-per-unit accumulator at time `now`, as an
    /// unbounded integer: the stored value plus the emission since the
    /// last update, spread over the total staked balance.  When nothing
    /// is staked the stored value is returned unchanged, which also
    /// guards the division.
    pub open spec fn rpt_spec(self, now: Balance) -> int {
        if self.total_supply == 0 {
            self.reward_per_token_stored as int
        } else {
            self.reward_per_token_stored + (self.eff_time_spec(now) - self.last_updated_time)
                * self.reward_rate * SCALE / (self.total_supply as int)
        }
    }

    /// The fixed-width computation of `rpt_spec` succeeds: the elapsed
    /// span is nonnegative and no intermediate product or sum leaves
    /// `u128`.
    pub open spec fn rpt_ok(self, now: Balance) -> bool {
        self.total_supply == 0 || {
            &&& self.last_updated_time <= self.eff_time_spec(now)
            &&& (self.eff_time_spec(now) - self.last_updated_time) * self.reward_rate
                <= u128::MAX
            &&& (self.eff_time_spec(now) - self.last_updated_time) * self.reward_rate * SCALE
                <= u128::MAX
            &&& self.rpt_spec(now) <= u128::MAX
        }
    }

    /// What `id` has earned at time `now`, as an unbounded integer: its
    /// staked balance times the accumulator growth since its last
    /// settlement, scaled back down, plus what was already settled.
    pub open spec fn earned_spec(self, now: Balance, id: AccountId) -> int {
        self.staked_of(id) * (self.rpt_spec(now) - self.paid_of(id)) / (SCALE as int)
            + self.accrued_of(id)
    }

    /// The fixed-width computation of `earned_spec` succeeds.
    pub open spec fn earned_ok(self, now: Balance, id: AccountId) -> bool {
        &&& self.rpt_ok(now)
        &&& self.paid_of(id) <= self.rpt_spec(now)
        &&& self.staked_of(id) * (self.rpt_spec(now) - self.paid_of(id)) <= u128::MAX
        &&& self.earned_spec(now, id) <= u128::MAX
    }

    /// Settling `account` at `now` succeeds: the global refresh succeeds,
    /// and, for a real account, so does its settlement.
    pub open spec fn settle_ok(self, now: Balance, account: AccountId) -> bool {
        if account == ZERO_ADDRESS {
            self.rpt_ok(now)
        } else {
            self.earned_ok(now, account)
        }
    }

    /// Well-formedness: account identifiers are distinct, the staked
    /// balances add up to `total_supply`, no settlement snapshot is ahead
    /// of the stored accumulator, the last update never lies beyond the
    /// window's end, and the ghost tallies are nonnegative.
    pub open spec fn wf(self) -> bool {
        &&& ids_unique(self.accounts@)
        &&& sum_staked(self.accounts@) == self.total_supply
        &&& forall|i: int| 0 <= i < self.accounts@.len()
            ==> #[trigger] self.accounts@[i].reward_per_token_paid
                <= self.reward_per_token_stored
        &&& self.last_updated_time <= self.period_to_finish
        &&& self.funded_total@ >= 0
        &&& self.paid_total@ >= 0
    }

    /// The reward still scheduled for emission before the window ends,
    /// scaled by `SCALE`.
    pub open spec fn emission_scaled(self) -> int {
        (self.period_to_finish - self.last_updated_time) * self.reward_rate * SCALE
    }

    /// Conservation: everything ever paid out, plus everything the ledger
    /// still owes, plus everything still scheduled for emission, stays
    /// within what was funded.  Every operation preserves this, so reward
    /// paid out can never exceed reward funded.
    pub open spec fn conserves(self) -> bool {
        self.paid_total@ * SCALE + owed_scaled(
            self.accounts@,
            self.reward_per_token_stored as int,
        ) + self.emission_scaled() <= self.funded_total@ * SCALE
    }

    /// Creates a ledger distributing `reward_token` to stakers of
    /// `staked_token`, administered by `admin` (the instantiating caller,
    /// handed in by the hosting environment), with an initial window
    /// duration of `reward_duration` and nothing staked, funded or owed.
    pub fn new(
        reward_token: AccountId,
        staked_token: AccountId,
        reward_duration: Balance,
        admin: AccountId,
    ) -> (r: Contract)
        ensures
            r.admin == admin,
            r.staked_token == staked_token,
            r.reward_token == reward_token,
            r.reward_duration == reward_duration,
            r.period_to_finish == 0,
            r.reward_rate == 0,
            r.last_updated_time == 0,
            r.reward_per_token_stored == 0,
            r.total_supply == 0,
            r.funded_total@ == 0,
            r.paid_total@ == 0,
            forall|a: AccountId| r.staked_of(a) == 0 && r.paid_of(a) == 0 && r.accrued_of(a)
                == 0,
            r.wf(),
            r.conserves(),
    {
        let r = Contract {
            admin,
            staked_token,
            reward_token,
            period_to_finish: 0,
            reward_rate: 0,
            reward_duration,
            last_updated_time: 0,
            reward_per_token_stored: 0,
            total_supply: 0,
            accounts: Vec::new(),
            funded_total: Ghost(0),
            paid_total: Ghost(0),
        };
        proof {
            assert(r.accounts@.len() == 0);
            assert(forall|a: AccountId| lookup(r.accounts@, a) is None);
            assert(r.emission_scaled() == 0) by (nonlinear_arith)
                requires
                    r.period_to_finish == 0,
                    r.last_updated_time == 0,
            ;
        }
        r
    }

    /// The smaller of two amounts.
    fn min(&self, x: Balance, y: Balance) -> (r: Balance)
        ensures
            r == (if x < y {
                x
            } else {
                y
            }),
    {
        if x < y {
            x
        } else {
            y
        }
    }

    /// The global sentinel account identifier.
    fn zero_address(&self) -> (r: AccountId)
        ensures
            r == ZERO_ADDRESS,
    {
        0
    }

    /// The global sentinel account identifier, exposed to callers.
    pub fn return_address_zero(&self) -> (r: AccountId)
        ensures
            r == ZERO_ADDRESS,
    {
        self.zero_address()
    }

    /// Gate for administrator-only operations.
    fn only_owner(&self, caller: AccountId) -> (r: Result<(), Error>)
        ensures
            r == (if caller == self.admin {
                Ok::<(), Error>(())
            } else {
                Err::<(), Error>(Error::NotAdmin)
            }),
    {
        if caller == self.admin {
            Ok(())
        } else {
            Err(Error::NotAdmin)
        }
    }

    /// Total staked balance across all accounts.
    pub fn total_supply(&self) -> (r: Balance)
        ensures
            r == self.total_supply,
    {
        self.total_supply
    }

    /// Staked balance of `account`.
    pub fn balance_of(&self, account: AccountId) -> (r: Balance)
        ensures
            r == self.staked_of(account),
    {
        get_entry(&self.accounts, account).staked
    }

    /// `now`, capped at the end of the distribution window.
    pub fn last_time_reward_applicable(&self, now: Balance) -> (r: Balance)
        ensures
            r == self.eff_time_spec(now),
    {
        self.min(now, self.period_to_finish)
    }

    /// The live reward-per-unit accumulator at `now`.  Succeeds exactly
    /// when the fixed-point computation stays within `u128`; any overflow,
    /// including an elapsed span that would be negative, is reported as
    /// `Overflow`.
    pub fn reward_per_token(&self, now: Balance) -> (r: Result<Balance, Error>)
        ensures
            r == (if self.rpt_ok(now) {
                Ok::<Balance, Error>(self.rpt_spec(now) as u128)
            } else {
                Err::<Balance, Error>(Error::Overflow)
            }),
    {
        if self.total_supply == 0 {
            Ok(self.reward_per_token_stored)
        } else {
            let eff = self.last_time_reward_applicable(now);
            let dt = match eff.checked_sub(self.last_updated_time) {
                Some(v) => v,
                None => {
                    return Err(Error::Overflow);
                },
            };
            let emitted = match dt.checked_mul(self.reward_rate) {
                Some(v) => v,
                None => {
                    return Err(Error::Overflow);
                },
            };
            let scaled = match emitted.checked_mul(SCALE) {
                Some(v) => v,
                None => {
                    return Err(Error::Overflow);
                },
            };
            let grown = scaled / self.total_supply;
            match self.reward_per_token_stored.checked_add(grown) {
                Some(v) => Ok(v),
                None => Err(Error::Overflow),
            }
        }
    }

    /// What `account` has earned at `now`.  Succeeds exactly when the
    /// fixed-width computation of `earned_spec` does; the subtraction of
    /// the account's snapshot from the live accumulator is checked
    /// defensively even though, on a well-formed ledger, it can never
    /// underflow.
    pub fn earned(&self, now: Balance, account: AccountId) -> (r: Result<Balance, Error>)
        ensures
            r == (if self.earned_ok(now, account) {
                Ok::<Balance, Error>(self.earned_spec(now, account) as u128)
            } else {
                Err::<Balance, Error>(Error::Overflow)
            }),
    {
        let rpt = match self.reward_per_token(now) {
            Ok(v) => v,
            Err(e) => {
                return Err(e);
            },
        };
        let entry = get_entry(&self.accounts, account);
        let since = match rpt.checked_sub(entry.reward_per_token_paid) {
            Some(v) => v,
            None => {
                return Err(Error::Overflow);
            },
        };
        let share = match entry.staked.checked_mul(since) {
            Some(v) => v,
            None => {
                return Err(Error::Overflow);
            },
        };
        let unscaled = share / SCALE;
        match unscaled.checked_add(entry.accrued_reward) {
            Some(v) => Ok(v),
            None => Err(Error::Overflow),
        }
    }

    /// The record `account` carries right after being settled at `now`:
    /// its stake is untouched, its snapshot moves to the live accumulator,
    /// and everything earned so far is folded into `accrued_reward`.
    /// Meaningful where `earned_ok(now, account)` holds.
    pub open spec fn settled_entry_spec(self, now: Balance, account: AccountId) -> AccountEntry {
        AccountEntry {
            id: account,
            staked: self.staked_of(account),
            reward_per_token_paid: self.rpt_spec(now) as u128,
            accrued_reward: self.earned_spec(now, account) as u128,
        }
    }

    /// The fields fixed at creation.
    pub open spec fn same_config(self, other: Contract) -> bool {
        &&& self.admin == other.admin
        &&& self.staked_token == other.staked_token
        &&& self.reward_token == other.reward_token
    }

    /// Computes, without mutating anything, the record `account` would
    /// carry after settlement at `now`.
    fn settled_entry(&self, now: Balance, account: AccountId) -> (r: Result<AccountEntry, Error>)
        ensures
            r == (if self.earned_ok(now, account) {
                Ok::<AccountEntry, Error>(self.settled_entry_spec(now, account))
            } else {
                Err::<AccountEntry, Error>(Error::Overflow)
            }),
    {
        let acc = match self.earned(now, account) {
            Ok(v) => v,
            Err(e) => {
                return Err(e);
            },
        };
        let rpt = match self.reward_per_token(now) {
            Ok(v) => v,
            Err(e) => {
                return Err(e);
            },
        };
        let entry = get_entry(&self.accounts, account);
        Ok(
            AccountEntry {
                id: account,
                staked: entry.staked,
                reward_per_token_paid: rpt,
                accrued_reward: acc,
            },
        )
    }

    /// The settlement step every mutating operation begins with: refresh
    /// the global accumulator to the effective time, and, for a real
    /// account (not the global sentinel), fold its earned reward into its
    /// record and move its snapshot to the refreshed accumulator.  On an
    /// error nothing changes.  The refreshed accumulator never falls, the
    /// ledger stays well-formed, and — under a clock that has not moved
    /// backwards — conservation is preserved.
    fn update_reward(&mut self, now: Balance, account: AccountId) -> (r: Result<(), Error>)
        requires
            old(self).wf(),
        ensures
            r is Ok <==> old(self).settle_ok(now, account),
            r is Err ==> *final(self) == *old(self) && r == Err::<(), Error>(Error::Overflow),
            r is Ok ==> {
                &&& final(self).reward_per_token_stored == old(self).rpt_spec(now)
                &&& final(self).last_updated_time == old(self).eff_time_spec(now)
                &&& final(self).period_to_finish == old(self).period_to_finish
                &&& final(self).reward_rate == old(self).reward_rate
                &&& final(self).reward_duration == old(self).reward_duration
                &&& final(self).total_supply == old(self).total_supply
                &&& final(self).same_config(*old(self))
                &&& final(self).funded_total@ == old(self).funded_total@
                &&& final(self).paid_total@ == old(self).paid_total@
                &&& if account == ZERO_ADDRESS {
                    final(self).accounts@ == old(self).accounts@
                } else {
                    &&& lookup(final(self).accounts@, account) == Some(
                        old(self).settled_entry_spec(now, account),
                    )
                    &&& forall|id: AccountId| id != account ==> lookup(
                        final(self).accounts@,
                        id,
                    ) == lookup(old(self).accounts@, id)
                }
            },
            final(self).wf(),
            final(self).reward_per_token_stored >= old(self).reward_per_token_stored,
            old(self).conserves() && now >= old(self).last_updated_time
                ==> final(self).conserves(),
    {
        let ghost pre = *self;
        if account == self.zero_address() {
            let rpt = match self.reward_per_token(now) {
                Ok(v) => v,
                Err(e) => {
                    return Err(e);
                },
            };
            let eff = self.last_time_reward_applicable(now);
            self.reward_per_token_stored = rpt;
            self.last_updated_time = eff;
            proof {
                lemma_rpt_monotone(pre, now);
                if pre.conserves() && now >= pre.last_updated_time {
                    lemma_refresh_bound(pre, now);
                }
            }
            Ok(())
        } else {
            let se = match self.settled_entry(now, account) {
                Ok(v) => v,
                Err(e) => {
                    return Err(e);
                },
            };
            let eff = self.last_time_reward_applicable(now);
            self.reward_per_token_stored = se.reward_per_token_paid;
            self.last_updated_time = eff;
            upsert_entry(&mut self.accounts, se);
            proof {
                lemma_rpt_monotone(pre, now);
                lemma_earned_term_bound(pre, now, account);
                let st2 = pre.rpt_spec(now);
                assert(se.reward_per_token_paid == st2);
                assert(se.accrued_reward == pre.earned_spec(now, account));
                lemma_entries_bound(
                    pre.accounts@,
                    self.accounts@,
                    se,
                    st2,
                );
                assert(sum_staked(self.accounts@) == sum_staked(pre.accounts@));
                if pre.conserves() && now >= pre.last_updated_time {
                    lemma_refresh_bound(pre, now);
                    let e_old = entry_of(pre.accounts@, account);
                    assert(owed_scaled(self.accounts@, st2) == owed_scaled(pre.accounts@, st2)
                        - owed_term(e_old, st2) + owed_term(se, st2));
                    assert(se.staked * (st2 - se.reward_per_token_paid) == 0)
                        by (nonlinear_arith)
                        requires
                            se.reward_per_token_paid == st2,
                    ;
                    assert(owed_term(se, st2) == pre.earned_spec(now, account) * SCALE);
                    assert(owed_term(se, st2) <= owed_term(e_old, st2));
                }
            }
            Ok(())
        }
    }

    /// Locks `amount` units of the staked asset for `caller`.  On success
    /// the caller's position and the total supply grow by the requested
    /// amount — the requested amount, not the amount the asset service
    /// will actually deliver; see `PullRequest` — and the hosting
    /// environment is asked to pull `amount` of the staked asset from the
    /// caller into custody.  A zero amount, an accumulator overflow, or a
    /// position that would no longer fit in the balance type is refused
    /// with nothing changed.  The caller is a real account: the global
    /// sentinel identifier never identifies a caller.
    pub fn stake(&mut self, now: Balance, caller: AccountId, amount: Balance) -> (r: Result<
        (PullRequest, Staked),
        Error,
    >)
        requires
            old(self).wf(),
            caller != ZERO_ADDRESS,
        ensures
            final(self).wf(),
            r is Err ==> *final(self) == *old(self),
            r is Ok <==> amount > 0 && old(self).settle_ok(now, caller) && old(self).staked_of(
                caller,
            ) + amount <= u128::MAX && old(self).total_supply + amount <= u128::MAX,
            amount == 0 ==> r == Err::<(PullRequest, Staked), Error>(
                Error::AmountShouldBeGreaterThanZero,
            ),
            amount > 0 && r is Err ==> r == Err::<(PullRequest, Staked), Error>(Error::Overflow),
            r is Ok ==> {
                &&& r == Ok::<(PullRequest, Staked), Error>(
                    (
                        PullRequest { from: caller, token: old(self).staked_token, amount },
                        Staked { caller, amount },
                    ),
                )
                &&& final(self).reward_per_token_stored == old(self).rpt_spec(now)
                &&& final(self).last_updated_time == old(self).eff_time_spec(now)
                &&& final(self).total_supply == old(self).total_supply + amount
                &&& final(self).staked_of(caller) == old(self).staked_of(caller) + amount
                &&& final(self).paid_of(caller) == old(self).rpt_spec(now)
                &&& final(self).accrued_of(caller) == old(self).earned_spec(now, caller)
                &&& forall|a: AccountId| a != caller ==> final(self).entry_spec(a) == old(
                    self,
                ).entry_spec(a)
                &&& final(self).period_to_finish == old(self).period_to_finish
                &&& final(self).reward_rate == old(self).reward_rate
                &&& final(self).reward_duration == old(self).reward_duration
                &&& final(self).same_config(*old(self))
                &&& final(self).funded_total@ == old(self).funded_total@
                &&& final(self).paid_total@ == old(self).paid_total@
            },
            final(self).reward_per_token_stored >= old(self).reward_per_token_stored,
            old(self).conserves() && now >= old(self).last_updated_time
                ==> final(self).conserves(),
    {
        if amount == 0 {
            return Err(Error::AmountShouldBeGreaterThanZero);
        }
        let e0 = get_entry(&self.accounts, caller);
        let new_staked = match e0.staked.checked_add(amount) {
            Some(v) => v,
            None => {
                return Err(Error::Overflow);
            },
        };
        let new_total = match self.total_supply.checked_add(amount) {
            Some(v) => v,
            None => {
                return Err(Error::Overflow);
            },
        };
        match self.update_reward(now, caller) {
            Ok(()) => (),
            Err(e) => {
                return Err(e);
            },
        };
        let ghost mid = *self;
        let e1 = get_entry(&self.accounts, caller);
        let e2 = AccountEntry {
            id: caller,
            staked: new_staked,
            reward_per_token_paid: e1.reward_per_token_paid,
            accrued_reward: e1.accrued_reward,
        };
        upsert_entry(&mut self.accounts, e2);
        self.total_supply = new_total;
        proof {
            let st2 = mid.reward_per_token_stored as int;
            lemma_entries_bound(mid.accounts@, self.accounts@, e2, st2);
            if old(self).conserves() && now >= old(self).last_updated_time {
                assert(e1.staked * (st2 - e1.reward_per_token_paid) == 0) by (nonlinear_arith)
                    requires
                        e1.reward_per_token_paid == st2,
                ;
                assert(e2.staked * (st2 - e2.reward_per_token_paid) == 0) by (nonlinear_arith)
                    requires
                        e2.reward_per_token_paid == st2,
                ;
                assert(owed_term(e2, st2) == owed_term(e1, st2));
            }
        }
        Ok(
            (
                PullRequest { from: caller, token: self.staked_token, amount },
                Staked { caller, amount },
            ),
        )
    }

    /// Releases `amount` units of the caller's staked balance.  On success
    /// the caller's position and the total supply shrink by `amount` and
    /// the hosting environment is asked to push that much of the staked
    /// asset back to the caller.  A zero amount, an accumulator overflow,
    /// or a withdrawal beyond the caller's staked balance is refused with
    /// nothing changed.  The caller is a real account: the global sentinel
    /// identifier never identifies a caller.
    pub fn withdraw(&mut self, now: Balance, caller: AccountId, amount: Balance) -> (r: Result<
        (PushRequest, Withdraw),
        Error,
    >)
        requires
            old(self).wf(),
            caller != ZERO_ADDRESS,
        ensures
            final(self).wf(),
            r is Err ==> *final(self) == *old(self),
            r is Ok <==> amount > 0 && old(self).settle_ok(now, caller) && old(self).staked_of(
                caller,
            ) >= amount,
            amount == 0 ==> r == Err::<(PushRequest, Withdraw), Error>(
                Error::AmountShouldBeGreaterThanZero,
            ),
            amount > 0 && !old(self).settle_ok(now, caller) ==> r == Err::<
                (PushRequest, Withdraw),
                Error,
            >(Error::Overflow),
            amount > 0 && old(self).settle_ok(now, caller) && old(self).staked_of(caller) < amount
                ==> r == Err::<(PushRequest, Withdraw), Error>(Error::InsufficientFunds),
            r is Ok ==> {
                &&& r == Ok::<(PushRequest, Withdraw), Error>(
                    (
                        PushRequest { to: caller, token: old(self).staked_token, amount },
                        Withdraw { caller, amount },
                    ),
                )
                &&& final(self).reward_per_token_stored == old(self).rpt_spec(now)
                &&& final(self).last_updated_time == old(self).eff_time_spec(now)
                &&& final(self).total_supply == old(self).total_supply - amount
                &&& final(self).staked_of(caller) == old(self).staked_of(caller) - amount
                &&& final(self).paid_of(caller) == old(self).rpt_spec(now)
                &&& final(self).accrued_of(caller) == old(self).earned_spec(now, caller)
                &&& forall|a: AccountId| a != caller ==> final(self).entry_spec(a) == old(
                    self,
                ).entry_spec(a)
                &&& final(self).period_to_finish == old(self).period_to_finish
                &&& final(self).reward_rate == old(self).reward_rate
                &&& final(self).reward_duration == old(self).reward_duration
                &&& final(self).same_config(*old(self))
                &&& final(self).funded_total@ == old(self).funded_total@
                &&& final(self).paid_total@ == old(self).paid_total@
            },
            final(self).reward_per_token_stored >= old(self).reward_per_token_stored,
            old(self).conserves() && now >= old(self).last_updated_time
                ==> final(self).conserves(),
    {
        if amount == 0 {
            return Err(Error::AmountShouldBeGreaterThanZero);
        }
        match self.settled_entry(now, caller) {
            Ok(_) => (),
            Err(e) => {
                return Err(e);
            },
        };
        let e0 = get_entry(&self.accounts, caller);
        if e0.staked < amount {
            return Err(Error::InsufficientFunds);
        }
        match self.update_reward(now, caller) {
            Ok(()) => (),
            Err(_) => {
                return Err(Error::Overflow);
            },
        };
        let ghost mid = *self;
        let e1 = get_entry(&self.accounts, caller);
        proof {
            lemma_staked_le_sum(mid.accounts@, caller);
        }
        let e2 = AccountEntry {
            id: caller,
            staked: e1.staked - amount,
            reward_per_token_paid: e1.reward_per_token_paid,
            accrued_reward: e1.accrued_reward,
        };
        upsert_entry(&mut self.accounts, e2);
        self.total_supply = self.total_supply - amount;
        proof {
            let st2 = mid.reward_per_token_stored as int;
            lemma_entries_bound(mid.accounts@, self.accounts@, e2, st2);
            if old(self).conserves() && now >= old(self).last_updated_time {
                assert(e1.staked * (st2 - e1.reward_per_token_paid) == 0) by (nonlinear_arith)
                    requires
                        e1.reward_per_token_paid == st2,
                ;
                assert(e2.staked * (st2 - e2.reward_per_token_paid) == 0) by (nonlinear_arith)
                    requires
                        e2.reward_per_token_paid == st2,
                ;
                assert(owed_term(e2, st2) == owed_term(e1, st2));
            }
        }
        Ok(
            (
                PushRequest { to: caller, token: self.staked_token, amount },
                Withdraw { caller, amount },
            ),
        )
    }

    /// Pays out the caller's settled reward.  The caller is settled first;
    /// whatever it has accrued is zeroed — before any transfer is even
    /// requested, so a re-entering call sees no reward left to claim — and
    /// the hosting environment is asked to push that much of the reward
    /// asset to the caller.  With nothing accrued the call succeeds and
    /// requests nothing.
    pub fn get_reward(&mut self, now: Balance, caller: AccountId) -> (r: Result<
        Option<(PushRequest, RewardPaid)>,
        Error,
    >)
        requires
            old(self).wf(),
            caller != ZERO_ADDRESS,
        ensures
            final(self).wf(),
            r is Err ==> *final(self) == *old(self) && r == Err::<
                Option<(PushRequest, RewardPaid)>,
                Error,
            >(Error::Overflow),
            r is Ok <==> old(self).settle_ok(now, caller),
            r is Ok ==> {
                let reward = old(self).earned_spec(now, caller);
                &&& (reward > 0 ==> r == Ok::<Option<(PushRequest, RewardPaid)>, Error>(
                    Some(
                        (
                            PushRequest {
                                to: caller,
                                token: old(self).reward_token,
                                amount: reward as u128,
                            },
                            RewardPaid { caller, reward: reward as u128 },
                        ),
                    ),
                ))
                &&& (reward == 0 ==> r == Ok::<Option<(PushRequest, RewardPaid)>, Error>(None))
                &&& final(self).reward_per_token_stored == old(self).rpt_spec(now)
                &&& final(self).last_updated_time == old(self).eff_time_spec(now)
                &&& final(self).total_supply == old(self).total_supply
                &&& final(self).staked_of(caller) == old(self).staked_of(caller)
                &&& final(self).paid_of(caller) == old(self).rpt_spec(now)
                &&& final(self).accrued_of(caller) == 0
                &&& forall|a: AccountId| a != caller ==> final(self).entry_spec(a) == old(
                    self,
                ).entry_spec(a)
                &&& final(self).period_to_finish == old(self).period_to_finish
                &&& final(self).reward_rate == old(self).reward_rate
                &&& final(self).reward_duration == old(self).reward_duration
                &&& final(self).same_config(*old(self))
                &&& final(self).funded_total@ == old(self).funded_total@
                &&& final(self).paid_total@ == old(self).paid_total@ + reward
            },
            final(self).reward_per_token_stored >= old(self).reward_per_token_stored,
            old(self).conserves() && now >= old(self).last_updated_time
                ==> final(self).conserves(),
    {
        match self.update_reward(now, caller) {
            Ok(()) => (),
            Err(e) => {
                return Err(e);
            },
        };
        let ghost mid = *self;
        let e1 = get_entry(&self.accounts, caller);
        let reward = e1.accrued_reward;
        if reward > 0 {
            let e2 = AccountEntry {
                id: caller,
                staked: e1.staked,
                reward_per_token_paid: e1.reward_per_token_paid,
                accrued_reward: 0,
            };
            upsert_entry(&mut self.accounts, e2);
            self.paid_total = Ghost(self.paid_total@ + reward as int);
            proof {
                let st2 = mid.reward_per_token_stored as int;
                lemma_entries_bound(mid.accounts@, self.accounts@, e2, st2);
                if old(self).conserves() && now >= old(self).last_updated_time {
                    assert(e1.staked * (st2 - e1.reward_per_token_paid) == 0) by (nonlinear_arith)
                        requires
                            e1.reward_per_token_paid == st2,
                    ;
                    assert(e2.staked * (st2 - e2.reward_per_token_paid) == 0) by (nonlinear_arith)
                        requires
                            e2.reward_per_token_paid == st2,
                    ;
                    assert(owed_term(e1, st2) == e1.accrued_reward * SCALE);
                    assert(owed_term(e2, st2) == 0) by (nonlinear_arith)
                        requires
                            owed_term(e2, st2) == e2.accrued_reward * SCALE + e2.staked * (st2
                                - e2.reward_per_token_paid),
                            e2.accrued_reward == 0,
                            e2.staked * (st2 - e2.reward_per_token_paid) == 0,
                    ;
                    assert((mid.paid_total@ + reward) * SCALE == mid.paid_total@ * SCALE + reward
                        * SCALE) by (nonlinear_arith);
                }
            }
            Ok(
                Some(
                    (
                        PushRequest { to: caller, token: self.reward_token, amount: reward },
                        RewardPaid { caller, reward },
                    ),
                ),
            )
        } else {
            Ok(None)
        }
    }

    /// Leaves the ledger entirely: withdraws the caller's whole staked
    /// balance, then pays out the settled reward, each exactly as the two
    /// operations would alone; the first failure aborts the whole
    /// composition.  With nothing staked the exit is refused, as a
    /// zero-amount withdrawal would be.
    pub fn exit(&mut self, now: Balance, caller: AccountId) -> (r: Result<
        ((PushRequest, Withdraw), Option<(PushRequest, RewardPaid)>),
        Error,
    >)
        requires
            old(self).wf(),
            caller != ZERO_ADDRESS,
        ensures
            final(self).wf(),
            r is Err ==> *final(self) == *old(self),
            r is Ok <==> old(self).staked_of(caller) > 0 && old(self).settle_ok(now, caller),
            old(self).staked_of(caller) == 0 ==> r == Err::<
                ((PushRequest, Withdraw), Option<(PushRequest, RewardPaid)>),
                Error,
            >(Error::AmountShouldBeGreaterThanZero),
            old(self).staked_of(caller) > 0 && !old(self).settle_ok(now, caller) ==> r == Err::<
                ((PushRequest, Withdraw), Option<(PushRequest, RewardPaid)>),
                Error,
            >(Error::Overflow),
            r is Ok ==> {
                let bal = old(self).staked_of(caller);
                let reward = old(self).earned_spec(now, caller);
                &&& r == Ok::<
                    ((PushRequest, Withdraw), Option<(PushRequest, RewardPaid)>),
                    Error,
                >(
                    (
                        (
                            PushRequest { to: caller, token: old(self).staked_token, amount: bal },
                            Withdraw { caller, amount: bal },
                        ),
                        if reward > 0 {
                            Some(
                                (
                                    PushRequest {
                                        to: caller,
                                        token: old(self).reward_token,
                                        amount: reward as u128,
                                    },
                                    RewardPaid { caller, reward: reward as u128 },
                                ),
                            )
                        } else {
                            None
                        },
                    ),
                )
                &&& final(self).staked_of(caller) == 0
                &&& final(self).accrued_of(caller) == 0
                &&& final(self).total_supply == old(self).total_supply - bal
                &&& forall|a: AccountId| a != caller ==> final(self).entry_spec(a) == old(
                    self,
                ).entry_spec(a)
                &&& final(self).period_to_finish == old(self).period_to_finish
                &&& final(self).reward_rate == old(self).reward_rate
                &&& final(self).reward_duration == old(self).reward_duration
                &&& final(self).same_config(*old(self))
                &&& final(self).funded_total@ == old(self).funded_total@
                &&& final(self).paid_total@ == old(self).paid_total@ + reward
            },
            final(self).reward_per_token_stored >= old(self).reward_per_token_stored,
            old(self).conserves() && now >= old(self).last_updated_time
                ==> final(self).conserves(),
    {
        let bal = self.balance_of(caller);
        let w = match self.withdraw(now, caller, bal) {
            Ok(v) => v,
            Err(e) => {
                return Err(e);
            },
        };
        let ghost mid = *self;
        proof {
            lemma_freshly_settled(mid, now, caller);
        }
        let g = match self.get_reward(now, caller) {
            Ok(v) => v,
            Err(_) => {
                return Err(Error::Overflow);
            },
        };
        Ok((w, g))
    }

    /// Funds the distribution window with `reward` units of the reward
    /// asset: administrator-only.  The global accumulator is settled
    /// first; then the emission rate is recomputed — over a fresh window
    /// of the configured duration, rolling any emission still scheduled
    /// from a running window into the new rate — and the hosting
    /// environment is asked to pull `reward` of the reward asset from the
    /// administrator into custody.  Funding with the duration still at
    /// zero is refused, as is any arithmetic step that would overflow,
    /// with nothing changed.
    pub fn notify_reward_amount(&mut self, now: Balance, caller: AccountId, reward: Balance) -> (r:
        Result<(PullRequest, RewardNotified), Error>)
        requires
            old(self).wf(),
        ensures
            final(self).wf(),
            r is Err ==> *final(self) == *old(self),
            r is Ok <==> caller == old(self).admin && old(self).rpt_ok(now) && old(
                self,
            ).reward_duration > 0 && old(self).notify_fits(now, reward),
            caller != old(self).admin ==> r == Err::<(PullRequest, RewardNotified), Error>(
                Error::NotAdmin,
            ),
            caller == old(self).admin && !old(self).rpt_ok(now) ==> r == Err::<
                (PullRequest, RewardNotified),
                Error,
            >(Error::Overflow),
            caller == old(self).admin && old(self).rpt_ok(now) && old(self).reward_duration == 0
                ==> r == Err::<(PullRequest, RewardNotified), Error>(Error::DurationNotConfigured),
            caller == old(self).admin && old(self).rpt_ok(now) && old(self).reward_duration > 0
                && !old(self).notify_fits(now, reward) ==> r == Err::<
                (PullRequest, RewardNotified),
                Error,
            >(Error::Overflow),
            r is Ok ==> {
                &&& r == Ok::<(PullRequest, RewardNotified), Error>(
                    (
                        PullRequest { from: caller, token: old(self).reward_token, amount: reward },
                        RewardNotified { reward },
                    ),
                )
                &&& final(self).reward_per_token_stored == old(self).rpt_spec(now)
                &&& final(self).last_updated_time == now
                &&& final(self).period_to_finish == now + old(self).reward_duration
                &&& final(self).reward_rate == old(self).new_rate_spec(now, reward)
                &&& final(self).reward_duration == old(self).reward_duration
                &&& final(self).total_supply == old(self).total_supply
                &&& final(self).accounts@ == old(self).accounts@
                &&& final(self).same_config(*old(self))
                &&& final(self).funded_total@ == old(self).funded_total@ + reward
                &&& final(self).paid_total@ == old(self).paid_total@
            },
            final(self).reward_per_token_stored >= old(self).reward_per_token_stored,
            old(self).conserves() && now >= old(self).last_updated_time
                ==> final(self).conserves(),
    {
        match self.only_owner(caller) {
            Ok(()) => (),
            Err(e) => {
                return Err(e);
            },
        };
        match self.reward_per_token(now) {
            Ok(_) => (),
            Err(e) => {
                return Err(e);
            },
        };
        if self.reward_duration == 0 {
            return Err(Error::DurationNotConfigured);
        }
        let new_rate = if now >= self.period_to_finish {
            reward / self.reward_duration
        } else {
            let remaining = self.period_to_finish - now;
            let leftover = match remaining.checked_mul(self.reward_rate) {
                Some(v) => v,
                None => {
                    return Err(Error::Overflow);
                },
            };
            let rolled = match reward.checked_add(leftover) {
                Some(v) => v,
                None => {
                    return Err(Error::Overflow);
                },
            };
            rolled / self.reward_duration
        };
        let new_end = match now.checked_add(self.reward_duration) {
            Some(v) => v,
            None => {
                return Err(Error::Overflow);
            },
        };
        let z = self.zero_address();
        match self.update_reward(now, z) {
            Ok(()) => (),
            Err(_) => {
                return Err(Error::Overflow);
            },
        };
        let ghost mid = *self;
        self.reward_rate = new_rate;
        self.last_updated_time = now;
        self.period_to_finish = new_end;
        self.funded_total = Ghost(self.funded_total@ + reward as int);
        proof {
            if old(self).conserves() && now >= old(self).last_updated_time {
                lemma_notify_preserves(mid, *self, now, reward);
            }
        }
        Ok(
            (
                PullRequest { from: caller, token: self.reward_token, amount: reward },
                RewardNotified { reward },
            ),
        )
    }

    /// Changes the distribution window's duration: administrator-only,
    /// and refused while a window is still running.
    pub fn set_reward_duration(&mut self, now: Balance, caller: AccountId, duration: Balance) -> (r:
        Result<DurationUpdate, Error>)
        requires
            old(self).wf(),
        ensures
            final(self).wf(),
            r is Err ==> *final(self) == *old(self),
            r is Ok <==> caller == old(self).admin && now > old(self).period_to_finish,
            caller != old(self).admin ==> r == Err::<DurationUpdate, Error>(Error::NotAdmin),
            caller == old(self).admin && now <= old(self).period_to_finish ==> r == Err::<
                DurationUpdate,
                Error,
            >(Error::StakingStillInProgress),
            r is Ok ==> {
                &&& r == Ok::<DurationUpdate, Error>(DurationUpdate { duration })
                &&& final(self).reward_duration == duration
                &&& final(self).reward_per_token_stored == old(self).reward_per_token_stored
                &&& final(self).last_updated_time == old(self).last_updated_time
                &&& final(self).period_to_finish == old(self).period_to_finish
                &&& final(self).reward_rate == old(self).reward_rate
                &&& final(self).total_supply == old(self).total_supply
                &&& final(self).accounts@ == old(self).accounts@
                &&& final(self).same_config(*old(self))
                &&& final(self).funded_total@ == old(self).funded_total@
                &&& final(self).paid_total@ == old(self).paid_total@
            },
            final(self).reward_per_token_stored >= old(self).reward_per_token_stored,
            old(self).conserves() ==> final(self).conserves(),
    {
        match self.only_owner(caller) {
            Ok(()) => (),
            Err(e) => {
                return Err(e);
            },
        };
        if now <= self.period_to_finish {
            return Err(Error::StakingStillInProgress);
        }
        self.reward_duration = duration;
        Ok(DurationUpdate { duration })
    }

    /// Recovers `amount` of a foreign asset mistakenly sent to the
    /// ledger's custody: administrator-only.  The two managed assets are
    /// refused — their custodied balances back the participants' accounted
    /// positions, so no free funds of theirs exist to sweep.  The ledger's
    /// own accounting is untouched; the hosting environment performs the
    /// requested move.
    pub fn pull_out_psp22_tokens(&self, caller: AccountId, token: AccountId, amount: Balance) -> (r:
        Result<PushRequest, Error>)
        ensures
            r is Ok <==> caller == self.admin && token != self.staked_token && token
                != self.reward_token,
            caller != self.admin ==> r == Err::<PushRequest, Error>(Error::NotAdmin),
            caller == self.admin && (token == self.staked_token || token == self.reward_token)
                ==> r == Err::<PushRequest, Error>(Error::InsufficientFunds),
            r is Ok ==> r == Ok::<PushRequest, Error>(PushRequest { to: caller, token, amount }),
    {
        match self.only_owner(caller) {
            Ok(()) => (),
            Err(e) => {
                return Err(e);
            },
        };
        if token == self.staked_token || token == self.reward_token {
            return Err(Error::InsufficientFunds);
        }
        Ok(PushRequest { to: caller, token, amount })
    }

    /// The rate the window would run at after funding `reward` at `now`:
    /// the reward — together with whatever a still-running window had not
    /// yet emitted — spread over one full window duration, floor-divided.
    pub open spec fn new_rate_spec(self, now: Balance, reward: Balance) -> int {
        if now >= self.period_to_finish {
            reward as int / self.reward_duration as int
        } else {
            (reward + (self.period_to_finish - now) * self.reward_rate)
                / self.reward_duration as int
        }
    }

    /// The fixed-width arithmetic of `notify_reward_amount` succeeds.
    pub open spec fn notify_fits(self, now: Balance, reward: Balance) -> bool {
        &&& (now < self.period_to_finish ==> {
            &&& (self.period_to_finish - now) * self.reward_rate <= u128::MAX
            &&& reward + (self.period_to_finish - now) * self.reward_rate <= u128::MAX
        })
        &&& now + self.reward_duration <= u128::MAX
    }

    /// Total reward scheduled for emission over one full window at the
    /// current rate.
    pub fn get_reward_for_duration(&self) -> (r: Result<Balance, Error>)
        ensures
            r == (if self.reward_rate * self.reward_duration <= u128::MAX {
                Ok::<Balance, Error>((self.reward_rate * self.reward_duration) as u128)
            } else {
                Err::<Balance, Error>(Error::Overflow)
            }),
    {
        match self.reward_rate.checked_mul(self.reward_duration) {
            Some(v) => Ok(v),
            None => Err(Error::Overflow),
        }
    }
}

/// On a well-formed ledger, no account's settlement snapshot is ahead of
/// the stored accumulator.
proof fn lemma_paid_bound(l: Contract, account: AccountId)
    requires
        l.wf(),
    ensures
        l.paid_of(account) <= l.reward_per_token_stored,
{
    lemma_lookup_index(l.accounts@, account);
    if lookup(l.accounts@, account) is Some {
        let e = lookup(l.accounts@, account)->Some_0;
        let i = choose|i: int| 0 <= i < l.accounts@.len() && l.accounts@[i] == e;
        assert(l.accounts@[i].reward_per_token_paid <= l.reward_per_token_stored);
    }
}

/// Where its fixed-width computation succeeds, the live accumulator never
/// lies below the stored one.
pub proof fn lemma_rpt_monotone(l: Contract, now: Balance)
    requires
        l.rpt_ok(now),
    ensures
        l.rpt_spec(now) >= l.reward_per_token_stored,
        l.rpt_spec(now) >= 0,
{
    if l.total_supply != 0 {
        let dt = l.eff_time_spec(now) - l.last_updated_time;
        let num = dt * l.reward_rate * SCALE;
        assert(num >= 0) by (nonlinear_arith)
            requires
                num == dt * l.reward_rate * SCALE,
                dt >= 0,
                l.reward_rate >= 0,
                SCALE > 0,
        ;
        lemma_div_pos_is_pos(num, l.total_supply as int);
    }
}

/// The accounting identity behind every settlement: refreshing the
/// accumulator from the stored value to the live one, and the last-update
/// time to the effective time, can only shrink the sum of outstanding debt
/// and scheduled emission.  Needs a clock that has not moved backwards.
proof fn lemma_refresh_bound(l: Contract, now: Balance)
    requires
        l.wf(),
        now >= l.last_updated_time,
        l.rpt_ok(now),
    ensures
        l.eff_time_spec(now) >= l.last_updated_time,
        owed_scaled(l.accounts@, l.rpt_spec(now)) + (l.period_to_finish - l.eff_time_spec(now))
            * l.reward_rate * SCALE <= owed_scaled(
            l.accounts@,
            l.reward_per_token_stored as int,
        ) + l.emission_scaled(),
{
    let s = l.accounts@;
    let st: int = l.reward_per_token_stored as int;
    let st2 = l.rpt_spec(now);
    let eff = l.eff_time_spec(now);
    let last = l.last_updated_time;
    let period = l.period_to_finish;
    let rate = l.reward_rate;
    let dt = eff - last;
    assert(dt >= 0);
    let num = dt * rate * SCALE;
    assert(num >= 0) by (nonlinear_arith)
        requires
            num == dt * rate * SCALE,
            dt >= 0,
            rate >= 0,
            SCALE > 0,
    ;
    lemma_owed_shift(s, st, st2);
    assert(((period - last) * rate) * SCALE - ((period - eff) * rate) * SCALE == num)
        by (nonlinear_arith)
        requires
            num == ((eff - last) * rate) * SCALE,
    ;
    if l.total_supply == 0 {
        assert(st2 == st);
        assert(sum_staked(s) * (st2 - st) == 0) by (nonlinear_arith)
            requires
                st2 - st == 0,
        ;
    } else {
        let total = l.total_supply as int;
        assert(st2 - st == num / total);
        lemma_fundamental_div_mod(num, total);
        lemma_mod_bound(num, total);
        assert(total * (num / total) <= num);
        assert(sum_staked(s) == total);
        assert(sum_staked(s) * (st2 - st) == total * (num / total));
    }
}

/// An account settled at this very moment settles again for free: with the
/// last update already at the effective time, the accumulator has not moved,
/// and an emptied position earns exactly its accrued reward.
proof fn lemma_freshly_settled(m: Contract, now: Balance, account: AccountId)
    requires
        m.wf(),
        m.last_updated_time == m.eff_time_spec(now),
        m.paid_of(account) == m.reward_per_token_stored,
        m.staked_of(account) == 0,
    ensures
        m.rpt_ok(now),
        m.rpt_spec(now) == m.reward_per_token_stored,
        m.earned_ok(now, account),
        m.earned_spec(now, account) == m.accrued_of(account),
{
    let dt = m.eff_time_spec(now) - m.last_updated_time;
    assert(dt == 0);
    assert(dt * m.reward_rate == 0) by (nonlinear_arith)
        requires
            dt == 0,
    ;
    assert(dt * m.reward_rate * SCALE == 0) by (nonlinear_arith)
        requires
            dt * m.reward_rate == 0,
    ;
    if m.total_supply != 0 {
        lemma_div_of0(m.total_supply as int);
    }
    assert(m.rpt_spec(now) == m.reward_per_token_stored);
    let x = m.staked_of(account) * (m.rpt_spec(now) - m.paid_of(account));
    assert(x == 0) by (nonlinear_arith)
        requires
            x == m.staked_of(account) * (m.rpt_spec(now) - m.paid_of(account)),
            m.staked_of(account) == 0,
    ;
    lemma_div_of0(SCALE as int);
}

/// Refilling the window preserves conservation: on a freshly settled
/// ledger, the newly scheduled emission never exceeds the funded reward
/// plus whatever the old window had still left to emit.
proof fn lemma_notify_preserves(mid: Contract, post: Contract, now: Balance, reward: Balance)
    requires
        mid.wf(),
        mid.conserves(),
        mid.last_updated_time == mid.eff_time_spec(now),
        mid.reward_duration > 0,
        post.accounts@ == mid.accounts@,
        post.reward_per_token_stored == mid.reward_per_token_stored,
        post.paid_total@ == mid.paid_total@,
        post.funded_total@ == mid.funded_total@ + reward,
        post.last_updated_time == now,
        post.period_to_finish == now + mid.reward_duration,
        post.reward_rate == mid.new_rate_spec(now, reward),
    ensures
        post.conserves(),
{
    let d = mid.reward_duration as int;
    let s_const = SCALE as int;
    assert((mid.funded_total@ + reward) * SCALE == mid.funded_total@ * SCALE + reward * SCALE)
        by (nonlinear_arith);
    if now >= mid.period_to_finish {
        assert(mid.last_updated_time == mid.period_to_finish);
        assert(mid.emission_scaled() == 0) by (nonlinear_arith)
            requires
                mid.emission_scaled() == (mid.period_to_finish - mid.last_updated_time)
                    * mid.reward_rate * SCALE,
                mid.period_to_finish - mid.last_updated_time == 0,
        ;
        let q = reward as int / d;
        lemma_fundamental_div_mod(reward as int, d);
        lemma_mod_bound(reward as int, d);
        assert(d * q <= reward);
        assert(q * d <= reward) by (nonlinear_arith)
            requires
                d * q <= reward,
        ;
        lemma_mul_inequality(q * d, reward as int, s_const);
        assert(post.emission_scaled() == (d * q) * SCALE) by (nonlinear_arith)
            requires
                post.emission_scaled() == (post.period_to_finish - post.last_updated_time)
                    * post.reward_rate * SCALE,
                post.period_to_finish - post.last_updated_time == d,
                post.reward_rate == q,
        ;
        assert((d * q) * SCALE == (q * d) * SCALE) by (nonlinear_arith);
        assert(post.emission_scaled() <= reward * SCALE);
    } else {
        assert(mid.last_updated_time == now);
        let leftover = (mid.period_to_finish - now) * mid.reward_rate;
        assert(mid.emission_scaled() == leftover * SCALE);
        let rolled = reward + leftover;
        let q = rolled / d;
        lemma_fundamental_div_mod(rolled, d);
        lemma_mod_bound(rolled, d);
        assert(d * q <= rolled);
        assert(q * d <= rolled) by (nonlinear_arith)
            requires
                d * q <= rolled,
        ;
        lemma_mul_inequality(q * d, rolled, s_const);
        assert(post.emission_scaled() == (d * q) * SCALE) by (nonlinear_arith)
            requires
                post.emission_scaled() == (post.period_to_finish - post.last_updated_time)
                    * post.reward_rate * SCALE,
                post.period_to_finish - post.last_updated_time == d,
                post.reward_rate == q,
        ;
        assert((d * q) * SCALE == (q * d) * SCALE) by (nonlinear_arith);
        assert(rolled * SCALE == reward * SCALE + leftover * SCALE) by (nonlinear_arith)
            requires
                rolled == reward + leftover,
        ;
        assert(post.emission_scaled() <= reward * SCALE + leftover * SCALE);
    }
}

/// What one account is owed once settled, scaled back up by `SCALE`, never
/// exceeds its term in the ledger's outstanding debt at the live
/// accumulator.
proof fn lemma_earned_term_bound(l: Contract, now: Balance, account: AccountId)
    requires
        l.wf(),
        l.rpt_ok(now),
    ensures
        l.earned_spec(now, account) >= l.accrued_of(account),
        l.earned_spec(now, account) * SCALE <= owed_term(
            entry_of(l.accounts@, account),
            l.rpt_spec(now),
        ),
{
    let e = entry_of(l.accounts@, account);
    let st2 = l.rpt_spec(now);
    lemma_paid_bound(l, account);
    lemma_rpt_monotone(l, now);
    let x = e.staked * (st2 - e.reward_per_token_paid);
    assert(x >= 0) by (nonlinear_arith)
        requires
            x == e.staked * (st2 - e.reward_per_token_paid),
            e.staked >= 0,
            st2 >= e.reward_per_token_paid,
    ;
    let q = x / (SCALE as int);
    lemma_fundamental_div_mod(x, SCALE as int);
    lemma_mod_bound(x, SCALE as int);
    lemma_div_pos_is_pos(x, SCALE as int);
    assert(q * SCALE <= x) by (nonlinear_arith)
        requires
            (SCALE as int) * q + x % (SCALE as int) == x,
            x % (SCALE as int) >= 0,
    ;
    assert((q + e.accrued_reward) * SCALE == q * SCALE + e.accrued_reward * SCALE)
        by (nonlinear_arith);
}

} // verus!
