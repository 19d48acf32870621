//! The account table of the ledger.
//!
//! Accounts are held in a vector of records with pairwise-distinct
//! identifiers; the mathematical model is the `lookup` function over the
//! vector's view.  Beside it stand the two aggregate quantities every
//! invariant of the ledger speaks of: the sum of all staked balances, and
//! the total outstanding debt of the ledger (`owed_scaled`), measured in
//! reward units scaled by `SCALE`.

use vstd::prelude::*;
use crate::{AccountId, Balance, SCALE};

verus! {

/// One account's position: its locked balance, the accumulator snapshot it
/// was last settled against, and the reward already earned but not yet paid.
#[derive(Clone, Copy, Debug, PartialEq, Eq, Structural)]
pub struct AccountEntry {
    pub id: AccountId,
    pub staked: Balance,
    pub reward_per_token_paid: Balance,
    pub accrued_reward: Balance,
}

/// All identifiers in the table are pairwise distinct.
pub open spec fn ids_unique(s: Seq<AccountEntry>) -> bool {
    forall|i: int, j: int| 0 <= i < j < s.len() ==> s[i].id != s[j].id
}

/// The first record with identifier `id`, if any.
pub open spec fn lookup(s: Seq<AccountEntry>, id: AccountId) -> Option<AccountEntry>
    decreases s.len(),
{
    if s.len() == 0 {
        None
    } else if s[0].id == id {
        Some(s[0])
    } else {
        lookup(s.drop_first(), id)
    }
}

/// The record for `id`, defaulting to the all-zero position of an account
/// that never interacted with the ledger.
pub open spec fn entry_of(s: Seq<AccountEntry>, id: AccountId) -> AccountEntry {
    match lookup(s, id) {
        Some(e) => e,
        None => AccountEntry { id, staked: 0, reward_per_token_paid: 0, accrued_reward: 0 },
    }
}

/// Sum of all staked balances in the table.
pub open spec fn sum_staked(s: Seq<AccountEntry>) -> int
    decreases s.len(),
{
    if s.len() == 0 {
        0
    } else {
        s[0].staked + sum_staked(s.drop_first())
    }
}

/// What the ledger owes one account when the accumulator stands at
/// `stored`, scaled by `SCALE`: the already-settled reward plus the
/// not-yet-settled share since the account's last snapshot.
pub open spec fn owed_term(e: AccountEntry, stored: int) -> int {
    e.accrued_reward * SCALE + e.staked * (stored - e.reward_per_token_paid)
}

/// Total outstanding debt of the ledger over the whole table, scaled by
/// `SCALE`.
pub open spec fn owed_scaled(s: Seq<AccountEntry>, stored: int) -> int
    decreases s.len(),
{
    if s.len() == 0 {
        0
    } else {
        owed_term(s[0], stored) + owed_scaled(s.drop_first(), stored)
    }
}

/// A record that matches at position `i`, with no earlier match, is what
/// `lookup` returns.
proof fn lemma_lookup_first(s: Seq<AccountEntry>, i: int)
    requires
        0 <= i < s.len(),
        forall|j: int| 0 <= j < i ==> s[j].id != s[i].id,
    ensures
        lookup(s, s[i].id) == Some(s[i]),
    decreases s.len(),
{
    if i > 0 {
        assert(s.drop_first()[i - 1] == s[i]);
        assert(forall|j: int| 0 <= j < i - 1 ==> s.drop_first()[j] == s[j + 1]);
        lemma_lookup_first(s.drop_first(), i - 1);
    }
}

/// A table with no record for `id` looks `id` up to `None`.
proof fn lemma_lookup_absent(s: Seq<AccountEntry>, id: AccountId)
    requires
        forall|j: int| 0 <= j < s.len() ==> s[j].id != id,
    ensures
        lookup(s, id) is None,
    decreases s.len(),
{
    if s.len() > 0 {
        assert(forall|j: int| 0 <= j < s.len() - 1 ==> s.drop_first()[j] == s[j + 1]);
        lemma_lookup_absent(s.drop_first(), id);
    }
}

/// A successful lookup returns a record carrying the identifier looked up.
pub proof fn lemma_lookup_id(s: Seq<AccountEntry>, id: AccountId)
    ensures
        lookup(s, id) matches Some(e) ==> e.id == id,
    decreases s.len(),
{
    if s.len() > 0 && s[0].id != id {
        lemma_lookup_id(s.drop_first(), id);
    }
}

/// A lookup succeeds exactly when some record carries the identifier.
proof fn lemma_lookup_exists(s: Seq<AccountEntry>, id: AccountId)
    ensures
        (lookup(s, id) is Some) <==> exists|j: int| 0 <= j < s.len() && s[j].id == id,
    decreases s.len(),
{
    if s.len() > 0 {
        lemma_lookup_exists(s.drop_first(), id);
        assert(forall|j: int| 0 <= j < s.len() - 1 ==> s.drop_first()[j] == s[j + 1]);
        if s[0].id == id {
            assert(s[0].id == id && 0 <= 0 < s.len());
        } else {
            if exists|j: int| 0 <= j < s.len() && s[j].id == id {
                let j = choose|j: int| 0 <= j < s.len() && s[j].id == id;
                assert(s.drop_first()[j - 1].id == id);
            }
        }
    }
}

/// A record a lookup returns stands somewhere in the table.
pub proof fn lemma_lookup_index(s: Seq<AccountEntry>, id: AccountId)
    ensures
        lookup(s, id) matches Some(e) ==> exists|i: int| 0 <= i < s.len() && s[i] == e,
    decreases s.len(),
{
    if s.len() > 0 {
        if s[0].id == id {
            assert(0 <= 0 < s.len() && s[0] == s[0]);
        } else {
            lemma_lookup_index(s.drop_first(), id);
            assert(forall|j: int| 0 <= j < s.len() - 1 ==> s.drop_first()[j] == s[j + 1]);
            if lookup(s, id) is Some {
                let e = lookup(s, id)->Some_0;
                let i = choose|i: int| 0 <= i < s.drop_first().len() && s.drop_first()[i] == e;
                assert(s[i + 1] == e);
            }
        }
    }
}

/// After one record is rewritten, a bound that held on every old
/// settlement snapshot, and holds on the new record, holds on every
/// record of the new table.
pub proof fn lemma_entries_bound(
    s1: Seq<AccountEntry>,
    s2: Seq<AccountEntry>,
    e: AccountEntry,
    bound: int,
)
    requires
        ids_unique(s1),
        ids_unique(s2),
        lookup(s2, e.id) == Some(e),
        forall|id: AccountId| id != e.id ==> lookup(s2, id) == lookup(s1, id),
        forall|i: int| 0 <= i < s1.len() ==> s1[i].reward_per_token_paid <= bound,
        e.reward_per_token_paid <= bound,
    ensures
        forall|i: int| 0 <= i < s2.len() ==> s2[i].reward_per_token_paid <= bound,
{
    assert forall|i: int| 0 <= i < s2.len() implies s2[i].reward_per_token_paid <= bound by {
        assert(forall|j: int| 0 <= j < i ==> s2[j].id != s2[i].id);
        lemma_lookup_first(s2, i);
        if s2[i].id != e.id {
            lemma_lookup_index(s1, s2[i].id);
        }
    }
}

/// No single account holds more than the sum of all staked balances.
pub proof fn lemma_staked_le_sum(s: Seq<AccountEntry>, id: AccountId)
    ensures
        entry_of(s, id).staked <= sum_staked(s),
        sum_staked(s) >= 0,
    decreases s.len(),
{
    if s.len() > 0 {
        lemma_staked_le_sum(s.drop_first(), id);
    }
}

/// Replacing the record at `i` leaves the lookup of every other
/// identifier alone.
proof fn lemma_lookup_update_other(s: Seq<AccountEntry>, i: int, e2: AccountEntry, id: AccountId)
    requires
        0 <= i < s.len(),
        id != e2.id,
        id != s[i].id,
    ensures
        lookup(s.update(i, e2), id) == lookup(s, id),
    decreases s.len(),
{
    let s2 = s.update(i, e2);
    if i == 0 {
        assert(s2.drop_first() =~= s.drop_first());
    } else {
        assert(s2[0] == s[0]);
        if s[0].id != id {
            assert(s2.drop_first() =~= s.drop_first().update(i - 1, e2));
            assert(s.drop_first()[i - 1] == s[i]);
            lemma_lookup_update_other(s.drop_first(), i - 1, e2, id);
        }
    }
}

/// Appending a record leaves the lookup of every other identifier alone.
proof fn lemma_lookup_push_other(s: Seq<AccountEntry>, e: AccountEntry, id: AccountId)
    requires
        id != e.id,
    ensures
        lookup(s.push(e), id) == lookup(s, id),
    decreases s.len(),
{
    let s2 = s.push(e);
    assert(s2[s.len() as int] == e);
    if s.len() == 0 {
        assert(s2[0] == e);
        assert(s2.drop_first() =~= Seq::<AccountEntry>::empty());
        assert(lookup(s2, id) == lookup(s2.drop_first(), id));
        assert(lookup(s2.drop_first(), id) is None);
        assert(lookup(s, id) is None);
    } else {
        assert(s2[0] == s[0]);
        if s[0].id != id {
            assert(s2.drop_first() =~= s.drop_first().push(e));
            lemma_lookup_push_other(s.drop_first(), e, id);
        }
    }
}

/// Replacing the record at `i` by one with the same identifier changes the
/// lookup of that identifier alone, and shifts the two aggregates by the
/// difference of the old and new record.
proof fn lemma_update(s: Seq<AccountEntry>, i: int, e2: AccountEntry)
    requires
        0 <= i < s.len(),
        s[i].id == e2.id,
        ids_unique(s),
    ensures
        ids_unique(s.update(i, e2)),
        lookup(s.update(i, e2), e2.id) == Some(e2),
        forall|id: AccountId| id != e2.id ==> lookup(s.update(i, e2), id) == lookup(s, id),
        sum_staked(s.update(i, e2)) == sum_staked(s) - s[i].staked + e2.staked,
        forall|st: int| #[trigger] owed_scaled(s.update(i, e2), st) == owed_scaled(s, st)
            - owed_term(s[i], st) + owed_term(e2, st),
    decreases s.len(),
{
    let s2 = s.update(i, e2);
    assert(forall|j: int| 0 <= j < s.len() && j != i ==> s2[j] == s[j]);
    assert(forall|j: int| 0 <= j < s.len() ==> s2[j].id == s[j].id);
    assert(forall|j: int| 0 <= j < i ==> s2[j].id != s2[i].id);
    lemma_lookup_first(s2, i);
    assert forall|id: AccountId| id != e2.id implies lookup(s2, id) == lookup(s, id) by {
        lemma_lookup_update_other(s, i, e2, id);
    }
    if i == 0 {
        assert(s2.drop_first() =~= s.drop_first());
        assert forall|st: int| #[trigger] owed_scaled(s2, st) == owed_scaled(s, st)
            - owed_term(s[i], st) + owed_term(e2, st) by {
            assert(owed_scaled(s2, st) == owed_term(e2, st) + owed_scaled(s2.drop_first(), st));
        }
    } else {
        assert(s.drop_first().update(i - 1, e2) =~= s2.drop_first());
        assert(forall|j: int| 0 <= j < s.len() - 1 ==> s.drop_first()[j] == s[j + 1]);
        lemma_update(s.drop_first(), i - 1, e2);
        assert(s2[0] == s[0]);
        assert forall|st: int| #[trigger] owed_scaled(s2, st) == owed_scaled(s, st)
            - owed_term(s[i], st) + owed_term(e2, st) by {
            assert(owed_scaled(s2, st) == owed_term(s[0], st) + owed_scaled(s2.drop_first(), st));
            assert(owed_scaled(s, st) == owed_term(s[0], st) + owed_scaled(s.drop_first(), st));
        }
    }
}

/// Appending a record with a fresh identifier adds it to the lookup and
/// adds its contribution to the two aggregates.
proof fn lemma_push(s: Seq<AccountEntry>, e: AccountEntry)
    requires
        ids_unique(s),
        forall|j: int| 0 <= j < s.len() ==> s[j].id != e.id,
    ensures
        ids_unique(s.push(e)),
        lookup(s.push(e), e.id) == Some(e),
        forall|id: AccountId| id != e.id ==> lookup(s.push(e), id) == lookup(s, id),
        sum_staked(s.push(e)) == sum_staked(s) + e.staked,
        forall|st: int| #[trigger] owed_scaled(s.push(e), st) == owed_scaled(s, st)
            + owed_term(e, st),
    decreases s.len(),
{
    let s2 = s.push(e);
    assert(forall|j: int| 0 <= j < s.len() ==> s2[j] == s[j]);
    assert(s2[s.len() as int] == e);
    lemma_lookup_first(s2, s.len() as int);
    assert forall|id: AccountId| id != e.id implies lookup(s2, id) == lookup(s, id) by {
        lemma_lookup_push_other(s, e, id);
    }
    if s.len() == 0 {
        assert(s2[0] == e);
        assert(s2.drop_first() =~= Seq::<AccountEntry>::empty());
        assert(sum_staked(s2.drop_first()) == 0);
        assert(sum_staked(s2) == e.staked + 0);
        assert forall|st: int| #[trigger] owed_scaled(s2, st) == owed_scaled(s, st)
            + owed_term(e, st) by {
            assert(owed_scaled(s2.drop_first(), st) == 0);
            assert(owed_scaled(s2, st) == owed_term(e, st) + 0);
            assert(owed_scaled(s, st) == 0);
        }
    } else {
        assert(s.drop_first().push(e) =~= s2.drop_first());
        assert(forall|j: int| 0 <= j < s.len() - 1 ==> s.drop_first()[j] == s[j + 1]);
        lemma_push(s.drop_first(), e);
        assert forall|st: int| #[trigger] owed_scaled(s2, st) == owed_scaled(s, st)
            + owed_term(e, st) by {
            assert(owed_scaled(s2, st) == owed_term(s[0], st) + owed_scaled(s2.drop_first(), st));
        }
    }
}

/// Raising the accumulator from `st1` to `st2` raises the total debt by
/// exactly the total staked balance times the raise.
pub proof fn lemma_owed_shift(s: Seq<AccountEntry>, st1: int, st2: int)
    ensures
        owed_scaled(s, st2) == owed_scaled(s, st1) + sum_staked(s) * (st2 - st1),
    decreases s.len(),
{
    if s.len() == 0 {
        assert(sum_staked(s) * (st2 - st1) == 0) by (nonlinear_arith)
            requires sum_staked(s) == 0;
    } else {
        lemma_owed_shift(s.drop_first(), st1, st2);
        assert(owed_term(s[0], st2) == owed_term(s[0], st1) + s[0].staked * (st2 - st1))
            by (nonlinear_arith);
        assert((s[0].staked + sum_staked(s.drop_first())) * (st2 - st1)
            == s[0].staked * (st2 - st1) + sum_staked(s.drop_first()) * (st2 - st1))
            by (nonlinear_arith);
    }
}

/// When every snapshot lies at or below the accumulator, the ledger's debt
/// is never negative.
pub proof fn lemma_owed_nonneg(s: Seq<AccountEntry>, stored: int)
    requires
        forall|i: int| 0 <= i < s.len() ==> s[i].reward_per_token_paid <= stored,
    ensures
        owed_scaled(s, stored) >= 0,
    decreases s.len(),
{
    if s.len() > 0 {
        assert(s[0].reward_per_token_paid <= stored);
        assert(owed_term(s[0], stored) >= 0) by (nonlinear_arith)
            requires
                s[0].reward_per_token_paid <= stored,
                s[0].staked >= 0,
                s[0].accrued_reward >= 0,
                SCALE > 0;
        assert(forall|j: int| 0 <= j < s.len() - 1 ==> s.drop_first()[j] == s[j + 1]);
        lemma_owed_nonneg(s.drop_first(), stored);
    }
}

/// Finds the position of the record for `id`, if the table holds one.
pub fn find_entry(accounts: &Vec<AccountEntry>, id: AccountId) -> (r: Option<usize>)
    ensures
        match r {
            Some(i) => i < accounts@.len() && lookup(accounts@, id) == Some(accounts@[i as int]),
            None => lookup(accounts@, id) is None,
        },
{
    let n = accounts.len();
    let mut i: usize = 0;
    while i < n
        invariant
            i <= n,
            n == accounts@.len(),
            forall|j: int| 0 <= j < i ==> accounts@[j].id != id,
        decreases n - i,
    {
        if accounts[i].id == id {
            proof {
                lemma_lookup_first(accounts@, i as int);
            }
            return Some(i);
        }
        i = i + 1;
    }
    proof {
        lemma_lookup_absent(accounts@, id);
    }
    None
}

/// Reads the record for `id`, defaulting to the all-zero position.
pub fn get_entry(accounts: &Vec<AccountEntry>, id: AccountId) -> (r: AccountEntry)
    ensures
        r == entry_of(accounts@, id),
{
    match find_entry(accounts, id) {
        Some(i) => accounts[i],
        None => AccountEntry { id, staked: 0, reward_per_token_paid: 0, accrued_reward: 0 },
    }
}

/// Writes the record for `e.id`, replacing the old one or appending a new
/// one, and reports the exact effect on the lookup and on both aggregates.
pub fn upsert_entry(accounts: &mut Vec<AccountEntry>, e: AccountEntry)
    requires
        ids_unique(old(accounts)@),
    ensures
        ids_unique(final(accounts)@),
        lookup(final(accounts)@, e.id) == Some(e),
        forall|id: AccountId| id != e.id ==> lookup(final(accounts)@, id) == lookup(
            old(accounts)@,
            id,
        ),
        sum_staked(final(accounts)@) == sum_staked(old(accounts)@) - entry_of(
            old(accounts)@,
            e.id,
        ).staked + e.staked,
        forall|st: int| #[trigger] owed_scaled(final(accounts)@, st) == owed_scaled(
            old(accounts)@,
            st,
        ) - owed_term(entry_of(old(accounts)@, e.id), st) + owed_term(e, st),
{
    let ghost s = accounts@;
    match find_entry(accounts, e.id) {
        Some(i) => {
            proof {
                lemma_lookup_id(s, e.id);
                lemma_update(s, i as int, e);
            }
            accounts.set(i, e);
        },
        None => {
            proof {
                lemma_lookup_exists(s, e.id);
                lemma_push(s, e);
                let d = (AccountEntry {
                    id: e.id,
                    staked: 0,
                    reward_per_token_paid: 0,
                    accrued_reward: 0,
                });
                assert forall|st: int| owed_term(d, st) == 0 by {
                    assert(d.accrued_reward * SCALE == 0) by (nonlinear_arith)
                        requires
                            d.accrued_reward == 0,
                    ;
                    assert(d.staked * (st - d.reward_per_token_paid) == 0) by (nonlinear_arith)
                        requires
                            d.staked == 0,
                    ;
                }
            }
            accounts.push(e);
        },
    }
}

} // verus!
