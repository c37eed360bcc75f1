//! Executable well-formedness checks for the snapshot.
//!
//! The decision functions require a well-formed snapshot
//! ([`SolidoState::wf`]): ledger-guaranteed invariants plus bounds that
//! keep every balance and sum within a `u64`. The snapshot layer that feeds
//! the engine is outside the verified library, so these checks let such a
//! caller establish the precondition at run time and refuse a malformed
//! snapshot instead of computing nonsense from one.

use vstd::prelude::*;
use vstd::arithmetic::power2::pow2;
use vstd::arithmetic::power2::lemma_pow2_strictly_increases;
use vstd::arithmetic::power2::lemma2_to64;
use vstd::arithmetic::power2::lemma2_to64_rest;
use crate::epoch::EpochSchedule;
use crate::epoch::MINIMUM_SLOTS_PER_EPOCH;
use crate::epoch::spec_first_slot_in_epoch;
use crate::state::MINIMUM_STAKE_ACCOUNT_BALANCE;
use crate::state::SolidoState;
use crate::state::StakeAccount;
use crate::state::seq_stake_total;
use crate::state::seq_effective_sum;
use crate::state::spec_effective_stake_balance;
use crate::balance::lemma_effective_sum_prefix;
use crate::maintenance::lemma_stake_total_prefix;
use crate::duty::MAINTAINER_DUTY_SLICE_LENGTH;

verus! {

/// `2^e`, by repeated doubling.
fn checked_pow2(e: u64) -> (r: u64)
    requires
        pow2(e as nat) <= u64::MAX,
    ensures
        r == pow2(e as nat),
{
    let mut r: u64 = 1;
    let mut i: u64 = 0;
    proof {
        lemma2_to64();
    }
    while i < e
        invariant
            i <= e,
            r == pow2(i as nat),
            pow2(e as nat) <= u64::MAX,
        decreases e - i,
    {
        proof {
            vstd::arithmetic::power2::lemma_pow2_unfold((i + 1) as nat);
            if i + 1 < e {
                lemma_pow2_strictly_increases((i + 1) as nat, e as nat);
            }
        }
        r = 2 * r;
        i = i + 1;
    }
    r
}

impl EpochSchedule {
    /// Whether the schedule's fields agree with the warmup layout; exactly
    /// [`EpochSchedule::wf`].
    pub fn check_well_formed(&self) -> (r: bool)
        ensures
            r == self.wf(),
    {
        if self.slots_per_epoch < MINIMUM_SLOTS_PER_EPOCH {
            return false;
        }
        if self.first_normal_epoch > 59 {
            // The first normal slot of so late a normal epoch would not fit
            // in a u64, so the layout equation cannot hold.
            proof {
                lemma2_to64_rest();
                lemma_pow2_strictly_increases(59, self.first_normal_epoch as nat);
            }
            return false;
        }
        proof {
            lemma2_to64_rest();
            if self.first_normal_epoch < 59 {
                lemma_pow2_strictly_increases(self.first_normal_epoch as nat, 59);
            }
        }
        proof {
            vstd::arithmetic::power2::lemma_pow2_pos(self.first_normal_epoch as nat);
        }
        let p = checked_pow2(self.first_normal_epoch);
        self.first_normal_slot == MINIMUM_SLOTS_PER_EPOCH * (p - 1)
    }

    /// The first slot of the given epoch, in wide arithmetic, so that it is
    /// defined even when the slot number would not fit in a `u64`.
    fn first_slot_in_epoch_wide(&self, epoch: u64) -> (r: u128)
        requires
            self.wf(),
        ensures
            r == spec_first_slot_in_epoch(*self, epoch as int),
    {
        if epoch < self.first_normal_epoch {
            proof {
                lemma2_to64_rest();
                vstd::arithmetic::power2::lemma_pow2_pos(epoch as nat);
                lemma_pow2_strictly_increases(epoch as nat, self.first_normal_epoch as nat);
                // The warmup layout equation bounds the first normal epoch,
                // and with it every warmup epoch's start.
                if self.first_normal_epoch > 59 {
                    lemma_pow2_strictly_increases(59, self.first_normal_epoch as nat);
                }
            }
            let p = checked_pow2(epoch);
            (MINIMUM_SLOTS_PER_EPOCH as u128) * ((p - 1) as u128)
        } else {
            proof {
                vstd::arithmetic::mul::lemma_mul_upper_bound(
                    (epoch - self.first_normal_epoch) as int,
                    u64::MAX as int,
                    self.slots_per_epoch as int,
                    u64::MAX as int,
                );
            }
            (self.first_normal_slot as u128)
                + ((epoch - self.first_normal_epoch) as u128) * (self.slots_per_epoch as u128)
        }
    }
}

/// Sum account totals, reporting `None` when a total or the running sum
/// would not fit in a `u64`.
fn checked_stake_total(accounts: &Vec<StakeAccount>) -> (r: Option<u64>)
    ensures
        r matches Some(total) ==> total == seq_stake_total(accounts@)
            && forall|k: int|
                0 <= k < accounts@.len()
                    ==> (#[trigger] accounts@[k]).balance.total_spec() <= u64::MAX,
        r is None ==> !(seq_stake_total(accounts@) <= u64::MAX && forall|k: int|
            0 <= k < accounts@.len()
                ==> (#[trigger] accounts@[k]).balance.total_spec() <= u64::MAX),
{
    let n = accounts.len();
    let mut total: u64 = 0;
    let mut k: usize = 0;
    proof {
        assert(accounts@.take(0) =~= Seq::<StakeAccount>::empty());
    }
    while k < n
        invariant
            0 <= k <= n,
            n == accounts@.len(),
            total == seq_stake_total(accounts@.take(k as int)),
            forall|m: int|
                0 <= m < k ==> (#[trigger] accounts@[m]).balance.total_spec() <= u64::MAX,
        decreases n - k,
    {
        proof {
            lemma_stake_total_prefix(accounts@, k as int);
            lemma_stake_total_prefix(accounts@, k + 1);
        }
        let b = accounts[k].balance;
        let wide: u128 = (b.inactive.0 as u128) + (b.activating.0 as u128) + (b.active.0 as u128)
            + (b.deactivating.0 as u128);
        if wide > u64::MAX as u128 {
            return None;
        }
        let account_total = wide as u64;
        if account_total > u64::MAX - total {
            // The running sum exceeds what a u64 holds, so the full sum
            // does too.
            proof {
                lemma_stake_total_prefix_full_bound(accounts@, k + 1);
            }
            return None;
        }
        total = total + account_total;
        k = k + 1;
    }
    proof {
        assert(accounts@.take(n as int) =~= accounts@);
    }
    Some(total)
}

/// The full sum of account totals is at least any prefix sum.
proof fn lemma_stake_total_prefix_full_bound(accounts: Seq<StakeAccount>, i: int)
    requires
        0 <= i <= accounts.len(),
    ensures
        seq_stake_total(accounts) >= seq_stake_total(accounts.take(i)),
{
    lemma_stake_total_prefix(accounts, i);
}

impl SolidoState {
    /// Whether this snapshot's slice for the validator at position `i` is
    /// well formed; exactly [`SolidoState::validator_entry_wf`].
    #[verifier::loop_isolation(false)]
    fn check_validator_entry(&self, i: usize) -> (r: bool)
        requires
            i < self.validators@.len(),
            self.validators@.len() == self.validator_stake_accounts@.len(),
            self.validators@.len() == self.validator_unstake_accounts@.len(),
        ensures
            r == self.validator_entry_wf(i as int),
    {
        let v = &self.validators[i];
        let stake_accounts: &Vec<StakeAccount> = &self.validator_stake_accounts[i];
        let unstake_accounts: &Vec<StakeAccount> = &self.validator_unstake_accounts[i];

        if v.stake_seeds.begin > v.stake_seeds.end {
            return false;
        }
        if v.unstake_seeds.begin > v.unstake_seeds.end {
            return false;
        }
        if (stake_accounts.len() as u64) != v.stake_seeds.end - v.stake_seeds.begin {
            return false;
        }
        if (unstake_accounts.len() as u64) != v.unstake_seeds.end - v.unstake_seeds.begin {
            return false;
        }
        if v.unstake_accounts_balance.0 > v.stake_accounts_balance.0 {
            return false;
        }

        let mut k: usize = 0;
        let n = stake_accounts.len();
        while k < n
            invariant
                0 <= k <= n,
                n == stake_accounts@.len(),
                n == v.stake_seeds.end - v.stake_seeds.begin,
                forall|m: int|
                    0 <= m < k ==> (#[trigger] stake_accounts@[m]).seed
                        == v.stake_seeds.begin + m,
                forall|m: int|
                    0 <= m < k ==> (#[trigger] stake_accounts@[m]).balance.inactive.0
                        >= self.stake_rent.0,
                forall|m: int|
                    0 <= m < k ==> (#[trigger] stake_accounts@[m]).balance.total_spec()
                        >= MINIMUM_STAKE_ACCOUNT_BALANCE,
            decreases n - k,
        {
            let account = stake_accounts[k];
            if account.seed != v.stake_seeds.begin + (k as u64) {
                return false;
            }
            if account.balance.inactive.0 < self.stake_rent.0 {
                return false;
            }
            let wide: u128 = (account.balance.inactive.0 as u128)
                + (account.balance.activating.0 as u128) + (account.balance.active.0 as u128)
                + (account.balance.deactivating.0 as u128);
            if wide < MINIMUM_STAKE_ACCOUNT_BALANCE as u128 {
                return false;
            }
            k = k + 1;
        }

        let mut k: usize = 0;
        let n = unstake_accounts.len();
        while k < n
            invariant
                0 <= k <= n,
                n == unstake_accounts@.len(),
                n == v.unstake_seeds.end - v.unstake_seeds.begin,
                forall|m: int|
                    0 <= m < k ==> (#[trigger] unstake_accounts@[m]).seed
                        == v.unstake_seeds.begin + m,
            decreases n - k,
        {
            let account = unstake_accounts[k];
            if account.seed != v.unstake_seeds.begin + (k as u64) {
                return false;
            }
            k = k + 1;
        }

        if checked_stake_total(stake_accounts).is_none() {
            return false;
        }
        if checked_stake_total(unstake_accounts).is_none() {
            return false;
        }
        true
    }

    /// Whether this snapshot is well formed; exactly [`SolidoState::wf`].
    /// An unverified snapshot layer calls this once after assembling the
    /// snapshot, and refuses to run maintenance on a snapshot that fails.
    #[verifier::loop_isolation(false)]
    pub fn check_well_formed(&self) -> (r: bool)
        ensures
            r == self.wf(),
    {
        if !self.epoch_schedule.check_well_formed() {
            return false;
        }
        if self.clock.epoch == u64::MAX {
            return false;
        }
        let epoch_start = self.epoch_schedule.first_slot_in_epoch_wide(self.clock.epoch);
        let next_epoch_start = self.epoch_schedule.first_slot_in_epoch_wide(self.clock.epoch + 1);
        if epoch_start > self.clock.slot as u128 {
            return false;
        }
        if (self.clock.slot as u128) >= next_epoch_start {
            return false;
        }
        if next_epoch_start > u64::MAX as u128 {
            return false;
        }

        let n = self.validators.len();
        if self.validator_stake_accounts.len() != n {
            return false;
        }
        if self.validator_unstake_accounts.len() != n {
            return false;
        }
        if self.validator_vote_accounts.len() != n {
            return false;
        }
        if self.validator_perfs.len() != n {
            return false;
        }
        if self.validator_block_production_rates.len() != n {
            return false;
        }
        if self.validator_vote_account_balances.len() != n {
            return false;
        }
        if self.validator_identity_account_balances.len() != n {
            return false;
        }
        if self.validator_infos.len() != n {
            return false;
        }
        if self.maintainer_balances.len() != self.maintainers.len() {
            return false;
        }

        let mut i: usize = 0;
        while i < n
            invariant
                0 <= i <= n,
                n == self.validators@.len(),
                self.validators@.len() == self.validator_stake_accounts@.len(),
                self.validators@.len() == self.validator_unstake_accounts@.len(),
                forall|j: int| 0 <= j < i ==> self.validator_entry_wf(j),
            decreases n - i,
        {
            if !self.check_validator_entry(i) {
                return false;
            }
            i = i + 1;
        }

        // Validator identities must be distinct for list positions to be
        // meaningful.
        let mut i: usize = 0;
        while i < n
            invariant
                0 <= i <= n,
                n == self.validators@.len(),
                forall|a: int, b: int|
                    0 <= a < b < n && a < i
                        ==> (#[trigger] self.validators@[a]).vote_account_address
                            != (#[trigger] self.validators@[b]).vote_account_address,
            decreases n - i,
        {
            let mut j: usize = i + 1;
            while j < n
                invariant
                    0 <= i < j <= n,
                    n == self.validators@.len(),
                    forall|b: int|
                        i < b < j ==> (#[trigger] self.validators@[b]).vote_account_address
                            != self.validators@[i as int].vote_account_address,
                decreases n - j,
            {
                if self.validators[j].vote_account_address
                    == self.validators[i].vote_account_address {
                    return false;
                }
                j = j + 1;
            }
            i = i + 1;
        }

        // The pool total must fit in a u64.
        let mut effective_sum: u64 = 0;
        let mut i: usize = 0;
        proof {
            assert(self.validators@.take(0) =~= Seq::<crate::state::Validator>::empty());
        }
        while i < n
            invariant
                0 <= i <= n,
                n == self.validators@.len(),
                forall|j: int| 0 <= j < n ==> self.validator_entry_wf(j),
                effective_sum == seq_effective_sum(self.validators@.take(i as int)),
            decreases n - i,
        {
            proof {
                assert(self.validator_entry_wf(i as int));
                assert forall|k: int| 0 <= k < self.validators@.len()
                    implies spec_effective_stake_balance(#[trigger] self.validators@[k])
                        >= 0 by {
                    assert(self.validator_entry_wf(k));
                }
                lemma_effective_sum_prefix(self.validators@, i as int);
                lemma_effective_sum_prefix(self.validators@, i + 1);
            }
            let v = &self.validators[i];
            let effective = v.compute_effective_stake_balance().0;
            if effective > u64::MAX - effective_sum {
                return false;
            }
            effective_sum = effective_sum + effective;
            i = i + 1;
        }
        proof {
            assert(self.validators@.take(n as int) =~= self.validators@);
        }
        if self.reserve_account_balance.0 > u64::MAX - effective_sum {
            return false;
        }

        // The duty rotation's slot arithmetic must stay within a u64.
        let duty_budget: u128 = (self.clock.slot as u128)
            + 2 * ((self.maintainers.len() as u128) * (MAINTAINER_DUTY_SLICE_LENGTH as u128));
        if duty_budget > u64::MAX as u128 {
            return false;
        }

        proof {
            assert forall|k: int| 0 <= k < self.validators@.len()
                implies spec_effective_stake_balance(#[trigger] self.validators@[k]) >= 0 by {
                assert(self.validator_entry_wf(k));
            }
        }
        true
    }
}

} // verus!
