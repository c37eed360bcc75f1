//! The maintenance task selector: the ordered chain of independent checks,
//! each of which either produces one corrective action or yields to the
//! next. The engine evaluates them strictly in order and returns the first
//! non-empty result, so every cycle produces at most one action.

use vstd::prelude::*;
use crate::token::Lamports;
use crate::token::Rational;
use crate::token::per64;
use crate::epoch::spec_slots_in_epoch;
use crate::epoch::lemma_slots_in_epoch_bounds;
use crate::balance::get_minimum_stake_validator_index_amount;
use crate::balance::get_target_balance;
use crate::balance::get_unstake_validator_index;
use crate::balance::lemma_active_count_exists;
use crate::balance::seq_active_count;
use crate::balance::spec_excess;
use crate::balance::spec_shortfall;
use crate::balance::spec_target;
use crate::duty::spec_is_maintainer;
use crate::state::MINIMUM_STAKE_ACCOUNT_BALANCE;
use crate::state::Pubkey;
use crate::state::SolidoState;
use crate::state::StakeAccount;
use crate::state::seq_stake_total;
use crate::state::spec_can_be_removed;
use crate::state::spec_effective_stake_balance;
use crate::state::spec_can_merge;
use crate::state::spec_does_perform_well;
use crate::state::does_perform_well;

verus! {

/// The cost of maintenance below which a balance sync is not worth running:
/// roughly one hundred signature fees at the default fee rate, so a
/// withdrawal pays for more than its own transaction.
pub const MINIMUM_WITHDRAW_AMOUNT: u64 = 1_000_000;

/// The most unstake accounts a validator may have live at once.
pub const MAXIMUM_UNSTAKE_ACCOUNTS: u64 = 3;

/// The balance below which the acting maintainer is considered too poorly
/// funded to pay transaction fees, and maintenance is refused outright.
pub const MINIMUM_MAINTAINER_BALANCE: u64 = 100_000_000;

/// A configuration or precondition failure, surfaced before any action is
/// considered.
#[derive(Clone, Copy, PartialEq, Eq, Structural, Debug)]
pub enum MaintenanceError {
    /// The acting maintainer's own account holds less than the funding
    /// floor; submitting anything would fail on fees.
    MaintainerBalanceTooLow {
        maintainer: Pubkey,
        balance: Lamports,
        required: Lamports,
    },
}

/// The addresses and amount identifying one unstake action.
#[derive(Clone, Copy, PartialEq, Eq, Structural, Debug)]
pub struct Unstake {
    pub validator_vote_account: Pubkey,
    pub from_stake_account: Pubkey,
    pub to_unstake_account: Pubkey,
    pub from_stake_seed: u64,
    pub to_unstake_seed: u64,
    pub amount: Lamports,
}

/// A structured description of the one corrective action selected in a
/// maintenance cycle, carrying the identifying addresses and amounts.
#[derive(Clone, Copy, PartialEq, Eq, Structural, Debug)]
pub enum MaintenanceOutput {
    StakeDeposit {
        validator_vote_account: Pubkey,
        stake_account: Pubkey,
        amount: Lamports,
    },
    UpdateExchangeRate,
    UpdateOffchainValidatorPerf {
        validator_vote_account: Pubkey,
        block_production_rate: u64,
        vote_success_rate: u64,
    },
    UpdateOnchainValidatorPerf {
        validator_vote_account: Pubkey,
    },
    UpdateStakeAccountBalance {
        validator_vote_account: Pubkey,
        /// The expected difference that the update will observe. Only
        /// expected, because another transaction might execute between the
        /// snapshot and this action's execution.
        expected_difference_stake: Lamports,
        unstake_withdrawn_to_reserve: Lamports,
    },
    MergeStake {
        validator_vote_account: Pubkey,
        from_stake: Pubkey,
        to_stake: Pubkey,
        from_stake_seed: u64,
        to_stake_seed: u64,
    },
    UnstakeFromInactiveValidator(Unstake),
    DeactivateIfViolates {
        validator_vote_account: Pubkey,
    },
    ReactivateIfComplies {
        validator_vote_account: Pubkey,
    },
    RemoveValidator {
        validator_vote_account: Pubkey,
    },
    UnstakeFromActiveValidator(Unstake),
}

/// Sum over the accounts of the inactive balance beyond the rent-exempt
/// minimum: what a balance sync could sweep back to the reserve.
pub open spec fn seq_withdrawable(accounts: Seq<StakeAccount>, stake_rent: int) -> int
    decreases accounts.len(),
{
    if accounts.len() == 0 {
        0
    } else {
        seq_withdrawable(accounts.drop_last(), stake_rent)
            + (accounts.last().balance.inactive.0 - stake_rent)
    }
}

/// The total balance of the leading run of fully deactivated accounts: what
/// a balance sync would withdraw from the unstake accounts to the reserve.
pub open spec fn seq_removed_unstake(accounts: Seq<StakeAccount>) -> int
    decreases accounts.len(),
{
    if accounts.len() == 0 {
        0
    } else if accounts[0].balance.inactive.0 == accounts[0].balance.total_spec() {
        accounts[0].balance.total_spec()
            + seq_removed_unstake(accounts.subrange(1, accounts.len() as int))
    } else {
        0
    }
}

/// A prefix sum of account totals is non-negative.
proof fn lemma_stake_total_prefix_nonneg(accounts: Seq<StakeAccount>, i: int)
    requires
        0 <= i <= accounts.len(),
    ensures
        seq_stake_total(accounts.take(i)) >= 0,
    decreases i,
{
    if i > 0 {
        assert(accounts.take(i).drop_last() =~= accounts.take(i - 1));
        assert(accounts.take(i).last() == accounts[i - 1]);
        lemma_stake_total_prefix_nonneg(accounts, i - 1);
    }
}

/// Prefix sums of account totals are bounded by the full sum.
pub proof fn lemma_stake_total_prefix(accounts: Seq<StakeAccount>, i: int)
    requires
        0 <= i <= accounts.len(),
    ensures
        0 <= seq_stake_total(accounts.take(i)) <= seq_stake_total(accounts),
        i < accounts.len() ==> seq_stake_total(accounts.take(i + 1))
            == seq_stake_total(accounts.take(i)) + accounts[i].balance.total_spec(),
    decreases accounts.len() - i,
{
    lemma_stake_total_prefix_nonneg(accounts, i);
    if i < accounts.len() {
        assert(accounts.take(i + 1).drop_last() =~= accounts.take(i));
        assert(accounts.take(i + 1).last() == accounts[i]);
        lemma_stake_total_prefix(accounts, i + 1);
    } else {
        assert(accounts.take(i) =~= accounts);
    }
}

/// A prefix of the withdrawable sum is non-negative and bounded by the
/// prefix's total balance, provided every account keeps at least the
/// rent-exempt minimum inactive.
pub proof fn lemma_withdrawable_prefix(accounts: Seq<StakeAccount>, stake_rent: int, i: int)
    requires
        0 <= i <= accounts.len(),
        stake_rent >= 0,
        forall|k: int|
            0 <= k < accounts.len()
                ==> (#[trigger] accounts[k]).balance.inactive.0 >= stake_rent,
    ensures
        0 <= seq_withdrawable(accounts.take(i), stake_rent)
            <= seq_stake_total(accounts.take(i)),
        i < accounts.len() ==> seq_withdrawable(accounts.take(i + 1), stake_rent)
            == seq_withdrawable(accounts.take(i), stake_rent)
                + (accounts[i].balance.inactive.0 - stake_rent),
    decreases i,
{
    if i > 0 {
        assert(accounts.take(i).drop_last() =~= accounts.take(i - 1));
        assert(accounts.take(i).last() == accounts[i - 1]);
        lemma_withdrawable_prefix(accounts, stake_rent, i - 1);
        lemma_stake_total_prefix_nonneg(accounts, i - 1);
    }
    if i < accounts.len() {
        assert(accounts.take(i + 1).drop_last() =~= accounts.take(i));
        assert(accounts.take(i + 1).last() == accounts[i]);
    }
}

impl SolidoState {
    /// The validator at position `i` has two adjacent stake accounts that
    /// the ledger can merge.
    pub open spec fn spec_merge_candidate(&self, i: int) -> bool {
        let sa = self.validator_stake_accounts@[i]@;
        sa.len() > 1 && spec_can_merge(sa[1], sa[0])
    }

    /// The merge action for the validator at position `i`: its earliest
    /// stake account is folded into the one after it.
    pub open spec fn spec_merge_action(&self, i: int) -> MaintenanceOutput {
        let v = self.validators@[i];
        let sa = self.validator_stake_accounts@[i]@;
        MaintenanceOutput::MergeStake {
            validator_vote_account: v.vote_account_address,
            from_stake: sa[0].address,
            to_stake: sa[1].address,
            from_stake_seed: sa[0].seed,
            to_stake_seed: sa[1].seed,
        }
    }

    /// Try to merge the two earliest stake accounts of the first validator
    /// whose accounts allow it. Runs before balance updates so that those
    /// reference as few accounts as possible.
    pub fn try_merge_on_all_stakes(&self) -> (r: Option<MaintenanceOutput>)
        requires
            self.wf(),
        ensures
            r matches Some(out) ==> exists|i: int|
                {
                    &&& 0 <= i < self.validators@.len()
                    &&& #[trigger] self.spec_merge_candidate(i)
                    &&& forall|j: int| 0 <= j < i ==> !self.spec_merge_candidate(j)
                    &&& out == self.spec_merge_action(i)
                },
            r is None ==> forall|i: int|
                0 <= i < self.validators@.len() ==> !(#[trigger] self.spec_merge_candidate(i)),
    {
        let n = self.validators.len();
        let mut i: usize = 0;
        while i < n
            invariant
                0 <= i <= n,
                n == self.validators@.len(),
                self.wf(),
                forall|j: int| 0 <= j < i ==> !(#[trigger] self.spec_merge_candidate(j)),
            decreases n - i,
        {
            let stake_accounts: &Vec<StakeAccount> = &self.validator_stake_accounts[i];
            if stake_accounts.len() > 1 {
                let from_stake = stake_accounts[0];
                let to_stake = stake_accounts[1];
                if to_stake.can_merge(&from_stake) {
                    let v = &self.validators[i];
                    let out = MaintenanceOutput::MergeStake {
                        validator_vote_account: v.vote_account_address,
                        from_stake: from_stake.address,
                        to_stake: to_stake.address,
                        from_stake_seed: from_stake.seed,
                        to_stake_seed: to_stake.seed,
                    };
                    proof {
                        assert(self.spec_merge_candidate(i as int));
                        assert(out == self.spec_merge_action(i as int));
                    }
                    return Some(out);
                }
            }
            i = i + 1;
        }
        None
    }

    /// If a new epoch has started and the share price has not been updated
    /// in it yet, update it. Must precede the steps that the ledger would
    /// reject under a stale exchange rate.
    pub fn try_update_exchange_rate(&self) -> (r: Option<MaintenanceOutput>)
        ensures
            r is Some <==> self.exchange_rate.computed_in_epoch < self.clock.epoch,
            r matches Some(out) ==> out == MaintenanceOutput::UpdateExchangeRate,
    {
        if self.exchange_rate.computed_in_epoch >= self.clock.epoch {
            // The exchange rate has already been updated in this epoch.
            return None;
        }
        Some(MaintenanceOutput::UpdateExchangeRate)
    }

    /// The validator at position `i` is active but violates the policy: its
    /// vote account is closed, or its live commission or recorded
    /// performance fails the criteria.
    pub open spec fn spec_deactivate_candidate(&self, i: int) -> bool {
        &&& self.validators@[i].active
        &&& match self.validator_vote_accounts@[i] {
            Option::None => true,
            Option::Some(vote_state) => !spec_does_perform_well(
                self.criteria,
                vote_state.commission,
                self.validator_perfs@[i],
            ),
        }
    }

    /// The deactivation action for the validator at position `i`.
    pub open spec fn spec_deactivate_action(&self, i: int) -> MaintenanceOutput {
        MaintenanceOutput::DeactivateIfViolates {
            validator_vote_account: self.validators@[i].vote_account_address,
        }
    }

    /// Deactivate the first active validator whose vote account is closed or
    /// which fails the performance policy.
    pub fn try_deactivate_if_violates(&self) -> (r: Option<MaintenanceOutput>)
        requires
            self.wf(),
        ensures
            r matches Some(out) ==> exists|i: int|
                {
                    &&& 0 <= i < self.validators@.len()
                    &&& #[trigger] self.spec_deactivate_candidate(i)
                    &&& forall|j: int| 0 <= j < i ==> !self.spec_deactivate_candidate(j)
                    &&& out == self.spec_deactivate_action(i)
                },
            r is None ==> forall|i: int|
                0 <= i < self.validators@.len()
                    ==> !(#[trigger] self.spec_deactivate_candidate(i)),
    {
        let n = self.validators.len();
        let mut i: usize = 0;
        while i < n
            invariant
                0 <= i <= n,
                n == self.validators@.len(),
                self.wf(),
                forall|j: int| 0 <= j < i ==> !(#[trigger] self.spec_deactivate_candidate(j)),
            decreases n - i,
        {
            let v = &self.validators[i];
            if v.is_active() {
                let violates: bool = match self.validator_vote_accounts[i] {
                    Option::None => {
                        // A closed vote account always violates the policy.
                        true
                    },
                    Option::Some(vote_state) => !does_perform_well(
                        &self.criteria,
                        vote_state.commission,
                        self.validator_perfs[i],
                    ),
                };
                if violates {
                    let out = MaintenanceOutput::DeactivateIfViolates {
                        validator_vote_account: v.vote_account_address,
                    };
                    proof {
                        assert(self.spec_deactivate_candidate(i as int));
                    }
                    return Some(out);
                }
            }
            i = i + 1;
        }
        None
    }

    /// The validator at position `i` is inactive but its live vote account
    /// now satisfies the policy again.
    pub open spec fn spec_reactivate_candidate(&self, i: int) -> bool {
        &&& !self.validators@[i].active
        &&& match self.validator_vote_accounts@[i] {
            Option::None => false,
            Option::Some(vote_state) => spec_does_perform_well(
                self.criteria,
                vote_state.commission,
                self.validator_perfs@[i],
            ),
        }
    }

    /// The reactivation action for the validator at position `i`.
    pub open spec fn spec_reactivate_action(&self, i: int) -> MaintenanceOutput {
        MaintenanceOutput::ReactivateIfComplies {
            validator_vote_account: self.validators@[i].vote_account_address,
        }
    }

    /// Near the end of the epoch, reactivate the first inactive validator
    /// that satisfies the policy again.
    pub fn try_reactivate_if_complies(&self) -> (r: Option<MaintenanceOutput>)
        requires
            self.wf(),
        ensures
            !self.spec_is_at_epoch_end() ==> r is None,
            r matches Some(out) ==> self.spec_is_at_epoch_end() && exists|i: int|
                {
                    &&& 0 <= i < self.validators@.len()
                    &&& #[trigger] self.spec_reactivate_candidate(i)
                    &&& forall|j: int| 0 <= j < i ==> !self.spec_reactivate_candidate(j)
                    &&& out == self.spec_reactivate_action(i)
                },
            r is None && self.spec_is_at_epoch_end() ==> forall|i: int|
                0 <= i < self.validators@.len()
                    ==> !(#[trigger] self.spec_reactivate_candidate(i)),
    {
        if !self.is_at_epoch_end() {
            // We only try to reactivate near the end of the epoch.
            return None;
        }

        let n = self.validators.len();
        let mut i: usize = 0;
        while i < n
            invariant
                0 <= i <= n,
                n == self.validators@.len(),
                self.wf(),
                self.spec_is_at_epoch_end(),
                forall|j: int| 0 <= j < i ==> !(#[trigger] self.spec_reactivate_candidate(j)),
            decreases n - i,
        {
            let v = &self.validators[i];
            if v.is_inactive() {
                let complies: bool = match self.validator_vote_accounts[i] {
                    Option::None => {
                        // A closed vote account cannot be reactivated.
                        false
                    },
                    Option::Some(vote_state) => does_perform_well(
                        &self.criteria,
                        vote_state.commission,
                        self.validator_perfs[i],
                    ),
                };
                if complies {
                    let out = MaintenanceOutput::ReactivateIfComplies {
                        validator_vote_account: v.vote_account_address,
                    };
                    proof {
                        assert(self.spec_reactivate_candidate(i as int));
                    }
                    return Some(out);
                }
            }
            i = i + 1;
        }
        None
    }

    /// The validator at position `i` is inactive, still holds a stake
    /// account, and has room for another unstake account.
    pub open spec fn spec_unstake_inactive_candidate(&self, i: int) -> bool {
        let v = self.validators@[i];
        &&& !v.active
        &&& v.unstake_seeds.end - v.unstake_seeds.begin < MAXIMUM_UNSTAKE_ACCOUNTS
        &&& self.validator_stake_accounts@[i]@.len() > 0
    }

    /// The unstake action for the inactive validator at position `i`: its
    /// earliest stake account is drained in full into a fresh unstake
    /// account.
    pub open spec fn spec_unstake_inactive_action(&self, i: int) -> MaintenanceOutput {
        let v = self.validators@[i];
        let account = self.validator_stake_accounts@[i]@[0];
        MaintenanceOutput::UnstakeFromInactiveValidator(Unstake {
            validator_vote_account: v.vote_account_address,
            from_stake_account: account.address,
            to_unstake_account: v.next_unstake_account_address,
            from_stake_seed: v.stake_seeds.begin,
            to_unstake_seed: v.unstake_seeds.end,
            amount: Lamports(account.balance.total_spec() as u64),
        })
    }

    /// If a validator is being deactivated, unstake its funds, starting with
    /// its earliest stake account. Requires the acting maintainer to be a
    /// member of the maintainer list, since the action is submitted under
    /// its list position.
    pub fn try_unstake_from_inactive_validator(&self) -> (r: Option<MaintenanceOutput>)
        requires
            self.wf(),
        ensures
            r matches Some(out) ==> spec_is_maintainer(
                self.maintainers@,
                self.maintainer_address,
            ) && exists|i: int|
                {
                    &&& 0 <= i < self.validators@.len()
                    &&& #[trigger] self.spec_unstake_inactive_candidate(i)
                    &&& forall|j: int| 0 <= j < i ==> !self.spec_unstake_inactive_candidate(j)
                    &&& out == self.spec_unstake_inactive_action(i)
                },
            r is None ==> (forall|i: int|
                0 <= i < self.validators@.len()
                    ==> !(#[trigger] self.spec_unstake_inactive_candidate(i)))
                || !spec_is_maintainer(self.maintainers@, self.maintainer_address),
    {
        let n = self.validators.len();
        let mut i: usize = 0;
        while i < n
            invariant
                0 <= i <= n,
                n == self.validators@.len(),
                self.wf(),
                forall|j: int|
                    0 <= j < i ==> !(#[trigger] self.spec_unstake_inactive_candidate(j)),
            decreases n - i,
        {
            proof {
                assert(self.validator_entry_wf(i as int));
            }
            let v = &self.validators[i];
            let stake_accounts: &Vec<StakeAccount> = &self.validator_stake_accounts[i];
            // Only inactive validators that still have stake accounts, and
            // that have room for one more unstake account, are of interest.
            if v.is_inactive()
                && v.unstake_seeds.end - v.unstake_seeds.begin < MAXIMUM_UNSTAKE_ACCOUNTS
                && stake_accounts.len() > 0 {
                if !self.is_maintainer_member() {
                    return None;
                }
                let account = stake_accounts[0];
                let out = MaintenanceOutput::UnstakeFromInactiveValidator(Unstake {
                    validator_vote_account: v.vote_account_address,
                    from_stake_account: account.address,
                    to_unstake_account: v.next_unstake_account_address,
                    from_stake_seed: v.stake_seeds.begin,
                    to_unstake_seed: v.unstake_seeds.end,
                    amount: account.balance.total(),
                });
                proof {
                    assert(self.spec_unstake_inactive_candidate(i as int));
                    assert(out == self.spec_unstake_inactive_action(i as int));
                }
                return Some(out);
            }
            i = i + 1;
        }
        None
    }

    /// The position of the first maintainer-list entry whose key is the
    /// acting maintainer, if any.
    fn first_matching_maintainer_index(&self) -> (r: Option<usize>)
        ensures
            r matches Some(i) ==> 0 <= i < self.maintainers@.len()
                && self.maintainers@[i as int].pubkey == self.maintainer_address
                && forall|j: int|
                    0 <= j < i ==> self.maintainers@[j].pubkey != self.maintainer_address,
            r is None ==> forall|j: int|
                0 <= j < self.maintainers@.len()
                    ==> self.maintainers@[j].pubkey != self.maintainer_address,
    {
        let n = self.maintainers.len();
        let mut i: usize = 0;
        while i < n
            invariant
                0 <= i <= n,
                n == self.maintainers@.len(),
                forall|j: int|
                    0 <= j < i ==> self.maintainers@[j].pubkey != self.maintainer_address,
            decreases n - i,
        {
            if self.maintainers[i].pubkey == self.maintainer_address {
                return Some(i);
            }
            i = i + 1;
        }
        None
    }

    /// Whether the acting maintainer is a member of the maintainer list.
    pub fn is_maintainer_member(&self) -> (r: bool)
        ensures
            r == spec_is_maintainer(self.maintainers@, self.maintainer_address),
    {
        let n = self.maintainers.len();
        let mut i: usize = 0;
        while i < n
            invariant
                0 <= i <= n,
                n == self.maintainers@.len(),
                forall|j: int|
                    0 <= j < i ==> self.maintainers@[j].pubkey != self.maintainer_address,
            decreases n - i,
        {
            if self.maintainers[i].pubkey == self.maintainer_address {
                proof {
                    assert(self.maintainers@[i as int].pubkey == self.maintainer_address);
                }
                return true;
            }
            i = i + 1;
        }
        false
    }

    /// The recorded commission of the validator at position `i` should be
    /// overwritten from its live vote account: either the record is stale
    /// (behind the current epoch, and the epoch is ending), or the live
    /// commission now exceeds both the policy maximum and the recorded value
    /// — an early bad-actor signal that is deliberately not tied to epoch
    /// timing.
    pub open spec fn spec_onchain_perf_candidate(&self, i: int) -> bool {
        match self.validator_vote_accounts@[i] {
            Option::None => false,
            Option::Some(vote_state) => {
                let expired = (match self.validator_perfs@[i] {
                    Option::None => true,
                    Option::Some(p) => p.commission_updated_at < self.clock.epoch,
                }) && self.spec_is_at_epoch_end();
                let exceeds_max = match self.validator_perfs@[i] {
                    Option::None => false,
                    Option::Some(p) => vote_state.commission > self.criteria.max_commission
                        && vote_state.commission > p.commission,
                };
                expired || exceeds_max
            },
        }
    }

    /// The on-ledger performance update action for position `i`.
    pub open spec fn spec_onchain_perf_action(&self, i: int) -> MaintenanceOutput {
        MaintenanceOutput::UpdateOnchainValidatorPerf {
            validator_vote_account: self.validators@[i].vote_account_address,
        }
    }

    /// Record the live commission of the first validator whose stored
    /// commission is stale or beaten by a live value over the policy
    /// maximum.
    fn do_update_onchain_validator_perfs(&self) -> (r: Option<MaintenanceOutput>)
        requires
            self.wf(),
        ensures
            r matches Some(out) ==> exists|i: int|
                {
                    &&& 0 <= i < self.validators@.len()
                    &&& #[trigger] self.spec_onchain_perf_candidate(i)
                    &&& forall|j: int| 0 <= j < i ==> !self.spec_onchain_perf_candidate(j)
                    &&& out == self.spec_onchain_perf_action(i)
                },
            r is None ==> forall|i: int|
                0 <= i < self.validators@.len()
                    ==> !(#[trigger] self.spec_onchain_perf_candidate(i)),
    {
        let at_epoch_end = self.is_at_epoch_end();
        let n = self.validators.len();
        let mut i: usize = 0;
        while i < n
            invariant
                0 <= i <= n,
                n == self.validators@.len(),
                self.wf(),
                at_epoch_end == self.spec_is_at_epoch_end(),
                forall|j: int|
                    0 <= j < i ==> !(#[trigger] self.spec_onchain_perf_candidate(j)),
            decreases n - i,
        {
            match self.validator_vote_accounts[i] {
                Option::None => {
                    // A closed vote account is handled by deactivation, not
                    // by recording performance.
                },
                Option::Some(vote_state) => {
                    let expired: bool = (match self.validator_perfs[i] {
                        Option::None => true,
                        Option::Some(p) => p.commission_updated_at < self.clock.epoch,
                    }) && at_epoch_end;
                    let exceeds_max: bool = match self.validator_perfs[i] {
                        Option::None => false,
                        Option::Some(p) => vote_state.commission > self.criteria.max_commission
                            && vote_state.commission > p.commission,
                    };
                    if expired || exceeds_max {
                        let out = MaintenanceOutput::UpdateOnchainValidatorPerf {
                            validator_vote_account: self.validators[i].vote_account_address,
                        };
                        proof {
                            assert(self.spec_onchain_perf_candidate(i as int));
                        }
                        return Some(out);
                    }
                },
            }
            i = i + 1;
        }
        None
    }

    /// The off-ledger part of the performance record of the validator at
    /// position `i` is missing or stale for the current epoch, and its vote
    /// account is live.
    pub open spec fn spec_offchain_perf_candidate(&self, i: int) -> bool {
        let should_update = match self.validator_perfs@[i] {
            Option::None => true,
            Option::Some(p) => match p.rest {
                Option::None => true,
                Option::Some(rest) => self.clock.epoch > rest.updated_at,
            },
        };
        should_update && self.validator_vote_accounts@[i] is Some
    }

    /// The vote success rate reported for position `i`: vote credits earned,
    /// capped at the slots in the current epoch, over the slots in the
    /// current epoch, scaled so that `u64::MAX` stands for 1.0.
    pub open spec fn spec_vote_success_rate(&self, i: int) -> int {
        let slots_per_epoch = spec_slots_in_epoch(self.epoch_schedule, self.clock.epoch as int);
        match self.validator_vote_accounts@[i] {
            Option::None => 0,
            Option::Some(vote_state) => {
                let capped = if vote_state.credits < slots_per_epoch {
                    vote_state.credits as int
                } else {
                    slots_per_epoch
                };
                capped * u64::MAX / slots_per_epoch
            },
        }
    }

    /// The off-ledger performance update action for position `i`. A missing
    /// block production rate is reported as the worst possible sentinel.
    pub open spec fn spec_offchain_perf_action(&self, i: int) -> MaintenanceOutput {
        MaintenanceOutput::UpdateOffchainValidatorPerf {
            validator_vote_account: self.validators@[i].vote_account_address,
            block_production_rate: match self.validator_block_production_rates@[i] {
                Option::None => u64::MAX,
                Option::Some(rate) => rate,
            },
            vote_success_rate: self.spec_vote_success_rate(i) as u64,
        }
    }

    /// Near the end of the epoch, report the off-ledger performance of the
    /// first validator whose record is missing or stale for this epoch.
    fn do_update_offchain_validator_perfs(&self) -> (r: Option<MaintenanceOutput>)
        requires
            self.wf(),
        ensures
            !self.spec_is_at_epoch_end() ==> r is None,
            r matches Some(out) ==> self.spec_is_at_epoch_end() && exists|i: int|
                {
                    &&& 0 <= i < self.validators@.len()
                    &&& #[trigger] self.spec_offchain_perf_candidate(i)
                    &&& forall|j: int| 0 <= j < i ==> !self.spec_offchain_perf_candidate(j)
                    &&& out == self.spec_offchain_perf_action(i)
                },
            r is None && self.spec_is_at_epoch_end() ==> forall|i: int|
                0 <= i < self.validators@.len()
                    ==> !(#[trigger] self.spec_offchain_perf_candidate(i)),
    {
        if !self.is_at_epoch_end() {
            // The off-ledger part is only refreshed near the end of the
            // epoch; this is asymmetric with the commission check above by
            // design.
            return None;
        }

        let n = self.validators.len();
        let mut i: usize = 0;
        while i < n
            invariant
                0 <= i <= n,
                n == self.validators@.len(),
                self.wf(),
                self.spec_is_at_epoch_end(),
                forall|j: int|
                    0 <= j < i ==> !(#[trigger] self.spec_offchain_perf_candidate(j)),
            decreases n - i,
        {
            let should_update: bool = match self.validator_perfs[i] {
                Option::None => true,
                Option::Some(p) => match p.rest {
                    Option::None => true,
                    Option::Some(rest) => self.clock.epoch > rest.updated_at,
                },
            };
            if should_update {
                match self.validator_vote_accounts[i] {
                    Option::None => {
                        // A closed vote account is handled by deactivation.
                    },
                    Option::Some(vote_state) => {
                        let block_production_rate: u64 =
                            match self.validator_block_production_rates[i] {
                                Option::None => u64::MAX,
                                Option::Some(rate) => rate,
                            };
                        proof {
                            lemma_slots_in_epoch_bounds(
                                self.epoch_schedule,
                                self.clock.epoch as int,
                            );
                        }
                        let slots_per_epoch =
                            self.epoch_schedule.get_slots_in_epoch(self.clock.epoch);
                        let capped_credits: u64 = if vote_state.credits < slots_per_epoch {
                            vote_state.credits
                        } else {
                            slots_per_epoch
                        };
                        let vote_success_rate = per64(capped_credits, slots_per_epoch);
                        let out = MaintenanceOutput::UpdateOffchainValidatorPerf {
                            validator_vote_account: self.validators[i].vote_account_address,
                            block_production_rate,
                            vote_success_rate,
                        };
                        proof {
                            assert(self.spec_offchain_perf_candidate(i as int));
                            assert(out == self.spec_offchain_perf_action(i as int));
                        }
                        return Some(out);
                    },
                }
            }
            i = i + 1;
        }
        None
    }

    /// Tell the ledger how well the validators are performing: first the
    /// on-ledger commission records, then, near the epoch's end, the
    /// off-ledger rates.
    pub fn try_update_validator_perfs(&self) -> (r: Option<MaintenanceOutput>)
        requires
            self.wf(),
        ensures
            r matches Some(out) ==> ({
                ||| exists|i: int|
                    {
                        &&& 0 <= i < self.validators@.len()
                        &&& #[trigger] self.spec_onchain_perf_candidate(i)
                        &&& forall|j: int| 0 <= j < i ==> !self.spec_onchain_perf_candidate(j)
                        &&& out == self.spec_onchain_perf_action(i)
                    }
                ||| ((forall|i: int|
                    0 <= i < self.validators@.len()
                        ==> !(#[trigger] self.spec_onchain_perf_candidate(i)))
                    && self.spec_is_at_epoch_end() && exists|i: int|
                    {
                        &&& 0 <= i < self.validators@.len()
                        &&& #[trigger] self.spec_offchain_perf_candidate(i)
                        &&& forall|j: int| 0 <= j < i ==> !self.spec_offchain_perf_candidate(j)
                        &&& out == self.spec_offchain_perf_action(i)
                    })
            }),
            r is None ==> (forall|i: int|
                0 <= i < self.validators@.len()
                    ==> !(#[trigger] self.spec_onchain_perf_candidate(i)))
                && (!self.spec_is_at_epoch_end() || forall|i: int|
                    0 <= i < self.validators@.len()
                        ==> !(#[trigger] self.spec_offchain_perf_candidate(i))),
    {
        let onchain = self.do_update_onchain_validator_perfs();
        match onchain {
            Option::Some(out) => Some(out),
            Option::None => self.do_update_offchain_validator_perfs(),
        }
    }

    /// The sum of the observed balances of the stake accounts of the
    /// validator at position `i`.
    pub open spec fn spec_total_stake_balance(&self, i: int) -> int {
        seq_stake_total(self.validator_stake_accounts@[i]@)
    }

    /// What could be withdrawn from the stake accounts of the validator at
    /// position `i` as fully inactive balance beyond rent.
    pub open spec fn spec_withdrawable_stake(&self, i: int) -> int {
        seq_withdrawable(self.validator_stake_accounts@[i]@, self.stake_rent.0 as int)
    }

    /// The balance difference a sync of validator `i` is expected to
    /// observe: growth of the observed total over the recorded balance
    /// (rewards or donations), or else what is withdrawable as inactive
    /// stake.
    pub open spec fn spec_expected_difference_stake(&self, i: int) -> int {
        let effective = spec_effective_stake_balance(self.validators@[i]);
        if self.spec_total_stake_balance(i) > effective {
            self.spec_total_stake_balance(i) - effective
        } else {
            self.spec_withdrawable_stake(i)
        }
    }

    /// What a sync of validator `i` would sweep from fully deactivated
    /// unstake accounts back to the reserve.
    pub open spec fn spec_removed_unstake(&self, i: int) -> int {
        seq_removed_unstake(self.validator_unstake_accounts@[i]@)
    }

    /// A balance sync of validator `i` is worth its fees: the expected
    /// difference exceeds the minimum withdraw amount, or an unstake account
    /// has fully deactivated and can be swept.
    pub open spec fn spec_balance_sync_candidate(&self, i: int) -> bool {
        self.spec_expected_difference_stake(i) > MINIMUM_WITHDRAW_AMOUNT
            || self.spec_removed_unstake(i) > 0
    }

    /// The balance-sync action for the validator at position `i`.
    pub open spec fn spec_balance_sync_action(&self, i: int) -> MaintenanceOutput {
        MaintenanceOutput::UpdateStakeAccountBalance {
            validator_vote_account: self.validators@[i].vote_account_address,
            expected_difference_stake: Lamports(self.spec_expected_difference_stake(i) as u64),
            unstake_withdrawn_to_reserve: Lamports(self.spec_removed_unstake(i) as u64),
        }
    }

    /// Check whether any validator's recorded balance is outdated, and if
    /// so, sync it. Merging stakes generates inactive stake that this sweeps
    /// back, and donations or rewards are claimed to the reserve the same
    /// way. Skipped when the difference is below the minimum worth
    /// withdrawing and no unstake account can be swept, so fees are never
    /// paid for less than their own worth.
    pub fn try_update_stake_account_balance(&self) -> (r: Option<MaintenanceOutput>)
        requires
            self.wf(),
        ensures
            r matches Some(out) ==> exists|i: int|
                {
                    &&& 0 <= i < self.validators@.len()
                    &&& #[trigger] self.spec_balance_sync_candidate(i)
                    &&& forall|j: int| 0 <= j < i ==> !self.spec_balance_sync_candidate(j)
                    &&& out == self.spec_balance_sync_action(i)
                },
            r is None ==> forall|i: int|
                0 <= i < self.validators@.len()
                    ==> !(#[trigger] self.spec_balance_sync_candidate(i)),
    {
        let n = self.validators.len();
        let mut i: usize = 0;
        while i < n
            invariant
                0 <= i <= n,
                n == self.validators@.len(),
                self.wf(),
                forall|j: int|
                    0 <= j < i ==> !(#[trigger] self.spec_balance_sync_candidate(j)),
            decreases n - i,
        {
            proof {
                assert(self.validator_entry_wf(i as int));
            }
            let v = &self.validators[i];
            let stake_accounts: &Vec<StakeAccount> = &self.validator_stake_accounts[i];
            let unstake_accounts: &Vec<StakeAccount> = &self.validator_unstake_accounts[i];

            // Total observed stake, and the part of it that is inactive
            // beyond rent. A merge leaves inactive stake behind without
            // changing the total; a donation or reward raises the total.
            let mut total_stake_balance: u64 = 0;
            let mut can_be_withdrawn: u64 = 0;
            let mut k: usize = 0;
            proof {
                assert(stake_accounts@.take(0) =~= Seq::<StakeAccount>::empty());
            }
            while k < stake_accounts.len()
                invariant
                    0 <= k <= stake_accounts@.len(),
                    self.stake_rent.0 >= 0,
                    forall|m: int|
                        0 <= m < stake_accounts@.len()
                            ==> (#[trigger] stake_accounts@[m]).balance.total_spec()
                                <= u64::MAX,
                    forall|m: int|
                        0 <= m < stake_accounts@.len()
                            ==> (#[trigger] stake_accounts@[m]).balance.inactive.0
                                >= self.stake_rent.0,
                    seq_stake_total(stake_accounts@) <= u64::MAX,
                    total_stake_balance == seq_stake_total(stake_accounts@.take(k as int)),
                    can_be_withdrawn == seq_withdrawable(
                        stake_accounts@.take(k as int),
                        self.stake_rent.0 as int,
                    ),
                decreases stake_accounts@.len() - k,
            {
                proof {
                    lemma_stake_total_prefix(stake_accounts@, k as int);
                    lemma_withdrawable_prefix(
                        stake_accounts@,
                        self.stake_rent.0 as int,
                        k as int,
                    );
                    lemma_stake_total_prefix(stake_accounts@, k + 1);
                    lemma_withdrawable_prefix(
                        stake_accounts@,
                        self.stake_rent.0 as int,
                        k + 1,
                    );
                }
                let detail = stake_accounts[k];
                total_stake_balance = total_stake_balance + detail.balance.total().0;
                can_be_withdrawn = can_be_withdrawn
                    + (detail.balance.inactive.0 - self.stake_rent.0);
                k = k + 1;
            }
            proof {
                assert(stake_accounts@.take(stake_accounts@.len() as int) =~= stake_accounts@);
            }

            let effective = v.compute_effective_stake_balance().0;
            let expected_difference_stake: u64 = if total_stake_balance > effective {
                total_stake_balance - effective
            } else {
                can_be_withdrawn
            };

            // Sum the leading run of fully deactivated unstake accounts;
            // later accounts are still draining and cannot be swept yet.
            let mut removed_unstake: u64 = 0;
            let mut k: usize = 0;
            let mut blocked: bool = false;
            proof {
                assert(unstake_accounts@.take(0) =~= Seq::<StakeAccount>::empty());
                assert(unstake_accounts@.skip(0) =~= unstake_accounts@);
            }
            while k < unstake_accounts.len() && !blocked
                invariant
                    0 <= k <= unstake_accounts@.len(),
                    forall|m: int|
                        0 <= m < unstake_accounts@.len()
                            ==> (#[trigger] unstake_accounts@[m]).balance.total_spec()
                                <= u64::MAX,
                    seq_stake_total(unstake_accounts@) <= u64::MAX,
                    removed_unstake == seq_stake_total(unstake_accounts@.take(k as int)),
                    !blocked ==> seq_removed_unstake(unstake_accounts@)
                        == removed_unstake
                            + seq_removed_unstake(unstake_accounts@.skip(k as int)),
                    blocked ==> seq_removed_unstake(unstake_accounts@) == removed_unstake,
                decreases unstake_accounts@.len() - k + (if blocked { 0int } else { 1int }),
            {
                let detail = unstake_accounts[k];
                let total = detail.balance.total();
                if detail.balance.inactive.0 != total.0 {
                    blocked = true;
                } else {
                    proof {
                        lemma_stake_total_prefix(unstake_accounts@, k as int);
                        lemma_stake_total_prefix(unstake_accounts@, k + 1);
                        assert(unstake_accounts@.skip(k as int)[0] == unstake_accounts@[k as int]);
                        assert(unstake_accounts@.skip(k as int).subrange(
                            1,
                            unstake_accounts@.skip(k as int).len() as int,
                        ) =~= unstake_accounts@.skip(k + 1));
                    }
                    removed_unstake = removed_unstake + total.0;
                    k = k + 1;
                }
            }
            proof {
                if k == unstake_accounts@.len() && !blocked {
                    assert(unstake_accounts@.skip(k as int) =~= Seq::<StakeAccount>::empty());
                }
            }

            if expected_difference_stake > MINIMUM_WITHDRAW_AMOUNT || removed_unstake > 0 {
                let out = MaintenanceOutput::UpdateStakeAccountBalance {
                    validator_vote_account: v.vote_account_address,
                    expected_difference_stake: Lamports(expected_difference_stake),
                    unstake_withdrawn_to_reserve: Lamports(removed_unstake),
                };
                proof {
                    assert(self.spec_balance_sync_candidate(i as int));
                    assert(out == self.spec_balance_sync_action(i as int));
                }
                return Some(out);
            }
            i = i + 1;
        }
        None
    }

    /// How far the validator at position `i` is below its target balance,
    /// with targets computed from the spendable reserve.
    pub open spec fn spec_deposit_shortfall(&self, i: int) -> int {
        let target = spec_target(self.validators@, self.spec_effective_reserve(), i);
        let effective = spec_effective_stake_balance(self.validators@[i]);
        if !self.validators@[i].active {
            0
        } else if target > effective {
            target - effective
        } else {
            0
        }
    }

    /// `i` is the first position among the active validators that is
    /// furthest below its target: the validator a deposit goes to.
    pub open spec fn spec_is_deposit_target_index(&self, i: int) -> bool {
        &&& 0 <= i < self.validators@.len()
        &&& self.validators@[i].active
        &&& forall|j: int|
            0 <= j < self.validators@.len() && (#[trigger] self.validators@[j]).active
                ==> self.spec_deposit_shortfall(j) <= self.spec_deposit_shortfall(i)
        &&& forall|j: int|
            0 <= j < i && (#[trigger] self.validators@[j]).active
                ==> self.spec_deposit_shortfall(j) < self.spec_deposit_shortfall(i)
    }

    /// The amount a deposit to the validator at position `i` would stake:
    /// its shortfall, capped at the spendable reserve, but floored at the
    /// minimum stake-account balance — overshooting the target temporarily
    /// beats waiting for the reserve to cover every validator's minimum.
    pub open spec fn spec_deposit_amount(&self, i: int) -> int {
        let capped = if self.spec_deposit_shortfall(i) < self.spec_effective_reserve() {
            self.spec_deposit_shortfall(i)
        } else {
            self.spec_effective_reserve()
        };
        if capped < MINIMUM_STAKE_ACCOUNT_BALANCE {
            MINIMUM_STAKE_ACCOUNT_BALANCE as int
        } else {
            capped
        }
    }

    /// The deposit action for the validator at position `i`. When the
    /// validator's newest stake account began activating in the current
    /// epoch, the deposit goes through a temporary account that is merged
    /// into it; otherwise a fresh stake account is appended.
    pub open spec fn spec_stake_deposit_action(&self, i: int) -> MaintenanceOutput {
        let v = self.validators@[i];
        let sa = self.validator_stake_accounts@[i]@;
        let merges = sa.len() > 0 && sa.last().activation_epoch == self.clock.epoch;
        MaintenanceOutput::StakeDeposit {
            validator_vote_account: v.vote_account_address,
            stake_account: if merges {
                v.next_temporary_stake_account_address
            } else {
                v.next_stake_account_address
            },
            amount: Lamports(self.spec_deposit_amount(i) as u64),
        }
    }

    /// The deposit target position is unique.
    pub proof fn lemma_deposit_target_index_unique(&self, i1: int, i2: int)
        requires
            self.spec_is_deposit_target_index(i1),
            self.spec_is_deposit_target_index(i2),
        ensures
            i1 == i2,
    {
        if i1 < i2 {
            assert(self.spec_deposit_shortfall(i1) < self.spec_deposit_shortfall(i2));
            assert(self.spec_deposit_shortfall(i2) <= self.spec_deposit_shortfall(i1));
        } else if i2 < i1 {
            assert(self.spec_deposit_shortfall(i2) < self.spec_deposit_shortfall(i1));
            assert(self.spec_deposit_shortfall(i1) <= self.spec_deposit_shortfall(i2));
        }
    }

    /// If there is a deposit in the reserve that can be staked, stake it
    /// with the validator furthest below its target. Gated on the staking
    /// timing policy; produces nothing when even the minimum stake-account
    /// balance exceeds the spendable reserve.
    pub fn try_stake_deposit(&self) -> (r: Option<MaintenanceOutput>)
        requires
            self.wf(),
        ensures
            r matches Some(out) ==> ({
                &&& self.spec_should_stake_unstake()
                &&& seq_active_count(self.validators@) > 0
                &&& spec_is_maintainer(self.maintainers@, self.maintainer_address)
                &&& exists|i: int|
                    {
                        &&& #[trigger] self.spec_is_deposit_target_index(i)
                        &&& self.spec_deposit_amount(i) <= self.spec_effective_reserve()
                        &&& out == self.spec_stake_deposit_action(i)
                    }
            }),
            r is None ==> ({
                ||| !self.spec_should_stake_unstake()
                ||| seq_active_count(self.validators@) == 0
                ||| !spec_is_maintainer(self.maintainers@, self.maintainer_address)
                ||| forall|i: int|
                    #[trigger] self.spec_is_deposit_target_index(i)
                        ==> self.spec_deposit_amount(i) > self.spec_effective_reserve()
            }),
            // A selected deposit is never below the minimum stake-account
            // balance, and never more than the spendable reserve.
            r matches Some(out) ==> (out matches MaintenanceOutput::StakeDeposit { amount, .. }
                && MINIMUM_STAKE_ACCOUNT_BALANCE <= amount.0
                && amount.0 <= self.spec_effective_reserve()),
    {
        if self.confirm_should_stake_unstake_in_current_slot().is_none() {
            return None;
        }
        // Staking needs an active validator to stake with.
        if !self.has_active_validator() {
            proof {
                lemma_active_count_exists(self.validators@);
            }
            return None;
        }
        proof {
            lemma_active_count_exists(self.validators@);
        }

        let reserve_balance = self.get_effective_reserve();

        // To keep the pool balanced, deposit to the validator furthest
        // below its target balance. There is at least one active validator,
        // so computing the targets cannot fail.
        let targets = match get_target_balance(reserve_balance, &self.validators) {
            Result::Ok(targets) => targets,
            Result::Err(_) => {
                proof {
                    assert(false);
                }
                return None;
            },
        };
        proof {
            assert forall|j: int| 0 <= j < self.validators@.len()
                implies spec_shortfall(self.validators@, targets@, j)
                    == self.spec_deposit_shortfall(j) by {
                assert(targets@[j].0
                    == spec_target(self.validators@, reserve_balance.0 as int, j));
            }
        }

        let (validator_index, amount_below_target) =
            get_minimum_stake_validator_index_amount(&self.validators, &targets);
        proof {
            assert(self.spec_is_deposit_target_index(validator_index as int));
        }

        // Top up the validator to at most its target; a later cycle stakes
        // the remainder with the next validator. But never create an
        // account below the minimum stake-account balance: rather overshoot
        // the target temporarily.
        let mut amount_to_deposit: u64 = if amount_below_target.0 < reserve_balance.0 {
            amount_below_target.0
        } else {
            reserve_balance.0
        };
        if amount_to_deposit < MINIMUM_STAKE_ACCOUNT_BALANCE {
            amount_to_deposit = MINIMUM_STAKE_ACCOUNT_BALANCE;
        }

        // The minimum stake account balance might be more than what is in
        // the reserve; then nothing can be staked this cycle.
        if amount_to_deposit > reserve_balance.0 {
            proof {
                assert forall|i: int| #[trigger] self.spec_is_deposit_target_index(i)
                    implies self.spec_deposit_amount(i) > self.spec_effective_reserve() by {
                    self.lemma_deposit_target_index_unique(i, validator_index as int);
                }
            }
            return None;
        }

        if !self.is_maintainer_member() {
            return None;
        }

        // When the newest stake account began activating in this epoch, the
        // deposit is staked through a temporary account and merged into it;
        // otherwise a fresh account is appended.
        proof {
            assert(self.validator_entry_wf(validator_index as int));
        }
        let v = &self.validators[validator_index];
        let stake_accounts: &Vec<StakeAccount> = &self.validator_stake_accounts[validator_index];
        let stake_account: Pubkey = if stake_accounts.len() > 0 {
            let last_account = stake_accounts[stake_accounts.len() - 1];
            if last_account.activation_epoch == self.clock.epoch {
                v.next_temporary_stake_account_address
            } else {
                v.next_stake_account_address
            }
        } else {
            v.next_stake_account_address
        };

        let out = MaintenanceOutput::StakeDeposit {
            validator_vote_account: v.vote_account_address,
            stake_account,
            amount: Lamports(amount_to_deposit),
        };
        proof {
            assert(amount_to_deposit as int
                == self.spec_deposit_amount(validator_index as int));
            assert(out == self.spec_stake_deposit_action(validator_index as int));
        }
        Some(out)
    }

    /// Whether any validator is active.
    pub fn has_active_validator(&self) -> (r: bool)
        ensures
            r == exists|i: int|
                0 <= i < self.validators@.len() && (#[trigger] self.validators@[i]).active,
    {
        let n = self.validators.len();
        let mut i: usize = 0;
        while i < n
            invariant
                0 <= i <= n,
                n == self.validators@.len(),
                forall|j: int| 0 <= j < i ==> !(#[trigger] self.validators@[j]).active,
            decreases n - i,
        {
            if self.validators[i].is_active() {
                proof {
                    assert(self.validators@[i as int].active);
                }
                return true;
            }
            i = i + 1;
        }
        false
    }

    /// How far the validator at position `i` is above its target balance,
    /// with targets computed from the spendable reserve.
    pub open spec fn spec_rebalance_excess(&self, i: int) -> int {
        let target = spec_target(self.validators@, self.spec_effective_reserve(), i);
        let effective = spec_effective_stake_balance(self.validators@[i]);
        if !self.validators@[i].active {
            0
        } else if effective > target {
            effective - target
        } else {
            0
        }
    }

    /// `i` is the first position among the active validators that is
    /// furthest above its target: the validator a rebalancing unstake draws
    /// from.
    pub open spec fn spec_is_rebalance_source_index(&self, i: int) -> bool {
        &&& 0 <= i < self.validators@.len()
        &&& self.validators@[i].active
        &&& forall|j: int|
            0 <= j < self.validators@.len() && (#[trigger] self.validators@[j]).active
                ==> self.spec_rebalance_excess(j) <= self.spec_rebalance_excess(i)
        &&& forall|j: int|
            0 <= j < i && (#[trigger] self.validators@[j]).active
                ==> self.spec_rebalance_excess(j) < self.spec_rebalance_excess(i)
    }

    /// The excess of the validator at position `i` is more than the
    /// configured imbalance threshold (one tenth) of its target.
    pub open spec fn spec_rebalance_over_threshold(&self, i: int) -> bool {
        self.spec_rebalance_excess(i) * 10
            > 1 * spec_target(self.validators@, self.spec_effective_reserve(), i)
    }

    /// The amount a rebalancing unstake from position `i` would move: the
    /// excess over target, capped at what the earliest stake account can
    /// give up while keeping the minimum stake-account balance.
    pub open spec fn spec_rebalance_amount(&self, i: int) -> int {
        let account_total = self.validator_stake_accounts@[i]@[0].balance.total_spec();
        let maximum_unstake = account_total - MINIMUM_STAKE_ACCOUNT_BALANCE;
        if self.spec_rebalance_excess(i) < maximum_unstake {
            self.spec_rebalance_excess(i)
        } else {
            maximum_unstake
        }
    }

    /// The rebalancing unstake action for the validator at position `i`.
    pub open spec fn spec_rebalance_action(&self, i: int) -> MaintenanceOutput {
        let v = self.validators@[i];
        let account = self.validator_stake_accounts@[i]@[0];
        MaintenanceOutput::UnstakeFromActiveValidator(Unstake {
            validator_vote_account: v.vote_account_address,
            from_stake_account: account.address,
            to_unstake_account: v.next_unstake_account_address,
            from_stake_seed: v.stake_seeds.begin,
            to_unstake_seed: v.unstake_seeds.end,
            amount: Lamports(self.spec_rebalance_amount(i) as u64),
        })
    }

    /// The rebalance source position is unique.
    pub proof fn lemma_rebalance_source_index_unique(&self, i1: int, i2: int)
        requires
            self.spec_is_rebalance_source_index(i1),
            self.spec_is_rebalance_source_index(i2),
        ensures
            i1 == i2,
    {
        if i1 < i2 {
            assert(self.spec_rebalance_excess(i1) < self.spec_rebalance_excess(i2));
            assert(self.spec_rebalance_excess(i2) <= self.spec_rebalance_excess(i1));
        } else if i2 < i1 {
            assert(self.spec_rebalance_excess(i2) < self.spec_rebalance_excess(i1));
            assert(self.spec_rebalance_excess(i1) <= self.spec_rebalance_excess(i2));
        }
    }

    /// Unstake from the active validator furthest above its target, to
    /// rebalance the pool. Gated on the staking timing policy; produces
    /// nothing when the excess is within the imbalance threshold or the
    /// resulting unstake would be below the minimum stake-account balance.
    pub fn try_unstake_from_active_validators(&self) -> (r: Option<MaintenanceOutput>)
        requires
            self.wf(),
        ensures
            r matches Some(out) ==> ({
                &&& self.spec_should_stake_unstake()
                &&& spec_is_maintainer(self.maintainers@, self.maintainer_address)
                &&& exists|i: int|
                    {
                        &&& #[trigger] self.spec_is_rebalance_source_index(i)
                        &&& self.spec_rebalance_over_threshold(i)
                        &&& self.validator_stake_accounts@[i]@.len() > 0
                        &&& self.spec_rebalance_amount(i) >= MINIMUM_STAKE_ACCOUNT_BALANCE
                        &&& out == self.spec_rebalance_action(i)
                    }
            }),
            r is None ==> ({
                ||| !self.spec_should_stake_unstake()
                ||| !spec_is_maintainer(self.maintainers@, self.maintainer_address)
                ||| forall|i: int|
                    #[trigger] self.spec_is_rebalance_source_index(i)
                        ==> !(self.spec_rebalance_over_threshold(i)
                            && self.validator_stake_accounts@[i]@.len() > 0
                            && self.spec_rebalance_amount(i)
                                >= MINIMUM_STAKE_ACCOUNT_BALANCE)
            }),
    {
        if self.confirm_should_stake_unstake_in_current_slot().is_none() {
            return None;
        }
        // Nothing to rebalance without an active validator.
        if !self.has_active_validator() {
            return None;
        }
        proof {
            lemma_active_count_exists(self.validators@);
        }

        let reserve_balance = self.get_effective_reserve();
        let targets = match get_target_balance(reserve_balance, &self.validators) {
            Result::Ok(targets) => targets,
            Result::Err(_) => {
                proof {
                    assert(false);
                }
                return None;
            },
        };
        proof {
            assert forall|j: int| 0 <= j < self.validators@.len()
                implies spec_excess(self.validators@, targets@, j)
                    == self.spec_rebalance_excess(j) by {
                assert(targets@[j].0
                    == spec_target(self.validators@, reserve_balance.0 as int, j));
            }
        }

        // Threshold that triggers an unstake on an overfunded validator.
        let unbalance_threshold = Rational { numerator: 1, denominator: 10 };
        let picked = get_unstake_validator_index(&self.validators, &targets, unbalance_threshold);
        let (validator_index, unstake_amount) = match picked {
            Option::Some(pair) => pair,
            Option::None => {
                proof {
                    assert forall|i: int| #[trigger] self.spec_is_rebalance_source_index(i)
                        implies !(self.spec_rebalance_over_threshold(i)
                            && self.validator_stake_accounts@[i]@.len() > 0
                            && self.spec_rebalance_amount(i)
                                >= MINIMUM_STAKE_ACCOUNT_BALANCE) by {
                        assert(targets@[i].0 == spec_target(
                            self.validators@,
                            reserve_balance.0 as int,
                            i,
                        ));
                        assert(crate::balance::spec_is_first_max_excess(
                            self.validators@,
                            targets@,
                            i,
                        ));
                        assert(spec_excess(self.validators@, targets@, i) * 10
                            <= 1 * targets@[i].0);
                    }
                }
                return None;
            },
        };

        proof {
            assert(self.spec_is_rebalance_source_index(validator_index as int));
            assert(self.spec_rebalance_over_threshold(validator_index as int));
            assert(self.validator_entry_wf(validator_index as int));
        }
        let stake_accounts: &Vec<StakeAccount> = &self.validator_stake_accounts[validator_index];
        if stake_accounts.len() == 0 {
            proof {
                assert forall|i: int| #[trigger] self.spec_is_rebalance_source_index(i)
                    implies !(self.spec_rebalance_over_threshold(i)
                        && self.validator_stake_accounts@[i]@.len() > 0
                        && self.spec_rebalance_amount(i)
                            >= MINIMUM_STAKE_ACCOUNT_BALANCE) by {
                    self.lemma_rebalance_source_index_unique(i, validator_index as int);
                }
            }
            return None;
        }
        let stake_account = stake_accounts[0];

        // The stake account must keep the minimum balance behind.
        let maximum_unstake = stake_account.balance.total().0 - MINIMUM_STAKE_ACCOUNT_BALANCE;
        let amount: u64 = if unstake_amount.0 < maximum_unstake {
            unstake_amount.0
        } else {
            maximum_unstake
        };

        // An unstake account below the minimum balance is not worth
        // creating.
        if amount < MINIMUM_STAKE_ACCOUNT_BALANCE {
            proof {
                assert forall|i: int| #[trigger] self.spec_is_rebalance_source_index(i)
                    implies !(self.spec_rebalance_over_threshold(i)
                        && self.validator_stake_accounts@[i]@.len() > 0
                        && self.spec_rebalance_amount(i)
                            >= MINIMUM_STAKE_ACCOUNT_BALANCE) by {
                    self.lemma_rebalance_source_index_unique(i, validator_index as int);
                }
            }
            return None;
        }

        if !self.is_maintainer_member() {
            return None;
        }

        let v = &self.validators[validator_index];
        let out = MaintenanceOutput::UnstakeFromActiveValidator(Unstake {
            validator_vote_account: v.vote_account_address,
            from_stake_account: stake_account.address,
            to_unstake_account: v.next_unstake_account_address,
            from_stake_seed: v.stake_seeds.begin,
            to_unstake_seed: v.unstake_seeds.end,
            amount: Lamports(amount),
        });
        proof {
            assert(amount as int == self.spec_rebalance_amount(validator_index as int));
            assert(out == self.spec_rebalance_action(validator_index as int));
        }
        Some(out)
    }

    /// The removal action for the validator at position `i`.
    pub open spec fn spec_remove_action(&self, i: int) -> MaintenanceOutput {
        MaintenanceOutput::RemoveValidator {
            validator_vote_account: self.validators@[i].vote_account_address,
        }
    }

    /// Remove the first validator that satisfies the ledger's
    /// removal-eligibility predicate.
    pub fn try_remove_pending_validators(&self) -> (r: Option<MaintenanceOutput>)
        requires
            self.wf(),
        ensures
            r matches Some(out) ==> exists|i: int|
                {
                    &&& 0 <= i < self.validators@.len()
                    &&& spec_can_be_removed(#[trigger] self.validators@[i])
                    &&& forall|j: int|
                        0 <= j < i ==> !spec_can_be_removed(#[trigger] self.validators@[j])
                    &&& out == self.spec_remove_action(i)
                },
            r is None ==> forall|i: int|
                0 <= i < self.validators@.len()
                    ==> !spec_can_be_removed(#[trigger] self.validators@[i]),
    {
        let n = self.validators.len();
        let mut i: usize = 0;
        while i < n
            invariant
                0 <= i <= n,
                n == self.validators@.len(),
                self.wf(),
                forall|j: int|
                    0 <= j < i ==> !spec_can_be_removed(#[trigger] self.validators@[j]),
            decreases n - i,
        {
            let v = &self.validators[i];
            if v.can_be_removed() {
                let out = MaintenanceOutput::RemoveValidator {
                    validator_vote_account: v.vote_account_address,
                };
                return Some(out);
            }
            i = i + 1;
        }
        None
    }

    /// `out` is the merge action of the first validator with mergeable
    /// accounts.
    pub open spec fn spec_is_merge_output(&self, out: MaintenanceOutput) -> bool {
        exists|i: int|
            {
                &&& 0 <= i < self.validators@.len()
                &&& #[trigger] self.spec_merge_candidate(i)
                &&& forall|j: int| 0 <= j < i ==> !self.spec_merge_candidate(j)
                &&& out == self.spec_merge_action(i)
            }
    }

    /// `out` is the performance update the selector would pick: the
    /// on-ledger commission record of the first stale-or-exceeded
    /// validator, or else, near the epoch's end, the off-ledger rates of
    /// the first validator missing them.
    pub open spec fn spec_is_perf_output(&self, out: MaintenanceOutput) -> bool {
        ||| exists|i: int|
            {
                &&& 0 <= i < self.validators@.len()
                &&& #[trigger] self.spec_onchain_perf_candidate(i)
                &&& forall|j: int| 0 <= j < i ==> !self.spec_onchain_perf_candidate(j)
                &&& out == self.spec_onchain_perf_action(i)
            }
        ||| ((forall|i: int|
            0 <= i < self.validators@.len()
                ==> !(#[trigger] self.spec_onchain_perf_candidate(i)))
            && self.spec_is_at_epoch_end() && exists|i: int|
            {
                &&& 0 <= i < self.validators@.len()
                &&& #[trigger] self.spec_offchain_perf_candidate(i)
                &&& forall|j: int| 0 <= j < i ==> !self.spec_offchain_perf_candidate(j)
                &&& out == self.spec_offchain_perf_action(i)
            })
    }

    /// `out` is the reactivation of the first compliant inactive validator.
    pub open spec fn spec_is_reactivate_output(&self, out: MaintenanceOutput) -> bool {
        exists|i: int|
            {
                &&& 0 <= i < self.validators@.len()
                &&& #[trigger] self.spec_reactivate_candidate(i)
                &&& forall|j: int| 0 <= j < i ==> !self.spec_reactivate_candidate(j)
                &&& out == self.spec_reactivate_action(i)
            }
    }

    /// `out` is the unstake from the first drainable inactive validator.
    pub open spec fn spec_is_unstake_inactive_output(&self, out: MaintenanceOutput) -> bool {
        exists|i: int|
            {
                &&& 0 <= i < self.validators@.len()
                &&& #[trigger] self.spec_unstake_inactive_candidate(i)
                &&& forall|j: int| 0 <= j < i ==> !self.spec_unstake_inactive_candidate(j)
                &&& out == self.spec_unstake_inactive_action(i)
            }
    }

    /// `out` is the balance sync of the first validator whose sync is worth
    /// its fees.
    pub open spec fn spec_is_balance_sync_output(&self, out: MaintenanceOutput) -> bool {
        exists|i: int|
            {
                &&& 0 <= i < self.validators@.len()
                &&& #[trigger] self.spec_balance_sync_candidate(i)
                &&& forall|j: int| 0 <= j < i ==> !self.spec_balance_sync_candidate(j)
                &&& out == self.spec_balance_sync_action(i)
            }
    }

    /// `out` is the deactivation of the first violating active validator.
    pub open spec fn spec_is_deactivate_output(&self, out: MaintenanceOutput) -> bool {
        exists|i: int|
            {
                &&& 0 <= i < self.validators@.len()
                &&& #[trigger] self.spec_deactivate_candidate(i)
                &&& forall|j: int| 0 <= j < i ==> !self.spec_deactivate_candidate(j)
                &&& out == self.spec_deactivate_action(i)
            }
    }

    /// `out` is the deposit to the validator furthest below target.
    pub open spec fn spec_is_stake_deposit_output(&self, out: MaintenanceOutput) -> bool {
        exists|i: int|
            {
                &&& #[trigger] self.spec_is_deposit_target_index(i)
                &&& self.spec_deposit_amount(i) <= self.spec_effective_reserve()
                &&& out == self.spec_stake_deposit_action(i)
            }
    }

    /// `out` is the rebalancing unstake from the validator furthest above
    /// target.
    pub open spec fn spec_is_rebalance_output(&self, out: MaintenanceOutput) -> bool {
        exists|i: int|
            {
                &&& #[trigger] self.spec_is_rebalance_source_index(i)
                &&& self.spec_rebalance_over_threshold(i)
                &&& self.validator_stake_accounts@[i]@.len() > 0
                &&& self.spec_rebalance_amount(i) >= MINIMUM_STAKE_ACCOUNT_BALANCE
                &&& out == self.spec_rebalance_action(i)
            }
    }

    /// `out` is the removal of the first removal-eligible validator.
    pub open spec fn spec_is_remove_output(&self, out: MaintenanceOutput) -> bool {
        exists|i: int|
            {
                &&& 0 <= i < self.validators@.len()
                &&& spec_can_be_removed(#[trigger] self.validators@[i])
                &&& forall|j: int|
                    0 <= j < i ==> !spec_can_be_removed(#[trigger] self.validators@[j])
                &&& out == self.spec_remove_action(i)
            }
    }

    /// The merge step has a candidate.
    pub open spec fn spec_step_merge_fires(&self) -> bool {
        exists|i: int|
            0 <= i < self.validators@.len() && #[trigger] self.spec_merge_candidate(i)
    }

    /// The exchange-rate step has work: the share price is behind the
    /// current epoch.
    pub open spec fn spec_step_exchange_rate_fires(&self) -> bool {
        self.exchange_rate.computed_in_epoch < self.clock.epoch
    }

    /// The performance step has a candidate, on-ledger or off-ledger.
    pub open spec fn spec_step_perf_fires(&self) -> bool {
        ||| exists|i: int|
            0 <= i < self.validators@.len() && #[trigger] self.spec_onchain_perf_candidate(i)
        ||| (self.spec_is_at_epoch_end() && exists|i: int|
            0 <= i < self.validators@.len() && #[trigger] self.spec_offchain_perf_candidate(i))
    }

    /// The reactivation step has a candidate.
    pub open spec fn spec_step_reactivate_fires(&self) -> bool {
        self.spec_is_at_epoch_end() && exists|i: int|
            0 <= i < self.validators@.len() && #[trigger] self.spec_reactivate_candidate(i)
    }

    /// The inactive-unstake step has a candidate and a submitting
    /// maintainer.
    pub open spec fn spec_step_unstake_inactive_fires(&self) -> bool {
        spec_is_maintainer(self.maintainers@, self.maintainer_address) && exists|i: int|
            0 <= i < self.validators@.len()
                && #[trigger] self.spec_unstake_inactive_candidate(i)
    }

    /// The balance-sync step has a candidate.
    pub open spec fn spec_step_balance_sync_fires(&self) -> bool {
        exists|i: int|
            0 <= i < self.validators@.len() && #[trigger] self.spec_balance_sync_candidate(i)
    }

    /// The deactivation step has a candidate.
    pub open spec fn spec_step_deactivate_fires(&self) -> bool {
        exists|i: int|
            0 <= i < self.validators@.len() && #[trigger] self.spec_deactivate_candidate(i)
    }

    /// The deposit step can act: timing permits, a validator is active, the
    /// maintainer can submit, and the reserve covers the deposit.
    pub open spec fn spec_step_stake_deposit_fires(&self) -> bool {
        &&& self.spec_should_stake_unstake()
        &&& seq_active_count(self.validators@) > 0
        &&& spec_is_maintainer(self.maintainers@, self.maintainer_address)
        &&& exists|i: int|
            #[trigger] self.spec_is_deposit_target_index(i)
                && self.spec_deposit_amount(i) <= self.spec_effective_reserve()
    }

    /// The rebalancing step can act.
    pub open spec fn spec_step_rebalance_fires(&self) -> bool {
        &&& self.spec_should_stake_unstake()
        &&& spec_is_maintainer(self.maintainers@, self.maintainer_address)
        &&& exists|i: int|
            {
                &&& #[trigger] self.spec_is_rebalance_source_index(i)
                &&& self.spec_rebalance_over_threshold(i)
                &&& self.validator_stake_accounts@[i]@.len() > 0
                &&& self.spec_rebalance_amount(i) >= MINIMUM_STAKE_ACCOUNT_BALANCE
            }
    }

    /// The removal step has a candidate.
    pub open spec fn spec_step_remove_fires(&self) -> bool {
        exists|i: int|
            0 <= i < self.validators@.len()
                && spec_can_be_removed(#[trigger] self.validators@[i])
    }

    /// Some step of the selector chain can act on this snapshot.
    pub open spec fn spec_any_step_fires(&self) -> bool {
        ||| self.spec_step_merge_fires()
        ||| self.spec_step_exchange_rate_fires()
        ||| self.spec_step_perf_fires()
        ||| self.spec_step_reactivate_fires()
        ||| self.spec_step_unstake_inactive_fires()
        ||| self.spec_step_balance_sync_fires()
        ||| self.spec_step_deactivate_fires()
        ||| self.spec_step_stake_deposit_fires()
        ||| self.spec_step_rebalance_fires()
        ||| self.spec_step_remove_fires()
    }

    /// `out` is the action of the first step of the priority chain that can
    /// act on this snapshot. The order encodes real dependency and cost
    /// constraints: merges shrink later account lists; the exchange rate
    /// must be fresh before balance updates the ledger would otherwise
    /// reject; removal comes last.
    pub open spec fn spec_selected_action(&self, out: MaintenanceOutput) -> bool {
        if self.spec_step_merge_fires() {
            self.spec_is_merge_output(out)
        } else if self.spec_step_exchange_rate_fires() {
            out == MaintenanceOutput::UpdateExchangeRate
        } else if self.spec_step_perf_fires() {
            self.spec_is_perf_output(out)
        } else if self.spec_step_reactivate_fires() {
            self.spec_is_reactivate_output(out)
        } else if self.spec_step_unstake_inactive_fires() {
            self.spec_is_unstake_inactive_output(out)
        } else if self.spec_step_balance_sync_fires() {
            self.spec_is_balance_sync_output(out)
        } else if self.spec_step_deactivate_fires() {
            self.spec_is_deactivate_output(out)
        } else if self.spec_step_stake_deposit_fires() {
            self.spec_is_stake_deposit_output(out)
        } else if self.spec_step_rebalance_fires() {
            self.spec_is_rebalance_output(out)
        } else if self.spec_step_remove_fires() {
            self.spec_is_remove_output(out)
        } else {
            false
        }
    }

    /// The acting maintainer appears in the maintainer list and the balance
    /// recorded for its first appearance is below the funding floor.
    pub open spec fn spec_maintainer_underfunded(&self) -> bool {
        exists|i: int|
            {
                &&& 0 <= i < self.maintainers@.len()
                &&& (#[trigger] self.maintainers@[i]).pubkey == self.maintainer_address
                &&& forall|j: int|
                    0 <= j < i ==> self.maintainers@[j].pubkey != self.maintainer_address
                &&& self.maintainer_balances@[i].0 < MINIMUM_MAINTAINER_BALANCE
            }
    }

    /// One maintenance decision cycle: refuse outright if the acting
    /// maintainer cannot pay fees; otherwise evaluate the priority chain
    /// and return its first action, or `None` when there is nothing to do.
    /// Callers loop, taking a fresh snapshot each time — and keep polling
    /// even after `None`, since the ledger changes underneath.
    pub fn try_perform_maintenance(&self) -> (r: Result<
        Option<MaintenanceOutput>,
        MaintenanceError,
    >)
        requires
            self.wf(),
        ensures
            r is Err <==> self.spec_maintainer_underfunded(),
            r matches Err(e) ==> exists|i: int|
                {
                    &&& 0 <= i < self.maintainers@.len()
                    &&& (#[trigger] self.maintainers@[i]).pubkey == self.maintainer_address
                    &&& forall|j: int|
                        0 <= j < i ==> self.maintainers@[j].pubkey != self.maintainer_address
                    &&& self.maintainer_balances@[i].0 < MINIMUM_MAINTAINER_BALANCE
                    &&& e == (MaintenanceError::MaintainerBalanceTooLow {
                        maintainer: self.maintainer_address,
                        balance: self.maintainer_balances@[i],
                        required: Lamports(MINIMUM_MAINTAINER_BALANCE),
                    })
                },
            r matches Ok(Some(out)) ==> self.spec_selected_action(out),
            r matches Ok(None) ==> !self.spec_any_step_fires(),
    {
        // Before any maintenance, a sanity check: the maintainer must be
        // able to pay the transaction fees, else every submission would
        // fail with errors that are hard to diagnose.
        match self.first_matching_maintainer_index() {
            Option::Some(i) => {
                let balance = self.maintainer_balances[i];
                if balance.0 < MINIMUM_MAINTAINER_BALANCE {
                    let e = MaintenanceError::MaintainerBalanceTooLow {
                        maintainer: self.maintainer_address,
                        balance,
                        required: Lamports(MINIMUM_MAINTAINER_BALANCE),
                    };
                    proof {
                        assert({
                            &&& 0 <= (i as int) < self.maintainers@.len()
                            &&& self.maintainers@[i as int].pubkey == self.maintainer_address
                            &&& forall|j: int|
                                0 <= j < i as int
                                    ==> self.maintainers@[j].pubkey != self.maintainer_address
                            &&& self.maintainer_balances@[i as int].0
                                < MINIMUM_MAINTAINER_BALANCE
                        });
                    }
                    return Err(e);
                }
                proof {
                    // The first matching position is unique, and the
                    // balance there is adequate.
                    assert forall|k: int|
                        !({
                            &&& 0 <= k < self.maintainers@.len()
                            &&& (#[trigger] self.maintainers@[k]).pubkey
                                == self.maintainer_address
                            &&& forall|j: int|
                                0 <= j < k
                                    ==> self.maintainers@[j].pubkey != self.maintainer_address
                            &&& self.maintainer_balances@[k].0 < MINIMUM_MAINTAINER_BALANCE
                        }) by {
                        if 0 <= k < self.maintainers@.len() && k != i as int {
                            if k > i as int {
                                assert(self.maintainers@[i as int].pubkey
                                    == self.maintainer_address);
                            }
                        }
                    }
                }
            },
            Option::None => {
                proof {
                    assert(!self.spec_maintainer_underfunded());
                }
            },
        }

        // Try the steps one by one, in priority order, and take the first
        // that produces an action.
        let mut selected: Option<MaintenanceOutput> = self.try_merge_on_all_stakes();
        if selected.is_none() {
            selected = self.try_update_exchange_rate();
        }
        if selected.is_none() {
            selected = self.try_update_validator_perfs();
        }
        if selected.is_none() {
            selected = self.try_reactivate_if_complies();
        }
        if selected.is_none() {
            selected = self.try_unstake_from_inactive_validator();
        }
        // Collecting rewards and fees comes after updating the exchange
        // rate, because the ledger rejects it under an outdated rate.
        if selected.is_none() {
            selected = self.try_update_stake_account_balance();
        }
        if selected.is_none() {
            selected = self.try_deactivate_if_violates();
        }
        if selected.is_none() {
            selected = self.try_stake_deposit();
        }
        if selected.is_none() {
            selected = self.try_unstake_from_active_validators();
        }
        if selected.is_none() {
            selected = self.try_remove_pending_validators();
        }
        Ok(selected)
    }
}

/// When every account keeps exactly its rent-exempt minimum inactive,
/// nothing is withdrawable.
proof fn lemma_withdrawable_zero(accounts: Seq<StakeAccount>, stake_rent: int)
    requires
        forall|k: int|
            0 <= k < accounts.len()
                ==> (#[trigger] accounts[k]).balance.inactive.0 == stake_rent,
    ensures
        seq_withdrawable(accounts, stake_rent) == 0,
    decreases accounts.len(),
{
    if accounts.len() > 0 {
        lemma_withdrawable_zero(accounts.drop_last(), stake_rent);
    }
}

/// Policy-level idempotence of removal: once a selected removal has been
/// applied, the removed validator's key is no longer in the validator list
/// (list keys are unique), and then no selector run on the new snapshot can
/// select that same action again — whichever step fires first.
pub proof fn lemma_removal_not_reselected(
    before: SolidoState,
    after: SolidoState,
    out: MaintenanceOutput,
)
    requires
        before.spec_is_remove_output(out),
        out matches MaintenanceOutput::RemoveValidator { validator_vote_account: removed }
            ==> forall|k: int|
                0 <= k < after.validators@.len()
                    ==> (#[trigger] after.validators@[k]).vote_account_address != removed,
    ensures
        !after.spec_selected_action(out),
{
    assert(out is RemoveValidator);
    assert(forall|k: int| out != after.spec_merge_action(k));
    assert(out != MaintenanceOutput::UpdateExchangeRate);
    assert(forall|k: int| out != after.spec_onchain_perf_action(k));
    assert(forall|k: int| out != after.spec_offchain_perf_action(k));
    assert(forall|k: int| out != after.spec_reactivate_action(k));
    assert(forall|k: int| out != after.spec_unstake_inactive_action(k));
    assert(forall|k: int| out != after.spec_balance_sync_action(k));
    assert(forall|k: int| out != after.spec_deactivate_action(k));
    assert(forall|k: int| out != after.spec_stake_deposit_action(k));
    assert(forall|k: int| out != after.spec_rebalance_action(k));
    let removed = out->RemoveValidator_validator_vote_account;
    assert forall|k: int| 0 <= k < after.validators@.len()
        implies out != after.spec_remove_action(k) by {
        assert(after.validators@[k].vote_account_address != removed);
    }
}

/// Policy-level idempotence of merging: applying a selected merge removes
/// the source stake account and advances the seed window, and seed windows
/// only grow at the far end — so every stake account the merged validator
/// still has carries a later seed, and no selector run on the new snapshot
/// can select that same merge again.
pub proof fn lemma_merge_not_reselected(
    before: SolidoState,
    after: SolidoState,
    out: MaintenanceOutput,
)
    requires
        before.spec_is_merge_output(out),
        out matches MaintenanceOutput::MergeStake {
            validator_vote_account: merged,
            from_stake_seed: source_seed,
            ..
        } ==> forall|k: int, m: int|
            0 <= k < after.validators@.len()
                && (#[trigger] after.validators@[k]).vote_account_address == merged
                && 0 <= m < after.validator_stake_accounts@[k]@.len()
                ==> (#[trigger] after.validator_stake_accounts@[k]@[m]).seed > source_seed,
    ensures
        !after.spec_selected_action(out),
{
    assert(out is MergeStake);
    assert(forall|k: int| out != after.spec_onchain_perf_action(k));
    assert(forall|k: int| out != after.spec_offchain_perf_action(k));
    assert(forall|k: int| out != after.spec_reactivate_action(k));
    assert(forall|k: int| out != after.spec_unstake_inactive_action(k));
    assert(forall|k: int| out != after.spec_balance_sync_action(k));
    assert(forall|k: int| out != after.spec_deactivate_action(k));
    assert(forall|k: int| out != after.spec_stake_deposit_action(k));
    assert(forall|k: int| out != after.spec_rebalance_action(k));
    assert(forall|k: int| out != after.spec_remove_action(k));
    assert forall|k: int|
        !(0 <= k < after.validators@.len() && #[trigger] after.spec_merge_candidate(k)
            && out == after.spec_merge_action(k)) by {
        if 0 <= k < after.validators@.len() && after.spec_merge_candidate(k)
            && out == after.spec_merge_action(k) {
            // The re-selected source account would carry the already-merged
            // seed, but all remaining seeds are later.
            assert(after.validator_stake_accounts@[k]@[0].seed
                > after.validator_stake_accounts@[k]@[0].seed);
        }
    }
}

/// Policy-level idempotence of a balance sync: once the selected sync has
/// been applied — the recorded balance caught up with the observed total,
/// inactive stake above rent swept to the reserve, and the fully
/// deactivated unstake accounts withdrawn — the synced validator is no
/// longer worth a sync, and no selector run on the new snapshot can select
/// that same action again.
pub proof fn lemma_balance_sync_not_reselected(
    before: SolidoState,
    after: SolidoState,
    out: MaintenanceOutput,
)
    requires
        before.spec_is_balance_sync_output(out),
        out matches MaintenanceOutput::UpdateStakeAccountBalance {
            validator_vote_account: synced,
            ..
        } ==> forall|k: int|
            0 <= k < after.validators@.len()
                && (#[trigger] after.validators@[k]).vote_account_address == synced
                ==> ({
                    &&& forall|m: int|
                        0 <= m < after.validator_stake_accounts@[k]@.len()
                            ==> (#[trigger] after.validator_stake_accounts@[k]@[m])
                                .balance.inactive.0 == after.stake_rent.0
                    &&& seq_stake_total(after.validator_stake_accounts@[k]@)
                        <= spec_effective_stake_balance(after.validators@[k])
                    &&& (after.validator_unstake_accounts@[k]@.len() == 0
                        || after.validator_unstake_accounts@[k]@[0].balance.inactive.0
                            != after.validator_unstake_accounts@[k]@[0].balance.total_spec())
                }),
    ensures
        !after.spec_selected_action(out),
{
    assert(out is UpdateStakeAccountBalance);
    assert(forall|k: int| out != after.spec_merge_action(k));
    assert(forall|k: int| out != after.spec_onchain_perf_action(k));
    assert(forall|k: int| out != after.spec_offchain_perf_action(k));
    assert(forall|k: int| out != after.spec_reactivate_action(k));
    assert(forall|k: int| out != after.spec_unstake_inactive_action(k));
    assert(forall|k: int| out != after.spec_deactivate_action(k));
    assert(forall|k: int| out != after.spec_stake_deposit_action(k));
    assert(forall|k: int| out != after.spec_rebalance_action(k));
    assert(forall|k: int| out != after.spec_remove_action(k));
    assert forall|k: int|
        !(0 <= k < after.validators@.len() && #[trigger] after.spec_balance_sync_candidate(k)
            && out == after.spec_balance_sync_action(k)) by {
        if 0 <= k < after.validators@.len() && after.spec_balance_sync_candidate(k)
            && out == after.spec_balance_sync_action(k) {
            lemma_withdrawable_zero(
                after.validator_stake_accounts@[k]@,
                after.stake_rent.0 as int,
            );
            assert(after.spec_expected_difference_stake(k) == 0);
            assert(after.spec_removed_unstake(k) == 0);
        }
    }
}

} // verus!
