//! Entity snapshot types: the immutable picture of all on-ledger accounts
//! relevant to the pool that one maintenance decision cycle works on.
//!
//! A snapshot is produced once per cycle by the caller's ledger client and
//! never mutated; the decision engine is a pure function over it. Values that
//! only an external component can compute (rent-exempt minima, derived
//! stake-account addresses) are carried in the snapshot as plain fields,
//! supplied by that component at snapshot time.

use vstd::prelude::*;
use crate::token::Lamports;
use crate::token::StLamports;
use crate::epoch::EpochSchedule;
use crate::epoch::Clock;
use crate::epoch::spec_first_slot_in_epoch;
use crate::duty::MAINTAINER_DUTY_SLICE_LENGTH;

verus! {

/// The smallest balance a stake account is allowed to hold. Creating or
/// leaving behind smaller accounts is not worth their rent and fees, and the
/// ledger program keeps every stake account of the pool at or above this
/// floor.
pub const MINIMUM_STAKE_ACCOUNT_BALANCE: u64 = 1_000_000_000;

/// A 32-byte account address, held as four 64-bit words. The engine only ever
/// compares addresses for equality and hands them back in its outputs.
#[derive(Clone, Copy, PartialEq, Eq, Structural, Debug)]
pub struct Pubkey {
    pub w0: u64,
    pub w1: u64,
    pub w2: u64,
    pub w3: u64,
}

/// A half-open counter window `[begin, end)` bounding which derived
/// stake or unstake accounts exist for a validator. The window only grows at
/// `end` (new accounts) and only shrinks at `begin` (fully drained accounts).
#[derive(Clone, Copy, PartialEq, Eq, Structural, Debug)]
pub struct SeedRange {
    pub begin: u64,
    pub end: u64,
}

/// A stake account's balance, broken down by activation status.
#[derive(Clone, Copy, PartialEq, Eq, Structural, Debug)]
pub struct StakeBalance {
    pub inactive: Lamports,
    pub activating: Lamports,
    pub active: Lamports,
    pub deactivating: Lamports,
}

impl StakeBalance {
    /// The sum of all four categories, as a mathematical integer.
    pub open spec fn total_spec(&self) -> int {
        self.inactive.0 + self.activating.0 + self.active.0 + self.deactivating.0
    }

    /// Nothing is delegated: every lamport in the account is inactive.
    pub open spec fn is_fully_inactive(&self) -> bool {
        self.activating.0 == 0 && self.active.0 == 0 && self.deactivating.0 == 0
    }

    /// The delegated stake has fully activated and none of it is leaving.
    pub open spec fn is_fully_active(&self) -> bool {
        self.activating.0 == 0 && self.deactivating.0 == 0 && self.active.0 > 0
    }

    /// The delegated stake is still warming up.
    pub open spec fn is_activating(&self) -> bool {
        self.activating.0 > 0 && self.active.0 == 0 && self.deactivating.0 == 0
    }

    /// The sum of all four categories.
    pub fn total(&self) -> (r: Lamports)
        requires
            self.total_spec() <= u64::MAX,
        ensures
            r.0 == self.total_spec(),
    {
        Lamports(self.inactive.0 + self.activating.0 + self.active.0 + self.deactivating.0)
    }
}

/// One derived stake or unstake account of a validator, as observed in the
/// snapshot: its address, its balance breakdown, the epoch in which its
/// delegation began activating, and its position in the seed window.
#[derive(Clone, Copy, PartialEq, Eq, Structural, Debug)]
pub struct StakeAccount {
    pub address: Pubkey,
    pub balance: StakeBalance,
    pub activation_epoch: u64,
    pub seed: u64,
}

/// The ledger merges two stake accounts only when their delegation states are
/// compatible: both fully active, both fully inactive, or both still
/// activating with the same activation epoch.
pub open spec fn spec_can_merge(to: StakeAccount, from: StakeAccount) -> bool {
    ||| (to.balance.is_fully_active() && from.balance.is_fully_active())
    ||| (to.balance.is_fully_inactive() && from.balance.is_fully_inactive())
    ||| (to.balance.is_activating() && from.balance.is_activating()
        && to.activation_epoch == from.activation_epoch)
}

impl StakeAccount {
    /// Whether `other` can be merged into `self`.
    pub fn can_merge(&self, other: &StakeAccount) -> (r: bool)
        ensures
            r == spec_can_merge(*self, *other),
    {
        if self.balance.activating.0 == 0 && self.balance.deactivating.0 == 0
            && self.balance.active.0 > 0 && other.balance.activating.0 == 0
            && other.balance.deactivating.0 == 0 && other.balance.active.0 > 0 {
            true
        } else if self.balance.activating.0 == 0 && self.balance.active.0 == 0
            && self.balance.deactivating.0 == 0 && other.balance.activating.0 == 0
            && other.balance.active.0 == 0 && other.balance.deactivating.0 == 0 {
            true
        } else {
            self.balance.activating.0 > 0 && self.balance.active.0 == 0
                && self.balance.deactivating.0 == 0 && other.balance.activating.0 > 0
                && other.balance.active.0 == 0 && other.balance.deactivating.0 == 0
                && self.activation_epoch == other.activation_epoch
        }
    }
}

/// One fleet member the pool delegates to, as recorded in the on-ledger
/// validator list, together with the derived addresses that the address
/// derivation collaborator supplies for the accounts the engine may create
/// next (the seeds at the `end` of each window).
#[derive(Clone, Copy, PartialEq, Eq, Structural, Debug)]
pub struct Validator {
    /// The validator's vote account, which is also its identity in the list.
    pub vote_account_address: Pubkey,
    /// Window of live derived stake accounts.
    pub stake_seeds: SeedRange,
    /// Window of live derived unstake accounts.
    pub unstake_seeds: SeedRange,
    /// Cumulative balance recorded on the ledger for the stake accounts.
    pub stake_accounts_balance: Lamports,
    /// Part of `stake_accounts_balance` that sits in unstake accounts.
    pub unstake_accounts_balance: Lamports,
    /// Whether the validator participates in new delegations.
    pub active: bool,
    /// Derived address for a new stake account at `stake_seeds.end`.
    pub next_stake_account_address: Pubkey,
    /// Derived address for a temporary stake account at `stake_seeds.end`
    /// that is immediately merged into its predecessor.
    pub next_temporary_stake_account_address: Pubkey,
    /// Derived address for a new unstake account at `unstake_seeds.end`.
    pub next_unstake_account_address: Pubkey,
}

/// The stake recorded for a validator minus what is already being unstaked.
pub open spec fn spec_effective_stake_balance(v: Validator) -> int {
    v.stake_accounts_balance.0 - v.unstake_accounts_balance.0
}

/// A validator may leave the list only once it is inactive and fully drained:
/// no live stake or unstake accounts and no recorded balance.
pub open spec fn spec_can_be_removed(v: Validator) -> bool {
    &&& !v.active
    &&& v.stake_seeds.begin == v.stake_seeds.end
    &&& v.unstake_seeds.begin == v.unstake_seeds.end
    &&& v.stake_accounts_balance.0 == 0
    &&& v.unstake_accounts_balance.0 == 0
}

impl Validator {
    /// A fresh, active validator with no stake yet. The derived addresses are
    /// zeroed; the snapshot layer fills them in.
    pub fn new(vote_account_address: Pubkey) -> (v: Validator)
        ensures
            v.vote_account_address == vote_account_address,
            v.stake_seeds == (SeedRange { begin: 0u64, end: 0u64 }),
            v.unstake_seeds == (SeedRange { begin: 0u64, end: 0u64 }),
            v.stake_accounts_balance.0 == 0,
            v.unstake_accounts_balance.0 == 0,
            v.active,
    {
        let zero = Pubkey { w0: 0, w1: 0, w2: 0, w3: 0 };
        Validator {
            vote_account_address,
            stake_seeds: SeedRange { begin: 0, end: 0 },
            unstake_seeds: SeedRange { begin: 0, end: 0 },
            stake_accounts_balance: Lamports(0),
            unstake_accounts_balance: Lamports(0),
            active: true,
            next_stake_account_address: zero,
            next_temporary_stake_account_address: zero,
            next_unstake_account_address: zero,
        }
    }

    pub fn is_active(&self) -> (r: bool)
        ensures
            r == self.active,
    {
        self.active
    }

    pub fn is_inactive(&self) -> (r: bool)
        ensures
            r == !self.active,
    {
        !self.active
    }

    /// The stake recorded for this validator minus what is already being
    /// unstaked.
    pub fn compute_effective_stake_balance(&self) -> (r: Lamports)
        requires
            self.unstake_accounts_balance.0 <= self.stake_accounts_balance.0,
        ensures
            r.0 == spec_effective_stake_balance(*self),
    {
        Lamports(self.stake_accounts_balance.0 - self.unstake_accounts_balance.0)
    }

    /// Whether the ledger's removal-eligibility predicate holds.
    pub fn can_be_removed(&self) -> (r: bool)
        ensures
            r == spec_can_be_removed(*self),
    {
        !self.active && self.stake_seeds.begin == self.stake_seeds.end
            && self.unstake_seeds.begin == self.unstake_seeds.end
            && self.stake_accounts_balance.0 == 0 && self.unstake_accounts_balance.0 == 0
    }
}

/// An identity authorized to submit maintenance actions.
#[derive(Clone, Copy, PartialEq, Eq, Structural, Debug)]
pub struct Maintainer {
    pub pubkey: Pubkey,
}

impl Maintainer {
    pub fn new(pubkey: Pubkey) -> (m: Maintainer)
        ensures
            m.pubkey == pubkey,
    {
        Maintainer { pubkey }
    }
}

/// The off-ledger part of a validator's performance record.
#[derive(Clone, Copy, PartialEq, Eq, Structural, Debug)]
pub struct OffchainValidatorPerf {
    /// Blocks produced over leader slots assigned, scaled so that `u64::MAX`
    /// stands for 1.0.
    pub block_production_rate: u64,
    /// Vote credits earned over slots in the epoch, scaled the same way.
    pub vote_success_rate: u64,
    /// The epoch in which this part was last updated.
    pub updated_at: u64,
}

/// The latest known performance record for a validator.
#[derive(Clone, Copy, PartialEq, Eq, Structural, Debug)]
pub struct ValidatorPerf {
    /// The commission last recorded from the validator's vote account.
    pub commission: u8,
    /// The epoch in which the commission was last recorded.
    pub commission_updated_at: u64,
    /// The off-ledger part, absent until first written.
    pub rest: Option<OffchainValidatorPerf>,
}

/// The pool's performance policy: bounds a validator must meet to keep
/// receiving delegations.
#[derive(Clone, Copy, PartialEq, Eq, Structural, Debug)]
pub struct Criteria {
    /// Highest tolerated commission, in percent.
    pub max_commission: u8,
    /// Lowest tolerated block production rate, `u64::MAX` standing for 1.0.
    pub min_block_production_rate: u64,
    /// Lowest tolerated vote success rate, `u64::MAX` standing for 1.0.
    pub min_vote_success_rate: u64,
}

/// Whether a validator with the given live commission and recorded
/// performance satisfies the policy. A missing record, or a record without
/// its off-ledger part, is given the benefit of the doubt: only the
/// commission is judged then.
pub open spec fn spec_does_perform_well(
    criteria: Criteria,
    commission: u8,
    perf: Option<ValidatorPerf>,
) -> bool {
    &&& commission <= criteria.max_commission
    &&& match perf {
        Option::None => true,
        Option::Some(p) => match p.rest {
            Option::None => true,
            Option::Some(rest) => {
                &&& rest.block_production_rate >= criteria.min_block_production_rate
                &&& rest.vote_success_rate >= criteria.min_vote_success_rate
            },
        },
    }
}

/// Executable form of [`spec_does_perform_well`].
pub fn does_perform_well(
    criteria: &Criteria,
    commission: u8,
    perf: Option<ValidatorPerf>,
) -> (r: bool)
    ensures
        r == spec_does_perform_well(*criteria, commission, perf),
{
    if commission > criteria.max_commission {
        return false;
    }
    match perf {
        Option::None => true,
        Option::Some(p) => match p.rest {
            Option::None => true,
            Option::Some(rest) => {
                rest.block_production_rate >= criteria.min_block_production_rate
                    && rest.vote_success_rate >= criteria.min_vote_success_rate
            },
        },
    }
}

/// The pool's observed vote-account state for one validator.
#[derive(Clone, Copy, PartialEq, Eq, Structural, Debug)]
pub struct VoteState {
    /// The commission the validator currently charges, in percent.
    pub commission: u8,
    /// Vote credits earned in the current epoch.
    pub credits: u64,
}

/// Share-price bookkeeping recorded on the pool.
#[derive(Clone, Copy, PartialEq, Eq, Structural, Debug)]
pub struct ExchangeRate {
    /// The epoch in which the rate below was computed.
    pub computed_in_epoch: u64,
    /// Pool-managed balance at that time.
    pub sol_balance: Lamports,
    /// Pool-share supply at that time.
    pub st_sol_supply: StLamports,
}

/// Human-readable metadata published by a validator.
#[derive(Debug)]
pub struct ValidatorInfo {
    pub name: String,
    pub keybase_username: Option<String>,
}

/// When delegations may be moved: at any slot, or only once the current epoch
/// is nearly over.
#[derive(Clone, Copy, PartialEq, Eq, Structural, Debug)]
pub enum StakeTime {
    Anytime,
    OnlyNearEpochEnd,
}

/// Sum of the stake-account totals of a sequence of accounts.
pub open spec fn seq_stake_total(accounts: Seq<StakeAccount>) -> int
    decreases accounts.len(),
{
    if accounts.len() == 0 {
        0
    } else {
        seq_stake_total(accounts.drop_last()) + accounts.last().balance.total_spec()
    }
}

/// Sum of the effective stake balances of a sequence of validators.
pub open spec fn seq_effective_sum(validators: Seq<Validator>) -> int
    decreases validators.len(),
{
    if validators.len() == 0 {
        0
    } else {
        seq_effective_sum(validators.drop_last())
            + spec_effective_stake_balance(validators.last())
    }
}

/// A snapshot of all on-ledger accounts relevant to the pool, taken at one
/// slot. The engine is a pure function of this value.
pub struct SolidoState {
    /// Share-price bookkeeping recorded on the pool.
    pub exchange_rate: ExchangeRate,
    /// The pool's performance policy.
    pub criteria: Criteria,
    /// The on-ledger validator list, in list order. Order is significant: it
    /// ties each validator to the parallel vectors below and to its targets.
    pub validators: Vec<Validator>,
    /// The on-ledger maintainer list, in list order. Order is significant:
    /// list position drives the duty rotation.
    pub maintainers: Vec<Maintainer>,
    /// For each validator, its live stake accounts in seed order.
    pub validator_stake_accounts: Vec<Vec<StakeAccount>>,
    /// For each validator, its live unstake accounts in seed order.
    pub validator_unstake_accounts: Vec<Vec<StakeAccount>>,
    /// For each validator, the observed vote-account state, or `None` if the
    /// vote account was closed by its operator.
    pub validator_vote_accounts: Vec<Option<VoteState>>,
    /// For each validator, its recorded performance, if any.
    pub validator_perfs: Vec<Option<ValidatorPerf>>,
    /// For each validator, an externally supplied block production rate
    /// (scaled so `u64::MAX` stands for 1.0), if available.
    pub validator_block_production_rates: Vec<Option<u64>>,
    /// For each validator, its vote account balance net of rent.
    pub validator_vote_account_balances: Vec<Lamports>,
    /// For each validator, its identity account balance net of rent.
    pub validator_identity_account_balances: Vec<Lamports>,
    /// For each validator, its published metadata.
    pub validator_infos: Vec<ValidatorInfo>,
    /// For each maintainer, its account balance.
    pub maintainer_balances: Vec<Lamports>,
    /// Raw balance of the reserve account, rent included.
    pub reserve_account_balance: Lamports,
    /// Rent-exempt minimum for the (data-less) reserve account.
    pub reserve_rent: Lamports,
    /// Rent-exempt minimum for a stake-sized account.
    pub stake_rent: Lamports,
    /// Current supply of the pool-share token.
    pub st_sol_supply: StLamports,
    /// The ledger clock at snapshot time.
    pub clock: Clock,
    /// The ledger's epoch layout.
    pub epoch_schedule: EpochSchedule,
    /// The identity executing the maintenance. Membership in `maintainers` is
    /// not assumed; the ledger checks it independently.
    pub maintainer_address: Pubkey,
    /// When delegations may be moved.
    pub stake_time: StakeTime,
    /// Epoch progress, in percent, at which the epoch counts as ending.
    pub end_of_epoch_threshold: u8,
}

impl SolidoState {
    /// Well-formedness of one validator's slice of the snapshot: seed windows
    /// are ordered and agree with the account lists, accounts appear in seed
    /// order, balances fit in a `u64`, and every stake account keeps at least
    /// its rent-exempt minimum inactive.
    pub open spec fn validator_entry_wf(&self, i: int) -> bool {
        let v = self.validators@[i];
        let sa = self.validator_stake_accounts@[i]@;
        let ua = self.validator_unstake_accounts@[i]@;
        &&& v.stake_seeds.begin <= v.stake_seeds.end
        &&& v.unstake_seeds.begin <= v.unstake_seeds.end
        &&& sa.len() == v.stake_seeds.end - v.stake_seeds.begin
        &&& ua.len() == v.unstake_seeds.end - v.unstake_seeds.begin
        &&& forall|k: int| 0 <= k < sa.len() ==> (#[trigger] sa[k]).seed == v.stake_seeds.begin + k
        &&& forall|k: int| 0 <= k < ua.len() ==> (#[trigger] ua[k]).seed == v.unstake_seeds.begin + k
        &&& forall|k: int| 0 <= k < sa.len() ==> (#[trigger] sa[k]).balance.total_spec() <= u64::MAX
        &&& forall|k: int| 0 <= k < ua.len() ==> (#[trigger] ua[k]).balance.total_spec() <= u64::MAX
        &&& forall|k: int| 0 <= k < sa.len()
            ==> (#[trigger] sa[k]).balance.inactive.0 >= self.stake_rent.0
        &&& forall|k: int| 0 <= k < sa.len()
            ==> (#[trigger] sa[k]).balance.total_spec() >= MINIMUM_STAKE_ACCOUNT_BALANCE
        &&& seq_stake_total(sa) <= u64::MAX
        &&& seq_stake_total(ua) <= u64::MAX
        &&& v.unstake_accounts_balance.0 <= v.stake_accounts_balance.0
    }

    /// Well-formedness of the whole snapshot. Every clause either restates a
    /// ledger-guaranteed invariant or bounds a quantity by what a `u64` can
    /// hold (no account, and no sum over the pool's accounts, can exceed the
    /// token's total supply, which fits in a `u64`).
    pub open spec fn wf(&self) -> bool {
        &&& self.epoch_schedule.wf()
        &&& self.clock.epoch < u64::MAX
        &&& spec_first_slot_in_epoch(self.epoch_schedule, self.clock.epoch as int)
            <= self.clock.slot
        &&& self.clock.slot
            < spec_first_slot_in_epoch(self.epoch_schedule, self.clock.epoch + 1int)
        &&& spec_first_slot_in_epoch(self.epoch_schedule, self.clock.epoch + 1int) <= u64::MAX
        &&& self.validators@.len() == self.validator_stake_accounts@.len()
        &&& self.validators@.len() == self.validator_unstake_accounts@.len()
        &&& self.validators@.len() == self.validator_vote_accounts@.len()
        &&& self.validators@.len() == self.validator_perfs@.len()
        &&& self.validators@.len() == self.validator_block_production_rates@.len()
        &&& self.validators@.len() == self.validator_vote_account_balances@.len()
        &&& self.validators@.len() == self.validator_identity_account_balances@.len()
        &&& self.validators@.len() == self.validator_infos@.len()
        &&& self.maintainers@.len() == self.maintainer_balances@.len()
        &&& forall|i: int| 0 <= i < self.validators@.len() ==> self.validator_entry_wf(i)
        &&& forall|i: int, j: int|
            0 <= i < j < self.validators@.len()
                ==> (#[trigger] self.validators@[i]).vote_account_address
                    != (#[trigger] self.validators@[j]).vote_account_address
        &&& seq_effective_sum(self.validators@) + self.reserve_account_balance.0 <= u64::MAX
        &&& forall|i: int| 0 <= i < self.validators@.len()
            ==> spec_effective_stake_balance(#[trigger] self.validators@[i]) >= 0
        &&& self.clock.slot + 2 * (self.maintainers@.len() * MAINTAINER_DUTY_SLICE_LENGTH)
            <= u64::MAX
    }

    /// Amount in the reserve that can be spent while keeping the reserve
    /// rent-exempt.
    pub open spec fn spec_effective_reserve(&self) -> int {
        if self.reserve_account_balance.0 >= self.reserve_rent.0 {
            self.reserve_account_balance.0 - self.reserve_rent.0
        } else {
            0
        }
    }

    /// Return the amount in the reserve account that could be spent while
    /// still keeping the reserve account rent-exempt.
    pub fn get_effective_reserve(&self) -> (r: Lamports)
        ensures
            r.0 == self.spec_effective_reserve(),
    {
        if self.reserve_account_balance.0 >= self.reserve_rent.0 {
            Lamports(self.reserve_account_balance.0 - self.reserve_rent.0)
        } else {
            Lamports(0)
        }
    }
}

} // verus!
