//! The ledger's epoch layout and the epoch timing gate.
//!
//! Slots are grouped into epochs. Early epochs ("warmup") double in length,
//! starting from [`MINIMUM_SLOTS_PER_EPOCH`], until the configured epoch
//! length is reached at `first_normal_epoch`; from there every epoch has
//! `slots_per_epoch` slots. Epoch-scoped maintenance actions are gated on the
//! current slot being close enough to the end of its epoch, measured as an
//! exact ratio against a percentage threshold.

use vstd::prelude::*;
use vstd::arithmetic::power2::pow2;
use vstd::arithmetic::power2::lemma_pow2_unfold;
use vstd::arithmetic::power2::lemma_pow2_strictly_increases;
use vstd::arithmetic::power2::lemma_pow2_pos;
use crate::token::Rational;
use crate::state::SolidoState;
use crate::state::StakeTime;

verus! {

/// The length of the shortest (first) epoch, and the granularity of warmup
/// epoch lengths.
pub const MINIMUM_SLOTS_PER_EPOCH: u64 = 32;

/// The ledger clock at snapshot time: the current slot and the epoch it
/// falls in.
#[derive(Clone, Copy, PartialEq, Eq, Structural, Debug)]
pub struct Clock {
    pub slot: u64,
    pub epoch: u64,
}

/// The ledger's epoch layout.
#[derive(Clone, Copy, PartialEq, Eq, Structural, Debug)]
pub struct EpochSchedule {
    /// Slots in every epoch from `first_normal_epoch` on.
    pub slots_per_epoch: u64,
    /// The first epoch of full length.
    pub first_normal_epoch: u64,
    /// The slot at which `first_normal_epoch` begins.
    pub first_normal_slot: u64,
}

/// The first slot of the given epoch: warmup epochs double in length from
/// [`MINIMUM_SLOTS_PER_EPOCH`], so epoch `e < first_normal_epoch` begins at
/// `32 * (2^e - 1)`; from `first_normal_epoch` on, epochs advance by
/// `slots_per_epoch`.
pub open spec fn spec_first_slot_in_epoch(es: EpochSchedule, epoch: int) -> int {
    if epoch < es.first_normal_epoch {
        MINIMUM_SLOTS_PER_EPOCH * (pow2(epoch as nat) - 1)
    } else {
        es.first_normal_slot + (epoch - es.first_normal_epoch) * es.slots_per_epoch
    }
}

/// The number of slots in the given epoch.
pub open spec fn spec_slots_in_epoch(es: EpochSchedule, epoch: int) -> int {
    if epoch < es.first_normal_epoch {
        MINIMUM_SLOTS_PER_EPOCH * pow2(epoch as nat)
    } else {
        es.slots_per_epoch as int
    }
}

impl EpochSchedule {
    /// A schedule is well formed when its fields agree with the warmup
    /// layout: the first normal epoch starts right after the doubling warmup
    /// epochs, and normal epochs are no shorter than the minimum.
    pub open spec fn wf(&self) -> bool {
        &&& self.slots_per_epoch >= MINIMUM_SLOTS_PER_EPOCH
        &&& self.first_normal_slot
            == MINIMUM_SLOTS_PER_EPOCH * (pow2(self.first_normal_epoch as nat) - 1)
    }

    /// The first slot of the given epoch.
    pub fn first_slot_in_epoch(&self, epoch: u64) -> (r: u64)
        requires
            self.wf(),
            spec_first_slot_in_epoch(*self, epoch as int) <= u64::MAX,
        ensures
            r == spec_first_slot_in_epoch(*self, epoch as int),
    {
        if epoch < self.first_normal_epoch {
            proof {
                lemma_pow2_pos(epoch as nat);
                lemma_pow2_pos(self.first_normal_epoch as nat);
                lemma_pow2_strictly_increases(epoch as nat, self.first_normal_epoch as nat);
            }
            let p = pow2_u64(epoch);
            MINIMUM_SLOTS_PER_EPOCH * (p - 1)
        } else {
            self.first_normal_slot + (epoch - self.first_normal_epoch) * self.slots_per_epoch
        }
    }

    /// The number of slots in the given epoch.
    pub fn get_slots_in_epoch(&self, epoch: u64) -> (r: u64)
        requires
            self.wf(),
        ensures
            r == spec_slots_in_epoch(*self, epoch as int),
    {
        proof {
            lemma_slots_in_epoch_bounds(*self, epoch as int);
        }
        if epoch < self.first_normal_epoch {
            let p = pow2_u64(epoch);
            MINIMUM_SLOTS_PER_EPOCH * p
        } else {
            self.slots_per_epoch
        }
    }
}

/// In a well-formed schedule, every epoch's length is at least the minimum
/// and fits in a `u64`.
pub proof fn lemma_slots_in_epoch_bounds(es: EpochSchedule, epoch: int)
    requires
        es.wf(),
        epoch >= 0,
    ensures
        MINIMUM_SLOTS_PER_EPOCH <= spec_slots_in_epoch(es, epoch) <= u64::MAX,
{
    if epoch < es.first_normal_epoch {
        lemma_pow2_pos(epoch as nat);
        lemma_pow2_pos(es.first_normal_epoch as nat);
        lemma_pow2_strictly_increases(epoch as nat, es.first_normal_epoch as nat);
        // 2 * pow2(e) <= pow2(first_normal_epoch) because pow2(e) < pow2(fne)
        // and both are powers of two; go through pow2(e + 1).
        lemma_pow2_unfold((epoch + 1) as nat);
        if epoch + 1 < es.first_normal_epoch {
            lemma_pow2_strictly_increases((epoch + 1) as nat, es.first_normal_epoch as nat);
        }
    }
}

/// An epoch's length equals the gap between consecutive epoch start slots:
/// the denominator that the strict staking gate computes from the two epoch
/// starts is the same epoch length that the inclusive epoch-end check uses,
/// so both gates measure progress against the same ratio.
pub proof fn lemma_slots_in_epoch_is_gap(es: EpochSchedule, epoch: int)
    requires
        es.wf(),
        epoch >= 0,
    ensures
        spec_slots_in_epoch(es, epoch)
            == spec_first_slot_in_epoch(es, epoch + 1) - spec_first_slot_in_epoch(es, epoch),
{
    let fne = es.first_normal_epoch as int;
    let spe = es.slots_per_epoch as int;
    if epoch + 1 < fne {
        lemma_pow2_unfold((epoch + 1) as nat);
    } else if epoch < fne {
        // epoch + 1 == first_normal_epoch: the gap ends exactly at
        // first_normal_slot.
        lemma_pow2_unfold(es.first_normal_epoch as nat);
        assert((epoch + 1 - fne) * spe == 0) by (nonlinear_arith)
            requires
                epoch + 1 == fne,
        ;
    } else {
        assert((epoch + 1 - fne) * spe == (epoch - fne) * spe + spe) by (nonlinear_arith);
    }
}

/// `2^e`, by repeated doubling.
fn pow2_u64(e: u64) -> (r: u64)
    requires
        pow2(e as nat) <= u64::MAX,
    ensures
        r == pow2(e as nat),
{
    let mut r: u64 = 1;
    let mut i: u64 = 0;
    proof {
        vstd::arithmetic::power2::lemma2_to64();
    }
    while i < e
        invariant
            i <= e,
            r == pow2(i as nat),
            pow2(e as nat) <= u64::MAX,
        decreases e - i,
    {
        proof {
            lemma_pow2_unfold((i + 1) as nat);
            if i + 1 < e {
                lemma_pow2_strictly_increases((i + 1) as nat, e as nat);
            }
        }
        r = 2 * r;
        i = i + 1;
    }
    r
}

impl SolidoState {
    /// How many slots of the current epoch have passed at the snapshot's
    /// slot.
    pub fn slots_into_current_epoch(&self) -> (r: u64)
        requires
            self.wf(),
        ensures
            r == self.clock.slot
                - spec_first_slot_in_epoch(self.epoch_schedule, self.clock.epoch as int),
    {
        let first_slot_in_current_epoch =
            self.epoch_schedule.first_slot_in_epoch(self.clock.epoch);
        self.clock.slot - first_slot_in_current_epoch
    }

    /// The epoch's progress, as the exact ratio `slots into epoch / slots in
    /// epoch`, has reached the configured percentage threshold.
    pub open spec fn spec_is_at_epoch_end(&self) -> bool {
        let slots_into = self.clock.slot
            - spec_first_slot_in_epoch(self.epoch_schedule, self.clock.epoch as int);
        100 * slots_into >= self.end_of_epoch_threshold
            * spec_slots_in_epoch(self.epoch_schedule, self.clock.epoch as int)
    }

    /// Whether the current slot is at or past `end_of_epoch_threshold`
    /// percent of the current epoch. The boundary is inclusive: progress
    /// exactly at the threshold ratio counts as the epoch's end.
    pub fn is_at_epoch_end(&self) -> (r: bool)
        requires
            self.wf(),
        ensures
            r == self.spec_is_at_epoch_end(),
    {
        let slots_into_current_epoch = self.slots_into_current_epoch();
        let slots_per_epoch = self.epoch_schedule.get_slots_in_epoch(self.clock.epoch);

        let epoch_progress = Rational {
            numerator: slots_into_current_epoch,
            denominator: slots_per_epoch,
        };
        // `end_of_epoch_threshold` is supplied as a percentage.
        let near_epoch_end = Rational {
            numerator: self.end_of_epoch_threshold as u64,
            denominator: 100,
        };
        epoch_progress.gte(&near_epoch_end)
    }

    /// The two-mode gate on moving delegations: `Anytime` always permits;
    /// `OnlyNearEpochEnd` permits only strictly past the threshold ratio of
    /// the current epoch.
    pub open spec fn spec_should_stake_unstake(&self) -> bool {
        match self.stake_time {
            StakeTime::Anytime => true,
            StakeTime::OnlyNearEpochEnd => {
                let begin = spec_first_slot_in_epoch(self.epoch_schedule, self.clock.epoch as int);
                let next = spec_first_slot_in_epoch(
                    self.epoch_schedule,
                    self.clock.epoch + 1int,
                );
                100 * (self.clock.slot - begin) > self.end_of_epoch_threshold * (next - begin)
            },
        }
    }

    /// Return `None` if the policy forbids staking or unstaking in the
    /// current slot; `Some(())` if it is permitted. Not being permitted now
    /// is not an error: the caller tries other actions or waits.
    pub fn confirm_should_stake_unstake_in_current_slot(&self) -> (r: Option<()>)
        requires
            self.wf(),
        ensures
            r is Some <==> self.spec_should_stake_unstake(),
            self.stake_time is Anytime ==> r is Some,
    {
        match self.stake_time {
            StakeTime::Anytime => Some(()),
            StakeTime::OnlyNearEpochEnd => {
                // The slot that the current epoch started at, and the slot
                // the next one will.
                let slots_epoch_begin =
                    self.epoch_schedule.first_slot_in_epoch(self.clock.epoch);
                let next_epoch_begin =
                    self.epoch_schedule.first_slot_in_epoch(self.clock.epoch + 1);
                let slots_per_epoch = next_epoch_begin - slots_epoch_begin;
                let slot_past_epoch = self.clock.slot - slots_epoch_begin;
                let ratio = Rational {
                    numerator: slot_past_epoch,
                    denominator: slots_per_epoch,
                };
                let threshold = Rational {
                    numerator: self.end_of_epoch_threshold as u64,
                    denominator: 100,
                };
                if ratio.gt(&threshold) {
                    Some(())
                } else {
                    None
                }
            },
        }
    }
}

} // verus!
