//! The maintainer duty scheduler.
//!
//! Several cooperating maintainer processes watch the same pool without a
//! coordinator. To keep them from all submitting the same race-prone action
//! at once, slot time is divided into fixed-length slices and each slice is
//! assigned to one maintainer by list position; the final slots of every
//! slice are a pause in which nobody is on duty, absorbing transaction
//! propagation latency at slice boundaries. The rotation is purely advisory:
//! it is a function of the shared clock and maintainer list alone, and
//! correctness never depends on it being respected.

use vstd::prelude::*;
use vstd::arithmetic::div_mod::lemma_fundamental_div_mod;
use vstd::arithmetic::div_mod::lemma_fundamental_div_mod_converse;
use vstd::arithmetic::div_mod::lemma_mod_division_less_than_divisor;
use vstd::arithmetic::div_mod::lemma_mod_multiples_vanish;
use vstd::arithmetic::div_mod::lemma_small_mod;
use vstd::arithmetic::mul::lemma_mul_inequality;
use crate::state::Maintainer;
use crate::state::Pubkey;
use crate::state::SolidoState;

verus! {

/// The number of slots between the start of a duty slice and the start of
/// the next. At an observed block time a little above half a second, one
/// slice is just under a minute per maintainer.
pub const MAINTAINER_DUTY_SLICE_LENGTH: u64 = 100;

/// The number of slots at the end of each duty slice where no maintainer is
/// on duty.
pub const MAINTAINER_DUTY_PAUSE_LENGTH: u64 = 10;

/// The maintainer on duty at the given slot: the slice `slot / 100` belongs
/// to the maintainer at list position `slice mod len`, except in the last 10
/// slots of the slice, where nobody is on duty.
pub open spec fn spec_duty_at(maintainers: Seq<Maintainer>, slot: int) -> Option<Pubkey> {
    let slice_len = MAINTAINER_DUTY_SLICE_LENGTH as int;
    let pause_len = MAINTAINER_DUTY_PAUSE_LENGTH as int;
    if maintainers.len() == 0 {
        None
    } else if slot % slice_len >= slice_len - pause_len {
        None
    } else {
        Some(maintainers[(slot / slice_len) % (maintainers.len() as int)].pubkey)
    }
}

/// Whether the key is a member of the maintainer list.
pub open spec fn spec_is_maintainer(maintainers: Seq<Maintainer>, key: Pubkey) -> bool {
    exists|i: int| 0 <= i < maintainers.len() && maintainers[i].pubkey == key
}

/// The start of the next duty slice of the maintainer at the given list
/// position, strictly after `slot`: each full cycle of `len * 100` slots
/// gives every maintainer one slice, in list order; if this maintainer's
/// slice in the current cycle has already started, its next one is a full
/// cycle later.
pub open spec fn spec_next_duty_slot_for_index(len: int, slot: int, index: int) -> int {
    let cycle = len * MAINTAINER_DUTY_SLICE_LENGTH;
    let cycle_start = (slot / cycle) * cycle;
    let start = cycle_start + index * MAINTAINER_DUTY_SLICE_LENGTH;
    if start <= slot {
        start + cycle
    } else {
        start
    }
}

impl SolidoState {
    /// Return the maintainer who is currently on duty, if any.
    ///
    /// Every maintenance action preferably has a single submitter. The
    /// rotation computed here needs no coordination: it is a function of the
    /// clock sysvar and the on-ledger maintainer list, which all cooperating
    /// processes observe identically.
    pub fn get_current_maintainer_duty(&self) -> (r: Option<Pubkey>)
        ensures
            r == spec_duty_at(self.maintainers@, self.clock.slot as int),
    {
        if self.maintainers.len() == 0 {
            return None;
        }

        let duty_slice = self.clock.slot / MAINTAINER_DUTY_SLICE_LENGTH;
        let slot_in_duty_slice = self.clock.slot % MAINTAINER_DUTY_SLICE_LENGTH;

        // In the last few slots of the slice, nobody is on duty, to minimize
        // races at the duty slice boundary.
        if slot_in_duty_slice >= MAINTAINER_DUTY_SLICE_LENGTH - MAINTAINER_DUTY_PAUSE_LENGTH {
            return None;
        }

        let maintainer_index = duty_slice % (self.maintainers.len() as u64);
        proof {
            lemma_mod_division_less_than_divisor(
                duty_slice as int,
                self.maintainers@.len() as int,
            );
        }
        Some(self.maintainers[maintainer_index as usize].pubkey)
    }

    /// Return the slot at which the given maintainer's next duty slice
    /// starts: always strictly greater than the current slot, so feeding the
    /// result back in as the current slot yields a strictly increasing
    /// sequence. Returns `None` exactly when the key is not a member of the
    /// maintainer list.
    pub fn get_next_maintainer_duty_slot(&self, maintainer: &Pubkey) -> (r: Option<u64>)
        requires
            self.clock.slot + 2 * (self.maintainers@.len() * MAINTAINER_DUTY_SLICE_LENGTH)
                <= u64::MAX,
        ensures
            r is Some <==> spec_is_maintainer(self.maintainers@, *maintainer),
            r matches Some(n) ==> exists|i: int|
                {
                    &&& 0 <= i < self.maintainers@.len()
                    &&& #[trigger] self.maintainers@[i].pubkey == *maintainer
                    &&& forall|j: int|
                        0 <= j < i ==> self.maintainers@[j].pubkey != *maintainer
                    &&& n == spec_next_duty_slot_for_index(
                        self.maintainers@.len() as int,
                        self.clock.slot as int,
                        i,
                    )
                },
            r matches Some(n) ==> n > self.clock.slot,
    {
        if self.maintainers.len() == 0 {
            return None;
        }

        // Find our position in the list; a key outside the list has no duty.
        let num_maintainers = self.maintainers.len();
        let mut self_index: usize = 0;
        let mut found: bool = false;
        while self_index < num_maintainers && !found
            invariant
                0 <= self_index <= num_maintainers,
                num_maintainers == self.maintainers@.len(),
                found ==> self_index < num_maintainers
                    && self.maintainers@[self_index as int].pubkey == *maintainer,
                forall|j: int|
                    0 <= j < self_index ==> self.maintainers@[j].pubkey != *maintainer,
            decreases num_maintainers - self_index + (if found { 0int } else { 1int }),
        {
            if self.maintainers[self_index].pubkey == *maintainer {
                found = true;
            } else {
                self_index = self_index + 1;
            }
        }
        if !found {
            return None;
        }

        proof {
            lemma_mul_inequality(1, self.maintainers@.len() as int,
                MAINTAINER_DUTY_SLICE_LENGTH as int);
            lemma_mul_inequality(self_index as int, self.maintainers@.len() as int - 1,
                MAINTAINER_DUTY_SLICE_LENGTH as int);
            assert((self.maintainers@.len() as int - 1) * (MAINTAINER_DUTY_SLICE_LENGTH as int)
                == self.maintainers@.len() as int * (MAINTAINER_DUTY_SLICE_LENGTH as int)
                    - MAINTAINER_DUTY_SLICE_LENGTH as int) by (nonlinear_arith);
        }

        // Compute the start of the current cycle, where in every cycle, every
        // maintainer has a single duty slice.
        let cycle_length = (num_maintainers as u64) * MAINTAINER_DUTY_SLICE_LENGTH;
        proof {
            lemma_fundamental_div_mod(self.clock.slot as int, cycle_length as int);
            lemma_mod_division_less_than_divisor(self.clock.slot as int, cycle_length as int);
            assert((cycle_length as int) * ((self.clock.slot as int) / (cycle_length as int))
                == ((self.clock.slot as int) / (cycle_length as int)) * (cycle_length as int))
                by (nonlinear_arith);
        }
        let current_cycle_start_slot = (self.clock.slot / cycle_length) * cycle_length;

        // Compute the start of our slice within the current cycle.
        let self_slice_start_slot =
            current_cycle_start_slot + (self_index as u64) * MAINTAINER_DUTY_SLICE_LENGTH;

        let next = if self_slice_start_slot <= self.clock.slot {
            // We already had our duty in the current cycle; the next duty is
            // in the next cycle.
            self_slice_start_slot + cycle_length
        } else {
            self_slice_start_slot
        };
        proof {
            let i = self_index as int;
            assert(next as int == spec_next_duty_slot_for_index(
                self.maintainers@.len() as int,
                self.clock.slot as int,
                i,
            ));
            lemma_next_duty_slot_agrees_with_current_duty(
                self.maintainers@,
                self.clock.slot as int,
                i,
                next as int,
            );
            assert({
                &&& 0 <= i < self.maintainers@.len()
                &&& self.maintainers@[i].pubkey == *maintainer
                &&& forall|j: int| 0 <= j < i ==> self.maintainers@[j].pubkey != *maintainer
                &&& next as int == spec_next_duty_slot_for_index(
                    self.maintainers@.len() as int,
                    self.clock.slot as int,
                    i,
                )
            });
        }
        Some(next)
    }
}

/// The round-trip law between the duty rotation and the next-duty query: if
/// `n` is the next duty slot that [`SolidoState::get_next_maintainer_duty_slot`]
/// computes for the maintainer at list position `index`, then `n` is strictly
/// in the future, the rotation assigns every working slot of the slice
/// starting at `n` to exactly that maintainer, and nobody is on duty during
/// the pause just before `n`.
pub proof fn lemma_next_duty_slot_agrees_with_current_duty(
    maintainers: Seq<Maintainer>,
    slot: int,
    index: int,
    n: int,
)
    requires
        0 <= slot,
        0 <= index < maintainers.len(),
        n == spec_next_duty_slot_for_index(maintainers.len() as int, slot, index),
    ensures
        n > slot,
        forall|s: int|
            n <= s < n + (MAINTAINER_DUTY_SLICE_LENGTH - MAINTAINER_DUTY_PAUSE_LENGTH)
                ==> spec_duty_at(maintainers, s) == Some(maintainers[index].pubkey),
        forall|s: int|
            n - MAINTAINER_DUTY_PAUSE_LENGTH <= s < n
                ==> spec_duty_at(maintainers, s) is None,
{
    let len = maintainers.len() as int;
    let slice_len = MAINTAINER_DUTY_SLICE_LENGTH as int;
    let pause_len = MAINTAINER_DUTY_PAUSE_LENGTH as int;
    let cycle = len * slice_len;
    lemma_mul_inequality(1, len, slice_len);
    assert(cycle >= slice_len);
    let q = slot / cycle;
    let cycle_start = q * cycle;
    let start = cycle_start + index * slice_len;
    lemma_fundamental_div_mod(slot, cycle);
    lemma_mod_division_less_than_divisor(slot, cycle);
    assert(cycle * q == q * cycle) by (nonlinear_arith);
    assert(cycle_start <= slot < cycle_start + cycle);
    assert(index * slice_len >= 0) by (nonlinear_arith)
        requires
            index >= 0,
            slice_len > 0,
    ;

    // In either branch, n is of the form (m * len + index) * slice_len.
    let m = if start <= slot { q + 1 } else { q };
    let t = m * len + index;
    if start <= slot {
        assert((q + 1) * cycle == q * cycle + cycle) by (nonlinear_arith);
    }
    assert(n == m * cycle + index * slice_len);
    assert(n == t * slice_len) by (nonlinear_arith)
        requires
            n == m * cycle + index * slice_len,
            cycle == len * slice_len,
            t == m * len + index,
    ;
    assert(q >= 0) by {
        vstd::arithmetic::div_mod::lemma_div_pos_is_pos(slot, cycle);
    }
    assert(m >= 0 && t >= 0) by (nonlinear_arith)
        requires
            m >= 0,
            len >= 1,
            index >= 0,
            t == m * len + index,
    ;

    // n is strictly in the future.
    if start <= slot {
        assert(n == start + cycle);
        assert(n > slot);
    } else {
        assert(n > slot);
    }
    assert(t >= 1) by (nonlinear_arith)
        requires
            t * slice_len > 0,
            slice_len > 0,
            t >= 0,
    ;

    // Every slot in the working part of the slice starting at n maps back to
    // list position `index`, outside the pause window.
    assert forall|s: int|
        n <= s < n + (slice_len - pause_len)
            implies spec_duty_at(maintainers, s) == Some(maintainers[index].pubkey) by {
        lemma_fundamental_div_mod_converse(s, slice_len, t, s - n);
        assert(s % slice_len == s - n < slice_len - pause_len);
        assert(s / slice_len == t);
        lemma_mod_multiples_vanish(m, index, len);
        lemma_small_mod(index as nat, len as nat);
        assert(len * m + index == t) by (nonlinear_arith)
            requires
                t == m * len + index,
        ;
        assert(t % len == index);
    }

    // Every slot in the pause just before n falls in the pause window of the
    // preceding slice.
    assert forall|s: int| n - pause_len <= s < n implies spec_duty_at(maintainers, s) is None by {
        assert((t - 1) * slice_len == t * slice_len - slice_len) by (nonlinear_arith);
        lemma_fundamental_div_mod_converse(s, slice_len, t - 1, s - (n - slice_len));
        assert(s % slice_len >= slice_len - pause_len);
    }
}

} // verus!
