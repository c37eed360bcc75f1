//! The target balance allocator.
//!
//! Given the undelegated balance available to deploy and the validator set,
//! computes a per-validator target balance that sums to the whole pool
//! (delegated plus undelegated) spread evenly over the active validators,
//! and answers the two queries the task selector needs: which active
//! validator is furthest below its target, and which active validator
//! exceeds its target by more than a configured relative threshold.

use vstd::prelude::*;
use vstd::arithmetic::div_mod::lemma_div_is_ordered_by_denominator;
use vstd::arithmetic::div_mod::lemma_div_is_ordered;
use vstd::arithmetic::div_mod::lemma_fundamental_div_mod;
use vstd::arithmetic::div_mod::lemma_mod_division_less_than_divisor;
use crate::token::Lamports;
use crate::token::Rational;
use crate::state::Validator;
use crate::state::seq_effective_sum;
use crate::state::spec_effective_stake_balance;

verus! {

/// Failure of the allocator.
#[derive(Clone, Copy, PartialEq, Eq, Structural, Debug)]
pub enum AllocationError {
    /// Target balances are defined only when at least one validator is
    /// active; callers must check before asking.
    NoActiveValidators,
}

/// The number of active validators in the sequence.
pub open spec fn seq_active_count(validators: Seq<Validator>) -> int
    decreases validators.len(),
{
    if validators.len() == 0 {
        0
    } else {
        seq_active_count(validators.drop_last()) + if validators.last().active {
            1int
        } else {
            0int
        }
    }
}

/// The target balance of the validator at position `i`: inactive validators
/// are targeted at zero; the pool total (delegated plus undelegated) is
/// divided evenly over the active validators, with the remainder going one
/// lamport at a time to the earliest active validators.
pub open spec fn spec_target(validators: Seq<Validator>, undelegated: int, i: int) -> int {
    let total = seq_effective_sum(validators) + undelegated;
    let active_count = seq_active_count(validators);
    if !validators[i].active {
        0
    } else {
        total / active_count + if seq_active_count(validators.take(i)) < total % active_count {
            1int
        } else {
            0int
        }
    }
}

/// How far the validator at position `i` is below its target (zero if at or
/// above it, and for inactive validators).
pub open spec fn spec_shortfall(validators: Seq<Validator>, targets: Seq<Lamports>, i: int) -> int {
    if !validators[i].active {
        0
    } else if targets[i].0 > spec_effective_stake_balance(validators[i]) {
        targets[i].0 - spec_effective_stake_balance(validators[i])
    } else {
        0
    }
}

/// How far the validator at position `i` is above its target (zero if at or
/// below it, and for inactive validators).
pub open spec fn spec_excess(validators: Seq<Validator>, targets: Seq<Lamports>, i: int) -> int {
    if !validators[i].active {
        0
    } else if spec_effective_stake_balance(validators[i]) > targets[i].0 {
        spec_effective_stake_balance(validators[i]) - targets[i].0
    } else {
        0
    }
}

/// `i` is the first position among the active validators at which the excess
/// over target is largest.
pub open spec fn spec_is_first_max_excess(
    validators: Seq<Validator>,
    targets: Seq<Lamports>,
    i: int,
) -> bool {
    &&& 0 <= i < validators.len()
    &&& validators[i].active
    &&& forall|j: int|
        0 <= j < validators.len() && (#[trigger] validators[j]).active
            ==> spec_excess(validators, targets, j) <= spec_excess(validators, targets, i)
    &&& forall|j: int|
        0 <= j < i && (#[trigger] validators[j]).active
            ==> spec_excess(validators, targets, j) < spec_excess(validators, targets, i)
}

/// The sum of the target balances of the first `i` validators.
pub open spec fn seq_target_sum(validators: Seq<Validator>, undelegated: int, i: int) -> int
    decreases i,
{
    if i <= 0 {
        0
    } else {
        seq_target_sum(validators, undelegated, i - 1)
            + spec_target(validators, undelegated, i - 1)
    }
}

/// A prefix of the targets accounts for the even share of each of its
/// active validators plus as much of the remainder as its active count
/// covers.
proof fn lemma_target_sum_prefix(validators: Seq<Validator>, undelegated: int, i: int)
    requires
        0 <= i <= validators.len(),
        seq_active_count(validators) > 0,
    ensures
        ({
            let total = seq_effective_sum(validators) + undelegated;
            let n = seq_active_count(validators);
            let act = seq_active_count(validators.take(i));
            seq_target_sum(validators, undelegated, i)
                == (total / n) * act + if act < total % n {
                    act
                } else {
                    total % n
                }
        }),
    decreases i,
{
    let total = seq_effective_sum(validators) + undelegated;
    let n = seq_active_count(validators);
    let per = total / n;
    let rem = total % n;
    lemma_active_count_prefix_bounds(validators, i);
    if i == 0 {
        assert(validators.take(0) =~= Seq::<Validator>::empty());
    } else {
        lemma_target_sum_prefix(validators, undelegated, i - 1);
        lemma_active_count_prefix(validators, i - 1);
        let act_before = seq_active_count(validators.take(i - 1));
        let act = seq_active_count(validators.take(i));
        lemma_mod_division_less_than_divisor(total, n);
        if validators[i - 1].active {
            assert(act == act_before + 1);
            assert(per * act == per * act_before + per) by (nonlinear_arith)
                requires
                    act == act_before + 1,
            ;
        } else {
            assert(act == act_before);
        }
    }
}

/// The law of the allocator: the target balances, taken together, assign
/// exactly the whole pool — everything already delegated plus the
/// undelegated balance — across the validator set.
pub proof fn lemma_targets_sum_to_pool(validators: Seq<Validator>, undelegated: int)
    requires
        seq_active_count(validators) > 0,
    ensures
        seq_target_sum(validators, undelegated, validators.len() as int)
            == seq_effective_sum(validators) + undelegated,
{
    let total = seq_effective_sum(validators) + undelegated;
    let n = seq_active_count(validators);
    lemma_target_sum_prefix(validators, undelegated, validators.len() as int);
    assert(validators.take(validators.len() as int) =~= validators);
    lemma_mod_division_less_than_divisor(total, n);
    lemma_fundamental_div_mod(total, n);
    assert(n * (total / n) == (total / n) * n) by (nonlinear_arith);
}

/// There is an active validator exactly when the active count is positive.
pub proof fn lemma_active_count_exists(validators: Seq<Validator>)
    ensures
        seq_active_count(validators) > 0 <==> exists|i: int|
            0 <= i < validators.len() && (#[trigger] validators[i]).active,
        seq_active_count(validators) >= 0,
    decreases validators.len(),
{
    if validators.len() > 0 {
        lemma_active_count_exists(validators.drop_last());
        if validators.last().active {
            assert(validators[validators.len() - 1].active);
        } else if seq_active_count(validators.drop_last()) > 0 {
            let i = choose|i: int|
                0 <= i < validators.drop_last().len()
                    && (#[trigger] validators.drop_last()[i]).active;
            assert(validators[i].active);
        } else {
            assert forall|i: int|
                0 <= i < validators.len() && (#[trigger] validators[i]).active
                    implies false by {
                if i < validators.len() - 1 {
                    assert(validators.drop_last()[i].active);
                }
            }
        }
    }
}

/// A prefix sum of effective balances is non-negative.
proof fn lemma_effective_sum_prefix_nonneg(validators: Seq<Validator>, i: int)
    requires
        0 <= i <= validators.len(),
        forall|k: int|
            0 <= k < validators.len()
                ==> spec_effective_stake_balance(#[trigger] validators[k]) >= 0,
    ensures
        seq_effective_sum(validators.take(i)) >= 0,
    decreases i,
{
    if i > 0 {
        assert(validators.take(i).drop_last() =~= validators.take(i - 1));
        assert(validators.take(i).last() == validators[i - 1]);
        lemma_effective_sum_prefix_nonneg(validators, i - 1);
    }
}

/// Prefix sums of effective balances are bounded by the full sum and are
/// non-negative.
pub proof fn lemma_effective_sum_prefix(validators: Seq<Validator>, i: int)
    requires
        0 <= i <= validators.len(),
        forall|k: int|
            0 <= k < validators.len()
                ==> spec_effective_stake_balance(#[trigger] validators[k]) >= 0,
    ensures
        0 <= seq_effective_sum(validators.take(i)) <= seq_effective_sum(validators),
        i < validators.len() ==> seq_effective_sum(validators.take(i + 1))
            == seq_effective_sum(validators.take(i))
                + spec_effective_stake_balance(validators[i]),
    decreases validators.len() - i,
{
    lemma_effective_sum_prefix_nonneg(validators, i);
    if i < validators.len() {
        assert(validators.take(i + 1).drop_last() =~= validators.take(i));
        assert(validators.take(i + 1).last() == validators[i]);
        lemma_effective_sum_prefix(validators, i + 1);
    } else {
        assert(validators.take(i) =~= validators);
    }
}

/// A prefix count of active validators is between zero and the prefix
/// length.
proof fn lemma_active_count_prefix_bounds(validators: Seq<Validator>, i: int)
    requires
        0 <= i <= validators.len(),
    ensures
        0 <= seq_active_count(validators.take(i)) <= i,
    decreases i,
{
    if i > 0 {
        assert(validators.take(i).drop_last() =~= validators.take(i - 1));
        assert(validators.take(i).last() == validators[i - 1]);
        lemma_active_count_prefix_bounds(validators, i - 1);
    }
}

/// Prefix counts of active validators are bounded by the prefix length and
/// by the full count.
pub proof fn lemma_active_count_prefix(validators: Seq<Validator>, i: int)
    requires
        0 <= i <= validators.len(),
    ensures
        0 <= seq_active_count(validators.take(i)) <= seq_active_count(validators),
        seq_active_count(validators.take(i)) <= i,
        i < validators.len() ==> seq_active_count(validators.take(i + 1))
            == seq_active_count(validators.take(i)) + if validators[i].active {
                1int
            } else {
                0int
            },
    decreases validators.len() - i,
{
    lemma_active_count_prefix_bounds(validators, i);
    if i < validators.len() {
        assert(validators.take(i + 1).drop_last() =~= validators.take(i));
        assert(validators.take(i + 1).last() == validators[i]);
        lemma_active_count_prefix(validators, i + 1);
    } else {
        assert(validators.take(i) =~= validators);
    }
}

/// Compute every validator's target balance, given the undelegated balance
/// available to deploy. Fails exactly when no validator is active.
pub fn get_target_balance(
    undelegated_lamports: Lamports,
    validators: &Vec<Validator>,
) -> (r: Result<Vec<Lamports>, AllocationError>)
    requires
        forall|k: int|
            0 <= k < validators@.len()
                ==> spec_effective_stake_balance(#[trigger] validators@[k]) >= 0,
        seq_effective_sum(validators@) + undelegated_lamports.0 <= u64::MAX,
    ensures
        r is Ok <==> seq_active_count(validators@) > 0,
        r matches Ok(targets) ==> {
            &&& targets@.len() == validators@.len()
            &&& forall|i: int|
                0 <= i < validators@.len()
                    ==> (#[trigger] targets@[i]).0
                        == spec_target(validators@, undelegated_lamports.0 as int, i)
        },
{
    let n = validators.len();

    // First pass: the pool total and the number of active validators.
    let mut total_delegated: u64 = 0;
    let mut active_count: u64 = 0;
    let mut i: usize = 0;
    proof {
        assert(validators@.take(0) =~= Seq::<Validator>::empty());
    }
    while i < n
        invariant
            0 <= i <= n,
            n == validators@.len(),
            forall|k: int|
                0 <= k < validators@.len()
                    ==> spec_effective_stake_balance(#[trigger] validators@[k]) >= 0,
            seq_effective_sum(validators@) + undelegated_lamports.0 <= u64::MAX,
            total_delegated == seq_effective_sum(validators@.take(i as int)),
            active_count == seq_active_count(validators@.take(i as int)),
            active_count <= i,
        decreases n - i,
    {
        proof {
            lemma_effective_sum_prefix(validators@, i as int);
            lemma_effective_sum_prefix(validators@, i + 1);
            lemma_active_count_prefix(validators@, i as int);
        }
        let v = &validators[i];
        total_delegated = total_delegated + v.compute_effective_stake_balance().0;
        if v.is_active() {
            active_count = active_count + 1;
        }
        i = i + 1;
    }
    proof {
        assert(validators@.take(n as int) =~= validators@);
        lemma_active_count_prefix(validators@, n as int);
    }

    if active_count == 0 {
        return Err(AllocationError::NoActiveValidators);
    }

    let total: u64 = total_delegated + undelegated_lamports.0;
    let per_validator: u64 = total / active_count;
    let remainder: u64 = total % active_count;

    // Second pass: assign each active validator its even share, the earliest
    // active ones taking one extra lamport of the remainder.
    let mut targets: Vec<Lamports> = Vec::new();
    let mut rank: u64 = 0;
    let mut i: usize = 0;
    proof {
        assert(validators@.take(0) =~= Seq::<Validator>::empty());
        lemma_mod_division_less_than_divisor(total as int, active_count as int);
    }
    while i < n
        invariant
            0 <= i <= n,
            n == validators@.len(),
            total == seq_effective_sum(validators@) + undelegated_lamports.0,
            active_count == seq_active_count(validators@),
            active_count > 0,
            per_validator == total as int / active_count as int,
            remainder == total as int % active_count as int,
            remainder < active_count,
            targets@.len() == i,
            rank == seq_active_count(validators@.take(i as int)),
            rank <= i,
            forall|k: int|
                0 <= k < i
                    ==> (#[trigger] targets@[k]).0
                        == spec_target(validators@, undelegated_lamports.0 as int, k),
        decreases n - i,
    {
        proof {
            lemma_active_count_prefix(validators@, i as int);
        }
        let v = &validators[i];
        if v.is_active() {
            let extra: u64 = if rank < remainder {
                proof {
                    // A positive remainder means at least two active
                    // validators, so the even share leaves room for the
                    // extra lamport.
                    lemma_div_is_ordered_by_denominator(total as int, 2, active_count as int);
                    lemma_div_is_ordered(total as int, u64::MAX as int, 2);
                }
                1
            } else {
                0
            };
            targets.push(Lamports(per_validator + extra));
            rank = rank + 1;
        } else {
            targets.push(Lamports(0));
        }
        i = i + 1;
    }
    Ok(targets)
}

/// Among the active validators, find the first one whose balance is furthest
/// below its target, together with the shortfall.
pub fn get_minimum_stake_validator_index_amount(
    validators: &Vec<Validator>,
    targets: &Vec<Lamports>,
) -> (r: (usize, Lamports))
    requires
        targets@.len() == validators@.len(),
        exists|i: int| 0 <= i < validators@.len() && (#[trigger] validators@[i]).active,
        forall|k: int|
            0 <= k < validators@.len()
                ==> spec_effective_stake_balance(#[trigger] validators@[k]) >= 0,
    ensures
        0 <= r.0 < validators@.len(),
        validators@[r.0 as int].active,
        r.1.0 == spec_shortfall(validators@, targets@, r.0 as int),
        forall|j: int|
            0 <= j < validators@.len() && (#[trigger] validators@[j]).active
                ==> spec_shortfall(validators@, targets@, j) <= r.1.0,
        forall|j: int|
            0 <= j < r.0 && (#[trigger] validators@[j]).active
                ==> spec_shortfall(validators@, targets@, j) < r.1.0,
{
    let n = validators.len();
    let mut best_index: usize = 0;
    let mut best_shortfall: u64 = 0;
    let mut seen_active: bool = false;
    let mut i: usize = 0;
    while i < n
        invariant
            0 <= i <= n,
            n == validators@.len(),
            targets@.len() == validators@.len(),
            forall|k: int|
                0 <= k < validators@.len()
                    ==> spec_effective_stake_balance(#[trigger] validators@[k]) >= 0,
            seen_active ==> 0 <= best_index < i && validators@[best_index as int].active
                && best_shortfall == spec_shortfall(validators@, targets@, best_index as int),
            !seen_active ==> forall|j: int|
                0 <= j < i ==> !(#[trigger] validators@[j]).active,
            forall|j: int|
                0 <= j < i && (#[trigger] validators@[j]).active
                    ==> spec_shortfall(validators@, targets@, j) <= best_shortfall,
            seen_active ==> forall|j: int|
                0 <= j < best_index && (#[trigger] validators@[j]).active
                    ==> spec_shortfall(validators@, targets@, j) < best_shortfall,
        decreases n - i,
    {
        let v = &validators[i];
        if v.is_active() {
            let effective = v.compute_effective_stake_balance().0;
            let shortfall: u64 = if targets[i].0 > effective {
                targets[i].0 - effective
            } else {
                0
            };
            if !seen_active || shortfall > best_shortfall {
                best_index = i;
                best_shortfall = shortfall;
                seen_active = true;
            }
        }
        i = i + 1;
    }
    (best_index, Lamports(best_shortfall))
}

/// Among the active validators, find the first one whose balance is furthest
/// above its target; if that excess is more than `threshold` of the target,
/// return it with the excess amount, else `None`.
pub fn get_unstake_validator_index(
    validators: &Vec<Validator>,
    targets: &Vec<Lamports>,
    threshold: Rational,
) -> (r: Option<(usize, Lamports)>)
    requires
        targets@.len() == validators@.len(),
        forall|k: int|
            0 <= k < validators@.len()
                ==> spec_effective_stake_balance(#[trigger] validators@[k]) >= 0,
    ensures
        r matches Some((index, amount)) ==> {
            &&& spec_is_first_max_excess(validators@, targets@, index as int)
            &&& amount.0 == spec_excess(validators@, targets@, index as int)
            &&& amount.0 * threshold.denominator
                > threshold.numerator * targets@[index as int].0
        },
        r is None ==> forall|i: int|
            spec_is_first_max_excess(validators@, targets@, i)
                ==> spec_excess(validators@, targets@, i) * threshold.denominator
                    <= threshold.numerator * targets@[i].0,
{
    let n = validators.len();
    let mut best_index: usize = 0;
    let mut best_excess: u64 = 0;
    let mut seen_active: bool = false;
    let mut i: usize = 0;
    while i < n
        invariant
            0 <= i <= n,
            n == validators@.len(),
            targets@.len() == validators@.len(),
            forall|k: int|
                0 <= k < validators@.len()
                    ==> spec_effective_stake_balance(#[trigger] validators@[k]) >= 0,
            seen_active ==> 0 <= best_index < i && validators@[best_index as int].active
                && best_excess == spec_excess(validators@, targets@, best_index as int),
            !seen_active ==> forall|j: int|
                0 <= j < i ==> !(#[trigger] validators@[j]).active,
            forall|j: int|
                0 <= j < i && (#[trigger] validators@[j]).active
                    ==> spec_excess(validators@, targets@, j) <= best_excess,
            seen_active ==> forall|j: int|
                0 <= j < best_index && (#[trigger] validators@[j]).active
                    ==> spec_excess(validators@, targets@, j) < best_excess,
        decreases n - i,
    {
        let v = &validators[i];
        if v.is_active() {
            let effective = v.compute_effective_stake_balance().0;
            let excess: u64 = if effective > targets[i].0 {
                effective - targets[i].0
            } else {
                0
            };
            if !seen_active || excess > best_excess {
                best_index = i;
                best_excess = excess;
                seen_active = true;
            }
        }
        i = i + 1;
    }
    if !seen_active {
        return None;
    }

    // The candidate must be over its target by more than the threshold
    // fraction of the target.
    let imbalance = Rational {
        numerator: best_excess,
        denominator: targets[best_index].0,
    };
    if imbalance.gt(&threshold) {
        Some((best_index, Lamports(best_excess)))
    } else {
        proof {
            // The first position with maximal excess is unique, so a failed
            // threshold check at the candidate settles the answer for every
            // such position.
            assert forall|i: int|
                spec_is_first_max_excess(validators@, targets@, i)
                    implies spec_excess(validators@, targets@, i) * threshold.denominator
                        <= threshold.numerator * targets@[i].0 by {
                let b = best_index as int;
                if i < b {
                    assert(spec_excess(validators@, targets@, i)
                        < spec_excess(validators@, targets@, b));
                    assert(spec_excess(validators@, targets@, b)
                        <= spec_excess(validators@, targets@, i));
                } else if i > b {
                    assert(spec_excess(validators@, targets@, b)
                        < spec_excess(validators@, targets@, i));
                    assert(spec_excess(validators@, targets@, i)
                        <= spec_excess(validators@, targets@, b));
                }
            }
        }
        None
    }
}

} // verus!
