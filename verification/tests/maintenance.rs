use solido_maintenance::balance::get_target_balance;
use solido_maintenance::balance::get_unstake_validator_index;
use solido_maintenance::duty::MAINTAINER_DUTY_PAUSE_LENGTH;
use solido_maintenance::duty::MAINTAINER_DUTY_SLICE_LENGTH;
use solido_maintenance::epoch::Clock;
use solido_maintenance::epoch::EpochSchedule;
use solido_maintenance::maintenance::MaintenanceError;
use solido_maintenance::maintenance::MaintenanceOutput;
use solido_maintenance::maintenance::Unstake;
use solido_maintenance::maintenance::MINIMUM_MAINTAINER_BALANCE;
use solido_maintenance::metrics::sanitize_validator_name;
use solido_maintenance::state::Criteria;
use solido_maintenance::state::ExchangeRate;
use solido_maintenance::state::Maintainer;
use solido_maintenance::state::Pubkey;
use solido_maintenance::state::SeedRange;
use solido_maintenance::state::SolidoState;
use solido_maintenance::state::StakeAccount;
use solido_maintenance::state::StakeBalance;
use solido_maintenance::state::StakeTime;
use solido_maintenance::state::Validator;
use solido_maintenance::state::ValidatorInfo;
use solido_maintenance::state::ValidatorPerf;
use solido_maintenance::state::VoteState;
use solido_maintenance::state::MINIMUM_STAKE_ACCOUNT_BALANCE;
use solido_maintenance::token::per64;
use solido_maintenance::token::Lamports;
use solido_maintenance::token::Rational;
use solido_maintenance::token::StLamports;

/// A distinct address for each small number.
fn pubkey(n: u64) -> Pubkey {
    Pubkey { w0: n, w1: 0, w2: 0, w3: 0 }
}

/// Rent-exempt minimum of the data-less reserve account, at default rent.
const RESERVE_RENT: u64 = 890_880;

/// Rent-exempt minimum of a stake-sized account, at default rent.
const STAKE_RENT: u64 = 2_282_880;

/// Produce a new snapshot of an empty pool, with one adequately funded
/// maintainer (the acting one) and a rent-exempt reserve.
fn new_empty_solido() -> SolidoState {
    let maintainer_address = pubkey(9001);
    SolidoState {
        exchange_rate: ExchangeRate {
            computed_in_epoch: 0,
            sol_balance: Lamports(0),
            st_sol_supply: StLamports(0),
        },
        criteria: Criteria {
            max_commission: 0,
            min_block_production_rate: 0,
            min_vote_success_rate: 0,
        },
        validators: vec![],
        maintainers: vec![Maintainer::new(maintainer_address)],
        validator_stake_accounts: vec![],
        validator_unstake_accounts: vec![],
        validator_vote_accounts: vec![],
        validator_perfs: vec![],
        validator_block_production_rates: vec![],
        validator_vote_account_balances: vec![],
        validator_identity_account_balances: vec![],
        validator_infos: vec![],
        maintainer_balances: vec![Lamports(1_000_000_000)],
        // The reserve should be rent-exempt.
        reserve_account_balance: Lamports(RESERVE_RENT),
        reserve_rent: Lamports(RESERVE_RENT),
        stake_rent: Lamports(STAKE_RENT),
        st_sol_supply: StLamports(0),
        clock: Clock { slot: 0, epoch: 0 },
        // The default ledger schedule: warmup epochs double from 32 slots.
        epoch_schedule: EpochSchedule {
            slots_per_epoch: 432_000,
            first_normal_epoch: 14,
            first_normal_slot: 524_256,
        },
        maintainer_address,
        stake_time: StakeTime::Anytime,
        end_of_epoch_threshold: 95,
    }
}

/// Append a validator together with its slice of every parallel vector.
fn push_validator(state: &mut SolidoState, validator: Validator) {
    state.validators.push(validator);
    state.validator_stake_accounts.push(vec![]);
    state.validator_unstake_accounts.push(vec![]);
    state.validator_vote_accounts.push(None);
    state.validator_perfs.push(None);
    state.validator_block_production_rates.push(None);
    state.validator_vote_account_balances.push(Lamports(0));
    state.validator_identity_account_balances.push(Lamports(0));
    state.validator_infos.push(ValidatorInfo {
        name: String::from("Lido / Validator"),
        keybase_username: None,
    });
}

fn push_maintainer(state: &mut SolidoState, key: Pubkey) {
    state.maintainers.push(Maintainer::new(key));
    state.maintainer_balances.push(Lamports(1_000_000_000));
}

/// This is a regression test. In the past we checked for the minimum stake
/// balance before capping it at the amount below target, which meant that
/// if there was enough in the reserve, but the amount below target was less
/// than that of a minimum stake account, we would still try to deposit it,
/// which would fail. Later though we changed it to stake the minimum stake
/// amount if possible, even if it leaves validators unbalanced.
#[test]
fn stake_deposit_does_not_stake_less_than_the_minimum() {
    let mut state = new_empty_solido();

    // Add a validators, without any stake accounts yet.
    let mut validator = Validator::new(pubkey(1));
    validator.next_stake_account_address = pubkey(101);
    push_validator(&mut state, validator);

    // Put some SOL in the reserve, but not enough to stake.
    state.reserve_account_balance.0 += MINIMUM_STAKE_ACCOUNT_BALANCE - 1;

    assert_eq!(
        state.try_stake_deposit(),
        None,
        "Should not try to stake, this is not enough for a stake account.",
    );

    // If we add a bit more, then we can fund two stake accounts, and that
    // should be enough to trigger a StakeDeposit.
    state.reserve_account_balance.0 += 1;

    assert!(state.try_stake_deposit().is_some());
}

#[test]
fn stake_deposit_splits_evenly_if_possible() {
    let mut state = new_empty_solido();

    // Add two validators, both without any stake account yet.
    let mut validator_0 = Validator::new(pubkey(1));
    validator_0.next_stake_account_address = pubkey(101);
    push_validator(&mut state, validator_0);

    let mut validator_1 = Validator::new(pubkey(2));
    validator_1.next_stake_account_address = pubkey(102);
    push_validator(&mut state, validator_1);

    // Put enough SOL in the reserve that we can stake half of the deposit
    // with each of the validators, and still be above the minimum stake
    // balance.
    state.reserve_account_balance.0 += 4 * MINIMUM_STAKE_ACCOUNT_BALANCE;

    let stake_account_0 = state.validators[0].next_stake_account_address;

    // The first attempt should stake with the first validator.
    assert_eq!(
        state.try_stake_deposit().unwrap(),
        MaintenanceOutput::StakeDeposit {
            validator_vote_account: state.validators[0].vote_account_address,
            amount: Lamports(2 * MINIMUM_STAKE_ACCOUNT_BALANCE),
            stake_account: stake_account_0,
        }
    );

    let stake_account_1 = state.validators[1].next_stake_account_address;

    // Pretend that the amount was actually staked.
    state.reserve_account_balance.0 -= 2 * MINIMUM_STAKE_ACCOUNT_BALANCE;
    let validator = &mut state.validators[0];
    validator.stake_accounts_balance =
        Lamports(validator.stake_accounts_balance.0 + 2 * MINIMUM_STAKE_ACCOUNT_BALANCE);

    // The second attempt should stake with the second validator, and the
    // amount should be the same as before.
    assert_eq!(
        state.try_stake_deposit().unwrap(),
        MaintenanceOutput::StakeDeposit {
            validator_vote_account: state.validators[1].vote_account_address,
            amount: Lamports(2 * MINIMUM_STAKE_ACCOUNT_BALANCE),
            stake_account: stake_account_1,
        }
    );
}

#[test]
fn next_maintainer_duty_slot_agrees_with_current_duty() {
    for num_maintainers in 1..10 {
        let mut state = new_empty_solido();
        for k in 0..num_maintainers {
            push_maintainer(&mut state, pubkey(100 + k));
        }

        let maintainer_keys: Vec<Pubkey> =
            state.maintainers.iter().map(|m| m.pubkey).collect();

        // Check the next slot in forward order but also reverse order. With
        // forward order, the duty start slots all fall in the same cycle,
        // so by iterating backwards, we also test the other branch.
        let mut maintainers = Vec::new();
        maintainers.extend(maintainer_keys.iter().rev());
        maintainers.extend(maintainer_keys.iter());

        // Don't start at slot 0, to avoid wrapping below.
        state.clock.slot = MAINTAINER_DUTY_SLICE_LENGTH;

        for maintainer in &maintainers {
            let start_slot = state
                .get_next_maintainer_duty_slot(maintainer)
                .expect("The maintainer is part of the set, it should have a next duty.");
            for slot in start_slot - MAINTAINER_DUTY_PAUSE_LENGTH..start_slot {
                state.clock.slot = slot;
                assert_eq!(
                    state.get_current_maintainer_duty(),
                    None,
                    "In slot {}, during the pause before slot {}, no maintainer has duty.",
                    slot,
                    start_slot
                );
            }
            for slot in start_slot
                ..start_slot + MAINTAINER_DUTY_SLICE_LENGTH - MAINTAINER_DUTY_PAUSE_LENGTH
            {
                state.clock.slot = slot;
                assert_eq!(
                    state.get_current_maintainer_duty(),
                    Some(*maintainer),
                    "Maintainer should have duty in slot {} (slice starting at slot {}).",
                    slot,
                    start_slot
                );
            }
        }

        let not_maintainer = pubkey(999);
        assert_eq!(state.get_next_maintainer_duty_slot(&not_maintainer), None);
    }
}

#[test]
fn next_maintainer_duty_returns_slot_greater_than_current_slot() {
    let mut state = new_empty_solido();
    let maintainer = pubkey(7);
    push_maintainer(&mut state, maintainer);

    for _ in 0..10 {
        let next_slot = state.get_next_maintainer_duty_slot(&maintainer).unwrap();
        assert!(next_slot > state.clock.slot);
        state.clock.slot = next_slot;
    }
}

#[test]
fn test_below_epoch_threshold() {
    let mut state = new_empty_solido();
    state.stake_time = StakeTime::OnlyNearEpochEnd;
    // Epoch 1 starts at slot 32.
    // At slot 33 is at 1.5% of epoch.
    state.clock.slot = 33;
    state.clock.epoch = 1;
    assert_eq!(state.confirm_should_stake_unstake_in_current_slot(), None);
}

#[test]
fn test_above_epoch_threshold() {
    let mut state = new_empty_solido();
    state.stake_time = StakeTime::OnlyNearEpochEnd;
    // Epoch 1 starts at slot 32.
    // At slot 32 + 62 is at 96.8% of epoch.
    state.clock.slot = 32 + 62;
    state.clock.epoch = 1;
    assert_eq!(
        state.confirm_should_stake_unstake_in_current_slot(),
        Some(())
    );
    // At slot 32 + 61 is at 95.3% of epoch.
    state.clock.slot = 32 + 61;
    assert_eq!(
        state.confirm_should_stake_unstake_in_current_slot(),
        Some(())
    );
}

#[test]
fn test_respect_stake_time_config() {
    let mut state = new_empty_solido();
    state.stake_time = StakeTime::Anytime;
    state.clock.slot = 32;
    state.clock.epoch = 1;
    assert_eq!(
        state.confirm_should_stake_unstake_in_current_slot(),
        Some(())
    );
}

/// The epoch-end check is inclusive at the threshold ratio, while the
/// staking gate is strict: at exactly half of a 64-slot epoch with a 50%
/// threshold, the first says yes and the second says no.
#[test]
fn epoch_end_boundary_is_inclusive_and_gate_is_strict() {
    let mut state = new_empty_solido();
    state.end_of_epoch_threshold = 50;
    state.stake_time = StakeTime::OnlyNearEpochEnd;
    state.clock.epoch = 1;
    // Epoch 1 spans slots [32, 96): 64 slots; its midpoint is slot 64.
    state.clock.slot = 64;
    assert!(state.is_at_epoch_end());
    assert_eq!(state.confirm_should_stake_unstake_in_current_slot(), None);
    // One slot earlier is below the threshold for both.
    state.clock.slot = 63;
    assert!(!state.is_at_epoch_end());
    assert_eq!(state.confirm_should_stake_unstake_in_current_slot(), None);
    // One slot later is past the threshold for both.
    state.clock.slot = 65;
    assert!(state.is_at_epoch_end());
    assert_eq!(state.confirm_should_stake_unstake_in_current_slot(), Some(()));
}

/// With only one maintainer, it is on duty in the first ninety slots of
/// every slice, and nobody is during the ten-slot pause.
#[test]
fn single_maintainer_duty_and_pause_windows() {
    let mut state = new_empty_solido();
    let key = state.maintainer_address;
    for slot in 0..90 {
        state.clock.slot = slot;
        assert_eq!(state.get_current_maintainer_duty(), Some(key));
    }
    for slot in 90..100 {
        state.clock.slot = slot;
        assert_eq!(state.get_current_maintainer_duty(), None);
    }
    state.clock.slot = 100;
    assert_eq!(state.get_current_maintainer_duty(), Some(key));
}

#[test]
fn no_maintainers_means_no_duty() {
    let mut state = new_empty_solido();
    state.maintainers.clear();
    state.maintainer_balances.clear();
    state.clock.slot = 12;
    assert_eq!(state.get_current_maintainer_duty(), None);
    assert_eq!(state.get_next_maintainer_duty_slot(&pubkey(7)), None);
}

/// A deposit of exactly the reserve floor stakes exactly the minimum stake
/// account balance.
#[test]
fn stake_deposit_at_floor_stakes_exactly_the_minimum() {
    let mut state = new_empty_solido();
    let mut validator = Validator::new(pubkey(1));
    validator.next_stake_account_address = pubkey(101);
    push_validator(&mut state, validator);
    state.reserve_account_balance.0 += MINIMUM_STAKE_ACCOUNT_BALANCE;

    assert_eq!(
        state.try_stake_deposit(),
        Some(MaintenanceOutput::StakeDeposit {
            validator_vote_account: pubkey(1),
            stake_account: pubkey(101),
            amount: Lamports(MINIMUM_STAKE_ACCOUNT_BALANCE),
        })
    );
}

#[test]
fn exchange_rate_updates_once_per_epoch() {
    let mut state = new_empty_solido();
    state.clock.epoch = 1;
    state.clock.slot = 32;
    state.exchange_rate.computed_in_epoch = 0;
    assert_eq!(
        state.try_update_exchange_rate(),
        Some(MaintenanceOutput::UpdateExchangeRate)
    );
    state.exchange_rate.computed_in_epoch = 1;
    assert_eq!(state.try_update_exchange_rate(), None);
}

fn stake_account(address: Pubkey, seed: u64, inactive: u64, active: u64) -> StakeAccount {
    StakeAccount {
        address,
        balance: StakeBalance {
            inactive: Lamports(inactive),
            activating: Lamports(0),
            active: Lamports(active),
            deactivating: Lamports(0),
        },
        activation_epoch: 0,
        seed,
    }
}

/// Two fully active adjacent stake accounts are merged, earliest into the
/// one after it; and once merged (the source seed slot gone), the same
/// merge is not selected again.
#[test]
fn merge_selects_earliest_pair_and_is_not_reselected() {
    let mut state = new_empty_solido();
    let mut validator = Validator::new(pubkey(1));
    validator.stake_seeds = SeedRange { begin: 0, end: 2 };
    validator.stake_accounts_balance = Lamports(4 * MINIMUM_STAKE_ACCOUNT_BALANCE);
    push_validator(&mut state, validator);
    state.validator_stake_accounts[0] = vec![
        stake_account(pubkey(201), 0, STAKE_RENT, 2 * MINIMUM_STAKE_ACCOUNT_BALANCE),
        stake_account(pubkey(202), 1, STAKE_RENT, 2 * MINIMUM_STAKE_ACCOUNT_BALANCE),
    ];

    let expected = MaintenanceOutput::MergeStake {
        validator_vote_account: pubkey(1),
        from_stake: pubkey(201),
        to_stake: pubkey(202),
        from_stake_seed: 0,
        to_stake_seed: 1,
    };
    assert_eq!(state.try_merge_on_all_stakes(), Some(expected));

    // Apply the merge: the source account is folded into its successor and
    // the seed window advances.
    let merged = stake_account(
        pubkey(202),
        1,
        2 * STAKE_RENT,
        4 * MINIMUM_STAKE_ACCOUNT_BALANCE,
    );
    state.validator_stake_accounts[0] = vec![merged];
    state.validators[0].stake_seeds = SeedRange { begin: 1, end: 2 };

    assert_ne!(state.try_merge_on_all_stakes(), Some(expected));
}

/// A validator with inactive stake beyond rent worth more than the fee
/// floor gets a balance sync with the exact expected difference; after the
/// sync has been applied, it does not get another.
#[test]
fn balance_sync_reports_exact_difference_and_is_not_reselected() {
    let mut state = new_empty_solido();
    let mut validator = Validator::new(pubkey(1));
    validator.stake_seeds = SeedRange { begin: 0, end: 1 };
    let withdrawable = 2_000_000u64;
    let total = STAKE_RENT + withdrawable + MINIMUM_STAKE_ACCOUNT_BALANCE;
    validator.stake_accounts_balance = Lamports(total);
    push_validator(&mut state, validator);
    state.validator_stake_accounts[0] = vec![stake_account(
        pubkey(201),
        0,
        STAKE_RENT + withdrawable,
        MINIMUM_STAKE_ACCOUNT_BALANCE,
    )];

    assert_eq!(
        state.try_update_stake_account_balance(),
        Some(MaintenanceOutput::UpdateStakeAccountBalance {
            validator_vote_account: pubkey(1),
            expected_difference_stake: Lamports(withdrawable),
            unstake_withdrawn_to_reserve: Lamports(0),
        })
    );

    // Apply the sync: the withdrawable part moves to the reserve and the
    // recorded balance catches up.
    state.validator_stake_accounts[0] =
        vec![stake_account(pubkey(201), 0, STAKE_RENT, MINIMUM_STAKE_ACCOUNT_BALANCE)];
    state.validators[0].stake_accounts_balance = Lamports(total - withdrawable);
    state.reserve_account_balance.0 += withdrawable;

    assert_eq!(state.try_update_stake_account_balance(), None);
}

/// A fully deactivated unstake account is swept even when the stake
/// difference alone would not be worth the fees.
#[test]
fn balance_sync_sweeps_deactivated_unstake_accounts() {
    let mut state = new_empty_solido();
    let mut validator = Validator::new(pubkey(1));
    validator.unstake_seeds = SeedRange { begin: 0, end: 1 };
    let unstaked = 3 * MINIMUM_STAKE_ACCOUNT_BALANCE;
    validator.stake_accounts_balance = Lamports(unstaked);
    validator.unstake_accounts_balance = Lamports(unstaked);
    push_validator(&mut state, validator);
    state.validator_unstake_accounts[0] = vec![stake_account(pubkey(301), 0, unstaked, 0)];

    assert_eq!(
        state.try_update_stake_account_balance(),
        Some(MaintenanceOutput::UpdateStakeAccountBalance {
            validator_vote_account: pubkey(1),
            expected_difference_stake: Lamports(0),
            unstake_withdrawn_to_reserve: Lamports(unstaked),
        })
    );
}

/// A drained inactive validator is removed; once gone from the list, the
/// same removal is not selected again.
#[test]
fn removal_selects_drained_validator_and_is_not_reselected() {
    let mut state = new_empty_solido();
    let mut gone = Validator::new(pubkey(1));
    gone.active = false;
    push_validator(&mut state, gone);
    let stays = Validator::new(pubkey(2));
    push_validator(&mut state, stays);

    let expected = MaintenanceOutput::RemoveValidator {
        validator_vote_account: pubkey(1),
    };
    assert_eq!(state.try_remove_pending_validators(), Some(expected));

    // Apply the removal.
    state.validators.remove(0);
    state.validator_stake_accounts.remove(0);
    state.validator_unstake_accounts.remove(0);
    state.validator_vote_accounts.remove(0);
    state.validator_perfs.remove(0);
    state.validator_block_production_rates.remove(0);
    state.validator_vote_account_balances.remove(0);
    state.validator_identity_account_balances.remove(0);
    state.validator_infos.remove(0);

    assert_eq!(state.try_remove_pending_validators(), None);
}

/// An inactive validator that still holds a stake account has it drained in
/// full into a fresh unstake account.
#[test]
fn unstake_from_inactive_validator_drains_first_account() {
    let mut state = new_empty_solido();
    let mut validator = Validator::new(pubkey(1));
    validator.active = false;
    validator.stake_seeds = SeedRange { begin: 4, end: 5 };
    let total = 2 * MINIMUM_STAKE_ACCOUNT_BALANCE;
    validator.stake_accounts_balance = Lamports(total);
    validator.next_unstake_account_address = pubkey(400);
    push_validator(&mut state, validator);
    state.validator_stake_accounts[0] = vec![stake_account(
        pubkey(204),
        4,
        STAKE_RENT,
        total - STAKE_RENT,
    )];

    assert_eq!(
        state.try_unstake_from_inactive_validator(),
        Some(MaintenanceOutput::UnstakeFromInactiveValidator(Unstake {
            validator_vote_account: pubkey(1),
            from_stake_account: pubkey(204),
            to_unstake_account: pubkey(400),
            from_stake_seed: 4,
            to_unstake_seed: 0,
            amount: Lamports(total),
        }))
    );
}

/// An active validator whose vote account was closed, or whose commission
/// violates the policy, is deactivated.
#[test]
fn deactivate_closed_or_violating_validator() {
    let mut state = new_empty_solido();
    push_validator(&mut state, Validator::new(pubkey(1)));
    // Vote account closed.
    state.validator_vote_accounts[0] = None;
    assert_eq!(
        state.try_deactivate_if_violates(),
        Some(MaintenanceOutput::DeactivateIfViolates {
            validator_vote_account: pubkey(1),
        })
    );

    // A live vote account over the commission limit violates too.
    state.criteria.max_commission = 5;
    state.validator_vote_accounts[0] = Some(VoteState { commission: 6, credits: 0 });
    assert_eq!(
        state.try_deactivate_if_violates(),
        Some(MaintenanceOutput::DeactivateIfViolates {
            validator_vote_account: pubkey(1),
        })
    );

    // At or under the limit there is nothing to do.
    state.validator_vote_accounts[0] = Some(VoteState { commission: 5, credits: 0 });
    assert_eq!(state.try_deactivate_if_violates(), None);
}

/// Near the end of the epoch, an inactive validator that satisfies the
/// policy again is reactivated; earlier in the epoch it is not.
#[test]
fn reactivate_compliant_validator_only_near_epoch_end() {
    let mut state = new_empty_solido();
    state.criteria.max_commission = 5;
    let mut validator = Validator::new(pubkey(1));
    validator.active = false;
    push_validator(&mut state, validator);
    state.validator_vote_accounts[0] = Some(VoteState { commission: 5, credits: 0 });
    state.clock.epoch = 1;

    // Early in epoch 1 (which spans slots [32, 96)).
    state.clock.slot = 33;
    assert_eq!(state.try_reactivate_if_complies(), None);

    // At 96.8% of the epoch.
    state.clock.slot = 94;
    assert_eq!(
        state.try_reactivate_if_complies(),
        Some(MaintenanceOutput::ReactivateIfComplies {
            validator_vote_account: pubkey(1),
        })
    );
}

/// A live commission above both the policy maximum and the recorded value
/// triggers a commission record update even far from the epoch's end.
#[test]
fn onchain_perf_update_on_commission_violation_ignores_epoch_timing() {
    let mut state = new_empty_solido();
    push_validator(&mut state, Validator::new(pubkey(1)));
    state.clock.epoch = 1;
    state.clock.slot = 33;
    state.validator_vote_accounts[0] = Some(VoteState { commission: 10, credits: 0 });
    state.validator_perfs[0] = Some(ValidatorPerf {
        commission: 1,
        commission_updated_at: 1,
        rest: None,
    });
    assert_eq!(
        state.try_update_validator_perfs(),
        Some(MaintenanceOutput::UpdateOnchainValidatorPerf {
            validator_vote_account: pubkey(1),
        })
    );

    // The same live commission, already recorded: nothing to update until
    // the end of the epoch.
    state.validator_perfs[0] = Some(ValidatorPerf {
        commission: 10,
        commission_updated_at: 1,
        rest: None,
    });
    assert_eq!(state.try_update_validator_perfs(), None);
}

/// Near the epoch's end, a validator with no off-ledger record for the
/// epoch gets one, with the exact capped vote success rate and the
/// worst-possible sentinel for a missing block production rate.
#[test]
fn offchain_perf_update_reports_exact_rates() {
    let mut state = new_empty_solido();
    push_validator(&mut state, Validator::new(pubkey(1)));
    state.clock.epoch = 1;
    state.clock.slot = 94;
    state.validator_vote_accounts[0] = Some(VoteState { commission: 0, credits: 32 });
    // The commission part of the record is current, so only the off-ledger
    // part is due.
    state.validator_perfs[0] = Some(ValidatorPerf {
        commission: 0,
        commission_updated_at: 1,
        rest: None,
    });

    // Epoch 1 has 64 slots; 32 credits of 64 slots is one half.
    assert_eq!(
        state.try_update_validator_perfs(),
        Some(MaintenanceOutput::UpdateOffchainValidatorPerf {
            validator_vote_account: pubkey(1),
            block_production_rate: u64::MAX,
            vote_success_rate: u64::MAX / 2,
        })
    );
}

/// An active validator far enough above its target is unstaked down toward
/// it, capped so the stake account keeps the minimum balance.
#[test]
fn unstake_from_active_validators_rebalances_overfunded_validator() {
    let mut state = new_empty_solido();

    let mut heavy = Validator::new(pubkey(1));
    heavy.stake_seeds = SeedRange { begin: 0, end: 1 };
    let heavy_balance = 10 * MINIMUM_STAKE_ACCOUNT_BALANCE;
    heavy.stake_accounts_balance = Lamports(heavy_balance);
    heavy.next_unstake_account_address = pubkey(401);
    push_validator(&mut state, heavy);
    state.validator_stake_accounts[0] = vec![stake_account(
        pubkey(201),
        0,
        STAKE_RENT,
        heavy_balance - STAKE_RENT,
    )];

    let light = Validator::new(pubkey(2));
    push_validator(&mut state, light);

    // Targets are half of the pool each; the heavy validator is a full
    // half-pool above its target, far past the one-tenth threshold.
    assert_eq!(
        state.try_unstake_from_active_validators(),
        Some(MaintenanceOutput::UnstakeFromActiveValidator(Unstake {
            validator_vote_account: pubkey(1),
            from_stake_account: pubkey(201),
            to_unstake_account: pubkey(401),
            from_stake_seed: 0,
            to_unstake_seed: 0,
            amount: Lamports(5 * MINIMUM_STAKE_ACCOUNT_BALANCE),
        }))
    );
}

/// A balanced set is not unstaked from.
#[test]
fn unstake_from_active_validators_leaves_balanced_set_alone() {
    let mut state = new_empty_solido();
    for n in 1..3u64 {
        let mut validator = Validator::new(pubkey(n));
        validator.stake_seeds = SeedRange { begin: 0, end: 1 };
        let balance = 4 * MINIMUM_STAKE_ACCOUNT_BALANCE;
        validator.stake_accounts_balance = Lamports(balance);
        push_validator(&mut state, validator);
        let i = (n - 1) as usize;
        state.validator_stake_accounts[i] = vec![stake_account(
            pubkey(200 + n),
            0,
            STAKE_RENT,
            balance - STAKE_RENT,
        )];
    }
    assert_eq!(state.try_unstake_from_active_validators(), None);
}

/// The maintainer funding guard refuses maintenance outright, with the
/// offending balance in the error.
#[test]
fn maintenance_is_refused_when_the_maintainer_is_underfunded() {
    let mut state = new_empty_solido();
    state.maintainer_balances[0] = Lamports(MINIMUM_MAINTAINER_BALANCE - 1);
    assert_eq!(
        state.try_perform_maintenance(),
        Err(MaintenanceError::MaintainerBalanceTooLow {
            maintainer: state.maintainer_address,
            balance: Lamports(MINIMUM_MAINTAINER_BALANCE - 1),
            required: Lamports(MINIMUM_MAINTAINER_BALANCE),
        })
    );
}

/// With nothing to do, a cycle reports silent success; with several steps
/// due, the highest-priority one wins.
#[test]
fn maintenance_selects_highest_priority_action() {
    let mut state = new_empty_solido();
    assert_eq!(state.try_perform_maintenance(), Ok(None));

    // A stale exchange rate and a removable validator at once: the
    // exchange rate comes first.
    state.clock.epoch = 1;
    state.clock.slot = 32;
    let mut gone = Validator::new(pubkey(1));
    gone.active = false;
    push_validator(&mut state, gone);
    assert_eq!(
        state.try_perform_maintenance(),
        Ok(Some(MaintenanceOutput::UpdateExchangeRate))
    );

    // With the rate current, the removal is next.
    state.exchange_rate.computed_in_epoch = 1;
    assert_eq!(
        state.try_perform_maintenance(),
        Ok(Some(MaintenanceOutput::RemoveValidator {
            validator_vote_account: pubkey(1),
        }))
    );
}

/// Target balances split the pool evenly over the active validators, the
/// earliest ones taking the remainder, and inactive validators are targeted
/// at zero.
#[test]
fn target_balance_splits_evenly_with_remainder_to_earliest() {
    let mut validators = vec![
        Validator::new(pubkey(1)),
        Validator::new(pubkey(2)),
        Validator::new(pubkey(3)),
    ];
    validators[1].active = false;
    let targets = get_target_balance(Lamports(7), &validators).unwrap();
    assert_eq!(
        targets,
        vec![Lamports(4), Lamports(0), Lamports(3)]
    );

    let none: Vec<Validator> = vec![];
    assert!(get_target_balance(Lamports(7), &none).is_err());
}

/// The unstake query reports the first validator over its target by more
/// than the threshold fraction, with the exact excess.
#[test]
fn unstake_validator_index_respects_threshold() {
    let mut validators = vec![Validator::new(pubkey(1)), Validator::new(pubkey(2))];
    validators[0].stake_accounts_balance = Lamports(60);
    validators[1].stake_accounts_balance = Lamports(40);
    let targets = vec![Lamports(50), Lamports(50)];
    let threshold = Rational { numerator: 1, denominator: 10 };
    // Ten over a target of fifty is a fifth: over the threshold.
    assert_eq!(
        get_unstake_validator_index(&validators, &targets, threshold),
        Some((0, Lamports(10)))
    );
    // Five over fifty is exactly the threshold: not strictly over.
    validators[0].stake_accounts_balance = Lamports(55);
    assert_eq!(
        get_unstake_validator_index(&validators, &targets, threshold),
        None
    );
}

#[test]
fn per64_scales_fractions_to_the_u64_range() {
    assert_eq!(per64(0, 3), 0);
    assert_eq!(per64(1, 2), u64::MAX / 2);
    assert_eq!(per64(5, 5), u64::MAX);
}

#[test]
fn rational_comparisons_are_exact() {
    let third = Rational { numerator: 1, denominator: 3 };
    let still_a_third = Rational { numerator: 2, denominator: 6 };
    let half = Rational { numerator: 1, denominator: 2 };
    assert!(third.gte(&still_a_third));
    assert!(still_a_third.gte(&third));
    assert!(!third.gt(&still_a_third));
    assert!(half.gt(&third));
    assert!(!third.gte(&half));
}

/// The executable well-formedness check accepts the snapshots these tests
/// build and rejects corrupted ones.
#[test]
fn check_well_formed_accepts_sound_snapshots_and_rejects_corrupt_ones() {
    let mut state = new_empty_solido();
    let mut validator = Validator::new(pubkey(1));
    validator.stake_seeds = SeedRange { begin: 0, end: 1 };
    validator.stake_accounts_balance = Lamports(2 * MINIMUM_STAKE_ACCOUNT_BALANCE);
    push_validator(&mut state, validator);
    state.validator_stake_accounts[0] = vec![stake_account(
        pubkey(201),
        0,
        STAKE_RENT,
        2 * MINIMUM_STAKE_ACCOUNT_BALANCE - STAKE_RENT,
    )];
    assert!(state.check_well_formed());

    // A seed window that disagrees with the account list is rejected.
    state.validators[0].stake_seeds = SeedRange { begin: 0, end: 2 };
    assert!(!state.check_well_formed());
    state.validators[0].stake_seeds = SeedRange { begin: 0, end: 1 };

    // A maintainer without a recorded balance is rejected.
    state.maintainer_balances.clear();
    assert!(!state.check_well_formed());
    state.maintainer_balances.push(Lamports(1_000_000_000));

    // An epoch layout whose first normal slot contradicts the warmup
    // doubling is rejected.
    state.epoch_schedule.first_normal_slot = 524_255;
    assert!(!state.check_well_formed());
    state.epoch_schedule.first_normal_slot = 524_256;

    // A clock slot before its own epoch is rejected.
    state.clock.epoch = 2;
    state.clock.slot = 64;
    assert!(!state.check_well_formed());

    state.clock.slot = 96;
    assert!(state.check_well_formed());
}

#[test]
fn sanitize_validator_name_strips_prefix_and_emoji() {
    assert_eq!(sanitize_validator_name("Lido / Alice"), "Alice");
    assert_eq!(sanitize_validator_name("Lido / Bob \u{1f680}"), "Bob");
    assert_eq!(sanitize_validator_name("Lido / C\u{2600}laire"), "Claire");
    assert_eq!(sanitize_validator_name("Lido /  padded \u{3000}"), "padded");
    assert_eq!(sanitize_validator_name("Lido / "), "");
    assert_eq!(sanitize_validator_name("Alice"), "INVALID: Alice");
    assert_eq!(sanitize_validator_name(""), "INVALID: ");
}
