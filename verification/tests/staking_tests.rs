use token_escrow::errors::LedgerError;
use token_escrow::staking::{StakePosition, StakingContract};

const ALICE: u64 = 11;
const BOB: u64 = 12;

const ONE: u128 = 1_000_000_000_000_000_000;

/// A ledger with a reward rate high enough for whole-unit daily rewards and
/// small, test-friendly thresholds.
fn fast_ledger(rate: u128, period: u64) -> StakingContract {
    StakingContract {
        reward_rate: rate,
        minimum_stake_amount: 1,
        unstake_period: period,
        positions: Vec::new(),
    }
}

#[test]
fn init_sets_documented_configuration() {
    let s = StakingContract::init();
    assert_eq!(s.reward_rate, 5);
    assert_eq!(s.minimum_stake_amount, ONE);
    assert_eq!(s.unstake_period, 7 * 24 * 60 * 60);
    assert!(s.positions.is_empty());
}

#[test]
fn stake_below_minimum_is_rejected() {
    let mut s = StakingContract::init();
    assert_eq!(s.stake(ALICE, ONE - 1, 0), Err(LedgerError::ValidationError));
    assert!(s.get_stake_position(ALICE).is_none());
}

#[test]
fn first_stake_opens_a_fresh_position() {
    let mut s = StakingContract::init();
    assert_eq!(s.stake(ALICE, ONE, 7), Ok(()));
    let p = s.get_stake_position(ALICE).unwrap();
    assert_eq!(p.address, ALICE);
    assert_eq!(p.staked_amount, ONE);
    assert_eq!(p.rewards, 0);
    assert_eq!(p.last_stake_timestamp, 7);
    assert_eq!(p.unstake_timestamp, 0);
    assert!(s.get_stake_position(BOB).is_none());
}

#[test]
fn one_day_at_five_percent_truncates_to_zero() {
    // The yearly rate is reduced to a daily rate by truncating division
    // first, so 5 / 365 is 0 and one day of accrual on one whole unit
    // rounds down to nothing; the claim then finds no rewards at all.
    let mut s = StakingContract::init();
    s.stake(ALICE, ONE, 0).unwrap();
    assert_eq!(s.claim_rewards(ALICE, 86400), Err(LedgerError::StateError));
    let p = s.get_stake_position(ALICE).unwrap();
    assert_eq!(p.rewards, 0);
    assert_eq!(p.last_stake_timestamp, 0);
}

#[test]
fn rewards_follow_the_exact_truncating_formula() {
    // rate 365 gives a daily rate of exactly 1, so a stake of 8_640_000
    // earns floor(8_640_000 * 1 * elapsed / 8_640_000) = elapsed.
    let s = fast_ledger(365, 100);
    let p = StakePosition {
        address: ALICE,
        staked_amount: 8_640_000,
        rewards: 0,
        last_stake_timestamp: 0,
        unstake_timestamp: 0,
    };
    assert_eq!(s.calculate_rewards(&p, 0), 0);
    assert_eq!(s.calculate_rewards(&p, 1), 1);
    assert_eq!(s.calculate_rewards(&p, 2), 2);
    assert_eq!(s.calculate_rewards(&p, 86400), 86400);
}

#[test]
fn claim_pays_settled_rewards_and_resets_the_clock() {
    let mut s = fast_ledger(365, 100);
    s.stake(ALICE, 8_640_000, 0).unwrap();
    assert_eq!(s.claim_rewards(ALICE, 3), Ok(3));
    let p = s.get_stake_position(ALICE).unwrap();
    assert_eq!(p.rewards, 0);
    assert_eq!(p.last_stake_timestamp, 3);
    // Claiming again with no time elapsed finds nothing.
    assert_eq!(s.claim_rewards(ALICE, 3), Err(LedgerError::StateError));
}

#[test]
fn further_stake_settles_rewards_then_adds_the_payment() {
    let mut s = fast_ledger(365, 100);
    s.stake(ALICE, 8_640_000, 0).unwrap();
    s.stake(ALICE, 1_000_000, 2).unwrap();
    let p = s.get_stake_position(ALICE).unwrap();
    assert_eq!(p.staked_amount, 9_640_000);
    assert_eq!(p.rewards, 2);
    assert_eq!(p.last_stake_timestamp, 2);
}

#[test]
fn request_unstake_needs_a_position_and_enough_stake() {
    let mut s = fast_ledger(0, 100);
    assert_eq!(s.request_unstake(ALICE, 1, 0), Err(LedgerError::StateError));
    s.stake(ALICE, 1000, 0).unwrap();
    assert_eq!(s.request_unstake(ALICE, 1001, 5), Err(LedgerError::ArithmeticError));
    let p = s.get_stake_position(ALICE).unwrap();
    assert_eq!(p.staked_amount, 1000);
    assert_eq!(p.unstake_timestamp, 0);
}

#[test]
fn complete_unstake_respects_the_cooldown_to_the_second() {
    let mut s = StakingContract::init();
    s.stake(ALICE, ONE, 0).unwrap();
    s.request_unstake(ALICE, ONE / 2, 10).unwrap();
    let cooldown = 7 * 24 * 60 * 60;
    // One second early: TimingError, nothing changes.
    assert_eq!(s.complete_unstake(ALICE, 10 + cooldown - 1), Err(LedgerError::TimingError));
    assert!(s.get_stake_position(ALICE).is_some());
    // Exactly at the boundary: the full current stake is released.
    assert_eq!(s.complete_unstake(ALICE, 10 + cooldown), Ok(ONE / 2));
    assert!(s.get_stake_position(ALICE).is_none());
}

#[test]
fn complete_unstake_needs_a_pending_request() {
    let mut s = StakingContract::init();
    assert_eq!(s.complete_unstake(ALICE, 0), Err(LedgerError::StateError));
    s.stake(ALICE, ONE, 0).unwrap();
    assert_eq!(s.complete_unstake(ALICE, 1_000_000_000), Err(LedgerError::StateError));
}

#[test]
fn second_request_restarts_cooldown_and_completion_pays_current_stake() {
    let mut s = fast_ledger(0, 100);
    s.stake(ALICE, 1000, 0).unwrap();
    s.request_unstake(ALICE, 500, 10).unwrap();
    s.request_unstake(ALICE, 300, 20).unwrap();
    let p = s.get_stake_position(ALICE).unwrap();
    assert_eq!(p.staked_amount, 200);
    assert_eq!(p.unstake_timestamp, 20);
    // The first request's cooldown no longer counts: 110 is past 10 + 100
    // but short of 20 + 100.
    assert_eq!(s.complete_unstake(ALICE, 110), Err(LedgerError::TimingError));
    // Completion releases the current remaining stake of 200, not the 800
    // that was requested across the two calls.
    assert_eq!(s.complete_unstake(ALICE, 120), Ok(200));
    assert!(s.get_stake_position(ALICE).is_none());
}

#[test]
fn request_unstake_does_not_advance_the_accrual_clock() {
    let mut s = fast_ledger(365, 100);
    s.stake(ALICE, 8_640_000, 0).unwrap();
    s.request_unstake(ALICE, 4_320_000, 2).unwrap();
    let p = s.get_stake_position(ALICE).unwrap();
    assert_eq!(p.rewards, 2);
    // The accrual clock still reads the stake time.
    assert_eq!(p.last_stake_timestamp, 0);
    assert_eq!(p.staked_amount, 4_320_000);
}

#[test]
fn positions_are_kept_per_account() {
    let mut s = fast_ledger(0, 100);
    s.stake(ALICE, 1000, 0).unwrap();
    s.stake(BOB, 2000, 0).unwrap();
    assert_eq!(s.get_stake_position(ALICE).unwrap().staked_amount, 1000);
    assert_eq!(s.get_stake_position(BOB).unwrap().staked_amount, 2000);
    s.request_unstake(BOB, 2000, 1).unwrap();
    assert_eq!(s.complete_unstake(BOB, 101), Ok(0));
    assert!(s.get_stake_position(BOB).is_none());
    assert_eq!(s.get_stake_position(ALICE).unwrap().staked_amount, 1000);
}
