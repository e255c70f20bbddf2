//! The staking ledger engine: each account may lock an amount of the base
//! asset, accrue time-proportional rewards, and withdraw after a cooldown.
//!
//! As in the escrow engine, the runtime's caller, clock and attached payment
//! enter each transition as plain values, and the amount to pay out comes
//! back as the transition's result.

use vstd::prelude::*;
use crate::errors::LedgerError;

verus! {

/// Per-account record of locked funds and accrued, unclaimed rewards.
/// `unstake_timestamp == 0` means no withdrawal is pending.
#[derive(Clone, Copy, Debug, PartialEq, Eq, Structural)]
pub struct StakePosition {
    pub address: u64,
    pub staked_amount: u128,
    pub rewards: u128,
    pub last_stake_timestamp: u64,
    pub unstake_timestamp: u64,
}

/// The staking engine's durable state: configuration and at most one live
/// position per account.
pub struct StakingContract {
    pub reward_rate: u128,
    pub minimum_stake_amount: u128,
    pub unstake_period: u64,
    pub positions: Vec<StakePosition>,
}

/// Whether some position belongs to this account.
pub open spec fn has_position(positions: Seq<StakePosition>, address: u64) -> bool {
    exists|i: int| 0 <= i < positions.len() && positions[i].address == address
}

/// The index of this account's position; under `wf` the match is unique.
pub open spec fn position_index(positions: Seq<StakePosition>, address: u64) -> int {
    choose|i: int| 0 <= i < positions.len() && positions[i].address == address
}

impl StakingContract {
    /// At most one live position per account.
    pub open spec fn wf(self) -> bool {
        forall|i: int, j: int|
            0 <= i < j < self.positions@.len()
                ==> self.positions@[i].address != self.positions@[j].address
    }

    /// Fresh ledger: a five-percent yearly reward rate, a minimum stake of
    /// one whole unit of the base asset, a seven-day cooldown, no positions.
    pub fn init() -> (r: StakingContract)
        ensures
            r.reward_rate == 5,
            r.minimum_stake_amount == 1000000000000000000u128,
            r.unstake_period == 604800,
            r.positions@.len() == 0,
            r.wf(),
    {
        StakingContract {
            reward_rate: 5,
            minimum_stake_amount: 1000000000000000000u128,
            unstake_period: 604800,
            positions: Vec::new(),
        }
    }

    /// Linear scan for this account's position; `None` when absent.
    fn find_position(&self, address: u64) -> (r: Option<usize>)
        requires
            self.wf(),
        ensures
            match r {
                Some(i) => has_position(self.positions@, address)
                    && i == position_index(self.positions@, address)
                    && i < self.positions@.len()
                    && self.positions@[i as int].address == address,
                None => !has_position(self.positions@, address),
            },
    {
        let mut i: usize = 0;
        while i < self.positions.len()
            invariant
                self.wf(),
                i <= self.positions@.len(),
                forall|j: int| 0 <= j < i ==> self.positions@[j].address != address,
            decreases self.positions@.len() - i,
        {
            if self.positions[i].address == address {
                proof {
                    lemma_position_index_unique(self.positions@, address, i as int);
                }
                return Some(i);
            }
            i += 1;
        }
        None
    }
}

/// Pending reward of a position: `elapsed` seconds at `rate` percent per
/// year. The yearly rate is first reduced to a daily rate by truncating
/// division, then applied — this exact order of truncating operations is
/// part of the engine's behaviour and must not be reordered.
pub open spec fn reward_spec(staked: u128, rate: u128, elapsed: u64) -> int {
    staked * (rate / 365) * elapsed / (86400int * 100)
}

/// Room for the reward computation within the amount type.
pub open spec fn reward_fits(staked: u128, rate: u128, elapsed: u64) -> bool {
    &&& staked * (rate / 365) <= u128::MAX
    &&& staked * (rate / 365) * elapsed <= u128::MAX
}

/// Room to settle a position's pending reward into its accrued rewards.
pub open spec fn settle_fits(p: StakePosition, rate: u128, now: u64) -> bool {
    &&& p.last_stake_timestamp <= now
    &&& reward_fits(p.staked_amount, rate, (now - p.last_stake_timestamp) as u64)
    &&& p.rewards + reward_spec(p.staked_amount, rate, (now - p.last_stake_timestamp) as u64)
        <= u128::MAX
}

/// A position's pending reward settled into its accrued rewards, as of
/// `now`. The accrual clock is not advanced here; the callers that do
/// advance it say so themselves.
pub open spec fn settled_rewards(p: StakePosition, rate: u128, now: u64) -> int {
    p.rewards + reward_spec(p.staked_amount, rate, (now - p.last_stake_timestamp) as u64)
}

/// The position after a further deposit: rewards settled, the payment added
/// to the stake, and the accrual clock restarted.
pub open spec fn position_after_stake(
    p: StakePosition,
    rate: u128,
    payment: u128,
    now: u64,
) -> StakePosition {
    StakePosition {
        address: p.address,
        staked_amount: (p.staked_amount + payment) as u128,
        rewards: settled_rewards(p, rate, now) as u128,
        last_stake_timestamp: now,
        unstake_timestamp: p.unstake_timestamp,
    }
}

/// The position after a withdrawal request: rewards settled, the amount
/// subtracted, and the cooldown clock (re)started. The accrual clock is
/// left where it was, and no withdrawal amount is segregated: completion
/// later releases whatever stake then remains.
pub open spec fn position_after_request(
    p: StakePosition,
    rate: u128,
    amount: u128,
    now: u64,
) -> StakePosition {
    StakePosition {
        address: p.address,
        staked_amount: (p.staked_amount - amount) as u128,
        rewards: settled_rewards(p, rate, now) as u128,
        last_stake_timestamp: p.last_stake_timestamp,
        unstake_timestamp: now,
    }
}

/// The position after a reward claim: accrued rewards paid out and reset,
/// and the accrual clock restarted.
pub open spec fn position_after_claim(p: StakePosition, now: u64) -> StakePosition {
    StakePosition {
        address: p.address,
        staked_amount: p.staked_amount,
        rewards: 0,
        last_stake_timestamp: now,
        unstake_timestamp: p.unstake_timestamp,
    }
}

impl StakingContract {
    /// The pending reward of a position as of `now`, by the engine's exact
    /// truncating arithmetic.
    pub fn calculate_rewards(&self, position: &StakePosition, now: u64) -> (r: u128)
        requires
            position.last_stake_timestamp <= now,
            reward_fits(
                position.staked_amount,
                self.reward_rate,
                (now - position.last_stake_timestamp) as u64,
            ),
        ensures
            r == reward_spec(
                position.staked_amount,
                self.reward_rate,
                (now - position.last_stake_timestamp) as u64,
            ),
    {
        let time_staked: u64 = now - position.last_stake_timestamp;
        let daily_rate: u128 = self.reward_rate / 365;
        let reward: u128 = position.staked_amount * daily_rate * (time_staked as u128) / (86400
            * 100);
        reward
    }

    /// Deposits the attached base-asset `payment` into the caller's
    /// position. Rejected with `ValidationError` — and nothing changes —
    /// exactly when the payment is below the minimum stake. A first deposit
    /// opens a fresh position; a further deposit first settles the pending
    /// reward, then adds the payment and restarts the accrual clock.
    pub fn stake(&mut self, caller: u64, payment: u128, now: u64) -> (r: Result<(), LedgerError>)
        requires
            old(self).wf(),
            has_position(old(self).positions@, caller) ==> stake_fits(
                old(self).positions@[position_index(old(self).positions@, caller)],
                old(self).reward_rate,
                payment,
                now,
            ),
        ensures
            final(self).wf(),
            payment < old(self).minimum_stake_amount ==> r == Err::<(), LedgerError>(
                LedgerError::ValidationError,
            ) && *final(self) == *old(self),
            payment >= old(self).minimum_stake_amount && !has_position(
                old(self).positions@,
                caller,
            ) ==> {
                &&& r == Ok::<(), LedgerError>(())
                &&& final(self).positions@ == old(self).positions@.push(
                    (StakePosition {
                        address: caller,
                        staked_amount: payment,
                        rewards: 0,
                        last_stake_timestamp: now,
                        unstake_timestamp: 0,
                    }),
                )
                &&& final(self).reward_rate == old(self).reward_rate
                &&& final(self).minimum_stake_amount == old(self).minimum_stake_amount
                &&& final(self).unstake_period == old(self).unstake_period
            },
            payment >= old(self).minimum_stake_amount && has_position(
                old(self).positions@,
                caller,
            ) ==> {
                let i = position_index(old(self).positions@, caller);
                &&& r == Ok::<(), LedgerError>(())
                &&& final(self).positions@ == old(self).positions@.update(
                    i,
                    position_after_stake(
                        old(self).positions@[i],
                        old(self).reward_rate,
                        payment,
                        now,
                    ),
                )
                &&& final(self).reward_rate == old(self).reward_rate
                &&& final(self).minimum_stake_amount == old(self).minimum_stake_amount
                &&& final(self).unstake_period == old(self).unstake_period
            },
    {
        if payment < self.minimum_stake_amount {
            return Err(LedgerError::ValidationError);
        }
        match self.find_position(caller) {
            None => {
                let position = StakePosition {
                    address: caller,
                    staked_amount: payment,
                    rewards: 0,
                    last_stake_timestamp: now,
                    unstake_timestamp: 0,
                };
                self.positions.push(position);
                proof {
                    assert forall|p: int, q: int| 0 <= p < q < self.positions@.len()
                        implies self.positions@[p].address != self.positions@[q].address
                    by {
                        if q == self.positions@.len() - 1 {
                            assert(!has_position(old(self).positions@, caller));
                        }
                    }
                }
                Ok(())
            },
            Some(i) => {
                let position = self.positions[i];
                let reward = self.calculate_rewards(&position, now);
                let updated = StakePosition {
                    address: position.address,
                    staked_amount: position.staked_amount + payment,
                    rewards: position.rewards + reward,
                    last_stake_timestamp: now,
                    unstake_timestamp: position.unstake_timestamp,
                };
                self.positions[i] = updated;
                Ok(())
            },
        }
    }
}

/// Room to settle the pending reward and to grow the stake by the payment.
pub open spec fn stake_fits(p: StakePosition, rate: u128, payment: u128, now: u64) -> bool {
    &&& settle_fits(p, rate, now)
    &&& p.staked_amount + payment <= u128::MAX
}

impl StakingContract {
    /// Begins a withdrawal of `amount` from the caller's position: settles
    /// the pending reward, subtracts the amount from the stake (checked,
    /// never negative), and starts the cooldown. A second request before
    /// completion restarts the cooldown for the entire pending withdrawal.
    /// `StateError` when the caller has no position; `ArithmeticError` when
    /// the amount exceeds the staked amount; nothing changes on error.
    pub fn request_unstake(&mut self, caller: u64, amount: u128, now: u64) -> (r: Result<
        (),
        LedgerError,
    >)
        requires
            old(self).wf(),
            has_position(old(self).positions@, caller) ==> settle_fits(
                old(self).positions@[position_index(old(self).positions@, caller)],
                old(self).reward_rate,
                now,
            ),
        ensures
            final(self).wf(),
            !has_position(old(self).positions@, caller) ==> r == Err::<(), LedgerError>(
                LedgerError::StateError,
            ) && *final(self) == *old(self),
            has_position(old(self).positions@, caller) ==> {
                let i = position_index(old(self).positions@, caller);
                let p = old(self).positions@[i];
                &&& amount > p.staked_amount ==> r == Err::<(), LedgerError>(
                    LedgerError::ArithmeticError,
                ) && *final(self) == *old(self)
                &&& amount <= p.staked_amount ==> {
                    &&& r == Ok::<(), LedgerError>(())
                    &&& final(self).positions@ == old(self).positions@.update(
                        i,
                        position_after_request(p, old(self).reward_rate, amount, now),
                    )
                    &&& final(self).reward_rate == old(self).reward_rate
                    &&& final(self).minimum_stake_amount == old(self).minimum_stake_amount
                    &&& final(self).unstake_period == old(self).unstake_period
                }
            },
    {
        let i = match self.find_position(caller) {
            Some(i) => i,
            None => {
                return Err(LedgerError::StateError);
            },
        };
        let position = self.positions[i];
        if amount > position.staked_amount {
            return Err(LedgerError::ArithmeticError);
        }
        let reward = self.calculate_rewards(&position, now);
        let updated = StakePosition {
            address: position.address,
            staked_amount: position.staked_amount - amount,
            rewards: position.rewards + reward,
            last_stake_timestamp: position.last_stake_timestamp,
            unstake_timestamp: now,
        };
        self.positions[i] = updated;
        Ok(())
    }

    /// Completes a withdrawal once the cooldown has elapsed: releases the
    /// position's full current staked amount — not the amount that was
    /// requested — and deletes the position, unclaimed rewards included.
    /// `StateError` when the caller has no position or no request is
    /// pending; `TimingError` exactly when
    /// `now < unstake_timestamp + unstake_period`; nothing changes on
    /// error.
    pub fn complete_unstake(&mut self, caller: u64, now: u64) -> (r: Result<u128, LedgerError>)
        requires
            old(self).wf(),
        ensures
            final(self).wf(),
            !has_position(old(self).positions@, caller) ==> r == Err::<u128, LedgerError>(
                LedgerError::StateError,
            ) && *final(self) == *old(self),
            has_position(old(self).positions@, caller) ==> {
                let i = position_index(old(self).positions@, caller);
                let p = old(self).positions@[i];
                &&& p.unstake_timestamp == 0 ==> r == Err::<u128, LedgerError>(
                    LedgerError::StateError,
                ) && *final(self) == *old(self)
                &&& p.unstake_timestamp > 0 && now < p.unstake_timestamp + old(self).unstake_period
                    ==> r == Err::<u128, LedgerError>(LedgerError::TimingError)
                    && *final(self) == *old(self)
                &&& p.unstake_timestamp > 0 && now >= p.unstake_timestamp + old(self).unstake_period
                    ==> {
                    &&& r == Ok::<u128, LedgerError>(p.staked_amount)
                    &&& final(self).positions@ == old(self).positions@.remove(i)
                    &&& final(self).reward_rate == old(self).reward_rate
                    &&& final(self).minimum_stake_amount == old(self).minimum_stake_amount
                    &&& final(self).unstake_period == old(self).unstake_period
                }
            },
    {
        let i = match self.find_position(caller) {
            Some(i) => i,
            None => {
                return Err(LedgerError::StateError);
            },
        };
        let position = self.positions[i];
        if position.unstake_timestamp == 0 {
            return Err(LedgerError::StateError);
        }
        if (now as u128) < (position.unstake_timestamp as u128) + (self.unstake_period as u128) {
            return Err(LedgerError::TimingError);
        }
        self.positions.remove(i);
        proof {
            assert forall|p: int, q: int| 0 <= p < q < self.positions@.len()
                implies self.positions@[p].address != self.positions@[q].address
            by {
                assert(self.positions@[p] == if p < i as int {
                    old(self).positions@[p]
                } else {
                    old(self).positions@[p + 1]
                });
                assert(self.positions@[q] == if q < i as int {
                    old(self).positions@[q]
                } else {
                    old(self).positions@[q + 1]
                });
            }
        }
        Ok(position.staked_amount)
    }

    /// Pays out the caller's rewards: settles the pending accrual, requires
    /// the settled total to be positive, then resets the accrued rewards
    /// and restarts the accrual clock. `StateError` when the caller has no
    /// position or nothing has accrued; nothing changes on error.
    pub fn claim_rewards(&mut self, caller: u64, now: u64) -> (r: Result<u128, LedgerError>)
        requires
            old(self).wf(),
            has_position(old(self).positions@, caller) ==> settle_fits(
                old(self).positions@[position_index(old(self).positions@, caller)],
                old(self).reward_rate,
                now,
            ),
        ensures
            final(self).wf(),
            !has_position(old(self).positions@, caller) ==> r == Err::<u128, LedgerError>(
                LedgerError::StateError,
            ) && *final(self) == *old(self),
            has_position(old(self).positions@, caller) ==> {
                let i = position_index(old(self).positions@, caller);
                let p = old(self).positions@[i];
                &&& settled_rewards(p, old(self).reward_rate, now) == 0 ==> r == Err::<
                    u128,
                    LedgerError,
                >(LedgerError::StateError) && *final(self) == *old(self)
                &&& settled_rewards(p, old(self).reward_rate, now) > 0 ==> {
                    &&& r == Ok::<u128, LedgerError>(
                        settled_rewards(p, old(self).reward_rate, now) as u128,
                    )
                    &&& final(self).positions@ == old(self).positions@.update(
                        i,
                        position_after_claim(p, now),
                    )
                    &&& final(self).reward_rate == old(self).reward_rate
                    &&& final(self).minimum_stake_amount == old(self).minimum_stake_amount
                    &&& final(self).unstake_period == old(self).unstake_period
                }
            },
    {
        let i = match self.find_position(caller) {
            Some(i) => i,
            None => {
                return Err(LedgerError::StateError);
            },
        };
        let position = self.positions[i];
        let reward = self.calculate_rewards(&position, now);
        let total = position.rewards + reward;
        if total == 0 {
            return Err(LedgerError::StateError);
        }
        let updated = StakePosition {
            address: position.address,
            staked_amount: position.staked_amount,
            rewards: 0,
            last_stake_timestamp: now,
            unstake_timestamp: position.unstake_timestamp,
        };
        self.positions[i] = updated;
        Ok(total)
    }

    /// Read-only lookup: a copy of this account's position, `None` when
    /// the account has none.
    pub fn get_stake_position(&self, address: u64) -> (r: Option<StakePosition>)
        requires
            self.wf(),
        ensures
            !has_position(self.positions@, address) ==> r is None,
            has_position(self.positions@, address) ==> r == Some(
                self.positions@[position_index(self.positions@, address)],
            ),
    {
        match self.find_position(address) {
            Some(i) => Some(self.positions[i]),
            None => None,
        }
    }
}

/// Reward accrual is monotone non-decreasing in elapsed time for a fixed
/// staked amount and reward rate, and is zero when no time has elapsed.
pub proof fn lemma_reward_monotone(staked: u128, rate: u128, e1: u64, e2: u64)
    requires
        e1 <= e2,
    ensures
        reward_spec(staked, rate, e1) <= reward_spec(staked, rate, e2),
        reward_spec(staked, rate, 0) == 0,
{
    let daily = rate as int / 365;
    vstd::arithmetic::div_mod::lemma_div_pos_is_pos(rate as int, 365);
    assert(staked * daily * e1 <= staked * daily * e2) by (nonlinear_arith)
        requires
            e1 <= e2,
            daily >= 0,
            staked >= 0,
    ;
    vstd::arithmetic::div_mod::lemma_div_is_ordered(
        staked * daily * e1,
        staked * daily * e2,
        86400int * 100,
    );
}

/// In a ledger with one position per account, an index holding the sought
/// account is the chosen `position_index`.
proof fn lemma_position_index_unique(positions: Seq<StakePosition>, address: u64, i: int)
    requires
        forall|p: int, q: int|
            0 <= p < q < positions.len() ==> positions[p].address != positions[q].address,
        0 <= i < positions.len(),
        positions[i].address == address,
    ensures
        has_position(positions, address),
        position_index(positions, address) == i,
{
    assert(has_position(positions, address));
    let c = position_index(positions, address);
    if c != i {
        if c < i {
            assert(positions[c].address != positions[i].address);
        } else {
            assert(positions[i].address != positions[c].address);
        }
    }
}

} // verus!
