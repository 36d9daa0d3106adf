//! Lock (time-vested) positions: duration-boosted yield, early-unlock
//! penalties, reward claims, and matured withdrawal.
use vstd::prelude::*;

use crate::errors::StakeLendError;
use crate::interest::SECONDS_PER_YEAR;
use crate::pool::spec_pool_wf;
use crate::state::spec_pool_eq;
use crate::state::{LockPoolData, Pool, PoolData};

verus! {

/// A user's locked deposit in a lock pool.
#[derive(Clone, Copy, Debug, PartialEq, Eq, Structural)]
pub struct LockPosition {
    /// Identifier of this position within its pool.
    pub position_id: u64,
    /// Amount locked.
    pub amount: u64,
    /// When the lock started.
    pub start_timestamp: u64,
    /// When the lock matures.
    pub unlock_timestamp: u64,
    /// Lock duration in seconds.
    pub duration: u64,
    /// Yield boost earned by the duration, in basis points.
    pub boost_bps: u16,
    /// Rewards claimed so far.
    pub claimed_rewards: u64,
    /// Timestamp of the last reward claim.
    pub last_claim_timestamp: u64,
    /// Whether the position still holds funds.
    pub is_active: bool,
}

/// The yield boost a lock duration earns: the minimum-duration boost at or
/// below the shortest lock, the maximum boost at or beyond the longest, and
/// linear interpolation in between.
pub open spec fn spec_boost_multiplier(l: LockPoolData, duration: u64) -> int {
    if duration <= l.min_lock_duration {
        l.min_duration_boost_bps as int
    } else if duration >= l.max_lock_duration {
        l.max_boost_bps as int
    } else {
        l.min_duration_boost_bps + (l.max_boost_bps - l.min_duration_boost_bps) * (duration
            - l.min_lock_duration) / (l.max_lock_duration - l.min_lock_duration)
    }
}

/// Calculate the yield boost for a lock duration.
pub fn calculate_boost_multiplier(lock_data: &LockPoolData, duration: u64) -> (r: Result<
    u16,
    StakeLendError,
>)
    requires
        lock_data.min_lock_duration <= lock_data.max_lock_duration,
        lock_data.min_duration_boost_bps <= lock_data.max_boost_bps,
        lock_data.max_boost_bps <= 10000,
    ensures
        r is Ok && r->Ok_0 == spec_boost_multiplier(*lock_data, duration),
        r->Ok_0 <= lock_data.max_boost_bps,
{
    if duration <= lock_data.min_lock_duration {
        return Ok(lock_data.min_duration_boost_bps);
    }
    if duration >= lock_data.max_lock_duration {
        return Ok(lock_data.max_boost_bps);
    }
    let duration_range = lock_data.max_lock_duration - lock_data.min_lock_duration;
    let duration_above_min = duration - lock_data.min_lock_duration;
    let boost_range = (lock_data.max_boost_bps - lock_data.min_duration_boost_bps) as u64;
    proof {
        assert(boost_range * duration_above_min <= boost_range * duration_range) by (
        nonlinear_arith)
            requires boost_range >= 0 && duration_above_min <= duration_range;
        vstd::arithmetic::div_mod::lemma_div_is_ordered(
            boost_range * duration_above_min,
            boost_range * duration_range,
            duration_range as int,
        );
        vstd::arithmetic::div_mod::lemma_div_multiples_vanish(
            boost_range as int,
            duration_range as int,
        );
        assert(boost_range * duration_range == duration_range * boost_range) by (nonlinear_arith);
        assert(boost_range * duration_above_min >= 0) by (nonlinear_arith)
            requires boost_range >= 0 && duration_above_min >= 0;
        vstd::arithmetic::div_mod::lemma_div_pos_is_pos(
            boost_range * duration_above_min,
            duration_range as int,
        );
    }
    proof {
        assert((boost_range as int) * (duration_above_min as int) <= u128::MAX) by (
        nonlinear_arith)
            requires boost_range <= 10000 && duration_above_min <= u64::MAX;
    }
    let boost_increment = ((boost_range as u128) * (duration_above_min as u128)) / (
    duration_range as u128);
    Ok(lock_data.min_duration_boost_bps + (boost_increment as u16))
}

/// Rewards a locked amount earns over elapsed seconds: the base annual rate
/// grown by the boost, applied pro rata.
pub open spec fn spec_lock_reward(amount: u64, base_rate: u64, boost_bps: u16, elapsed: u64)
    -> int {
    let boosted = base_rate * (10000 + boost_bps) / 10000;
    amount * boosted * elapsed / (SECONDS_PER_YEAR as int)
}

/// Whether the reward computation leaves `u128` or its result leaves `u64`.
pub open spec fn spec_lock_reward_overflows(
    amount: u64,
    base_rate: u64,
    boost_bps: u16,
    elapsed: u64,
) -> bool {
    let boosted = base_rate * (10000 + boost_bps) / 10000;
    amount * boosted * elapsed > u128::MAX || spec_lock_reward(amount, base_rate, boost_bps,
        elapsed) > u64::MAX
}

/// Calculate the rewards a locked amount has earned over elapsed time at a
/// boosted annual rate. Overflow fails with `MathOverflow`; nothing is
/// silently truncated.
pub fn calculate_lock_rewards(amount: u64, base_rate: u64, boost_bps: u16, elapsed: u64) -> (r:
    Result<u64, StakeLendError>)
    requires
        base_rate <= 30000,
        boost_bps <= 10000,
    ensures
        spec_lock_reward_overflows(amount, base_rate, boost_bps, elapsed) ==> r == Err::<
            u64,
            StakeLendError,
        >(StakeLendError::MathOverflow),
        !spec_lock_reward_overflows(amount, base_rate, boost_bps, elapsed) ==> r is Ok && r->Ok_0
            == spec_lock_reward(amount, base_rate, boost_bps, elapsed),
{
    proof {
        assert(base_rate * (10000 + boost_bps) <= 30000 * 20000) by (nonlinear_arith)
            requires base_rate <= 30000 && boost_bps <= 10000;
    }
    let boosted_rate = base_rate * (10000 + (boost_bps as u64)) / 10000;
    proof {
        vstd::arithmetic::div_mod::lemma_div_is_ordered(
            base_rate * (10000 + boost_bps),
            600000000,
            10000,
        );
        assert(600000000int / 10000 == 60000);
        assert((amount as int) * (boosted_rate as int) <= u128::MAX) by (nonlinear_arith)
            requires amount <= u64::MAX && boosted_rate <= 60000;
    }
    let scaled = (amount as u128) * (boosted_rate as u128);
    let product = match scaled.checked_mul(elapsed as u128) {
        Some(v) => v,
        None => {
            return Err(StakeLendError::MathOverflow);
        },
    };
    let reward = product / (SECONDS_PER_YEAR as u128);
    if reward > u64::MAX as u128 {
        return Err(StakeLendError::MathOverflow);
    }
    Ok(reward as u64)
}

/// Create a lock position in a lock pool: validate the duration and amount,
/// derive the boost, and add the locked amount to the pool's totals.
///
/// The duration must lie within the pool's configured range and the amount
/// at or above the pool's minimum. Every failure leaves the pool untouched.
pub fn process_create_lock_position(pool: &mut Pool, amount: u64, duration: u64, now: u64) -> (r:
    Result<LockPosition, StakeLendError>)
    requires
        spec_pool_wf(*old(pool)),
        old(pool).data is Lock,
    ensures
        spec_pool_wf(*final(pool)),
        final(pool).data is Lock,
        r is Err ==> spec_pool_eq(*final(pool), *old(pool)),
        ({
            let p = *old(pool);
            let l = p.data->Lock_0;
            let boost = spec_boost_multiplier(l, duration);
            if duration < l.min_lock_duration || duration > l.max_lock_duration {
                r == Err::<LockPosition, StakeLendError>(StakeLendError::InvalidLockDuration)
            } else if amount < l.min_lock_amount {
                r == Err::<LockPosition, StakeLendError>(StakeLendError::InsufficientFunds)
            } else if now + duration > u64::MAX || l.total_locked + amount > u64::MAX
                || l.positions_count + 1 > u64::MAX || l.next_position_id + 1 > u64::MAX
                || p.total_deposits + amount > u64::MAX {
                r == Err::<LockPosition, StakeLendError>(StakeLendError::MathOverflow)
            } else {
                let l1 = final(pool).data->Lock_0;
                &&& r == Ok::<LockPosition, StakeLendError>(
                    LockPosition {
                        position_id: l.next_position_id,
                        amount,
                        start_timestamp: now,
                        unlock_timestamp: (now + duration) as u64,
                        duration,
                        boost_bps: boost as u16,
                        claimed_rewards: 0,
                        last_claim_timestamp: now,
                        is_active: true,
                    },
                )
                &&& l1.total_locked == l.total_locked + amount
                &&& l1.positions_count == l.positions_count + 1
                &&& l1.next_position_id == l.next_position_id + 1
                &&& final(pool).total_deposits == p.total_deposits + amount
                &&& final(pool).last_update_timestamp == now
                &&& final(pool).total_shares == p.total_shares
            }
        }),
{
    let l = match &pool.data {
        PoolData::Lock(l) => *l,
        _ => {
            return Err(StakeLendError::InvalidPoolType);
        },
    };
    if duration < l.min_lock_duration || duration > l.max_lock_duration {
        return Err(StakeLendError::InvalidLockDuration);
    }
    if amount < l.min_lock_amount {
        return Err(StakeLendError::InsufficientFunds);
    }
    let boost_bps = match calculate_boost_multiplier(&l, duration) {
        Ok(b) => b,
        Err(e) => {
            return Err(e);
        },
    };
    let unlock_timestamp = match now.checked_add(duration) {
        Some(v) => v,
        None => {
            return Err(StakeLendError::MathOverflow);
        },
    };
    let new_locked = match l.total_locked.checked_add(amount) {
        Some(v) => v,
        None => {
            return Err(StakeLendError::MathOverflow);
        },
    };
    let new_count = match l.positions_count.checked_add(1) {
        Some(v) => v,
        None => {
            return Err(StakeLendError::MathOverflow);
        },
    };
    let new_next_id = match l.next_position_id.checked_add(1) {
        Some(v) => v,
        None => {
            return Err(StakeLendError::MathOverflow);
        },
    };
    let new_deposits = match pool.total_deposits.checked_add(amount) {
        Some(v) => v,
        None => {
            return Err(StakeLendError::MathOverflow);
        },
    };
    let position = LockPosition {
        position_id: l.next_position_id,
        amount,
        start_timestamp: now,
        unlock_timestamp,
        duration,
        boost_bps,
        claimed_rewards: 0,
        last_claim_timestamp: now,
        is_active: true,
    };
    pool.total_deposits = new_deposits;
    pool.last_update_timestamp = now;
    match &mut pool.data {
        PoolData::Lock(ld) => {
            ld.total_locked = new_locked;
            ld.positions_count = new_count;
            ld.next_position_id = new_next_id;
        },
        _ => {
            return Err(StakeLendError::InvalidPoolType);
        },
    }
    Ok(position)
}

/// Extend a lock's duration: the new duration must stay within the pool's
/// range and push the unlock time strictly later; the boost is re-derived.
pub fn process_extend_lock_duration(
    pool: &Pool,
    position: &mut LockPosition,
    new_duration: u64,
) -> (r: Result<(), StakeLendError>)
    requires
        spec_pool_wf(*pool),
        pool.data is Lock,
    ensures
        r is Err ==> *final(position) == *old(position),
        ({
            let l = pool.data->Lock_0;
            let p0 = *old(position);
            if !p0.is_active {
                r == Err::<(), StakeLendError>(StakeLendError::InvalidAccountData)
            } else if new_duration < l.min_lock_duration || new_duration > l.max_lock_duration {
                r == Err::<(), StakeLendError>(StakeLendError::InvalidLockDuration)
            } else if p0.start_timestamp + new_duration > u64::MAX || p0.start_timestamp
                + new_duration <= p0.unlock_timestamp {
                r == Err::<(), StakeLendError>(StakeLendError::InvalidLockDuration)
            } else {
                &&& r is Ok
                &&& final(position).duration == new_duration
                &&& final(position).unlock_timestamp == p0.start_timestamp + new_duration
                &&& final(position).boost_bps == spec_boost_multiplier(l, new_duration)
                &&& final(position).amount == p0.amount
                &&& final(position).position_id == p0.position_id
                &&& final(position).start_timestamp == p0.start_timestamp
                &&& final(position).claimed_rewards == p0.claimed_rewards
                &&& final(position).last_claim_timestamp == p0.last_claim_timestamp
                &&& final(position).is_active
            }
        }),
{
    let l = match &pool.data {
        PoolData::Lock(l) => *l,
        _ => {
            return Err(StakeLendError::InvalidPoolType);
        },
    };
    if !position.is_active {
        return Err(StakeLendError::InvalidAccountData);
    }
    if new_duration < l.min_lock_duration || new_duration > l.max_lock_duration {
        return Err(StakeLendError::InvalidLockDuration);
    }
    let new_unlock = match position.start_timestamp.checked_add(new_duration) {
        Some(v) => v,
        None => {
            return Err(StakeLendError::InvalidLockDuration);
        },
    };
    if new_unlock <= position.unlock_timestamp {
        return Err(StakeLendError::InvalidLockDuration);
    }
    let boost_bps = match calculate_boost_multiplier(&l, new_duration) {
        Ok(b) => b,
        Err(e) => {
            return Err(e);
        },
    };
    position.duration = new_duration;
    position.unlock_timestamp = new_unlock;
    position.boost_bps = boost_bps;
    Ok(())
}

/// Claim the rewards a lock position has earned since its last claim.
///
/// Rewards accrue at the pool's base rate grown by the position's boost,
/// pro rata over the elapsed seconds. The claim timestamp advances and the
/// claimed total grows; claiming twice at the same instant yields nothing
/// the second time. Every failure leaves the position untouched.
pub fn process_claim_lock_rewards(pool: &Pool, position: &mut LockPosition, now: u64) -> (r:
    Result<u64, StakeLendError>)
    requires
        spec_pool_wf(*pool),
        pool.data is Lock,
    ensures
        r is Err ==> *final(position) == *old(position),
        ({
            let l = pool.data->Lock_0;
            let p0 = *old(position);
            let elapsed = if now > p0.last_claim_timestamp {
                (now - p0.last_claim_timestamp) as u64
            } else {
                0u64
            };
            let reward = spec_lock_reward(p0.amount, l.base_reward_rate, p0.boost_bps, elapsed);
            if !p0.is_active {
                r == Err::<u64, StakeLendError>(StakeLendError::InvalidAccountData)
            } else if p0.boost_bps > 10000 {
                r == Err::<u64, StakeLendError>(StakeLendError::InvalidParameter)
            } else if spec_lock_reward_overflows(p0.amount, l.base_reward_rate, p0.boost_bps,
                elapsed) || p0.claimed_rewards + reward > u64::MAX {
                r == Err::<u64, StakeLendError>(StakeLendError::MathOverflow)
            } else {
                &&& r == Ok::<u64, StakeLendError>(reward as u64)
                &&& final(position).claimed_rewards == p0.claimed_rewards + reward
                &&& final(position).last_claim_timestamp == now
                &&& final(position).amount == p0.amount
                &&& final(position).is_active == p0.is_active
                &&& final(position).boost_bps == p0.boost_bps
                &&& final(position).unlock_timestamp == p0.unlock_timestamp
            }
        }),
{
    let l = match &pool.data {
        PoolData::Lock(l) => *l,
        _ => {
            return Err(StakeLendError::InvalidPoolType);
        },
    };
    if !position.is_active {
        return Err(StakeLendError::InvalidAccountData);
    }
    if position.boost_bps > 10000 {
        return Err(StakeLendError::InvalidParameter);
    }
    let elapsed = if now > position.last_claim_timestamp {
        now - position.last_claim_timestamp
    } else {
        0
    };
    let reward = match calculate_lock_rewards(
        position.amount,
        l.base_reward_rate,
        position.boost_bps,
        elapsed,
    ) {
        Ok(v) => v,
        Err(e) => {
            return Err(e);
        },
    };
    let new_claimed = match position.claimed_rewards.checked_add(reward) {
        Some(v) => v,
        None => {
            return Err(StakeLendError::MathOverflow);
        },
    };
    position.claimed_rewards = new_claimed;
    position.last_claim_timestamp = now;
    Ok(reward)
}

/// Withdraw a lock position: before maturity the early-unlock penalty is
/// kept by the pool, and any outstanding rewards are paid out; the position
/// deactivates and the locked amount leaves the pool's totals.
pub fn process_withdraw_matured_lock(pool: &mut Pool, position: &mut LockPosition, now: u64) -> (r:
    Result<(u64, u64), StakeLendError>)
    requires
        spec_pool_wf(*old(pool)),
        old(pool).data is Lock,
    ensures
        spec_pool_wf(*final(pool)),
        final(pool).data is Lock,
        r is Err ==> spec_pool_eq(*final(pool), *old(pool)) && *final(position) == *old(
            position,
        ),
        ({
            let p = *old(pool);
            let l = p.data->Lock_0;
            let p0 = *old(position);
            let matured = now >= p0.unlock_timestamp;
            let penalty = if matured {
                0
            } else {
                p0.amount * l.early_unlock_penalty_bps / 10000
            };
            let withdraw = p0.amount - penalty;
            let elapsed = if now > p0.last_claim_timestamp {
                (now - p0.last_claim_timestamp) as u64
            } else {
                0u64
            };
            let reward = spec_lock_reward(p0.amount, l.base_reward_rate, p0.boost_bps, elapsed);
            if !p0.is_active {
                r == Err::<(u64, u64), StakeLendError>(StakeLendError::InvalidAccountData)
            } else if p0.boost_bps > 10000 {
                r == Err::<(u64, u64), StakeLendError>(StakeLendError::InvalidParameter)
            } else if !matured && p0.amount * l.early_unlock_penalty_bps > u64::MAX {
                r == Err::<(u64, u64), StakeLendError>(StakeLendError::MathOverflow)
            } else if spec_lock_reward_overflows(p0.amount, l.base_reward_rate, p0.boost_bps,
                elapsed) || p0.claimed_rewards + reward > u64::MAX {
                r == Err::<(u64, u64), StakeLendError>(StakeLendError::MathOverflow)
            } else {
                let l1 = final(pool).data->Lock_0;
                &&& r == Ok::<(u64, u64), StakeLendError>((withdraw as u64, reward as u64))
                &&& !final(position).is_active
                &&& final(position).claimed_rewards == p0.claimed_rewards + reward
                &&& final(position).last_claim_timestamp == now
                &&& l1.total_locked == (if p0.amount <= l.total_locked {
                    l.total_locked - p0.amount
                } else {
                    0int
                })
                &&& final(pool).total_deposits == (if p0.amount <= p.total_deposits {
                    p.total_deposits - p0.amount
                } else {
                    0int
                })
                &&& final(pool).last_update_timestamp == now
            }
        }),
{
    let l = match &pool.data {
        PoolData::Lock(l) => *l,
        _ => {
            return Err(StakeLendError::InvalidPoolType);
        },
    };
    if !position.is_active {
        return Err(StakeLendError::InvalidAccountData);
    }
    if position.boost_bps > 10000 {
        return Err(StakeLendError::InvalidParameter);
    }
    let matured = now >= position.unlock_timestamp;
    let penalty = if matured {
        0
    } else {
        match position.amount.checked_mul(l.early_unlock_penalty_bps as u64) {
            Some(scaled) => scaled / 10000,
            None => {
                return Err(StakeLendError::MathOverflow);
            },
        }
    };
    proof {
        if !matured {
            crate::pool::lemma_fee_le_amount(
                position.amount as int,
                l.early_unlock_penalty_bps as int,
            );
        }
    }
    let withdraw_amount = position.amount - penalty;
    let elapsed = if now > position.last_claim_timestamp {
        now - position.last_claim_timestamp
    } else {
        0
    };
    let final_rewards = match calculate_lock_rewards(
        position.amount,
        l.base_reward_rate,
        position.boost_bps,
        elapsed,
    ) {
        Ok(v) => v,
        Err(e) => {
            return Err(e);
        },
    };
    let new_claimed = match position.claimed_rewards.checked_add(final_rewards) {
        Some(v) => v,
        None => {
            return Err(StakeLendError::MathOverflow);
        },
    };
    position.is_active = false;
    position.claimed_rewards = new_claimed;
    position.last_claim_timestamp = now;
    let new_locked = if position.amount <= l.total_locked {
        l.total_locked - position.amount
    } else {
        0
    };
    let new_deposits = if position.amount <= pool.total_deposits {
        pool.total_deposits - position.amount
    } else {
        0
    };
    pool.total_deposits = new_deposits;
    pool.last_update_timestamp = now;
    match &mut pool.data {
        PoolData::Lock(ld) => {
            ld.total_locked = new_locked;
        },
        _ => {
            return Err(StakeLendError::InvalidPoolType);
        },
    }
    Ok((withdraw_amount, final_rewards))
}

/// Update the boost configured for the shortest or longest lock duration,
/// keeping the boost range consistent.
pub fn process_update_lock_yield_boost(pool: &mut Pool, duration: u64, boost_bps: u16) -> (r:
    Result<(), StakeLendError>)
    requires
        spec_pool_wf(*old(pool)),
        old(pool).data is Lock,
    ensures
        spec_pool_wf(*final(pool)),
        final(pool).data is Lock,
        r is Err ==> spec_pool_eq(*final(pool), *old(pool)),
        ({
            let l = old(pool).data->Lock_0;
            if boost_bps > 10000 {
                r == Err::<(), StakeLendError>(StakeLendError::InvalidParameter)
            } else if duration < l.min_lock_duration || duration > l.max_lock_duration {
                r == Err::<(), StakeLendError>(StakeLendError::InvalidLockDuration)
            } else if duration == l.min_lock_duration {
                if boost_bps <= l.max_boost_bps {
                    r is Ok && final(pool).data->Lock_0.min_duration_boost_bps == boost_bps
                        && final(pool).data->Lock_0.max_boost_bps == l.max_boost_bps
                } else {
                    r == Err::<(), StakeLendError>(StakeLendError::InvalidParameter)
                }
            } else {
                if boost_bps >= l.min_duration_boost_bps {
                    r is Ok && final(pool).data->Lock_0.max_boost_bps == boost_bps && final(pool).data->Lock_0.min_duration_boost_bps == l.min_duration_boost_bps
                } else {
                    r == Err::<(), StakeLendError>(StakeLendError::InvalidParameter)
                }
            }
        }),
{
    let l = match &pool.data {
        PoolData::Lock(l) => *l,
        _ => {
            return Err(StakeLendError::InvalidPoolType);
        },
    };
    if boost_bps > 10000 {
        return Err(StakeLendError::InvalidParameter);
    }
    if duration < l.min_lock_duration || duration > l.max_lock_duration {
        return Err(StakeLendError::InvalidLockDuration);
    }
    if duration == l.min_lock_duration {
        if boost_bps > l.max_boost_bps {
            return Err(StakeLendError::InvalidParameter);
        }
        match &mut pool.data {
            PoolData::Lock(ld) => {
                ld.min_duration_boost_bps = boost_bps;
            },
            _ => {
                return Err(StakeLendError::InvalidPoolType);
            },
        }
    } else {
        if boost_bps < l.min_duration_boost_bps {
            return Err(StakeLendError::InvalidParameter);
        }
        match &mut pool.data {
            PoolData::Lock(ld) => {
                ld.max_boost_bps = boost_bps;
            },
            _ => {
                return Err(StakeLendError::InvalidPoolType);
            },
        }
    }
    Ok(())
}

} // verus!
