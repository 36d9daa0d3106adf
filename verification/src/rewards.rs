//! Fixed-APY reward arithmetic for the staking vaults: time-staked rewards
//! at an annual rate, with multiplier and per-share variants.
use vstd::prelude::*;

use crate::errors::StakeLendError;
use crate::interest::SECONDS_PER_YEAR;

verus! {

/// Rewards an amount earns over elapsed seconds at an annual rate in basis
/// points: `amount * elapsed * apy / (SECONDS_PER_YEAR * 10000)`.
pub open spec fn spec_time_reward(amount: u64, time_staked: u64, apy_bps: u16) -> int {
    amount * time_staked * apy_bps / ((SECONDS_PER_YEAR * 10000) as int)
}

/// Calculate staking rewards from an amount, elapsed seconds, and a fixed
/// annual rate in basis points.
///
/// The computation runs in 128-bit arithmetic; overflow there, or a result
/// that does not fit the 64-bit token amount, fails with `MathOverflow` —
/// nothing is silently truncated.
pub fn calculate_rewards(amount: u64, time_staked: u64, apy_points: u16) -> (r: Result<
    u64,
    StakeLendError,
>)
    ensures
        amount * time_staked * apy_points > u128::MAX ==> r == Err::<u64, StakeLendError>(
            StakeLendError::MathOverflow,
        ),
        amount * time_staked * apy_points <= u128::MAX && spec_time_reward(
            amount,
            time_staked,
            apy_points,
        ) > u64::MAX ==> r == Err::<u64, StakeLendError>(StakeLendError::MathOverflow),
        amount * time_staked * apy_points <= u128::MAX && spec_time_reward(
            amount,
            time_staked,
            apy_points,
        ) <= u64::MAX ==> r == Ok::<u64, StakeLendError>(
            spec_time_reward(amount, time_staked, apy_points) as u64,
        ),
{
    proof {
        assert((amount as int) * (time_staked as int) <= u128::MAX) by (nonlinear_arith)
            requires amount <= u64::MAX && time_staked <= u64::MAX;
    }
    let base = (amount as u128) * (time_staked as u128);
    let scaled = match base.checked_mul(apy_points as u128) {
        Some(v) => v,
        None => {
            return Err(StakeLendError::MathOverflow);
        },
    };
    let denominator: u128 = (SECONDS_PER_YEAR as u128) * 10000;
    let reward = scaled / denominator;
    if reward > u64::MAX as u128 {
        return Err(StakeLendError::MathOverflow);
    }
    Ok(reward as u64)
}

/// Calculate locking-vault rewards: the base rate is grown by a multiplier
/// in basis points before the time-staked formula applies.
///
/// An effective rate beyond 16 bits is rejected as `MathOverflow` rather
/// than truncated.
pub fn calculate_locked_rewards(
    amount: u64,
    time_staked: u64,
    base_apy: u16,
    multiplier: u16,
) -> (r: Result<u64, StakeLendError>)
    ensures
        ({
            let effective = base_apy * multiplier / 10000;
            if effective > u16::MAX {
                r == Err::<u64, StakeLendError>(StakeLendError::MathOverflow)
            } else if amount * time_staked * effective > u128::MAX {
                r == Err::<u64, StakeLendError>(StakeLendError::MathOverflow)
            } else if spec_time_reward(amount, time_staked, effective as u16) > u64::MAX {
                r == Err::<u64, StakeLendError>(StakeLendError::MathOverflow)
            } else {
                r == Ok::<u64, StakeLendError>(
                    spec_time_reward(amount, time_staked, effective as u16) as u64,
                )
            }
        }),
{
    proof {
        assert(base_apy * multiplier <= 65535 * 65535) by (nonlinear_arith)
            requires base_apy <= 65535 && multiplier <= 65535;
    }
    let effective = (base_apy as u64) * (multiplier as u64) / 10000;
    if effective > u16::MAX as u64 {
        return Err(StakeLendError::MathOverflow);
    }
    calculate_rewards(amount, time_staked, effective as u16)
}

/// Calculate lending-vault rewards from a share count and a per-share
/// rate accumulated over time: `shares * elapsed * rate / 1e9`.
pub fn calculate_lending_rewards(shares: u64, time_staked: u64, stable_per_share: u64) -> (r:
    Result<u64, StakeLendError>)
    ensures
        shares * time_staked * stable_per_share > u128::MAX ==> r == Err::<u64, StakeLendError>(
            StakeLendError::MathOverflow,
        ),
        shares * time_staked * stable_per_share <= u128::MAX && shares * time_staked
            * stable_per_share / 1000000000 > u64::MAX ==> r == Err::<u64, StakeLendError>(
            StakeLendError::MathOverflow,
        ),
        shares * time_staked * stable_per_share <= u128::MAX && shares * time_staked
            * stable_per_share / 1000000000 <= u64::MAX ==> r == Ok::<u64, StakeLendError>(
            (shares * time_staked * stable_per_share / 1000000000) as u64,
        ),
{
    proof {
        assert((shares as int) * (time_staked as int) <= u128::MAX) by (nonlinear_arith)
            requires shares <= u64::MAX && time_staked <= u64::MAX;
    }
    let base = (shares as u128) * (time_staked as u128);
    let scaled = match base.checked_mul(stable_per_share as u128) {
        Some(v) => v,
        None => {
            return Err(StakeLendError::MathOverflow);
        },
    };
    let reward = scaled / 1000000000u128;
    if reward > u64::MAX as u128 {
        return Err(StakeLendError::MathOverflow);
    }
    Ok(reward as u64)
}

} // verus!
