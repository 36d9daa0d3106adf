//! Pool operations: lazy accrual, deposits, withdrawals, and derived-rate
//! maintenance. Every operation either commits a full state transition or
//! fails before changing anything.
use vstd::prelude::*;

use crate::errors::StakeLendError;
use crate::interest::{
    INDEX_SCALE, spec_interest_factor, spec_updated_index, update_interest_index,
};
use crate::math::{calculate_utilization_rate, spec_utilization_rate};
use crate::oracle::AssetId;
use crate::rates::{
    calculate_borrow_rate, calculate_supply_rate, spec_borrow_rate, spec_supply_rate,
};
use crate::state::{
    LendingPoolData, Pool, PoolData, PoolType, spec_collateral_factors_bounded,
    spec_lending_pool_wf, spec_pool_eq,
};

verus! {

/// Seconds elapsed since a recorded timestamp; a clock that reads earlier
/// than the record counts as no elapsed time.
pub open spec fn spec_elapsed(last: u64, now: u64) -> int {
    if now > last {
        now - last
    } else {
        0
    }
}

/// Whether one accrual step on this pool data would overflow.
pub open spec fn spec_accrue_overflows(d: LendingPoolData, now: u64) -> bool {
    let e = spec_elapsed(d.last_interest_update_timestamp, now);
    e > 0 && (d.current_borrow_rate * e * INDEX_SCALE > u128::MAX
        || d.accumulated_interest_index * (INDEX_SCALE + spec_interest_factor(
        d.current_borrow_rate as int,
        e,
    )) > u128::MAX)
}

/// The index after one accrual step at the pool's current borrow rate.
pub open spec fn spec_accrued_index(d: LendingPoolData, now: u64) -> int {
    spec_updated_index(
        d.accumulated_interest_index as int,
        d.current_borrow_rate as int,
        spec_elapsed(d.last_interest_update_timestamp, now),
    )
}

/// Well-formedness of any pool, by variant.
pub open spec fn spec_pool_wf(p: Pool) -> bool {
    match p.data {
        PoolData::Basic(b) => {
            &&& p.pool_type == PoolType::Basic
            &&& p.deposit_fee_bps <= 10000
            &&& p.withdrawal_fee_bps <= 10000
            &&& b.instant_unstake_fee_bps <= 10000
        },
        PoolData::Lending(_) => spec_lending_pool_wf(p),
        PoolData::Lock(l) => {
            &&& p.pool_type == PoolType::Lock
            &&& p.deposit_fee_bps <= 10000
            &&& p.withdrawal_fee_bps <= 10000
            &&& l.min_lock_duration <= l.max_lock_duration
            &&& l.min_duration_boost_bps <= l.max_boost_bps
            &&& l.max_boost_bps <= 10000
            &&& l.early_unlock_penalty_bps <= 10000
            &&& l.base_reward_rate <= 30000
            &&& l.total_locked <= p.total_deposits
        },
    }
}

/// Runtime check that every configured collateral factor is at most 100%.
fn collateral_factors_are_bounded(v: &Vec<(AssetId, u16)>) -> (r: bool)
    ensures
        r == spec_collateral_factors_bounded(v@),
{
    let ghost s = v@;
    let mut i: usize = 0;
    while i < v.len()
        invariant
            v@ == s,
            i <= s.len(),
            forall|x: int| 0 <= x < i ==> (#[trigger] s[x]).1 <= 10000,
        decreases s.len() - i,
    {
        if v[i].1 > 10000 {
            return false;
        }
        i = i + 1;
    }
    true
}

impl Pool {
    /// Runtime check of the pool invariant, for callers that load a pool
    /// from storage they do not control. Holds exactly when the stored
    /// aggregates are consistent and every cached derived field (liquidity,
    /// utilization, rates) equals the value re-derived from them.
    pub fn is_well_formed(&self) -> (r: bool)
        ensures
            r == spec_pool_wf(*self),
    {
        if self.deposit_fee_bps > 10000 || self.withdrawal_fee_bps > 10000 {
            return false;
        }
        match &self.data {
            PoolData::Basic(b) => {
                self.pool_type == PoolType::Basic && b.instant_unstake_fee_bps <= 10000
            },
            PoolData::Lock(l) => {
                self.pool_type == PoolType::Lock && l.min_lock_duration <= l.max_lock_duration
                    && l.min_duration_boost_bps <= l.max_boost_bps && l.max_boost_bps <= 10000
                    && l.early_unlock_penalty_bps <= 10000 && l.base_reward_rate <= 30000
                    && l.total_locked <= self.total_deposits
            },
            PoolData::Lending(d) => {
                if self.pool_type != PoolType::Lending {
                    return false;
                }
                if d.total_borrows > self.total_deposits {
                    return false;
                }
                if d.available_liquidity != self.total_deposits - d.total_borrows {
                    return false;
                }
                let util: u64 = if self.total_deposits == 0 {
                    0
                } else {
                    let wide: u128 = (d.total_borrows as u128) * 10000
                        / (self.total_deposits as u128);
                    proof {
                        let b = d.total_borrows as int;
                        let t = self.total_deposits as int;
                        assert(b * 10000 <= t * 10000) by (nonlinear_arith)
                            requires b <= t;
                        vstd::arithmetic::div_mod::lemma_div_pos_is_pos(b * 10000, t);
                        vstd::arithmetic::div_mod::lemma_div_is_ordered(b * 10000, t * 10000, t);
                        vstd::arithmetic::div_mod::lemma_div_multiples_vanish(10000, t);
                    }
                    wide as u64
                };
                if d.utilization_rate != util {
                    return false;
                }
                if !d.interest_rate_params.is_valid() {
                    return false;
                }
                if d.reserve_factor_bps > 5000 || d.liquidation_threshold > 10000
                    || d.liquidation_bonus > 3000 || d.max_ltv == 0 || d.max_ltv > 10000 {
                    return false;
                }
                if d.accumulated_interest_index < INDEX_SCALE {
                    return false;
                }
                let borrow_rate = match calculate_borrow_rate(util, &d.interest_rate_params) {
                    Ok(v) => v,
                    Err(_) => {
                        return false;
                    },
                };
                if d.current_borrow_rate != borrow_rate {
                    return false;
                }
                proof {
                    assert(borrow_rate * util <= 30000 * 10000) by (nonlinear_arith)
                        requires 0 <= borrow_rate <= 30000 && 0 <= util <= 10000;
                }
                let supply_rate = match calculate_supply_rate(
                    borrow_rate,
                    util,
                    d.reserve_factor_bps,
                ) {
                    Ok(v) => v,
                    Err(_) => {
                        return false;
                    },
                };
                if d.current_supply_rate != supply_rate {
                    return false;
                }
                collateral_factors_are_bounded(&d.supported_collaterals)
            },
        }
    }
}

/// Derive a lending pool's utilization and rates for new aggregate totals.
pub(crate) fn derive_rates(
    new_borrows: u64,
    new_deposits: u64,
    params: &crate::rates::InterestRateParams,
    reserve_factor_bps: u16,
) -> (r: Result<(u64, u64, u64), StakeLendError>)
    requires
        params.wf(),
        reserve_factor_bps <= 5000,
        new_borrows <= new_deposits,
    ensures
        new_borrows * 10000 > u64::MAX ==> r == Err::<(u64, u64, u64), StakeLendError>(
            StakeLendError::MathOverflow,
        ),
        new_borrows * 10000 <= u64::MAX ==> ({
            let utilization = spec_utilization_rate(new_borrows as int, new_deposits as int);
            &&& r is Ok
            &&& r->Ok_0.0 == utilization
            &&& r->Ok_0.0 <= 10000
            &&& r->Ok_0.1 == spec_borrow_rate(*params, utilization)
            &&& r->Ok_0.1 <= 30000
            &&& r->Ok_0.2 == spec_supply_rate(r->Ok_0.1 as int, utilization, reserve_factor_bps as int)
        }),
{
    let utilization = match calculate_utilization_rate(new_borrows, new_deposits) {
        Ok(v) => v,
        Err(_) => {
            return Err(StakeLendError::MathOverflow);
        },
    };
    let borrow_rate = match calculate_borrow_rate(utilization, params) {
        Ok(v) => v,
        Err(e) => {
            return Err(e);
        },
    };
    proof {
        assert(borrow_rate * utilization <= 30000 * 10000) by (nonlinear_arith)
            requires borrow_rate <= 30000 && utilization <= 10000;
    }
    let supply_rate = match calculate_supply_rate(borrow_rate, utilization, reserve_factor_bps) {
        Ok(v) => v,
        Err(e) => {
            return Err(e);
        },
    };
    Ok((utilization, borrow_rate, supply_rate))
}

/// Bring a lending pool's interest index current, as the first step of every
/// state-mutating operation.
///
/// With no elapsed time the pool is left exactly as it was; otherwise the
/// index grows by one accrual step at the current borrow rate and the
/// timestamp advances. The index never decreases. Overflow fails with
/// `MathOverflow` and changes nothing.
pub fn accrue_interest(pool: &mut Pool, now: u64) -> (r: Result<(), StakeLendError>)
    requires
        spec_lending_pool_wf(*old(pool)),
    ensures
        spec_lending_pool_wf(*final(pool)),
        r is Err ==> spec_pool_eq(*final(pool), *old(pool)) && r == Err::<(), StakeLendError>(
            StakeLendError::MathOverflow,
        ),
        r is Err <==> spec_accrue_overflows(old(pool).data->Lending_0, now),
        r is Ok ==> ({
            let d0 = old(pool).data->Lending_0;
            let d1 = final(pool).data->Lending_0;
            let e = spec_elapsed(d0.last_interest_update_timestamp, now);
            &&& d1.accumulated_interest_index == spec_accrued_index(d0, now)
            &&& d1.last_interest_update_timestamp == (if e > 0 {
                now
            } else {
                d0.last_interest_update_timestamp
            })
            &&& d1.interest_rate_params == d0.interest_rate_params
            &&& d1.current_borrow_rate == d0.current_borrow_rate
            &&& d1.current_supply_rate == d0.current_supply_rate
            &&& d1.total_borrows == d0.total_borrows
            &&& d1.available_liquidity == d0.available_liquidity
            &&& d1.utilization_rate == d0.utilization_rate
            &&& d1.reserve_factor_bps == d0.reserve_factor_bps
            &&& d1.liquidation_threshold == d0.liquidation_threshold
            &&& d1.liquidation_bonus == d0.liquidation_bonus
            &&& d1.max_ltv == d0.max_ltv
            &&& d1.supported_collaterals@ == d0.supported_collaterals@
            &&& final(pool).pool_type == old(pool).pool_type
            &&& final(pool).token_mint == old(pool).token_mint
            &&& final(pool).min_deposit == old(pool).min_deposit
            &&& final(pool).max_deposit == old(pool).max_deposit
            &&& final(pool).total_deposits == old(pool).total_deposits
            &&& final(pool).deposit_fee_bps == old(pool).deposit_fee_bps
            &&& final(pool).withdrawal_fee_bps == old(pool).withdrawal_fee_bps
            &&& final(pool).total_shares == old(pool).total_shares
            &&& final(pool).last_update_timestamp == old(pool).last_update_timestamp
        }),
        final(pool).data->Lending_0.accumulated_interest_index >= old(
            pool,
        ).data->Lending_0.accumulated_interest_index,
        spec_elapsed(old(pool).data->Lending_0.last_interest_update_timestamp, now) == 0 ==> r
            is Ok && spec_pool_eq(*final(pool), *old(pool)),
{
    let (current_index, borrow_rate, last_ts) = match &pool.data {
        PoolData::Lending(d) => (
            d.accumulated_interest_index,
            d.current_borrow_rate,
            d.last_interest_update_timestamp,
        ),
        _ => {
            return Err(StakeLendError::MathOverflow);
        },
    };
    if now <= last_ts {
        proof {
            crate::interest::lemma_interest_index_unchanged_when_no_time(
                current_index as int,
                borrow_rate as int,
            );
        }
        return Ok(());
    }
    let elapsed = now - last_ts;
    let new_index = match update_interest_index(current_index, borrow_rate, elapsed) {
        Ok(v) => v,
        Err(e) => {
            return Err(e);
        },
    };
    match &mut pool.data {
        PoolData::Lending(d) => {
            d.accumulated_interest_index = new_index;
            d.last_interest_update_timestamp = now;
        },
        _ => {
            return Err(StakeLendError::MathOverflow);
        },
    }
    Ok(())
}

/// What a committed deposit did: the fee kept, the amount credited, and the
/// shares minted.
#[derive(Clone, Copy, Debug, PartialEq, Eq, Structural)]
pub struct DepositReceipt {
    /// Fee taken out of the deposit.
    pub fee_amount: u64,
    /// Amount credited to the pool after the fee.
    pub net_deposit: u64,
    /// Pool shares minted to the depositor.
    pub shares_minted: u64,
}

/// What a committed withdrawal did: the tokens redeemed, the fee kept, and
/// the amount owed to the user.
#[derive(Clone, Copy, Debug, PartialEq, Eq, Structural)]
pub struct WithdrawReceipt {
    /// Tokens the shares redeemed for, before the fee.
    pub gross_tokens: u64,
    /// Fee taken out of the redemption.
    pub fee_amount: u64,
    /// Tokens owed to the user after the fee.
    pub net_tokens: u64,
}

/// The fee on an amount, in basis points.
pub open spec fn spec_fee(amount: int, bps: int) -> int {
    amount * bps / 10000
}

/// Shares minted for a net deposit at the pool's current ratio (one-to-one
/// for an empty pool).
pub open spec fn spec_minted_shares(net: int, total_shares: int, total_deposits: int) -> int {
    if total_shares == 0 || total_deposits == 0 {
        net
    } else {
        net * total_shares / total_deposits
    }
}

/// Tokens redeemed by shares at the pool's current ratio.
pub open spec fn spec_tokens_for_shares(shares: int, total_shares: int, total_deposits: int)
    -> int {
    if total_shares == 0 {
        shares
    } else {
        shares * total_deposits / total_shares
    }
}

/// A fee in basis points of at most 100% never exceeds the amount.
pub proof fn lemma_fee_le_amount(amount: int, bps: int)
    requires
        amount >= 0,
        0 <= bps <= 10000,
    ensures
        0 <= spec_fee(amount, bps) <= amount,
{
    assert(amount * bps >= 0) by (nonlinear_arith)
        requires amount >= 0 && bps >= 0;
    assert(amount * bps <= amount * 10000) by (nonlinear_arith)
        requires amount >= 0 && bps <= 10000;
    vstd::arithmetic::div_mod::lemma_div_pos_is_pos(amount * bps, 10000);
    vstd::arithmetic::div_mod::lemma_div_is_ordered(amount * bps, amount * 10000, 10000);
    vstd::arithmetic::div_mod::lemma_div_multiples_vanish(amount, 10000);
}

/// Redeeming at most all outstanding shares never draws more than all
/// deposits.
pub proof fn lemma_tokens_within_deposits(shares: int, total_shares: int, total_deposits: int)
    requires
        0 <= shares <= total_shares,
        0 <= total_deposits,
    ensures
        0 <= spec_tokens_for_shares(shares, total_shares, total_deposits) <= total_deposits,
{
    if total_shares == 0 {
    } else {
        assert(shares * total_deposits >= 0) by (nonlinear_arith)
            requires shares >= 0 && total_deposits >= 0;
        assert(shares * total_deposits <= total_shares * total_deposits) by (nonlinear_arith)
            requires 0 <= shares <= total_shares && total_deposits >= 0;
        vstd::arithmetic::div_mod::lemma_div_pos_is_pos(shares * total_deposits, total_shares);
        vstd::arithmetic::div_mod::lemma_div_is_ordered(
            shares * total_deposits,
            total_shares * total_deposits,
            total_shares,
        );
        vstd::arithmetic::div_mod::lemma_div_multiples_vanish(total_deposits, total_shares);
        assert(total_shares * total_deposits == total_deposits * total_shares) by (
        nonlinear_arith);
    }
}

/// Deposit tokens into a basic or lending pool.
///
/// The amount must lie within the pool's deposit limits. A lending pool
/// accrues interest first. The deposit fee is kept by the pool, the net
/// amount joins total deposits, shares are minted at the pre-deposit ratio
/// (one-to-one into an empty pool), and a lending pool's liquidity,
/// utilization and rates are re-derived. Lock pools take deposits through
/// lock positions instead. Any overflow fails with `MathOverflow`; every
/// failure leaves the pool untouched.
pub fn process_deposit_to_pool(pool: &mut Pool, amount: u64, now: u64) -> (r: Result<
    DepositReceipt,
    StakeLendError,
>)
    requires
        spec_pool_wf(*old(pool)),
    ensures
        spec_pool_wf(*final(pool)),
        r is Err ==> spec_pool_eq(*final(pool), *old(pool)),
        old(pool).data is Lock ==> r == Err::<DepositReceipt, StakeLendError>(
            StakeLendError::InvalidPoolType,
        ),
        !(old(pool).data is Lock) && (amount < old(pool).min_deposit || (old(pool).max_deposit > 0
            && amount > old(pool).max_deposit)) ==> r == Err::<DepositReceipt, StakeLendError>(
            StakeLendError::InvalidDepositAmount,
        ),
        !(old(pool).data is Lock) && !(amount < old(pool).min_deposit || (old(pool).max_deposit
            > 0 && amount > old(pool).max_deposit)) ==> ({
            let p = *old(pool);
            let accrue_over = p.data is Lending && spec_accrue_overflows(p.data->Lending_0, now);
            let fee = spec_fee(amount as int, p.deposit_fee_bps as int);
            let fee_over = amount * p.deposit_fee_bps > u64::MAX;
            let net = amount - fee;
            let mint_over = p.total_shares > 0 && p.total_deposits > 0 && net * p.total_shares
                > u64::MAX;
            let minted = spec_minted_shares(net, p.total_shares as int, p.total_deposits as int);
            let dep_over = p.total_deposits + net > u64::MAX;
            let shares_over = p.total_shares + minted > u64::MAX;
            let util_over = p.data is Lending && p.data->Lending_0.total_borrows * 10000
                > u64::MAX;
            if accrue_over || fee_over || mint_over || dep_over || shares_over || util_over {
                r == Err::<DepositReceipt, StakeLendError>(StakeLendError::MathOverflow)
            } else {
                &&& r == Ok::<DepositReceipt, StakeLendError>(
                    DepositReceipt {
                        fee_amount: fee as u64,
                        net_deposit: net as u64,
                        shares_minted: minted as u64,
                    },
                )
                &&& final(pool).total_deposits == p.total_deposits + net
                &&& final(pool).total_shares == p.total_shares + minted
                &&& final(pool).last_update_timestamp == now
                &&& final(pool).pool_type == p.pool_type
                &&& final(pool).token_mint == p.token_mint
                &&& final(pool).min_deposit == p.min_deposit
                &&& final(pool).max_deposit == p.max_deposit
                &&& final(pool).deposit_fee_bps == p.deposit_fee_bps
                &&& final(pool).withdrawal_fee_bps == p.withdrawal_fee_bps
                &&& (p.data is Basic ==> final(pool).data == p.data)
                &&& (p.data is Lending ==> ({
                    let d0 = p.data->Lending_0;
                    let d1 = final(pool).data->Lending_0;
                    let new_deposits = p.total_deposits + net;
                    &&& final(pool).data is Lending
                    &&& d1.accumulated_interest_index == spec_accrued_index(d0, now)
                    &&& d1.total_borrows == d0.total_borrows
                    &&& d1.available_liquidity == new_deposits - d0.total_borrows
                    &&& d1.utilization_rate == spec_utilization_rate(
                        d0.total_borrows as int,
                        new_deposits,
                    )
                    &&& d1.current_borrow_rate == spec_borrow_rate(
                        d0.interest_rate_params,
                        d1.utilization_rate as int,
                    )
                    &&& d1.current_supply_rate == spec_supply_rate(
                        d1.current_borrow_rate as int,
                        d1.utilization_rate as int,
                        d0.reserve_factor_bps as int,
                    )
                    &&& d1.interest_rate_params == d0.interest_rate_params
                    &&& d1.reserve_factor_bps == d0.reserve_factor_bps
                    &&& d1.liquidation_threshold == d0.liquidation_threshold
                    &&& d1.liquidation_bonus == d0.liquidation_bonus
                    &&& d1.max_ltv == d0.max_ltv
                    &&& d1.supported_collaterals@ == d0.supported_collaterals@
                }))
            }
        }),
        final(pool).data is Lending && old(pool).data is Lending
            ==> final(pool).data->Lending_0.accumulated_interest_index
            >= old(pool).data->Lending_0.accumulated_interest_index,
{
    match &pool.data {
        PoolData::Lock(_) => {
            return Err(StakeLendError::InvalidPoolType);
        },
        _ => {},
    }
    if amount < pool.min_deposit || (pool.max_deposit > 0 && amount > pool.max_deposit) {
        return Err(StakeLendError::InvalidDepositAmount);
    }
    // Simulate: compute every new value before committing anything.
    let is_lending = match &pool.data {
        PoolData::Lending(_) => true,
        _ => false,
    };
    let accrued: Option<(u128, u64)> = match &pool.data {
        PoolData::Lending(d) => {
            let elapsed = if now > d.last_interest_update_timestamp {
                now - d.last_interest_update_timestamp
            } else {
                0
            };
            if elapsed == 0 {
                proof {
                    crate::interest::lemma_interest_index_unchanged_when_no_time(
                        d.accumulated_interest_index as int,
                        d.current_borrow_rate as int,
                    );
                }
                Some((d.accumulated_interest_index, d.last_interest_update_timestamp))
            } else {
                match update_interest_index(
                    d.accumulated_interest_index,
                    d.current_borrow_rate,
                    elapsed,
                ) {
                    Ok(v) => Some((v, now)),
                    Err(_) => None,
                }
            }
        },
        _ => Some((0, 0)),
    };
    let (new_index, new_last_accrual) = match accrued {
        Some(v) => v,
        None => {
            return Err(StakeLendError::MathOverflow);
        },
    };
    let fee_amount = match amount.checked_mul(pool.deposit_fee_bps as u64) {
        Some(scaled) => scaled / 10000,
        None => {
            return Err(StakeLendError::MathOverflow);
        },
    };
    proof {
        lemma_fee_le_amount(amount as int, pool.deposit_fee_bps as int);
    }
    let net_deposit = amount - fee_amount;
    let shares_minted = if pool.total_shares == 0 || pool.total_deposits == 0 {
        net_deposit
    } else {
        match net_deposit.checked_mul(pool.total_shares) {
            Some(scaled) => scaled / pool.total_deposits,
            None => {
                return Err(StakeLendError::MathOverflow);
            },
        }
    };
    let new_deposits = match pool.total_deposits.checked_add(net_deposit) {
        Some(v) => v,
        None => {
            return Err(StakeLendError::MathOverflow);
        },
    };
    let new_shares = match pool.total_shares.checked_add(shares_minted) {
        Some(v) => v,
        None => {
            return Err(StakeLendError::MathOverflow);
        },
    };
    let rates: Option<(u64, u64, u64, u64)> = match &pool.data {
        PoolData::Lending(d) => {
            let utilization = match calculate_utilization_rate(d.total_borrows, new_deposits) {
                Ok(v) => v,
                Err(_) => {
                    return Err(StakeLendError::MathOverflow);
                },
            };
            let borrow_rate = match calculate_borrow_rate(utilization, &d.interest_rate_params) {
                Ok(v) => v,
                Err(e) => {
                    return Err(e);
                },
            };
            proof {
                assert(borrow_rate * utilization <= 30000 * 10000) by (nonlinear_arith)
                    requires borrow_rate <= 30000 && utilization <= 10000;
            }
            let supply_rate = match calculate_supply_rate(
                borrow_rate,
                utilization,
                d.reserve_factor_bps,
            ) {
                Ok(v) => v,
                Err(e) => {
                    return Err(e);
                },
            };
            let new_available = d.available_liquidity + net_deposit;
            Some((utilization, borrow_rate, supply_rate, new_available))
        },
        _ => None,
    };
    // Commit.
    pool.total_deposits = new_deposits;
    pool.total_shares = new_shares;
    pool.last_update_timestamp = now;
    match &mut pool.data {
        PoolData::Lending(d) => {
            let (utilization, borrow_rate, supply_rate, new_available) = match rates {
                Some(v) => v,
                None => {
                    return Err(StakeLendError::MathOverflow);
                },
            };
            d.accumulated_interest_index = new_index;
            d.last_interest_update_timestamp = new_last_accrual;
            d.available_liquidity = new_available;
            d.utilization_rate = utilization;
            d.current_borrow_rate = borrow_rate;
            d.current_supply_rate = supply_rate;
        },
        _ => {},
    }
    Ok(DepositReceipt { fee_amount, net_deposit, shares_minted })
}

/// Redeem pool shares for tokens from a basic or lending pool.
///
/// The shares must not exceed the outstanding total. A lending pool accrues
/// interest first and refuses to pay out more than its available liquidity,
/// which keeps borrows covered by deposits. The withdrawal fee stays in the
/// pool's token reserve while the redeemed tokens leave total deposits, and
/// a lending pool's liquidity, utilization and rates are re-derived. Every
/// failure leaves the pool untouched.
pub fn process_withdraw_from_pool(pool: &mut Pool, shares: u64, now: u64) -> (r: Result<
    WithdrawReceipt,
    StakeLendError,
>)
    requires
        spec_pool_wf(*old(pool)),
    ensures
        spec_pool_wf(*final(pool)),
        r is Err ==> spec_pool_eq(*final(pool), *old(pool)),
        old(pool).data is Lock ==> r == Err::<WithdrawReceipt, StakeLendError>(
            StakeLendError::InvalidPoolType,
        ),
        !(old(pool).data is Lock) && shares > old(pool).total_shares ==> r == Err::<
            WithdrawReceipt,
            StakeLendError,
        >(StakeLendError::InvalidWithdrawalAmount),
        !(old(pool).data is Lock) && shares <= old(pool).total_shares ==> ({
            let p = *old(pool);
            let accrue_over = p.data is Lending && spec_accrue_overflows(p.data->Lending_0, now);
            let tokens_over = p.total_shares > 0 && shares * p.total_deposits > u64::MAX;
            let gross = spec_tokens_for_shares(
                shares as int,
                p.total_shares as int,
                p.total_deposits as int,
            );
            let illiquid = p.data is Lending && gross
                > p.data->Lending_0.available_liquidity;
            let fee = spec_fee(gross, p.withdrawal_fee_bps as int);
            let fee_over = gross * p.withdrawal_fee_bps > u64::MAX;
            let util_over = p.data is Lending && p.data->Lending_0.total_borrows * 10000
                > u64::MAX;
            if accrue_over {
                r == Err::<WithdrawReceipt, StakeLendError>(StakeLendError::MathOverflow)
            } else if tokens_over {
                r == Err::<WithdrawReceipt, StakeLendError>(StakeLendError::MathOverflow)
            } else if illiquid {
                r == Err::<WithdrawReceipt, StakeLendError>(StakeLendError::InsufficientLiquidity)
            } else if fee_over || util_over {
                r == Err::<WithdrawReceipt, StakeLendError>(StakeLendError::MathOverflow)
            } else {
                &&& r == Ok::<WithdrawReceipt, StakeLendError>(
                    WithdrawReceipt {
                        gross_tokens: gross as u64,
                        fee_amount: fee as u64,
                        net_tokens: (gross - fee) as u64,
                    },
                )
                &&& final(pool).total_deposits == p.total_deposits - gross
                &&& final(pool).total_shares == p.total_shares - shares
                &&& final(pool).last_update_timestamp == now
                &&& final(pool).pool_type == p.pool_type
                &&& final(pool).token_mint == p.token_mint
                &&& final(pool).min_deposit == p.min_deposit
                &&& final(pool).max_deposit == p.max_deposit
                &&& final(pool).deposit_fee_bps == p.deposit_fee_bps
                &&& final(pool).withdrawal_fee_bps == p.withdrawal_fee_bps
                &&& (p.data is Basic ==> final(pool).data == p.data)
                &&& (p.data is Lending ==> ({
                    let d0 = p.data->Lending_0;
                    let d1 = final(pool).data->Lending_0;
                    let new_deposits = p.total_deposits - gross;
                    &&& final(pool).data is Lending
                    &&& d1.accumulated_interest_index == spec_accrued_index(d0, now)
                    &&& d1.total_borrows == d0.total_borrows
                    &&& d1.available_liquidity == new_deposits - d0.total_borrows
                    &&& d1.utilization_rate == spec_utilization_rate(
                        d0.total_borrows as int,
                        new_deposits,
                    )
                    &&& d1.current_borrow_rate == spec_borrow_rate(
                        d0.interest_rate_params,
                        d1.utilization_rate as int,
                    )
                    &&& d1.current_supply_rate == spec_supply_rate(
                        d1.current_borrow_rate as int,
                        d1.utilization_rate as int,
                        d0.reserve_factor_bps as int,
                    )
                    &&& d1.interest_rate_params == d0.interest_rate_params
                    &&& d1.reserve_factor_bps == d0.reserve_factor_bps
                    &&& d1.liquidation_threshold == d0.liquidation_threshold
                    &&& d1.liquidation_bonus == d0.liquidation_bonus
                    &&& d1.max_ltv == d0.max_ltv
                    &&& d1.supported_collaterals@ == d0.supported_collaterals@
                }))
            }
        }),
        final(pool).data is Lending && old(pool).data is Lending
            ==> final(pool).data->Lending_0.accumulated_interest_index
            >= old(pool).data->Lending_0.accumulated_interest_index,
{
    match &pool.data {
        PoolData::Lock(_) => {
            return Err(StakeLendError::InvalidPoolType);
        },
        _ => {},
    }
    if shares > pool.total_shares {
        return Err(StakeLendError::InvalidWithdrawalAmount);
    }
    let accrued: Option<(u128, u64)> = match &pool.data {
        PoolData::Lending(d) => {
            let elapsed = if now > d.last_interest_update_timestamp {
                now - d.last_interest_update_timestamp
            } else {
                0
            };
            if elapsed == 0 {
                proof {
                    crate::interest::lemma_interest_index_unchanged_when_no_time(
                        d.accumulated_interest_index as int,
                        d.current_borrow_rate as int,
                    );
                }
                Some((d.accumulated_interest_index, d.last_interest_update_timestamp))
            } else {
                match update_interest_index(
                    d.accumulated_interest_index,
                    d.current_borrow_rate,
                    elapsed,
                ) {
                    Ok(v) => Some((v, now)),
                    Err(_) => None,
                }
            }
        },
        _ => Some((0, 0)),
    };
    let (new_index, new_last_accrual) = match accrued {
        Some(v) => v,
        None => {
            return Err(StakeLendError::MathOverflow);
        },
    };
    let gross_tokens = if pool.total_shares == 0 {
        shares
    } else {
        match shares.checked_mul(pool.total_deposits) {
            Some(scaled) => scaled / pool.total_shares,
            None => {
                return Err(StakeLendError::MathOverflow);
            },
        }
    };
    proof {
        lemma_tokens_within_deposits(
            shares as int,
            pool.total_shares as int,
            pool.total_deposits as int,
        );
    }
    match &pool.data {
        PoolData::Lending(d) => {
            if gross_tokens > d.available_liquidity {
                return Err(StakeLendError::InsufficientLiquidity);
            }
        },
        _ => {},
    }
    let fee_amount = match gross_tokens.checked_mul(pool.withdrawal_fee_bps as u64) {
        Some(scaled) => scaled / 10000,
        None => {
            return Err(StakeLendError::MathOverflow);
        },
    };
    proof {
        lemma_fee_le_amount(gross_tokens as int, pool.withdrawal_fee_bps as int);
    }
    let net_tokens = gross_tokens - fee_amount;
    let new_deposits = pool.total_deposits - gross_tokens;
    let new_shares = pool.total_shares - shares;
    let rates: Option<(u64, u64, u64, u64)> = match &pool.data {
        PoolData::Lending(d) => {
            let utilization = match calculate_utilization_rate(d.total_borrows, new_deposits) {
                Ok(v) => v,
                Err(_) => {
                    return Err(StakeLendError::MathOverflow);
                },
            };
            let borrow_rate = match calculate_borrow_rate(utilization, &d.interest_rate_params) {
                Ok(v) => v,
                Err(e) => {
                    return Err(e);
                },
            };
            proof {
                assert(borrow_rate * utilization <= 30000 * 10000) by (nonlinear_arith)
                    requires borrow_rate <= 30000 && utilization <= 10000;
            }
            let supply_rate = match calculate_supply_rate(
                borrow_rate,
                utilization,
                d.reserve_factor_bps,
            ) {
                Ok(v) => v,
                Err(e) => {
                    return Err(e);
                },
            };
            let new_available = d.available_liquidity - gross_tokens;
            Some((utilization, borrow_rate, supply_rate, new_available))
        },
        _ => None,
    };
    pool.total_deposits = new_deposits;
    pool.total_shares = new_shares;
    pool.last_update_timestamp = now;
    match &mut pool.data {
        PoolData::Lending(d) => {
            let (utilization, borrow_rate, supply_rate, new_available) = match rates {
                Some(v) => v,
                None => {
                    return Err(StakeLendError::MathOverflow);
                },
            };
            d.accumulated_interest_index = new_index;
            d.last_interest_update_timestamp = new_last_accrual;
            d.available_liquidity = new_available;
            d.utilization_rate = utilization;
            d.current_borrow_rate = borrow_rate;
            d.current_supply_rate = supply_rate;
        },
        _ => {},
    }
    Ok(WithdrawReceipt { gross_tokens, fee_amount, net_tokens })
}

/// Re-derive a lending pool's cached utilization and rates from its current
/// totals.
///
/// Succeeds unless the utilization computation overflows, and changes only
/// the three derived fields.
pub fn update_pool_state(pool: &mut Pool) -> (r: Result<(), StakeLendError>)
    requires
        spec_lending_pool_wf(*old(pool)),
    ensures
        spec_lending_pool_wf(*final(pool)),
        spec_pool_eq(*final(pool), *old(pool)),
{
    let rates: Option<(u64, u64, u64)> = match &pool.data {
        PoolData::Lending(d) => {
            let utilization = match calculate_utilization_rate(
                d.total_borrows,
                pool.total_deposits,
            ) {
                Ok(v) => v,
                Err(_) => {
                    return Err(StakeLendError::MathOverflow);
                },
            };
            let borrow_rate = match calculate_borrow_rate(utilization, &d.interest_rate_params) {
                Ok(v) => v,
                Err(e) => {
                    return Err(e);
                },
            };
            proof {
                assert(borrow_rate * utilization <= 30000 * 10000) by (nonlinear_arith)
                    requires borrow_rate <= 30000 && utilization <= 10000;
            }
            let supply_rate = match calculate_supply_rate(
                borrow_rate,
                utilization,
                d.reserve_factor_bps,
            ) {
                Ok(v) => v,
                Err(e) => {
                    return Err(e);
                },
            };
            Some((utilization, borrow_rate, supply_rate))
        },
        _ => None,
    };
    match &mut pool.data {
        PoolData::Lending(d) => {
            let (utilization, borrow_rate, supply_rate) = match rates {
                Some(v) => v,
                None => {
                    return Err(StakeLendError::MathOverflow);
                },
            };
            d.utilization_rate = utilization;
            d.current_borrow_rate = borrow_rate;
            d.current_supply_rate = supply_rate;
            Ok(())
        },
        _ => Err(StakeLendError::InvalidPoolType),
    }
}



/// Update one interest-rate parameter of a lending pool and re-derive its
/// rates immediately.
///
/// Parameter tags: 0 base rate, 1 optimal rate, 2 maximum rate (each capped
/// at 300%), 3 optimal utilization (capped at 100%), 4 reserve factor
/// (capped at 50%); anything else is invalid. An update that would break the
/// curve's ordering is rejected, keeping configuration-time validity.
pub fn process_update_interest_rates(pool: &mut Pool, param_type: u8, new_value: u64) -> (r:
    Result<(), StakeLendError>)
    requires
        spec_lending_pool_wf(*old(pool)),
    ensures
        spec_lending_pool_wf(*final(pool)),
        r is Err ==> spec_pool_eq(*final(pool), *old(pool)),
        r is Ok ==> ({
            let d0 = old(pool).data->Lending_0;
            let d1 = final(pool).data->Lending_0;
            let p0 = d0.interest_rate_params;
            let p1 = d1.interest_rate_params;
            &&& (param_type == 0 ==> p1 == crate::rates::InterestRateParams {
                base_rate: new_value,
                ..p0
            })
            &&& (param_type == 1 ==> p1 == crate::rates::InterestRateParams {
                optimal_rate: new_value,
                ..p0
            })
            &&& (param_type == 2 ==> p1 == crate::rates::InterestRateParams {
                max_rate: new_value,
                ..p0
            })
            &&& (param_type == 3 ==> p1 == crate::rates::InterestRateParams {
                optimal_utilization: new_value,
                ..p0
            })
            &&& (param_type == 4 ==> p1 == p0 && d1.reserve_factor_bps == new_value)
            &&& param_type <= 4
            &&& p1.wf()
            &&& d1.reserve_factor_bps <= 5000
            &&& d1.total_borrows == d0.total_borrows
            &&& final(pool).total_deposits == old(pool).total_deposits
            &&& d1.utilization_rate == d0.utilization_rate
            &&& d1.current_borrow_rate == crate::rates::spec_borrow_rate(
                p1,
                d1.utilization_rate as int,
            )
            &&& d1.current_supply_rate == crate::rates::spec_supply_rate(
                d1.current_borrow_rate as int,
                d1.utilization_rate as int,
                d1.reserve_factor_bps as int,
            )
        }),
        r is Err ==> r == Err::<(), StakeLendError>(StakeLendError::InvalidParameter),
{
    let (params, reserve_factor, utilization) = match &pool.data {
        PoolData::Lending(d) => (
            d.interest_rate_params,
            d.reserve_factor_bps,
            d.utilization_rate,
        ),
        _ => {
            return Err(StakeLendError::InvalidParameter);
        },
    };
    let mut new_params = params;
    let mut new_reserve = reserve_factor;
    if param_type == 0 {
        if new_value > 30000 {
            return Err(StakeLendError::InvalidParameter);
        }
        new_params.base_rate = new_value;
    } else if param_type == 1 {
        if new_value > 30000 {
            return Err(StakeLendError::InvalidParameter);
        }
        new_params.optimal_rate = new_value;
    } else if param_type == 2 {
        if new_value > 30000 {
            return Err(StakeLendError::InvalidParameter);
        }
        new_params.max_rate = new_value;
    } else if param_type == 3 {
        if new_value > 10000 {
            return Err(StakeLendError::InvalidParameter);
        }
        new_params.optimal_utilization = new_value;
    } else if param_type == 4 {
        if new_value > 5000 {
            return Err(StakeLendError::InvalidParameter);
        }
        new_reserve = new_value as u16;
    } else {
        return Err(StakeLendError::InvalidParameter);
    }
    if !new_params.is_valid() {
        return Err(StakeLendError::InvalidParameter);
    }
    let borrow_rate = match calculate_borrow_rate(utilization, &new_params) {
        Ok(v) => v,
        Err(e) => {
            return Err(StakeLendError::InvalidParameter);
        },
    };
    proof {
        assert(borrow_rate * utilization <= 30000 * 10000) by (nonlinear_arith)
            requires borrow_rate <= 30000 && utilization <= 10000;
    }
    let supply_rate = match calculate_supply_rate(borrow_rate, utilization, new_reserve) {
        Ok(v) => v,
        Err(e) => {
            return Err(StakeLendError::InvalidParameter);
        },
    };
    match &mut pool.data {
        PoolData::Lending(d) => {
            d.interest_rate_params = new_params;
            d.reserve_factor_bps = new_reserve;
            d.current_borrow_rate = borrow_rate;
            d.current_supply_rate = supply_rate;
            Ok(())
        },
        _ => Err(StakeLendError::InvalidParameter),
    }
}

/// Update a pool's deposit limits and fees.
pub fn process_update_pool_config(
    pool: &mut Pool,
    min_deposit: u64,
    max_deposit: u64,
    deposit_fee_bps: u16,
    withdrawal_fee_bps: u16,
) -> (r: Result<(), StakeLendError>)
    requires
        spec_pool_wf(*old(pool)),
    ensures
        spec_pool_wf(*final(pool)),
        deposit_fee_bps > 10000 || withdrawal_fee_bps > 10000 ==> r == Err::<(), StakeLendError>(
            StakeLendError::InvalidParameter,
        ) && spec_pool_eq(*final(pool), *old(pool)),
        deposit_fee_bps <= 10000 && withdrawal_fee_bps <= 10000 ==> r is Ok && final(pool).min_deposit == min_deposit && final(pool).max_deposit == max_deposit && final(pool).deposit_fee_bps == deposit_fee_bps && final(pool).withdrawal_fee_bps
            == withdrawal_fee_bps && final(pool).total_deposits == old(pool).total_deposits
            && final(pool).total_shares == old(pool).total_shares,
{
    if deposit_fee_bps > 10000 || withdrawal_fee_bps > 10000 {
        return Err(StakeLendError::InvalidParameter);
    }
    pool.min_deposit = min_deposit;
    pool.max_deposit = max_deposit;
    pool.deposit_fee_bps = deposit_fee_bps;
    pool.withdrawal_fee_bps = withdrawal_fee_bps;
    Ok(())
}

/// Fee charged on flash loans, in basis points.
pub const FLASH_LOAN_FEE_BPS: u16 = 10;

/// Quote a flash loan: the fee owed and the total to repay, refusing
/// amounts beyond the pool's available liquidity.
///
/// The pool is not mutated; the loan and its repayment settle within one
/// atomic operation at the caller's level.
pub fn process_flash_loan_check(pool: &Pool, amount: u64) -> (r: Result<(u64, u64), StakeLendError>)
    requires
        spec_lending_pool_wf(*pool),
    ensures
        ({
            let d = pool.data->Lending_0;
            let fee = amount * 10 / 10000;
            if amount > d.available_liquidity {
                r == Err::<(u64, u64), StakeLendError>(StakeLendError::InsufficientLiquidity)
            } else if amount * 10 > u64::MAX {
                r == Err::<(u64, u64), StakeLendError>(StakeLendError::MathOverflow)
            } else {
                r == Ok::<(u64, u64), StakeLendError>((fee as u64, (amount + fee) as u64))
            }
        }),
{
    let available = match &pool.data {
        PoolData::Lending(d) => d.available_liquidity,
        _ => {
            return Err(StakeLendError::InvalidPoolType);
        },
    };
    if amount > available {
        return Err(StakeLendError::InsufficientLiquidity);
    }
    let fee = match amount.checked_mul(FLASH_LOAN_FEE_BPS as u64) {
        Some(scaled) => scaled / 10000,
        None => {
            return Err(StakeLendError::MathOverflow);
        },
    };
    proof {
        lemma_fee_le_amount(amount as int, 10);
    }
    Ok((fee, amount + fee))
}

/// Verify that a flash loan was repaid with its fee: the reserve must hold
/// at least its starting balance plus the fee.
pub fn verify_flash_loan_repayment(initial_balance: u64, final_balance: u64, fee: u64) -> (r:
    Result<(), StakeLendError>)
    ensures
        initial_balance + fee > u64::MAX ==> r == Err::<(), StakeLendError>(
            StakeLendError::InsufficientFunds,
        ),
        initial_balance + fee <= u64::MAX && final_balance < initial_balance + fee ==> r == Err::<
            (),
            StakeLendError,
        >(StakeLendError::InsufficientFunds),
        initial_balance + fee <= u64::MAX && final_balance >= initial_balance + fee ==> r == Ok::<
            (),
            StakeLendError,
        >(()),
{
    let required = match initial_balance.checked_add(fee) {
        Some(v) => v,
        None => {
            return Err(StakeLendError::InsufficientFunds);
        },
    };
    if final_balance < required {
        return Err(StakeLendError::InsufficientFunds);
    }
    Ok(())
}

/// Instantly unstake shares from a basic pool for its instant-unstake fee.
///
/// The shares redeem at the current ratio, the instant-unstake fee stays in
/// the pool's reserve, and totals shrink accordingly. Every failure leaves
/// the pool untouched.
pub fn process_instant_unstake(pool: &mut Pool, shares: u64, now: u64) -> (r: Result<
    WithdrawReceipt,
    StakeLendError,
>)
    requires
        spec_pool_wf(*old(pool)),
        old(pool).data is Basic,
    ensures
        spec_pool_wf(*final(pool)),
        final(pool).data is Basic,
        r is Err ==> spec_pool_eq(*final(pool), *old(pool)),
        ({
            let p = *old(pool);
            let b = p.data->Basic_0;
            let gross = spec_tokens_for_shares(
                shares as int,
                p.total_shares as int,
                p.total_deposits as int,
            );
            let fee = spec_fee(gross, b.instant_unstake_fee_bps as int);
            if shares > p.total_shares {
                r == Err::<WithdrawReceipt, StakeLendError>(
                    StakeLendError::InvalidWithdrawalAmount,
                )
            } else if p.total_shares > 0 && shares * p.total_deposits > u64::MAX {
                r == Err::<WithdrawReceipt, StakeLendError>(StakeLendError::MathOverflow)
            } else if gross * b.instant_unstake_fee_bps > u64::MAX {
                r == Err::<WithdrawReceipt, StakeLendError>(StakeLendError::MathOverflow)
            } else {
                &&& r == Ok::<WithdrawReceipt, StakeLendError>(
                    WithdrawReceipt {
                        gross_tokens: gross as u64,
                        fee_amount: fee as u64,
                        net_tokens: (gross - fee) as u64,
                    },
                )
                &&& final(pool).total_deposits == p.total_deposits - gross
                &&& final(pool).total_shares == p.total_shares - shares
                &&& final(pool).last_update_timestamp == now
                &&& final(pool).data == p.data
            }
        }),
{
    let fee_bps = match &pool.data {
        PoolData::Basic(b) => b.instant_unstake_fee_bps,
        _ => {
            return Err(StakeLendError::InvalidPoolType);
        },
    };
    if shares > pool.total_shares {
        return Err(StakeLendError::InvalidWithdrawalAmount);
    }
    let gross_tokens = if pool.total_shares == 0 {
        shares
    } else {
        match shares.checked_mul(pool.total_deposits) {
            Some(scaled) => scaled / pool.total_shares,
            None => {
                return Err(StakeLendError::MathOverflow);
            },
        }
    };
    proof {
        lemma_tokens_within_deposits(
            shares as int,
            pool.total_shares as int,
            pool.total_deposits as int,
        );
    }
    let fee_amount = match gross_tokens.checked_mul(fee_bps as u64) {
        Some(scaled) => scaled / 10000,
        None => {
            return Err(StakeLendError::MathOverflow);
        },
    };
    proof {
        lemma_fee_le_amount(gross_tokens as int, fee_bps as int);
    }
    let net_tokens = gross_tokens - fee_amount;
    pool.total_deposits = pool.total_deposits - gross_tokens;
    pool.total_shares = pool.total_shares - shares;
    pool.last_update_timestamp = now;
    Ok(WithdrawReceipt { gross_tokens, fee_amount, net_tokens })
}

} // verus!
