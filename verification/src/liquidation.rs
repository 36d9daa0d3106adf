//! The liquidation engine: eligibility freshly recomputed from oracle
//! prices, close-factor-bounded repayment, bonus-bearing collateral seizure
//! capped at what exists, and atomic commit across pool and obligation.
use vstd::prelude::*;

use crate::errors::StakeLendError;
use crate::health::{
    AssetEntry, AssetInfo, LIQUIDATION_THRESHOLD, calculate_health_factor, classify_health,
    spec_all_priced, spec_health_factor, spec_health_fits, spec_health_status,
};
use crate::lending::{
    copy_entries, spec_reconcile_interest, spec_reconcile_overflows,
    spec_collateral_after_remove,
};
use crate::math::calculate_utilization_rate;
use crate::obligation::{
    Obligation, lemma_basket_idx_of_unique, lemma_basket_lookup_in, spec_basket_lookup,
    spec_basket_upsert, spec_debt_indices_bounded,
};
use crate::oracle::{AssetId, PriceTable, spec_lookup};
use crate::pool::{spec_accrue_overflows, spec_accrued_index, spec_elapsed};
use crate::rates::{calculate_borrow_rate, calculate_supply_rate};
use crate::state::{Pool, PoolData, spec_lending_pool_wf, spec_pool_eq};

verus! {

/// Maximum share of a debt position one liquidation call may clear, in basis
/// points (the close factor).
pub const MAX_LIQUIDATION_RATIO_BPS: u64 = 5000;

/// What a liquidation moved: the debt repaid by the liquidator and the
/// collateral seized for it, bonus included.
#[derive(Clone, Copy, Debug, PartialEq, Eq, Structural)]
pub struct LiquidationData {
    /// The debt asset repaid.
    pub debt_asset: AssetId,
    /// The collateral asset seized.
    pub collateral_asset: AssetId,
    /// Debt actually repaid, capped by the close factor.
    pub repay_amount: u64,
    /// Collateral actually seized, capped at what the borrower holds.
    pub collateral_amount: u64,
    /// Value seized beyond the repaid value: the liquidator's bonus.
    pub bonus_amount: u64,
    /// When the liquidation was computed.
    pub timestamp: u64,
}

/// Calculate the bonus value a liquidator earns on a repayment, in basis
/// points of the repaid value; bonuses above 30% are rejected.
pub fn calculate_bonus_amount(repay_value: u64, bonus_bps: u16) -> (r: Result<
    u64,
    StakeLendError,
>)
    ensures
        bonus_bps > 3000 ==> r == Err::<u64, StakeLendError>(StakeLendError::InvalidParameter),
        bonus_bps <= 3000 && repay_value * bonus_bps > u64::MAX ==> r == Err::<u64, StakeLendError>(
            StakeLendError::MathOverflow,
        ),
        bonus_bps <= 3000 && repay_value * bonus_bps <= u64::MAX ==> r == Ok::<u64, StakeLendError>(
            ((repay_value * bonus_bps) / 10000) as u64,
        ),
{
    if bonus_bps > 3000 {
        return Err(StakeLendError::InvalidParameter);
    }
    match repay_value.checked_mul(bonus_bps as u64) {
        Some(scaled) => Ok(scaled / 10000),
        None => Err(StakeLendError::MathOverflow),
    }
}

/// The close-factor cap: at most half the owed amount may be repaid in one
/// liquidation call.
pub open spec fn spec_max_liquidatable(owed: int) -> int {
    owed * 5000 / 10000
}

/// Collateral seized for a repayment: the repaid value grown by the
/// liquidation bonus, divided by the collateral price.
pub open spec fn spec_seize_amount(repay_value: int, bonus_bps: int, collateral_price: int)
    -> int {
    repay_value * (10000 + bonus_bps) / 10000 / collateral_price
}


/// The amounts one liquidation call moves, from already-reconciled values:
/// the close-factor-capped repayment, the bonus-grown seizure capped at the
/// held collateral, and the liquidator's bonus value.
fn liquidation_terms(
    owed: u64,
    repay_amount: u64,
    debt_price: u64,
    collateral_price: u64,
    bonus_bps: u16,
    held: u64,
) -> (r: Result<(u64, u64, u64), StakeLendError>)
    requires
        owed >= 1,
        collateral_price >= 1,
        bonus_bps <= 3000,
    ensures
        ({
            let max_liq = spec_max_liquidatable(owed as int);
            let actual = if repay_amount <= max_liq {
                repay_amount as int
            } else {
                max_liq
            };
            let repay_value = actual * debt_price;
            let seize = spec_seize_amount(repay_value, bonus_bps as int, collateral_price as int);
            let actual_seize = if seize <= held {
                seize
            } else {
                held as int
            };
            let seized_value = actual_seize * collateral_price;
            let bonus = if seized_value >= repay_value {
                seized_value - repay_value
            } else {
                0
            };
            if owed * 5000 > u64::MAX {
                r == Err::<(u64, u64, u64), StakeLendError>(StakeLendError::MathOverflow)
            } else if actual * debt_price > u64::MAX || repay_value * (10000 + bonus_bps)
                > u64::MAX {
                r == Err::<(u64, u64, u64), StakeLendError>(StakeLendError::MathOverflow)
            } else {
                &&& r is Ok
                &&& r->Ok_0.0 == actual
                &&& r->Ok_0.1 == actual_seize
                &&& r->Ok_0.2 == bonus
                &&& actual < owed
                &&& actual_seize <= held
            }
        }),
{
    let max_liquidatable = match owed.checked_mul(MAX_LIQUIDATION_RATIO_BPS) {
        Some(scaled) => scaled / 10000,
        None => {
            return Err(StakeLendError::MathOverflow);
        },
    };
    proof {
        // The close factor strictly under-shoots the owed amount.
        assert(owed * 5000 < owed * 10000) by (nonlinear_arith)
            requires owed >= 1;
        vstd::arithmetic::div_mod::lemma_multiply_divide_lt(owed * 5000, owed as int, 10000);
    }
    let actual_repay = if repay_amount <= max_liquidatable {
        repay_amount
    } else {
        max_liquidatable
    };
    let repay_value = match actual_repay.checked_mul(debt_price) {
        Some(v) => v,
        None => {
            return Err(StakeLendError::MathOverflow);
        },
    };
    let bonus_factor = 10000 + (bonus_bps as u64);
    let seize_value = match repay_value.checked_mul(bonus_factor) {
        Some(v) => v / 10000,
        None => {
            return Err(StakeLendError::MathOverflow);
        },
    };
    let seize_amount = seize_value / collateral_price;
    let actual_seize = if seize_amount <= held {
        seize_amount
    } else {
        held
    };
    proof {
        // The seized value never exceeds the value the bonus formula asked
        // for, so its product with the price stays in range.
        let q = seize_amount as int;
        assert(actual_seize * collateral_price <= q * collateral_price) by (nonlinear_arith)
            requires actual_seize <= q && collateral_price >= 0;
        vstd::arithmetic::div_mod::lemma_fundamental_div_mod(
            seize_value as int,
            collateral_price as int,
        );
        vstd::arithmetic::div_mod::lemma_mod_division_less_than_divisor(
            seize_value as int,
            collateral_price as int,
        );
        assert(q * collateral_price == collateral_price * q) by (nonlinear_arith);
    }
    let seized_value = match actual_seize.checked_mul(collateral_price) {
        Some(v) => v,
        None => {
            return Err(StakeLendError::MathOverflow);
        },
    };
    let bonus_amount = if seized_value >= repay_value {
        seized_value - repay_value
    } else {
        0
    };
    Ok((actual_repay, actual_seize, bonus_amount))
}


/// Apply a liquidation to a scratch copy of the obligation: validate
/// eligibility with fresh prices, compute the bounded amounts, and mutate
/// the baskets. The caller commits the copy only on success.
#[verifier::rlimit(100)]
#[verifier::spinoff_prover]
fn apply_liquidation(
    sim: &mut Obligation,
    debt_asset: AssetId,
    collateral_asset: AssetId,
    repay_amount: u64,
    prices: &PriceTable,
    new_index: u128,
    bonus_bps: u16,
) -> (r: Result<(u64, u64, u64, u64, u64), StakeLendError>)
    requires
        old(sim).baskets_wf(),
        new_index >= 1,
        bonus_bps <= 3000,
    ensures
        final(sim).baskets_wf(),
        final(sim).health_factor == old(sim).health_factor,
        final(sim).health_status == old(sim).health_status,
        final(sim).last_updated_timestamp == old(sim).last_updated_timestamp,
        spec_debt_indices_bounded(old(sim).debt_assets@, new_index) ==> spec_debt_indices_bounded(
            final(sim).debt_assets@,
            new_index,
        ),
        ({
            let ps = prices.entries@;
            let cb = old(sim).collateral_assets@;
            let db = old(sim).debt_assets@;
            let dinfo = spec_basket_lookup(db, debt_asset);
            let cinfo = spec_basket_lookup(cb, collateral_asset);
            let interest = spec_reconcile_interest(dinfo, new_index as int);
            let owed = dinfo->Some_0.amount + interest;
            let db1 = spec_basket_upsert(
                db,
                debt_asset,
                AssetInfo {
                    amount: owed as u64,
                    interest_index: new_index,
                    ..dinfo->Some_0
                },
            );
            let health1 = spec_health_factor(cb, db1, ps);
            let max_liq = spec_max_liquidatable(owed);
            let actual = if repay_amount <= max_liq {
                repay_amount as int
            } else {
                max_liq
            };
            let debt_price = spec_lookup(ps, debt_asset)->Some_0 as int;
            let collateral_price = spec_lookup(ps, collateral_asset)->Some_0 as int;
            let repay_value = actual * debt_price;
            let seize = spec_seize_amount(repay_value, bonus_bps as int, collateral_price);
            let held = cinfo->Some_0.amount as int;
            let actual_seize = if seize <= held {
                seize
            } else {
                held
            };
            let seized_value = actual_seize * collateral_price;
            let bonus = if seized_value >= repay_value {
                seized_value - repay_value
            } else {
                0
            };
            let db2 = spec_basket_upsert(
                db,
                debt_asset,
                AssetInfo {
                    amount: (owed - actual) as u64,
                    interest_index: new_index,
                    ..dinfo->Some_0
                },
            );
            let cb2 = spec_collateral_after_remove(cb, collateral_asset, actual_seize as u64);
            let health2 = spec_health_factor(cb2, db2, ps);
            if dinfo is None {
                r == Err::<(u64, u64, u64, u64, u64), StakeLendError>(StakeLendError::NoDebtFound)
            } else if cinfo is None {
                r == Err::<(u64, u64, u64, u64, u64), StakeLendError>(
                    StakeLendError::NoCollateralFound,
                )
            } else if spec_reconcile_overflows(dinfo, new_index as int) {
                r == Err::<(u64, u64, u64, u64, u64), StakeLendError>(StakeLendError::MathOverflow)
            } else if !(spec_all_priced(cb, ps) && spec_all_priced(db1, ps)) {
                r == Err::<(u64, u64, u64, u64, u64), StakeLendError>(StakeLendError::PriceNotFound)
            } else if !spec_health_fits(cb, db1, ps) {
                r == Err::<(u64, u64, u64, u64, u64), StakeLendError>(StakeLendError::MathOverflow)
            } else if health1 >= LIQUIDATION_THRESHOLD {
                r == Err::<(u64, u64, u64, u64, u64), StakeLendError>(
                    StakeLendError::LiquidationNotAllowed,
                )
            } else if collateral_price == 0 {
                r == Err::<(u64, u64, u64, u64, u64), StakeLendError>(
                    StakeLendError::InvalidOraclePrice,
                )
            } else if owed * 5000 > u64::MAX {
                r == Err::<(u64, u64, u64, u64, u64), StakeLendError>(StakeLendError::MathOverflow)
            } else if repay_value > u64::MAX || repay_value * (10000 + bonus_bps) > u64::MAX {
                r == Err::<(u64, u64, u64, u64, u64), StakeLendError>(StakeLendError::MathOverflow)
            } else if !(spec_all_priced(cb2, ps) && spec_all_priced(db2, ps)) {
                r == Err::<(u64, u64, u64, u64, u64), StakeLendError>(StakeLendError::PriceNotFound)
            } else if !spec_health_fits(cb2, db2, ps) {
                r == Err::<(u64, u64, u64, u64, u64), StakeLendError>(StakeLendError::MathOverflow)
            } else {
                &&& r is Ok
                &&& r->Ok_0.0 == interest
                &&& r->Ok_0.1 == actual
                &&& r->Ok_0.2 == actual_seize
                &&& r->Ok_0.3 == bonus
                &&& r->Ok_0.4 == health2
                &&& final(sim).debt_assets@ == db2
                &&& final(sim).collateral_assets@ == cb2
                &&& actual < owed
            }
        }),
{
    let ghost cb = sim.collateral_assets@;
    let ghost db = sim.debt_assets@;
    let held = sim.collateral_amount_of(collateral_asset);
    if !debt_entry_exists(sim, debt_asset) {
        return Err(StakeLendError::NoDebtFound);
    }
    if !collateral_entry_exists(sim, collateral_asset) {
        return Err(StakeLendError::NoCollateralFound);
    }
    let interest = match sim.reconcile_debt(debt_asset, new_index) {
        Ok(i) => i,
        Err(e) => {
            return Err(e);
        },
    };
    let ghost db1 = sim.debt_assets@;
    proof {
        let dinfo = spec_basket_lookup(db, debt_asset);
        let info = dinfo->Some_0;
        assert(db1 == spec_basket_upsert(
            db,
            debt_asset,
            AssetInfo {
                amount: (info.amount + interest) as u64,
                interest_index: new_index,
                ..info
            },
        )) by {
            let e1 = AssetEntry {
                asset: debt_asset,
                info: AssetInfo {
                    amount: (info.amount + interest) as u64,
                    interest_index: new_index,
                    ..info
                },
            };
            let idx1 = choose|idx: int|
                0 <= idx < db.len() && (#[trigger] db[idx]).asset == debt_asset && db1
                    == db.update(idx, e1);
            lemma_basket_idx_of_unique(db, debt_asset, idx1);
        }
    }
    // Fresh eligibility check with current prices, never a cached factor.
    let health = match calculate_health_factor(&sim.collateral_assets, &sim.debt_assets, prices) {
        Ok(h) => h,
        Err(e) => {
            return Err(e);
        },
    };
    if health >= LIQUIDATION_THRESHOLD {
        return Err(StakeLendError::LiquidationNotAllowed);
    }
    let owed = sim.debt_amount_of(debt_asset);
    proof {
        // The debt entry survives reconciliation with a positive amount, and
        // both assets were priced for the eligibility check.
        lemma_basket_lookup_in(db, debt_asset);
        lemma_basket_lookup_in(sim.debt_assets@, debt_asset);
        lemma_basket_lookup_in(sim.collateral_assets@, collateral_asset);
    }
    let debt_price = match prices.get(debt_asset) {
        Some(v) => v,
        None => {
            return Err(StakeLendError::PriceNotFound);
        },
    };
    let collateral_price = match prices.get(collateral_asset) {
        Some(v) => v,
        None => {
            return Err(StakeLendError::PriceNotFound);
        },
    };
    if collateral_price == 0 {
        return Err(StakeLendError::InvalidOraclePrice);
    }
    let (actual_repay, actual_seize, bonus_amount) = match liquidation_terms(
        owed,
        repay_amount,
        debt_price,
        collateral_price,
        bonus_bps,
        held,
    ) {
        Ok(v) => v,
        Err(e) => {
            return Err(e);
        },
    };
    let actual2 = match sim.decrease_debt(debt_asset, actual_repay) {
        Ok(v) => v,
        Err(e) => {
            return Err(e);
        },
    };
    proof {
        assert(actual2 == actual_repay);
    }
    let ghost db2g = sim.debt_assets@;
    proof {
        let dinfo = spec_basket_lookup(db, debt_asset);
        let info = dinfo->Some_0;
        assert(db2g == spec_basket_upsert(
            db,
            debt_asset,
            AssetInfo {
                amount: (owed - actual_repay) as u64,
                interest_index: new_index,
                ..info
            },
        )) by {
            let e1 = AssetEntry {
                asset: debt_asset,
                info: AssetInfo {
                    amount: (info.amount + interest) as u64,
                    interest_index: new_index,
                    ..info
                },
            };
            let e2 = AssetEntry {
                asset: debt_asset,
                info: AssetInfo { amount: (owed - actual_repay) as u64, ..e1.info },
            };
            let idx1 = choose|idx: int|
                0 <= idx < db.len() && (#[trigger] db[idx]).asset == debt_asset && db1
                    == db.update(idx, e1);
            lemma_basket_idx_of_unique(db, debt_asset, idx1);
            assert(db1[idx1] == e1);
            let idx2 = choose|idx: int|
                0 <= idx < db1.len() && (#[trigger] db1[idx]).asset == debt_asset && db2g
                    == db1.update(idx, e2);
            lemma_basket_idx_of_unique(db1, debt_asset, idx2);
            lemma_basket_idx_of_unique(db1, debt_asset, idx1);
            assert(idx2 == idx1);
            assert(db2g =~= db.update(idx1, e2));
        }
    }
    match sim.remove_collateral(collateral_asset, actual_seize) {
        Ok(()) => {},
        Err(e) => {
            return Err(e);
        },
    }
    proof {
        assert(sim.collateral_assets@ == spec_collateral_after_remove(
            cb,
            collateral_asset,
            actual_seize,
        )) by {
            let cinfo = spec_basket_lookup(cb, collateral_asset);
            let info = cinfo->Some_0;
            if info.amount == actual_seize {
                let idxc = choose|idx: int|
                    0 <= idx < cb.len() && (#[trigger] cb[idx]).asset == collateral_asset
                        && sim.collateral_assets@ == cb.remove(idx);
                lemma_basket_idx_of_unique(cb, collateral_asset, idxc);
            } else {
                let e1 = AssetEntry {
                    asset: collateral_asset,
                    info: AssetInfo { amount: (info.amount - actual_seize) as u64, ..info },
                };
                let idxc = choose|idx: int|
                    0 <= idx < cb.len() && (#[trigger] cb[idx]).asset == collateral_asset
                        && sim.collateral_assets@ == cb.update(idx, e1);
                lemma_basket_idx_of_unique(cb, collateral_asset, idxc);
            }
        }
    }
    let health2 = if sim.has_debt() {
        match calculate_health_factor(&sim.collateral_assets, &sim.debt_assets, prices) {
            Ok(h) => h,
            Err(e) => {
                return Err(e);
            },
        }
    } else {
        u64::MAX
    };
    Ok((interest, actual_repay, actual_seize, bonus_amount, health2))
}

/// Liquidate an unhealthy position: repay part of its debt and seize
/// discounted collateral plus bonus.
///
/// Eligibility is recomputed from fresh prices after reconciling the debt
/// entry: only a health factor below `LIQUIDATION_THRESHOLD` may be
/// liquidated. The repayment is capped at half the owed amount (the close
/// factor); the seized collateral is the repaid value grown by the
/// liquidation bonus at the collateral's price, silently capped at what the
/// borrower holds. Reconciled interest joins total borrows and deposits; the
/// repayment then leaves total borrows and returns to available liquidity,
/// and the stored health factor and rates are re-derived. Every failure
/// leaves pool and obligation untouched.
#[verifier::rlimit(100)]
#[verifier::spinoff_prover]
pub fn process_liquidate_borrower(
    pool: &mut Pool,
    obligation: &mut Obligation,
    debt_asset: AssetId,
    collateral_asset: AssetId,
    repay_amount: u64,
    prices: &PriceTable,
    now: u64,
) -> (r: Result<LiquidationData, StakeLendError>)
    requires
        spec_lending_pool_wf(*old(pool)),
        old(obligation).baskets_wf(),
        spec_debt_indices_bounded(
            old(obligation).debt_assets@,
            old(pool).data->Lending_0.accumulated_interest_index,
        ),
        spec_basket_lookup(old(obligation).debt_assets@, debt_asset) is Some ==> spec_basket_lookup(
            old(obligation).debt_assets@,
            debt_asset,
        )->Some_0.amount <= old(pool).data->Lending_0.total_borrows,
    ensures
        spec_lending_pool_wf(*final(pool)),
        final(obligation).baskets_wf(),
        spec_debt_indices_bounded(
            final(obligation).debt_assets@,
            final(pool).data->Lending_0.accumulated_interest_index,
        ),
        final(pool).data->Lending_0.accumulated_interest_index >= old(
            pool,
        ).data->Lending_0.accumulated_interest_index,
        r is Err ==> spec_pool_eq(*final(pool), *old(pool)) && final(obligation).collateral_assets@
            == old(obligation).collateral_assets@ && final(obligation).debt_assets@ == old(
            obligation,
        ).debt_assets@ && final(obligation).health_factor == old(obligation).health_factor
            && final(obligation).health_status == old(obligation).health_status && final(obligation).last_updated_timestamp == old(obligation).last_updated_timestamp,
        ({
            let p = *old(pool);
            let d = p.data->Lending_0;
            let ps = prices.entries@;
            let cb = old(obligation).collateral_assets@;
            let db = old(obligation).debt_assets@;
            let new_index = spec_accrued_index(d, now);
            let dinfo = spec_basket_lookup(db, debt_asset);
            let cinfo = spec_basket_lookup(cb, collateral_asset);
            let interest = spec_reconcile_interest(dinfo, new_index);
            let owed = dinfo->Some_0.amount + interest;
            let db1 = spec_basket_upsert(
                db,
                debt_asset,
                AssetInfo {
                    amount: owed as u64,
                    interest_index: new_index as u128,
                    ..dinfo->Some_0
                },
            );
            let health1 = spec_health_factor(cb, db1, ps);
            let max_liq = spec_max_liquidatable(owed);
            let actual = if repay_amount <= max_liq {
                repay_amount as int
            } else {
                max_liq
            };
            let debt_price = spec_lookup(ps, debt_asset)->Some_0 as int;
            let collateral_price = spec_lookup(ps, collateral_asset)->Some_0 as int;
            let repay_value = actual * debt_price;
            let seize = spec_seize_amount(repay_value, d.liquidation_bonus as int,
                collateral_price);
            let held = cinfo->Some_0.amount as int;
            let actual_seize = if seize <= held {
                seize
            } else {
                held
            };
            let seized_value = actual_seize * collateral_price;
            let bonus = if seized_value >= repay_value {
                seized_value - repay_value
            } else {
                0
            };
            let db2 = spec_basket_upsert(
                db,
                debt_asset,
                AssetInfo {
                    amount: (owed - actual) as u64,
                    interest_index: new_index as u128,
                    ..dinfo->Some_0
                },
            );
            let cb2 = spec_collateral_after_remove(cb, collateral_asset, actual_seize as u64);
            let health2 = spec_health_factor(cb2, db2, ps);
            if spec_accrue_overflows(d, now) {
                r == Err::<LiquidationData, StakeLendError>(StakeLendError::MathOverflow)
            } else if dinfo is None {
                r == Err::<LiquidationData, StakeLendError>(StakeLendError::NoDebtFound)
            } else if cinfo is None {
                r == Err::<LiquidationData, StakeLendError>(StakeLendError::NoCollateralFound)
            } else if spec_reconcile_overflows(dinfo, new_index) {
                r == Err::<LiquidationData, StakeLendError>(StakeLendError::MathOverflow)
            } else if !(spec_all_priced(cb, ps) && spec_all_priced(db1, ps)) {
                r == Err::<LiquidationData, StakeLendError>(StakeLendError::PriceNotFound)
            } else if !spec_health_fits(cb, db1, ps) {
                r == Err::<LiquidationData, StakeLendError>(StakeLendError::MathOverflow)
            } else if health1 >= LIQUIDATION_THRESHOLD {
                r == Err::<LiquidationData, StakeLendError>(StakeLendError::LiquidationNotAllowed)
            } else if collateral_price == 0 {
                r == Err::<LiquidationData, StakeLendError>(StakeLendError::InvalidOraclePrice)
            } else if owed * 5000 > u64::MAX {
                r == Err::<LiquidationData, StakeLendError>(StakeLendError::MathOverflow)
            } else if repay_value > u64::MAX || repay_value * (10000 + d.liquidation_bonus)
                > u64::MAX {
                r == Err::<LiquidationData, StakeLendError>(StakeLendError::MathOverflow)
            } else if !(spec_all_priced(cb2, ps) && spec_all_priced(db2, ps)) {
                r == Err::<LiquidationData, StakeLendError>(StakeLendError::PriceNotFound)
            } else if !spec_health_fits(cb2, db2, ps) {
                r == Err::<LiquidationData, StakeLendError>(StakeLendError::MathOverflow)
            } else if d.total_borrows + interest > u64::MAX || p.total_deposits + interest
                > u64::MAX || (d.total_borrows + interest - actual) * 10000 > u64::MAX {
                r == Err::<LiquidationData, StakeLendError>(StakeLendError::MathOverflow)
            } else {
                let new_borrows = d.total_borrows + interest - actual;
                let new_deposits = p.total_deposits + interest;
                let d1 = final(pool).data->Lending_0;
                &&& r == Ok::<LiquidationData, StakeLendError>(
                    LiquidationData {
                        debt_asset,
                        collateral_asset,
                        repay_amount: actual as u64,
                        collateral_amount: actual_seize as u64,
                        bonus_amount: bonus as u64,
                        timestamp: now,
                    },
                )
                &&& final(obligation).collateral_assets@ == cb2
                &&& final(obligation).debt_assets@ == db2
                &&& final(obligation).health_factor == health2
                &&& final(obligation).health_status == spec_health_status(health2)
                &&& final(obligation).last_updated_timestamp == now
                &&& final(pool).total_deposits == new_deposits
                &&& final(pool).total_shares == old(pool).total_shares
                &&& final(pool).last_update_timestamp == now
                &&& final(pool).pool_type == p.pool_type
                &&& final(pool).token_mint == p.token_mint
                &&& final(pool).min_deposit == p.min_deposit
                &&& final(pool).max_deposit == p.max_deposit
                &&& final(pool).deposit_fee_bps == p.deposit_fee_bps
                &&& final(pool).withdrawal_fee_bps == p.withdrawal_fee_bps
                &&& d1.total_borrows == new_borrows
                &&& d1.available_liquidity == d.available_liquidity + actual
                &&& d1.accumulated_interest_index == new_index
                &&& d1.utilization_rate == crate::math::spec_utilization_rate(
                    new_borrows,
                    new_deposits,
                )
                &&& d1.current_borrow_rate == crate::rates::spec_borrow_rate(
                    d.interest_rate_params,
                    d1.utilization_rate as int,
                )
                &&& d1.current_supply_rate == crate::rates::spec_supply_rate(
                    d1.current_borrow_rate as int,
                    d1.utilization_rate as int,
                    d.reserve_factor_bps as int,
                )
                &&& d1.interest_rate_params == d.interest_rate_params
                &&& d1.reserve_factor_bps == d.reserve_factor_bps
                &&& d1.liquidation_threshold == d.liquidation_threshold
                &&& d1.liquidation_bonus == d.liquidation_bonus
                &&& d1.max_ltv == d.max_ltv
                &&& d1.supported_collaterals@ == d.supported_collaterals@
            }
        }),
{
    let ghost cb = obligation.collateral_assets@;
    let ghost db = obligation.debt_assets@;
    let (borrows, old_index, borrow_rate, last_ts, reserve_factor, available, bonus_bps): (
        u64,
        u128,
        u64,
        u64,
        u16,
        u64,
        u16,
    ) = match &pool.data {
        PoolData::Lending(d) => (
            d.total_borrows,
            d.accumulated_interest_index,
            d.current_borrow_rate,
            d.last_interest_update_timestamp,
            d.reserve_factor_bps,
            d.available_liquidity,
            d.liquidation_bonus,
        ),
        _ => {
            return Err(StakeLendError::InvalidPoolType);
        },
    };
    let elapsed = if now > last_ts {
        now - last_ts
    } else {
        0
    };
    let new_index: u128 = if elapsed == 0 {
        proof {
            crate::interest::lemma_interest_index_unchanged_when_no_time(
                old_index as int,
                borrow_rate as int,
            );
        }
        old_index
    } else {
        match crate::interest::update_interest_index(old_index, borrow_rate, elapsed) {
            Ok(v) => v,
            Err(e) => {
                return Err(e);
            },
        }
    };
    let mut sim = Obligation {
        collateral_assets: copy_entries(&obligation.collateral_assets),
        debt_assets: copy_entries(&obligation.debt_assets),
        health_factor: obligation.health_factor,
        health_status: obligation.health_status,
        last_updated_timestamp: obligation.last_updated_timestamp,
    };
    proof {
        assert(sim.collateral_assets@ == cb);
        assert(sim.debt_assets@ == db);
    }
    let (interest, actual_repay, actual_seize, bonus_amount, health2) = match apply_liquidation(
        &mut sim,
        debt_asset,
        collateral_asset,
        repay_amount,
        prices,
        new_index,
        bonus_bps,
    ) {
        Ok(v) => v,
        Err(e) => {
            return Err(e);
        },
    };
    let new_borrows_with_interest = match borrows.checked_add(interest) {
        Some(v) => v,
        None => {
            return Err(StakeLendError::MathOverflow);
        },
    };
    let new_borrows = new_borrows_with_interest - actual_repay;
    let new_deposits = match pool.total_deposits.checked_add(interest) {
        Some(v) => v,
        None => {
            return Err(StakeLendError::MathOverflow);
        },
    };
    let (utilization, new_borrow_rate, new_supply_rate) = {
        let rates = match &pool.data {
            PoolData::Lending(d) => crate::pool::derive_rates(
                new_borrows,
                new_deposits,
                &d.interest_rate_params,
                reserve_factor,
            ),
            _ => Err(StakeLendError::InvalidPoolType),
        };
        match rates {
            Ok(v) => v,
            Err(e) => {
                return Err(e);
            },
        }
    };
    let new_available = match available.checked_add(actual_repay) {
        Some(v) => v,
        None => {
            return Err(StakeLendError::MathOverflow);
        },
    };
    pool.total_deposits = new_deposits;
    pool.last_update_timestamp = now;
    match &mut pool.data {
        PoolData::Lending(d) => {
            d.accumulated_interest_index = new_index;
            d.last_interest_update_timestamp = if elapsed > 0 {
                now
            } else {
                d.last_interest_update_timestamp
            };
            d.total_borrows = new_borrows;
            d.available_liquidity = new_available;
            d.utilization_rate = utilization;
            d.current_borrow_rate = new_borrow_rate;
            d.current_supply_rate = new_supply_rate;
        },
        _ => {
            return Err(StakeLendError::InvalidPoolType);
        },
    }
    obligation.collateral_assets = sim.collateral_assets;
    obligation.debt_assets = sim.debt_assets;
    obligation.health_factor = health2;
    obligation.health_status = classify_health(health2);
    obligation.last_updated_timestamp = now;
    Ok(
        LiquidationData {
            debt_asset,
            collateral_asset,
            repay_amount: actual_repay,
            collateral_amount: actual_seize,
            bonus_amount,
            timestamp: now,
        },
    )
}

/// Scan the debt basket for an entry.
fn debt_entry_exists(obligation: &Obligation, asset: AssetId) -> (r: bool)
    ensures
        r == (spec_basket_lookup(obligation.debt_assets@, asset) is Some),
{
    let ghost s = obligation.debt_assets@;
    let mut i: usize = obligation.debt_assets.len();
    proof {
        assert(s.take(i as int) =~= s);
    }
    while i > 0
        invariant
            i <= s.len(),
            obligation.debt_assets@ == s,
            spec_basket_lookup(s, asset) == spec_basket_lookup(s.take(i as int), asset),
        decreases i,
    {
        i = i - 1;
        proof {
            assert(s.take(i as int + 1).last() == s[i as int]);
            assert(s.take(i as int + 1).drop_last() =~= s.take(i as int));
        }
        if obligation.debt_assets[i].asset == asset {
            return true;
        }
    }
    proof {
        assert(s.take(0) =~= Seq::<AssetEntry>::empty());
    }
    false
}

/// Scan the collateral basket for an entry.
fn collateral_entry_exists(obligation: &Obligation, asset: AssetId) -> (r: bool)
    ensures
        r == (spec_basket_lookup(obligation.collateral_assets@, asset) is Some),
{
    let ghost s = obligation.collateral_assets@;
    let mut i: usize = obligation.collateral_assets.len();
    proof {
        assert(s.take(i as int) =~= s);
    }
    while i > 0
        invariant
            i <= s.len(),
            obligation.collateral_assets@ == s,
            spec_basket_lookup(s, asset) == spec_basket_lookup(s.take(i as int), asset),
        decreases i,
    {
        i = i - 1;
        proof {
            assert(s.take(i as int + 1).last() == s[i as int]);
            assert(s.take(i as int + 1).drop_last() =~= s.take(i as int));
        }
        if obligation.collateral_assets[i].asset == asset {
            return true;
        }
    }
    proof {
        assert(s.take(0) =~= Seq::<AssetEntry>::empty());
    }
    false
}


/// Evaluate and store a position's health from fresh oracle prices.
///
/// The factor is recomputed from the stored baskets — a missing price for
/// any held asset fails with `PriceNotFound` and overflow with
/// `MathOverflow`, leaving the position untouched. On success the recomputed
/// factor and its classification are cached on the position, so the stored
/// factor always matches a fresh recomputation from the same baskets and
/// prices.
pub fn evaluate_user_health(position: &mut Obligation, prices: &PriceTable, now: u64) -> (r:
    Result<u64, StakeLendError>)
    requires
        old(position).baskets_wf(),
    ensures
        final(position).baskets_wf(),
        final(position).collateral_assets@ == old(position).collateral_assets@,
        final(position).debt_assets@ == old(position).debt_assets@,
        r is Err ==> final(position).health_factor == old(position).health_factor && final(position).health_status == old(position).health_status && final(position).last_updated_timestamp
            == old(position).last_updated_timestamp,
        ({
            let ps = prices.entries@;
            let cb = old(position).collateral_assets@;
            let db = old(position).debt_assets@;
            if !(spec_all_priced(cb, ps) && spec_all_priced(db, ps)) {
                r == Err::<u64, StakeLendError>(StakeLendError::PriceNotFound)
            } else if !spec_health_fits(cb, db, ps) {
                r == Err::<u64, StakeLendError>(StakeLendError::MathOverflow)
            } else {
                let health = spec_health_factor(cb, db, ps);
                &&& r == Ok::<u64, StakeLendError>(health as u64)
                &&& final(position).health_factor == health
                &&& final(position).health_status == spec_health_status(health)
                &&& final(position).last_updated_timestamp == now
            }
        }),
{
    let health = match calculate_health_factor(
        &position.collateral_assets,
        &position.debt_assets,
        prices,
    ) {
        Ok(h) => h,
        Err(e) => {
            return Err(e);
        },
    };
    position.health_factor = health;
    position.health_status = classify_health(health);
    position.last_updated_timestamp = now;
    Ok(health)
}

/// Compute what a liquidation of this position would move, without mutating
/// anything: the first debt and collateral entries are targeted, the
/// repayment is capped by the close factor, and the seizure is capped at the
/// held collateral.
///
/// Both targeted assets must be priced; a zero collateral price or any
/// intermediate overflow fails with `MathOverflow`, as does a divisor of
/// zero, matching the checked arithmetic throughout.
pub fn calculate_liquidation_amount(
    user_position: &Obligation,
    requested_repay_amount: u64,
    prices: &PriceTable,
    liquidation_bonus_bps: u16,
    now: u64,
) -> (r: Result<LiquidationData, StakeLendError>)
    ensures
        ({
            let ps = prices.entries@;
            let cb = user_position.collateral_assets@;
            let db = user_position.debt_assets@;
            let debt_entry = db[0];
            let collateral_entry = cb[0];
            let debt_price_opt = spec_lookup(ps, debt_entry.asset);
            let collateral_price_opt = spec_lookup(ps, collateral_entry.asset);
            let max_repay = debt_entry.info.amount * 5000 / 10000;
            let repay = if requested_repay_amount <= max_repay {
                requested_repay_amount as int
            } else {
                max_repay
            };
            let debt_price = debt_price_opt->Some_0 as int;
            let collateral_price = collateral_price_opt->Some_0 as int;
            let repay_value = repay * debt_price;
            let with_bonus = repay_value * (10000 + liquidation_bonus_bps) / 10000;
            let seize = with_bonus / collateral_price;
            let actual_seize = if seize <= collateral_entry.info.amount {
                seize
            } else {
                collateral_entry.info.amount as int
            };
            let seized_value = actual_seize * collateral_price;
            let bonus = if seized_value >= repay_value {
                seized_value - repay_value
            } else {
                0
            };
            if db.len() == 0 {
                r == Err::<LiquidationData, StakeLendError>(StakeLendError::NoDebtFound)
            } else if cb.len() == 0 {
                r == Err::<LiquidationData, StakeLendError>(StakeLendError::NoCollateralFound)
            } else if debt_price_opt is None || collateral_price_opt is None {
                r == Err::<LiquidationData, StakeLendError>(StakeLendError::PriceNotFound)
            } else if debt_entry.info.amount * 5000 > u64::MAX {
                r == Err::<LiquidationData, StakeLendError>(StakeLendError::MathOverflow)
            } else if repay * debt_price > u64::MAX || repay_value * (10000
                + liquidation_bonus_bps) > u64::MAX {
                r == Err::<LiquidationData, StakeLendError>(StakeLendError::MathOverflow)
            } else if collateral_price == 0 {
                r == Err::<LiquidationData, StakeLendError>(StakeLendError::MathOverflow)
            } else {
                r == Ok::<LiquidationData, StakeLendError>(
                    LiquidationData {
                        debt_asset: debt_entry.asset,
                        collateral_asset: collateral_entry.asset,
                        repay_amount: repay as u64,
                        collateral_amount: actual_seize as u64,
                        bonus_amount: bonus as u64,
                        timestamp: now,
                    },
                )
            }
        }),
{
    if user_position.debt_assets.len() == 0 {
        return Err(StakeLendError::NoDebtFound);
    }
    if user_position.collateral_assets.len() == 0 {
        return Err(StakeLendError::NoCollateralFound);
    }
    let debt_entry = user_position.debt_assets[0];
    let collateral_entry = user_position.collateral_assets[0];
    let debt_price = match prices.get(debt_entry.asset) {
        Some(v) => v,
        None => {
            return Err(StakeLendError::PriceNotFound);
        },
    };
    let collateral_price = match prices.get(collateral_entry.asset) {
        Some(v) => v,
        None => {
            return Err(StakeLendError::PriceNotFound);
        },
    };
    let max_repay_amount = match debt_entry.info.amount.checked_mul(5000) {
        Some(scaled) => scaled / 10000,
        None => {
            return Err(StakeLendError::MathOverflow);
        },
    };
    let repay_amount = if requested_repay_amount <= max_repay_amount {
        requested_repay_amount
    } else {
        max_repay_amount
    };
    let repay_value = match repay_amount.checked_mul(debt_price) {
        Some(v) => v,
        None => {
            return Err(StakeLendError::MathOverflow);
        },
    };
    let bonus_factor = 10000 + (liquidation_bonus_bps as u64);
    let collateral_value_with_bonus = match repay_value.checked_mul(bonus_factor) {
        Some(v) => v / 10000,
        None => {
            return Err(StakeLendError::MathOverflow);
        },
    };
    if collateral_price == 0 {
        return Err(StakeLendError::MathOverflow);
    }
    let collateral_amount = collateral_value_with_bonus / collateral_price;
    let actual_collateral_amount = if collateral_amount <= collateral_entry.info.amount {
        collateral_amount
    } else {
        collateral_entry.info.amount
    };
    proof {
        let q = collateral_amount as int;
        assert(actual_collateral_amount * collateral_price <= q * collateral_price) by (
        nonlinear_arith)
            requires actual_collateral_amount <= q && collateral_price >= 0;
        vstd::arithmetic::div_mod::lemma_fundamental_div_mod(
            collateral_value_with_bonus as int,
            collateral_price as int,
        );
        vstd::arithmetic::div_mod::lemma_mod_division_less_than_divisor(
            collateral_value_with_bonus as int,
            collateral_price as int,
        );
        assert(q * collateral_price == collateral_price * q) by (nonlinear_arith);
    }
    let actual_collateral_value = match actual_collateral_amount.checked_mul(collateral_price) {
        Some(v) => v,
        None => {
            return Err(StakeLendError::MathOverflow);
        },
    };
    let bonus_amount = if actual_collateral_value >= repay_value {
        actual_collateral_value - repay_value
    } else {
        0
    };
    Ok(
        LiquidationData {
            debt_asset: debt_entry.asset,
            collateral_asset: collateral_entry.asset,
            repay_amount,
            collateral_amount: actual_collateral_amount,
            bonus_amount,
            timestamp: now,
        },
    )
}

} // verus!
