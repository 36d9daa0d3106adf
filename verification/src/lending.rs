//! The borrow/repay state machine over a lending pool and one borrower's
//! obligation: collateralized borrowing with simulate-then-commit health
//! gating, repayment with interest reconciliation, and collateral
//! management.
use vstd::prelude::*;

use crate::errors::StakeLendError;
use crate::health::{
    AssetEntry, AssetInfo, HealthStatus, MIN_INITIAL_HEALTH_FACTOR, calculate_health_factor,
    classify_health, spec_all_priced, spec_health_factor, spec_health_fits, spec_health_status,
};
use crate::interest::INDEX_SCALE;
use crate::math::calculate_utilization_rate;
use crate::obligation::{
    Obligation, lemma_basket_idx_of_absent, lemma_basket_idx_of_unique, spec_basket_lookup,
    spec_basket_upsert, spec_debt_indices_bounded,
};
use crate::oracle::{AssetId, PriceTable, spec_lookup};
use crate::pool::{spec_accrue_overflows, spec_accrued_index, spec_elapsed};
use crate::rates::{calculate_borrow_rate, calculate_supply_rate};
use crate::state::{
    Pool, PoolData, spec_factor_lookup, spec_lending_pool_wf, spec_pool_eq,
};

verus! {

/// What a committed borrow did: the collateral pulled from the borrower, the
/// interest folded into the debt entry, and the position's new health.
#[derive(Clone, Copy, Debug, PartialEq, Eq, Structural)]
pub struct BorrowReceipt {
    /// Collateral the borrower must post for this borrow.
    pub required_collateral: u64,
    /// Interest reconciled into the debt entry before the borrow.
    pub interest_accrued: u64,
    /// The simulated-and-committed health factor.
    pub health_factor: u64,
}

/// The interest a debt entry accrues when brought to a new index.
pub open spec fn spec_reconcile_interest(info: Option<AssetInfo>, new_index: int) -> int {
    match info {
        Some(i) => if new_index > i.interest_index {
            i.amount * new_index / (i.interest_index as int) - i.amount
        } else {
            0
        },
        None => 0,
    }
}

/// Whether bringing a debt entry to a new index overflows.
pub open spec fn spec_reconcile_overflows(info: Option<AssetInfo>, new_index: int) -> bool {
    match info {
        Some(i) => new_index > i.interest_index && (i.amount * new_index > u128::MAX || i.amount
            * new_index / (i.interest_index as int) > u64::MAX),
        None => false,
    }
}

/// The debt basket after reconciling and borrowing `amount` more of an
/// asset at a given index.
pub open spec fn spec_debt_after_borrow(
    s: Seq<AssetEntry>,
    asset: AssetId,
    amount: u64,
    new_index: int,
    slot: u64,
) -> Seq<AssetEntry> {
    let info = spec_basket_lookup(s, asset);
    let interest = spec_reconcile_interest(info, new_index);
    match info {
        Some(i) => spec_basket_upsert(
            s,
            asset,
            AssetInfo {
                amount: (i.amount + interest + amount) as u64,
                collateral_factor: i.collateral_factor,
                interest_index: new_index as u128,
                last_updated_slot: slot,
            },
        ),
        None => if amount == 0 {
            s
        } else {
            spec_basket_upsert(
                s,
                asset,
                AssetInfo {
                    amount,
                    collateral_factor: 0,
                    interest_index: new_index as u128,
                    last_updated_slot: slot,
                },
            )
        },
    }
}

/// The collateral basket after posting `required` more of an asset whose
/// configured factor is `factor`.
pub open spec fn spec_collateral_after_post(
    s: Seq<AssetEntry>,
    asset: AssetId,
    required: u64,
    factor: u16,
    slot: u64,
) -> Seq<AssetEntry> {
    match spec_basket_lookup(s, asset) {
        Some(i) => spec_basket_upsert(
            s,
            asset,
            AssetInfo { amount: (i.amount + required) as u64, ..i },
        ),
        None => if required == 0 {
            s
        } else {
            spec_basket_upsert(
                s,
                asset,
                AssetInfo {
                    amount: required,
                    collateral_factor: factor,
                    interest_index: 0,
                    last_updated_slot: slot,
                },
            )
        },
    }
}

/// Collateral a borrow of `amount` must post:
/// `amount / price * (10000 / max_ltv)`, floored at each division.
pub open spec fn spec_required_collateral(amount: u64, price: int, max_ltv: u16) -> int {
    amount * 10000 / (max_ltv as int) / price
}

/// Copy a basket, entry for entry.
pub(crate) fn copy_entries(v: &Vec<AssetEntry>) -> (r: Vec<AssetEntry>)
    ensures
        r@ == v@,
{
    let mut out: Vec<AssetEntry> = Vec::new();
    let mut i: usize = 0;
    while i < v.len()
        invariant
            i <= v@.len(),
            out@ =~= v@.take(i as int),
        decreases v@.len() - i,
    {
        out.push(v[i]);
        proof {
            assert(out@ =~= v@.take(i as int + 1));
        }
        i = i + 1;
    }
    proof {
        assert(v@.take(v@.len() as int) =~= v@);
    }
    out
}

/// Borrow against collateral: accrue, check liquidity, pull the required
/// collateral, add debt, gate on the simulated health, and commit.
///
/// The operation accrues pool interest first, refuses amounts above the
/// available liquidity, computes the collateral to pull from the asset's
/// oracle price and the pool's maximum LTV, reconciles the borrower's debt
/// entry, and simulates the post-borrow position: only a simulated health
/// factor of at least `MIN_INITIAL_HEALTH_FACTOR` commits. Reconciled
/// interest joins both total borrows and total deposits, the borrowed amount
/// joins total borrows, liquidity shrinks by it, and utilization and rates
/// are re-derived. Every failure leaves pool and obligation untouched.
#[verifier::rlimit(100)]
#[verifier::spinoff_prover]
pub fn process_borrow(
    pool: &mut Pool,
    obligation: &mut Obligation,
    debt_asset: AssetId,
    collateral_asset: AssetId,
    amount: u64,
    prices: &PriceTable,
    now: u64,
    slot: u64,
) -> (r: Result<BorrowReceipt, StakeLendError>)
    requires
        spec_lending_pool_wf(*old(pool)),
        old(obligation).baskets_wf(),
        spec_debt_indices_bounded(
            old(obligation).debt_assets@,
            old(pool).data->Lending_0.accumulated_interest_index,
        ),
    ensures
        spec_lending_pool_wf(*final(pool)),
        final(obligation).baskets_wf(),
        spec_debt_indices_bounded(
            final(obligation).debt_assets@,
            final(pool).data->Lending_0.accumulated_interest_index,
        ),
        final(pool).data->Lending_0.accumulated_interest_index >= old(
            pool,
        ).data->Lending_0.accumulated_interest_index,
        r is Err ==> spec_pool_eq(*final(pool), *old(pool)) && final(obligation).collateral_assets@
            == old(obligation).collateral_assets@ && final(obligation).debt_assets@ == old(
            obligation,
        ).debt_assets@ && final(obligation).health_factor == old(obligation).health_factor
            && final(obligation).health_status == old(obligation).health_status && final(obligation).last_updated_timestamp == old(obligation).last_updated_timestamp,
        ({
            let p = *old(pool);
            let d = p.data->Lending_0;
            let ps = prices.entries@;
            let cb = old(obligation).collateral_assets@;
            let db = old(obligation).debt_assets@;
            let new_index = spec_accrued_index(d, now);
            let dinfo = spec_basket_lookup(db, debt_asset);
            let interest = spec_reconcile_interest(dinfo, new_index);
            let factor_opt = spec_factor_lookup(d.supported_collaterals@, collateral_asset);
            let price_c_opt = spec_lookup(ps, collateral_asset);
            let price_c = price_c_opt->Some_0 as int;
            let required = spec_required_collateral(amount, price_c, d.max_ltv);
            let cinfo = spec_basket_lookup(cb, collateral_asset);
            let cb2 = spec_collateral_after_post(
                cb,
                collateral_asset,
                required as u64,
                factor_opt->Some_0,
                slot,
            );
            let db2 = spec_debt_after_borrow(db, debt_asset, amount, new_index, slot);
            let health = spec_health_factor(cb2, db2, ps);
            if spec_accrue_overflows(d, now) {
                r == Err::<BorrowReceipt, StakeLendError>(StakeLendError::MathOverflow)
            } else if amount > d.available_liquidity {
                r == Err::<BorrowReceipt, StakeLendError>(StakeLendError::InsufficientLiquidity)
            } else if factor_opt is None {
                r == Err::<BorrowReceipt, StakeLendError>(StakeLendError::UnsupportedCollateral)
            } else if price_c_opt is None {
                r == Err::<BorrowReceipt, StakeLendError>(StakeLendError::PriceNotFound)
            } else if price_c_opt->Some_0 == 0 {
                r == Err::<BorrowReceipt, StakeLendError>(StakeLendError::InvalidOraclePrice)
            } else if amount * 10000 > u64::MAX {
                r == Err::<BorrowReceipt, StakeLendError>(StakeLendError::MathOverflow)
            } else if spec_reconcile_overflows(dinfo, new_index) {
                r == Err::<BorrowReceipt, StakeLendError>(StakeLendError::MathOverflow)
            } else if dinfo is Some && dinfo->Some_0.amount + interest + amount > u64::MAX {
                r == Err::<BorrowReceipt, StakeLendError>(StakeLendError::MathOverflow)
            } else if cinfo is Some && cinfo->Some_0.amount + required > u64::MAX {
                r == Err::<BorrowReceipt, StakeLendError>(StakeLendError::MathOverflow)
            } else if !(spec_all_priced(cb2, ps) && spec_all_priced(db2, ps)) {
                r == Err::<BorrowReceipt, StakeLendError>(StakeLendError::PriceNotFound)
            } else if !spec_health_fits(cb2, db2, ps) {
                r == Err::<BorrowReceipt, StakeLendError>(StakeLendError::MathOverflow)
            } else if health < MIN_INITIAL_HEALTH_FACTOR {
                r == Err::<BorrowReceipt, StakeLendError>(StakeLendError::InsufficientCollateral)
            } else if d.total_borrows + interest + amount > u64::MAX || p.total_deposits + interest
                > u64::MAX || (d.total_borrows + interest + amount) * 10000 > u64::MAX {
                r == Err::<BorrowReceipt, StakeLendError>(StakeLendError::MathOverflow)
            } else {
                let new_borrows = d.total_borrows + interest + amount;
                let new_deposits = p.total_deposits + interest;
                let d1 = final(pool).data->Lending_0;
                &&& r == Ok::<BorrowReceipt, StakeLendError>(
                    BorrowReceipt {
                        required_collateral: required as u64,
                        interest_accrued: interest as u64,
                        health_factor: health as u64,
                    },
                )
                &&& final(obligation).collateral_assets@ == cb2
                &&& final(obligation).debt_assets@ == db2
                &&& final(obligation).health_factor == health
                &&& final(obligation).health_status == spec_health_status(health)
                &&& final(obligation).last_updated_timestamp == now
                &&& final(pool).total_deposits == new_deposits
                &&& final(pool).total_shares == old(pool).total_shares
                &&& final(pool).last_update_timestamp == now
                &&& final(pool).pool_type == p.pool_type
                &&& final(pool).token_mint == p.token_mint
                &&& final(pool).min_deposit == p.min_deposit
                &&& final(pool).max_deposit == p.max_deposit
                &&& final(pool).deposit_fee_bps == p.deposit_fee_bps
                &&& final(pool).withdrawal_fee_bps == p.withdrawal_fee_bps
                &&& d1.total_borrows == new_borrows
                &&& d1.available_liquidity == d.available_liquidity - amount
                &&& d1.accumulated_interest_index == new_index
                &&& d1.last_interest_update_timestamp == (if spec_elapsed(
                    d.last_interest_update_timestamp,
                    now,
                ) > 0 {
                    now as int
                } else {
                    d.last_interest_update_timestamp as int
                })
                &&& d1.utilization_rate == crate::math::spec_utilization_rate(
                    new_borrows,
                    new_deposits,
                )
                &&& d1.current_borrow_rate == crate::rates::spec_borrow_rate(
                    d.interest_rate_params,
                    d1.utilization_rate as int,
                )
                &&& d1.current_supply_rate == crate::rates::spec_supply_rate(
                    d1.current_borrow_rate as int,
                    d1.utilization_rate as int,
                    d.reserve_factor_bps as int,
                )
                &&& d1.interest_rate_params == d.interest_rate_params
                &&& d1.reserve_factor_bps == d.reserve_factor_bps
                &&& d1.liquidation_threshold == d.liquidation_threshold
                &&& d1.liquidation_bonus == d.liquidation_bonus
                &&& d1.max_ltv == d.max_ltv
                &&& d1.supported_collaterals@ == d.supported_collaterals@
            }
        }),
{
    let ghost p_spec = *pool;
    let ghost d_spec = pool.data->Lending_0;
    let ghost cb = obligation.collateral_assets@;
    let ghost db = obligation.debt_assets@;
    // Read the lending data and accrue the index (without committing).
    let (
        available,
        max_ltv,
        borrows,
        old_index,
        borrow_rate,
        last_ts,
        reserve_factor,
    ): (u64, u16, u64, u128, u64, u64, u16) = match &pool.data {
        PoolData::Lending(d) => (
            d.available_liquidity,
            d.max_ltv,
            d.total_borrows,
            d.accumulated_interest_index,
            d.current_borrow_rate,
            d.last_interest_update_timestamp,
            d.reserve_factor_bps,
        ),
        _ => {
            return Err(StakeLendError::InvalidPoolType);
        },
    };
    let elapsed = if now > last_ts {
        now - last_ts
    } else {
        0
    };
    let new_index: u128 = if elapsed == 0 {
        proof {
            crate::interest::lemma_interest_index_unchanged_when_no_time(
                old_index as int,
                borrow_rate as int,
            );
        }
        old_index
    } else {
        match crate::interest::update_interest_index(old_index, borrow_rate, elapsed) {
            Ok(v) => v,
            Err(e) => {
                return Err(e);
            },
        }
    };
    // Policy checks, in order: liquidity, supported collateral, price.
    if amount > available {
        return Err(StakeLendError::InsufficientLiquidity);
    }
    let factor = match &pool.data {
        PoolData::Lending(d) => match d.supported_collateral_factor(collateral_asset) {
            Some(f) => f,
            None => {
                return Err(StakeLendError::UnsupportedCollateral);
            },
        },
        _ => {
            return Err(StakeLendError::InvalidPoolType);
        },
    };
    let price_c = match prices.get(collateral_asset) {
        Some(p) => p,
        None => {
            return Err(StakeLendError::PriceNotFound);
        },
    };
    if price_c == 0 {
        return Err(StakeLendError::InvalidOraclePrice);
    }
    let required_collateral = match amount.checked_mul(10000) {
        Some(scaled) => (scaled / (max_ltv as u64)) / price_c,
        None => {
            return Err(StakeLendError::MathOverflow);
        },
    };
    // Simulate the post-borrow obligation on a scratch copy.
    let mut sim = Obligation {
        collateral_assets: copy_entries(&obligation.collateral_assets),
        debt_assets: copy_entries(&obligation.debt_assets),
        health_factor: obligation.health_factor,
        health_status: obligation.health_status,
        last_updated_timestamp: obligation.last_updated_timestamp,
    };
    proof {
        assert(sim.collateral_assets@ == cb);
        assert(sim.debt_assets@ == db);
    }
    let interest = match sim.reconcile_debt(debt_asset, new_index) {
        Ok(i) => i,
        Err(StakeLendError::NoDebtFound) => 0,
        Err(e) => {
            return Err(e);
        },
    };
    let ghost db1 = sim.debt_assets@;
    match sim.increase_debt(debt_asset, amount, new_index, slot) {
        Ok(()) => {},
        Err(e) => {
            return Err(e);
        },
    }
    proof {
        let dinfo = spec_basket_lookup(db, debt_asset);
        if dinfo is Some {
            let info = dinfo->Some_0;
            let e1 = AssetEntry {
                asset: debt_asset,
                info: AssetInfo {
                    amount: (info.amount + interest) as u64,
                    interest_index: new_index,
                    ..info
                },
            };
            let idx1 = choose|idx: int|
                0 <= idx < db.len() && (#[trigger] db[idx]).asset == debt_asset && db1
                    == db.update(idx, e1);
            lemma_basket_idx_of_unique(db, debt_asset, idx1);
            let e2 = AssetEntry {
                asset: debt_asset,
                info: AssetInfo {
                    amount: (e1.info.amount + amount) as u64,
                    interest_index: new_index,
                    last_updated_slot: slot,
                    ..e1.info
                },
            };
            let idx2 = choose|idx: int|
                0 <= idx < db1.len() && (#[trigger] db1[idx]).asset == debt_asset
                    && sim.debt_assets@ == db1.update(idx, e2);
            assert(db1[idx1] == e1);
            lemma_basket_idx_of_unique(db1, debt_asset, idx2);
            lemma_basket_idx_of_unique(db1, debt_asset, idx1);
            assert(idx2 == idx1);
            assert(sim.debt_assets@ =~= db.update(idx1, e2));
            assert(spec_debt_after_borrow(db, debt_asset, amount, new_index as int, slot)
                == db.update(idx1, e2));
        } else {
            assert(db1 == db);
            if amount == 0 {
                assert(sim.debt_assets@ == db);
            } else {
                lemma_basket_idx_of_absent(db, debt_asset);
            }
        }
        assert(sim.debt_assets@ == spec_debt_after_borrow(
            db,
            debt_asset,
            amount,
            new_index as int,
            slot,
        ));
    }
    let ghost cb1 = sim.collateral_assets@;
    match sim.add_collateral(collateral_asset, required_collateral, factor, slot) {
        Ok(()) => {},
        Err(e) => {
            return Err(e);
        },
    }
    proof {
        assert(cb1 == cb);
        let cinfo = spec_basket_lookup(cb, collateral_asset);
        if cinfo is Some {
            let info = cinfo->Some_0;
            let e1 = AssetEntry {
                asset: collateral_asset,
                info: AssetInfo { amount: (info.amount + required_collateral) as u64, ..info },
            };
            let idxc = choose|idx: int|
                0 <= idx < cb.len() && (#[trigger] cb[idx]).asset == collateral_asset
                    && sim.collateral_assets@ == cb.update(idx, e1);
            lemma_basket_idx_of_unique(cb, collateral_asset, idxc);
        } else if required_collateral != 0 {
            lemma_basket_idx_of_absent(cb, collateral_asset);
        }
        assert(sim.collateral_assets@ == spec_collateral_after_post(
            cb,
            collateral_asset,
            required_collateral,
            factor,
            slot,
        ));
    }
    // Gate on the simulated health factor.
    let health = match calculate_health_factor(&sim.collateral_assets, &sim.debt_assets, prices) {
        Ok(h) => h,
        Err(e) => {
            return Err(e);
        },
    };
    if health < MIN_INITIAL_HEALTH_FACTOR {
        return Err(StakeLendError::InsufficientCollateral);
    }
    // Pool aggregates.
    let new_borrows = match borrows.checked_add(interest) {
        Some(v) => match v.checked_add(amount) {
            Some(w) => w,
            None => {
                return Err(StakeLendError::MathOverflow);
            },
        },
        None => {
            return Err(StakeLendError::MathOverflow);
        },
    };
    let new_deposits = match pool.total_deposits.checked_add(interest) {
        Some(v) => v,
        None => {
            return Err(StakeLendError::MathOverflow);
        },
    };
    let utilization = match calculate_utilization_rate(new_borrows, new_deposits) {
        Ok(v) => v,
        Err(_) => {
            return Err(StakeLendError::MathOverflow);
        },
    };
    let new_borrow_rate = match &pool.data {
        PoolData::Lending(d) => match calculate_borrow_rate(utilization, &d.interest_rate_params) {
            Ok(v) => v,
            Err(e) => {
                return Err(e);
            },
        },
        _ => {
            return Err(StakeLendError::InvalidPoolType);
        },
    };
    proof {
        assert(new_borrow_rate * utilization <= 30000 * 10000) by (nonlinear_arith)
            requires new_borrow_rate <= 30000 && utilization <= 10000;
    }
    let new_supply_rate = match calculate_supply_rate(new_borrow_rate, utilization, reserve_factor)
        {
        Ok(v) => v,
        Err(e) => {
            return Err(e);
        },
    };
    // Commit.
    pool.total_deposits = new_deposits;
    pool.last_update_timestamp = now;
    match &mut pool.data {
        PoolData::Lending(d) => {
            d.accumulated_interest_index = new_index;
            d.last_interest_update_timestamp = if elapsed > 0 {
                now
            } else {
                d.last_interest_update_timestamp
            };
            d.total_borrows = new_borrows;
            d.available_liquidity = available - amount;
            d.utilization_rate = utilization;
            d.current_borrow_rate = new_borrow_rate;
            d.current_supply_rate = new_supply_rate;
        },
        _ => {
            return Err(StakeLendError::InvalidPoolType);
        },
    }
    obligation.collateral_assets = sim.collateral_assets;
    obligation.debt_assets = sim.debt_assets;
    obligation.health_factor = health;
    obligation.health_status = classify_health(health);
    obligation.last_updated_timestamp = now;
    Ok(
        BorrowReceipt {
            required_collateral,
            interest_accrued: interest,
            health_factor: health,
        },
    )
}

/// What a committed repayment did.
#[derive(Clone, Copy, Debug, PartialEq, Eq, Structural)]
pub struct RepayReceipt {
    /// Amount actually pulled from the payer, capped at the total owed.
    pub repaid_amount: u64,
    /// Interest reconciled into the debt entry before repaying.
    pub interest_accrued: u64,
    /// The health factor after the repayment.
    pub health_factor: u64,
}

/// The amount a repayment actually applies: the requested amount, capped at
/// the total owed (`min(requested, owed)`).
pub open spec fn spec_actual_repay(owed: int, amount: u64) -> int {
    if amount >= owed {
        owed
    } else {
        amount as int
    }
}

/// The debt basket after reconciling an entry and repaying `amount` of it,
/// capped at the total owed. A fully repaid entry is pruned.
pub open spec fn spec_debt_after_repay(
    s: Seq<AssetEntry>,
    asset: AssetId,
    amount: u64,
    new_index: int,
) -> Seq<AssetEntry> {
    let info = spec_basket_lookup(s, asset)->Some_0;
    let interest = spec_reconcile_interest(spec_basket_lookup(s, asset), new_index);
    let owed = info.amount + interest;
    let actual = spec_actual_repay(owed, amount);
    if actual == owed {
        s.remove(crate::obligation::spec_basket_idx_of(s, asset))
    } else {
        spec_basket_upsert(
            s,
            asset,
            AssetInfo {
                amount: (owed - actual) as u64,
                interest_index: new_index as u128,
                ..info
            },
        )
    }
}

/// Repay debt: accrue, reconcile the entry, cap the repayment at the total
/// owed, prune a fully repaid entry, and re-derive the position's health and
/// the pool's rates.
///
/// The repayment applied is `min(requested, owed)`: the excess of an
/// overpayment is never pulled from the payer. Reconciled interest joins
/// both total borrows and
/// total deposits; the actual repayment then leaves total borrows and
/// returns to available liquidity. The health factor is recomputed only when
/// debt remains (an empty debt basket is maximally healthy). Every failure
/// leaves pool and obligation untouched.
#[verifier::rlimit(100)]
#[verifier::spinoff_prover]
pub fn process_repay(
    pool: &mut Pool,
    obligation: &mut Obligation,
    debt_asset: AssetId,
    amount: u64,
    prices: &PriceTable,
    now: u64,
) -> (r: Result<RepayReceipt, StakeLendError>)
    requires
        spec_lending_pool_wf(*old(pool)),
        old(obligation).baskets_wf(),
        spec_debt_indices_bounded(
            old(obligation).debt_assets@,
            old(pool).data->Lending_0.accumulated_interest_index,
        ),
        spec_basket_lookup(old(obligation).debt_assets@, debt_asset) is Some ==> spec_basket_lookup(
            old(obligation).debt_assets@,
            debt_asset,
        )->Some_0.amount <= old(pool).data->Lending_0.total_borrows,
    ensures
        spec_lending_pool_wf(*final(pool)),
        final(obligation).baskets_wf(),
        spec_debt_indices_bounded(
            final(obligation).debt_assets@,
            final(pool).data->Lending_0.accumulated_interest_index,
        ),
        final(pool).data->Lending_0.accumulated_interest_index >= old(
            pool,
        ).data->Lending_0.accumulated_interest_index,
        r is Err ==> spec_pool_eq(*final(pool), *old(pool)) && final(obligation).collateral_assets@
            == old(obligation).collateral_assets@ && final(obligation).debt_assets@ == old(
            obligation,
        ).debt_assets@ && final(obligation).health_factor == old(obligation).health_factor
            && final(obligation).health_status == old(obligation).health_status && final(obligation).last_updated_timestamp == old(obligation).last_updated_timestamp,
        ({
            let p = *old(pool);
            let d = p.data->Lending_0;
            let ps = prices.entries@;
            let cb = old(obligation).collateral_assets@;
            let db = old(obligation).debt_assets@;
            let new_index = spec_accrued_index(d, now);
            let dinfo = spec_basket_lookup(db, debt_asset);
            let interest = spec_reconcile_interest(dinfo, new_index);
            let owed = dinfo->Some_0.amount + interest;
            let actual = spec_actual_repay(owed, amount);
            let db2 = spec_debt_after_repay(db, debt_asset, amount, new_index);
            let health = spec_health_factor(cb, db2, ps);
            if spec_accrue_overflows(d, now) {
                r == Err::<RepayReceipt, StakeLendError>(StakeLendError::MathOverflow)
            } else if dinfo is None {
                r == Err::<RepayReceipt, StakeLendError>(StakeLendError::NoDebtFound)
            } else if spec_reconcile_overflows(dinfo, new_index) {
                r == Err::<RepayReceipt, StakeLendError>(StakeLendError::MathOverflow)
            } else if db2.len() > 0 && !(spec_all_priced(cb, ps) && spec_all_priced(db2, ps)) {
                r == Err::<RepayReceipt, StakeLendError>(StakeLendError::PriceNotFound)
            } else if db2.len() > 0 && !spec_health_fits(cb, db2, ps) {
                r == Err::<RepayReceipt, StakeLendError>(StakeLendError::MathOverflow)
            } else if d.total_borrows + interest > u64::MAX || p.total_deposits + interest
                > u64::MAX || (d.total_borrows + interest - actual) * 10000 > u64::MAX {
                r == Err::<RepayReceipt, StakeLendError>(StakeLendError::MathOverflow)
            } else {
                let new_borrows = d.total_borrows + interest - actual;
                let new_deposits = p.total_deposits + interest;
                let d1 = final(pool).data->Lending_0;
                &&& r == Ok::<RepayReceipt, StakeLendError>(
                    RepayReceipt {
                        repaid_amount: actual as u64,
                        interest_accrued: interest as u64,
                        health_factor: health as u64,
                    },
                )
                &&& final(obligation).collateral_assets@ == cb
                &&& final(obligation).debt_assets@ == db2
                &&& final(obligation).health_factor == health
                &&& final(obligation).health_status == spec_health_status(health)
                &&& final(obligation).last_updated_timestamp == now
                &&& final(pool).total_deposits == new_deposits
                &&& final(pool).total_shares == old(pool).total_shares
                &&& final(pool).last_update_timestamp == now
                &&& final(pool).pool_type == p.pool_type
                &&& final(pool).token_mint == p.token_mint
                &&& final(pool).min_deposit == p.min_deposit
                &&& final(pool).max_deposit == p.max_deposit
                &&& final(pool).deposit_fee_bps == p.deposit_fee_bps
                &&& final(pool).withdrawal_fee_bps == p.withdrawal_fee_bps
                &&& d1.total_borrows == new_borrows
                &&& d1.available_liquidity == d.available_liquidity + actual
                &&& d1.accumulated_interest_index == new_index
                &&& d1.utilization_rate == crate::math::spec_utilization_rate(
                    new_borrows,
                    new_deposits,
                )
                &&& d1.current_borrow_rate == crate::rates::spec_borrow_rate(
                    d.interest_rate_params,
                    d1.utilization_rate as int,
                )
                &&& d1.current_supply_rate == crate::rates::spec_supply_rate(
                    d1.current_borrow_rate as int,
                    d1.utilization_rate as int,
                    d.reserve_factor_bps as int,
                )
                &&& d1.interest_rate_params == d.interest_rate_params
                &&& d1.reserve_factor_bps == d.reserve_factor_bps
                &&& d1.liquidation_threshold == d.liquidation_threshold
                &&& d1.liquidation_bonus == d.liquidation_bonus
                &&& d1.max_ltv == d.max_ltv
                &&& d1.supported_collaterals@ == d.supported_collaterals@
            }
        }),
{
    let ghost cb = obligation.collateral_assets@;
    let ghost db = obligation.debt_assets@;
    let (borrows, old_index, borrow_rate, last_ts, reserve_factor, available): (
        u64,
        u128,
        u64,
        u64,
        u16,
        u64,
    ) = match &pool.data {
        PoolData::Lending(d) => (
            d.total_borrows,
            d.accumulated_interest_index,
            d.current_borrow_rate,
            d.last_interest_update_timestamp,
            d.reserve_factor_bps,
            d.available_liquidity,
        ),
        _ => {
            return Err(StakeLendError::InvalidPoolType);
        },
    };
    let elapsed = if now > last_ts {
        now - last_ts
    } else {
        0
    };
    let new_index: u128 = if elapsed == 0 {
        proof {
            crate::interest::lemma_interest_index_unchanged_when_no_time(
                old_index as int,
                borrow_rate as int,
            );
        }
        old_index
    } else {
        match crate::interest::update_interest_index(old_index, borrow_rate, elapsed) {
            Ok(v) => v,
            Err(e) => {
                return Err(e);
            },
        }
    };
    let mut sim = Obligation {
        collateral_assets: copy_entries(&obligation.collateral_assets),
        debt_assets: copy_entries(&obligation.debt_assets),
        health_factor: obligation.health_factor,
        health_status: obligation.health_status,
        last_updated_timestamp: obligation.last_updated_timestamp,
    };
    proof {
        assert(sim.collateral_assets@ == cb);
        assert(sim.debt_assets@ == db);
    }
    let interest = match sim.reconcile_debt(debt_asset, new_index) {
        Ok(i) => i,
        Err(e) => {
            return Err(e);
        },
    };
    let ghost db1 = sim.debt_assets@;
    let owed = sim.debt_amount_of(debt_asset);
    let actual = match sim.decrease_debt(debt_asset, amount) {
        Ok(v) => v,
        Err(e) => {
            return Err(e);
        },
    };
    proof {
        let dinfo = spec_basket_lookup(db, debt_asset);
        let info = dinfo->Some_0;
        let e1 = AssetEntry {
            asset: debt_asset,
            info: AssetInfo {
                amount: (info.amount + interest) as u64,
                interest_index: new_index,
                ..info
            },
        };
        let idx1 = choose|idx: int|
            0 <= idx < db.len() && (#[trigger] db[idx]).asset == debt_asset && db1 == db.update(
                idx,
                e1,
            );
        lemma_basket_idx_of_unique(db, debt_asset, idx1);
        assert(db1[idx1] == e1);
        if actual == owed {
            let idx2 = choose|idx: int|
                0 <= idx < db1.len() && (#[trigger] db1[idx]).asset == debt_asset
                    && sim.debt_assets@ == db1.remove(idx);
            lemma_basket_idx_of_unique(db1, debt_asset, idx2);
            lemma_basket_idx_of_unique(db1, debt_asset, idx1);
            assert(idx2 == idx1);
            db1.remove_ensures(idx1);
            db.update(idx1, e1).remove_ensures(idx1);
            assert(sim.debt_assets@ =~= db.remove(idx1));
            db.remove_ensures(idx1);
        } else {
            let e2 = AssetEntry {
                asset: debt_asset,
                info: AssetInfo { amount: (owed - actual) as u64, ..e1.info },
            };
            let idx2 = choose|idx: int|
                0 <= idx < db1.len() && (#[trigger] db1[idx]).asset == debt_asset
                    && sim.debt_assets@ == db1.update(idx, e2);
            lemma_basket_idx_of_unique(db1, debt_asset, idx2);
            lemma_basket_idx_of_unique(db1, debt_asset, idx1);
            assert(idx2 == idx1);
            assert(sim.debt_assets@ =~= db.update(idx1, e2));
        }
        assert(sim.debt_assets@ == spec_debt_after_repay(db, debt_asset, amount, new_index as int));
    }
    let health = if sim.has_debt() {
        match calculate_health_factor(&sim.collateral_assets, &sim.debt_assets, prices) {
            Ok(h) => h,
            Err(e) => {
                return Err(e);
            },
        }
    } else {
        u64::MAX
    };
    let new_borrows_with_interest = match borrows.checked_add(interest) {
        Some(v) => v,
        None => {
            return Err(StakeLendError::MathOverflow);
        },
    };
    let new_borrows = new_borrows_with_interest - actual;
    let new_deposits = match pool.total_deposits.checked_add(interest) {
        Some(v) => v,
        None => {
            return Err(StakeLendError::MathOverflow);
        },
    };
    let utilization = match calculate_utilization_rate(new_borrows, new_deposits) {
        Ok(v) => v,
        Err(_) => {
            return Err(StakeLendError::MathOverflow);
        },
    };
    let new_borrow_rate = match &pool.data {
        PoolData::Lending(d) => match calculate_borrow_rate(utilization, &d.interest_rate_params) {
            Ok(v) => v,
            Err(e) => {
                return Err(e);
            },
        },
        _ => {
            return Err(StakeLendError::InvalidPoolType);
        },
    };
    proof {
        assert(new_borrow_rate * utilization <= 30000 * 10000) by (nonlinear_arith)
            requires new_borrow_rate <= 30000 && utilization <= 10000;
    }
    let new_supply_rate = match calculate_supply_rate(new_borrow_rate, utilization, reserve_factor)
        {
        Ok(v) => v,
        Err(e) => {
            return Err(e);
        },
    };
    let new_available = match available.checked_add(actual) {
        Some(v) => v,
        None => {
            return Err(StakeLendError::MathOverflow);
        },
    };
    pool.total_deposits = new_deposits;
    pool.last_update_timestamp = now;
    match &mut pool.data {
        PoolData::Lending(d) => {
            d.accumulated_interest_index = new_index;
            d.last_interest_update_timestamp = if elapsed > 0 {
                now
            } else {
                d.last_interest_update_timestamp
            };
            d.total_borrows = new_borrows;
            d.available_liquidity = new_available;
            d.utilization_rate = utilization;
            d.current_borrow_rate = new_borrow_rate;
            d.current_supply_rate = new_supply_rate;
        },
        _ => {
            return Err(StakeLendError::InvalidPoolType);
        },
    }
    obligation.debt_assets = sim.debt_assets;
    obligation.health_factor = health;
    obligation.health_status = classify_health(health);
    obligation.last_updated_timestamp = now;
    Ok(
        RepayReceipt {
            repaid_amount: actual,
            interest_accrued: interest,
            health_factor: health,
        },
    )
}


/// The collateral basket after removing `amount` of an asset; an emptied
/// entry is pruned.
pub open spec fn spec_collateral_after_remove(
    s: Seq<AssetEntry>,
    asset: AssetId,
    amount: u64,
) -> Seq<AssetEntry> {
    let info = spec_basket_lookup(s, asset)->Some_0;
    if info.amount == amount {
        s.remove(crate::obligation::spec_basket_idx_of(s, asset))
    } else {
        spec_basket_upsert(s, asset, AssetInfo { amount: (info.amount - amount) as u64, ..info })
    }
}

/// Add collateral to a position against a lending pool.
///
/// The asset must be among the pool's supported collaterals; the entry takes
/// the configured collateral factor on first use and keeps its snapshot
/// afterwards. The health factor is recomputed when debt exists (with every
/// basket asset priced), and is otherwise maximal. The pool itself is
/// untouched; every failure leaves the obligation untouched.
#[verifier::rlimit(100)]
#[verifier::spinoff_prover]
pub fn process_add_collateral(
    pool: &Pool,
    obligation: &mut Obligation,
    collateral_asset: AssetId,
    amount: u64,
    prices: &PriceTable,
    now: u64,
    slot: u64,
) -> (r: Result<u64, StakeLendError>)
    requires
        spec_lending_pool_wf(*pool),
        old(obligation).baskets_wf(),
    ensures
        final(obligation).baskets_wf(),
        final(obligation).debt_assets@ == old(obligation).debt_assets@,
        r is Err ==> final(obligation).collateral_assets@ == old(obligation).collateral_assets@
            && final(obligation).health_factor == old(obligation).health_factor
            && final(obligation).health_status == old(obligation).health_status
            && final(obligation).last_updated_timestamp == old(obligation).last_updated_timestamp,
        ({
            let d = pool.data->Lending_0;
            let ps = prices.entries@;
            let cb = old(obligation).collateral_assets@;
            let db = old(obligation).debt_assets@;
            let factor_opt = spec_factor_lookup(d.supported_collaterals@, collateral_asset);
            let cinfo = spec_basket_lookup(cb, collateral_asset);
            let cb2 = spec_collateral_after_post(
                cb,
                collateral_asset,
                amount,
                factor_opt->Some_0,
                slot,
            );
            let health = spec_health_factor(cb2, db, ps);
            if factor_opt is None {
                r == Err::<u64, StakeLendError>(StakeLendError::UnsupportedCollateral)
            } else if cinfo is Some && cinfo->Some_0.amount + amount > u64::MAX {
                r == Err::<u64, StakeLendError>(StakeLendError::MathOverflow)
            } else if db.len() > 0 && !(spec_all_priced(cb2, ps) && spec_all_priced(db, ps)) {
                r == Err::<u64, StakeLendError>(StakeLendError::PriceNotFound)
            } else if db.len() > 0 && !spec_health_fits(cb2, db, ps) {
                r == Err::<u64, StakeLendError>(StakeLendError::MathOverflow)
            } else {
                &&& r == Ok::<u64, StakeLendError>(health as u64)
                &&& final(obligation).collateral_assets@ == cb2
                &&& final(obligation).health_factor == health
                &&& final(obligation).health_status == spec_health_status(health)
                &&& final(obligation).last_updated_timestamp == now
            }
        }),
{
    let ghost cb = obligation.collateral_assets@;
    let ghost db = obligation.debt_assets@;
    let factor = match &pool.data {
        PoolData::Lending(d) => match d.supported_collateral_factor(collateral_asset) {
            Some(f) => f,
            None => {
                return Err(StakeLendError::UnsupportedCollateral);
            },
        },
        _ => {
            return Err(StakeLendError::InvalidPoolType);
        },
    };
    let mut sim = Obligation {
        collateral_assets: copy_entries(&obligation.collateral_assets),
        debt_assets: copy_entries(&obligation.debt_assets),
        health_factor: obligation.health_factor,
        health_status: obligation.health_status,
        last_updated_timestamp: obligation.last_updated_timestamp,
    };
    proof {
        assert(sim.collateral_assets@ == cb);
        assert(sim.debt_assets@ == db);
    }
    match sim.add_collateral(collateral_asset, amount, factor, slot) {
        Ok(()) => {},
        Err(e) => {
            return Err(e);
        },
    }
    proof {
        let cinfo = spec_basket_lookup(cb, collateral_asset);
        if cinfo is Some {
            let info = cinfo->Some_0;
            let e1 = AssetEntry {
                asset: collateral_asset,
                info: AssetInfo { amount: (info.amount + amount) as u64, ..info },
            };
            let idxc = choose|idx: int|
                0 <= idx < cb.len() && (#[trigger] cb[idx]).asset == collateral_asset
                    && sim.collateral_assets@ == cb.update(idx, e1);
            lemma_basket_idx_of_unique(cb, collateral_asset, idxc);
        } else if amount != 0 {
            lemma_basket_idx_of_absent(cb, collateral_asset);
        }
        assert(sim.collateral_assets@ == spec_collateral_after_post(
            cb,
            collateral_asset,
            amount,
            factor,
            slot,
        ));
    }
    let health = if sim.has_debt() {
        match calculate_health_factor(&sim.collateral_assets, &sim.debt_assets, prices) {
            Ok(h) => h,
            Err(e) => {
                return Err(e);
            },
        }
    } else {
        u64::MAX
    };
    obligation.collateral_assets = sim.collateral_assets;
    obligation.health_factor = health;
    obligation.health_status = classify_health(health);
    obligation.last_updated_timestamp = now;
    Ok(health)
}

/// Remove collateral from a position against a lending pool, with
/// simulate-then-commit health gating.
///
/// Fails with `NoCollateralFound` when the asset is absent and
/// `InsufficientCollateral` when more than held is requested. When debt
/// exists, the post-removal position is simulated first and the removal is
/// rejected as `UnhealthyPosition` unless the simulated health factor stays
/// at or above `MIN_INITIAL_HEALTH_FACTOR`. An emptied entry is pruned. The
/// pool itself is untouched; every failure leaves the obligation untouched.
#[verifier::rlimit(100)]
#[verifier::spinoff_prover]
pub fn process_remove_collateral(
    pool: &Pool,
    obligation: &mut Obligation,
    collateral_asset: AssetId,
    amount: u64,
    prices: &PriceTable,
    now: u64,
) -> (r: Result<u64, StakeLendError>)
    requires
        spec_lending_pool_wf(*pool),
        old(obligation).baskets_wf(),
    ensures
        final(obligation).baskets_wf(),
        final(obligation).debt_assets@ == old(obligation).debt_assets@,
        r is Err ==> final(obligation).collateral_assets@ == old(obligation).collateral_assets@
            && final(obligation).health_factor == old(obligation).health_factor
            && final(obligation).health_status == old(obligation).health_status
            && final(obligation).last_updated_timestamp == old(obligation).last_updated_timestamp,
        ({
            let ps = prices.entries@;
            let cb = old(obligation).collateral_assets@;
            let db = old(obligation).debt_assets@;
            let cinfo = spec_basket_lookup(cb, collateral_asset);
            let cb2 = spec_collateral_after_remove(cb, collateral_asset, amount);
            let health = spec_health_factor(cb2, db, ps);
            if cinfo is None {
                r == Err::<u64, StakeLendError>(StakeLendError::NoCollateralFound)
            } else if amount > cinfo->Some_0.amount {
                r == Err::<u64, StakeLendError>(StakeLendError::InsufficientCollateral)
            } else if db.len() > 0 && !(spec_all_priced(cb2, ps) && spec_all_priced(db, ps)) {
                r == Err::<u64, StakeLendError>(StakeLendError::PriceNotFound)
            } else if db.len() > 0 && !spec_health_fits(cb2, db, ps) {
                r == Err::<u64, StakeLendError>(StakeLendError::MathOverflow)
            } else if db.len() > 0 && health < MIN_INITIAL_HEALTH_FACTOR {
                r == Err::<u64, StakeLendError>(StakeLendError::UnhealthyPosition)
            } else {
                &&& r == Ok::<u64, StakeLendError>(health as u64)
                &&& final(obligation).collateral_assets@ == cb2
                &&& final(obligation).health_factor == health
                &&& final(obligation).health_status == spec_health_status(health)
                &&& final(obligation).last_updated_timestamp == now
            }
        }),
{
    let ghost cb = obligation.collateral_assets@;
    let ghost db = obligation.debt_assets@;
    match &pool.data {
        PoolData::Lending(_) => {},
        _ => {
            return Err(StakeLendError::InvalidPoolType);
        },
    }
    let mut sim = Obligation {
        collateral_assets: copy_entries(&obligation.collateral_assets),
        debt_assets: copy_entries(&obligation.debt_assets),
        health_factor: obligation.health_factor,
        health_status: obligation.health_status,
        last_updated_timestamp: obligation.last_updated_timestamp,
    };
    proof {
        assert(sim.collateral_assets@ == cb);
        assert(sim.debt_assets@ == db);
    }
    match sim.remove_collateral(collateral_asset, amount) {
        Ok(()) => {},
        Err(e) => {
            return Err(e);
        },
    }
    proof {
        let cinfo = spec_basket_lookup(cb, collateral_asset);
        let info = cinfo->Some_0;
        if info.amount == amount {
            let idxc = choose|idx: int|
                0 <= idx < cb.len() && (#[trigger] cb[idx]).asset == collateral_asset
                    && sim.collateral_assets@ == cb.remove(idx);
            lemma_basket_idx_of_unique(cb, collateral_asset, idxc);
        } else {
            let e1 = AssetEntry {
                asset: collateral_asset,
                info: AssetInfo { amount: (info.amount - amount) as u64, ..info },
            };
            let idxc = choose|idx: int|
                0 <= idx < cb.len() && (#[trigger] cb[idx]).asset == collateral_asset
                    && sim.collateral_assets@ == cb.update(idx, e1);
            lemma_basket_idx_of_unique(cb, collateral_asset, idxc);
        }
        assert(sim.collateral_assets@ == spec_collateral_after_remove(
            cb,
            collateral_asset,
            amount,
        ));
    }
    let health = if sim.has_debt() {
        let h = match calculate_health_factor(&sim.collateral_assets, &sim.debt_assets, prices) {
            Ok(h) => h,
            Err(e) => {
                return Err(e);
            },
        };
        if h < MIN_INITIAL_HEALTH_FACTOR {
            return Err(StakeLendError::UnhealthyPosition);
        }
        h
    } else {
        u64::MAX
    };
    obligation.collateral_assets = sim.collateral_assets;
    obligation.health_factor = health;
    obligation.health_status = classify_health(health);
    obligation.last_updated_timestamp = now;
    Ok(health)
}

} // verus!
