//! Health-factor computation over heterogeneous collateral and debt baskets:
//! discounted collateral value, full debt value, the resulting health factor,
//! and its classification.
use vstd::prelude::*;

use crate::errors::StakeLendError;
use crate::oracle::{AssetId, PriceTable, spec_lookup};

verus! {

/// Health factor at or above this is a healthy position (percentage scale).
pub const HEALTHY_FACTOR_THRESHOLD: u64 = 120;

/// Health factor below this makes a position liquidatable (percentage scale).
pub const LIQUIDATION_THRESHOLD: u64 = 105;

/// Minimum simulated health factor for admitting a new borrow or a
/// collateral removal (percentage scale).
pub const MIN_INITIAL_HEALTH_FACTOR: u64 = 150;

/// Per-asset position data inside an obligation's baskets.
#[derive(Clone, Copy, Debug, PartialEq, Eq, Structural)]
pub struct AssetInfo {
    /// Amount held (collateral) or owed as principal (debt).
    pub amount: u64,
    /// Collateral factor snapshot in basis points (collateral entries only).
    pub collateral_factor: u16,
    /// Pool interest index at the last touch (debt entries only).
    pub interest_index: u128,
    /// Slot of the last update.
    pub last_updated_slot: u64,
}

/// One basket entry: an asset identifier with its position data.
#[derive(Clone, Copy, Debug, PartialEq, Eq, Structural)]
pub struct AssetEntry {
    /// The asset held or owed.
    pub asset: AssetId,
    /// Position data for that asset.
    pub info: AssetInfo,
}

/// Classification of a position's health.
#[derive(Clone, Copy, Debug, PartialEq, Eq, Structural)]
pub enum HealthStatus {
    Healthy,
    Warning,
    Liquidatable,
}

/// Every asset in the basket has a price in the table.
pub open spec fn spec_all_priced(s: Seq<AssetEntry>, prices: Seq<(AssetId, u64)>) -> bool {
    forall|i: int| 0 <= i < s.len() ==> spec_lookup(prices, (#[trigger] s[i]).asset) is Some
}

/// The price an asset carries in the table (meaningful only when priced).
pub open spec fn spec_price_of(prices: Seq<(AssetId, u64)>, asset: AssetId) -> int {
    spec_lookup(prices, asset)->Some_0 as int
}

/// Discounted value of one collateral entry:
/// `amount * price * collateral_factor / 10000`.
pub open spec fn spec_entry_collateral_value(e: AssetEntry, prices: Seq<(AssetId, u64)>) -> int {
    e.info.amount * spec_price_of(prices, e.asset) * e.info.collateral_factor / 10000
}

/// Total discounted collateral value of a basket.
pub open spec fn spec_collateral_value(s: Seq<AssetEntry>, prices: Seq<(AssetId, u64)>) -> int
    decreases s.len(),
{
    if s.len() == 0 {
        0
    } else {
        spec_collateral_value(s.drop_last(), prices) + spec_entry_collateral_value(
            s.last(),
            prices,
        )
    }
}

/// Undiscounted value of one debt entry: `amount * price`.
pub open spec fn spec_entry_debt_value(e: AssetEntry, prices: Seq<(AssetId, u64)>) -> int {
    e.info.amount * spec_price_of(prices, e.asset)
}

/// Total debt value of a basket; the full liability is counted.
pub open spec fn spec_debt_value(s: Seq<AssetEntry>, prices: Seq<(AssetId, u64)>) -> int
    decreases s.len(),
{
    if s.len() == 0 {
        0
    } else {
        spec_debt_value(s.drop_last(), prices) + spec_entry_debt_value(s.last(), prices)
    }
}

/// The collateral valuation stays within `u64` at every step, as the checked
/// arithmetic demands: each entry's products fit, and every partial sum fits.
pub open spec fn spec_collateral_fits(s: Seq<AssetEntry>, prices: Seq<(AssetId, u64)>) -> bool
    decreases s.len(),
{
    if s.len() == 0 {
        true
    } else {
        let e = s.last();
        &&& spec_collateral_fits(s.drop_last(), prices)
        &&& e.info.amount * spec_price_of(prices, e.asset) <= u64::MAX
        &&& e.info.amount * spec_price_of(prices, e.asset) * e.info.collateral_factor <= u64::MAX
        &&& spec_collateral_value(s, prices) <= u64::MAX
    }
}

/// The debt valuation stays within `u64` at every step.
pub open spec fn spec_debt_fits(s: Seq<AssetEntry>, prices: Seq<(AssetId, u64)>) -> bool
    decreases s.len(),
{
    if s.len() == 0 {
        true
    } else {
        let e = s.last();
        &&& spec_debt_fits(s.drop_last(), prices)
        &&& e.info.amount * spec_price_of(prices, e.asset) <= u64::MAX
        &&& spec_debt_value(s, prices) <= u64::MAX
    }
}

/// The whole health computation stays within `u64`.
pub open spec fn spec_health_fits(
    collateral: Seq<AssetEntry>,
    debts: Seq<AssetEntry>,
    prices: Seq<(AssetId, u64)>,
) -> bool {
    &&& spec_collateral_fits(collateral, prices)
    &&& spec_debt_fits(debts, prices)
    &&& (spec_debt_value(debts, prices) != 0 ==> spec_collateral_value(collateral, prices) * 100
        <= u64::MAX)
}

/// The health factor on the percentage scale: discounted collateral value
/// times 100 over debt value, or the maximum representable value when there
/// is no debt.
pub open spec fn spec_health_factor(
    collateral: Seq<AssetEntry>,
    debts: Seq<AssetEntry>,
    prices: Seq<(AssetId, u64)>,
) -> int {
    let dv = spec_debt_value(debts, prices);
    if dv == 0 {
        u64::MAX as int
    } else {
        spec_collateral_value(collateral, prices) * 100 / dv
    }
}

/// Classification of a health factor against the protocol thresholds.
pub open spec fn spec_health_status(health_factor: int) -> HealthStatus {
    if health_factor >= HEALTHY_FACTOR_THRESHOLD {
        HealthStatus::Healthy
    } else if health_factor >= LIQUIDATION_THRESHOLD {
        HealthStatus::Warning
    } else {
        HealthStatus::Liquidatable
    }
}

/// An entry's discounted collateral value is never negative.
proof fn lemma_entry_collateral_value_nonneg(e: AssetEntry, prices: Seq<(AssetId, u64)>)
    ensures
        spec_entry_collateral_value(e, prices) >= 0,
{
    let p = spec_price_of(prices, e.asset);
    assert(e.info.amount * p * e.info.collateral_factor >= 0) by (nonlinear_arith)
        requires e.info.amount >= 0 && p >= 0 && e.info.collateral_factor >= 0;
    vstd::arithmetic::div_mod::lemma_div_pos_is_pos(
        e.info.amount * p * e.info.collateral_factor,
        10000,
    );
}

/// A basket's discounted collateral value is never negative.
pub proof fn lemma_collateral_value_nonneg(s: Seq<AssetEntry>, prices: Seq<(AssetId, u64)>)
    ensures
        spec_collateral_value(s, prices) >= 0,
    decreases s.len(),
{
    if s.len() > 0 {
        lemma_collateral_value_nonneg(s.drop_last(), prices);
        lemma_entry_collateral_value_nonneg(s.last(), prices);
    }
}

/// A basket's debt value is never negative.
pub proof fn lemma_debt_value_nonneg(s: Seq<AssetEntry>, prices: Seq<(AssetId, u64)>)
    ensures
        spec_debt_value(s, prices) >= 0,
    decreases s.len(),
{
    if s.len() > 0 {
        lemma_debt_value_nonneg(s.drop_last(), prices);
        let e = s.last();
        let p = spec_price_of(prices, e.asset);
        assert(e.info.amount * p >= 0) by (nonlinear_arith)
            requires e.info.amount >= 0 && p >= 0;
    }
}

/// If a whole collateral basket fits, so does every prefix of it.
proof fn lemma_collateral_fits_prefix(s: Seq<AssetEntry>, prices: Seq<(AssetId, u64)>, j: int)
    requires
        spec_collateral_fits(s, prices),
        0 <= j <= s.len(),
    ensures
        spec_collateral_fits(s.take(j), prices),
    decreases s.len(),
{
    if j == s.len() {
        assert(s.take(j) =~= s);
    } else {
        assert(s.drop_last().take(j) =~= s.take(j));
        lemma_collateral_fits_prefix(s.drop_last(), prices, j);
    }
}

/// If a whole debt basket fits, so does every prefix of it.
proof fn lemma_debt_fits_prefix(s: Seq<AssetEntry>, prices: Seq<(AssetId, u64)>, j: int)
    requires
        spec_debt_fits(s, prices),
        0 <= j <= s.len(),
    ensures
        spec_debt_fits(s.take(j), prices),
    decreases s.len(),
{
    if j == s.len() {
        assert(s.take(j) =~= s);
    } else {
        assert(s.drop_last().take(j) =~= s.take(j));
        lemma_debt_fits_prefix(s.drop_last(), prices, j);
    }
}

/// Total discounted collateral value of a basket, summed with checked
/// arithmetic.
///
/// Requires every asset to be priced; any intermediate overflow fails with
/// `MathOverflow`, and success returns exactly the basket's summed value.
fn sum_collateral_value(collateral: &Vec<AssetEntry>, prices: &PriceTable) -> (r: Result<
    u64,
    StakeLendError,
>)
    requires
        spec_all_priced(collateral@, prices.entries@),
    ensures
        spec_collateral_fits(collateral@, prices.entries@) ==> r == Ok::<u64, StakeLendError>(
            spec_collateral_value(collateral@, prices.entries@) as u64,
        ),
        !spec_collateral_fits(collateral@, prices.entries@) ==> r == Err::<u64, StakeLendError>(
            StakeLendError::MathOverflow,
        ),
{
    let ghost s = collateral@;
    let ghost ps = prices.entries@;
    let mut acc: u64 = 0;
    let mut i: usize = 0;
    proof {
        assert(s.take(0) =~= Seq::<AssetEntry>::empty());
    }
    while i < collateral.len()
        invariant
            0 <= i <= s.len(),
            collateral@ == s,
            prices.entries@ == ps,
            spec_all_priced(s, ps),
            spec_collateral_fits(s.take(i as int), ps),
            acc == spec_collateral_value(s.take(i as int), ps),
        decreases s.len() - i,
    {
        let entry = collateral[i];
        proof {
            assert(s.take(i as int + 1).last() == s[i as int]);
            assert(s.take(i as int + 1).drop_last() =~= s.take(i as int));
        }
        let price = match prices.get(entry.asset) {
            Some(p) => p,
            None => {
                proof {
                    assert(spec_lookup(ps, s[i as int].asset) is Some);
                }
                return Err(StakeLendError::MathOverflow);
            },
        };
        let scaled = match entry.amount_times(price) {
            Some(v) => v,
            None => {
                proof {
                    if spec_collateral_fits(s, ps) {
                        lemma_collateral_fits_prefix(s, ps, i as int + 1);
                    }
                }
                return Err(StakeLendError::MathOverflow);
            },
        };
        let discounted = match scaled.checked_mul(entry.info.collateral_factor as u64) {
            Some(v) => v,
            None => {
                proof {
                    if spec_collateral_fits(s, ps) {
                        lemma_collateral_fits_prefix(s, ps, i as int + 1);
                    }
                }
                return Err(StakeLendError::MathOverflow);
            },
        };
        let value = discounted / 10000;
        acc = match acc.checked_add(value) {
            Some(v) => v,
            None => {
                proof {
                    if spec_collateral_fits(s, ps) {
                        lemma_collateral_fits_prefix(s, ps, i as int + 1);
                    }
                }
                return Err(StakeLendError::MathOverflow);
            },
        };
        i = i + 1;
    }
    proof {
        assert(s.take(s.len() as int) =~= s);
    }
    Ok(acc)
}

/// Total debt value of a basket, summed with checked arithmetic.
fn sum_debt_value(debts: &Vec<AssetEntry>, prices: &PriceTable) -> (r: Result<
    u64,
    StakeLendError,
>)
    requires
        spec_all_priced(debts@, prices.entries@),
    ensures
        spec_debt_fits(debts@, prices.entries@) ==> r == Ok::<u64, StakeLendError>(
            spec_debt_value(debts@, prices.entries@) as u64,
        ),
        !spec_debt_fits(debts@, prices.entries@) ==> r == Err::<u64, StakeLendError>(
            StakeLendError::MathOverflow,
        ),
{
    let ghost s = debts@;
    let ghost ps = prices.entries@;
    let mut acc: u64 = 0;
    let mut i: usize = 0;
    proof {
        assert(s.take(0) =~= Seq::<AssetEntry>::empty());
    }
    while i < debts.len()
        invariant
            0 <= i <= s.len(),
            debts@ == s,
            prices.entries@ == ps,
            spec_all_priced(s, ps),
            spec_debt_fits(s.take(i as int), ps),
            acc == spec_debt_value(s.take(i as int), ps),
        decreases s.len() - i,
    {
        let entry = debts[i];
        proof {
            assert(s.take(i as int + 1).last() == s[i as int]);
            assert(s.take(i as int + 1).drop_last() =~= s.take(i as int));
        }
        let price = match prices.get(entry.asset) {
            Some(p) => p,
            None => {
                proof {
                    assert(spec_lookup(ps, s[i as int].asset) is Some);
                }
                return Err(StakeLendError::MathOverflow);
            },
        };
        let value = match entry.amount_times(price) {
            Some(v) => v,
            None => {
                proof {
                    if spec_debt_fits(s, ps) {
                        lemma_debt_fits_prefix(s, ps, i as int + 1);
                    }
                }
                return Err(StakeLendError::MathOverflow);
            },
        };
        acc = match acc.checked_add(value) {
            Some(v) => v,
            None => {
                proof {
                    if spec_debt_fits(s, ps) {
                        lemma_debt_fits_prefix(s, ps, i as int + 1);
                    }
                }
                return Err(StakeLendError::MathOverflow);
            },
        };
        i = i + 1;
    }
    proof {
        assert(s.take(s.len() as int) =~= s);
    }
    Ok(acc)
}

impl AssetEntry {
    /// The entry's amount multiplied by a price, checked.
    fn amount_times(&self, price: u64) -> (r: Option<u64>)
        ensures
            r == (if self.info.amount * price <= u64::MAX {
                Some((self.info.amount * price) as u64)
            } else {
                None::<u64>
            }),
    {
        self.info.amount.checked_mul(price)
    }
}

/// Check that every asset in a basket is priced; report the first gap.
fn check_all_priced(basket: &Vec<AssetEntry>, prices: &PriceTable) -> (r: bool)
    ensures
        r == spec_all_priced(basket@, prices.entries@),
{
    let ghost s = basket@;
    let mut i: usize = 0;
    while i < basket.len()
        invariant
            0 <= i <= s.len(),
            basket@ == s,
            forall|j: int| 0 <= j < i ==> spec_lookup(prices.entries@, (#[trigger] s[j]).asset)
                is Some,
        decreases s.len() - i,
    {
        if prices.get(basket[i].asset).is_none() {
            return false;
        }
        i = i + 1;
    }
    true
}

/// Compute the health factor of a position from its baskets and fresh prices.
///
/// A missing price for any asset held in either basket is a hard failure:
/// `PriceNotFound`, no partial result. Overflow anywhere in the valuation is
/// `MathOverflow`. With no debt the position is maximally healthy
/// (`u64::MAX`); otherwise the factor is `collateral_value * 100 / debt_value`
/// on the percentage scale, where collateral is discounted by each entry's
/// collateral factor and debt is counted in full.
pub fn calculate_health_factor(
    collateral_assets: &Vec<AssetEntry>,
    debt_assets: &Vec<AssetEntry>,
    prices: &PriceTable,
) -> (r: Result<u64, StakeLendError>)
    ensures
        !(spec_all_priced(collateral_assets@, prices.entries@) && spec_all_priced(
            debt_assets@,
            prices.entries@,
        )) ==> r == Err::<u64, StakeLendError>(StakeLendError::PriceNotFound),
        spec_all_priced(collateral_assets@, prices.entries@) && spec_all_priced(
            debt_assets@,
            prices.entries@,
        ) && !spec_health_fits(collateral_assets@, debt_assets@, prices.entries@) ==> r == Err::<
            u64,
            StakeLendError,
        >(StakeLendError::MathOverflow),
        spec_all_priced(collateral_assets@, prices.entries@) && spec_all_priced(
            debt_assets@,
            prices.entries@,
        ) && spec_health_fits(collateral_assets@, debt_assets@, prices.entries@) ==> r is Ok
            && r->Ok_0 == spec_health_factor(collateral_assets@, debt_assets@, prices.entries@),
{
    if !check_all_priced(collateral_assets, prices) {
        return Err(StakeLendError::PriceNotFound);
    }
    if !check_all_priced(debt_assets, prices) {
        return Err(StakeLendError::PriceNotFound);
    }
    let total_collateral_value = match sum_collateral_value(collateral_assets, prices) {
        Ok(v) => v,
        Err(e) => {
            return Err(e);
        },
    };
    let total_debt_value = match sum_debt_value(debt_assets, prices) {
        Ok(v) => v,
        Err(e) => {
            return Err(e);
        },
    };
    proof {
        lemma_collateral_value_nonneg(collateral_assets@, prices.entries@);
        lemma_debt_value_nonneg(debt_assets@, prices.entries@);
    }
    if total_debt_value == 0 {
        return Ok(u64::MAX);
    }
    match total_collateral_value.checked_mul(100) {
        Some(scaled) => {
            proof {
                vstd::arithmetic::div_mod::lemma_div_nonincreasing(
                    scaled as int,
                    total_debt_value as int,
                );
                vstd::arithmetic::div_mod::lemma_div_pos_is_pos(
                    scaled as int,
                    total_debt_value as int,
                );
            }
            Ok(scaled / total_debt_value)
        },
        None => Err(StakeLendError::MathOverflow),
    }
}

/// Classify a health factor against the protocol thresholds.
pub fn classify_health(health_factor: u64) -> (r: HealthStatus)
    ensures
        r == spec_health_status(health_factor as int),
{
    if health_factor >= HEALTHY_FACTOR_THRESHOLD {
        HealthStatus::Healthy
    } else if health_factor >= LIQUIDATION_THRESHOLD {
        HealthStatus::Warning
    } else {
        HealthStatus::Liquidatable
    }
}

/// Admission control for new positions: the health factor a candidate
/// position would have, from already-summed collateral and borrow values.
///
/// Rejects with `InsufficientCollateral` any position whose factor would fall
/// below `MIN_INITIAL_HEALTH_FACTOR`; a position without debt always passes
/// with the maximum factor.
pub fn validate_position_health(collateral_value: u64, borrow_value: u64) -> (r: Result<
    u64,
    StakeLendError,
>)
    ensures
        borrow_value == 0 ==> r == Ok::<u64, StakeLendError>(u64::MAX),
        borrow_value != 0 && collateral_value * 100 > u64::MAX ==> r == Err::<u64, StakeLendError>(
            StakeLendError::MathOverflow,
        ),
        borrow_value != 0 && collateral_value * 100 <= u64::MAX && collateral_value * 100 / (
        borrow_value as int) < MIN_INITIAL_HEALTH_FACTOR ==> r == Err::<u64, StakeLendError>(
            StakeLendError::InsufficientCollateral,
        ),
        borrow_value != 0 && collateral_value * 100 <= u64::MAX && collateral_value * 100 / (
        borrow_value as int) >= MIN_INITIAL_HEALTH_FACTOR ==> r == Ok::<u64, StakeLendError>(
            (collateral_value * 100 / (borrow_value as int)) as u64,
        ),
{
    if borrow_value == 0 {
        return Ok(u64::MAX);
    }
    let health_factor = match collateral_value.checked_mul(100) {
        Some(scaled) => scaled / borrow_value,
        None => {
            return Err(StakeLendError::MathOverflow);
        },
    };
    if health_factor < MIN_INITIAL_HEALTH_FACTOR {
        return Err(StakeLendError::InsufficientCollateral);
    }
    Ok(health_factor)
}


/// A pool-level safety margin under stress: stressed collateral value times
/// 100 over the borrowed value, maximal when nothing is borrowed.
pub fn stress_safety_margin(stressed_collateral_value: u64, total_borrows_value: u64) -> (r:
    Result<u64, StakeLendError>)
    ensures
        total_borrows_value == 0 ==> r == Ok::<u64, StakeLendError>(u64::MAX),
        total_borrows_value != 0 && stressed_collateral_value * 100 > u64::MAX ==> r == Err::<
            u64,
            StakeLendError,
        >(StakeLendError::MathOverflow),
        total_borrows_value != 0 && stressed_collateral_value * 100 <= u64::MAX ==> r == Ok::<
            u64,
            StakeLendError,
        >((stressed_collateral_value * 100 / (total_borrows_value as int)) as u64),
{
    if total_borrows_value == 0 {
        return Ok(u64::MAX);
    }
    match stressed_collateral_value.checked_mul(100) {
        Some(scaled) => Ok(scaled / total_borrows_value),
        None => Err(StakeLendError::MathOverflow),
    }
}

} // verus!
