use stake_lend::errors::StakeLendError;
use stake_lend::health::{
    HealthStatus, calculate_health_factor, classify_health, validate_position_health,
};
use stake_lend::interest::INDEX_SCALE;
use stake_lend::lending::{
    process_add_collateral, process_borrow, process_remove_collateral, process_repay,
};
use stake_lend::liquidation::{
    calculate_bonus_amount, calculate_liquidation_amount, evaluate_user_health,
    process_liquidate_borrower,
};
use stake_lend::obligation::Obligation;
use stake_lend::oracle::PriceTable;
use stake_lend::pool::{
    accrue_interest, process_deposit_to_pool, process_withdraw_from_pool, update_pool_state,
};
use stake_lend::rates::InterestRateParams;
use stake_lend::state::{Pool, PoolData};

const COLLATERAL: u64 = 1;
const DEBT: u64 = 2;

fn standard_params() -> InterestRateParams {
    InterestRateParams {
        base_rate: 200,
        optimal_rate: 1000,
        max_rate: 3000,
        optimal_utilization: 8000,
    }
}

fn lending_pool() -> Pool {
    let mut pool = Pool::new_lending(
        DEBT,
        0,     // min deposit
        0,     // no deposit cap
        0,     // deposit fee
        0,     // withdrawal fee
        standard_params(),
        500,   // reserve factor
        8500,  // liquidation threshold (bps config)
        500,   // liquidation bonus
        10000, // max LTV
        0,     // created at t=0
    )
    .unwrap();
    match &mut pool.data {
        PoolData::Lending(d) => d.set_supported_collateral(COLLATERAL, 8000).unwrap(),
        _ => unreachable!(),
    }
    pool
}

fn pool_borrows(pool: &Pool) -> u64 {
    match &pool.data {
        PoolData::Lending(d) => d.total_borrows,
        _ => unreachable!(),
    }
}

fn pool_index(pool: &Pool) -> u128 {
    match &pool.data {
        PoolData::Lending(d) => d.accumulated_interest_index,
        _ => unreachable!(),
    }
}

fn prices_at(collateral_price: u64, debt_price: u64) -> PriceTable {
    let mut prices = PriceTable::new();
    prices.set_price(COLLATERAL, collateral_price);
    prices.set_price(DEBT, debt_price);
    prices
}

#[test]
fn health_factor_discounts_collateral_and_counts_full_debt() {
    // 1000 collateral at price 1 with an 8000bps factor against 500 debt at
    // price 1: collateral value 800, debt value 500, health 160, Healthy.
    let mut ob = Obligation::new(0);
    ob.add_collateral(COLLATERAL, 1000, 8000, 0).unwrap();
    ob.increase_debt(DEBT, 500, INDEX_SCALE, 0).unwrap();
    let prices = prices_at(1, 1);
    let health = calculate_health_factor(&ob.collateral_assets, &ob.debt_assets, &prices).unwrap();
    assert_eq!(health, 160);
    assert_eq!(classify_health(health), HealthStatus::Healthy);
    // 200 more debt: 800*100/700 = 114, Warning.
    ob.increase_debt(DEBT, 200, INDEX_SCALE, 0).unwrap();
    let health =
        calculate_health_factor(&ob.collateral_assets, &ob.debt_assets, &prices).unwrap();
    assert_eq!(health, 114);
    assert_eq!(classify_health(health), HealthStatus::Warning);
}

#[test]
fn health_factor_is_maximal_without_debt() {
    let mut ob = Obligation::new(0);
    ob.add_collateral(COLLATERAL, 10, 8000, 0).unwrap();
    let prices = prices_at(1, 1);
    let health = calculate_health_factor(&ob.collateral_assets, &ob.debt_assets, &prices).unwrap();
    assert_eq!(health, u64::MAX);
}

#[test]
fn missing_debt_price_fails_whole_health_computation() {
    // Collateral is priced but one debt asset is not: hard failure, no
    // partial health factor.
    let mut ob = Obligation::new(0);
    ob.add_collateral(COLLATERAL, 1000, 8000, 0).unwrap();
    ob.increase_debt(DEBT, 500, INDEX_SCALE, 0).unwrap();
    let mut prices = PriceTable::new();
    prices.set_price(COLLATERAL, 1);
    assert_eq!(
        calculate_health_factor(&ob.collateral_assets, &ob.debt_assets, &prices),
        Err(StakeLendError::PriceNotFound)
    );
    let mut ob2 = Obligation::new(0);
    ob2.add_collateral(COLLATERAL, 1000, 8000, 0).unwrap();
    ob2.increase_debt(DEBT, 500, INDEX_SCALE, 0).unwrap();
    assert_eq!(
        evaluate_user_health(&mut ob2, &prices, 5),
        Err(StakeLendError::PriceNotFound)
    );
}

#[test]
fn stored_health_matches_fresh_recomputation() {
    let mut ob = Obligation::new(0);
    ob.add_collateral(COLLATERAL, 1000, 8000, 0).unwrap();
    ob.increase_debt(DEBT, 500, INDEX_SCALE, 0).unwrap();
    let prices = prices_at(1, 1);
    let stored = evaluate_user_health(&mut ob, &prices, 7).unwrap();
    assert_eq!(ob.health_factor, stored);
    let recomputed =
        calculate_health_factor(&ob.collateral_assets, &ob.debt_assets, &prices).unwrap();
    assert_eq!(ob.health_factor, recomputed);
    assert_eq!(ob.health_status, classify_health(recomputed));
}

#[test]
fn admission_control_rejects_below_minimum() {
    assert_eq!(validate_position_health(150, 100), Ok(150));
    assert_eq!(
        validate_position_health(149, 100),
        Err(StakeLendError::InsufficientCollateral)
    );
    assert_eq!(validate_position_health(0, 0), Ok(u64::MAX));
}

#[test]
fn deposit_mints_shares_and_keeps_borrows_covered() {
    let mut pool = lending_pool();
    let receipt = process_deposit_to_pool(&mut pool, 1000, 1).unwrap();
    assert_eq!(receipt.shares_minted, 1000);
    assert_eq!(receipt.fee_amount, 0);
    assert_eq!(pool.total_deposits, 1000);
    assert!(pool_borrows(&pool) <= pool.total_deposits);
}

#[test]
fn deposit_respects_limits() {
    let mut pool = lending_pool();
    pool.min_deposit = 10;
    pool.max_deposit = 100;
    assert_eq!(
        process_deposit_to_pool(&mut pool, 5, 1),
        Err(StakeLendError::InvalidDepositAmount)
    );
    assert_eq!(
        process_deposit_to_pool(&mut pool, 101, 1),
        Err(StakeLendError::InvalidDepositAmount)
    );
}

#[test]
fn withdraw_redeems_at_ratio_and_checks_liquidity() {
    let mut pool = lending_pool();
    process_deposit_to_pool(&mut pool, 1000, 1).unwrap();
    let receipt = process_withdraw_from_pool(&mut pool, 400, 2).unwrap();
    assert_eq!(receipt.gross_tokens, 400);
    assert_eq!(receipt.net_tokens, 400);
    assert_eq!(pool.total_deposits, 600);
    assert_eq!(
        process_withdraw_from_pool(&mut pool, 601, 3),
        Err(StakeLendError::InvalidWithdrawalAmount)
    );
    assert!(pool_borrows(&pool) <= pool.total_deposits);
}

#[test]
fn one_unit_round_trips_never_profit() {
    // Repeatedly depositing one unit and withdrawing the minted shares
    // yields no more than a single deposit and withdrawal would.
    let mut pool = lending_pool();
    process_deposit_to_pool(&mut pool, 1000, 1).unwrap();
    for t in 0..10u64 {
        let receipt = process_deposit_to_pool(&mut pool, 1, 2 + t).unwrap();
        let back = process_withdraw_from_pool(&mut pool, receipt.shares_minted, 2 + t).unwrap();
        assert!(back.net_tokens <= 1);
    }
    assert!(pool.total_deposits >= 1000);
}

#[test]
fn accrual_is_idempotent_at_one_instant() {
    let mut pool = lending_pool();
    process_deposit_to_pool(&mut pool, 1000, 1).unwrap();
    accrue_interest(&mut pool, 1000).unwrap();
    let index_after_first = pool_index(&pool);
    accrue_interest(&mut pool, 1000).unwrap();
    assert_eq!(pool_index(&pool), index_after_first);
}

#[test]
fn index_never_decreases_across_operations() {
    let mut pool = lending_pool();
    let prices = prices_at(1, 1);
    let mut ob = Obligation::new(0);
    let mut last_index = pool_index(&pool);
    process_deposit_to_pool(&mut pool, 10_000, 100).unwrap();
    assert!(pool_index(&pool) >= last_index);
    last_index = pool_index(&pool);
    process_add_collateral(&pool, &mut ob, COLLATERAL, 2000, &prices, 100, 0).unwrap();
    process_borrow(&mut pool, &mut ob, DEBT, COLLATERAL, 500, &prices, 200_000, 0).unwrap();
    assert!(pool_index(&pool) >= last_index);
    last_index = pool_index(&pool);
    process_repay(&mut pool, &mut ob, DEBT, u64::MAX, &prices, 400_000).unwrap();
    assert!(pool_index(&pool) >= last_index);
    assert!(pool_borrows(&pool) <= pool.total_deposits);
}

#[test]
fn borrow_pins_admission_boundary() {
    // With collateral 1000 (price 1, factor 8000) posted and max LTV 100%,
    // a borrow of A pulls A more collateral; the simulated factor is
    // (1000+A)*8000/10000*100/A, which crosses 150 between 1142 and 1143.
    let prices = prices_at(1, 1);
    let mut pool = lending_pool();
    process_deposit_to_pool(&mut pool, 100_000, 1).unwrap();

    let mut ob = Obligation::new(0);
    process_add_collateral(&pool, &mut ob, COLLATERAL, 1000, &prices, 1, 0).unwrap();
    let receipt =
        process_borrow(&mut pool, &mut ob, DEBT, COLLATERAL, 1142, &prices, 1, 0).unwrap();
    assert_eq!(receipt.health_factor, 150);
    assert_eq!(ob.health_factor, 150);

    let mut ob2 = Obligation::new(0);
    process_add_collateral(&pool, &mut ob2, COLLATERAL, 1000, &prices, 1, 0).unwrap();
    assert_eq!(
        process_borrow(&mut pool, &mut ob2, DEBT, COLLATERAL, 1143, &prices, 1, 0),
        Err(StakeLendError::InsufficientCollateral)
    );
}

#[test]
fn borrow_requires_liquidity_and_supported_collateral() {
    let prices = prices_at(1, 1);
    let mut pool = lending_pool();
    process_deposit_to_pool(&mut pool, 100, 1).unwrap();
    let mut ob = Obligation::new(0);
    assert_eq!(
        process_borrow(&mut pool, &mut ob, DEBT, COLLATERAL, 101, &prices, 1, 0),
        Err(StakeLendError::InsufficientLiquidity)
    );
    assert_eq!(
        process_borrow(&mut pool, &mut ob, DEBT, 99, 50, &prices, 1, 0),
        Err(StakeLendError::UnsupportedCollateral)
    );
    let mut no_price = PriceTable::new();
    no_price.set_price(DEBT, 1);
    assert_eq!(
        process_borrow(&mut pool, &mut ob, DEBT, COLLATERAL, 50, &no_price, 1, 0),
        Err(StakeLendError::PriceNotFound)
    );
    let zero_price = {
        let mut t = PriceTable::new();
        t.set_price(COLLATERAL, 0);
        t.set_price(DEBT, 1);
        t
    };
    assert_eq!(
        process_borrow(&mut pool, &mut ob, DEBT, COLLATERAL, 50, &zero_price, 1, 0),
        Err(StakeLendError::InvalidOraclePrice)
    );
}

#[test]
fn repay_caps_at_owed_and_prunes_entry() {
    let prices = prices_at(1, 1);
    let mut pool = lending_pool();
    process_deposit_to_pool(&mut pool, 100_000, 1).unwrap();
    let mut ob = Obligation::new(0);
    process_add_collateral(&pool, &mut ob, COLLATERAL, 2000, &prices, 1, 0).unwrap();
    process_borrow(&mut pool, &mut ob, DEBT, COLLATERAL, 1000, &prices, 1, 0).unwrap();
    let borrows_before = pool_borrows(&pool);
    // Ask to repay far more than owed at the same instant: only the owed
    // 1000 is taken, the entry is pruned, and health is maximal again.
    let receipt = process_repay(&mut pool, &mut ob, DEBT, 50_000, &prices, 1).unwrap();
    assert_eq!(receipt.repaid_amount, 1000);
    assert_eq!(receipt.interest_accrued, 0);
    assert_eq!(ob.debt_assets.len(), 0);
    assert_eq!(ob.health_factor, u64::MAX);
    assert_eq!(pool_borrows(&pool), borrows_before - 1000);
    assert!(pool_borrows(&pool) <= pool.total_deposits);
    // Repaying with no debt left reports the missing entry.
    assert_eq!(
        process_repay(&mut pool, &mut ob, DEBT, 10, &prices, 2),
        Err(StakeLendError::NoDebtFound)
    );
}

#[test]
fn repay_applies_exactly_the_requested_amount() {
    // The repayment applied is min(requested, owed): a request of 0 pulls
    // nothing from the payer, and a partial request leaves the rest owed.
    let prices = prices_at(1, 1);
    let mut pool = lending_pool();
    process_deposit_to_pool(&mut pool, 100_000, 1).unwrap();
    let mut ob = Obligation::new(0);
    process_add_collateral(&pool, &mut ob, COLLATERAL, 2000, &prices, 1, 0).unwrap();
    process_borrow(&mut pool, &mut ob, DEBT, COLLATERAL, 500, &prices, 1, 0).unwrap();
    let borrows_before = pool_borrows(&pool);

    let receipt = process_repay(&mut pool, &mut ob, DEBT, 0, &prices, 1).unwrap();
    assert_eq!(receipt.repaid_amount, 0);
    assert_eq!(pool_borrows(&pool), borrows_before);
    assert_eq!(ob.debt_assets.len(), 1);

    let receipt = process_repay(&mut pool, &mut ob, DEBT, 200, &prices, 1).unwrap();
    assert_eq!(receipt.repaid_amount, 200);
    assert_eq!(pool_borrows(&pool), borrows_before - 200);
    assert_eq!(ob.debt_assets.len(), 1);
    assert!(pool_borrows(&pool) <= pool.total_deposits);
}

#[test]
fn remove_collateral_gates_on_simulated_health() {
    let prices = prices_at(1, 1);
    let mut pool = lending_pool();
    process_deposit_to_pool(&mut pool, 100_000, 1).unwrap();
    let mut ob = Obligation::new(0);
    process_add_collateral(&pool, &mut ob, COLLATERAL, 2000, &prices, 1, 0).unwrap();
    process_borrow(&mut pool, &mut ob, DEBT, COLLATERAL, 1000, &prices, 1, 0).unwrap();
    // Removing everything would strand the debt.
    assert_eq!(
        process_remove_collateral(&pool, &mut ob, COLLATERAL, 2500, &prices, 2),
        Err(StakeLendError::UnhealthyPosition)
    );
    // Removing more than held is its own failure.
    assert_eq!(
        process_remove_collateral(&pool, &mut ob, COLLATERAL, 5000, &prices, 2),
        Err(StakeLendError::InsufficientCollateral)
    );
    // A small removal that keeps the factor at 150 or above commits.
    let health = process_remove_collateral(&pool, &mut ob, COLLATERAL, 100, &prices, 2).unwrap();
    assert!(health >= 150);
    // An unknown asset is reported as missing.
    assert_eq!(
        process_remove_collateral(&pool, &mut ob, 77, 1, &prices, 2),
        Err(StakeLendError::NoCollateralFound)
    );
}

#[test]
fn close_factor_caps_liquidation_repayment() {
    // Build a position that is healthy at origination (collateral priced
    // 10) and unhealthy once the collateral price falls to 1.
    let rich_prices = prices_at(10, 1);
    let poor_prices = prices_at(1, 1);
    let mut pool = lending_pool();
    process_deposit_to_pool(&mut pool, 100_000, 1).unwrap();
    let mut ob = Obligation::new(0);
    process_add_collateral(&pool, &mut ob, COLLATERAL, 500, &rich_prices, 1, 0).unwrap();
    process_borrow(&mut pool, &mut ob, DEBT, COLLATERAL, 600, &rich_prices, 1, 0).unwrap();
    // total owed is 600; a request of 1000 is capped at 50%: 300.
    let data =
        process_liquidate_borrower(&mut pool, &mut ob, DEBT, COLLATERAL, 1000, &poor_prices, 1)
            .unwrap();
    assert_eq!(data.repay_amount, 300);
    // Seized collateral carries the 500bps bonus: 300 * 10500/10000 = 315.
    assert_eq!(data.collateral_amount, 315);
    assert_eq!(data.bonus_amount, 15);
    assert!(pool_borrows(&pool) <= pool.total_deposits);
    assert_eq!(ob.debt_assets[0].info.amount, 300);
}

#[test]
fn healthy_positions_cannot_be_liquidated() {
    let prices = prices_at(1, 1);
    let mut pool = lending_pool();
    process_deposit_to_pool(&mut pool, 100_000, 1).unwrap();
    let mut ob = Obligation::new(0);
    process_add_collateral(&pool, &mut ob, COLLATERAL, 2000, &prices, 1, 0).unwrap();
    process_borrow(&mut pool, &mut ob, DEBT, COLLATERAL, 500, &prices, 1, 0).unwrap();
    assert_eq!(
        process_liquidate_borrower(&mut pool, &mut ob, DEBT, COLLATERAL, 100, &prices, 1),
        Err(StakeLendError::LiquidationNotAllowed)
    );
    let mut empty = Obligation::new(0);
    assert_eq!(
        process_liquidate_borrower(&mut pool, &mut empty, DEBT, COLLATERAL, 100, &prices, 1),
        Err(StakeLendError::NoDebtFound)
    );
}

#[test]
fn liquidation_quote_caps_and_prices() {
    let mut ob = Obligation::new(0);
    ob.add_collateral(COLLATERAL, 600, 8000, 0).unwrap();
    ob.increase_debt(DEBT, 600, INDEX_SCALE, 0).unwrap();
    let prices = prices_at(1, 1);
    let data = calculate_liquidation_amount(&ob, 1000, &prices, 500, 9).unwrap();
    assert_eq!(data.repay_amount, 300);
    assert_eq!(data.collateral_amount, 315);
    assert_eq!(data.timestamp, 9);
    let empty = Obligation::new(0);
    assert_eq!(
        calculate_liquidation_amount(&empty, 1000, &prices, 500, 9),
        Err(StakeLendError::NoDebtFound)
    );
}

#[test]
fn bonus_amount_is_bounded() {
    assert_eq!(calculate_bonus_amount(1000, 500), Ok(50));
    assert_eq!(calculate_bonus_amount(1000, 3001), Err(StakeLendError::InvalidParameter));
}

#[test]
fn rates_refresh_from_current_totals() {
    let mut pool = lending_pool();
    process_deposit_to_pool(&mut pool, 1000, 1).unwrap();
    update_pool_state(&mut pool).unwrap();
    match &pool.data {
        PoolData::Lending(d) => {
            assert_eq!(d.utilization_rate, 0);
            assert_eq!(d.current_borrow_rate, 200);
        },
        _ => unreachable!(),
    }
}

#[test]
fn interest_flows_into_pool_totals_on_repay() {
    // Borrow, let a year pass, repay everything: the reconciled interest
    // joins both total borrows and total deposits before the repayment
    // clears the debt, so suppliers keep the interest.
    let prices = prices_at(1, 1);
    let mut pool = lending_pool();
    process_deposit_to_pool(&mut pool, 100_000, 1).unwrap();
    let mut ob = Obligation::new(1);
    process_add_collateral(&pool, &mut ob, COLLATERAL, 5000, &prices, 1, 0).unwrap();
    process_borrow(&mut pool, &mut ob, DEBT, COLLATERAL, 1000, &prices, 1, 0).unwrap();
    let deposits_before = pool.total_deposits;
    let index_before = pool_index(&pool);

    let a_year_later = 1 + stake_lend::interest::SECONDS_PER_YEAR;
    let receipt = process_repay(&mut pool, &mut ob, DEBT, u64::MAX, &prices, a_year_later).unwrap();
    assert!(receipt.interest_accrued > 0);
    assert_eq!(receipt.repaid_amount, 1000 + receipt.interest_accrued);
    assert_eq!(pool.total_deposits, deposits_before + receipt.interest_accrued);
    assert_eq!(pool_borrows(&pool), 0);
    assert!(pool_index(&pool) > index_before);
    assert_eq!(ob.debt_assets.len(), 0);
    assert!(pool_borrows(&pool) <= pool.total_deposits);
}

#[test]
fn pool_well_formedness_check_spots_corruption() {
    let mut pool = lending_pool();
    process_deposit_to_pool(&mut pool, 1000, 1).unwrap();
    assert!(pool.is_well_formed());
    // A liquidity cache out of step with the totals breaks the invariant.
    match &mut pool.data {
        PoolData::Lending(d) => d.available_liquidity += 1,
        _ => unreachable!(),
    }
    assert!(!pool.is_well_formed());
}

#[test]
fn obligation_well_formedness_check_spots_corruption() {
    let mut ob = Obligation::new(0);
    ob.add_collateral(COLLATERAL, 100, 8000, 0).unwrap();
    ob.increase_debt(DEBT, 50, INDEX_SCALE, 0).unwrap();
    assert!(ob.is_well_formed());
    // A duplicated asset entry breaks the one-entry-per-asset invariant.
    let duplicate = ob.collateral_assets[0];
    ob.collateral_assets.push(duplicate);
    assert!(!ob.is_well_formed());
}
