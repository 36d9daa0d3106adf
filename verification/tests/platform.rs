use stake_lend::errors::StakeLendError;
use stake_lend::health::stress_safety_margin;
use stake_lend::interest::SECONDS_PER_YEAR;
use stake_lend::lock::{
    calculate_boost_multiplier, calculate_lock_rewards, process_claim_lock_rewards,
    process_create_lock_position, process_extend_lock_duration, process_update_lock_yield_boost,
    process_withdraw_matured_lock,
};
use stake_lend::oracle::{
    OracleProvider, PriceData, PriceTable, RiskLevel, apply_price_shock, classify_risk_level,
    detect_oracle_provider, get_market_risk_metrics, get_price, normalize_pyth_price,
    parse_custom_oracle_data, verify_price_validity,
};
use stake_lend::pool::{
    process_deposit_to_pool, process_flash_loan_check, process_instant_unstake,
    process_update_interest_rates, process_update_pool_config, verify_flash_loan_repayment,
};
use stake_lend::rates::InterestRateParams;
use stake_lend::state::{
    BasicPoolData, LockPoolData, Pool, PoolData, PoolType,
};

fn basic_pool() -> Pool {
    Pool {
        pool_type: PoolType::Basic,
        token_mint: 5,
        min_deposit: 0,
        max_deposit: 0,
        total_deposits: 1000,
        deposit_fee_bps: 0,
        withdrawal_fee_bps: 0,
        total_shares: 1000,
        last_update_timestamp: 0,
        data: PoolData::Basic(BasicPoolData { instant_unstake_fee_bps: 100 }),
    }
}

fn lock_pool() -> Pool {
    Pool {
        pool_type: PoolType::Lock,
        token_mint: 5,
        min_deposit: 0,
        max_deposit: 0,
        total_deposits: 0,
        deposit_fee_bps: 0,
        withdrawal_fee_bps: 0,
        total_shares: 0,
        last_update_timestamp: 0,
        data: PoolData::Lock(LockPoolData {
            min_lock_duration: 100,
            max_lock_duration: 1000,
            min_lock_amount: 10,
            base_reward_rate: 1000,
            min_duration_boost_bps: 0,
            max_boost_bps: 5000,
            early_unlock_penalty_bps: 1000,
            total_locked: 0,
            positions_count: 0,
            next_position_id: 0,
        }),
    }
}

fn lending_pool() -> Pool {
    Pool::new_lending(
        2,
        0,
        0,
        0,
        0,
        InterestRateParams {
            base_rate: 200,
            optimal_rate: 1000,
            max_rate: 3000,
            optimal_utilization: 8000,
        },
        500,
        8500,
        500,
        10000,
        0,
    )
    .unwrap()
}

#[test]
fn pool_type_tags_round_trip() {
    assert_eq!(PoolType::from_tag(0), Ok(PoolType::Basic));
    assert_eq!(PoolType::from_tag(1), Ok(PoolType::Lending));
    assert_eq!(PoolType::from_tag(2), Ok(PoolType::Lock));
    assert_eq!(PoolType::from_tag(3), Err(StakeLendError::InvalidInstruction));
    assert_eq!(PoolType::Lending.tag(), 1);
}

#[test]
fn lending_pool_rejects_bad_configuration() {
    let bad_curve = InterestRateParams {
        base_rate: 2000,
        optimal_rate: 1000,
        max_rate: 3000,
        optimal_utilization: 8000,
    };
    assert!(matches!(
        Pool::new_lending(2, 0, 0, 0, 0, bad_curve, 500, 8500, 500, 10000, 0),
        Err(StakeLendError::InvalidParameter)
    ));
}

#[test]
fn rate_parameter_updates_rederive_rates() {
    let mut pool = lending_pool();
    process_update_interest_rates(&mut pool, 0, 400).unwrap();
    match &pool.data {
        PoolData::Lending(d) => {
            assert_eq!(d.interest_rate_params.base_rate, 400);
            // Utilization is 0, so the derived borrow rate is the new base.
            assert_eq!(d.current_borrow_rate, 400);
        },
        _ => unreachable!(),
    }
    // A base above the optimal rate would break the curve's ordering.
    assert_eq!(
        process_update_interest_rates(&mut pool, 0, 2000),
        Err(StakeLendError::InvalidParameter)
    );
    // Unknown parameter tags and out-of-range values are rejected.
    assert_eq!(
        process_update_interest_rates(&mut pool, 9, 1),
        Err(StakeLendError::InvalidParameter)
    );
    assert_eq!(
        process_update_interest_rates(&mut pool, 4, 5001),
        Err(StakeLendError::InvalidParameter)
    );
}

#[test]
fn pool_config_updates_validate_fees() {
    let mut pool = lending_pool();
    process_update_pool_config(&mut pool, 5, 500, 30, 40).unwrap();
    assert_eq!(pool.min_deposit, 5);
    assert_eq!(pool.deposit_fee_bps, 30);
    assert_eq!(
        process_update_pool_config(&mut pool, 0, 0, 10001, 0),
        Err(StakeLendError::InvalidParameter)
    );
}

#[test]
fn flash_loans_quote_fee_and_check_repayment() {
    let mut pool = lending_pool();
    process_deposit_to_pool(&mut pool, 10_000, 1).unwrap();
    let (fee, repay) = process_flash_loan_check(&pool, 10_000).unwrap();
    assert_eq!(fee, 10);
    assert_eq!(repay, 10_010);
    assert_eq!(
        process_flash_loan_check(&pool, 10_001),
        Err(StakeLendError::InsufficientLiquidity)
    );
    assert_eq!(verify_flash_loan_repayment(100, 110, 10), Ok(()));
    assert_eq!(
        verify_flash_loan_repayment(100, 109, 10),
        Err(StakeLendError::InsufficientFunds)
    );
}

#[test]
fn instant_unstake_charges_its_own_fee() {
    let mut pool = basic_pool();
    let receipt = process_instant_unstake(&mut pool, 100, 1).unwrap();
    assert_eq!(receipt.gross_tokens, 100);
    assert_eq!(receipt.fee_amount, 1);
    assert_eq!(receipt.net_tokens, 99);
    assert_eq!(pool.total_deposits, 900);
    assert_eq!(pool.total_shares, 900);
}

#[test]
fn lock_pools_take_deposits_only_through_positions() {
    let mut pool = lock_pool();
    assert_eq!(
        process_deposit_to_pool(&mut pool, 100, 1),
        Err(StakeLendError::InvalidPoolType)
    );
}

#[test]
fn boost_interpolates_between_duration_bounds() {
    let l = match lock_pool().data {
        PoolData::Lock(l) => l,
        _ => unreachable!(),
    };
    assert_eq!(calculate_boost_multiplier(&l, 50), Ok(0));
    assert_eq!(calculate_boost_multiplier(&l, 1000), Ok(5000));
    // Halfway through the range: 0 + 5000*450/900 = 2500.
    assert_eq!(calculate_boost_multiplier(&l, 550), Ok(2500));
}

#[test]
fn lock_position_lifecycle() {
    let mut pool = lock_pool();
    assert_eq!(
        process_create_lock_position(&mut pool, 100, 50, 0),
        Err(StakeLendError::InvalidLockDuration)
    );
    assert_eq!(
        process_create_lock_position(&mut pool, 5, 550, 0),
        Err(StakeLendError::InsufficientFunds)
    );
    let mut position = process_create_lock_position(&mut pool, 100, 550, 0).unwrap();
    assert_eq!(position.boost_bps, 2500);
    assert_eq!(position.unlock_timestamp, 550);
    assert_eq!(pool.total_deposits, 100);

    // A year of rewards at 1000bps base boosted by 2500bps.
    let reward = process_claim_lock_rewards(&pool, &mut position, SECONDS_PER_YEAR).unwrap();
    assert_eq!(reward, 100 * 1250);
    assert_eq!(position.claimed_rewards, reward);
    // Claiming again at the same instant yields nothing more.
    let again = process_claim_lock_rewards(&pool, &mut position, SECONDS_PER_YEAR).unwrap();
    assert_eq!(again, 0);

    // Matured withdrawal pays the full amount.
    let (withdrawn, _) =
        process_withdraw_matured_lock(&mut pool, &mut position, SECONDS_PER_YEAR).unwrap();
    assert_eq!(withdrawn, 100);
    assert!(!position.is_active);
    assert_eq!(pool.total_deposits, 0);
    // A deactivated position cannot be withdrawn again.
    assert_eq!(
        process_withdraw_matured_lock(&mut pool, &mut position, SECONDS_PER_YEAR),
        Err(StakeLendError::InvalidAccountData)
    );
}

#[test]
fn early_withdrawal_pays_penalty() {
    let mut pool = lock_pool();
    let mut position = process_create_lock_position(&mut pool, 1000, 550, 0).unwrap();
    // Withdrawing at t=0, before maturity: a 1000bps penalty stays behind.
    let (withdrawn, _) = process_withdraw_matured_lock(&mut pool, &mut position, 0).unwrap();
    assert_eq!(withdrawn, 900);
}

#[test]
fn extending_a_lock_rederives_boost() {
    let mut pool = lock_pool();
    let mut position = process_create_lock_position(&mut pool, 100, 550, 0).unwrap();
    assert_eq!(
        process_extend_lock_duration(&pool, &mut position, 500),
        Err(StakeLendError::InvalidLockDuration)
    );
    process_extend_lock_duration(&pool, &mut position, 1000).unwrap();
    assert_eq!(position.boost_bps, 5000);
    assert_eq!(position.unlock_timestamp, 1000);
}

#[test]
fn lock_boost_configuration_keeps_ordering() {
    let mut pool = lock_pool();
    assert_eq!(
        process_update_lock_yield_boost(&mut pool, 100, 6000),
        Err(StakeLendError::InvalidParameter)
    );
    process_update_lock_yield_boost(&mut pool, 1000, 6000).unwrap();
    match &pool.data {
        PoolData::Lock(l) => assert_eq!(l.max_boost_bps, 6000),
        _ => unreachable!(),
    }
    assert_eq!(
        process_update_lock_yield_boost(&mut pool, 1001, 1),
        Err(StakeLendError::InvalidLockDuration)
    );
}

#[test]
fn lock_reward_formula_is_exact() {
    // amount * boosted-rate * elapsed / seconds-per-year.
    assert_eq!(calculate_lock_rewards(100, 1000, 2500, SECONDS_PER_YEAR), Ok(125_000));
    assert_eq!(calculate_lock_rewards(100, 1000, 2500, 0), Ok(0));
}

#[test]
fn price_table_latest_entry_wins() {
    let mut prices = PriceTable::new();
    prices.set_price(1, 10);
    prices.set_price(2, 20);
    prices.set_price(1, 11);
    assert_eq!(prices.get(1), Some(11));
    assert_eq!(prices.get(2), Some(20));
    assert_eq!(prices.get(3), None);
    assert_eq!(prices.len(), 3);
}

#[test]
fn price_validity_checks_age_then_confidence() {
    let data = PriceData {
        price: 100,
        confidence: 5,
        timestamp: 1000,
        source: OracleProvider::Pyth,
    };
    assert_eq!(verify_price_validity(&data, 10, 60, 1030), Ok(()));
    assert_eq!(
        verify_price_validity(&data, 10, 60, 1100),
        Err(StakeLendError::StaleOracleData)
    );
    assert_eq!(
        verify_price_validity(&data, 4, 60, 1030),
        Err(StakeLendError::LowPriceConfidence)
    );
}

#[test]
fn pyth_price_component_parses_at_fixed_offsets() {
    let mut data = vec![0u8; 48];
    data[16..24].copy_from_slice(&12345i64.to_le_bytes());
    data[24..32].copy_from_slice(&7u64.to_le_bytes());
    data[32..36].copy_from_slice(&(-2i32).to_le_bytes());
    data[36..44].copy_from_slice(&99i64.to_le_bytes());
    let price = get_price(&data).unwrap();
    assert_eq!(price.price, 12345);
    assert_eq!(price.conf, 7);
    assert_eq!(price.expo, -2);
    assert_eq!(price.publish_time, 99);
    assert!(get_price(&data[..47]).is_none());
}

#[test]
fn negative_prices_parse_correctly() {
    let mut data = vec![0u8; 48];
    data[16..24].copy_from_slice(&(-5i64).to_le_bytes());
    let price = get_price(&data).unwrap();
    assert_eq!(price.price, -5);
}

#[test]
fn pyth_normalization_scales_by_exponent() {
    assert_eq!(normalize_pyth_price(12345, -2), Ok(123));
    assert_eq!(normalize_pyth_price(5, 3), Ok(5000));
    assert_eq!(normalize_pyth_price(7, 0), Ok(7));
    assert_eq!(normalize_pyth_price(-1, 0), Err(StakeLendError::InvalidOraclePrice));
    assert_eq!(normalize_pyth_price(1, 30), Err(StakeLendError::MathOverflow));
}

#[test]
fn market_risk_metrics_parse_and_classify() {
    let mut data = vec![0u8; 24];
    data[0..8].copy_from_slice(&9000u64.to_le_bytes());
    data[8] = (-100i8).to_le_bytes()[0];
    data[9..11].copy_from_slice(&500u16.to_le_bytes());
    data[11..19].copy_from_slice(&42u64.to_le_bytes());
    let metrics = match get_market_risk_metrics(&data) {
        Ok(m) => m,
        Err(_) => panic!("metrics should parse"),
    };
    assert_eq!(metrics.volatility_index, 9000);
    assert_eq!(metrics.market_trend, -100);
    assert_eq!(metrics.liquidity_score, 500);
    assert_eq!(metrics.timestamp, 42);
    assert_eq!(metrics.risk_level, RiskLevel::Extreme);
    assert!(matches!(
        get_market_risk_metrics(&data[..20]),
        Err(StakeLendError::InvalidAccountData)
    ));
}

#[test]
fn risk_levels_follow_volatility_thresholds() {
    assert_eq!(classify_risk_level(1000), RiskLevel::Low);
    assert_eq!(classify_risk_level(2001), RiskLevel::Medium);
    assert_eq!(classify_risk_level(5001), RiskLevel::High);
    assert_eq!(classify_risk_level(8001), RiskLevel::Extreme);
}

#[test]
fn oracle_provider_detected_by_magic() {
    assert_eq!(detect_oracle_provider(b"Pyth----"), OracleProvider::Pyth);
    assert_eq!(detect_oracle_provider(b"SBDA----"), OracleProvider::Switchboard);
    assert_eq!(detect_oracle_provider(b"CLNK----"), OracleProvider::ChainLink);
    assert_eq!(detect_oracle_provider(b"????----"), OracleProvider::Custom);
    assert_eq!(detect_oracle_provider(b"Py"), OracleProvider::Custom);
}

#[test]
fn custom_oracle_data_parses_entries() {
    let mut data = vec![0u8; 8 + 2 * 16];
    data[4..8].copy_from_slice(&2u32.to_le_bytes());
    data[8..16].copy_from_slice(&1u64.to_le_bytes());
    data[16..24].copy_from_slice(&100u64.to_le_bytes());
    data[24..32].copy_from_slice(&2u64.to_le_bytes());
    data[32..40].copy_from_slice(&200u64.to_le_bytes());
    let table = match parse_custom_oracle_data(&data) {
        Ok(t) => t,
        Err(_) => panic!("custom oracle data should parse"),
    };
    assert_eq!(table.get(1), Some(100));
    assert_eq!(table.get(2), Some(200));
    assert_eq!(table.len(), 2);
    // A declared count the buffer cannot hold is invalid.
    data[4..8].copy_from_slice(&3u32.to_le_bytes());
    assert!(matches!(
        parse_custom_oracle_data(&data),
        Err(StakeLendError::InvalidAccountData)
    ));
    assert!(matches!(
        parse_custom_oracle_data(&data[..20]),
        Err(StakeLendError::InvalidAccountData)
    ));
}

#[test]
fn custom_oracle_with_no_entries_is_absent_data() {
    // An account that prices nothing at all is absent oracle data.
    let data = vec![0u8; 24];
    assert!(matches!(
        parse_custom_oracle_data(&data),
        Err(StakeLendError::OracleDataNotFound)
    ));
}

#[test]
fn derived_addresses_match_the_runtime_derivation() {
    let program_id = [7u8; 32];
    let pool = [9u8; 32];
    let pk = solana_program::pubkey::Pubkey::new_from_array(program_id);
    let (addr, bump) =
        stake_lend::pda::find_pool_authority_address(&program_id, &pool).unwrap();
    let (expected, expected_bump) =
        solana_program::pubkey::Pubkey::find_program_address(&[b"pool_authority", &pool], &pk);
    assert_eq!(addr, expected.to_bytes());
    assert_eq!(bump, expected_bump);
    // The derivation is deterministic: a second call agrees.
    let again = stake_lend::pda::find_pool_authority_address(&program_id, &pool).unwrap();
    assert_eq!(again.0, addr);

    let owner = [1u8; 32];
    let (ob_addr, _) =
        stake_lend::pda::find_obligation_address(&program_id, &owner, &pool).unwrap();
    let (ob_expected, _) = solana_program::pubkey::Pubkey::find_program_address(
        &[b"obligation", &owner, &pool],
        &pk,
    );
    assert_eq!(ob_addr, ob_expected.to_bytes());

    let (lock_addr, _) =
        stake_lend::pda::find_lock_position_address(&program_id, &owner, &pool).unwrap();
    let (lock_expected, _) = solana_program::pubkey::Pubkey::find_program_address(
        &[b"lock_position", &owner, &pool],
        &pk,
    );
    assert_eq!(lock_addr, lock_expected.to_bytes());
}

#[test]
fn stress_test_shocks_prices_and_reports_margin() {
    let mut prices = PriceTable::new();
    prices.set_price(1, 1000);
    prices.set_price(2, 40);
    // A 30% downward shock.
    apply_price_shock(&mut prices, 3000).unwrap();
    assert_eq!(prices.get(1), Some(700));
    assert_eq!(prices.get(2), Some(28));
    assert!(matches!(
        apply_price_shock(&mut prices, 10001),
        Err(StakeLendError::InvalidParameter)
    ));
    assert_eq!(stress_safety_margin(700, 500), Ok(140));
    assert_eq!(stress_safety_margin(0, 0), Ok(u64::MAX));
}
