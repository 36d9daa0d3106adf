use stake_lend::errors::StakeLendError;
use stake_lend::interest::{
    INDEX_SCALE, SECONDS_PER_YEAR, calculate_accumulated_interest, update_interest_index,
};
use stake_lend::math::{
    calculate_apy_from_apr, calculate_early_unlock_penalty, calculate_fee,
    calculate_shares_from_token_amount, calculate_time_until_expiry,
    calculate_token_amount_from_shares, calculate_utilization_rate, string_to_bytes,
};
use stake_lend::rates::{InterestRateParams, calculate_borrow_rate, calculate_supply_rate};
use stake_lend::rewards::{calculate_lending_rewards, calculate_locked_rewards, calculate_rewards};

fn curve(base: u64, optimal: u64, max: u64, optimal_util: u64) -> InterestRateParams {
    InterestRateParams {
        base_rate: base,
        optimal_rate: optimal,
        max_rate: max,
        optimal_utilization: optimal_util,
    }
}

#[test]
fn fee_is_floored_product() {
    assert_eq!(calculate_fee(10000, 50), Ok(50));
    assert_eq!(calculate_fee(999, 100), Ok(9));
    assert_eq!(calculate_fee(0, 10000), Ok(0));
}

#[test]
fn fee_rejects_over_hundred_percent() {
    assert_eq!(calculate_fee(1, 10001), Err(StakeLendError::InvalidParameter));
}

#[test]
fn fee_overflow_is_math_overflow() {
    assert_eq!(calculate_fee(u64::MAX, 10000), Err(StakeLendError::MathOverflow));
}

#[test]
fn share_conversions_are_one_to_one_on_empty_pool() {
    assert_eq!(calculate_token_amount_from_shares(7, 0, 0), Ok(7));
    assert_eq!(calculate_shares_from_token_amount(7, 0, 0), Ok(7));
}

#[test]
fn share_conversions_follow_ratio() {
    // 2 tokens per share.
    assert_eq!(calculate_token_amount_from_shares(5, 100, 200), Ok(10));
    assert_eq!(calculate_shares_from_token_amount(10, 100, 200), Ok(5));
    // Floor rounding favors the pool.
    assert_eq!(calculate_token_amount_from_shares(1, 3, 2), Ok(0));
}

#[test]
fn round_trip_never_gains() {
    // Depositing one unit and withdrawing the minted shares, repeatedly,
    // never yields more than was put in (the rounding-arbitrage check).
    let total_shares: u64 = 1000;
    let total_tokens: u64 = 1500;
    for _ in 0..5 {
        let minted = calculate_shares_from_token_amount(1, total_shares, total_tokens).unwrap();
        let back = calculate_token_amount_from_shares(minted, total_shares, total_tokens).unwrap();
        assert!(back <= 1);
    }
    // A larger round trip loses at most the rounding unit and never gains.
    let minted = calculate_shares_from_token_amount(777, total_shares, total_tokens).unwrap();
    let back = calculate_token_amount_from_shares(minted, total_shares, total_tokens).unwrap();
    assert!(back <= 777);
}

#[test]
fn utilization_is_borrow_share_in_bps() {
    assert_eq!(calculate_utilization_rate(0, 0), Ok(0));
    assert_eq!(calculate_utilization_rate(500, 1000), Ok(5000));
    assert_eq!(calculate_utilization_rate(1000, 1000), Ok(10000));
}

#[test]
fn borrow_rate_matches_kinked_curve_below_kink() {
    // base=200bps, optimal=1000bps, max=3000bps, optimal_util=8000bps;
    // utilization=4000bps sits halfway to the kink: 200 + 800*4000/8000 = 600.
    let params = curve(200, 1000, 3000, 8000);
    assert_eq!(calculate_borrow_rate(4000, &params), Ok(600));
}

#[test]
fn borrow_rate_at_kink_and_beyond() {
    let params = curve(200, 1000, 3000, 8000);
    assert_eq!(calculate_borrow_rate(8000, &params), Ok(1000));
    // Halfway up the second slope: 1000 + 2000*(1000*10000/2000)/10000 = 2000.
    assert_eq!(calculate_borrow_rate(9000, &params), Ok(2000));
    assert_eq!(calculate_borrow_rate(10000, &params), Ok(3000));
}

#[test]
fn borrow_rate_degenerate_kink_at_full_utilization() {
    // A kink at 100% leaves only the lower slope; full utilization reaches
    // the optimal rate without dividing by the zero excess range.
    let params = curve(200, 1000, 3000, 10000);
    assert_eq!(calculate_borrow_rate(10000, &params), Ok(1000));
    // Above the degenerate kink the excess ratio saturates to 10000 and the
    // maximum rate comes back, never a division by zero.
    assert_eq!(calculate_borrow_rate(10001, &params), Ok(3000));
    assert_eq!(calculate_borrow_rate(u64::MAX, &params), Ok(3000));
}

#[test]
fn supply_rate_takes_reserve_cut() {
    // borrow 1000bps at 5000bps utilization with a 1000bps reserve factor:
    // (1000*5000/10000) * 9000 / 10000 = 450.
    assert_eq!(calculate_supply_rate(1000, 5000, 1000), Ok(450));
    assert_eq!(calculate_supply_rate(1000, 5000, 10001), Err(StakeLendError::InvalidParameter));
}

#[test]
fn interest_index_compounds_exactly() {
    // 100% annual rate over a full year doubles the index.
    let doubled = update_interest_index(INDEX_SCALE, 10000, SECONDS_PER_YEAR).unwrap();
    assert_eq!(doubled, 2 * INDEX_SCALE);
}

#[test]
fn interest_index_never_decreases() {
    let mut index = INDEX_SCALE;
    for elapsed in [0u64, 1, 60, 3600, 86400] {
        let next = update_interest_index(index, 2500, elapsed).unwrap();
        assert!(next >= index);
        index = next;
    }
}

#[test]
fn interest_index_unchanged_with_no_elapsed_time() {
    let index = 3 * INDEX_SCALE / 2;
    assert_eq!(update_interest_index(index, 30000, 0), Ok(index));
}

#[test]
fn accumulated_interest_from_index_ratio() {
    // Principal 1000 with the index grown 10% owes 100 interest.
    let snapshot = INDEX_SCALE;
    let current = INDEX_SCALE + INDEX_SCALE / 10;
    assert_eq!(calculate_accumulated_interest(1000, snapshot, current), Ok(100));
    // An index at or below the snapshot accrues nothing.
    assert_eq!(calculate_accumulated_interest(1000, current, snapshot), Ok(0));
}

#[test]
fn apy_equals_apr_for_single_compounding() {
    assert_eq!(calculate_apy_from_apr(20000, 1), Ok(20000));
}

#[test]
fn apy_compounds_above_apr() {
    // 200% APR compounded twice: (1 + 1)^2 - 1 = 300%.
    assert_eq!(calculate_apy_from_apr(20000, 2), Ok(30000));
    assert_eq!(calculate_apy_from_apr(20000, 0), Err(StakeLendError::InvalidParameter));
}

#[test]
fn time_until_expiry_saturates_at_zero() {
    assert_eq!(calculate_time_until_expiry(1000, 400), Ok(600));
    assert_eq!(calculate_time_until_expiry(1000, 1000), Ok(0));
    assert_eq!(calculate_time_until_expiry(1000, 2000), Ok(0));
}

#[test]
fn early_unlock_penalty_decays_linearly() {
    // Nothing served: the full penalty applies.
    assert_eq!(calculate_early_unlock_penalty(1000, 0, 100, 2000), Ok(200));
    // Half served: half the penalty.
    assert_eq!(calculate_early_unlock_penalty(1000, 50, 100, 2000), Ok(100));
    // Fully served (or more): no penalty.
    assert_eq!(calculate_early_unlock_penalty(1000, 100, 100, 2000), Ok(0));
    assert_eq!(calculate_early_unlock_penalty(1000, 200, 100, 2000), Ok(0));
    // A zero-duration lock charges nothing.
    assert_eq!(calculate_early_unlock_penalty(1000, 0, 0, 2000), Ok(0));
}

#[test]
fn string_to_bytes_truncates_and_pads() {
    let out: [u8; 8] = string_to_bytes(b"abc");
    assert_eq!(&out[..3], b"abc");
    assert_eq!(&out[3..], &[0u8; 5]);
    let out2: [u8; 2] = string_to_bytes(b"abc");
    assert_eq!(&out2, b"ab");
}

#[test]
fn staking_rewards_accrue_pro_rata() {
    // 100% APY over a full year returns the staked amount.
    assert_eq!(calculate_rewards(1_000_000, SECONDS_PER_YEAR, 10000), Ok(1_000_000));
    // Half a year at 100% returns half.
    assert_eq!(calculate_rewards(1_000_000, SECONDS_PER_YEAR / 2, 10000), Ok(500_000));
}

#[test]
fn locked_rewards_apply_multiplier() {
    // 10% base with a 2x multiplier over a year yields 20%.
    assert_eq!(
        calculate_locked_rewards(1_000_000, SECONDS_PER_YEAR, 1000, 20000),
        Ok(200_000)
    );
}

#[test]
fn lending_rewards_use_per_share_rate() {
    assert_eq!(calculate_lending_rewards(1000, 1000, 1_000_000_000), Ok(1_000_000));
}
