//! Basis-point fixed-point arithmetic: fees, share/token conversions,
//! utilization, and the rounding-safety law for share round trips.
use vstd::prelude::*;

use crate::errors::StakeLendError;

verus! {

/// Basis points denominator (10000 = 100%).
pub const BPS_DENOMINATOR: u64 = 10000;

/// Scale factor for fixed-point math operations (6 decimals of precision).
pub const SCALE_FACTOR: u64 = 1_000_000;

/// Maximum interest rate in basis points (300% per year).
pub const MAX_INTEREST_RATE_BPS: u16 = 30000;

/// Calculate a fee from an amount and a fee given in basis points.
///
/// The fee is `floor(amount * fee_bps / 10000)`; a fee above 100% is rejected
/// and overflow of the intermediate product fails with `MathOverflow`.
pub fn calculate_fee(amount: u64, fee_bps: u16) -> (r: Result<u64, StakeLendError>)
    ensures
        fee_bps > 10000 ==> r == Err::<u64, StakeLendError>(StakeLendError::InvalidParameter),
        fee_bps <= 10000 && amount * fee_bps > u64::MAX ==> r == Err::<u64, StakeLendError>(
            StakeLendError::MathOverflow,
        ),
        fee_bps <= 10000 && amount * fee_bps <= u64::MAX ==> r == Ok::<u64, StakeLendError>(
            ((amount * fee_bps) / 10000) as u64,
        ),
{
    if fee_bps > 10000 {
        return Err(StakeLendError::InvalidParameter);
    }
    match amount.checked_mul(fee_bps as u64) {
        Some(scaled) => Ok(scaled / 10000),
        None => Err(StakeLendError::MathOverflow),
    }
}

/// Convert a share count to a token amount at the pool's current ratio.
///
/// When no shares exist yet the conversion is one-to-one; otherwise the result
/// is `floor(shares * total_tokens / total_shares)`, rounding in the pool's
/// favor.
pub fn calculate_token_amount_from_shares(
    shares: u64,
    total_shares: u64,
    total_tokens: u64,
) -> (r: Result<u64, StakeLendError>)
    ensures
        total_shares == 0 ==> r == Ok::<u64, StakeLendError>(shares),
        total_shares != 0 && shares * total_tokens > u64::MAX ==> r == Err::<u64, StakeLendError>(
            StakeLendError::MathOverflow,
        ),
        total_shares != 0 && shares * total_tokens <= u64::MAX ==> r == Ok::<u64, StakeLendError>(
            ((shares * total_tokens) / (total_shares as int)) as u64,
        ),
{
    if total_shares == 0 {
        return Ok(shares);
    }
    match shares.checked_mul(total_tokens) {
        Some(scaled) => Ok(scaled / total_shares),
        None => Err(StakeLendError::MathOverflow),
    }
}

/// Convert a token amount to a share count at the pool's current ratio.
///
/// When no tokens exist yet the conversion is one-to-one; otherwise the result
/// is `floor(token_amount * total_shares / total_tokens)`, rounding in the
/// pool's favor.
pub fn calculate_shares_from_token_amount(
    token_amount: u64,
    total_shares: u64,
    total_tokens: u64,
) -> (r: Result<u64, StakeLendError>)
    ensures
        total_tokens == 0 ==> r == Ok::<u64, StakeLendError>(token_amount),
        total_tokens != 0 && token_amount * total_shares > u64::MAX ==> r == Err::<
            u64,
            StakeLendError,
        >(StakeLendError::MathOverflow),
        total_tokens != 0 && token_amount * total_shares <= u64::MAX ==> r == Ok::<
            u64,
            StakeLendError,
        >(((token_amount * total_shares) / (total_tokens as int)) as u64),
{
    if total_tokens == 0 {
        return Ok(token_amount);
    }
    match token_amount.checked_mul(total_shares) {
        Some(scaled) => Ok(scaled / total_tokens),
        None => Err(StakeLendError::MathOverflow),
    }
}

/// Utilization of a pool in basis points: `floor(borrows * 10000 / deposits)`,
/// or 0 for an empty pool.
pub open spec fn spec_utilization_rate(total_borrows: int, total_deposits: int) -> int {
    if total_deposits == 0 {
        0
    } else {
        total_borrows * 10000 / total_deposits
    }
}

/// Calculate the utilization rate of a pool in basis points.
pub fn calculate_utilization_rate(total_borrows: u64, total_deposits: u64) -> (r: Result<
    u64,
    StakeLendError,
>)
    ensures
        total_borrows * 10000 > u64::MAX && total_deposits != 0 ==> r == Err::<u64, StakeLendError>(
            StakeLendError::MathOverflow,
        ),
        total_deposits == 0 || total_borrows * 10000 <= u64::MAX ==> r is Ok && r->Ok_0
            == spec_utilization_rate(total_borrows as int, total_deposits as int),
        total_borrows <= total_deposits && r is Ok ==> r->Ok_0 <= 10000,
{
    if total_deposits == 0 {
        return Ok(0);
    }
    match total_borrows.checked_mul(10000) {
        Some(scaled) => {
            let util = scaled / total_deposits;
            proof {
                if total_borrows <= total_deposits {
                    assert(total_borrows * 10000 <= total_deposits * 10000) by (nonlinear_arith)
                        requires total_borrows <= total_deposits;
                    assert(total_borrows * 10000 / total_deposits as int <= total_deposits * 10000
                        / total_deposits as int) by {
                        vstd::arithmetic::div_mod::lemma_div_is_ordered(
                            total_borrows * 10000,
                            total_deposits * 10000,
                            total_deposits as int,
                        );
                    }
                    assert(total_deposits * 10000 / total_deposits as int == 10000) by {
                        vstd::arithmetic::div_mod::lemma_div_multiples_vanish(
                            10000,
                            total_deposits as int,
                        );
                    }
                }
            }
            Ok(util)
        },
        None => Err(StakeLendError::MathOverflow),
    }
}

/// Rounding safety for share accounting: depositing tokens and withdrawing
/// the resulting shares can never return more tokens than were put in, and
/// redeeming shares and re-depositing the proceeds can never return more
/// shares than were redeemed. Floor rounding always favors the pool, so no
/// sequence of round trips can extract value.
pub proof fn lemma_round_trip_favors_pool(amount: int, total_shares: int, total_tokens: int)
    requires
        amount >= 0,
        total_shares > 0,
        total_tokens > 0,
    ensures
        (amount * total_shares / total_tokens) * total_tokens / total_shares <= amount,
        (amount * total_tokens / total_shares) * total_shares / total_tokens <= amount,
{
    lemma_floor_div_round_trip(amount, total_shares, total_tokens);
    lemma_floor_div_round_trip(amount, total_tokens, total_shares);
}

/// Applying `x -> floor(x * a / b)` and then `x -> floor(x * b / a)` never
/// increases the starting value.
proof fn lemma_floor_div_round_trip(amount: int, a: int, b: int)
    requires
        amount >= 0,
        a > 0,
        b > 0,
    ensures
        (amount * a / b) * b / a <= amount,
{
    let mid = amount * a / b;
    assert(mid * b <= amount * a) by {
        vstd::arithmetic::div_mod::lemma_fundamental_div_mod(amount * a, b);
        vstd::arithmetic::div_mod::lemma_mod_division_less_than_divisor(amount * a, b);
        assert(amount * a == b * (amount * a / b) + (amount * a) % b);
        assert(mid * b == b * mid) by (nonlinear_arith);
    }
    assert(mid * b / a <= amount * a / a) by {
        vstd::arithmetic::div_mod::lemma_div_is_ordered(mid * b, amount * a, a);
    }
    assert(amount * a / a == amount) by {
        vstd::arithmetic::div_mod::lemma_div_multiples_vanish(amount, a);
        assert(amount * a == a * amount) by (nonlinear_arith);
    }
}


/// One run of fixed-point exponentiation by squaring, mirroring the checked
/// arithmetic step for step: `None` marks the step at which a product left
/// `u64`.
pub open spec fn spec_compound_factor(result: int, factor: int, exp: int) -> Option<int>
    decreases exp, 
    when exp >= 0
{
    if exp <= 0 {
        Some(result)
    } else if exp % 2 == 1 && result * factor > u64::MAX {
        None
    } else {
        let r2 = if exp % 2 == 1 {
            result * factor / 1000000
        } else {
            result
        };
        if factor * factor > u64::MAX {
            None
        } else {
            spec_compound_factor(r2, factor * factor / 1000000, exp / 2)
        }
    }
}

/// Convert an annual percentage rate to the annual percentage yield it
/// compounds to, both in basis points.
///
/// The per-period rate is `apr / compounds / 10000` (an integer number of
/// scale units, so sub-unit period rates floor to zero), the growth factor
/// `1 + rate` is raised to the number of periods by fixed-point squaring,
/// and the yield is the excess over 1 rescaled to basis points. Zero
/// compounding periods are rejected; any intermediate overflow fails with
/// `MathOverflow`.
pub fn calculate_apy_from_apr(apr_bps: u64, compounds_per_year: u64) -> (r: Result<
    u64,
    StakeLendError,
>)
    ensures
        compounds_per_year == 0 ==> r == Err::<u64, StakeLendError>(
            StakeLendError::InvalidParameter,
        ),
        compounds_per_year != 0 ==> ({
            let apr_per_period = apr_bps / compounds_per_year / 10000;
            let start = 1000000 + apr_per_period * 1000000;
            if apr_per_period * 1000000 > u64::MAX || start > u64::MAX {
                r == Err::<u64, StakeLendError>(StakeLendError::MathOverflow)
            } else {
                match spec_compound_factor(1000000, start, compounds_per_year as int) {
                    Some(compounded) => {
                        let grown = if compounded >= 1000000 {
                            compounded - 1000000
                        } else {
                            0
                        };
                        if grown * 10000 > u64::MAX {
                            r == Err::<u64, StakeLendError>(StakeLendError::MathOverflow)
                        } else {
                            r == Ok::<u64, StakeLendError>((grown * 10000 / 1000000) as u64)
                        }
                    },
                    None => r == Err::<u64, StakeLendError>(StakeLendError::MathOverflow),
                }
            }
        }),
{
    if compounds_per_year == 0 {
        return Err(StakeLendError::InvalidParameter);
    }
    let apr_per_period = apr_bps / compounds_per_year / 10000;
    let scaled_rate = match apr_per_period.checked_mul(SCALE_FACTOR) {
        Some(v) => v,
        None => {
            return Err(StakeLendError::MathOverflow);
        },
    };
    let mut factor = match SCALE_FACTOR.checked_add(scaled_rate) {
        Some(v) => v,
        None => {
            return Err(StakeLendError::MathOverflow);
        },
    };
    let mut result: u64 = SCALE_FACTOR;
    let mut exp = compounds_per_year;
    let ghost start = factor;
    while exp > 0
        invariant
            compounds_per_year != 0,
            apr_per_period == apr_bps / compounds_per_year / 10000,
            apr_per_period * 1000000 <= u64::MAX,
            start == 1000000 + apr_per_period * 1000000,
            spec_compound_factor(1000000, start as int, compounds_per_year as int)
                == spec_compound_factor(result as int, factor as int, exp as int),
        decreases exp,
    {
        let ghost result0 = result as int;
        let ghost factor0 = factor as int;
        let ghost exp0 = exp as int;
        if exp % 2 == 1 {
            result = match result.checked_mul(factor) {
                Some(v) => v / SCALE_FACTOR,
                None => {
                    proof {
                        assert(spec_compound_factor(result0, factor0, exp0) is None);
                    }
                    return Err(StakeLendError::MathOverflow);
                },
            };
        }
        factor = match factor.checked_mul(factor) {
            Some(v) => v / SCALE_FACTOR,
            None => {
                proof {
                    assert(spec_compound_factor(result0, factor0, exp0) is None);
                }
                return Err(StakeLendError::MathOverflow);
            },
        };
        exp = exp / 2;
        proof {
            assert(spec_compound_factor(result0, factor0, exp0) == spec_compound_factor(
                result as int,
                factor as int,
                exp as int,
            ));
        }
    }
    let grown = if result >= SCALE_FACTOR {
        result - SCALE_FACTOR
    } else {
        0
    };
    match grown.checked_mul(BPS_DENOMINATOR) {
        Some(scaled) => Ok(scaled / SCALE_FACTOR),
        None => Err(StakeLendError::MathOverflow),
    }
}

/// Seconds remaining until a lock expires, or 0 once it has.
pub fn calculate_time_until_expiry(unlock_timestamp: u64, now: u64) -> (r: Result<
    u64,
    StakeLendError,
>)
    ensures
        now >= unlock_timestamp ==> r == Ok::<u64, StakeLendError>(0),
        now < unlock_timestamp ==> r == Ok::<u64, StakeLendError>((unlock_timestamp - now) as u64),
{
    if now >= unlock_timestamp {
        return Ok(0);
    }
    Ok(unlock_timestamp - now)
}

/// The penalty for unlocking early: the maximum penalty scaled down linearly
/// by the share of the lock already served, applied to the amount as a fee.
pub fn calculate_early_unlock_penalty(
    amount: u64,
    elapsed_time: u64,
    total_lock_duration: u64,
    max_penalty_bps: u16,
) -> (r: Result<u64, StakeLendError>)
    ensures
        total_lock_duration == 0 ==> r == Ok::<u64, StakeLendError>(0),
        total_lock_duration != 0 && elapsed_time * 10000 > u64::MAX ==> r == Err::<
            u64,
            StakeLendError,
        >(StakeLendError::MathOverflow),
        total_lock_duration != 0 && elapsed_time * 10000 <= u64::MAX ==> ({
            let served = elapsed_time * 10000 / (total_lock_duration as int);
            let served_capped = if served <= 10000 {
                served
            } else {
                10000
            };
            let penalty_bps = max_penalty_bps * (10000 - served_capped) / 10000;
            if penalty_bps > 10000 {
                r == Err::<u64, StakeLendError>(StakeLendError::InvalidParameter)
            } else if amount * penalty_bps > u64::MAX {
                r == Err::<u64, StakeLendError>(StakeLendError::MathOverflow)
            } else {
                r == Ok::<u64, StakeLendError>((amount * penalty_bps / 10000) as u64)
            }
        }),
{
    if total_lock_duration == 0 {
        return Ok(0);
    }
    let served = match elapsed_time.checked_mul(BPS_DENOMINATOR) {
        Some(scaled) => scaled / total_lock_duration,
        None => {
            return Err(StakeLendError::MathOverflow);
        },
    };
    let time_served_pct = if served <= BPS_DENOMINATOR {
        served
    } else {
        BPS_DENOMINATOR
    };
    proof {
        assert(max_penalty_bps * (10000 - time_served_pct) <= 65535 * 10000) by (nonlinear_arith)
            requires max_penalty_bps <= 65535 && 10000 - time_served_pct <= 10000 && 10000
                - time_served_pct >= 0;
        vstd::arithmetic::div_mod::lemma_div_pos_is_pos(
            (max_penalty_bps as int) * (10000 - time_served_pct),
            10000,
        );
        vstd::arithmetic::div_mod::lemma_div_is_ordered(
            (max_penalty_bps as int) * (10000 - time_served_pct),
            655350000,
            10000,
        );
    }
    let penalty_bps = (max_penalty_bps as u64) * (BPS_DENOMINATOR - time_served_pct)
        / BPS_DENOMINATOR;
    if penalty_bps > 10000 {
        return Err(StakeLendError::InvalidParameter);
    }
    calculate_fee(amount, penalty_bps as u16)
}

/// Copy a byte string into a fixed-size buffer, truncating or
/// zero-padding to the buffer's length.
pub fn string_to_bytes<const N: usize>(s: &[u8]) -> (r: [u8; N])
    ensures
        forall|i: int|
            0 <= i < N ==> r[i] == (if i < s@.len() {
                s@[i]
            } else {
                0u8
            }),
{
    let mut buffer = [0u8; N];
    let len = if s.len() < N {
        s.len()
    } else {
        N
    };
    let mut i: usize = 0;
    while i < len
        invariant
            len <= N,
            len <= s@.len(),
            i <= len,
            forall|j: int| 0 <= j < i ==> buffer@[j] == s@[j],
            forall|j: int| i <= j < N ==> buffer@[j] == 0u8,
        decreases len - i,
    {
        buffer[i] = s[i];
        i = i + 1;
    }
    buffer
}

} // verus!
