//! Lazy interest-index accrual: one global per-pool index compounds over
//! elapsed time, and any position's owed amount is derived from its snapshot
//! of the index, with no per-position ticking.
use vstd::prelude::*;

use crate::errors::StakeLendError;

verus! {

/// Fixed-point scale of the accumulated interest index (12 decimals; an index
/// of `INDEX_SCALE` means 1.0, the value at pool genesis).
pub const INDEX_SCALE: u128 = 1_000_000_000_000;

/// Seconds in a year, used to convert annual rates to per-second accrual.
pub const SECONDS_PER_YEAR: u64 = 31_536_000;

/// The interest accrued over an interval, as a fixed-point fraction of the
/// principal: `rate_bps * elapsed / (10000 * SECONDS_PER_YEAR)`, scaled by
/// `INDEX_SCALE`.
pub open spec fn spec_interest_factor(rate_bps: int, elapsed: int) -> int {
    rate_bps * elapsed * INDEX_SCALE / ((10000 * SECONDS_PER_YEAR) as int)
}

/// One lazy-accrual step of the global index:
/// `index * (1 + interest_factor)`, in fixed point.
pub open spec fn spec_updated_index(index: int, rate_bps: int, elapsed: int) -> int {
    index * (INDEX_SCALE + spec_interest_factor(rate_bps, elapsed)) / (INDEX_SCALE as int)
}

/// The accumulated interest index never decreases: one accrual step can only
/// leave the index unchanged or grow it, whatever the rate and elapsed time.
pub proof fn lemma_interest_index_monotone(index: int, rate_bps: int, elapsed: int)
    requires
        index >= 0,
        rate_bps >= 0,
        elapsed >= 0,
    ensures
        spec_updated_index(index, rate_bps, elapsed) >= index,
{
    let factor = spec_interest_factor(rate_bps, elapsed);
    assert(rate_bps * elapsed * INDEX_SCALE >= 0) by (nonlinear_arith)
        requires rate_bps >= 0 && elapsed >= 0;
    vstd::arithmetic::div_mod::lemma_div_pos_is_pos(
        rate_bps * elapsed * INDEX_SCALE,
        (10000 * SECONDS_PER_YEAR) as int,
    );
    let s = INDEX_SCALE as int;
    assert(index * (s + factor) >= index * s) by (nonlinear_arith)
        requires index >= 0 && factor >= 0;
    vstd::arithmetic::div_mod::lemma_div_is_ordered(index * s, index * (s + factor), s);
    vstd::arithmetic::div_mod::lemma_div_multiples_vanish(index, s);
    assert(index * s == s * index) by (nonlinear_arith);
}

/// Accruing over zero elapsed time changes nothing: the accrual step is
/// idempotent when no time has passed.
pub proof fn lemma_interest_index_unchanged_when_no_time(index: int, rate_bps: int)
    requires
        index >= 0,
        rate_bps >= 0,
    ensures
        spec_updated_index(index, rate_bps, 0) == index,
{
    let s = INDEX_SCALE as int;
    assert(rate_bps * 0 * INDEX_SCALE == 0) by (nonlinear_arith);
    assert(spec_interest_factor(rate_bps, 0) == 0) by {
        vstd::arithmetic::div_mod::lemma_div_of0((10000 * SECONDS_PER_YEAR) as int);
    }
    vstd::arithmetic::div_mod::lemma_div_multiples_vanish(index, s);
    assert(index * s == s * index) by (nonlinear_arith);
}

/// Advance the accumulated interest index by the interest earned over the
/// elapsed seconds at the given annual rate.
///
/// The new index is `index * (1 + rate * elapsed / (10000 * SECONDS_PER_YEAR))`
/// in fixed point; it never decreases, zero elapsed time leaves it unchanged,
/// and any intermediate overflow fails with `MathOverflow`.
pub fn update_interest_index(
    current_index: u128,
    interest_rate_bps: u64,
    time_elapsed_seconds: u64,
) -> (r: Result<u128, StakeLendError>)
    ensures
        (interest_rate_bps as int) * (time_elapsed_seconds as int) * INDEX_SCALE <= u128::MAX
            && current_index * (INDEX_SCALE + spec_interest_factor(
            interest_rate_bps as int,
            time_elapsed_seconds as int,
        )) <= u128::MAX ==> r is Ok && r->Ok_0 == spec_updated_index(
            current_index as int,
            interest_rate_bps as int,
            time_elapsed_seconds as int,
        ),
        ((interest_rate_bps as int) * (time_elapsed_seconds as int) * INDEX_SCALE > u128::MAX
            || current_index * (INDEX_SCALE + spec_interest_factor(
            interest_rate_bps as int,
            time_elapsed_seconds as int,
        )) > u128::MAX) ==> r == Err::<u128, StakeLendError>(StakeLendError::MathOverflow),
        r is Ok ==> r->Ok_0 >= current_index,
        time_elapsed_seconds == 0 && r is Ok ==> r->Ok_0 == current_index,
{
    proof {
        lemma_interest_index_monotone(
            current_index as int,
            interest_rate_bps as int,
            time_elapsed_seconds as int,
        );
        if time_elapsed_seconds == 0 {
            lemma_interest_index_unchanged_when_no_time(
                current_index as int,
                interest_rate_bps as int,
            );
        }
    }
    let rate = interest_rate_bps as u128;
    let elapsed = time_elapsed_seconds as u128;
    let scaled = match rate.checked_mul(elapsed) {
        Some(p) => match p.checked_mul(INDEX_SCALE) {
            Some(q) => q,
            None => {
                return Err(StakeLendError::MathOverflow);
            },
        },
        None => {
            proof {
                assert((interest_rate_bps as int) * (time_elapsed_seconds as int) * INDEX_SCALE
                    > u128::MAX) by (nonlinear_arith)
                    requires (interest_rate_bps as int) * (time_elapsed_seconds as int)
                        > u128::MAX;
            }
            return Err(StakeLendError::MathOverflow);
        },
    };
    let denominator: u128 = 10000 * (SECONDS_PER_YEAR as u128);
    let interest_factor = scaled / denominator;
    let growth = INDEX_SCALE + interest_factor;
    proof {
        vstd::arithmetic::div_mod::lemma_div_nonincreasing(scaled as int, denominator as int);
    }
    match current_index.checked_mul(growth) {
        Some(product) => Ok(product / INDEX_SCALE),
        None => Err(StakeLendError::MathOverflow),
    }
}

/// Interest owed beyond principal for a debt snapshot: the principal grown by
/// the ratio of the current index to the snapshot index, minus the principal.
///
/// A current index at or below the snapshot accrues nothing; otherwise the
/// grown total is `floor(principal * current / original)` and the accrued part
/// is the excess over the principal. Overflow of the grown total past `u64`
/// fails with `MathOverflow`.
pub fn calculate_accumulated_interest(
    principal: u64,
    original_index: u128,
    current_index: u128,
) -> (r: Result<u64, StakeLendError>)
    requires
        original_index >= 1,
    ensures
        current_index <= original_index ==> r == Ok::<u64, StakeLendError>(0),
        current_index > original_index && principal * current_index > u128::MAX ==> r == Err::<
            u64,
            StakeLendError,
        >(StakeLendError::MathOverflow),
        current_index > original_index && principal * current_index <= u128::MAX && principal
            * current_index / (original_index as int) > u64::MAX ==> r == Err::<
            u64,
            StakeLendError,
        >(StakeLendError::MathOverflow),
        current_index > original_index && principal * current_index <= u128::MAX && principal
            * current_index / (original_index as int) <= u64::MAX ==> r == Ok::<
            u64,
            StakeLendError,
        >((principal * current_index / (original_index as int) - principal) as u64),
        r is Ok ==> principal + r->Ok_0 <= u64::MAX,
        current_index > original_index && r is Ok ==> principal + r->Ok_0 == principal
            * current_index / (original_index as int),
{
    if current_index <= original_index {
        return Ok(0);
    }
    match (principal as u128).checked_mul(current_index) {
        Some(scaled) => {
            let total = scaled / original_index;
            proof {
                assert(principal * original_index <= principal * current_index) by (
                nonlinear_arith)
                    requires principal >= 0 && original_index <= current_index;
                vstd::arithmetic::div_mod::lemma_div_is_ordered(
                    principal * original_index,
                    principal * current_index,
                    original_index as int,
                );
                vstd::arithmetic::div_mod::lemma_div_multiples_vanish(
                    principal as int,
                    original_index as int,
                );
                assert(principal * original_index == original_index * principal) by (
                nonlinear_arith);
            }
            if total > u64::MAX as u128 {
                return Err(StakeLendError::MathOverflow);
            }
            Ok((total as u64) - principal)
        },
        None => Err(StakeLendError::MathOverflow),
    }
}

} // verus!
