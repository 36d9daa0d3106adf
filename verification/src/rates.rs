//! Two-slope kinked interest-rate curve: utilization in, borrow and supply
//! rates out, all in basis points.
use vstd::prelude::*;

use crate::errors::StakeLendError;

verus! {

/// Parameters of the kinked rate curve, all in basis points.
#[derive(Clone, Copy, Debug, PartialEq, Eq, Structural)]
pub struct InterestRateParams {
    /// Borrow rate at zero utilization.
    pub base_rate: u64,
    /// Borrow rate at optimal utilization (the kink).
    pub optimal_rate: u64,
    /// Borrow rate at full utilization.
    pub max_rate: u64,
    /// Utilization at which the curve kinks.
    pub optimal_utilization: u64,
}

impl InterestRateParams {
    /// Configuration-time validity: rates ascend along the curve, stay below
    /// the protocol-wide cap, and the kink lies within [0%, 100%].
    pub open spec fn wf(&self) -> bool {
        &&& self.base_rate <= self.optimal_rate
        &&& self.optimal_rate <= self.max_rate
        &&& self.max_rate <= 30000
        &&& self.optimal_utilization <= 10000
    }

    /// Runtime check of the same validity condition, for use at the
    /// configuration edge.
    pub fn is_valid(&self) -> (r: bool)
        ensures
            r == self.wf(),
    {
        self.base_rate <= self.optimal_rate && self.optimal_rate <= self.max_rate
            && self.max_rate <= 30000 && self.optimal_utilization <= 10000
    }
}

/// The kinked curve of the borrow rate.
///
/// Below the kink the rate climbs linearly from `base_rate` to `optimal_rate`;
/// above it, linearly from `optimal_rate` to `max_rate`. A kink at 0 sends all
/// positive utilization to the upper slope; with a kink at 10000 any
/// utilization beyond it saturates the excess ratio to 10000 and yields the
/// maximum rate (the degenerate denominator never divides).
pub open spec fn spec_borrow_rate(params: InterestRateParams, utilization: int) -> int {
    if utilization <= params.optimal_utilization {
        let ratio = if params.optimal_utilization == 0 {
            0
        } else {
            utilization * 10000 / (params.optimal_utilization as int)
        };
        params.base_rate + (params.optimal_rate - params.base_rate) * ratio / 10000
    } else {
        let max_excess = 10000 - params.optimal_utilization;
        let ratio = if max_excess == 0 {
            10000
        } else {
            (utilization - params.optimal_utilization) * 10000 / max_excess
        };
        params.optimal_rate + (params.max_rate - params.optimal_rate) * ratio / 10000
    }
}

/// A scaled fraction of a nonnegative numerator over a larger denominator
/// stays within the scale.
proof fn lemma_scaled_ratio_le(num: int, den: int)
    requires
        0 <= num <= den,
        0 < den,
    ensures
        0 <= num * 10000 / den <= 10000,
{
    assert(num * 10000 <= den * 10000) by (nonlinear_arith)
        requires num <= den;
    assert(num * 10000 >= 0) by (nonlinear_arith)
        requires num >= 0;
    vstd::arithmetic::div_mod::lemma_div_is_ordered(num * 10000, den * 10000, den);
    vstd::arithmetic::div_mod::lemma_div_multiples_vanish(10000, den);
    vstd::arithmetic::div_mod::lemma_div_pos_is_pos(num * 10000, den);
}

/// A linear interpolation step `lo + range * ratio / 10000` never leaves
/// `[lo, lo + range]` when the ratio is within the scale.
proof fn lemma_interpolation_bounds(lo: int, range: int, ratio: int)
    requires
        range >= 0,
        0 <= ratio <= 10000,
    ensures
        lo <= lo + range * ratio / 10000 <= lo + range,
{
    assert(0 <= range * ratio) by (nonlinear_arith)
        requires range >= 0 && ratio >= 0;
    assert(range * ratio <= range * 10000) by (nonlinear_arith)
        requires range >= 0 && ratio <= 10000;
    vstd::arithmetic::div_mod::lemma_div_pos_is_pos(range * ratio, 10000);
    vstd::arithmetic::div_mod::lemma_div_is_ordered(range * ratio, range * 10000, 10000);
    vstd::arithmetic::div_mod::lemma_div_multiples_vanish(range, 10000);
}

/// The borrow rate stays between the curve's base and maximum rates.
pub proof fn lemma_borrow_rate_bounds(params: InterestRateParams, utilization: int)
    requires
        params.wf(),
        0 <= utilization <= 10000,
    ensures
        params.base_rate <= spec_borrow_rate(params, utilization) <= params.max_rate,
{
    if utilization <= params.optimal_utilization {
        let ratio = if params.optimal_utilization == 0 {
            0int
        } else {
            utilization * 10000 / (params.optimal_utilization as int)
        };
        if params.optimal_utilization != 0 {
            lemma_scaled_ratio_le(utilization, params.optimal_utilization as int);
        }
        lemma_interpolation_bounds(
            params.base_rate as int,
            params.optimal_rate - params.base_rate,
            ratio,
        );
    } else {
        let max_excess = 10000 - params.optimal_utilization;
        let ratio = if max_excess == 0 {
            10000int
        } else {
            (utilization - params.optimal_utilization) * 10000 / max_excess
        };
        if max_excess != 0 {
            lemma_scaled_ratio_le(utilization - params.optimal_utilization, max_excess);
        }
        lemma_interpolation_bounds(
            params.optimal_rate as int,
            params.max_rate - params.optimal_rate,
            ratio,
        );
    }
}

/// Calculate the borrow interest rate for a utilization level.
///
/// A utilization within [0%, 100%] always yields the kinked-curve rate,
/// between the base and maximum rates. Utilization above 100% follows the
/// same curve: with the kink at 100% the excess ratio saturates to 10000 and
/// the maximum rate comes back (never a division by zero); below that kink
/// an intermediate product that no longer fits fails with `MathOverflow`.
pub fn calculate_borrow_rate(utilization_rate: u64, rate_params: &InterestRateParams) -> (r:
    Result<u64, StakeLendError>)
    requires
        rate_params.wf(),
    ensures
        r matches Ok(rate) ==> rate == spec_borrow_rate(*rate_params, utilization_rate as int),
        utilization_rate <= 10000 || rate_params.optimal_utilization == 10000 ==> r is Ok,
        utilization_rate <= 10000 ==> rate_params.base_rate <= r->Ok_0 <= rate_params.max_rate,
        utilization_rate > rate_params.optimal_utilization && rate_params.optimal_utilization
            < 10000 ==> ({
            let excess = utilization_rate - rate_params.optimal_utilization;
            let max_excess = 10000 - rate_params.optimal_utilization;
            r is Ok <==> excess * 10000 <= u64::MAX && (rate_params.max_rate
                - rate_params.optimal_rate) * (excess * 10000 / max_excess) <= u64::MAX
        }),
        r is Err ==> r == Err::<u64, StakeLendError>(StakeLendError::MathOverflow),
{
    let optimal_utilization = rate_params.optimal_utilization;
    if utilization_rate <= optimal_utilization {
        proof {
            lemma_borrow_rate_bounds(*rate_params, utilization_rate as int);
        }
        let util_ratio: u64 = if optimal_utilization == 0 {
            0
        } else {
            proof {
                lemma_scaled_ratio_le(utilization_rate as int, optimal_utilization as int);
            }
            utilization_rate * 10000 / optimal_utilization
        };
        let rate_range = rate_params.optimal_rate - rate_params.base_rate;
        let additional_rate = rate_range * util_ratio / 10000;
        Ok(rate_params.base_rate + additional_rate)
    } else {
        let max_excess = 10000 - optimal_utilization;
        let rate_range = rate_params.max_rate - rate_params.optimal_rate;
        if max_excess == 0 {
            proof {
                vstd::arithmetic::div_mod::lemma_div_multiples_vanish(
                    rate_range as int,
                    10000,
                );
            }
            return Ok(rate_params.optimal_rate + rate_range);
        }
        let excess = utilization_rate - optimal_utilization;
        let scaled = match excess.checked_mul(10000) {
            Some(v) => v,
            None => {
                return Err(StakeLendError::MathOverflow);
            },
        };
        let util_ratio = scaled / max_excess;
        proof {
            if utilization_rate <= 10000 {
                lemma_borrow_rate_bounds(*rate_params, utilization_rate as int);
                lemma_scaled_ratio_le(excess as int, max_excess as int);
                assert(rate_range * util_ratio <= 30000 * 10000) by (nonlinear_arith)
                    requires 0 <= rate_range <= 30000 && 0 <= util_ratio <= 10000;
            }
        }
        let additional_rate = match rate_range.checked_mul(util_ratio) {
            Some(v) => v / 10000,
            None => {
                return Err(StakeLendError::MathOverflow);
            },
        };
        proof {
            vstd::arithmetic::div_mod::lemma_div_is_ordered(
                rate_range * util_ratio,
                u64::MAX as int,
                10000,
            );
        }
        Ok(rate_params.optimal_rate + additional_rate)
    }
}

/// The supply rate: the borrow rate earned on the utilized fraction, less the
/// reserve factor's cut.
pub open spec fn spec_supply_rate(borrow_rate: int, utilization: int, reserve_factor_bps: int)
    -> int {
    (borrow_rate * utilization / 10000) * (10000 - reserve_factor_bps) / 10000
}

/// Calculate the supply interest rate from the borrow rate and utilization.
///
/// A reserve factor above 100% is rejected; overflow of either intermediate
/// product fails with `MathOverflow`; otherwise the result is exactly
/// `floor(floor(borrow_rate * utilization / 10000) * (10000 - reserve) / 10000)`.
pub fn calculate_supply_rate(borrow_rate: u64, utilization_rate: u64, reserve_factor_bps: u16)
    -> (r: Result<u64, StakeLendError>)
    ensures
        reserve_factor_bps > 10000 ==> r == Err::<u64, StakeLendError>(
            StakeLendError::InvalidParameter,
        ),
        reserve_factor_bps <= 10000 && borrow_rate * utilization_rate > u64::MAX ==> r == Err::<
            u64,
            StakeLendError,
        >(StakeLendError::MathOverflow),
        reserve_factor_bps <= 10000 && borrow_rate * utilization_rate <= u64::MAX ==> r is Ok
            && r->Ok_0 == spec_supply_rate(
            borrow_rate as int,
            utilization_rate as int,
            reserve_factor_bps as int,
        ),
{
    if reserve_factor_bps > 10000 {
        return Err(StakeLendError::InvalidParameter);
    }
    match borrow_rate.checked_mul(utilization_rate) {
        Some(scaled) => {
            let contribution = scaled / 10000;
            let reserve_factor = 10000 - (reserve_factor_bps as u64);
            proof {
                assert(contribution * reserve_factor <= contribution * 10000) by (nonlinear_arith)
                    requires contribution >= 0 && reserve_factor <= 10000;
                assert(contribution <= scaled) by {
                    vstd::arithmetic::div_mod::lemma_div_nonincreasing(scaled as int, 10000);
                }
                assert(contribution * 10000 <= u64::MAX) by (nonlinear_arith)
                    requires contribution <= scaled / 10000 && scaled <= u64::MAX;
            }
            Ok(contribution * reserve_factor / 10000)
        },
        None => Err(StakeLendError::MathOverflow),
    }
}

} // verus!
