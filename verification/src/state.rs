//! Pool state: the shared envelope and the per-variant data of basic,
//! lending, and lock pools, with the invariants every committed operation
//! preserves.
use vstd::prelude::*;

use crate::errors::StakeLendError;
use crate::interest::INDEX_SCALE;
use crate::math::spec_utilization_rate;
use crate::oracle::AssetId;
use crate::rates::{InterestRateParams, spec_borrow_rate, spec_supply_rate};

verus! {

/// The three pool variants.
#[derive(Clone, Copy, Debug, PartialEq, Eq, Structural)]
pub enum PoolType {
    Basic,
    Lending,
    Lock,
}

impl PoolType {
    /// The wire tag of this pool type.
    pub fn tag(&self) -> (r: u8)
        ensures
            r == (match self {
                PoolType::Basic => 0u8,
                PoolType::Lending => 1u8,
                PoolType::Lock => 2u8,
            }),
    {
        match self {
            PoolType::Basic => 0,
            PoolType::Lending => 1,
            PoolType::Lock => 2,
        }
    }

    /// Decode a wire tag; any unknown tag is an invalid instruction.
    pub fn from_tag(value: u8) -> (r: Result<PoolType, StakeLendError>)
        ensures
            value == 0 ==> r == Ok::<PoolType, StakeLendError>(PoolType::Basic),
            value == 1 ==> r == Ok::<PoolType, StakeLendError>(PoolType::Lending),
            value == 2 ==> r == Ok::<PoolType, StakeLendError>(PoolType::Lock),
            value > 2 ==> r == Err::<PoolType, StakeLendError>(StakeLendError::InvalidInstruction),
    {
        match value {
            0 => Ok(PoolType::Basic),
            1 => Ok(PoolType::Lending),
            2 => Ok(PoolType::Lock),
            _ => Err(StakeLendError::InvalidInstruction),
        }
    }
}

/// Data of a basic staking pool.
#[derive(Clone, Copy, Debug, PartialEq, Eq, Structural)]
pub struct BasicPoolData {
    /// Fee for instant unstaking, in basis points.
    pub instant_unstake_fee_bps: u16,
}

/// Data of a collateralized lending pool.
#[derive(Clone, Debug)]
pub struct LendingPoolData {
    /// Parameters of the kinked rate curve.
    pub interest_rate_params: InterestRateParams,
    /// Borrow rate derived from the current utilization, in basis points.
    pub current_borrow_rate: u64,
    /// Supply rate derived from the borrow rate and utilization, in basis
    /// points.
    pub current_supply_rate: u64,
    /// Outstanding borrowed principal, interest reconciled in on every touch.
    pub total_borrows: u64,
    /// Liquidity available to borrow or withdraw: deposits minus borrows.
    pub available_liquidity: u64,
    /// Utilization derived from borrows and deposits, in basis points.
    pub utilization_rate: u64,
    /// Share of interest kept back from suppliers, in basis points.
    pub reserve_factor_bps: u16,
    /// Monotonically non-decreasing global interest index (starts at 1.0
    /// scaled by `INDEX_SCALE`).
    pub accumulated_interest_index: u128,
    /// Timestamp of the last index update.
    pub last_interest_update_timestamp: u64,
    /// Health threshold under which positions become liquidatable, in basis
    /// points.
    pub liquidation_threshold: u16,
    /// Extra collateral awarded to liquidators, in basis points.
    pub liquidation_bonus: u16,
    /// Maximum loan-to-value ratio, in basis points.
    pub max_ltv: u16,
    /// Supported collateral assets with their collateral factors in basis
    /// points.
    pub supported_collaterals: Vec<(AssetId, u16)>,
}

/// Data of a lock (time-vested) pool.
#[derive(Clone, Copy, Debug, PartialEq, Eq, Structural)]
pub struct LockPoolData {
    /// Shortest accepted lock, in seconds.
    pub min_lock_duration: u64,
    /// Longest accepted lock, in seconds.
    pub max_lock_duration: u64,
    /// Smallest accepted locked amount.
    pub min_lock_amount: u64,
    /// Base annual reward rate, in basis points.
    pub base_reward_rate: u64,
    /// Yield boost at the minimum duration, in basis points.
    pub min_duration_boost_bps: u16,
    /// Yield boost at the maximum duration, in basis points.
    pub max_boost_bps: u16,
    /// Penalty for unlocking before maturity, in basis points.
    pub early_unlock_penalty_bps: u16,
    /// Sum of all currently locked amounts.
    pub total_locked: u64,
    /// Number of positions ever created.
    pub positions_count: u64,
    /// Identifier for the next position.
    pub next_position_id: u64,
}

/// Variant-specific pool data.
#[derive(Clone, Debug)]
pub enum PoolData {
    Basic(BasicPoolData),
    Lending(LendingPoolData),
    Lock(LockPoolData),
}

/// A pool: the envelope shared by all variants plus the variant data.
#[derive(Clone, Debug)]
pub struct Pool {
    /// Which variant this pool is.
    pub pool_type: PoolType,
    /// The token this pool holds.
    pub token_mint: AssetId,
    /// Smallest accepted deposit.
    pub min_deposit: u64,
    /// Largest accepted deposit (0 means uncapped).
    pub max_deposit: u64,
    /// Total principal supplied to the pool.
    pub total_deposits: u64,
    /// Fee taken on deposit, in basis points.
    pub deposit_fee_bps: u16,
    /// Fee taken on withdrawal, in basis points.
    pub withdrawal_fee_bps: u16,
    /// Total pool shares outstanding.
    pub total_shares: u64,
    /// Timestamp of the last committed operation.
    pub last_update_timestamp: u64,
    /// Variant-specific data.
    pub data: PoolData,
}

/// Look a collateral asset up in the supported list; the most recently added
/// entry wins.
pub open spec fn spec_factor_lookup(s: Seq<(AssetId, u16)>, asset: AssetId) -> Option<u16>
    decreases s.len(),
{
    if s.len() == 0 {
        None
    } else if s.last().0 == asset {
        Some(s.last().1)
    } else {
        spec_factor_lookup(s.drop_last(), asset)
    }
}

impl LendingPoolData {
    /// The collateral factor the pool assigns to an asset, if supported.
    pub fn supported_collateral_factor(&self, asset: AssetId) -> (r: Option<u16>)
        ensures
            r == spec_factor_lookup(self.supported_collaterals@, asset),
    {
        let ghost s = self.supported_collaterals@;
        let mut i: usize = self.supported_collaterals.len();
        proof {
            assert(s.take(i as int) =~= s);
        }
        while i > 0
            invariant
                i <= s.len(),
                self.supported_collaterals@ == s,
                spec_factor_lookup(s, asset) == spec_factor_lookup(s.take(i as int), asset),
            decreases i,
        {
            i = i - 1;
            let entry = self.supported_collaterals[i];
            proof {
                assert(s.take(i as int + 1).last() == s[i as int]);
                assert(s.take(i as int + 1).drop_last() =~= s.take(i as int));
            }
            if entry.0 == asset {
                return Some(entry.1);
            }
        }
        proof {
            assert(s.take(0) =~= Seq::<(AssetId, u16)>::empty());
        }
        None
    }

    /// Declare an asset as accepted collateral, shadowing any earlier factor.
    pub fn set_supported_collateral(&mut self, asset: AssetId, collateral_factor: u16) -> (r:
        Result<(), StakeLendError>)
        ensures
            collateral_factor > 10000 ==> r == Err::<(), StakeLendError>(
                StakeLendError::InvalidParameter,
            ) && final(self).supported_collaterals@ == old(self).supported_collaterals@,
            collateral_factor <= 10000 ==> r == Ok::<(), StakeLendError>(())
                && final(self).supported_collaterals@ =~= old(self).supported_collaterals@.push(
                (asset, collateral_factor),
            ),
            spec_collateral_factors_bounded(old(self).supported_collaterals@) ==> (
            spec_collateral_factors_bounded(final(self).supported_collaterals@)),
            final(self).interest_rate_params == old(self).interest_rate_params,
            final(self).current_borrow_rate == old(self).current_borrow_rate,
            final(self).current_supply_rate == old(self).current_supply_rate,
            final(self).total_borrows == old(self).total_borrows,
            final(self).available_liquidity == old(self).available_liquidity,
            final(self).utilization_rate == old(self).utilization_rate,
            final(self).reserve_factor_bps == old(self).reserve_factor_bps,
            final(self).accumulated_interest_index == old(self).accumulated_interest_index,
            final(self).last_interest_update_timestamp == old(self).last_interest_update_timestamp,
            final(self).liquidation_threshold == old(self).liquidation_threshold,
            final(self).liquidation_bonus == old(self).liquidation_bonus,
            final(self).max_ltv == old(self).max_ltv,
    {
        if collateral_factor > 10000 {
            return Err(StakeLendError::InvalidParameter);
        }
        self.supported_collaterals.push((asset, collateral_factor));
        proof {
            if spec_collateral_factors_bounded(old(self).supported_collaterals@) {
                assert(forall|i: int|
                    0 <= i < old(self).supported_collaterals@.len()
                        ==> #[trigger] self.supported_collaterals@[i] == old(
                        self,
                    ).supported_collaterals@[i]);
            }
        }
        Ok(())
    }
}

/// Every configured collateral factor is at most 100%.
pub open spec fn spec_collateral_factors_bounded(s: Seq<(AssetId, u16)>) -> bool {
    forall|i: int| 0 <= i < s.len() ==> (#[trigger] s[i]).1 <= 10000
}

/// Equality of two lending-pool data values, down to the supported-collateral
/// list.
pub open spec fn spec_lending_data_eq(a: LendingPoolData, b: LendingPoolData) -> bool {
    &&& a.interest_rate_params == b.interest_rate_params
    &&& a.current_borrow_rate == b.current_borrow_rate
    &&& a.current_supply_rate == b.current_supply_rate
    &&& a.total_borrows == b.total_borrows
    &&& a.available_liquidity == b.available_liquidity
    &&& a.utilization_rate == b.utilization_rate
    &&& a.reserve_factor_bps == b.reserve_factor_bps
    &&& a.accumulated_interest_index == b.accumulated_interest_index
    &&& a.last_interest_update_timestamp == b.last_interest_update_timestamp
    &&& a.liquidation_threshold == b.liquidation_threshold
    &&& a.liquidation_bonus == b.liquidation_bonus
    &&& a.max_ltv == b.max_ltv
    &&& a.supported_collaterals@ == b.supported_collaterals@
}

/// Equality of two pool values, down to the variant data.
pub open spec fn spec_pool_eq(a: Pool, b: Pool) -> bool {
    &&& a.pool_type == b.pool_type
    &&& a.token_mint == b.token_mint
    &&& a.min_deposit == b.min_deposit
    &&& a.max_deposit == b.max_deposit
    &&& a.total_deposits == b.total_deposits
    &&& a.deposit_fee_bps == b.deposit_fee_bps
    &&& a.withdrawal_fee_bps == b.withdrawal_fee_bps
    &&& a.total_shares == b.total_shares
    &&& a.last_update_timestamp == b.last_update_timestamp
    &&& match (a.data, b.data) {
        (PoolData::Basic(x), PoolData::Basic(y)) => x == y,
        (PoolData::Lending(x), PoolData::Lending(y)) => spec_lending_data_eq(x, y),
        (PoolData::Lock(x), PoolData::Lock(y)) => x == y,
        _ => false,
    }
}

/// Well-formedness of a lending pool. Every committed operation preserves
/// this; in particular total borrows never exceed total deposits, the cached
/// available liquidity is exactly their difference, and the cached
/// utilization and rates are exactly the derived values.
pub open spec fn spec_lending_pool_wf(p: Pool) -> bool {
    &&& p.pool_type == PoolType::Lending
    &&& p.deposit_fee_bps <= 10000
    &&& p.withdrawal_fee_bps <= 10000
    &&& p.data is Lending
    &&& {
        let d = p.data->Lending_0;
        &&& d.total_borrows <= p.total_deposits
        &&& d.available_liquidity == p.total_deposits - d.total_borrows
        &&& d.utilization_rate == spec_utilization_rate(
            d.total_borrows as int,
            p.total_deposits as int,
        )
        &&& d.utilization_rate <= 10000
        &&& d.interest_rate_params.wf()
        &&& d.reserve_factor_bps <= 5000
        &&& d.liquidation_threshold <= 10000
        &&& d.liquidation_bonus <= 3000
        &&& 1 <= d.max_ltv <= 10000
        &&& d.accumulated_interest_index >= INDEX_SCALE
        &&& d.current_borrow_rate == spec_borrow_rate(
            d.interest_rate_params,
            d.utilization_rate as int,
        )
        &&& d.current_borrow_rate <= 30000
        &&& d.current_supply_rate == spec_supply_rate(
            d.current_borrow_rate as int,
            d.utilization_rate as int,
            d.reserve_factor_bps as int,
        )
        &&& spec_collateral_factors_bounded(d.supported_collaterals@)
    }
}

impl Pool {
    /// Create a lending pool at market initialization.
    ///
    /// Rejects invalid configuration: a malformed rate curve, a reserve
    /// factor above 50%, a liquidation bonus above 30%, a max LTV outside
    /// (0%, 100%], thresholds or fees above 100%. The pool starts empty with
    /// the interest index at 1.0.
    pub fn new_lending(
        token_mint: AssetId,
        min_deposit: u64,
        max_deposit: u64,
        deposit_fee_bps: u16,
        withdrawal_fee_bps: u16,
        interest_rate_params: InterestRateParams,
        reserve_factor_bps: u16,
        liquidation_threshold: u16,
        liquidation_bonus: u16,
        max_ltv: u16,
        now: u64,
    ) -> (r: Result<Pool, StakeLendError>)
        ensures
            r is Ok ==> spec_lending_pool_wf(r->Ok_0),
            r is Ok <==> (interest_rate_params.wf() && reserve_factor_bps <= 5000
                && liquidation_threshold <= 10000 && liquidation_bonus <= 3000 && 1 <= max_ltv
                <= 10000 && deposit_fee_bps <= 10000 && withdrawal_fee_bps <= 10000),
            r is Err ==> r == Err::<Pool, StakeLendError>(StakeLendError::InvalidParameter),
            r is Ok ==> ({
                let p = r->Ok_0;
                &&& p.token_mint == token_mint
                &&& p.min_deposit == min_deposit
                &&& p.max_deposit == max_deposit
                &&& p.total_deposits == 0
                &&& p.total_shares == 0
                &&& p.last_update_timestamp == now
                &&& p.data->Lending_0.total_borrows == 0
                &&& p.data->Lending_0.accumulated_interest_index == INDEX_SCALE
                &&& p.data->Lending_0.last_interest_update_timestamp == now
                &&& p.data->Lending_0.interest_rate_params == interest_rate_params
                &&& p.data->Lending_0.supported_collaterals@.len() == 0
            }),
    {
        if !(interest_rate_params.is_valid() && reserve_factor_bps <= 5000 && liquidation_threshold
            <= 10000 && liquidation_bonus <= 3000 && 1 <= max_ltv && max_ltv <= 10000
            && deposit_fee_bps <= 10000 && withdrawal_fee_bps <= 10000) {
            return Err(StakeLendError::InvalidParameter);
        }
        let current_borrow_rate = match crate::rates::calculate_borrow_rate(
            0,
            &interest_rate_params,
        ) {
            Ok(rate) => rate,
            Err(e) => {
                return Err(StakeLendError::InvalidParameter);
            },
        };
        let current_supply_rate = match crate::rates::calculate_supply_rate(
            current_borrow_rate,
            0,
            reserve_factor_bps,
        ) {
            Ok(rate) => rate,
            Err(e) => {
                return Err(StakeLendError::InvalidParameter);
            },
        };
        proof {
            assert(spec_utilization_rate(0, 0) == 0);
            crate::rates::lemma_borrow_rate_bounds(interest_rate_params, 0);
            assert(spec_supply_rate(current_borrow_rate as int, 0, reserve_factor_bps as int)
                == 0) by {
                assert(current_borrow_rate * 0 == 0);
                assert(0int * (10000 - reserve_factor_bps) == 0);
            }
        }
        Ok(
            Pool {
                pool_type: PoolType::Lending,
                token_mint,
                min_deposit,
                max_deposit,
                total_deposits: 0,
                deposit_fee_bps,
                withdrawal_fee_bps,
                total_shares: 0,
                last_update_timestamp: now,
                data: PoolData::Lending(
                    LendingPoolData {
                        interest_rate_params,
                        current_borrow_rate,
                        current_supply_rate,
                        total_borrows: 0,
                        available_liquidity: 0,
                        utilization_rate: 0,
                        reserve_factor_bps,
                        accumulated_interest_index: INDEX_SCALE,
                        last_interest_update_timestamp: now,
                        liquidation_threshold,
                        liquidation_bonus,
                        max_ltv,
                        supported_collaterals: Vec::new(),
                    },
                ),
            },
        )
    }
}

} // verus!
