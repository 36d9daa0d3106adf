use vstd::prelude::*;

verus! {

/// Errors raised by the protocol's verified core.
///
/// Numeric failures are always `MathOverflow`; policy failures
/// (`InsufficientLiquidity`, `InsufficientCollateral`, ...) are raised before
/// any state is changed; data failures (`PriceNotFound`, `InvalidAccountData`,
/// ...) mean the caller supplied wrong or missing inputs.
#[derive(Clone, Copy, Debug, PartialEq, Eq, Structural)]
pub enum StakeLendError {
    InvalidInstruction,
    NotRentExempt,
    UninitializedAccount,
    InvalidProgramAccount,
    InvalidOwner,
    InsufficientFunds,
    InvalidDepositAmount,
    InvalidWithdrawalAmount,
    InvalidAccountData,
    PoolFull,
    PoolNotAcceptingDeposits,
    PoolNotAcceptingBorrows,
    InsufficientLiquidity,
    InsufficientCollateral,
    UnhealthyPosition,
    LiquidationNotAllowed,
    LockPeriodNotEnded,
    InvalidOracleData,
    InvalidInterestRateModel,
    MathOverflow,
    InvalidPoolState,
    InvalidTokenAccount,
    InvalidParameter,
    InvalidPoolType,
    InvalidLockDuration,
    PriceNotFound,
    NoDebtFound,
    NoCollateralFound,
    OracleDataNotFound,
    StaleOracleData,
    LowPriceConfidence,
    InvalidOraclePrice,
    UnsupportedCollateral,
}

impl StakeLendError {
    /// Short stable name for logging and display.
    pub fn as_str(&self) -> &'static str {
        match self {
            StakeLendError::InvalidInstruction => "invalid instruction",
            StakeLendError::NotRentExempt => "not rent exempt",
            StakeLendError::UninitializedAccount => "account not initialized",
            StakeLendError::InvalidProgramAccount => "program account not expected",
            StakeLendError::InvalidOwner => "invalid owner",
            StakeLendError::InsufficientFunds => "insufficient funds",
            StakeLendError::InvalidDepositAmount => "invalid deposit amount",
            StakeLendError::InvalidWithdrawalAmount => "invalid withdrawal amount",
            StakeLendError::InvalidAccountData => "invalid account data",
            StakeLendError::PoolFull => "pool full",
            StakeLendError::PoolNotAcceptingDeposits => "pool not accepting deposits",
            StakeLendError::PoolNotAcceptingBorrows => "pool not accepting borrows",
            StakeLendError::InsufficientLiquidity => "insufficient liquidity",
            StakeLendError::InsufficientCollateral => "insufficient collateral",
            StakeLendError::UnhealthyPosition => "unhealthy position",
            StakeLendError::LiquidationNotAllowed => "liquidation not allowed",
            StakeLendError::LockPeriodNotEnded => "lock period not ended",
            StakeLendError::InvalidOracleData => "invalid oracle data",
            StakeLendError::InvalidInterestRateModel => "invalid interest rate model",
            StakeLendError::MathOverflow => "mathematical operation overflow",
            StakeLendError::InvalidPoolState => "invalid pool state",
            StakeLendError::InvalidTokenAccount => "invalid token account",
            StakeLendError::InvalidParameter => "invalid parameter",
            StakeLendError::InvalidPoolType => "invalid pool type",
            StakeLendError::InvalidLockDuration => "invalid lock duration",
            StakeLendError::PriceNotFound => "price not found",
            StakeLendError::NoDebtFound => "no debt found",
            StakeLendError::NoCollateralFound => "no collateral found",
            StakeLendError::OracleDataNotFound => "oracle data not found",
            StakeLendError::StaleOracleData => "stale oracle data",
            StakeLendError::LowPriceConfidence => "low price confidence",
            StakeLendError::InvalidOraclePrice => "invalid oracle price",
            StakeLendError::UnsupportedCollateral => "unsupported collateral",
        }
    }
}

} // verus!
