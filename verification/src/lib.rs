//! Verified core of a staking and lending protocol: basis-point fixed-point
//! arithmetic, a kinked interest-rate curve, lazy interest-index accrual,
//! collateral/debt obligation ledgers, health-factor computation, and the
//! borrow/repay/liquidate state machine over lending pools.
pub mod errors;
pub mod health;
pub mod interest;
pub mod lending;
pub mod liquidation;
pub mod lock;
pub mod math;
pub mod obligation;
pub mod oracle;
pub mod pda;
pub mod pool;
pub mod rates;
pub mod rewards;
pub mod state;
