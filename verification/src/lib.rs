//! Verified core of the Mirror Protocol contracts: fixed-point decimal
//! arithmetic, the staking reward ledger, collateralized debt positions,
//! short-position fund locking, the oracle price book, and the swap/route
//! planning used by the router.

pub mod asset;
pub mod decimal;
pub mod lock;
pub mod math;
pub mod mint;
pub mod mock_querier;
pub mod oracle;
pub mod pagination;
pub mod router;
pub mod short_reward;
pub mod staking;
