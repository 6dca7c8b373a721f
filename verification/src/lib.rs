//! A verified accounting core for a collateralised lending protocol with
//! folded leverage: user records, a lending pool, a collateral pool and
//! the liquidation rules that connect them.

pub mod decimal;
pub mod error;
pub mod user_management;
pub mod bucket;
pub mod lending_pool;
pub mod ordered;
pub mod collateral_pool;
pub mod folded_leverage;
pub mod liquidation;
pub mod laws;
