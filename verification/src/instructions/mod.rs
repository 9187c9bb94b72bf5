//! The four operations on a pool, each on a snapshot of the accounts it
//! touches.

pub mod add_liquidity;
pub mod init_pool;
pub mod remove_liquidity;
pub mod swap;
