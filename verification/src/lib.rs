//! A staking pool for Stellar.
//!
//! Users stake a token and get shares of what is deposited; rewards accrue ledger by ledger, or
//! epoch by epoch. Every entry point of [`vault::VaultContract`] is a function of the pool as one
//! call sees it, an [`env::Env`]: it hands back the pool as it is afterwards, together with what
//! the call makes happen outside, or an error, after which nothing has happened. What a call does
//! is said once, as a function of [`env::State`], which an `Env` stands for.
//!
//! The modules under [`laws`] state what holds of the pool whatever is done with it.
pub mod address;
pub mod admin;
pub mod balance;
pub mod calls;
pub mod claims;
pub mod env;
pub mod epochs;
pub mod errors;
pub mod estimates;
pub mod events;
pub mod example_consumer;
pub mod history;
pub mod interface;
pub mod laws;
pub mod math;
pub mod pool_admin;
pub mod pool_queries;
pub mod positions;
pub mod queries;
pub mod rewards;
pub mod staking;
pub mod storage;
pub mod streaks;
pub mod table;
pub mod unstaking;
pub mod vault;
