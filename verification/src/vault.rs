//! The contract, and how it is set up.
use crate::address::Address;
use crate::balance::{DEFAULT_TOKEN_DECIMALS, MAX_RATE_BPS};
use crate::env::{Env, State};
use crate::errors::VaultError;
use crate::events;
use crate::events::Event;
use crate::storage::{Pool, Settings};
use vstd::prelude::*;

verus! {

/// The staking pool. Its entry points stand in the modules of what they are about.
pub struct VaultContract;

impl State {
    /// A pool that was set up.
    pub open spec fn set_up(
        self,
        admin: Address,
        token: Address,
        reward_rate_bps: u32,
        stake_decimals: Option<u32>,
        reward_decimals: Option<u32>,
    ) -> State {
        self.with_pool(Pool { paused: false, ..self.pool }).with_settings(
            Settings {
                admin: Some(admin),
                token: Some(token),
                slash_treasury: Some(admin),
                initialized_at_ledger: Some(self.sequence),
                reward_rate_bps: if reward_rate_bps > 0 {
                    reward_rate_bps
                } else {
                    self.settings.reward_rate_bps
                },
                stake_decimals: match stake_decimals {
                    Some(decimals) => decimals,
                    None => DEFAULT_TOKEN_DECIMALS,
                },
                reward_decimals: match reward_decimals {
                    Some(decimals) => decimals,
                    None => DEFAULT_TOKEN_DECIMALS,
                },
                ..self.settings
            },
        ).publish(
            Event::PoolInitialized {
                admin,
                stake_token: token,
                reward_token: token,
                reward_rate_bps,
            },
        )
    }

    /// What `initialize` does.
    pub open spec fn initialize(
        self,
        admin: Address,
        token: Address,
        reward_rate_bps: u32,
        stake_decimals: Option<u32>,
        reward_decimals: Option<u32>,
    ) -> Result<State, VaultError> {
        if self.settings.admin is Some {
            Err(VaultError::AlreadyInitialized)
        } else if admin == self.contract || token == self.contract {
            Err(VaultError::InvalidAddress)
        } else if reward_rate_bps > MAX_RATE_BPS {
            Err(VaultError::RateTooHigh)
        } else {
            Ok(self.set_up(admin, token, reward_rate_bps, stake_decimals, reward_decimals))
        }
    }
}

impl VaultContract {
    /// Sets the pool up with its admin and the token that it takes.
    ///
    /// The reward rate is a yearly rate in basis points; 0 leaves it to be set later. The
    /// decimals of the two tokens are those of a Stellar asset where they are not given.
    pub fn initialize(
        env: Env,
        admin: Address,
        token: Address,
        reward_rate_bps: u32,
        stake_decimals: Option<u32>,
        reward_decimals: Option<u32>,
    ) -> (r: Result<Env, VaultError>)
        ensures
            crate::env::moves_to(
                r,
                env@.initialize(admin, token, reward_rate_bps, stake_decimals, reward_decimals),
            ),
    {
        let mut env = env;
        if env.settings.admin.is_some() {
            return Err(VaultError::AlreadyInitialized);
        }
        if admin == env.contract || token == env.contract {
            return Err(VaultError::InvalidAddress);
        }
        Self::validate_rate_bps(reward_rate_bps)?;
        env.settings.admin = Some(admin);
        env.settings.token = Some(token);
        env.pool.paused = false;
        env.settings.slash_treasury = Some(admin);
        env.settings.initialized_at_ledger = Some(env.sequence);
        if reward_rate_bps > 0 {
            env.settings.reward_rate_bps = reward_rate_bps;
        }
        env.settings.stake_decimals = stake_decimals.unwrap_or(DEFAULT_TOKEN_DECIMALS);
        env.settings.reward_decimals = reward_decimals.unwrap_or(DEFAULT_TOKEN_DECIMALS);
        events::pool_initialized(&mut env, &admin, &token, &token, reward_rate_bps);
        Ok(env)
    }

    /// Checks that a reward rate is not above the highest one.
    pub fn validate_rate_bps(rate_bps: u32) -> (r: Result<(), VaultError>)
        ensures
            r == (if rate_bps > MAX_RATE_BPS {
                Err(VaultError::RateTooHigh)
            } else {
                Ok::<(), VaultError>(())
            }),
    {
        if rate_bps > MAX_RATE_BPS {
            Err(VaultError::RateTooHigh)
        } else {
            Ok(())
        }
    }
}

} // verus!
