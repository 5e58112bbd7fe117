//! Questions about the pool as a whole.
use crate::address::Address;
use crate::admin;
use crate::balance::shares_to_amount;
use crate::env::{Env, State};
use crate::errors::VaultError;
use crate::history::copied;
use crate::storage::{
    ChangelogEntry, ContractMetadata, InterfaceId, LeaderboardEntry, PoolConfig, PoolStats,
    RateHistoryEntry, TotalStakedSnapshot,
};
use crate::vault::VaultContract;
use vstd::prelude::*;

verus! {

/// The version of the contract.
pub const CONTRACT_VERSION: &'static str = "0.1.0";

/// The name of the contract.
pub const CONTRACT_NAME: &'static str = "stellar-staking-pool";

/// What the contract is.
pub const CONTRACT_DESCRIPTION: &'static str =
    "A staking pool contract for Stellar DeFi vault positions.";

/// The last of the checkpoints that is not later than a ledger.
pub open spec fn snapshot_until(snapshots: Seq<TotalStakedSnapshot>, ledger: u32) -> Option<
    TotalStakedSnapshot,
>
    decreases snapshots.len(),
{
    if snapshots.len() == 0 {
        None
    } else if snapshots.last().ledger <= ledger {
        Some(snapshots.last())
    } else {
        snapshot_until(snapshots.drop_last(), ledger)
    }
}

impl State {
    /// `value`, where the vault token is known.
    pub open spec fn with_token<T>(self, value: T) -> Result<T, VaultError> {
        match self.settings.token {
            Some(_) => Ok(value),
            None => Err(VaultError::NotInitialized),
        }
    }

    /// The campaign that runs now: its multiplier and its end.
    pub open spec fn running_campaign(self) -> Option<(u32, u32)> {
        match self.settings.campaign {
            Some(c) => if c.starts_at_ledger <= self.sequence < c.ends_at_ledger {
                Some((c.multiplier_bps, c.ends_at_ledger))
            } else {
                None
            },
            None => None,
        }
    }
}

impl VaultContract {
    /// The admin.
    pub fn get_admin(env: &Env) -> (r: Result<Address, VaultError>)
        ensures
            r == env@.once_set_up(env@.admin()),
    {
        admin::get_admin(env)
    }

    /// The version of the contract.
    pub fn get_version(_env: &Env) -> (version: String)
        ensures
            version@ == CONTRACT_VERSION@,
    {
        CONTRACT_VERSION.to_string()
    }

    /// What the contract says of itself.
    pub fn contract_metadata(_env: &Env) -> (metadata: ContractMetadata)
        ensures
            metadata.name@ == CONTRACT_NAME@,
            metadata.version@ == CONTRACT_VERSION@,
            metadata.description@ == CONTRACT_DESCRIPTION@,
    {
        ContractMetadata {
            name: CONTRACT_NAME.to_string(),
            version: CONTRACT_VERSION.to_string(),
            description: CONTRACT_DESCRIPTION.to_string(),
        }
    }

    /// The token that users stake.
    pub fn get_stake_token(env: &Env) -> (r: Result<Address, VaultError>)
        ensures
            r == env@.with_token(env@.settings.token->Some_0),
    {
        match env.settings.token {
            Some(token) => Ok(token),
            None => Err(VaultError::NotInitialized),
        }
    }

    /// The reward token, where one is named.
    pub fn get_reward_token(env: &Env) -> (r: Result<Address, VaultError>)
        ensures
            r == (match env@.settings.reward_token {
                Some(token) => Ok::<Address, VaultError>(token),
                None => Err(VaultError::NotInitialized),
            }),
    {
        match env.settings.reward_token {
            Some(token) => Ok(token),
            None => Err(VaultError::NotInitialized),
        }
    }

    /// The ledger of the last stake, unstake, claim, pause or resumption: 0 where there was none.
    pub fn get_last_updated_ledger(env: &Env) -> (ledger: u32)
        ensures
            ledger == env@.pool.last_updated_ledger,
    {
        env.pool.last_updated_ledger
    }

    /// How many ledgers ago the pool was set up.
    pub fn pool_uptime_ledgers(env: &Env) -> (ledgers: u32)
        ensures
            ledgers == (match env@.settings.initialized_at_ledger {
                Some(ledger) => crate::math::ledgers_between(ledger, env@.sequence),
                None => 0,
            }),
    {
        match env.settings.initialized_at_ledger {
            Some(ledger) => env.sequence.saturating_sub(ledger),
            None => 0,
        }
    }

    /// Whether the pool is paused.
    pub fn is_paused(env: &Env) -> (r: bool)
        ensures
            r == env@.pool.paused,
    {
        env.pool.paused
    }

    /// Whether the pool is stopped for good.
    pub fn is_stopped(env: &Env) -> (r: bool)
        ensures
            r == env@.settings.stopped,
    {
        env.settings.stopped
    }

    /// All shares.
    pub fn total_staked(env: &Env) -> (r: Result<i128, VaultError>)
        ensures
            r == env@.once_set_up(env@.pool.total_shares),
    {
        admin::get_admin(env)?;
        Ok(env.pool.total_shares)
    }

    /// The governance weight of all users together.
    pub fn total_vote_weight(env: &Env) -> (r: Result<i128, VaultError>)
        ensures
            r == env@.once_set_up(env@.pool.total_shares),
    {
        Self::total_staked(env)
    }

    /// The pool's balance of the vault token, which `balance` is.
    pub fn contract_balance(env: &Env, balance: i128) -> (r: Result<i128, VaultError>)
        ensures
            r == env@.with_token(balance),
    {
        Self::get_stake_token(env)?;
        Ok(balance)
    }

    /// The tokens out of which rewards can be paid: the pool's balance of the vault token, which
    /// `balance` is. It covers what is staked as well as the reward pool.
    pub fn reward_token_balance(env: &Env, balance: i128) -> (r: Result<i128, VaultError>)
        ensures
            r == env@.with_token(balance),
    {
        Self::get_stake_token(env)?;
        Ok(balance)
    }

    /// All rewards that were paid.
    pub fn total_rewards_paid(env: &Env) -> (paid: i128)
        ensures
            paid == env@.pool.total_rewards_paid,
    {
        env.pool.total_rewards_paid
    }

    /// The last changes that an admin made, oldest first.
    pub fn get_changelog(env: &Env) -> (log: Vec<ChangelogEntry>)
        ensures
            log@ == env@.changelog,
    {
        copied(&env.changelog)
    }

    /// The tokens that `shares` stand for now.
    pub fn preview_redeem(env: &Env, shares: i128) -> (r: Result<i128, VaultError>)
        ensures
            r == (match env@.worth(shares) {
                Some(amount) => Ok::<i128, VaultError>(amount),
                None => Err(VaultError::ArithmeticError),
            }),
    {
        match shares_to_amount(env.pool.total_shares, env.pool.total_deposited, shares) {
            Some(amount) => Ok(amount),
            None => Err(VaultError::ArithmeticError),
        }
    }

    /// The decimals of the stake token.
    pub fn stake_decimals(env: &Env) -> (decimals: u32)
        ensures
            decimals == env@.settings.stake_decimals,
    {
        env.settings.stake_decimals
    }

    /// The decimals of the reward token.
    pub fn reward_decimals(env: &Env) -> (decimals: u32)
        ensures
            decimals == env@.settings.reward_decimals,
    {
        env.settings.reward_decimals
    }

    /// All shares and all deposited tokens.
    pub fn vault_state(env: &Env) -> (r: Result<(i128, i128), VaultError>)
        ensures
            r == env@.once_set_up((env@.pool.total_shares, env@.pool.total_deposited)),
    {
        admin::get_admin(env)?;
        Ok((env.pool.total_shares, env.pool.total_deposited))
    }

    /// How many shares can be burned at once: 0 where there is no limit.
    pub fn get_withdrawal_limit(env: &Env) -> (r: Result<i128, VaultError>)
        ensures
            r == env@.once_set_up(
                match env@.settings.withdrawal_limit {
                    Some(limit) => limit,
                    None => 0,
                },
            ),
    {
        admin::get_admin(env)?;
        Ok(env.settings.withdrawal_limit.unwrap_or(0))
    }

    /// The lock-up of a new position and the penalty on an exit from a locked one.
    pub fn get_lock_config(env: &Env) -> (r: Result<(u32, u32), VaultError>)
        ensures
            r == env@.once_set_up((env@.settings.lock_period, env@.settings.early_exit_penalty_bps)),
    {
        admin::get_admin(env)?;
        Ok((env.settings.lock_period, env.settings.early_exit_penalty_bps))
    }

    /// The fee on an exit.
    pub fn get_unstake_fee_bps(env: &Env) -> (bps: u32)
        ensures
            bps == env@.settings.unstake_fee_bps,
    {
        env.settings.unstake_fee_bps
    }

    /// The smallest position that a stake may leave.
    pub fn get_min_stake(env: &Env) -> (r: Result<i128, VaultError>)
        ensures
            r == env@.once_set_up(env@.settings.min_stake),
    {
        admin::get_admin(env)?;
        Ok(env.settings.min_stake)
    }

    /// How much can be deposited in all: 0 where there is no cap.
    pub fn get_pool_cap(env: &Env) -> (r: Result<i128, VaultError>)
        ensures
            r == env@.once_set_up(env@.settings.pool_cap),
    {
        admin::get_admin(env)?;
        Ok(env.settings.pool_cap)
    }

    /// The configuration of the pool.
    pub fn get_pool_config(env: &Env) -> (r: Result<PoolConfig, VaultError>)
        ensures
            r == (match (env@.settings.admin, env@.settings.token) {
                (Some(admin), Some(token)) => Ok(
                    PoolConfig {
                        admin,
                        stake_token: token,
                        reward_token: token,
                        reward_rate_bps: env@.settings.reward_rate_bps,
                        paused: env@.pool.paused,
                    },
                ),
                _ => Err(VaultError::NotInitialized),
            }),
    {
        let admin = admin::get_admin(env)?;
        let token = Self::get_stake_token(env)?;
        Ok(
            PoolConfig {
                admin,
                stake_token: token,
                reward_token: token,
                reward_rate_bps: env.settings.reward_rate_bps,
                paused: env.pool.paused,
            },
        )
    }

    /// The yearly reward rate.
    pub fn get_reward_rate_bps(env: &Env) -> (r: Result<u32, VaultError>)
        ensures
            r == env@.once_set_up(env@.settings.reward_rate_bps),
    {
        admin::get_admin(env)?;
        Ok(env.settings.reward_rate_bps)
    }

    /// The yearly reward rate.
    pub fn current_apr_bps(env: &Env) -> (bps: u32)
        ensures
            bps == env@.settings.reward_rate_bps,
    {
        env.settings.reward_rate_bps
    }

    /// When the reward rate changed, and from what, oldest first.
    pub fn get_rate_history(env: &Env) -> (r: Result<Vec<(u32, u32)>, VaultError>)
        ensures
            match r {
                Ok(history) => env@.settings.admin is Some && history@ == env@.rate_history,
                Err(e) => env@.settings.admin is None && e == VaultError::NotInitialized,
            },
    {
        admin::get_admin(env)?;
        Ok(copied(&env.rate_history))
    }

    /// The last changes of the reward rate with all that is known about them, oldest first.
    pub fn get_reward_rate_history(env: &Env) -> (history: Vec<RateHistoryEntry>)
        ensures
            history@ == env@.reward_rate_history,
    {
        copied(&env.reward_rate_history)
    }

    /// What the reward pool holds.
    pub fn get_reward_pool_balance(env: &Env) -> (r: Result<i128, VaultError>)
        ensures
            r == env@.once_set_up(env@.pool.reward_pool_balance),
    {
        admin::get_admin(env)?;
        Ok(env.pool.reward_pool_balance)
    }

    /// The boost tiers.
    pub fn get_boost_schedule(env: &Env) -> (r: Result<Vec<(u32, u32)>, VaultError>)
        ensures
            match r {
                Ok(schedule) => env@.settings.admin is Some && schedule@ == env@.boost_schedule,
                Err(e) => env@.settings.admin is None && e == VaultError::NotInitialized,
            },
    {
        admin::get_admin(env)?;
        Ok(copied(&env.boost_schedule))
    }

    /// The campaign that runs now, where one does: its multiplier and its end.
    pub fn active_campaign(env: &Env) -> (r: Result<Option<(u32, u32)>, VaultError>)
        ensures
            r == env@.once_set_up(env@.running_campaign()),
    {
        admin::get_admin(env)?;
        match env.settings.campaign {
            Some(c) => {
                if env.sequence >= c.starts_at_ledger && env.sequence < c.ends_at_ledger {
                    Ok(Some((c.multiplier_bps, c.ends_at_ledger)))
                } else {
                    Ok(None)
                }
            },
            None => Ok(None),
        }
    }

    /// How many admin actions there were.
    pub fn get_admin_action_count(env: &Env) -> (r: Result<u32, VaultError>)
        ensures
            r == env@.once_set_up(env@.settings.admin_action_count),
    {
        admin::get_admin(env)?;
        Ok(env.settings.admin_action_count)
    }

    /// Figures about the pool, whose balance of the vault token is `balance`.
    pub fn pool_stats(env: &Env, balance: i128) -> (r: Result<PoolStats, VaultError>)
        ensures
            r == (if env@.settings.admin is None || env@.settings.token is None {
                Err(VaultError::NotInitialized)
            } else {
                Ok(
                    PoolStats {
                        total_staked: env@.pool.total_deposited,
                        total_stakers: env@.pool.total_stakers,
                        reward_rate_bps: env@.settings.reward_rate_bps as i128,
                        reward_token_balance: balance,
                        paused: env@.pool.paused,
                        total_rewards_paid: env@.pool.total_rewards_paid,
                    },
                )
            }),
    {
        admin::get_admin(env)?;
        Self::get_stake_token(env)?;
        Ok(
            PoolStats {
                total_staked: env.pool.total_deposited,
                total_stakers: env.pool.total_stakers,
                reward_rate_bps: env.settings.reward_rate_bps as i128,
                reward_token_balance: balance,
                paused: env.pool.paused,
                total_rewards_paid: env.pool.total_rewards_paid,
            },
        )
    }

    /// How many positions a user can have: 0 where there is no limit.
    pub fn get_max_positions_per_user(env: &Env) -> (max: u32)
        ensures
            max == env@.settings.max_positions,
    {
        env.settings.max_positions
    }

    /// The largest positions, largest first.
    pub fn get_leaderboard(env: &Env) -> (r: Result<Vec<LeaderboardEntry>, VaultError>)
        ensures
            match r {
                Ok(board) => env@.settings.admin is Some && board@ == env@.leaderboard,
                Err(e) => env@.settings.admin is None && e == VaultError::NotInitialized,
            },
    {
        admin::get_admin(env)?;
        Ok(copied(&env.leaderboard))
    }

    /// Whether this pool has an optional part. The lock-up and the whitelist are always there.
    pub fn supports_interface(_env: &Env, interface: InterfaceId) -> (r: bool)
        ensures
            r == (interface is Base || interface is Lockup || interface is Whitelist),
    {
        match interface {
            InterfaceId::Base => true,
            InterfaceId::Lockup => true,
            InterfaceId::Whitelist => true,
            _ => false,
        }
    }

    /// What the admin says of the pool.
    pub fn get_pool_description(env: &Env) -> (description: Option<String>)
        ensures
            description == env@.description,
    {
        match &env.description {
            Some(text) => Some(text.clone()),
            None => None,
        }
    }

    /// The last governance checkpoint that is not later than a ledger, where there is one.
    pub fn get_snapshot_at(env: &Env, ledger: u32) -> (r: Option<TotalStakedSnapshot>)
        ensures
            r == snapshot_until(env@.snapshots, ledger),
    {
        let mut i: usize = env.snapshots.len();
        assert(env@.snapshots.take(i as int) == env@.snapshots);
        while i > 0
            invariant
                i <= env@.snapshots.len(),
                snapshot_until(env@.snapshots, ledger) == snapshot_until(
                    env@.snapshots.take(i as int),
                    ledger,
                ),
            decreases i,
        {
            assert(env@.snapshots.take(i as int).drop_last() == env@.snapshots.take(i - 1));
            i = i - 1;
            if env.snapshots[i].ledger <= ledger {
                return Some(env.snapshots[i]);
            }
        }
        None
    }

    /// All governance checkpoints that are kept, oldest first.
    pub fn get_all_snapshots(env: &Env) -> (snapshots: Vec<TotalStakedSnapshot>)
        ensures
            snapshots@ == env@.snapshots,
    {
        copied(&env.snapshots)
    }
}

} // verus!
