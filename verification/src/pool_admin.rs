//! What the admin can set and do.
use crate::address::Address;
use crate::admin::{count_action, require_admin};
use crate::balance::{MAX_RATE_HISTORY_ENTRIES, MAX_RICH_RATE_HISTORY, MAX_STAKED_SNAPSHOTS};
use crate::claims::MAX_VESTING_ENTRIES;
use crate::env::{Env, State};
use crate::errors::VaultError;
use crate::events;
use crate::events::{ActionDetails, Event};
use crate::history::{append, copied};
use crate::rewards::BOOST_BPS_BASE;
use crate::storage::{
    Account, AdminAction, CampaignInfo, ChangeType, Pool, RateHistoryEntry, Settings,
    TotalStakedSnapshot, VestingEntry,
};
use crate::vault::VaultContract;
use vstd::prelude::*;

verus! {

/// How many boost tiers there can be.
pub const MAX_BOOST_TIERS: u32 = 5;

/// The highest unstake fee: 5%.
pub const MAX_UNSTAKE_FEE_BPS: u32 = 500;

/// The highest early exit penalty: 20%.
pub const MAX_PENALTY_BPS: u32 = 2000;

/// The longest leaderboard.
pub const MAX_LEADERBOARD_SIZE: u32 = 20;

/// The highest limit on a user's positions.
pub const MAX_POSITIONS: u32 = 10;

/// The longest description, in characters.
pub const MAX_DESCRIPTION_LEN: u32 = 200;

/// Every tier is at least the base multiplier, and each one begins later than those before it.
pub open spec fn valid_schedule(tiers: Seq<(u32, u32)>) -> bool {
    &&& forall|i: int| 0 <= i < tiers.len() ==> (#[trigger] tiers[i]).1 >= BOOST_BPS_BASE
    &&& forall|i: int, j: int|
        0 <= i < j < tiers.len() ==> (#[trigger] tiers[i]).0 < (#[trigger] tiers[j]).0
}

impl State {
    /// A call that only the admin may make, and that `refusal` may stand against.
    pub open spec fn by_admin_unless(self, refusal: Option<VaultError>, next: State) -> Result<
        State,
        VaultError,
    > {
        match (self.admin_refusal(), refusal) {
            (Some(e), _) => Err(e),
            (None, Some(e)) => Err(e),
            (None, None) => Ok(next),
        }
    }

    /// The admin did something that the audit log tells.
    pub open spec fn acted(self, action: AdminAction, details: ActionDetails) -> State {
        self.admin_acted(action, self.admin(), details).counted()
    }

    /// The error of a stopped pool, where it is stopped.
    pub open spec fn stop_refusal(self) -> Option<VaultError> {
        if self.settings.stopped {
            Some(VaultError::ContractStopped)
        } else {
            None
        }
    }

    /// A paused pool.
    pub open spec fn pause(self) -> State {
        self.with_pool(Pool { paused: true, ..self.pool }).publish(
            Event::Paused { admin: self.admin(), ledger: self.sequence },
        ).acted(AdminAction::Pause, ActionDetails::Nothing).touched().log_change(
            ChangeType::Paused,
            0,
            1,
        )
    }

    /// A resumed pool.
    pub open spec fn unpause(self) -> State {
        self.with_pool(Pool { paused: false, ..self.pool }).publish(
            Event::Unpaused { admin: self.admin(), ledger: self.sequence },
        ).acted(AdminAction::Unpause, ActionDetails::Nothing).touched().log_change(
            ChangeType::Unpaused,
            1,
            0,
        )
    }

    /// What `add_yield` does. The new tokens belong to all shares.
    pub open spec fn add_yield(self, from: Address, amount: i128) -> Result<State, VaultError> {
        let deposited = self.pool.total_deposited + amount;
        match (self.admin_refusal(), self.settings.token) {
            (Some(e), _) => Err(e),
            (None, token) => if self.pool.paused {
                Err(VaultError::VaultPaused)
            } else if amount <= 0 {
                Err(VaultError::ZeroAmount)
            } else {
                match token {
                    None => Err(VaultError::NotInitialized),
                    Some(token) => if !crate::math::fits(deposited) {
                        Err(VaultError::ArithmeticError)
                    } else {
                        Ok(
                            self.collect(token, from, amount).with_pool(
                                Pool { total_deposited: deposited as i128, ..self.pool },
                            ).publish(
                                Event::YieldAdded {
                                    admin: self.admin(),
                                    amount,
                                    ledger: self.sequence,
                                },
                            ).acted(AdminAction::AddYield, ActionDetails::Amount { amount }),
                        )
                    },
                }
            },
        }
    }

    /// What `fund_reward_pool` does.
    pub open spec fn fund_reward_pool(self, from: Address, amount: i128) -> Result<
        State,
        VaultError,
    > {
        let funded = self.pool.reward_pool_balance + amount;
        match (self.admin_refusal(), self.settings.token) {
            (Some(e), _) => Err(e),
            (None, token) => if amount <= 0 {
                Err(VaultError::ZeroAmount)
            } else {
                match token {
                    None => Err(VaultError::NotInitialized),
                    Some(token) => if !crate::math::fits(funded) {
                        Err(VaultError::ArithmeticError)
                    } else {
                        Ok(
                            self.collect(token, from, amount).with_pool(
                                Pool { reward_pool_balance: funded as i128, ..self.pool },
                            ).acted(AdminAction::FundRewardPool, ActionDetails::Amount { amount }),
                        )
                    },
                }
            },
        }
    }

    /// The admin role goes to another address.
    pub open spec fn transfer_admin(self, new_admin: Address) -> State {
        let actor = self.admin();
        self.with_settings(Settings { admin: Some(new_admin), ..self.settings }).publish(
            Event::AdminChanged { old_admin: actor, new_admin, ledger: self.sequence },
        ).admin_acted(
            AdminAction::TransferAdmin,
            actor,
            ActionDetails::Whom { address: new_admin },
        ).counted().log_change(ChangeType::AdminTransferred, 0, 0)
    }

    /// Why a reward rate cannot be set, where it cannot.
    pub open spec fn rate_refusal(self, rate_bps: u32) -> Option<VaultError> {
        if self.settings.epoch_mode && rate_bps > 0 {
            Some(VaultError::EpochModeConflict)
        } else if rate_bps > crate::balance::MAX_RATE_BPS {
            Some(VaultError::RateTooHigh)
        } else {
            None
        }
    }

    /// Another reward rate, which both histories and the changelog tell.
    pub open spec fn rate_set(self, rate_bps: u32) -> State {
        let old_rate = self.settings.reward_rate_bps;
        State {
            rate_history: crate::history::newest(
                self.rate_history.push((self.sequence, old_rate)),
                MAX_RATE_HISTORY_ENTRIES as int,
            ),
            reward_rate_history: crate::history::newest(
                self.reward_rate_history.push(
                    RateHistoryEntry {
                        old_rate_bps: old_rate as i128,
                        new_rate_bps: rate_bps as i128,
                        changed_at_ledger: self.sequence,
                        changed_by: self.admin(),
                    },
                ),
                MAX_RICH_RATE_HISTORY as int,
            ),
            ..self.with_settings(
                Settings {
                    reward_rate_bps: rate_bps,
                    last_rate_change_ledger: self.sequence,
                    ..self.settings
                },
            )
        }.publish(
            Event::RateChanged {
                old_rate_bps: old_rate,
                new_rate_bps: rate_bps,
                ledger: self.sequence,
            },
        ).acted(
            AdminAction::SetRewardRate,
            ActionDetails::Rates { old_rate, new_rate: rate_bps },
        ).log_change(ChangeType::RateChanged, old_rate as i128, rate_bps as i128)
    }

    /// What `rescue_token` does. What the pool holds for its users cannot be rescued.
    pub open spec fn rescue_token(
        self,
        admin_addr: Address,
        token: Address,
        amount: i128,
        recipient: Address,
    ) -> Result<State, VaultError> {
        self.by_admin_unless(
            if admin_addr != self.admin() {
                Some(VaultError::Unauthorized)
            } else if amount <= 0 {
                Some(VaultError::ZeroAmount)
            } else if self.settings.token is None {
                Some(VaultError::NotInitialized)
            } else if self.settings.token == Some(token) {
                Some(VaultError::CannotRescueStakeToken)
            } else if self.settings.reward_token == Some(token) {
                Some(VaultError::CannotRescueRewardToken)
            } else {
                None
            },
            self.pay(token, recipient, amount).publish(
                Event::TokenRescued { token, amount, recipient, ledger: self.sequence },
            ).acted(AdminAction::RescueToken, ActionDetails::Rescue { token, amount, recipient }),
        )
    }

    /// Why no campaign can start now, where none can.
    pub open spec fn campaign_refusal(self, multiplier_bps: u32, duration: u32) -> Option<
        VaultError,
    > {
        if multiplier_bps < BOOST_BPS_BASE {
            Some(VaultError::InvalidBoostSchedule)
        } else if duration == 0 {
            Some(VaultError::ZeroAmount)
        } else {
            match self.settings.campaign {
                Some(running) => if self.sequence < running.ends_at_ledger {
                    Some(VaultError::CampaignAlreadyActive)
                } else {
                    None
                },
                None => None,
            }
        }
    }

    /// A campaign starts.
    pub open spec fn campaign_started(self, multiplier_bps: u32, duration: u32) -> State {
        let ends_at_ledger = crate::math::ledger_after(self.sequence, duration);
        self.with_settings(
            Settings {
                campaign: Some(
                    CampaignInfo {
                        multiplier_bps,
                        starts_at_ledger: self.sequence,
                        ends_at_ledger,
                    },
                ),
                ..self.settings
            },
        ).publish(
            Event::CampaignStarted {
                admin: self.admin(),
                multiplier_bps,
                ends_at_ledger,
                ledger: self.sequence,
            },
        )
    }

    /// A leaderboard of another size. One that is too long is cut.
    pub open spec fn leaderboard_sized(self, n: u32) -> State {
        State {
            leaderboard: if n < self.leaderboard.len() {
                self.leaderboard.take(n as int)
            } else {
                self.leaderboard
            },
            ..self.with_settings(Settings { leaderboard_size: n, ..self.settings })
        }
    }

    /// A governance checkpoint is taken.
    pub open spec fn snapshot_taken(self) -> State {
        let snapshot = TotalStakedSnapshot {
            total_staked: self.pool.total_deposited,
            ledger: self.sequence,
        };
        State {
            snapshots: crate::history::newest(
                self.snapshots.push(snapshot),
                MAX_STAKED_SNAPSHOTS as int,
            ),
            ..self
        }
    }

    /// Another description.
    pub open spec fn described(self, description: String) -> State {
        State { description: Some(description), ..self }.publish(
            Event::DescriptionUpdated { admin: self.admin(), description, ledger: self.sequence },
        )
    }
}

/// The error for an amount that is not positive, where it is not.
pub open spec fn not_positive(amount: i128) -> Option<VaultError> {
    if amount <= 0 {
        Some(VaultError::ZeroAmount)
    } else {
        None
    }
}

/// The error for a negative amount, where it is one.
pub open spec fn negative(amount: i128) -> Option<VaultError> {
    if amount < 0 {
        Some(VaultError::ZeroAmount)
    } else {
        None
    }
}

/// `error`, where a number is above a limit.
pub open spec fn above(x: int, limit: u32, error: VaultError) -> Option<VaultError> {
    if x > limit {
        Some(error)
    } else {
        None
    }
}

impl VaultContract {
    /// Admin: stops stakes and unstakes for the time being.
    pub fn pause(env: Env) -> (r: Result<Env, VaultError>)
        ensures
            crate::env::moves_to(r, env@.by_admin_unless(env@.stop_refusal(), env@.pause())),
    {
        let mut env = env;
        let admin = require_admin(&env)?;
        if env.settings.stopped {
            return Err(VaultError::ContractStopped);
        }
        env.pool.paused = true;
        let now: u32 = env.sequence;
        events::paused(&mut env, &admin, now);
        events::admin_action_pause(&mut env, &admin);
        count_action(&mut env);
        env.pool.last_updated_ledger = now;
        Self::append_changelog(&mut env, ChangeType::Paused, 0, 1);
        Ok(env)
    }

    /// Admin: lets stakes and unstakes go on.
    pub fn unpause(env: Env) -> (r: Result<Env, VaultError>)
        ensures
            crate::env::moves_to(r, env@.by_admin_unless(env@.stop_refusal(), env@.unpause())),
    {
        let mut env = env;
        let admin = require_admin(&env)?;
        if env.settings.stopped {
            return Err(VaultError::ContractStopped);
        }
        env.pool.paused = false;
        let now: u32 = env.sequence;
        events::unpaused(&mut env, &admin, now);
        events::admin_action_unpause(&mut env, &admin);
        count_action(&mut env);
        env.pool.last_updated_ledger = now;
        Self::append_changelog(&mut env, ChangeType::Unpaused, 1, 0);
        Ok(env)
    }

    /// Admin: stops the pool for good. No stake is taken ever after and the pool can be neither
    /// paused nor resumed; unstakes and claims go on.
    pub fn emergency_stop(env: Env) -> (r: Result<Env, VaultError>)
        ensures
            crate::env::moves_to(
                r,
                env@.by_admin(
                    env@.with_settings((Settings { stopped: true, ..env@.settings })).publish(
                        (Event::Stopped { admin: env@.admin(), ledger: env@.sequence }),
                    ),
                ),
            ),
    {
        let mut env = env;
        let admin = require_admin(&env)?;
        env.settings.stopped = true;
        events::stopped(&mut env, &admin);
        Ok(env)
    }

    /// Admin: brings yield into the pool out of a wallet.
    pub fn add_yield(env: Env, admin_addr: Address, amount: i128) -> (r: Result<Env, VaultError>)
        ensures
            crate::env::moves_to(r, env@.add_yield(admin_addr, amount)),
    {
        let mut env = env;
        let admin = require_admin(&env)?;
        if env.pool.paused {
            return Err(VaultError::VaultPaused);
        }
        if amount <= 0 {
            return Err(VaultError::ZeroAmount);
        }
        match (env.settings.token, env.pool.total_deposited.checked_add(amount)) {
            (None, _) => Err(VaultError::NotInitialized),
            (_, None) => Err(VaultError::ArithmeticError),
            (Some(token), Some(deposited)) => {
                env.collect(token, admin_addr, amount);
                env.pool.total_deposited = deposited;
                events::yield_added(&mut env, &admin, amount);
                events::admin_action_add_yield(&mut env, &admin, amount);
                count_action(&mut env);
                Ok(env)
            },
        }
    }

    /// Admin: brings rewards into the reward pool out of a wallet.
    pub fn fund_reward_pool(env: Env, admin_addr: Address, amount: i128) -> (r: Result<
        Env,
        VaultError,
    >)
        ensures
            crate::env::moves_to(r, env@.fund_reward_pool(admin_addr, amount)),
    {
        let mut env = env;
        let admin = require_admin(&env)?;
        if amount <= 0 {
            return Err(VaultError::ZeroAmount);
        }
        match (env.settings.token, env.pool.reward_pool_balance.checked_add(amount)) {
            (None, _) => Err(VaultError::NotInitialized),
            (_, None) => Err(VaultError::ArithmeticError),
            (Some(token), Some(funded)) => {
                env.collect(token, admin_addr, amount);
                env.pool.reward_pool_balance = funded;
                events::admin_action_fund_reward_pool(&mut env, &admin, amount);
                count_action(&mut env);
                Ok(env)
            },
        }
    }

    /// Admin: hands the admin role to another address.
    pub fn transfer_admin(env: Env, new_admin: Address) -> (r: Result<Env, VaultError>)
        ensures
            crate::env::moves_to(r, env@.by_admin(env@.transfer_admin(new_admin))),
    {
        let mut env = env;
        let admin = require_admin(&env)?;
        env.settings.admin = Some(new_admin);
        events::admin_changed(&mut env, &admin, &new_admin);
        events::admin_action_transfer_admin(&mut env, &admin, &new_admin);
        count_action(&mut env);
        Self::append_changelog(&mut env, ChangeType::AdminTransferred, 0, 0);
        Ok(env)
    }

    /// Admin: sets the address that gets slashed tokens.
    pub fn set_slash_treasury(env: Env, treasury: Address) -> (r: Result<Env, VaultError>)
        ensures
            crate::env::moves_to(
                r,
                env@.by_admin(
                    env@.with_settings(
                        (Settings { slash_treasury: Some(treasury), ..env@.settings }),
                    ),
                ),
            ),
    {
        let mut env = env;
        require_admin(&env)?;
        env.settings.slash_treasury = Some(treasury);
        Ok(env)
    }

    /// Admin: lets only whitelisted users stake, or everybody.
    pub fn set_whitelist_enabled(env: Env, enabled: bool) -> (r: Result<Env, VaultError>)
        ensures
            crate::env::moves_to(
                r,
                env@.by_admin(
                    env@.with_settings((Settings { whitelist_enabled: enabled, ..env@.settings })),
                ),
            ),
    {
        let mut env = env;
        require_admin(&env)?;
        env.settings.whitelist_enabled = enabled;
        Ok(env)
    }

    /// Admin: puts a user on the whitelist.
    pub fn add_to_whitelist(env: Env, user: Address) -> (r: Result<Env, VaultError>)
        ensures
            crate::env::moves_to(
                r,
                env@.by_admin(
                    env@.with_account(user, (Account { whitelisted: true, ..env@.account(user) })),
                ),
            ),
    {
        let mut env = env;
        require_admin(&env)?;
        let mut account = env.account(user);
        account.whitelisted = true;
        env.set_account(user, account);
        Ok(env)
    }

    /// Admin: takes a user off the whitelist.
    pub fn remove_from_whitelist(env: Env, user: Address) -> (r: Result<Env, VaultError>)
        ensures
            crate::env::moves_to(
                r,
                env@.by_admin(
                    env@.with_account(user, (Account { whitelisted: false, ..env@.account(user) })),
                ),
            ),
    {
        let mut env = env;
        require_admin(&env)?;
        let mut account = env.account(user);
        account.whitelisted = false;
        env.set_account(user, account);
        Ok(env)
    }

    /// Admin: lets only users with an approved KYC status stake, or everybody. Those who have a
    /// position can unstake and claim in any case.
    pub fn set_kyc_required(env: Env, required: bool) -> (r: Result<Env, VaultError>)
        ensures
            crate::env::moves_to(
                r,
                env@.by_admin(
                    env@.with_settings((Settings { kyc_required: required, ..env@.settings })),
                ),
            ),
    {
        let mut env = env;
        require_admin(&env)?;
        env.settings.kyc_required = required;
        Ok(env)
    }

    /// Admin: approves or revokes the KYC status of a user.
    pub fn set_kyc_status(env: Env, user: Address, approved: bool) -> (r: Result<Env, VaultError>)
        ensures
            crate::env::moves_to(
                r,
                env@.by_admin(
                    env@.with_account(
                        user,
                        (Account { kyc_approved: approved, ..env@.account(user) }),
                    ),
                ),
            ),
    {
        let mut env = env;
        require_admin(&env)?;
        let mut account = env.account(user);
        account.kyc_approved = approved;
        env.set_account(user, account);
        Ok(env)
    }

    /// Admin: sets how many shares can be burned at once.
    pub fn set_withdrawal_limit(env: Env, limit: i128) -> (r: Result<Env, VaultError>)
        ensures
            crate::env::moves_to(
                r,
                env@.by_admin_unless(
                    not_positive(limit),
                    env@.with_settings(
                        (Settings { withdrawal_limit: Some(limit), ..env@.settings }),
                    ).publish(
                        (Event::WithdrawalLimitUpdated {
                            admin: env@.admin(),
                            new_limit: limit,
                            ledger: env@.sequence,
                        }),
                    ).acted(AdminAction::SetCap, (ActionDetails::Amount { amount: limit })),
                ),
            ),
    {
        let mut env = env;
        let admin = require_admin(&env)?;
        if limit <= 0 {
            return Err(VaultError::ZeroAmount);
        }
        env.settings.withdrawal_limit = Some(limit);
        events::withdrawal_limit_updated(&mut env, &admin, limit);
        events::admin_action_set_cap(&mut env, &admin, limit);
        count_action(&mut env);
        Ok(env)
    }

    /// Admin: sets for how many ledgers tokens unbond. With 0 they are paid at once.
    pub fn set_cooldown_period(env: Env, ledgers: u32) -> (r: Result<Env, VaultError>)
        ensures
            crate::env::moves_to(
                r,
                env@.by_admin(
                    env@.with_settings((Settings { cooldown_period: ledgers, ..env@.settings })),
                ),
            ),
    {
        let mut env = env;
        require_admin(&env)?;
        env.settings.cooldown_period = ledgers;
        Ok(env)
    }

    /// Admin: sets for how many ledgers a new position is locked.
    pub fn set_lock_period(env: Env, ledgers: u32) -> (r: Result<Env, VaultError>)
        ensures
            crate::env::moves_to(
                r,
                env@.by_admin(
                    env@.with_settings((Settings { lock_period: ledgers, ..env@.settings })).acted(
                        AdminAction::SetLockPeriod,
                        (ActionDetails::Number { number: ledgers }),
                    ),
                ),
            ),
    {
        let mut env = env;
        let admin = require_admin(&env)?;
        env.settings.lock_period = ledgers;
        events::admin_action_set_lock_period(&mut env, &admin, ledgers);
        count_action(&mut env);
        Ok(env)
    }

    /// Admin: sets the penalty on an exit from a locked position.
    pub fn set_early_exit_penalty_bps(env: Env, bps: u32) -> (r: Result<Env, VaultError>)
        ensures
            crate::env::moves_to(
                r,
                env@.by_admin_unless(
                    above(bps as int, MAX_PENALTY_BPS, VaultError::InvalidPenaltyBps),
                    env@.with_settings(
                        (Settings { early_exit_penalty_bps: bps, ..env@.settings }),
                    ).acted(
                        AdminAction::SetEarlyExitPenalty,
                        (ActionDetails::Number { number: bps }),
                    ),
                ),
            ),
    {
        let mut env = env;
        let admin = require_admin(&env)?;
        if bps > MAX_PENALTY_BPS {
            return Err(VaultError::InvalidPenaltyBps);
        }
        env.settings.early_exit_penalty_bps = bps;
        events::admin_action_set_early_exit_penalty(&mut env, &admin, bps);
        count_action(&mut env);
        Ok(env)
    }

    /// Admin: sets the fee on an exit, which goes to the reward pool.
    pub fn set_unstake_fee_bps(env: Env, admin: Address, bps: u32) -> (r: Result<Env, VaultError>)
        ensures
            crate::env::moves_to(
                r,
                env@.by_admin_unless(
                    above(bps as int, MAX_UNSTAKE_FEE_BPS, VaultError::UnstakeFeeTooHigh),
                    env@.with_settings((Settings { unstake_fee_bps: bps, ..env@.settings })),
                ),
            ),
    {
        let mut env = env;
        let _ = admin;
        require_admin(&env)?;
        if bps > MAX_UNSTAKE_FEE_BPS {
            return Err(VaultError::UnstakeFeeTooHigh);
        }
        env.settings.unstake_fee_bps = bps;
        Ok(env)
    }

    /// Admin: sets the smallest position that a stake may leave. 0 allows any.
    pub fn set_min_stake(env: Env, amount: i128) -> (r: Result<Env, VaultError>)
        ensures
            crate::env::moves_to(
                r,
                env@.by_admin_unless(
                    negative(amount),
                    env@.with_settings((Settings { min_stake: amount, ..env@.settings })).acted(
                        AdminAction::SetMinStake,
                        (ActionDetails::Amount { amount }),
                    ),
                ),
            ),
    {
        let mut env = env;
        let admin = require_admin(&env)?;
        if amount < 0 {
            return Err(VaultError::ZeroAmount);
        }
        env.settings.min_stake = amount;
        events::admin_action_set_min_stake(&mut env, &admin, amount);
        count_action(&mut env);
        Ok(env)
    }

    /// Admin: sets how much can be deposited in all. 0 allows any amount.
    pub fn set_pool_cap(env: Env, cap: i128) -> (r: Result<Env, VaultError>)
        ensures
            crate::env::moves_to(
                r,
                env@.by_admin_unless(
                    negative(cap),
                    env@.with_settings((Settings { pool_cap: cap, ..env@.settings })).publish(
                        (Event::PoolCapUpdated {
                            admin: env@.admin(),
                            new_cap: cap,
                            ledger: env@.sequence,
                        }),
                    ),
                ),
            ),
    {
        let mut env = env;
        let admin = require_admin(&env)?;
        if cap < 0 {
            return Err(VaultError::ZeroAmount);
        }
        env.settings.pool_cap = cap;
        events::pool_cap_updated(&mut env, &admin, cap);
        Ok(env)
    }

    /// Admin: sets how much a user can claim within a window of ledgers. 0 allows any amount. What
    /// goes over the cap is not lost.
    pub fn set_claim_cap(env: Env, admin: Address, max_amount: i128, window_ledgers: u32) -> (r:
        Result<Env, VaultError>)
        ensures
            crate::env::moves_to(
                r,
                env@.by_admin_unless(
                    negative(max_amount),
                    env@.with_settings(
                        (Settings {
                            claim_cap: max_amount,
                            claim_cap_window: window_ledgers,
                            ..env@.settings
                        }),
                    ),
                ),
            ),
    {
        let mut env = env;
        let _ = admin;
        require_admin(&env)?;
        if max_amount < 0 {
            return Err(VaultError::ZeroAmount);
        }
        env.settings.claim_cap = max_amount;
        env.settings.claim_cap_window = window_ledgers;
        Ok(env)
    }

    /// Admin: sets the yearly reward rate.
    pub fn set_reward_rate_bps(env: Env, rate_bps: u32) -> (r: Result<Env, VaultError>)
        ensures
            crate::env::moves_to(
                r,
                env@.by_admin_unless(env@.rate_refusal(rate_bps), env@.rate_set(rate_bps)),
            ),
    {
        let mut env = env;
        let admin = require_admin(&env)?;
        if env.settings.epoch_mode && rate_bps > 0 {
            return Err(VaultError::EpochModeConflict);
        }
        Self::validate_rate_bps(rate_bps)?;
        let old_rate: u32 = env.settings.reward_rate_bps;
        let now: u32 = env.sequence;
        append(&mut env.rate_history, (now, old_rate), MAX_RATE_HISTORY_ENTRIES as usize);
        let entry = RateHistoryEntry {
            old_rate_bps: old_rate as i128,
            new_rate_bps: rate_bps as i128,
            changed_at_ledger: now,
            changed_by: admin,
        };
        append(&mut env.reward_rate_history, entry, MAX_RICH_RATE_HISTORY as usize);
        env.settings.reward_rate_bps = rate_bps;
        env.settings.last_rate_change_ledger = now;
        events::rate_changed(&mut env, old_rate, rate_bps);
        events::admin_action_set_reward_rate(&mut env, &admin, old_rate, rate_bps);
        count_action(&mut env);
        Self::append_changelog(
            &mut env,
            ChangeType::RateChanged,
            old_rate as i128,
            rate_bps as i128,
        );
        Ok(env)
    }

    /// Whether boost tiers can be used.
    fn is_valid_schedule(tiers: &Vec<(u32, u32)>) -> (r: bool)
        ensures
            r == valid_schedule(tiers@),
    {
        let mut i: usize = 0;
        while i < tiers.len()
            invariant
                i <= tiers@.len(),
                valid_schedule(tiers@.take(i as int)),
            decreases tiers@.len() - i,
        {
            assert(tiers@.take(i + 1)[i as int] == tiers@[i as int]);
            if tiers[i].1 < BOOST_BPS_BASE {
                return false;
            }
            if i > 0 && tiers[i].0 <= tiers[i - 1].0 {
                return false;
            }
            proof {
                let (done, next) = (tiers@.take(i as int), tiers@.take(i + 1));
                assert(next =~= done.push(tiers@[i as int]));
                assert forall|a: int, b: int| 0 <= a < b < next.len() implies (
                #[trigger] next[a]).0 < (#[trigger] next[b]).0 by {
                    if b < i {
                        assert(done[a].0 < done[b].0);
                    } else if a < i - 1 {
                        assert(done[a].0 < done[i - 1].0);
                    }
                }
            }
            i = i + 1;
        }
        assert(tiers@.take(i as int) =~= tiers@);
        true
    }

    /// Admin: sets the boost tiers: after how many ledgers which multiplier.
    pub fn set_boost_schedule(env: Env, tiers: Vec<(u32, u32)>) -> (r: Result<Env, VaultError>)
        ensures
            crate::env::moves_to(
                r,
                env@.by_admin_unless(
                    if tiers@.len() > MAX_BOOST_TIERS {
                        Some(VaultError::TooManyBoostTiers)
                    } else if !valid_schedule(tiers@) {
                        Some(VaultError::InvalidBoostSchedule)
                    } else {
                        None
                    },
                    (State { boost_schedule: tiers@, ..env@ }).acted(
                        AdminAction::SetBoostSchedule,
                        (ActionDetails::Number { number: tiers@.len() as u32 }),
                    ),
                ),
            ),
    {
        let mut env = env;
        let admin = require_admin(&env)?;
        if tiers.len() > MAX_BOOST_TIERS as usize {
            return Err(VaultError::TooManyBoostTiers);
        }
        if !Self::is_valid_schedule(&tiers) {
            return Err(VaultError::InvalidBoostSchedule);
        }
        let num_tiers: u32 = tiers.len() as u32;
        env.boost_schedule = tiers;
        events::admin_action_set_boost_schedule(&mut env, &admin, num_tiers);
        count_action(&mut env);
        Ok(env)
    }

    /// Admin: names the reward token, so that it cannot be rescued.
    pub fn set_reward_token(env: Env, token: Address) -> (r: Result<Env, VaultError>)
        ensures
            crate::env::moves_to(
                r,
                env@.by_admin(
                    env@.with_settings(
                        (Settings { reward_token: Some(token), ..env@.settings }),
                    ).acted(
                        AdminAction::SetRewardToken,
                        (ActionDetails::Whom { address: token }),
                    ),
                ),
            ),
    {
        let mut env = env;
        let admin = require_admin(&env)?;
        env.settings.reward_token = Some(token);
        events::admin_action_set_reward_token(&mut env, &admin, &token);
        count_action(&mut env);
        Ok(env)
    }

    /// Admin: sends on tokens that do not belong to the pool.
    pub fn rescue_token(
        env: Env,
        admin_addr: Address,
        token: Address,
        amount: i128,
        recipient: Address,
    ) -> (r: Result<Env, VaultError>)
        ensures
            crate::env::moves_to(r, env@.rescue_token(admin_addr, token, amount, recipient)),
    {
        let mut env = env;
        let admin = require_admin(&env)?;
        if admin_addr != admin {
            return Err(VaultError::Unauthorized);
        }
        if amount <= 0 {
            return Err(VaultError::ZeroAmount);
        }
        match env.settings.token {
            Some(stake_token) => {
                if token == stake_token {
                    return Err(VaultError::CannotRescueStakeToken);
                }
            },
            None => {
                return Err(VaultError::NotInitialized);
            },
        }
        if let Some(reward_token) = env.settings.reward_token {
            if token == reward_token {
                return Err(VaultError::CannotRescueRewardToken);
            }
        }
        env.pay(token, recipient, amount);
        events::token_rescued(&mut env, &token, amount, &recipient);
        events::admin_action_rescue_token(&mut env, &admin, &token, amount, &recipient);
        count_action(&mut env);
        Ok(env)
    }

    /// Admin: names the contract that mints the receipts.
    pub fn set_nft_contract(env: Env, nft: Address) -> (r: Result<Env, VaultError>)
        ensures
            crate::env::moves_to(
                r,
                env@.by_admin(
                    env@.with_settings(
                        (Settings { nft_contract: Some(nft), ..env@.settings }),
                    ).acted(
                        AdminAction::SetNftContract,
                        (ActionDetails::Whom { address: nft }),
                    ),
                ),
            ),
    {
        let mut env = env;
        let admin = require_admin(&env)?;
        env.settings.nft_contract = Some(nft);
        events::admin_action_set_nft_contract(&mut env, &admin, &nft);
        count_action(&mut env);
        Ok(env)
    }

    /// Admin: sets within how many ledgers a user who left can come back free of the penalty.
    pub fn set_restake_window(env: Env, ledgers: u32) -> (r: Result<Env, VaultError>)
        ensures
            crate::env::moves_to(
                r,
                env@.by_admin(
                    env@.with_settings(
                        (Settings { restake_window: ledgers, ..env@.settings }),
                    ).acted(
                        AdminAction::SetRestakeWindow,
                        (ActionDetails::Number { number: ledgers }),
                    ),
                ),
            ),
    {
        let mut env = env;
        let admin = require_admin(&env)?;
        env.settings.restake_window = ledgers;
        events::admin_action_set_restake_window(&mut env, &admin, ledgers);
        count_action(&mut env);
        Ok(env)
    }

    /// Admin: starts a boost for all stakers, on top of their tiers. There is one at a time.
    pub fn start_boost_campaign(env: Env, multiplier_bps: u32, duration_ledgers: u32) -> (r: Result<
        Env,
        VaultError,
    >)
        ensures
            crate::env::moves_to(
                r,
                env@.by_admin_unless(
                    env@.campaign_refusal(multiplier_bps, duration_ledgers),
                    env@.campaign_started(multiplier_bps, duration_ledgers),
                ),
            ),
    {
        let mut env = env;
        let admin = require_admin(&env)?;
        if multiplier_bps < BOOST_BPS_BASE {
            return Err(VaultError::InvalidBoostSchedule);
        }
        if duration_ledgers == 0 {
            return Err(VaultError::ZeroAmount);
        }
        let now: u32 = env.sequence;
        if let Some(running) = env.settings.campaign {
            if now < running.ends_at_ledger {
                return Err(VaultError::CampaignAlreadyActive);
            }
        }
        let ends_at_ledger: u32 = now.saturating_add(duration_ledgers);
        env.settings.campaign = Some(
            CampaignInfo { multiplier_bps, starts_at_ledger: now, ends_at_ledger },
        );
        events::campaign_started(&mut env, &admin, multiplier_bps, ends_at_ledger);
        Ok(env)
    }

    /// Admin: cancels the boost that runs for all stakers.
    pub fn end_boost_campaign(env: Env) -> (r: Result<Env, VaultError>)
        ensures
            crate::env::moves_to(
                r,
                env@.by_admin_unless(
                    if env@.running_campaign() is None {
                        Some(VaultError::NoCampaignActive)
                    } else {
                        None
                    },
                    env@.with_settings((Settings { campaign: None, ..env@.settings })).publish(
                        (Event::CampaignEnded { admin: env@.admin(), ledger: env@.sequence }),
                    ),
                ),
            ),
    {
        let mut env = env;
        let admin = require_admin(&env)?;
        let running = match env.settings.campaign {
            Some(c) => env.sequence >= c.starts_at_ledger && env.sequence < c.ends_at_ledger,
            None => false,
        };
        if !running {
            return Err(VaultError::NoCampaignActive);
        }
        env.settings.campaign = None;
        events::campaign_ended(&mut env, &admin);
        Ok(env)
    }

    /// Admin: sets how many lines the leaderboard has, and cuts one that is longer. With 0 it is
    /// not kept.
    pub fn set_leaderboard_size(env: Env, n: u32) -> (r: Result<Env, VaultError>)
        ensures
            crate::env::moves_to(
                r,
                env@.by_admin_unless(
                    above(n as int, MAX_LEADERBOARD_SIZE, VaultError::LeaderboardSizeTooLarge),
                    env@.leaderboard_sized(n),
                ),
            ),
    {
        let mut env = env;
        require_admin(&env)?;
        if n > MAX_LEADERBOARD_SIZE {
            return Err(VaultError::LeaderboardSizeTooLarge);
        }
        env.settings.leaderboard_size = n;
        if env.leaderboard.len() > n as usize {
            env.leaderboard.truncate(n as usize);
        }
        Ok(env)
    }

    /// Admin: sets how many positions a user can have. 0 allows any number.
    pub fn set_max_positions_per_user(env: Env, admin: Address, max: u32) -> (r: Result<
        Env,
        VaultError,
    >)
        ensures
            crate::env::moves_to(
                r,
                env@.by_admin_unless(
                    above(max as int, MAX_POSITIONS, VaultError::MaxPositionsTooHigh),
                    env@.with_settings((Settings { max_positions: max, ..env@.settings })),
                ),
            ),
    {
        let mut env = env;
        let _ = admin;
        require_admin(&env)?;
        if max > MAX_POSITIONS {
            return Err(VaultError::MaxPositionsTooHigh);
        }
        env.settings.max_positions = max;
        Ok(env)
    }

    /// Admin: sets after how many ledgers without a claim a position counts as inactive. This is
    /// for information: nothing is frozen by it.
    pub fn set_inactivity_threshold(env: Env, admin: Address, ledgers: u32) -> (r: Result<
        Env,
        VaultError,
    >)
        ensures
            crate::env::moves_to(
                r,
                env@.by_admin(
                    env@.with_settings(
                        (Settings { inactivity_threshold: ledgers, ..env@.settings }),
                    ),
                ),
            ),
    {
        let mut env = env;
        let _ = admin;
        require_admin(&env)?;
        env.settings.inactivity_threshold = ledgers;
        Ok(env)
    }

    /// Admin: sets for how many ledgers claimed rewards vest. With 0 they are paid at once.
    pub fn set_vesting_period(env: Env, admin: Address, ledgers: u32) -> (r: Result<
        Env,
        VaultError,
    >)
        ensures
            crate::env::moves_to(
                r,
                env@.by_admin(
                    env@.with_settings((Settings { vesting_period: ledgers, ..env@.settings })),
                ),
            ),
    {
        let mut env = env;
        let _ = admin;
        require_admin(&env)?;
        env.settings.vesting_period = ledgers;
        Ok(env)
    }

    /// Admin: lets an amount vest for a user.
    pub fn schedule_vesting(env: Env, user: Address, amount: i128, claimable_at_ledger: u32) -> (r:
        Result<Env, VaultError>)
        ensures
            crate::env::moves_to(
                r,
                env@.by_admin_unless(
                    env@.vesting_refusal(user, amount),
                    env@.schedule_vesting(user, amount, claimable_at_ledger),
                ),
            ),
    {
        let mut env = env;
        require_admin(&env)?;
        if amount <= 0 {
            return Err(VaultError::ZeroAmount);
        }
        let mut queue: Vec<VestingEntry> = match env.vesting.get(user) {
            Some(list) => copied(list),
            None => Vec::new(),
        };
        if queue.len() >= MAX_VESTING_ENTRIES as usize {
            return Err(VaultError::VestingQueueFull);
        }
        queue.push(VestingEntry { amount, claimable_at_ledger });
        env.vesting.set(user, queue);
        Ok(env)
    }

    /// Admin: says something about the pool, in 200 characters at most.
    pub fn set_pool_description(env: Env, admin: Address, description: String) -> (r: Result<
        Env,
        VaultError,
    >)
        ensures
            crate::env::moves_to(
                r,
                env@.by_admin_unless(
                    above(
                        description@.len() as int,
                        MAX_DESCRIPTION_LEN,
                        VaultError::DescriptionTooLong,
                    ),
                    env@.described(description),
                ),
            ),
    {
        let mut env = env;
        let _ = admin;
        let admin = require_admin(&env)?;
        if description.as_str().unicode_len() > MAX_DESCRIPTION_LEN as usize {
            return Err(VaultError::DescriptionTooLong);
        }
        env.description = Some(description.clone());
        events::description_updated(&mut env, &admin, &description);
        Ok(env)
    }

    /// Admin: takes a governance checkpoint of the total that is staked.
    pub fn take_snapshot(env: Env) -> (r: Result<Env, VaultError>)
        ensures
            crate::env::moves_to(r, env@.by_admin(env@.snapshot_taken())),
    {
        let mut env = env;
        require_admin(&env)?;
        let snapshot = TotalStakedSnapshot {
            total_staked: env.pool.total_deposited,
            ledger: env.sequence,
        };
        append(&mut env.snapshots, snapshot, MAX_STAKED_SNAPSHOTS as usize);
        Ok(env)
    }
}

} // verus!
