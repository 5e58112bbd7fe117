//! Taking tokens out of the pool: at once, or by way of a cooldown.
use crate::address::Address;
use crate::balance::{amount_to_shares, shares_to_amount};
use crate::env::{Effect, Env, State};
use crate::errors::VaultError;
use crate::events;
use crate::events::Event;
use crate::math::mul_div;
use crate::storage::{Account, Pool, StakeAction, UnbondingPosition};
use crate::vault::VaultContract;
use vstd::prelude::*;

verus! {

/// `bps` basis points of an amount.
pub open spec fn cut(amount: i128, bps: u32) -> Option<i128> {
    crate::math::scaled(amount as int, bps as int, 10_000)
}

impl State {
    /// The lock-up of a user's position has not passed yet.
    pub open spec fn locked(self, user: Address) -> bool {
        match self.account(user).staked_at {
            Some(staked_at) => self.settings.lock_period > 0 && self.sequence
                < crate::math::ledger_after(staked_at, self.settings.lock_period),
            None => false,
        }
    }

    /// The penalty on what a user takes out now. Those who came back within the grace window
    /// are free of it until they leave again.
    pub open spec fn penalty_bps(self, user: Address) -> u32 {
        if self.account(user).restaked || !self.locked(user) {
            0
        } else {
            self.settings.early_exit_penalty_bps
        }
    }

    /// What becomes of `amount` that a user takes out: what they get, and the fee. The penalty
    /// goes off first and stays in the pool; the fee goes off the rest.
    pub open spec fn payout(self, user: Address, amount: i128) -> Option<(i128, i128)> {
        match cut(amount, self.penalty_bps(user)) {
            None => None,
            Some(penalty) => if !crate::math::fits(amount - penalty) {
                None
            } else {
                let rest = (amount - penalty) as i128;
                match cut(rest, self.settings.unstake_fee_bps) {
                    None => None,
                    Some(fee) => if !crate::math::fits(rest - fee) {
                        None
                    } else {
                        Some(((rest - fee) as i128, fee))
                    },
                }
            },
        }
    }

    /// A user has no position any more.
    pub open spec fn closed(self, user: Address) -> State {
        State {
            stakers: crate::history::without(self.stakers, user),
            ..self.with_account(user, Account { staked_at: None, ..self.account(user) }).with_pool(
                Pool {
                    total_stakers: if self.pool.total_stakers > 0 {
                        (self.pool.total_stakers - 1) as u32
                    } else {
                        0
                    },
                    ..self.pool
                },
            )
        }.publish(Event::PositionClosed { user, ledger: self.sequence })
    }

    /// A user left of their own accord: the grace window starts and the receipt is burned.
    pub open spec fn left(self, user: Address) -> State {
        let gone = self.with_account(
            user,
            Account { last_unstake: Some(self.sequence), restaked: false, ..self.account(user) },
        ).closed(user);
        match self.settings.nft_contract {
            Some(nft) => gone.effect(Effect::BurnReceipt { nft, owner: user }),
            None => gone,
        }
    }

    /// Why a user may not burn `shares`, where they may not.
    pub open spec fn unstake_refusal(self, staker: Address, shares: i128) -> Option<VaultError> {
        if !self.authorized(staker) {
            Some(VaultError::Unauthorized)
        } else if self.pool.paused {
            Some(VaultError::VaultPaused)
        } else if self.settings.cooldown_period > 0 {
            Some(VaultError::UseCooldownFlow)
        } else if shares <= 0 {
            Some(VaultError::ZeroAmount)
        } else if self.settings.withdrawal_limit is Some && shares
            > self.settings.withdrawal_limit->Some_0 {
            Some(VaultError::WithdrawalLimitExceeded)
        } else if self.account(staker).shares < shares {
            Some(VaultError::InsufficientShares)
        } else {
            None
        }
    }

    /// Where the pool is to pause itself for want of rewards, its balance is to be read.
    pub open spec fn watch_reserve(self) -> State {
        match self.settings.token {
            Some(token) => if self.settings.auto_pause_threshold != 0 {
                self.effect(Effect::CheckReserve { token })
            } else {
                self
            },
            None => self,
        }
    }

    /// A user burned `shares` and gets `returned` for them.
    pub open spec fn unstaked(
        self,
        staker: Address,
        shares: i128,
        token: Address,
        returned: i128,
    ) -> State {
        let held = self.account(staker).shares;
        let gone = if held == 0 {
            self.left(staker)
        } else {
            self
        };
        gone.note_shares(staker, held).reseat(staker, held).log_stake(
            staker,
            StakeAction::Unstake,
            returned,
        ).pay(token, staker, returned).publish(
            Event::Withdraw {
                withdrawer: staker,
                shares_burned: shares,
                amount_returned: returned,
                ledger: self.sequence,
            },
        ).touched().watch_reserve()
    }

    /// A user burns `shares` whose rewards are settled.
    pub open spec fn debit(self, staker: Address, shares: i128) -> Result<
        (State, i128),
        VaultError,
    > {
        let account = self.account(staker);
        match (self.worth(shares), self.settings.token) {
            (None, _) => Err(VaultError::ArithmeticError),
            (_, None) => Err(VaultError::NotInitialized),
            (Some(amount), Some(token)) => match self.payout(staker, amount) {
                None => Err(VaultError::ArithmeticError),
                Some((returned, fee)) => {
                    let held = account.shares - shares;
                    let total_shares = self.pool.total_shares - shares;
                    let deposited = self.pool.total_deposited - (returned + fee);
                    let rewards = if fee > 0 {
                        self.pool.reward_pool_balance + fee
                    } else {
                        self.pool.reward_pool_balance as int
                    };
                    if !crate::math::fits(held) || !crate::math::fits(total_shares)
                        || !crate::math::fits(deposited) || !crate::math::fits(rewards) {
                        Err(VaultError::ArithmeticError)
                    } else {
                        let burned = self.with_account(
                            staker,
                            Account { shares: held as i128, ..account },
                        ).with_pool(
                            Pool {
                                total_shares: total_shares as i128,
                                total_deposited: deposited as i128,
                                reward_pool_balance: rewards as i128,
                                ..self.pool
                            },
                        );
                        Ok((burned.unstaked(staker, shares, token, returned), returned))
                    }
                },
            },
        }
    }

    /// Nothing that is computed on the way stands against paying a user for `shares`.
    pub open spec fn can_pay_for(self, user: Address, shares: i128) -> bool {
        match self.accrue(user, self.account(user).shares) {
            Ok(settled) => match settled.compound(user) {
                Ok(compounded) => compounded.debit(user, shares) is Ok,
                Err(_) => false,
            },
            Err(_) => false,
        }
    }

    /// What `unstake` does.
    pub open spec fn unstake(self, staker: Address, shares: i128) -> Result<
        (State, i128),
        VaultError,
    > {
        match self.unstake_refusal(staker, shares) {
            Some(e) => Err(e),
            None => match self.accrue(staker, self.account(staker).shares) {
                Err(e) => Err(e),
                Ok(settled) => match settled.compound(staker) {
                    Err(e) => Err(e),
                    Ok(compounded) => compounded.debit(staker, shares),
                },
            },
        }
    }

    /// What `unstake_all` does. Rewards that become shares on the way leave with the rest; the
    /// withdrawal limit is held against what was there before.
    pub open spec fn unstake_all(self, user: Address) -> Result<(State, i128), VaultError> {
        let shares = self.account(user).shares;
        if shares == 0 {
            Err(VaultError::PositionNotFound)
        } else {
            match self.unstake_refusal(user, shares) {
                Some(e) => Err(e),
                None => match self.accrue(user, shares) {
                    Err(e) => Err(e),
                    Ok(settled) => match settled.compound(user) {
                        Err(e) => Err(e),
                        Ok(compounded) => compounded.debit(user, compounded.account(user).shares),
                    },
                },
            }
        }
    }

    /// How many shares stand for `amount` of a position of `shares`.
    pub open spec fn shares_for(self, shares: i128, amount: i128) -> i128 {
        match self.minted(amount) {
            Some(wanted) => if wanted > shares {
                shares
            } else {
                wanted
            },
            None => shares,
        }
    }

    /// `shares` of a user and `amount` of tokens leave the staked pool.
    pub open spec fn take_out(self, user: Address, shares: i128, amount: i128) -> Result<
        State,
        VaultError,
    > {
        let account = self.account(user);
        let held = account.shares - shares;
        let total_shares = self.pool.total_shares - shares;
        let deposited = self.pool.total_deposited - amount;
        if !crate::math::fits(held) || !crate::math::fits(total_shares) || !crate::math::fits(
            deposited,
        ) {
            Err(VaultError::ArithmeticError)
        } else {
            let taken = self.with_account(
                user,
                Account { shares: held as i128, ..account },
            ).with_pool(
                Pool {
                    total_shares: total_shares as i128,
                    total_deposited: deposited as i128,
                    ..self.pool
                },
            );
            let gone = if held == 0 {
                taken.closed(user)
            } else {
                taken
            };
            Ok(gone.note_shares(user, held as i128).reseat(user, held as i128))
        }
    }

    /// What is unbonding of a user already.
    pub open spec fn unbonding_amount(self, user: Address) -> i128 {
        match self.account(user).unbonding {
            Some(position) => position.amount,
            None => 0,
        }
    }

    /// `amount` starts to unbond, and what was unbonding already starts anew with it. Without a
    /// cooldown all of it is paid at once.
    pub open spec fn unbond(self, user: Address, amount: i128) -> Result<State, VaultError> {
        let account = self.account(user);
        let total = self.unbonding_amount(user) + amount;
        if !crate::math::fits(total) {
            Err(VaultError::ArithmeticError)
        } else if self.settings.cooldown_period > 0 {
            Ok(
                self.with_account(
                    user,
                    Account {
                        unbonding: Some(
                            UnbondingPosition {
                                amount: total as i128,
                                unbonding_since: self.sequence,
                            },
                        ),
                        checkpoint: Some(self.sequence),
                        ..account
                    },
                ),
            )
        } else {
            match self.settings.token {
                None => Err(VaultError::NotInitialized),
                Some(token) => Ok(
                    self.with_account(
                        user,
                        Account { unbonding: None, checkpoint: Some(self.sequence), ..account },
                    ).pay(token, user, total as i128),
                ),
            }
        }
    }

    /// What `request_unstake` does.
    pub open spec fn request_unstake(self, user: Address, amount: i128) -> Result<
        State,
        VaultError,
    > {
        let shares = self.account(user).shares;
        if !self.authorized(user) {
            Err(VaultError::Unauthorized)
        } else if self.pool.paused {
            Err(VaultError::VaultPaused)
        } else if amount <= 0 {
            Err(VaultError::ZeroAmount)
        } else if shares == 0 {
            Err(VaultError::PositionNotFound)
        } else {
            match self.worth(shares) {
                None => Err(VaultError::ArithmeticError),
                Some(position) => if position <= 0 {
                    Err(VaultError::PositionNotFound)
                } else {
                    let wanted = crate::math::smaller(amount as int, position as int) as i128;
                    let burned = self.shares_for(shares, wanted);
                    match (self.accrue(user, shares), self.worth(burned)) {
                        (Err(e), _) => Err(e),
                        (_, None) => Err(VaultError::ArithmeticError),
                        (Ok(settled), Some(removed)) => match settled.take_out(
                            user,
                            burned,
                            removed,
                        ) {
                            Err(e) => Err(e),
                            Ok(taken) => taken.unbond(user, removed),
                        },
                    }
                },
            }
        }
    }

    /// What `execute_unstake` does.
    pub open spec fn execute_unstake(self, user: Address) -> Result<(State, i128), VaultError> {
        let account = self.account(user);
        if !self.authorized(user) {
            Err(VaultError::Unauthorized)
        } else if self.pool.paused {
            Err(VaultError::VaultPaused)
        } else {
            match account.unbonding {
                None => Err(VaultError::PositionNotFound),
                Some(position) => if self.settings.cooldown_period > 0 && self.sequence
                    < crate::math::ledger_after(
                    position.unbonding_since,
                    self.settings.cooldown_period,
                ) {
                    Err(VaultError::UseCooldownFlow)
                } else {
                    match self.settings.token {
                        None => Err(VaultError::NotInitialized),
                        Some(token) => Ok(
                            (
                                self.with_account(
                                    user,
                                    Account { unbonding: None, ..account },
                                ).pay(token, user, position.amount),
                                position.amount,
                            ),
                        ),
                    }
                },
            }
        }
    }

    /// What `check_auto_pause` does.
    pub open spec fn check_auto_pause(self, reward_balance: i128) -> Result<State, VaultError> {
        let threshold = self.settings.auto_pause_threshold;
        if threshold == 0 {
            Ok(self)
        } else if self.settings.token is None {
            Err(VaultError::NotInitialized)
        } else if reward_balance < threshold {
            Ok(
                self.with_pool(Pool { paused: true, ..self.pool }).publish(
                    Event::AutoPaused { reward_balance, threshold, ledger: self.sequence },
                ),
            )
        } else {
            Ok(self)
        }
    }
}

impl VaultContract {
    /// What becomes of `amount` that a user takes out: what they get, and the fee.
    fn split_payout(env: &Env, user: Address, amount: i128) -> (r: Option<(i128, i128)>)
        ensures
            r == env@.payout(user, amount),
    {
        let account = env.account(user);
        let locked = match account.staked_at {
            Some(staked_at) => env.settings.lock_period > 0 && env.sequence < staked_at.saturating_add(
                env.settings.lock_period,
            ),
            None => false,
        };
        let penalty_bps: u32 = if account.restaked || !locked {
            0
        } else {
            env.settings.early_exit_penalty_bps
        };
        let penalty: i128 = mul_div(amount, penalty_bps as i128, 10_000)?;
        let rest: i128 = amount.checked_sub(penalty)?;
        let fee: i128 = mul_div(rest, env.settings.unstake_fee_bps as i128, 10_000)?;
        let returned: i128 = rest.checked_sub(fee)?;
        Some((returned, fee))
    }

    /// Takes a user's position off the books.
    fn close_position(env: &mut Env, user: Address)
        ensures
            final(env)@ == old(env)@.closed(user),
    {
        let mut account = env.account(user);
        account.staked_at = None;
        env.set_account(user, account);
        if env.pool.total_stakers > 0 {
            env.pool.total_stakers = env.pool.total_stakers - 1;
        }
        Self::remove_from_staker_list(env, user);
        events::position_closed(env, &user);
    }

    /// Lets a user go who burned all their shares.
    fn leave(env: &mut Env, user: Address)
        ensures
            final(env)@ == old(env)@.left(user),
    {
        let mut account = env.account(user);
        account.last_unstake = Some(env.sequence);
        account.restaked = false;
        env.set_account(user, account);
        Self::close_position(env, user);
        if let Some(nft) = env.settings.nft_contract {
            env.effect(Effect::BurnReceipt { nft, owner: user });
        }
    }

    /// Asks for the pool's balance where the pool is to pause itself for want of rewards.
    pub(crate) fn watch_reserve(env: &mut Env)
        ensures
            final(env)@ == old(env)@.watch_reserve(),
    {
        if let Some(token) = env.settings.token {
            if env.settings.auto_pause_threshold != 0 {
                env.effect(Effect::CheckReserve { token });
            }
        }
    }

    /// Pays a user who burned `shares`.
    fn finish_unstake(env: &mut Env, staker: Address, shares: i128, token: Address, returned: i128)
        ensures
            final(env)@ == old(env)@.unstaked(staker, shares, token, returned),
    {
        let held: i128 = env.account(staker).shares;
        if held == 0 {
            Self::leave(env, staker);
        }
        Self::record_stake_snapshot(env, staker, held);
        Self::update_leaderboard(env, staker, held);
        Self::append_stake_history(env, staker, StakeAction::Unstake, returned);
        env.pay(token, staker, returned);
        let now: u32 = env.sequence;
        events::withdraw(env, &staker, shares, returned, now);
        env.pool.last_updated_ledger = now;
        Self::watch_reserve(env);
    }

    /// Burns `shares` whose rewards are settled.
    fn debit_stake(env: &mut Env, staker: Address, shares: i128) -> (r: Result<i128, VaultError>)
        ensures
            crate::env::gave(r, final(env)@, old(env)@.debit(staker, shares)),
    {
        let mut account = env.account(staker);
        let total_shares: i128 = env.pool.total_shares;
        let total_deposited: i128 = env.pool.total_deposited;
        let amount: i128 = match shares_to_amount(total_shares, total_deposited, shares) {
            Some(amount) => amount,
            None => {
                return Err(VaultError::ArithmeticError);
            },
        };
        let token = match env.settings.token {
            Some(token) => token,
            None => {
                return Err(VaultError::NotInitialized);
            },
        };
        let (returned, fee) = match Self::split_payout(env, staker, amount) {
            Some(parts) => parts,
            None => {
                return Err(VaultError::ArithmeticError);
            },
        };
        let rewards: Option<i128> = if fee > 0 {
            env.pool.reward_pool_balance.checked_add(fee)
        } else {
            Some(env.pool.reward_pool_balance)
        };
        match (
            account.shares.checked_sub(shares),
            total_shares.checked_sub(shares),
            total_deposited.checked_sub(returned + fee),
            rewards,
        ) {
            (Some(held), Some(new_total), Some(deposited), Some(reward_pool)) => {
                account.shares = held;
                env.set_account(staker, account);
                env.pool.total_shares = new_total;
                env.pool.total_deposited = deposited;
                env.pool.reward_pool_balance = reward_pool;
                Self::finish_unstake(env, staker, shares, token, returned);
                Ok(returned)
            },
            _ => Err(VaultError::ArithmeticError),
        }
    }

    /// Whether nothing that is computed on the way stands against paying a user for `shares`.
    pub(crate) fn can_pay_for(env: &Env, user: Address, shares: i128) -> (r: bool)
        ensures
            r == env@.can_pay_for(user, shares),
    {
        let account = match Self::settled_account(env, user, env.account(user).shares) {
            Ok(account) => account,
            Err(_) => {
                return false;
            },
        };
        let mut held: i128 = account.shares;
        let mut total_shares: i128 = env.pool.total_shares;
        let mut total_deposited: i128 = env.pool.total_deposited;
        if account.auto_restake && account.accrued > 0 {
            let minted: i128 = match amount_to_shares(
                total_shares,
                total_deposited,
                account.accrued,
            ) {
                Some(minted) => minted,
                None => {
                    return false;
                },
            };
            match (
                held.checked_add(minted),
                total_shares.checked_add(minted),
                total_deposited.checked_add(account.accrued),
            ) {
                (Some(new_held), Some(new_shares), Some(new_deposited)) => {
                    held = new_held;
                    total_shares = new_shares;
                    total_deposited = new_deposited;
                },
                _ => {
                    return false;
                },
            }
        }
        let ghost settled = env@.accrue(user, env@.account(user).shares)->Ok_0;
        let ghost compounded = settled.compound(user)->Ok_0;
        assert(settled.compound(user) is Ok);
        assert(compounded.account(user).shares == held);
        assert(compounded.pool.total_shares == total_shares);
        assert(compounded.pool.total_deposited == total_deposited);
        let amount: i128 = match shares_to_amount(total_shares, total_deposited, shares) {
            Some(amount) => amount,
            None => {
                return false;
            },
        };
        assert(compounded.payout(user, amount) == env@.payout(user, amount));
        match (env.settings.token, Self::split_payout(env, user, amount)) {
            (Some(_), Some((returned, fee))) => {
                let rewards_fit = fee <= 0 || env.pool.reward_pool_balance.checked_add(fee).is_some();
                rewards_fit && held.checked_sub(shares).is_some() && total_shares.checked_sub(
                    shares,
                ).is_some() && total_deposited.checked_sub(returned + fee).is_some()
            },
            _ => false,
        }
    }

    /// Checks that a user may burn `shares`.
    fn require_unstakable(env: &Env, staker: Address, shares: i128) -> (r: Result<(), VaultError>)
        ensures
            match env@.unstake_refusal(staker, shares) {
                Some(e) => r == Err::<(), VaultError>(e),
                None => r is Ok,
            },
    {
        if !env.is_authorized(staker) {
            return Err(VaultError::Unauthorized);
        }
        if env.pool.paused {
            return Err(VaultError::VaultPaused);
        }
        if env.settings.cooldown_period > 0 {
            return Err(VaultError::UseCooldownFlow);
        }
        if shares <= 0 {
            return Err(VaultError::ZeroAmount);
        }
        if let Some(limit) = env.settings.withdrawal_limit {
            if shares > limit {
                return Err(VaultError::WithdrawalLimitExceeded);
            }
        }
        if env.account(staker).shares < shares {
            return Err(VaultError::InsufficientShares);
        }
        Ok(())
    }

    /// Burns `shares`, with the authorisation of the staker.
    fn do_unstake(env: Env, staker: Address, shares: i128) -> (r: Result<(Env, i128), VaultError>)
        ensures
            crate::env::moves_with(r, env@.unstake(staker, shares)),
    {
        let mut env = env;
        Self::require_unstakable(&env, staker, shares)?;
        let held: i128 = env.account(staker).shares;
        Self::accrue_rewards(&mut env, staker, held)?;
        Self::maybe_restake_rewards(&mut env, staker)?;
        let returned: i128 = Self::debit_stake(&mut env, staker, shares)?;
        Ok((env, returned))
    }

    /// Burns `shares`. Hands out the amount of tokens that goes back to the user.
    pub fn withdraw(env: Env, withdrawer: Address, shares: i128) -> (r: Result<
        (Env, i128),
        VaultError,
    >)
        ensures
            crate::env::moves_with(r, env@.unstake(withdrawer, shares)),
    {
        Self::do_unstake(env, withdrawer, shares)
    }

    /// Burns `shares`: another name for `withdraw`.
    pub fn unstake(env: Env, staker: Address, shares: i128) -> (r: Result<(Env, i128), VaultError>)
        ensures
            crate::env::moves_with(r, env@.unstake(staker, shares)),
    {
        Self::do_unstake(env, staker, shares)
    }

    /// Burns all the shares of a user, those among them that their rewards become on the way,
    /// which do not count towards the withdrawal limit. Hands out the amount of tokens that goes
    /// back to them.
    pub fn unstake_all(env: Env, user: Address) -> (r: Result<(Env, i128), VaultError>)
        ensures
            crate::env::moves_with(r, env@.unstake_all(user)),
    {
        let mut env = env;
        let shares: i128 = env.account(user).shares;
        if shares == 0 {
            return Err(VaultError::PositionNotFound);
        }
        Self::require_unstakable(&env, user, shares)?;
        Self::accrue_rewards(&mut env, user, shares)?;
        Self::maybe_restake_rewards(&mut env, user)?;
        let all: i128 = env.account(user).shares;
        let returned: i128 = Self::debit_stake(&mut env, user, all)?;
        Ok((env, returned))
    }

    /// How many shares stand for `amount` of a position of `shares`.
    pub(crate) fn shares_to_remove(env: &Env, shares: i128, amount: i128) -> (r: i128)
        ensures
            r == env@.shares_for(shares, amount),
    {
        match amount_to_shares(env.pool.total_shares, env.pool.total_deposited, amount) {
            Some(wanted) => if wanted > shares {
                shares
            } else {
                wanted
            },
            None => shares,
        }
    }

    /// Takes `shares` of a user and `amount` of tokens out of the staked pool.
    pub(crate) fn remove_stake(env: &mut Env, user: Address, shares: i128, amount: i128) -> (r:
        Result<(), VaultError>)
        ensures
            crate::env::did(r, final(env)@, old(env)@.take_out(user, shares, amount)),
    {
        let mut account = env.account(user);
        match (
            account.shares.checked_sub(shares),
            env.pool.total_shares.checked_sub(shares),
            env.pool.total_deposited.checked_sub(amount),
        ) {
            (Some(held), Some(total_shares), Some(deposited)) => {
                account.shares = held;
                env.set_account(user, account);
                env.pool.total_shares = total_shares;
                env.pool.total_deposited = deposited;
                if held == 0 {
                    Self::close_position(env, user);
                }
                Self::record_stake_snapshot(env, user, held);
                Self::update_leaderboard(env, user, held);
                Ok(())
            },
            _ => Err(VaultError::ArithmeticError),
        }
    }

    /// Starts the cooldown of `amount` and of what is unbonding already, or pays both out where
    /// there is none.
    fn start_unbonding(env: &mut Env, user: Address, amount: i128) -> (r: Result<(), VaultError>)
        ensures
            crate::env::did(r, final(env)@, old(env)@.unbond(user, amount)),
    {
        let mut account = env.account(user);
        let now: u32 = env.sequence;
        let already: i128 = match account.unbonding {
            Some(position) => position.amount,
            None => 0,
        };
        let total: i128 = match already.checked_add(amount) {
            Some(total) => total,
            None => {
                return Err(VaultError::ArithmeticError);
            },
        };
        account.checkpoint = Some(now);
        if env.settings.cooldown_period > 0 {
            account.unbonding = Some(UnbondingPosition { amount: total, unbonding_since: now });
            env.set_account(user, account);
            return Ok(());
        }
        match env.settings.token {
            Some(token) => {
                account.unbonding = None;
                env.set_account(user, account);
                env.pay(token, user, total);
                Ok(())
            },
            None => Err(VaultError::NotInitialized),
        }
    }

    /// Takes `amount` out of a user's position and lets it unbond. Rewards on it stop now; the
    /// tokens stay in the pool until `execute_unstake`. Without a cooldown they are paid at once,
    /// together with what was unbonding already.
    pub fn request_unstake(env: Env, user: Address, amount: i128) -> (r: Result<Env, VaultError>)
        ensures
            crate::env::moves_to(r, env@.request_unstake(user, amount)),
    {
        let mut env = env;
        let shares: i128 = env.account(user).shares;
        if !env.is_authorized(user) {
            return Err(VaultError::Unauthorized);
        }
        if env.pool.paused {
            return Err(VaultError::VaultPaused);
        }
        if amount <= 0 {
            return Err(VaultError::ZeroAmount);
        }
        if shares == 0 {
            return Err(VaultError::PositionNotFound);
        }
        let total_shares: i128 = env.pool.total_shares;
        let total_deposited: i128 = env.pool.total_deposited;
        let position: i128 = match shares_to_amount(total_shares, total_deposited, shares) {
            Some(position) => position,
            None => {
                return Err(VaultError::ArithmeticError);
            },
        };
        if position <= 0 {
            return Err(VaultError::PositionNotFound);
        }
        let wanted: i128 = if amount > position {
            position
        } else {
            amount
        };
        let burned: i128 = Self::shares_to_remove(&env, shares, wanted);
        Self::accrue_rewards(&mut env, user, shares)?;
        let removed: i128 = match shares_to_amount(total_shares, total_deposited, burned) {
            Some(removed) => removed,
            None => {
                return Err(VaultError::ArithmeticError);
            },
        };
        Self::remove_stake(&mut env, user, burned, removed)?;
        Self::start_unbonding(&mut env, user, removed)?;
        Ok(env)
    }

    /// Pays out what has unbonded, once the cooldown has passed.
    pub fn execute_unstake(env: Env, user: Address) -> (r: Result<(Env, i128), VaultError>)
        ensures
            crate::env::moves_with(r, env@.execute_unstake(user)),
    {
        let mut env = env;
        if !env.is_authorized(user) {
            return Err(VaultError::Unauthorized);
        }
        if env.pool.paused {
            return Err(VaultError::VaultPaused);
        }
        let mut account = env.account(user);
        let position = match account.unbonding {
            Some(position) => position,
            None => {
                return Err(VaultError::PositionNotFound);
            },
        };
        let cooldown: u32 = env.settings.cooldown_period;
        if cooldown > 0 && env.sequence < position.unbonding_since.saturating_add(cooldown) {
            return Err(VaultError::UseCooldownFlow);
        }
        match env.settings.token {
            Some(token) => {
                account.unbonding = None;
                env.set_account(user, account);
                env.pay(token, user, position.amount);
                Ok((env, position.amount))
            },
            None => Err(VaultError::NotInitialized),
        }
    }

    /// Pauses the pool where its balance of the vault token is below the threshold.
    pub fn check_auto_pause(env: Env, reward_balance: i128) -> (r: Result<Env, VaultError>)
        ensures
            crate::env::moves_to(r, env@.check_auto_pause(reward_balance)),
    {
        let mut env = env;
        let threshold: i128 = env.settings.auto_pause_threshold;
        if threshold == 0 {
            return Ok(env);
        }
        if env.settings.token.is_none() {
            return Err(VaultError::NotInitialized);
        }
        if reward_balance < threshold {
            env.pool.paused = true;
            events::auto_paused(&mut env, reward_balance, threshold);
        }
        Ok(env)
    }
}

} // verus!
