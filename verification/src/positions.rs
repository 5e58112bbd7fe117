//! What can become of a position besides a stake and an unstake.
use crate::address::Address;
use crate::admin::{get_admin, require_admin};
use crate::balance::shares_to_amount;
use crate::env::{Env, State};
use crate::errors::VaultError;
use crate::events;
use crate::events::Event;
use crate::storage::Account;
use crate::vault::VaultContract;
use vstd::prelude::*;

verus! {

impl State {
    /// Since when a user stakes: since now, where nothing is stored.
    pub open spec fn staked_since(self, user: Address) -> u32 {
        match self.account(user).staked_at {
            Some(ledger) => ledger,
            None => self.sequence,
        }
    }

    /// Why the position of `from` cannot go to `to`, where it cannot.
    pub open spec fn transfer_refusal(self, from: Address, to: Address) -> Option<VaultError> {
        if !self.authorized(from) {
            Some(VaultError::Unauthorized)
        } else if self.pool.paused {
            Some(VaultError::VaultPaused)
        } else if self.account(from).shares == 0 {
            Some(VaultError::PositionNotFound)
        } else if self.account(to).shares > 0 {
            Some(VaultError::RecipientAlreadyStaking)
        } else {
            None
        }
    }

    /// `shares` went from one user to another: the list of stakers, vote histories and leaderboard
    /// follow.
    pub open spec fn handed_over(self, from: Address, to: Address, shares: i128) -> State {
        State {
            stakers: crate::history::succeeded(self.stakers, from, to),
            ..self
        }.note_shares(from, 0).note_shares(to, shares).reseat(from, 0).reseat(to, shares)
    }

    /// The position of `from` goes to `to`. The rewards of `from` are settled and stay theirs; `to`
    /// keeps the lock-up timer and starts anew on rewards.
    pub open spec fn moved(self, from: Address, to: Address, amount: i128) -> State {
        let sender = self.account(from);
        self.with_account(
            to,
            Account {
                shares: sender.shares,
                staked_at: Some(self.staked_since(from)),
                checkpoint: Some(self.sequence),
                last_claim: self.sequence,
                accrued: 0,
                ..self.account(to)
            },
        ).with_account(
            from,
            Account {
                shares: 0,
                staked_at: None,
                checkpoint: Some(self.sequence),
                ..sender
            },
        ).handed_over(from, to, sender.shares).publish(
            Event::PositionTransferred { from, to, amount, ledger: self.sequence },
        )
    }

    /// What `transfer_position` does.
    pub open spec fn transfer_position(self, from: Address, to: Address) -> Result<
        State,
        VaultError,
    > {
        let shares = self.account(from).shares;
        match self.transfer_refusal(from, to) {
            Some(e) => Err(e),
            None => match self.worth(shares) {
                None => Err(VaultError::ArithmeticError),
                Some(amount) => match self.accrue(from, shares) {
                    Err(e) => Err(e),
                    Ok(settled) => Ok(settled.moved(from, to, amount)),
                },
            },
        }
    }

    /// The position of `from` goes to `to` together with what was accrued, dust
    /// included, and what accrues since.
    pub open spec fn moved_with_rewards(self, from: Address, to: Address) -> State {
        let sender = self.account(from);
        self.with_account(
            to,
            Account {
                shares: sender.shares,
                staked_at: Some(self.staked_since(from)),
                checkpoint: Some(self.settled_until(from)),
                last_claim: sender.last_claim,
                accrued: sender.accrued,
                remainder: sender.remainder,
                ..self.account(to)
            },
        ).with_account(
            from,
            Account {
                shares: 0,
                staked_at: None,
                checkpoint: Some(self.sequence),
                last_claim: self.sequence,
                accrued: 0,
                remainder: 0,
                ..sender
            },
        ).handed_over(from, to, sender.shares).publish(
            Event::PositionTransferredWithRewards {
                from,
                to,
                amount: match self.worth(sender.shares) {
                    Some(amount) => amount,
                    None => 0,
                },
                pending_reward_estimate: match self.pending_reward(from) {
                    Ok(reward) => reward,
                    Err(_) => sender.accrued,
                },
                ledger: self.sequence,
            },
        )
    }

    /// What `transfer_position_with_rewards` does.
    pub open spec fn transfer_position_with_rewards(self, from: Address, to: Address) -> Result<
        State,
        VaultError,
    > {
        match self.transfer_refusal(from, to) {
            Some(e) => Err(e),
            None => Ok(self.moved_with_rewards(from, to)),
        }
    }

    /// What `merge_positions` does.
    pub open spec fn merge_positions(self, user: Address) -> Result<State, VaultError> {
        let shares = self.account(user).shares;
        if !self.authorized(user) {
            Err(VaultError::Unauthorized)
        } else if shares == 0 {
            Err(VaultError::PositionNotFound)
        } else {
            match self.accrue(user, shares) {
                Err(e) => Err(e),
                Ok(settled) => Ok(
                    settled.with_account(
                        user,
                        Account { staked_at: Some(self.sequence), ..settled.account(user) },
                    ).publish(
                        Event::PositionsMerged {
                            user,
                            count_merged: 1,
                            total_amount: match self.worth(shares) {
                                Some(amount) => amount,
                                None => 0,
                            },
                            ledger: self.sequence,
                        },
                    ),
                ),
            }
        }
    }

    /// A user loses what they accrued, and accrues anew from now on.
    pub open spec fn forfeited(self, user: Address) -> State {
        self.with_account(
            user,
            Account {
                accrued: 0,
                checkpoint: Some(self.sequence),
                last_claim: self.sequence,
                ..self.account(user)
            },
        )
    }

    /// `amount` of a position, or all of it where it is less, is taken from a user.
    pub open spec fn slashed(self, user: Address, amount: i128) -> Result<
        (State, i128),
        VaultError,
    > {
        let shares = self.account(user).shares;
        if amount <= 0 {
            Err(VaultError::ZeroAmount)
        } else if shares == 0 {
            Err(VaultError::PositionNotFound)
        } else {
            match (self.worth(shares), self.settings.token, self.settings.slash_treasury) {
                (None, _, _) => Err(VaultError::ArithmeticError),
                (Some(position), token, treasury) => if position == 0 {
                    Err(VaultError::PositionNotFound)
                } else {
                    match (token, treasury) {
                        (Some(token), Some(treasury)) => {
                            let actual = crate::math::smaller(
                                amount as int,
                                position as int,
                            ) as i128;
                            match self.take_out(user, self.shares_for(shares, actual), actual) {
                                Err(e) => Err(e),
                                Ok(taken) => Ok(
                                    (
                                        taken.forfeited(user).pay(token, treasury, actual).publish(
                                            Event::Slash {
                                                admin: self.admin(),
                                                user,
                                                amount: actual,
                                                ledger: self.sequence,
                                            },
                                        ),
                                        actual,
                                    ),
                                ),
                            }
                        },
                        _ => Err(VaultError::NotInitialized),
                    }
                },
            }
        }
    }

    /// What `slash` does.
    pub open spec fn slash(self, admin_addr: Address, user: Address, amount: i128) -> Result<
        (State, i128),
        VaultError,
    > {
        match self.settings.admin {
            None => Err(VaultError::NotInitialized),
            Some(admin) => if admin_addr != admin || !self.authorized(admin_addr) {
                Err(VaultError::Unauthorized)
            } else {
                self.slashed(user, amount)
            },
        }
    }

    /// What `flag_frozen` does.
    pub open spec fn flag_frozen(self, user: Address) -> Result<State, VaultError> {
        match self.admin_refusal() {
            Some(e) => Err(e),
            None => if self.account(user).shares == 0 {
                Err(VaultError::PositionNotFound)
            } else {
                Ok(
                    self.with_account(
                        user,
                        Account { frozen_at: Some(self.sequence), ..self.account(user) },
                    ).publish(
                        Event::FrozenPosition {
                            admin: self.admin(),
                            user,
                            frozen_at: self.sequence,
                            ledger: self.sequence,
                        },
                    ),
                )
            },
        }
    }

    /// What `revoke_delegate` does.
    pub open spec fn revoke_delegate(self, user: Address, delegate: Address) -> Result<
        State,
        VaultError,
    > {
        if !self.authorized(user) {
            Err(VaultError::Unauthorized)
        } else if self.account(user).delegate != Some(delegate) {
            Err(VaultError::NotADelegate)
        } else {
            Ok(self.with_account(user, Account { delegate: None, ..self.account(user) }))
        }
    }
}

impl VaultContract {
    /// Checks whether the position of `from` can go to `to`.
    fn require_transferable(env: &Env, from: Address, to: Address) -> (r: Result<(), VaultError>)
        ensures
            match env@.transfer_refusal(from, to) {
                Some(e) => r == Err::<(), VaultError>(e),
                None => r is Ok,
            },
    {
        if !env.is_authorized(from) {
            return Err(VaultError::Unauthorized);
        }
        if env.pool.paused {
            return Err(VaultError::VaultPaused);
        }
        if env.account(from).shares == 0 {
            return Err(VaultError::PositionNotFound);
        }
        if env.account(to).shares > 0 {
            return Err(VaultError::RecipientAlreadyStaking);
        }
        Ok(())
    }

    /// Lets the list of stakers, vote histories and leaderboard follow a position that went to
    /// another user.
    fn hand_over(env: &mut Env, from: Address, to: Address, shares: i128)
        ensures
            final(env)@ == old(env)@.handed_over(from, to, shares),
    {
        Self::replace_in_staker_list(env, from, to);
        Self::record_stake_snapshot(env, from, 0);
        Self::record_stake_snapshot(env, to, shares);
        Self::update_leaderboard(env, from, 0);
        Self::update_leaderboard(env, to, shares);
    }

    /// Hands the whole position of `from` to `to`, who must have none. The rewards of `from` are
    /// settled and stay claimable by `from`; `to` keeps the lock-up timer and accrues anew.
    pub fn transfer_position(env: Env, from: Address, to: Address) -> (r: Result<Env, VaultError>)
        ensures
            crate::env::moves_to(r, env@.transfer_position(from, to)),
    {
        let mut env = env;
        Self::require_transferable(&env, from, to)?;
        let shares: i128 = env.account(from).shares;
        let amount: i128 = match shares_to_amount(
            env.pool.total_shares,
            env.pool.total_deposited,
            shares,
        ) {
            Some(amount) => amount,
            None => {
                return Err(VaultError::ArithmeticError);
            },
        };
        Self::accrue_rewards(&mut env, from, shares)?;
        let now: u32 = env.sequence;
        let mut sender = env.account(from);
        let mut receiver = env.account(to);
        receiver.shares = sender.shares;
        receiver.staked_at = match sender.staked_at {
            Some(ledger) => Some(ledger),
            None => Some(now),
        };
        receiver.checkpoint = Some(now);
        receiver.last_claim = now;
        receiver.accrued = 0;
        env.set_account(to, receiver);
        sender.shares = 0;
        sender.staked_at = None;
        sender.checkpoint = Some(now);
        env.set_account(from, sender);
        Self::hand_over(&mut env, from, to, shares);
        events::position_transferred(&mut env, &from, &to, amount);
        Ok(env)
    }

    /// Hands the whole position of `from` to `to`, who must have none, together with its rewards.
    pub fn transfer_position_with_rewards(env: Env, from: Address, to: Address) -> (r: Result<
        Env,
        VaultError,
    >)
        ensures
            crate::env::moves_to(r, env@.transfer_position_with_rewards(from, to)),
    {
        let mut env = env;
        Self::require_transferable(&env, from, to)?;
        let now: u32 = env.sequence;
        let mut sender = env.account(from);
        let mut receiver = env.account(to);
        let shares: i128 = sender.shares;
        let estimate: i128 = match Self::pending_raw(&env, from) {
            Ok(reward) => reward,
            Err(_) => sender.accrued,
        };
        let amount: i128 = match shares_to_amount(
            env.pool.total_shares,
            env.pool.total_deposited,
            shares,
        ) {
            Some(amount) => amount,
            None => 0,
        };
        receiver.shares = shares;
        receiver.staked_at = match sender.staked_at {
            Some(ledger) => Some(ledger),
            None => Some(now),
        };
        receiver.checkpoint = match sender.checkpoint {
            Some(ledger) => Some(ledger),
            None => Some(now),
        };
        receiver.last_claim = sender.last_claim;
        receiver.accrued = sender.accrued;
        receiver.remainder = sender.remainder;
        env.set_account(to, receiver);
        sender.shares = 0;
        sender.staked_at = None;
        sender.checkpoint = Some(now);
        sender.last_claim = now;
        sender.accrued = 0;
        sender.remainder = 0;
        env.set_account(from, sender);
        Self::hand_over(&mut env, from, to, shares);
        events::position_transferred_with_rewards(&mut env, &from, &to, amount, estimate, now);
        Ok(env)
    }

    /// Merges the positions of a user into one. A user has one at most, so that this settles its
    /// rewards and starts its lock-up anew.
    pub fn merge_positions(env: Env, user: Address) -> (r: Result<Env, VaultError>)
        ensures
            crate::env::moves_to(r, env@.merge_positions(user)),
    {
        let mut env = env;
        if !env.is_authorized(user) {
            return Err(VaultError::Unauthorized);
        }
        let shares: i128 = env.account(user).shares;
        if shares == 0 {
            return Err(VaultError::PositionNotFound);
        }
        Self::accrue_rewards(&mut env, user, shares)?;
        let amount: i128 = match shares_to_amount(
            env.pool.total_shares,
            env.pool.total_deposited,
            shares,
        ) {
            Some(amount) => amount,
            None => 0,
        };
        let mut account = env.account(user);
        account.staked_at = Some(env.sequence);
        env.set_account(user, account);
        events::positions_merged(&mut env, &user, 1, amount);
        Ok(env)
    }

    /// Takes `amount` of a position, or all of it where it is less, from a user.
    fn do_slash(env: &mut Env, admin: Address, user: Address, amount: i128) -> (r: Result<
        i128,
        VaultError,
    >)
        requires
            admin == old(env)@.admin(),
        ensures
            crate::env::gave(r, final(env)@, old(env)@.slashed(user, amount)),
    {
        if amount <= 0 {
            return Err(VaultError::ZeroAmount);
        }
        let shares: i128 = env.account(user).shares;
        if shares == 0 {
            return Err(VaultError::PositionNotFound);
        }
        let position: i128 = match shares_to_amount(
            env.pool.total_shares,
            env.pool.total_deposited,
            shares,
        ) {
            Some(position) => position,
            None => {
                return Err(VaultError::ArithmeticError);
            },
        };
        if position == 0 {
            return Err(VaultError::PositionNotFound);
        }
        let actual: i128 = if amount > position {
            position
        } else {
            amount
        };
        let burned: i128 = Self::shares_to_remove(env, shares, actual);
        match (env.settings.token, env.settings.slash_treasury) {
            (Some(token), Some(treasury)) => {
                Self::remove_stake(env, user, burned, actual)?;
                let now: u32 = env.sequence;
                let mut account = env.account(user);
                account.accrued = 0;
                account.checkpoint = Some(now);
                account.last_claim = now;
                env.set_account(user, account);
                env.pay(token, treasury, actual);
                events::slash(env, &admin, &user, actual);
                Ok(actual)
            },
            _ => Err(VaultError::NotInitialized),
        }
    }

    /// Admin: takes `amount` of a user's stake, or all of it where it is less, and sends it to
    /// the treasury. The user loses what they accrued. This works while the pool is paused.
    /// Hands out the amount taken.
    pub fn slash(env: Env, admin_addr: Address, user: Address, amount: i128) -> (r: Result<
        (Env, i128),
        VaultError,
    >)
        ensures
            crate::env::moves_with(r, env@.slash(admin_addr, user, amount)),
    {
        let mut env = env;
        let admin = get_admin(&env)?;
        if admin_addr != admin || !env.is_authorized(admin_addr) {
            return Err(VaultError::Unauthorized);
        }
        let actual: i128 = Self::do_slash(&mut env, admin, user, amount)?;
        Ok((env, actual))
    }

    /// Admin: flags a position as frozen. The flag is for information and stops nothing.
    pub fn flag_frozen(env: Env, admin: Address, user: Address) -> (r: Result<Env, VaultError>)
        ensures
            crate::env::moves_to(r, env@.flag_frozen(user)),
    {
        let mut env = env;
        let _ = admin;
        let admin = require_admin(&env)?;
        let mut account = env.account(user);
        if account.shares == 0 {
            return Err(VaultError::PositionNotFound);
        }
        let now: u32 = env.sequence;
        account.frozen_at = Some(now);
        env.set_account(user, account);
        events::frozen_position(&mut env, &admin, &user, now);
        Ok(env)
    }

    /// Admin: takes the frozen flag off a position.
    pub fn unfreeze(env: Env, admin: Address, user: Address) -> (r: Result<Env, VaultError>)
        ensures
            crate::env::moves_to(
                r,
                env@.by_admin(
                    env@.with_account(user, (Account { frozen_at: None, ..env@.account(user) })),
                ),
            ),
    {
        let mut env = env;
        let _ = admin;
        require_admin(&env)?;
        let mut account = env.account(user);
        account.frozen_at = None;
        env.set_account(user, account);
        Ok(env)
    }

    /// Whether a position is flagged as frozen.
    pub fn is_frozen(env: &Env, user: Address) -> (r: bool)
        ensures
            r == (env@.account(user).frozen_at is Some),
    {
        env.account(user).frozen_at.is_some()
    }

    /// Lets `delegate` stake for `user`, in place of the delegate that there may be.
    pub fn approve_delegate(env: Env, user: Address, delegate: Address) -> (r: Result<
        Env,
        VaultError,
    >)
        ensures
            crate::env::moves_to(
                r,
                if env@.authorized(user) {
                    Ok(
                        env@.with_account(
                            user,
                            (Account { delegate: Some(delegate), ..env@.account(user) }),
                        ),
                    )
                } else {
                    Err(VaultError::Unauthorized)
                },
            ),
    {
        let mut env = env;
        if !env.is_authorized(user) {
            return Err(VaultError::Unauthorized);
        }
        let mut account = env.account(user);
        account.delegate = Some(delegate);
        env.set_account(user, account);
        Ok(env)
    }

    /// Lets `delegate` stake for `user` no more.
    pub fn revoke_delegate(env: Env, user: Address, delegate: Address) -> (r: Result<
        Env,
        VaultError,
    >)
        ensures
            crate::env::moves_to(r, env@.revoke_delegate(user, delegate)),
    {
        let mut env = env;
        if !env.is_authorized(user) {
            return Err(VaultError::Unauthorized);
        }
        let mut account = env.account(user);
        match account.delegate {
            Some(approved) => {
                if approved != delegate {
                    return Err(VaultError::NotADelegate);
                }
            },
            None => {
                return Err(VaultError::NotADelegate);
            },
        }
        account.delegate = None;
        env.set_account(user, account);
        Ok(env)
    }

    /// Whether `delegate` may stake for `user`.
    pub fn is_delegate(env: &Env, user: Address, delegate: Address) -> (r: bool)
        ensures
            r == (env@.account(user).delegate == Some(delegate)),
    {
        match env.account(user).delegate {
            Some(approved) => approved == delegate,
            None => false,
        }
    }

    /// Switches the compounding of a user's rewards on or off. It happens whenever the user
    /// stakes or unstakes; a claim pays rewards out all the same.
    pub fn set_auto_restake(env: Env, user: Address, enabled: bool) -> (after: Env)
        requires
            env@.authorized(user),
        ensures
            after@ == env@.with_account(
                user,
                (Account { auto_restake: enabled, ..env@.account(user) }),
            ),
    {
        let mut env = env;
        let mut account = env.account(user);
        account.auto_restake = enabled;
        env.set_account(user, account);
        env
    }

    /// Whether the rewards of a user are compounded.
    pub fn is_auto_restake_enabled(env: &Env, user: Address) -> (r: bool)
        ensures
            r == env@.account(user).auto_restake,
    {
        env.account(user).auto_restake
    }
}

} // verus!
