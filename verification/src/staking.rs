//! Putting tokens into the pool: `stake`, `deposit`, `stake_for`.
use crate::address::Address;
use crate::balance::{amount_to_shares, shares_to_amount};
use crate::env::{Effect, Env, State};
use crate::errors::VaultError;
use crate::events;
use crate::events::Event;
use crate::history::listed;
use crate::storage::{Account, Pool, StakeAction};
use crate::vault::VaultContract;
use vstd::prelude::*;

verus! {

impl State {
    /// Why the minimum stake stands against `amount` on top of `shares`, where it does.
    pub open spec fn min_stake_refusal(self, shares: i128, amount: i128) -> Option<VaultError> {
        if self.settings.min_stake == 0 {
            None
        } else if shares == 0 {
            if amount < self.settings.min_stake {
                Some(VaultError::BelowMinimumStake)
            } else {
                None
            }
        } else {
            match self.worth(shares) {
                None => Some(VaultError::ArithmeticError),
                Some(position) => if !crate::math::fits(position + amount) {
                    Some(VaultError::ArithmeticError)
                } else if position + amount < self.settings.min_stake {
                    Some(VaultError::BelowMinimumStake)
                } else {
                    None
                },
            }
        }
    }

    /// How many positions a user has: one at most.
    pub open spec fn positions(self, user: Address) -> int {
        if self.account(user).shares > 0 {
            1
        } else {
            0
        }
    }

    /// Why a user may not stake `amount`, where they may not.
    pub open spec fn stake_refusal(self, staker: Address, amount: i128) -> Option<VaultError> {
        let account = self.account(staker);
        if self.settings.stopped {
            Some(VaultError::ContractStopped)
        } else if self.pool.paused {
            Some(VaultError::VaultPaused)
        } else if self.settings.whitelist_enabled && !account.whitelisted {
            Some(VaultError::NotWhitelisted)
        } else if self.settings.kyc_required && !account.kyc_approved {
            Some(VaultError::KycNotApproved)
        } else if amount <= 0 {
            Some(VaultError::ZeroAmount)
        } else if self.settings.token is None {
            Some(VaultError::NotInitialized)
        } else if 0 < self.settings.max_positions <= self.positions(staker) {
            Some(VaultError::MaxPositionsReached)
        } else {
            self.min_stake_refusal(account.shares, amount)
        }
    }

    /// Accrued rewards become shares, where the user wants that.
    pub open spec fn compound(self, user: Address) -> Result<State, VaultError> {
        let account = self.account(user);
        if !account.auto_restake || account.accrued <= 0 {
            Ok(self)
        } else {
            match self.minted(account.accrued) {
                None => Err(VaultError::ArithmeticError),
                Some(shares) => if !crate::math::fits(account.shares + shares)
                    || !crate::math::fits(self.pool.total_shares + shares) || !crate::math::fits(
                    self.pool.total_deposited + account.accrued,
                ) {
                    Err(VaultError::ArithmeticError)
                } else {
                    Ok(
                        self.with_account(
                            user,
                            Account {
                                shares: (account.shares + shares) as i128,
                                accrued: 0,
                                ..account
                            },
                        ).with_pool(
                            Pool {
                                total_shares: (self.pool.total_shares + shares) as i128,
                                total_deposited: (self.pool.total_deposited
                                    + account.accrued) as i128,
                                ..self.pool
                            },
                        ).publish(
                            Event::AutoRestaked {
                                user,
                                amount: account.accrued,
                                ledger: self.sequence,
                            },
                        ),
                    )
                },
            }
        }
    }

    /// A stake of a user who left not long ago keeps them free of the early exit penalty.
    pub open spec fn within_grace(self, user: Address) -> bool {
        match self.account(user).last_unstake {
            Some(left) => self.settings.restake_window > 0 && self.sequence - left
                <= self.settings.restake_window,
            None => false,
        }
    }

    /// A user without shares comes with a stake and is listed. Who is listed already, because an
    /// earlier stake was too small for a share, is not listed twice.
    pub open spec fn opened(self, user: Address, amount: i128) -> State {
        let account = self.account(user);
        let entered = State {
            stakers: if self.stakers.contains(user) {
                self.stakers
            } else {
                self.stakers.push(user)
            },
            ..self.with_account(
                user,
                Account {
                    staked_at: Some(self.sequence),
                    last_claim: self.sequence,
                    restaked: account.restaked || self.within_grace(user),
                    ..account
                },
            ).with_pool(Pool { total_stakers: (self.pool.total_stakers + 1) as u32, ..self.pool })
        }.publish(Event::PositionOpened { user, amount, ledger: self.sequence });
        match self.settings.nft_contract {
            Some(nft) => entered.effect(
                Effect::MintReceipt {
                    nft,
                    owner: user,
                    vault: self.contract,
                    amount,
                    ledger: self.sequence,
                },
            ),
            None => entered,
        }
    }

    /// `payer` brings `amount`, and `user` gets the shares for it. `fresh` says that the user had
    /// no position before the call.
    pub open spec fn credit(
        self,
        payer: Address,
        user: Address,
        amount: i128,
        fresh: bool,
    ) -> Result<(State, i128), VaultError> {
        let account = self.account(user);
        let deposited = self.pool.total_deposited + amount;
        if self.settings.pool_cap > 0 && !crate::math::fits(deposited) {
            Err(VaultError::ArithmeticError)
        } else if self.settings.pool_cap > 0 && deposited > self.settings.pool_cap {
            Err(VaultError::PoolCapReached)
        } else {
            match (self.minted(amount), self.settings.token) {
                (Some(shares), Some(token)) => if !crate::math::fits(account.shares + shares)
                    || !crate::math::fits(self.pool.total_shares + shares) || !crate::math::fits(
                    deposited,
                ) || (fresh && self.pool.total_stakers == u32::MAX) {
                    Err(VaultError::ArithmeticError)
                } else {
                    let held = (account.shares + shares) as i128;
                    let paid = self.collect(token, payer, amount).with_account(
                        user,
                        Account { shares: held, ..account },
                    ).with_pool(
                        Pool {
                            total_shares: (self.pool.total_shares + shares) as i128,
                            total_deposited: deposited as i128,
                            ..self.pool
                        },
                    );
                    let entered = if fresh {
                        paid.opened(user, amount)
                    } else {
                        paid
                    };
                    Ok((entered.note_shares(user, held).reseat(user, held), shares))
                },
                (_, None) => Err(VaultError::NotInitialized),
                (None, _) => Err(VaultError::ArithmeticError),
            }
        }
    }

    /// A user who may do so stakes `amount`.
    pub open spec fn stake_inner(self, staker: Address, amount: i128) -> Result<
        (State, i128),
        VaultError,
    > {
        let shares = self.account(staker).shares;
        match self.stake_refusal(staker, amount) {
            Some(e) => Err(e),
            None => match self.accrue(staker, shares) {
                Err(e) => Err(e),
                Ok(settled) => match settled.compound(staker) {
                    Err(e) => Err(e),
                    Ok(compounded) => match compounded.credit(staker, staker, amount, shares == 0) {
                        Err(e) => Err(e),
                        Ok((credited, minted)) => Ok(
                            (
                                credited.log_stake(staker, StakeAction::Stake, amount).publish(
                                    Event::Deposit {
                                        depositor: staker,
                                        amount,
                                        shares_minted: minted,
                                        ledger: self.sequence,
                                    },
                                ).touched(),
                                minted,
                            ),
                        ),
                    },
                },
            },
        }
    }

    /// What `stake` does.
    pub open spec fn stake(self, staker: Address, amount: i128) -> Result<
        (State, i128),
        VaultError,
    > {
        if !self.authorized(staker) {
            Err(VaultError::Unauthorized)
        } else {
            self.stake_inner(staker, amount)
        }
    }

    /// Why a delegate may not stake `amount` for a beneficiary, where they may not.
    pub open spec fn stake_for_refusal(
        self,
        delegate: Address,
        beneficiary: Address,
        amount: i128,
    ) -> Option<VaultError> {
        let account = self.account(beneficiary);
        if !self.authorized(delegate) {
            Some(VaultError::Unauthorized)
        } else if self.settings.stopped {
            Some(VaultError::ContractStopped)
        } else if self.pool.paused {
            Some(VaultError::VaultPaused)
        } else if amount <= 0 {
            Some(VaultError::ZeroAmount)
        } else if account.delegate != Some(delegate) {
            Some(VaultError::NotADelegate)
        } else if self.settings.whitelist_enabled && !account.whitelisted {
            Some(VaultError::NotWhitelisted)
        } else if self.settings.kyc_required && !account.kyc_approved {
            Some(VaultError::KycNotApproved)
        } else if self.settings.token is None {
            Some(VaultError::NotInitialized)
        } else if 0 < self.settings.max_positions <= self.positions(beneficiary) {
            Some(VaultError::MaxPositionsReached)
        } else {
            self.min_stake_refusal(account.shares, amount)
        }
    }

    /// What `stake_for` does.
    pub open spec fn stake_for(
        self,
        delegate: Address,
        beneficiary: Address,
        amount: i128,
    ) -> Result<(State, i128), VaultError> {
        let shares = self.account(beneficiary).shares;
        match self.stake_for_refusal(delegate, beneficiary, amount) {
            Some(e) => Err(e),
            None => match self.accrue(beneficiary, shares) {
                Err(e) => Err(e),
                Ok(settled) => match settled.credit(delegate, beneficiary, amount, shares == 0) {
                    Err(e) => Err(e),
                    Ok((credited, minted)) => Ok(
                        (
                            credited.publish(
                                Event::Deposit {
                                    depositor: beneficiary,
                                    amount,
                                    shares_minted: minted,
                                    ledger: self.sequence,
                                },
                            ),
                            minted,
                        ),
                    ),
                },
            },
        }
    }
}

impl VaultContract {
    /// Checks the minimum stake.
    fn require_min_stake(env: &Env, current_shares: i128, amount: i128) -> (r: Result<
        (),
        VaultError,
    >)
        ensures
            match env@.min_stake_refusal(current_shares, amount) {
                Some(e) => r == Err::<(), VaultError>(e),
                None => r is Ok,
            },
    {
        let min_stake: i128 = env.settings.min_stake;
        if min_stake == 0 {
            return Ok(());
        }
        if current_shares == 0 {
            return if amount < min_stake {
                Err(VaultError::BelowMinimumStake)
            } else {
                Ok(())
            };
        }
        match shares_to_amount(env.pool.total_shares, env.pool.total_deposited, current_shares) {
            None => Err(VaultError::ArithmeticError),
            Some(position) => match position.checked_add(amount) {
                None => Err(VaultError::ArithmeticError),
                Some(resulting) => if resulting < min_stake {
                    Err(VaultError::BelowMinimumStake)
                } else {
                    Ok(())
                },
            },
        }
    }

    /// Turns the accrued rewards of a user into shares, where the user wants that.
    pub(crate) fn maybe_restake_rewards(env: &mut Env, user: Address) -> (r: Result<
        (),
        VaultError,
    >)
        ensures
            crate::env::did(r, final(env)@, old(env)@.compound(user)),
    {
        let mut account = env.account(user);
        let accrued: i128 = account.accrued;
        if !account.auto_restake || accrued <= 0 {
            return Ok(());
        }
        let total_shares: i128 = env.pool.total_shares;
        let total_deposited: i128 = env.pool.total_deposited;
        let minted: i128 = match amount_to_shares(total_shares, total_deposited, accrued) {
            Some(shares) => shares,
            None => {
                return Err(VaultError::ArithmeticError);
            },
        };
        match (
            account.shares.checked_add(minted),
            total_shares.checked_add(minted),
            total_deposited.checked_add(accrued),
        ) {
            (Some(held), Some(shares), Some(deposited)) => {
                account.shares = held;
                account.accrued = 0;
                env.set_account(user, account);
                env.pool.total_shares = shares;
                env.pool.total_deposited = deposited;
                events::auto_restaked(env, &user, accrued);
                Ok(())
            },
            _ => Err(VaultError::ArithmeticError),
        }
    }

    /// Gives a user who had none a position.
    fn open_position(env: &mut Env, user: Address, amount: i128)
        requires
            old(env)@.pool.total_stakers < u32::MAX,
        ensures
            final(env)@ == old(env)@.opened(user, amount),
    {
        let now: u32 = env.sequence;
        let mut account = env.account(user);
        account.staked_at = Some(now);
        account.last_claim = now;
        if env.settings.restake_window > 0 {
            if let Some(left) = account.last_unstake {
                if now.saturating_sub(left) <= env.settings.restake_window {
                    account.restaked = true;
                }
            }
        }
        env.set_account(user, account);
        env.pool.total_stakers = env.pool.total_stakers + 1;
        if !listed(&env.stakers, user) {
            env.stakers.push(user);
        }
        events::position_opened(env, &user, amount);
        if let Some(nft) = env.settings.nft_contract {
            let vault = env.contract;
            env.effect(Effect::MintReceipt { nft, owner: user, vault, amount, ledger: now });
        }
    }

    /// Takes `amount` from `payer` and gives `user` the shares for it.
    fn credit_stake(
        env: &mut Env,
        payer: Address,
        user: Address,
        amount: i128,
        fresh: bool,
    ) -> (r: Result<i128, VaultError>)
        ensures
            crate::env::gave(r, final(env)@, old(env)@.credit(payer, user, amount, fresh)),
    {
        let total_shares: i128 = env.pool.total_shares;
        let total_deposited: i128 = env.pool.total_deposited;
        let cap: i128 = env.settings.pool_cap;
        if cap > 0 {
            match total_deposited.checked_add(amount) {
                None => {
                    return Err(VaultError::ArithmeticError);
                },
                Some(deposited) => {
                    if deposited > cap {
                        return Err(VaultError::PoolCapReached);
                    }
                },
            }
        }
        let token = match env.settings.token {
            Some(token) => token,
            None => {
                return Err(VaultError::NotInitialized);
            },
        };
        let shares: i128 = match amount_to_shares(total_shares, total_deposited, amount) {
            Some(shares) => shares,
            None => {
                return Err(VaultError::ArithmeticError);
            },
        };
        if fresh && env.pool.total_stakers == u32::MAX {
            return Err(VaultError::ArithmeticError);
        }
        let mut account = env.account(user);
        match (
            account.shares.checked_add(shares),
            total_shares.checked_add(shares),
            total_deposited.checked_add(amount),
        ) {
            (Some(held), Some(new_total), Some(deposited)) => {
                env.collect(token, payer, amount);
                account.shares = held;
                env.set_account(user, account);
                env.pool.total_shares = new_total;
                env.pool.total_deposited = deposited;
                if fresh {
                    Self::open_position(env, user, amount);
                }
                Self::record_stake_snapshot(env, user, held);
                Self::update_leaderboard(env, user, held);
                Ok(shares)
            },
            _ => Err(VaultError::ArithmeticError),
        }
    }

    /// Stakes `amount` of a user who authorised it.
    pub(crate) fn do_stake_inner(env: &mut Env, staker: Address, amount: i128) -> (r: Result<
        i128,
        VaultError,
    >)
        ensures
            crate::env::gave(r, final(env)@, old(env)@.stake_inner(staker, amount)),
    {
        let account = env.account(staker);
        if env.settings.stopped {
            return Err(VaultError::ContractStopped);
        }
        if env.pool.paused {
            return Err(VaultError::VaultPaused);
        }
        if env.settings.whitelist_enabled && !account.whitelisted {
            return Err(VaultError::NotWhitelisted);
        }
        if env.settings.kyc_required && !account.kyc_approved {
            return Err(VaultError::KycNotApproved);
        }
        if amount <= 0 {
            return Err(VaultError::ZeroAmount);
        }
        if env.settings.token.is_none() {
            return Err(VaultError::NotInitialized);
        }
        let shares: i128 = account.shares;
        if env.settings.max_positions > 0 {
            let positions: u32 = if shares > 0 {
                1
            } else {
                0
            };
            if positions >= env.settings.max_positions {
                return Err(VaultError::MaxPositionsReached);
            }
        }
        Self::require_min_stake(env, shares, amount)?;
        Self::accrue_rewards(env, staker, shares)?;
        Self::maybe_restake_rewards(env, staker)?;
        let minted: i128 = Self::credit_stake(env, staker, staker, amount, shares == 0)?;
        Self::append_stake_history(env, staker, StakeAction::Stake, amount);
        let now: u32 = env.sequence;
        events::deposit(env, &staker, amount, minted, now);
        env.pool.last_updated_ledger = now;
        Ok(minted)
    }

    /// Stakes `amount`, with the authorisation of the staker.
    fn do_stake(env: Env, staker: Address, amount: i128) -> (r: Result<(Env, i128), VaultError>)
        ensures
            crate::env::moves_with(r, env@.stake(staker, amount)),
    {
        let mut env = env;
        if !env.is_authorized(staker) {
            return Err(VaultError::Unauthorized);
        }
        let minted: i128 = Self::do_stake_inner(&mut env, staker, amount)?;
        Ok((env, minted))
    }

    /// Puts `amount` of the vault token into the pool. Hands out the shares minted for it.
    pub fn deposit(env: Env, depositor: Address, amount: i128) -> (r: Result<
        (Env, i128),
        VaultError,
    >)
        ensures
            crate::env::moves_with(r, env@.stake(depositor, amount)),
    {
        Self::do_stake(env, depositor, amount)
    }

    /// Stakes `amount` of the vault token: another name for `deposit`.
    pub fn stake(env: Env, staker: Address, amount: i128) -> (r: Result<(Env, i128), VaultError>)
        ensures
            crate::env::moves_with(r, env@.stake(staker, amount)),
    {
        Self::do_stake(env, staker, amount)
    }

    /// Stakes `amount` out of the delegate's wallet; the position is the beneficiary's. Only the
    /// approved delegate may do so, and only the beneficiary can unstake and claim.
    pub fn stake_for(env: Env, delegate: Address, beneficiary: Address, amount: i128) -> (r: Result<
        (Env, i128),
        VaultError,
    >)
        ensures
            crate::env::moves_with(r, env@.stake_for(delegate, beneficiary, amount)),
    {
        let mut env = env;
        let account = env.account(beneficiary);
        if !env.is_authorized(delegate) {
            return Err(VaultError::Unauthorized);
        }
        if env.settings.stopped {
            return Err(VaultError::ContractStopped);
        }
        if env.pool.paused {
            return Err(VaultError::VaultPaused);
        }
        if amount <= 0 {
            return Err(VaultError::ZeroAmount);
        }
        match account.delegate {
            Some(approved) => {
                if approved != delegate {
                    return Err(VaultError::NotADelegate);
                }
            },
            None => {
                return Err(VaultError::NotADelegate);
            },
        }
        if env.settings.whitelist_enabled && !account.whitelisted {
            return Err(VaultError::NotWhitelisted);
        }
        if env.settings.kyc_required && !account.kyc_approved {
            return Err(VaultError::KycNotApproved);
        }
        if env.settings.token.is_none() {
            return Err(VaultError::NotInitialized);
        }
        let positions: u32 = if account.shares > 0 {
            1
        } else {
            0
        };
        if env.settings.max_positions > 0 && positions >= env.settings.max_positions {
            return Err(VaultError::MaxPositionsReached);
        }
        let shares: i128 = account.shares;
        Self::require_min_stake(&env, shares, amount)?;
        Self::accrue_rewards(&mut env, beneficiary, shares)?;
        let minted: i128 = Self::credit_stake(
            &mut env,
            delegate,
            beneficiary,
            amount,
            shares == 0,
        )?;
        let now: u32 = env.sequence;
        events::deposit(&mut env, &beneficiary, amount, minted, now);
        Ok((env, minted))
    }
}

} // verus!
