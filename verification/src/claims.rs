//! Taking rewards out: claims, the cap on them, and vesting.
use crate::address::Address;
use crate::env::{Env, State};
use crate::errors::VaultError;
use crate::events;
use crate::events::Event;
use crate::history::copied;
use crate::storage::{Account, ClaimWindow, Pool, VestingEntry};
use crate::vault::VaultContract;
use vstd::prelude::*;

verus! {

/// How many rewards of a user can vest at a time.
pub const MAX_VESTING_ENTRIES: u32 = 10;

/// The sum of what has vested by a ledger, where it can be held.
pub open spec fn matured(entries: Seq<VestingEntry>, ledger: u32) -> Option<i128>
    decreases entries.len(),
{
    if entries.len() == 0 {
        Some(0)
    } else {
        match matured(entries.drop_last(), ledger) {
            None => None,
            Some(total) => if entries.last().claimable_at_ledger <= ledger {
                crate::math::sum(total as int, entries.last().amount as int)
            } else {
                Some(total)
            },
        }
    }
}

/// What has not vested by a ledger.
pub open spec fn unripe(entries: Seq<VestingEntry>, ledger: u32) -> Seq<VestingEntry> {
    entries.filter(|entry: VestingEntry| ledger < entry.claimable_at_ledger)
}

impl State {
    /// The claim window of a user that counts now: a new one where the old one has run out.
    pub open spec fn current_window(self, user: Address) -> ClaimWindow {
        let fresh = ClaimWindow { claimed_in_window: 0, window_started_at: self.sequence };
        match self.account(user).claim_window {
            Some(window) => if self.sequence > crate::math::ledger_after(
                window.window_started_at,
                self.settings.claim_cap_window,
            ) {
                fresh
            } else {
                window
            },
            None => fresh,
        }
    }

    /// How much of `reward` the claim cap lets a user have now.
    pub open spec fn payable(self, user: Address, reward: i128) -> i128 {
        let room = self.settings.claim_cap - self.current_window(user).claimed_in_window;
        if self.settings.claim_cap == 0 {
            reward
        } else if room < 0 || room > i128::MAX {
            crate::math::smaller(reward as int, 0) as i128
        } else {
            crate::math::smaller(reward as int, room) as i128
        }
    }

    /// The claim window of a user after they got `payable` out of it.
    pub open spec fn window_after(self, user: Address, payable: i128) -> Option<ClaimWindow> {
        let window = self.current_window(user);
        if self.settings.claim_cap == 0 || payable <= 0 {
            self.account(user).claim_window
        } else {
            Some(
                ClaimWindow {
                    claimed_in_window: (window.claimed_in_window + payable) as i128,
                    ..window
                },
            )
        }
    }

    /// A reward reaches a user: at once, or by way of the vesting queue.
    pub open spec fn deliver(self, user: Address, reward: i128) -> Result<State, VaultError> {
        let queue = self.vesting_of(user);
        if self.settings.vesting_period > 0 {
            if queue.len() >= MAX_VESTING_ENTRIES {
                Err(VaultError::VestingQueueFull)
            } else {
                let entry = VestingEntry {
                    amount: reward,
                    claimable_at_ledger: crate::math::ledger_after(
                        self.sequence,
                        self.settings.vesting_period,
                    ),
                };
                Ok(State { vesting: self.vesting.insert(user, queue.push(entry)), ..self })
            }
        } else {
            match self.settings.token {
                None => Err(VaultError::NotInitialized),
                Some(token) => Ok(self.pay(token, user, reward)),
            }
        }
    }

    /// A reward is booked as paid out of the reward pool and as claimed by a user.
    pub open spec fn booked(self, user: Address, reward: i128) -> Result<State, VaultError> {
        let account = self.account(user);
        let left = self.pool.reward_pool_balance - reward;
        let paid = self.pool.total_rewards_paid + reward;
        let claimed = account.total_claimed + reward;
        if crate::math::fits(left) && crate::math::fits(paid) && crate::math::fits(claimed) {
            Ok(
                self.with_account(
                    user,
                    Account { total_claimed: claimed as i128, ..account },
                ).with_pool(
                    Pool {
                        reward_pool_balance: left as i128,
                        total_rewards_paid: paid as i128,
                        ..self.pool
                    },
                ),
            )
        } else {
            Err(VaultError::ArithmeticError)
        }
    }

    /// A claim was made now, whatever came of it.
    pub open spec fn claim_made(self, user: Address) -> State {
        self.with_account(
            user,
            Account { last_claim: self.sequence, ..self.account(user) },
        ).touched()
    }

    /// A user gets `reward`, a part of what they accrued.
    pub open spec fn pay_reward(self, user: Address, reward: i128) -> Result<State, VaultError> {
        if self.pool.reward_pool_balance < reward {
            Err(VaultError::InsufficientRewardPool)
        } else if self.settings.token is None {
            Err(VaultError::NotInitialized)
        } else {
            match self.deliver(user, reward) {
                Err(e) => Err(e),
                Ok(delivered) => match delivered.booked(user, reward) {
                    Err(e) => Err(e),
                    Ok(booked) => {
                        let account = booked.account(user);
                        if !crate::math::fits(account.accrued - reward) {
                            Err(VaultError::ArithmeticError)
                        } else {
                            Ok(
                                booked.with_account(
                                    user,
                                    Account {
                                        accrued: (account.accrued - reward) as i128,
                                        claim_window: self.window_after(user, reward),
                                        ..account
                                    },
                                ).publish(
                                    Event::Claimed { user, reward, ledger: self.sequence },
                                ).claim_made(user),
                            )
                        }
                    },
                },
            }
        }
    }

    /// A user who may do so claims.
    pub open spec fn claim_inner(self, user: Address) -> Result<(State, i128), VaultError> {
        if self.settings.epoch_mode {
            Err(VaultError::EpochModeConflict)
        } else {
            match self.accrue(user, self.account(user).shares) {
                Err(e) => Err(e),
                Ok(settled) => {
                    let reward = settled.payable(user, settled.account(user).accrued);
                    if settled.account(user).accrued == 0 || reward == 0 {
                        Ok((settled.claim_made(user), 0))
                    } else {
                        match settled.pay_reward(user, reward) {
                            Err(e) => Err(e),
                            Ok(paid) => Ok((paid, reward)),
                        }
                    }
                },
            }
        }
    }

    /// What `claim` does.
    pub open spec fn claim(self, staker: Address) -> Result<(State, i128), VaultError> {
        if !self.authorized(staker) {
            Err(VaultError::Unauthorized)
        } else {
            match self.claim_inner(staker) {
                Err(e) => Err(e),
                Ok((claimed, reward)) => Ok(
                    (
                        if reward != 0 {
                            claimed.watch_reserve()
                        } else {
                            claimed
                        },
                        reward,
                    ),
                ),
            }
        }
    }

    /// What `stake_and_claim` does.
    pub open spec fn stake_and_claim(
        self,
        user: Address,
        amount: i128,
        reward_balance: i128,
    ) -> Result<(State, i128), VaultError> {
        if !self.authorized(user) {
            Err(VaultError::Unauthorized)
        } else {
            match self.claim_inner(user) {
                Err(e) => Err(e),
                Ok((claimed, reward)) => {
                    let checked = if reward != 0 {
                        claimed.check_auto_pause(reward_balance)
                    } else {
                        Ok(claimed)
                    };
                    match checked {
                        Err(e) => Err(e),
                        Ok(watched) => match watched.stake_inner(user, amount) {
                            Err(e) => Err(e),
                            Ok((staked, _)) => Ok((staked, reward)),
                        },
                    }
                },
            }
        }
    }

    /// What has vested of a user is paid; what has not stays in the queue.
    pub open spec fn release(self, user: Address, total: i128) -> Result<State, VaultError> {
        if self.pool.reward_pool_balance < total {
            Err(VaultError::InsufficientRewardPool)
        } else {
            match self.settings.token {
                None => Err(VaultError::NotInitialized),
                Some(token) => Ok(
                    State {
                        vesting: self.vesting.insert(
                            user,
                            unripe(self.vesting_of(user), self.sequence),
                        ),
                        ..self
                    }.pay(token, user, total),
                ),
            }
        }
    }

    /// What `withdraw_vested` does.
    pub open spec fn withdraw_vested(self, user: Address) -> Result<(State, i128), VaultError> {
        if !self.authorized(user) {
            Err(VaultError::Unauthorized)
        } else {
            match matured(self.vesting_of(user), self.sequence) {
                None => Err(VaultError::ArithmeticError),
                Some(total) => if total == 0 {
                    Err(VaultError::NothingToWithdraw)
                } else {
                    match self.release(user, total) {
                        Err(e) => Err(e),
                        Ok(released) => Ok((released, total)),
                    }
                },
            }
        }
    }

    /// Why no more can vest for a user, where the queue is full or the amount not positive.
    pub open spec fn vesting_refusal(self, user: Address, amount: i128) -> Option<VaultError> {
        if amount <= 0 {
            Some(VaultError::ZeroAmount)
        } else if self.vesting_of(user).len() >= MAX_VESTING_ENTRIES {
            Some(VaultError::VestingQueueFull)
        } else {
            None
        }
    }

    /// What `schedule_vesting` does for the admin.
    pub open spec fn schedule_vesting(
        self,
        user: Address,
        amount: i128,
        claimable_at_ledger: u32,
    ) -> State {
        let entry = VestingEntry { amount, claimable_at_ledger };
        State { vesting: self.vesting.insert(user, self.vesting_of(user).push(entry)), ..self }
    }
}

impl VaultContract {
    /// How much of `reward` the claim cap lets a user have now, and their claim window then.
    fn apply_claim_cap(env: &Env, user: Address, reward: i128) -> (r: (i128, Option<ClaimWindow>))
        ensures
            r.0 == env@.payable(user, reward),
            r.1 == env@.window_after(user, r.0),
    {
        let account = env.account(user);
        let cap: i128 = env.settings.claim_cap;
        if cap == 0 {
            return (reward, account.claim_window);
        }
        let now: u32 = env.sequence;
        let fresh = ClaimWindow { claimed_in_window: 0, window_started_at: now };
        let mut window = match account.claim_window {
            Some(window) => if now > window.window_started_at.saturating_add(
                env.settings.claim_cap_window,
            ) {
                fresh
            } else {
                window
            },
            None => fresh,
        };
        let room: i128 = match cap.checked_sub(window.claimed_in_window) {
            Some(room) => if room < 0 {
                0
            } else {
                room
            },
            None => 0,
        };
        let payable: i128 = if reward <= room {
            reward
        } else {
            room
        };
        if payable > 0 {
            window.claimed_in_window = window.claimed_in_window + payable;
            (payable, Some(window))
        } else {
            (payable, account.claim_window)
        }
    }

    /// Brings a reward to a user: at once, or by way of the vesting queue.
    pub(crate) fn deliver_reward(env: &mut Env, user: Address, reward: i128) -> (r: Result<
        (),
        VaultError,
    >)
        ensures
            crate::env::did(r, final(env)@, old(env)@.deliver(user, reward)),
    {
        if env.settings.vesting_period > 0 {
            let mut queue: Vec<VestingEntry> = match env.vesting.get(user) {
                Some(list) => copied(list),
                None => Vec::new(),
            };
            if queue.len() >= MAX_VESTING_ENTRIES as usize {
                return Err(VaultError::VestingQueueFull);
            }
            let claimable_at_ledger: u32 = env.sequence.saturating_add(env.settings.vesting_period);
            queue.push(VestingEntry { amount: reward, claimable_at_ledger });
            env.vesting.set(user, queue);
            return Ok(());
        }
        match env.settings.token {
            Some(token) => {
                env.pay(token, user, reward);
                Ok(())
            },
            None => Err(VaultError::NotInitialized),
        }
    }

    /// Books a reward as paid out of the reward pool and as claimed by a user.
    pub(crate) fn book_reward(env: &mut Env, user: Address, reward: i128) -> (r: Result<
        (),
        VaultError,
    >)
        ensures
            crate::env::did(r, final(env)@, old(env)@.booked(user, reward)),
    {
        let mut account = env.account(user);
        match (
            env.pool.reward_pool_balance.checked_sub(reward),
            env.pool.total_rewards_paid.checked_add(reward),
            account.total_claimed.checked_add(reward),
        ) {
            (Some(left), Some(paid), Some(claimed)) => {
                account.total_claimed = claimed;
                env.set_account(user, account);
                env.pool.reward_pool_balance = left;
                env.pool.total_rewards_paid = paid;
                Ok(())
            },
            _ => Err(VaultError::ArithmeticError),
        }
    }

    /// Pays a user `reward` out of what they accrued.
    fn pay_reward(env: &mut Env, user: Address, reward: i128, window: Option<ClaimWindow>) -> (r:
        Result<(), VaultError>)
        requires
            window == old(env)@.window_after(user, reward),
        ensures
            crate::env::did(r, final(env)@, old(env)@.pay_reward(user, reward)),
    {
        if env.pool.reward_pool_balance < reward {
            return Err(VaultError::InsufficientRewardPool);
        }
        if env.settings.token.is_none() {
            return Err(VaultError::NotInitialized);
        }
        Self::deliver_reward(env, user, reward)?;
        Self::book_reward(env, user, reward)?;
        let mut account = env.account(user);
        account.accrued = match account.accrued.checked_sub(reward) {
            Some(left) => left,
            None => {
                return Err(VaultError::ArithmeticError);
            },
        };
        let now: u32 = env.sequence;
        account.claim_window = window;
        account.last_claim = now;
        env.set_account(user, account);
        events::claimed(env, &user, reward, now);
        env.pool.last_updated_ledger = now;
        Ok(())
    }

    /// Claims for a user who authorised it.
    fn do_claim(env: &mut Env, staker: Address) -> (r: Result<i128, VaultError>)
        ensures
            crate::env::gave(r, final(env)@, old(env)@.claim_inner(staker)),
    {
        if env.settings.epoch_mode {
            return Err(VaultError::EpochModeConflict);
        }
        let shares: i128 = env.account(staker).shares;
        Self::accrue_rewards(env, staker, shares)?;
        let mut account = env.account(staker);
        let (reward, window) = Self::apply_claim_cap(env, staker, account.accrued);
        if account.accrued == 0 || reward == 0 {
            let now: u32 = env.sequence;
            account.last_claim = now;
            env.set_account(staker, account);
            env.pool.last_updated_ledger = now;
            return Ok(0);
        }
        Self::pay_reward(env, staker, reward, window)?;
        Ok(reward)
    }

    /// Claims the accrued rewards and leaves the position as it is. Where a claim cap is set, what
    /// goes over it stays accrued. Hands out the amount claimed, which is 0 where there is
    /// nothing to claim.
    pub fn claim(env: Env, staker: Address) -> (r: Result<(Env, i128), VaultError>)
        ensures
            crate::env::moves_with(r, env@.claim(staker)),
    {
        let mut env = env;
        if !env.is_authorized(staker) {
            return Err(VaultError::Unauthorized);
        }
        let reward: i128 = Self::do_claim(&mut env, staker)?;
        if reward != 0 {
            Self::watch_reserve(&mut env);
        }
        Ok((env, reward))
    }

    /// Claims, and then stakes `amount`, under one authorisation. `reward_balance` is the pool's
    /// balance of the vault token once the reward has been paid. Hands out the amount claimed.
    pub fn stake_and_claim(env: Env, user: Address, amount: i128, reward_balance: i128) -> (r:
        Result<(Env, i128), VaultError>)
        ensures
            crate::env::moves_with(r, env@.stake_and_claim(user, amount, reward_balance)),
    {
        let mut env = env;
        if !env.is_authorized(user) {
            return Err(VaultError::Unauthorized);
        }
        let reward: i128 = Self::do_claim(&mut env, user)?;
        let mut env = if reward != 0 {
            Self::check_auto_pause(env, reward_balance)?
        } else {
            env
        };
        Self::do_stake_inner(&mut env, user, amount)?;
        Ok((env, reward))
    }

    /// The sum of what has vested of a user, and what has not.
    fn split_vesting(env: &Env, user: Address) -> (r: Option<(i128, Vec<VestingEntry>)>)
        ensures
            match matured(env@.vesting_of(user), env@.sequence) {
                None => r is None,
                Some(total) => r matches Some((sum, left)) && sum == total && left@ == unripe(
                    env@.vesting_of(user),
                    env@.sequence,
                ),
            },
    {
        let entries: Vec<VestingEntry> = match env.vesting.get(user) {
            Some(list) => copied(list),
            None => Vec::new(),
        };
        let now: u32 = env.sequence;
        let ghost all = entries@;
        let mut total: i128 = 0;
        let mut left: Vec<VestingEntry> = Vec::new();
        let mut i: usize = 0;
        proof {
            reveal(Seq::filter);
        }
        while i < entries.len()
            invariant
                i <= entries@.len(),
                all == entries@,
                matured(all.take(i as int), now) == Some(total),
                left@ == unripe(all.take(i as int), now),
                all == env@.vesting_of(user),
                now == env@.sequence,
            decreases entries@.len() - i,
        {
            let entry = entries[i];
            proof {
                assert(all.take(i + 1).drop_last() == all.take(i as int));
                assert(all.take(i + 1).last() == entry);
                reveal(Seq::filter);
            }
            if now >= entry.claimable_at_ledger {
                total = match total.checked_add(entry.amount) {
                    Some(sum) => sum,
                    None => {
                        proof {
                            lemma_matured_stays_none(all, now, i + 1);
                        }
                        return None;
                    },
                };
            } else {
                left.push(entry);
            }
            i = i + 1;
        }
        assert(all.take(i as int) == all);
        Some((total, left))
    }

    /// Pays what has vested of a user and keeps the rest.
    fn release_vested(env: &mut Env, user: Address, total: i128, left: Vec<VestingEntry>) -> (r:
        Result<(), VaultError>)
        requires
            left@ == unripe(old(env)@.vesting_of(user), old(env)@.sequence),
        ensures
            crate::env::did(r, final(env)@, old(env)@.release(user, total)),
    {
        if env.pool.reward_pool_balance < total {
            return Err(VaultError::InsufficientRewardPool);
        }
        match env.settings.token {
            Some(token) => {
                env.vesting.set(user, left);
                env.pay(token, user, total);
                Ok(())
            },
            None => Err(VaultError::NotInitialized),
        }
    }

    /// Pays a user what has vested.
    pub fn withdraw_vested(env: Env, user: Address) -> (r: Result<(Env, i128), VaultError>)
        ensures
            crate::env::moves_with(r, env@.withdraw_vested(user)),
    {
        let mut env = env;
        if !env.is_authorized(user) {
            return Err(VaultError::Unauthorized);
        }
        match Self::split_vesting(&env, user) {
            None => Err(VaultError::ArithmeticError),
            Some((total, left)) => {
                if total == 0 {
                    return Err(VaultError::NothingToWithdraw);
                }
                Self::release_vested(&mut env, user, total, left)?;
                Ok((env, total))
            },
        }
    }

    /// Pays a user what has vested: another name for `withdraw_vested`.
    pub fn withdraw_all_vested(env: Env, user: Address) -> (r: Result<(Env, i128), VaultError>)
        ensures
            crate::env::moves_with(r, env@.withdraw_vested(user)),
    {
        Self::withdraw_vested(env, user)
    }
}

/// Where a sum of the first entries cannot be held, neither can the whole.
proof fn lemma_matured_stays_none(entries: Seq<VestingEntry>, ledger: u32, k: int)
    requires
        0 <= k <= entries.len(),
        matured(entries.take(k), ledger) is None,
    ensures
        matured(entries, ledger) is None,
    decreases entries.len() - k,
{
    if k < entries.len() {
        assert(entries.take(k + 1).drop_last() == entries.take(k));
        lemma_matured_stays_none(entries, ledger, k + 1);
    } else {
        assert(entries.take(k) == entries);
    }
}

} // verus!
