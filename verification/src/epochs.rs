//! Rewards by epoch: a fixed amount for each epoch, shared out by what each user had staked at
//! its end.
use crate::address::Address;
use crate::admin::require_admin;
use crate::balance::shares_to_amount;
use crate::env::{Env, State};
use crate::errors::VaultError;
use crate::events;
use crate::events::Event;
use crate::math::mul_div;
use crate::storage::{Account, EpochState, Settings};
use crate::table::UserEpochSnapshotKey;
use crate::vault::VaultContract;
use vstd::prelude::*;

verus! {

/// The reward factor of an epoch is its reward per staked token, times this.
pub const EPOCH_SCALE: i128 = 1_000_000_000_000;

impl State {
    /// What `set_epoch_mode` does for the admin. The first epoch begins where none has begun.
    pub open spec fn epoch_mode_set(self, epoch_ledgers: u32, reward_per_epoch: i128) -> State {
        self.with_settings(
            Settings {
                epoch_mode: true,
                epoch_ledgers,
                epoch_reward_per_epoch: reward_per_epoch,
                current_epoch: match self.settings.current_epoch {
                    Some(epoch) => Some(epoch),
                    None => Some(
                        EpochState {
                            epoch_number: 1,
                            started_at: self.sequence,
                            reward_pool: reward_per_epoch,
                            total_staked_snapshot: 0,
                        },
                    ),
                },
                ..self.settings
            },
        )
    }

    /// What `set_epoch_mode` does. A reward rate and epochs exclude each other.
    pub open spec fn set_epoch_mode(self, epoch_ledgers: u32, reward_per_epoch: i128) -> Result<
        State,
        VaultError,
    > {
        match self.admin_refusal() {
            Some(e) => Err(e),
            None => if self.settings.reward_rate_bps > 0 {
                Err(VaultError::EpochModeConflict)
            } else {
                Ok(self.epoch_mode_set(epoch_ledgers, reward_per_epoch))
            },
        }
    }

    /// The stake of a user counts in the epoch that ends now.
    pub open spec fn counts(self, user: Address) -> bool {
        self.stakers.contains(user) && self.account(user).shares > 0 && self.pool.total_shares > 0
    }

    /// What each user has staked is kept for the epoch.
    pub open spec fn stakes_kept(self, epoch: u32) -> Map<UserEpochSnapshotKey, i128> {
        Map::new(
            |key: UserEpochSnapshotKey|
                self.epoch_stakes.contains_key(key) || (key.epoch == epoch && self.counts(key.user)),
            |key: UserEpochSnapshotKey|
                if key.epoch == epoch && self.counts(key.user) {
                    self.standing(self.account(key.user).shares)
                } else {
                    self.epoch_stakes[key]
                },
        )
    }

    /// The reward factor of an epoch with a reward, where it can be held.
    pub open spec fn reward_factor(self, reward: i128) -> Option<i128> {
        if self.pool.total_deposited > 0 {
            crate::math::scaled(
                reward as int,
                EPOCH_SCALE as int,
                self.pool.total_deposited as int,
            )
        } else {
            Some(0)
        }
    }

    /// The epoch ends with a reward factor, and the next one begins.
    pub open spec fn next_epoch(self, epoch: u32, factor: i128) -> State {
        State {
            epoch_factors: self.epoch_factors.insert(epoch, factor),
            epoch_stakes: self.stakes_kept(epoch),
            ..self.with_settings(
                Settings {
                    current_epoch: Some(
                        EpochState {
                            epoch_number: (epoch + 1) as u32,
                            started_at: self.sequence,
                            reward_pool: self.settings.epoch_reward_per_epoch,
                            total_staked_snapshot: 0,
                        },
                    ),
                    ..self.settings
                },
            )
        }
    }

    /// What `finalize_epoch` does.
    pub open spec fn finalize_epoch(self) -> Result<State, VaultError> {
        match (self.admin_refusal(), self.settings.current_epoch) {
            (Some(e), _) => Err(e),
            (None, current) => if !self.settings.epoch_mode {
                Err(VaultError::EpochModeConflict)
            } else {
                match current {
                    None => Err(VaultError::NotInitialized),
                    Some(epoch) => if self.sequence < crate::math::ledger_after(
                        epoch.started_at,
                        self.settings.epoch_ledgers,
                    ) {
                        Err(VaultError::EpochNotFinalized)
                    } else {
                        match self.reward_factor(epoch.reward_pool) {
                            None => Err(VaultError::ArithmeticError),
                            Some(factor) => if epoch.epoch_number == u32::MAX {
                                Err(VaultError::ArithmeticError)
                            } else {
                                Ok(self.next_epoch(epoch.epoch_number, factor))
                            },
                        }
                    },
                }
            },
        }
    }

    /// The reward of a user for an epoch; 0 where it cannot be held.
    pub open spec fn epoch_reward(self, user: Address, epoch: u32) -> i128 {
        let key = UserEpochSnapshotKey { user, epoch };
        if !self.epoch_factors.contains_key(epoch) || !self.epoch_stakes.contains_key(key) {
            0
        } else {
            match crate::math::scaled(
                self.epoch_stakes[key] as int,
                self.epoch_factors[epoch] as int,
                EPOCH_SCALE as int,
            ) {
                Some(reward) => reward,
                None => 0,
            }
        }
    }

    /// The rewards of a user for the epochs after `last` and before `next`, where their sum can
    /// be held.
    pub open spec fn epoch_total(self, user: Address, last: int, next: int) -> Option<i128>
        decreases next - last,
    {
        if next <= last + 1 {
            Some(0)
        } else {
            match self.epoch_total(user, last, next - 1) {
                None => None,
                Some(total) => crate::math::sum(
                    total as int,
                    self.epoch_reward(user, (next - 1) as u32) as int,
                ),
            }
        }
    }

    /// A user gets `reward` for the epochs up to the one before `current`.
    pub open spec fn pay_epochs(self, user: Address, reward: i128, current: u32) -> Result<
        State,
        VaultError,
    > {
        if self.pool.reward_pool_balance < reward {
            Err(VaultError::InsufficientRewardPool)
        } else {
            match self.deliver(user, reward) {
                Err(e) => Err(e),
                Ok(delivered) => match delivered.booked(user, reward) {
                    Err(e) => Err(e),
                    Ok(booked) => Ok(
                        booked.with_account(
                            user,
                            Account {
                                last_claimed_epoch: (current - 1) as u32,
                                ..booked.account(user)
                            },
                        ).publish(Event::Claimed { user, reward, ledger: self.sequence }),
                    ),
                },
            }
        }
    }

    /// What `claim_epoch_rewards` does.
    pub open spec fn claim_epoch_rewards(self, user: Address) -> Result<(State, i128), VaultError> {
        let last = self.account(user).last_claimed_epoch;
        if !self.authorized(user) {
            Err(VaultError::Unauthorized)
        } else {
            match self.settings.current_epoch {
                None => Err(VaultError::NotInitialized),
                Some(epoch) => match self.epoch_total(user, last as int, epoch.epoch_number as int) {
                    None => Err(VaultError::ArithmeticError),
                    Some(reward) => if reward == 0 {
                        Ok((self, 0))
                    } else {
                        match self.pay_epochs(user, reward, epoch.epoch_number) {
                            Err(e) => Err(e),
                            Ok(paid) => Ok((paid, reward)),
                        }
                    },
                },
            }
        }
    }
}

/// Where a sum over the first epochs cannot be held, neither can the whole.
proof fn lemma_epoch_total_stays_none(state: State, user: Address, last: int, k: int, next: int)
    requires
        k <= next,
        state.epoch_total(user, last, k) is None,
    ensures
        state.epoch_total(user, last, next) is None,
    decreases next - k,
{
    if k < next {
        if k + 1 <= last + 1 {
            assert(state.epoch_total(user, last, k) == Some(0i128));
        }
        assert(state.epoch_total(user, last, k + 1) is None);
        lemma_epoch_total_stays_none(state, user, last, k + 1, next);
    }
}

impl VaultContract {
    /// Admin: switches to rewards by epoch.
    pub fn set_epoch_mode(
        env: Env,
        admin: Address,
        epoch_ledgers: u32,
        reward_per_epoch: i128,
    ) -> (r: Result<Env, VaultError>)
        ensures
            crate::env::moves_to(r, env@.set_epoch_mode(epoch_ledgers, reward_per_epoch)),
    {
        let mut env = env;
        let _ = admin;
        require_admin(&env)?;
        if env.settings.reward_rate_bps > 0 {
            return Err(VaultError::EpochModeConflict);
        }
        env.settings.epoch_mode = true;
        env.settings.epoch_ledgers = epoch_ledgers;
        env.settings.epoch_reward_per_epoch = reward_per_epoch;
        if env.settings.current_epoch.is_none() {
            env.settings.current_epoch = Some(
                EpochState {
                    epoch_number: 1,
                    started_at: env.sequence,
                    reward_pool: reward_per_epoch,
                    total_staked_snapshot: 0,
                },
            );
        }
        Ok(env)
    }

    /// Keeps what each user has staked for the epoch.
    fn keep_stakes(env: &mut Env, epoch: u32)
        ensures
            final(env)@ == (State {
                epoch_stakes: old(env)@.stakes_kept(epoch),
                ..old(env)@
            }),
    {
        let total_shares: i128 = env.pool.total_shares;
        let total_deposited: i128 = env.pool.total_deposited;
        let ghost start = env@;
        let mut i: usize = 0;
        while i < env.stakers.len()
            invariant
                i <= env.stakers@.len(),
                start == old(env)@,
                total_shares == start.pool.total_shares,
                total_deposited == start.pool.total_deposited,
                env@ == (State { epoch_stakes: env@.epoch_stakes, ..start }),
                forall|key: UserEpochSnapshotKey| #[trigger]
                    env@.epoch_stakes.contains_key(key) == (start.epoch_stakes.contains_key(key)
                        || (key.epoch == epoch && start.counts(key.user) && start.stakers.take(
                        i as int,
                    ).contains(key.user))),
                forall|key: UserEpochSnapshotKey| #[trigger]
                    env@.epoch_stakes.contains_key(key) ==> env@.epoch_stakes[key] == (if key.epoch
                        == epoch && start.counts(key.user) && start.stakers.take(
                        i as int,
                    ).contains(key.user) {
                        start.standing(start.account(key.user).shares)
                    } else {
                        start.epoch_stakes[key]
                    }),
            decreases env.stakers@.len() - i,
        {
            let staker = env.stakers[i];
            let shares: i128 = env.account(staker).shares;
            proof {
                let (done, next) = (start.stakers.take(i as int), start.stakers.take(i + 1));
                assert(next == done.push(staker));
                assert(next.last() == staker);
                assert forall|user: Address| #[trigger] next.contains(user) == (done.contains(user)
                    || user == staker) by {
                    if done.contains(user) {
                        let k = choose|k: int| 0 <= k < done.len() && done[k] == user;
                        assert(next[k] == user);
                    }
                    if next.contains(user) {
                        let k = choose|k: int| 0 <= k < next.len() && next[k] == user;
                        if k < i {
                            assert(done[k] == user);
                        }
                    }
                    if user == staker {
                        assert(next[i as int] == user);
                    }
                }
                assert(start.stakers.contains(staker)) by {
                    assert(start.stakers[i as int] == staker);
                }
            }
            if shares > 0 && total_shares > 0 {
                let staked: i128 = match shares_to_amount(total_shares, total_deposited, shares) {
                    Some(amount) => amount,
                    None => 0,
                };
                env.epoch_stakes.set(UserEpochSnapshotKey { user: staker, epoch }, staked);
            }
            i = i + 1;
        }
        proof {
            assert(start.stakers.take(i as int) == start.stakers);
            assert(env@.epoch_stakes =~= start.stakes_kept(epoch));
        }
    }

    /// Admin: ends the running epoch and begins the next one.
    pub fn finalize_epoch(env: Env, admin: Address) -> (r: Result<Env, VaultError>)
        ensures
            crate::env::moves_to(r, env@.finalize_epoch()),
    {
        let mut env = env;
        let _ = admin;
        require_admin(&env)?;
        if !env.settings.epoch_mode {
            return Err(VaultError::EpochModeConflict);
        }
        let epoch = match env.settings.current_epoch {
            Some(epoch) => epoch,
            None => {
                return Err(VaultError::NotInitialized);
            },
        };
        let now: u32 = env.sequence;
        if now < epoch.started_at.saturating_add(env.settings.epoch_ledgers) {
            return Err(VaultError::EpochNotFinalized);
        }
        let staked: i128 = env.pool.total_deposited;
        let factor: i128 = if staked > 0 {
            match mul_div(epoch.reward_pool, EPOCH_SCALE, staked) {
                Some(factor) => factor,
                None => {
                    return Err(VaultError::ArithmeticError);
                },
            }
        } else {
            0
        };
        if epoch.epoch_number == u32::MAX {
            return Err(VaultError::ArithmeticError);
        }
        env.epoch_factors.set(epoch.epoch_number, factor);
        Self::keep_stakes(&mut env, epoch.epoch_number);
        env.settings.current_epoch = Some(
            EpochState {
                epoch_number: epoch.epoch_number + 1,
                started_at: now,
                reward_pool: env.settings.epoch_reward_per_epoch,
                total_staked_snapshot: 0,
            },
        );
        Ok(env)
    }

    /// The reward of a user for an epoch that has ended.
    pub fn epoch_reward(env: &Env, user: Address, epoch_number: u32) -> (reward: i128)
        ensures
            reward == env@.epoch_reward(user, epoch_number),
    {
        let factor: i128 = match env.epoch_factors.get(epoch_number) {
            Some(factor) => *factor,
            None => {
                return 0;
            },
        };
        let staked: i128 = match env.epoch_stakes.get(
            UserEpochSnapshotKey { user, epoch: epoch_number },
        ) {
            Some(staked) => *staked,
            None => {
                return 0;
            },
        };
        match mul_div(staked, factor, EPOCH_SCALE) {
            Some(reward) => reward,
            None => 0,
        }
    }

    /// The rewards of a user for the epochs after `last` and before `next`.
    fn epoch_total(env: &Env, user: Address, last: u32, next: u32) -> (r: Option<i128>)
        ensures
            r == env@.epoch_total(user, last as int, next as int),
    {
        if next <= last {
            return Some(0);
        }
        let mut total: i128 = 0;
        let mut epoch: u32 = last;
        while epoch < next - 1
            invariant
                last <= epoch < next,
                env@.epoch_total(user, last as int, epoch + 1) == Some(total),
            decreases next - epoch,
        {
            epoch = epoch + 1;
            let reward: i128 = Self::epoch_reward(env, user, epoch);
            total = match total.checked_add(reward) {
                Some(sum) => sum,
                None => {
                    proof {
                        lemma_epoch_total_stays_none(
                            env@,
                            user,
                            last as int,
                            epoch + 1,
                            next as int,
                        );
                    }
                    return None;
                },
            };
        }
        Some(total)
    }

    /// Claims the rewards of a user for all epochs that have ended since their last claim.
    pub fn claim_epoch_rewards(env: Env, user: Address) -> (r: Result<(Env, i128), VaultError>)
        ensures
            crate::env::moves_with(r, env@.claim_epoch_rewards(user)),
    {
        let mut env = env;
        if !env.is_authorized(user) {
            return Err(VaultError::Unauthorized);
        }
        let current: u32 = match env.settings.current_epoch {
            Some(epoch) => epoch.epoch_number,
            None => {
                return Err(VaultError::NotInitialized);
            },
        };
        let last: u32 = env.account(user).last_claimed_epoch;
        let reward: i128 = match Self::epoch_total(&env, user, last, current) {
            Some(total) => total,
            None => {
                return Err(VaultError::ArithmeticError);
            },
        };
        if reward == 0 {
            return Ok((env, 0));
        }
        if env.pool.reward_pool_balance < reward {
            return Err(VaultError::InsufficientRewardPool);
        }
        Self::deliver_reward(&mut env, user, reward)?;
        Self::book_reward(&mut env, user, reward)?;
        let mut account = env.account(user);
        account.last_claimed_epoch = current - 1;
        env.set_account(user, account);
        let now: u32 = env.sequence;
        events::claimed(&mut env, &user, reward, now);
        Ok((env, reward))
    }

    /// The running epoch.
    pub fn current_epoch(env: &Env) -> (r: Result<EpochState, VaultError>)
        ensures
            r == (match env@.settings.current_epoch {
                Some(epoch) => Ok::<EpochState, VaultError>(epoch),
                None => Err(VaultError::NotInitialized),
            }),
    {
        match env.settings.current_epoch {
            Some(epoch) => Ok(epoch),
            None => Err(VaultError::NotInitialized),
        }
    }
}

} // verus!
