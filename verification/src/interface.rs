//! What other contracts can ask of a staking pool.
use crate::address::Address;
use crate::balance::shares_to_amount;
use crate::env::{Env, State};
use crate::vault::VaultContract;
use vstd::prelude::*;

verus! {

/// A staking pool, as other contracts see it.
pub trait IStakingPool {
    /// What `staked_amount` answers.
    spec fn staked_amount_of(state: State, user: Address) -> i128;

    /// What `pending_reward` answers.
    spec fn pending_reward_of(state: State, user: Address) -> i128;

    /// What `total_staked` answers.
    spec fn total_staked_in(state: State) -> i128;

    /// What `is_paused` answers.
    spec fn paused_in(state: State) -> bool;

    /// The tokens that a user has staked.
    fn staked_amount(env: &Env, user: Address) -> (amount: i128)
        ensures
            amount == Self::staked_amount_of(env@, user),
    ;

    /// The rewards of a user that are not claimed yet, in the precision of the reward token.
    fn pending_reward(env: &Env, user: Address) -> (reward: i128)
        ensures
            reward == Self::pending_reward_of(env@, user),
    ;

    /// All tokens that are staked.
    fn total_staked(env: &Env) -> (amount: i128)
        ensures
            amount == Self::total_staked_in(env@),
    ;

    /// Whether the pool is paused.
    fn is_paused(env: &Env) -> (paused: bool)
        ensures
            paused == Self::paused_in(env@),
    ;
}

impl IStakingPool for VaultContract {
    open spec fn staked_amount_of(state: State, user: Address) -> i128 {
        state.standing(state.account(user).shares)
    }

    open spec fn pending_reward_of(state: State, user: Address) -> i128 {
        let normalized = match state.pending_reward(user) {
            Ok(raw) => state.normalized(raw),
            Err(e) => Err(e),
        };
        match normalized {
            Ok(reward) => if state.settings.admin is Some {
                reward
            } else {
                0
            },
            Err(_) => 0,
        }
    }

    open spec fn total_staked_in(state: State) -> i128 {
        state.pool.total_deposited
    }

    open spec fn paused_in(state: State) -> bool {
        state.pool.paused
    }

    fn staked_amount(env: &Env, user: Address) -> (amount: i128) {
        let shares: i128 = env.account(user).shares;
        if shares == 0 {
            return 0;
        }
        match shares_to_amount(env.pool.total_shares, env.pool.total_deposited, shares) {
            Some(amount) => amount,
            None => 0,
        }
    }

    fn pending_reward(env: &Env, user: Address) -> (reward: i128) {
        match VaultContract::calc_pending_reward(env, user) {
            Ok(reward) => reward,
            Err(_) => 0,
        }
    }

    fn total_staked(env: &Env) -> (amount: i128) {
        env.pool.total_deposited
    }

    fn is_paused(env: &Env) -> (paused: bool) {
        env.pool.paused
    }
}

} // verus!
