//! A contract that asks a staking pool.
use crate::address::Address;
use crate::env::Env;
use crate::interface::IStakingPool;
use vstd::prelude::*;

verus! {

/// A contract that asks a staking pool.
pub struct ExampleConsumer;

impl ExampleConsumer {
    /// What a user has staked in a pool, and their pending reward.
    pub fn get_pool_info<P: IStakingPool>(env: &Env, user: Address) -> (info: (i128, i128))
        ensures
            info == (P::staked_amount_of(env@, user), P::pending_reward_of(env@, user)),
    {
        (P::staked_amount(env, user), P::pending_reward(env, user))
    }
}

} // verus!
