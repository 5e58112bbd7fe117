//! What is set stays within its limits, and what is for good stays.
use crate::address::Address;
use crate::balance::MAX_RATE_BPS;
use crate::calls::{AdminCall, Call, ManageCall, MarkCall, PlanCall, SettingCall};
use crate::env::State;
use crate::pool_admin::{
    MAX_BOOST_TIERS, MAX_LEADERBOARD_SIZE, MAX_PENALTY_BPS, MAX_POSITIONS, MAX_UNSTAKE_FEE_BPS,
};
use crate::rewards::BOOST_BPS_BASE;
use vstd::prelude::*;

verus! {

impl State {
    /// All that is set is within its limits, a rate and epochs exclude each other, and nothing
    /// but `initialize` gives a pool its admin and its token.
    pub open spec fn within_limits(self) -> bool {
        &&& self.settings.reward_rate_bps <= MAX_RATE_BPS
        &&& self.settings.early_exit_penalty_bps <= MAX_PENALTY_BPS
        &&& self.settings.unstake_fee_bps <= MAX_UNSTAKE_FEE_BPS
        &&& self.settings.leaderboard_size <= MAX_LEADERBOARD_SIZE
        &&& self.settings.max_positions <= MAX_POSITIONS
        &&& self.settings.min_stake >= 0
        &&& self.settings.pool_cap >= 0
        &&& self.settings.claim_cap >= 0
        &&& self.settings.withdrawal_limit matches Some(limit) ==> limit > 0
        &&& self.boost_schedule.len() <= MAX_BOOST_TIERS
        &&& crate::pool_admin::valid_schedule(self.boost_schedule)
        &&& self.settings.campaign matches Some(c) ==> c.multiplier_bps >= BOOST_BPS_BASE
            && c.starts_at_ledger <= c.ends_at_ledger
        &&& self.settings.epoch_mode ==> self.settings.reward_rate_bps == 0
        &&& self.settings.admin is Some == self.settings.token is Some
        &&& self.settings.admin is None ==> !self.settings.epoch_mode
    }

    /// What cannot be undone stays: the pool is set up, its token and decimals are what they
    /// were, and a stopped pool is stopped.
    pub open spec fn for_good(self, other: State) -> bool {
        &&& other.settings.admin is Some ==> {
            &&& self.settings.admin is Some
            &&& self.settings.token == other.settings.token
            &&& self.settings.stake_decimals == other.settings.stake_decimals
            &&& self.settings.reward_decimals == other.settings.reward_decimals
            &&& self.settings.initialized_at_ledger == other.settings.initialized_at_ledger
        }
        &&& other.settings.stopped ==> self.settings.stopped
    }
}

/// A fresh pool is within its limits.
pub proof fn limits_hold_at_first(contract: Address, sequence: u32)
    ensures
        State::blank(contract, sequence).within_limits(),
{
}

proof fn lemma_slash(state: State, admin_addr: Address, user: Address, amount: i128)
    ensures
        state.slash(admin_addr, user, amount) matches Ok((next, _)) ==> next.settings
            == state.settings && next.boost_schedule == state.boost_schedule,
{
}

proof fn lemma_carry_on(state: State, active: Seq<Address>, last: u32, wave: u32)
    ensures
        state.carry_on(active, last, wave) matches Ok(next) ==> next == (State {
            accounts: next.accounts,
            ..state
        }),
    decreases active.len(),
{
    if active.len() > 0 {
        lemma_carry_on(state, active.drop_last(), last, wave);
    }
}

proof fn lemma_manage(state: State, call: ManageCall)
    requires
        state.within_limits(),
    ensures
        state.manage_step(call) matches Ok(next) ==> next.within_limits() && next.for_good(state),
{
    reveal(State::manage_step);
    match call {
        ManageCall::Slash { admin_addr, user, amount } => {
            lemma_slash(state, admin_addr, user, amount);
        },
        ManageCall::RecordWaveActivity { wave_id, active_users } => {
            lemma_carry_on(
                state.lapse(active_users),
                active_users,
                state.last_wave(),
                wave_id,
            );
        },
        _ => {},
    }
}

proof fn lemma_mark(state: State, call: MarkCall)
    ensures
        state.mark_step(call) matches Ok(next) ==> next.settings == state.settings
            && next.boost_schedule == state.boost_schedule,
{
    reveal(State::mark_step);
}

proof fn lemma_admin(state: State, call: AdminCall)
    requires
        state.within_limits(),
    ensures
        state.admin_step(call) matches Ok(next) ==> next.within_limits(),
{
    reveal(State::admin_step);
}

proof fn lemma_admin_for_good(state: State, call: AdminCall)
    ensures
        state.admin_step(call) matches Ok(next) ==> next.for_good(state),
{
    reveal(State::admin_step);
}

proof fn lemma_plan(state: State, call: PlanCall)
    requires
        state.within_limits(),
    ensures
        state.plan_step(call) matches Ok(next) ==> next.within_limits() && next.for_good(state),
{
    reveal(State::plan_step);
}

proof fn lemma_setting(state: State, call: SettingCall)
    requires
        state.within_limits(),
    ensures
        state.setting_step(call) matches Ok(next) ==> next.within_limits(),
{
    reveal(State::setting_step);
}

proof fn lemma_setting_for_good(state: State, call: SettingCall)
    ensures
        state.setting_step(call) matches Ok(next) ==> next.for_good(state),
{
    reveal(State::setting_step);
}

/// Every call keeps what is set within its limits, and undoes nothing that cannot be undone: a
/// pool that was stopped is stopped for good.
pub proof fn limits_are_kept(state: State, call: Call)
    requires
        state.within_limits(),
    ensures
        state.step(call) matches Ok(next) ==> next.within_limits() && next.for_good(state),
{
    match call {
        Call::User(call) => crate::laws::consent::users_change_what_is_theirs(state, call),
        Call::Owner(call) => crate::laws::consent::owners_change_what_is_theirs(state, call),
        Call::Manage(call) => lemma_manage(state, call),
        Call::Mark(call) => lemma_mark(state, call),
        Call::Admin(call) => {
            lemma_admin(state, call);
            lemma_admin_for_good(state, call);
        },
        Call::Plan(call) => lemma_plan(state, call),
        Call::Setting(call) => {
            lemma_setting(state, call);
            lemma_setting_for_good(state, call);
        },
    }
}

} // verus!
