//! Every entry point makes the call that it is named after, with the arguments that it is given.
use crate::address::Address;
use crate::calls::{
    AdminCall, Call, ManageCall, MarkCall, OwnerCall, PlanCall, SettingCall, UserCall,
};
use crate::env::{Env, State};
use crate::errors::VaultError;
use crate::vault::VaultContract;
use vstd::prelude::*;

verus! {

/// An entry point came back as a call comes out: with the pool that it leaves, or with its error.
pub open spec fn came_out(r: Result<Env, VaultError>, call: Result<State, VaultError>) -> bool {
    match r {
        Ok(env) => call == Ok::<State, VaultError>(env@),
        Err(e) => call == Err::<State, VaultError>(e),
    }
}

/// The same of one that hands an amount out.
pub open spec fn came_out_with(
    r: Result<(Env, i128), VaultError>,
    call: Result<(State, i128), VaultError>,
) -> bool {
    match r {
        Ok((env, amount)) => call == Ok::<(State, i128), VaultError>((env@, amount)),
        Err(e) => call == Err::<(State, i128), VaultError>(e),
    }
}

/// `stake` stakes.
pub proof fn stake_is_made(
    env: Env,
    staker: Address,
    amount: i128,
    r: Result<(Env, i128), VaultError>,
)
    requires
        call_ensures(VaultContract::stake, (env, staker, amount), r),
    ensures
        came_out_with(r, env@.stake(staker, amount)),
{
}

/// `deposit` is another name for `stake`.
pub proof fn deposit_is_made(
    env: Env,
    staker: Address,
    amount: i128,
    r: Result<(Env, i128), VaultError>,
)
    requires
        call_ensures(VaultContract::deposit, (env, staker, amount), r),
    ensures
        came_out_with(r, env@.stake(staker, amount)),
{
}

/// `stake_for` stakes for another.
pub proof fn stake_for_is_made(
    env: Env,
    delegate: Address,
    beneficiary: Address,
    amount: i128,
    r: Result<(Env, i128), VaultError>,
)
    requires
        call_ensures(VaultContract::stake_for, (env, delegate, beneficiary, amount), r),
    ensures
        came_out_with(r, env@.stake_for(delegate, beneficiary, amount)),
{
}

/// `stake_and_claim` does both.
pub proof fn stake_and_claim_is_made(
    env: Env,
    user: Address,
    amount: i128,
    reward_balance: i128,
    r: Result<(Env, i128), VaultError>,
)
    requires
        call_ensures(VaultContract::stake_and_claim, (env, user, amount, reward_balance), r),
    ensures
        came_out_with(r, env@.stake_and_claim(user, amount, reward_balance)),
{
}

/// `unstake` unstakes.
pub proof fn unstake_is_made(
    env: Env,
    staker: Address,
    shares: i128,
    r: Result<(Env, i128), VaultError>,
)
    requires
        call_ensures(VaultContract::unstake, (env, staker, shares), r),
    ensures
        came_out_with(r, env@.unstake(staker, shares)),
{
}

/// `withdraw` is another name for `unstake`.
pub proof fn withdraw_is_made(
    env: Env,
    staker: Address,
    shares: i128,
    r: Result<(Env, i128), VaultError>,
)
    requires
        call_ensures(VaultContract::withdraw, (env, staker, shares), r),
    ensures
        came_out_with(r, env@.unstake(staker, shares)),
{
}

/// `unstake_all` is the full exit.
pub proof fn unstake_all_is_made(
    env: Env,
    user: Address,
    r: Result<(Env, i128), VaultError>,
)
    requires
        call_ensures(VaultContract::unstake_all, (env, user), r),
    ensures
        came_out_with(r, env@.unstake_all(user)),
{
}

/// `execute_unstake` pays what has unbonded.
pub proof fn execute_unstake_is_made(
    env: Env,
    user: Address,
    r: Result<(Env, i128), VaultError>,
)
    requires
        call_ensures(VaultContract::execute_unstake, (env, user), r),
    ensures
        came_out_with(r, env@.execute_unstake(user)),
{
}

/// `claim` claims.
pub proof fn claim_is_made(
    env: Env,
    user: Address,
    r: Result<(Env, i128), VaultError>,
)
    requires
        call_ensures(VaultContract::claim, (env, user), r),
    ensures
        came_out_with(r, env@.claim(user)),
{
}

/// `claim_epoch_rewards` claims the rewards of epochs.
pub proof fn claim_epoch_rewards_is_made(
    env: Env,
    user: Address,
    r: Result<(Env, i128), VaultError>,
)
    requires
        call_ensures(VaultContract::claim_epoch_rewards, (env, user), r),
    ensures
        came_out_with(r, env@.claim_epoch_rewards(user)),
{
}

/// `withdraw_vested` pays what has vested.
pub proof fn withdraw_vested_is_made(
    env: Env,
    user: Address,
    r: Result<(Env, i128), VaultError>,
)
    requires
        call_ensures(VaultContract::withdraw_vested, (env, user), r),
    ensures
        came_out_with(r, env@.withdraw_vested(user)),
{
}

/// `withdraw_all_vested` is another name for `withdraw_vested`.
pub proof fn withdraw_all_vested_is_made(
    env: Env,
    user: Address,
    r: Result<(Env, i128), VaultError>,
)
    requires
        call_ensures(VaultContract::withdraw_all_vested, (env, user), r),
    ensures
        came_out_with(r, env@.withdraw_vested(user)),
{
}

/// `slash` slashes.
pub proof fn slash_is_made(
    env: Env,
    admin_addr: Address,
    user: Address,
    amount: i128,
    r: Result<(Env, i128), VaultError>,
)
    requires
        call_ensures(VaultContract::slash, (env, admin_addr, user, amount), r),
    ensures
        came_out_with(r, env@.slash(admin_addr, user, amount)),
{
}

/// So do the other calls that move positions.
pub proof fn position_calls_are_made(
    env: Env,
    user: Address,
    amount: i128,
    from: Address,
    to: Address,
    r: Result<Env, VaultError>,
)
    ensures
        call_ensures(VaultContract::request_unstake, (env, user, amount), r) ==> came_out(
            r,
            env@.step(Call::User(UserCall::RequestUnstake { user, amount })),
        ),
        call_ensures(VaultContract::transfer_position, (env, from, to), r) ==> came_out(
            r,
            env@.step(Call::User(UserCall::TransferPosition { from, to })),
        ),
        call_ensures(VaultContract::transfer_position_with_rewards, (env, from, to), r)
            ==> came_out(
            r,
            env@.step(Call::User(UserCall::TransferPositionWithRewards { from, to })),
        ),
        call_ensures(VaultContract::merge_positions, (env, user), r) ==> came_out(
            r,
            env@.step(Call::User(UserCall::MergePositions { user })),
        ),
{
    reveal(State::user_step);
}

/// So do the calls that change a choice of a user, and the check on the reserve.
pub proof fn choices_are_made(
    env: Env,
    amount: i128,
    user: Address,
    to: Address,
    r: Result<Env, VaultError>,
)
    ensures
        call_ensures(VaultContract::check_auto_pause, (env, amount), r) ==> came_out(
            r,
            env@.step(Call::Owner(OwnerCall::CheckAutoPause { reward_balance: amount })),
        ),
        call_ensures(VaultContract::approve_delegate, (env, user, to), r) ==> came_out(
            r,
            env@.step(Call::Owner(OwnerCall::ApproveDelegate { user, delegate: to })),
        ),
        call_ensures(VaultContract::revoke_delegate, (env, user, to), r) ==> came_out(
            r,
            env@.step(Call::Owner(OwnerCall::RevokeDelegate { user, delegate: to })),
        ),
{
    reveal(State::owner_step);
}

/// So do the calls that run the epochs.
pub proof fn epoch_calls_are_made(
    env: Env,
    who: Address,
    ledgers: u32,
    amount: i128,
    r: Result<Env, VaultError>,
)
    ensures
        call_ensures(VaultContract::set_epoch_mode, (env, who, ledgers, amount), r) ==> came_out(
            r,
            env@.step(
                Call::Manage(
                    ManageCall::SetEpochMode { epoch_ledgers: ledgers, reward_per_epoch: amount },
                ),
            ),
        ),
        call_ensures(VaultContract::finalize_epoch, (env, who), r) ==> came_out(
            r,
            env@.step(Call::Manage(ManageCall::FinalizeEpoch)),
        ),
{
    reveal(State::manage_step);
}

/// So do the calls that store something about a user.
pub proof fn marks_are_made(
    env: Env,
    who: Address,
    user: Address,
    flag: bool,
    amount: i128,
    ledgers: u32,
    r: Result<Env, VaultError>,
)
    ensures
        call_ensures(VaultContract::flag_frozen, (env, who, user), r) ==> came_out(
            r,
            env@.step(Call::Mark(MarkCall::FlagFrozen { user })),
        ),
        call_ensures(VaultContract::unfreeze, (env, who, user), r) ==> came_out(
            r,
            env@.step(Call::Mark(MarkCall::Unfreeze { user })),
        ),
        call_ensures(VaultContract::add_to_whitelist, (env, user), r) ==> came_out(
            r,
            env@.step(Call::Mark(MarkCall::AddToWhitelist { user })),
        ),
        call_ensures(VaultContract::remove_from_whitelist, (env, user), r) ==> came_out(
            r,
            env@.step(Call::Mark(MarkCall::RemoveFromWhitelist { user })),
        ),
        call_ensures(VaultContract::set_kyc_status, (env, user, flag), r) ==> came_out(
            r,
            env@.step(Call::Mark(MarkCall::SetKycStatus { user, approved: flag })),
        ),
        call_ensures(VaultContract::schedule_vesting, (env, user, amount, ledgers), r) ==> came_out(
            r,
            env@.step(
                Call::Mark(
                    MarkCall::ScheduleVesting { user, amount, claimable_at_ledger: ledgers },
                ),
            ),
        ),
{
    reveal(State::mark_step);
}

/// So do the calls of the admin that change the pool as a whole.
pub proof fn admin_calls_are_made(
    env: Env,
    who: Address,
    amount: i128,
    to: Address,
    from: Address,
    r: Result<Env, VaultError>,
)
    ensures
        call_ensures(VaultContract::pause, (env,), r) ==> came_out(
            r,
            env@.step(Call::Admin(AdminCall::Pause)),
        ),
        call_ensures(VaultContract::unpause, (env,), r) ==> came_out(
            r,
            env@.step(Call::Admin(AdminCall::Unpause)),
        ),
        call_ensures(VaultContract::emergency_stop, (env,), r) ==> came_out(
            r,
            env@.step(Call::Admin(AdminCall::EmergencyStop)),
        ),
        call_ensures(VaultContract::add_yield, (env, who, amount), r) ==> came_out(
            r,
            env@.step(Call::Admin(AdminCall::AddYield { admin_addr: who, amount })),
        ),
        call_ensures(VaultContract::fund_reward_pool, (env, who, amount), r) ==> came_out(
            r,
            env@.step(Call::Admin(AdminCall::FundRewardPool { admin_addr: who, amount })),
        ),
        call_ensures(VaultContract::transfer_admin, (env, to), r) ==> came_out(
            r,
            env@.step(Call::Admin(AdminCall::TransferAdmin { new_admin: to })),
        ),
        call_ensures(VaultContract::rescue_token, (env, who, from, amount, to), r) ==> came_out(
            r,
            env@.step(
                Call::Admin(
                    AdminCall::RescueToken { admin_addr: who, token: from, amount, recipient: to },
                ),
            ),
        ),
{
    reveal(State::admin_step);
}

/// So do the calls that say how rewards accrue and what lists are kept.
pub proof fn plans_are_made(
    env: Env,
    bps: u32,
    ledgers: u32,
    r: Result<Env, VaultError>,
)
    ensures
        call_ensures(VaultContract::take_snapshot, (env,), r) ==> came_out(
            r,
            env@.step(Call::Plan(PlanCall::TakeSnapshot)),
        ),
        call_ensures(VaultContract::start_boost_campaign, (env, bps, ledgers), r) ==> came_out(
            r,
            env@.step(
                Call::Plan(
                    PlanCall::StartBoostCampaign {
                        multiplier_bps: bps,
                        duration_ledgers: ledgers,
                    },
                ),
            ),
        ),
        call_ensures(VaultContract::end_boost_campaign, (env,), r) ==> came_out(
            r,
            env@.step(Call::Plan(PlanCall::EndBoostCampaign)),
        ),
        call_ensures(VaultContract::set_reward_rate_bps, (env, bps), r) ==> came_out(
            r,
            env@.step(Call::Plan(PlanCall::SetRewardRateBps { rate_bps: bps })),
        ),
        call_ensures(VaultContract::set_leaderboard_size, (env, bps), r) ==> came_out(
            r,
            env@.step(Call::Plan(PlanCall::SetLeaderboardSize { n: bps })),
        ),
{
    reveal(State::plan_step);
}

/// So do the calls that set one thing.
pub proof fn settings_are_made(
    env: Env,
    to: Address,
    flag: bool,
    amount: i128,
    ledgers: u32,
    bps: u32,
    who: Address,
    r: Result<Env, VaultError>,
)
    ensures
        call_ensures(VaultContract::set_slash_treasury, (env, to), r) ==> came_out(
            r,
            env@.step(Call::Setting(SettingCall::SetSlashTreasury { treasury: to })),
        ),
        call_ensures(VaultContract::set_whitelist_enabled, (env, flag), r) ==> came_out(
            r,
            env@.step(Call::Setting(SettingCall::SetWhitelistEnabled { enabled: flag })),
        ),
        call_ensures(VaultContract::set_kyc_required, (env, flag), r) ==> came_out(
            r,
            env@.step(Call::Setting(SettingCall::SetKycRequired { required: flag })),
        ),
        call_ensures(VaultContract::set_withdrawal_limit, (env, amount), r) ==> came_out(
            r,
            env@.step(Call::Setting(SettingCall::SetWithdrawalLimit { limit: amount })),
        ),
        call_ensures(VaultContract::set_cooldown_period, (env, ledgers), r) ==> came_out(
            r,
            env@.step(Call::Setting(SettingCall::SetCooldownPeriod { ledgers })),
        ),
        call_ensures(VaultContract::set_lock_period, (env, ledgers), r) ==> came_out(
            r,
            env@.step(Call::Setting(SettingCall::SetLockPeriod { ledgers })),
        ),
        call_ensures(VaultContract::set_early_exit_penalty_bps, (env, bps), r) ==> came_out(
            r,
            env@.step(Call::Setting(SettingCall::SetEarlyExitPenaltyBps { bps })),
        ),
        call_ensures(VaultContract::set_unstake_fee_bps, (env, who, bps), r) ==> came_out(
            r,
            env@.step(Call::Setting(SettingCall::SetUnstakeFeeBps { bps })),
        ),
        call_ensures(VaultContract::set_min_stake, (env, amount), r) ==> came_out(
            r,
            env@.step(Call::Setting(SettingCall::SetMinStake { amount })),
        ),
        call_ensures(VaultContract::set_pool_cap, (env, amount), r) ==> came_out(
            r,
            env@.step(Call::Setting(SettingCall::SetPoolCap { cap: amount })),
        ),
        call_ensures(VaultContract::set_claim_cap, (env, who, amount, ledgers), r) ==> came_out(
            r,
            env@.step(
                Call::Setting(
                    SettingCall::SetClaimCap { max_amount: amount, window_ledgers: ledgers },
                ),
            ),
        ),
        call_ensures(VaultContract::set_reward_token, (env, to), r) ==> came_out(
            r,
            env@.step(Call::Setting(SettingCall::SetRewardToken { token: to })),
        ),
        call_ensures(VaultContract::set_nft_contract, (env, to), r) ==> came_out(
            r,
            env@.step(Call::Setting(SettingCall::SetNftContract { nft: to })),
        ),
        call_ensures(VaultContract::set_restake_window, (env, ledgers), r) ==> came_out(
            r,
            env@.step(Call::Setting(SettingCall::SetRestakeWindow { ledgers })),
        ),
        call_ensures(VaultContract::set_max_positions_per_user, (env, who, bps), r) ==> came_out(
            r,
            env@.step(Call::Setting(SettingCall::SetMaxPositionsPerUser { max: bps })),
        ),
        call_ensures(VaultContract::set_inactivity_threshold, (env, who, ledgers), r) ==> came_out(
            r,
            env@.step(Call::Setting(SettingCall::SetInactivityThreshold { ledgers })),
        ),
        call_ensures(VaultContract::set_vesting_period, (env, who, ledgers), r) ==> came_out(
            r,
            env@.step(Call::Setting(SettingCall::SetVestingPeriod { ledgers })),
        ),
{
    reveal(State::setting_step);
}

/// `initialize` sets the pool up.
pub proof fn initialize_is_made(
    env: Env,
    admin: Address,
    token: Address,
    rate_bps: u32,
    stake_decimals: Option<u32>,
    reward_decimals: Option<u32>,
    r: Result<Env, VaultError>,
)
    requires
        call_ensures(
            VaultContract::initialize,
            (env, admin, token, rate_bps, stake_decimals, reward_decimals),
            r,
        ),
    ensures
        came_out(r, env@.initialize(admin, token, rate_bps, stake_decimals, reward_decimals)),
{
}

/// `set_boost_schedule`, `set_pool_description` and `record_wave_activity` take lists.
pub proof fn lists_are_taken(
    env: Env,
    who: Address,
    tiers: Vec<(u32, u32)>,
    description: String,
    wave: u32,
    active: Vec<Address>,
    r: Result<Env, VaultError>,
)
    ensures
        call_ensures(VaultContract::set_boost_schedule, (env, tiers), r) ==> came_out(
            r,
            env@.step(Call::Plan(PlanCall::SetBoostSchedule { tiers: tiers@ })),
        ),
        call_ensures(VaultContract::set_pool_description, (env, who, description), r) ==> came_out(
            r,
            env@.step(Call::Plan(PlanCall::SetPoolDescription { description })),
        ),
        call_ensures(VaultContract::record_wave_activity, (env, who, wave, active), r) ==> came_out(
            r,
            env@.step(
                Call::Manage(
                    ManageCall::RecordWaveActivity { wave_id: wave, active_users: active@ },
                ),
            ),
        ),
{
    reveal(State::plan_step);
    reveal(State::manage_step);
}

/// The calls of users that hand something out are the same calls, without what they hand out.
pub proof fn calls_are_what_they_are_named(
    state: State,
    user: Address,
    other: Address,
    amount: i128,
)
    ensures
        state.step(Call::User(UserCall::Stake { staker: user, amount })) == crate::calls::left_by(
            state.stake(user, amount),
        ),
        state.step(Call::User(UserCall::Unstake { staker: user, shares: amount }))
            == crate::calls::left_by(state.unstake(user, amount)),
        state.step(Call::User(UserCall::UnstakeAll { user })) == crate::calls::left_by(
            state.unstake_all(user),
        ),
        state.step(Call::User(UserCall::RequestUnstake { user, amount })) == state.request_unstake(
            user,
            amount,
        ),
        state.step(Call::User(UserCall::Claim { staker: user })) == crate::calls::left_by(
            state.claim(user),
        ),
        state.step(Call::User(UserCall::TransferPosition { from: user, to: other }))
            == state.transfer_position(user, other),
        state.step(Call::User(UserCall::TransferPositionWithRewards { from: user, to: other }))
            == state.transfer_position_with_rewards(user, other),
        state.step(Call::User(UserCall::MergePositions { user })) == state.merge_positions(user),
        state.step(Call::Manage(ManageCall::Slash { admin_addr: other, user, amount }))
            == crate::calls::left_by(state.slash(other, user, amount)),
        state.step(Call::Manage(ManageCall::FinalizeEpoch)) == state.finalize_epoch(),
        state.step(Call::Owner(OwnerCall::ExecuteUnstake { user })) == crate::calls::left_by(
            state.execute_unstake(user),
        ),
        state.step(Call::Owner(OwnerCall::WithdrawVested { user })) == crate::calls::left_by(
            state.withdraw_vested(user),
        ),
{
    reveal(State::user_step);
    reveal(State::manage_step);
    reveal(State::owner_step);
}

/// `set_auto_restake` makes the choice of the user.
pub proof fn set_auto_restake_is_made(env: Env, user: Address, enabled: bool, after: Env)
    requires
        env@.authorized(user),
        call_ensures(VaultContract::set_auto_restake, (env, user, enabled), after),
    ensures
        env@.step(Call::Owner(OwnerCall::SetAutoRestake { user, enabled })) == Ok::<
            State,
            VaultError,
        >(after@),
{
    reveal(State::owner_step);
}

} // verus!
