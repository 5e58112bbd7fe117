//! All calls that change the pool, in one type, so that something can be said of every call.
use crate::address::Address;
use crate::env::State;
use crate::errors::VaultError;
use crate::events::{ActionDetails, Event};
use crate::pool_admin::{
    MAX_BOOST_TIERS, MAX_DESCRIPTION_LEN, MAX_LEADERBOARD_SIZE, MAX_PENALTY_BPS, MAX_POSITIONS,
    MAX_UNSTAKE_FEE_BPS,
};
use crate::storage::{Account, AdminAction, Settings};
use vstd::prelude::*;

verus! {

/// A call that moves tokens, shares or rewards of users.
pub enum UserCall {
    Stake { staker: Address, amount: i128 },
    StakeFor { delegate: Address, beneficiary: Address, amount: i128 },
    StakeAndClaim { user: Address, amount: i128, reward_balance: i128 },
    Unstake { staker: Address, shares: i128 },
    UnstakeAll { user: Address },
    RequestUnstake { user: Address, amount: i128 },
    Claim { staker: Address },
    ClaimEpochRewards { user: Address },
    TransferPosition { from: Address, to: Address },
    TransferPositionWithRewards { from: Address, to: Address },
    MergePositions { user: Address },
}

/// A call that pays out what has been settled, or changes what a user has chosen.
pub enum OwnerCall {
    ExecuteUnstake { user: Address },
    CheckAutoPause { reward_balance: i128 },
    WithdrawVested { user: Address },
    WithdrawAllVested { user: Address },
    ApproveDelegate { user: Address, delegate: Address },
    RevokeDelegate { user: Address, delegate: Address },
    SetAutoRestake { user: Address, enabled: bool },
}

/// A call by which the admin acts on the stakes and streaks of users.
pub enum ManageCall {
    Slash { admin_addr: Address, user: Address, amount: i128 },
    RecordWaveActivity { wave_id: u32, active_users: Seq<Address> },
    SetEpochMode { epoch_ledgers: u32, reward_per_epoch: i128 },
    FinalizeEpoch,
}

/// A call by which the admin stores something about a user.
pub enum MarkCall {
    FlagFrozen { user: Address },
    Unfreeze { user: Address },
    AddToWhitelist { user: Address },
    RemoveFromWhitelist { user: Address },
    SetKycStatus { user: Address, approved: bool },
    ScheduleVesting { user: Address, amount: i128, claimable_at_ledger: u32 },
}

/// A call by which the admin changes the pool as a whole.
pub enum AdminCall {
    Initialize {
        admin: Address,
        token: Address,
        reward_rate_bps: u32,
        stake_decimals: Option<u32>,
        reward_decimals: Option<u32>,
    },
    Pause,
    Unpause,
    EmergencyStop,
    AddYield { admin_addr: Address, amount: i128 },
    FundRewardPool { admin_addr: Address, amount: i128 },
    TransferAdmin { new_admin: Address },
    RescueToken { admin_addr: Address, token: Address, amount: i128, recipient: Address },
}

/// A call by which the admin sets how rewards accrue and what lists are kept.
pub enum PlanCall {
    TakeSnapshot,
    StartBoostCampaign { multiplier_bps: u32, duration_ledgers: u32 },
    EndBoostCampaign,
    SetRewardRateBps { rate_bps: u32 },
    SetBoostSchedule { tiers: Seq<(u32, u32)> },
    SetLeaderboardSize { n: u32 },
    SetPoolDescription { description: String },
}

/// A call by which the admin sets one thing.
pub enum SettingCall {
    SetSlashTreasury { treasury: Address },
    SetWhitelistEnabled { enabled: bool },
    SetKycRequired { required: bool },
    SetWithdrawalLimit { limit: i128 },
    SetCooldownPeriod { ledgers: u32 },
    SetLockPeriod { ledgers: u32 },
    SetEarlyExitPenaltyBps { bps: u32 },
    SetUnstakeFeeBps { bps: u32 },
    SetMinStake { amount: i128 },
    SetPoolCap { cap: i128 },
    SetClaimCap { max_amount: i128, window_ledgers: u32 },
    SetRewardToken { token: Address },
    SetNftContract { nft: Address },
    SetRestakeWindow { ledgers: u32 },
    SetMaxPositionsPerUser { max: u32 },
    SetInactivityThreshold { ledgers: u32 },
    SetVestingPeriod { ledgers: u32 },
}

/// A call that changes the pool.
pub enum Call {
    User(UserCall),
    Owner(OwnerCall),
    Manage(ManageCall),
    Mark(MarkCall),
    Admin(AdminCall),
    Plan(PlanCall),
    Setting(SettingCall),
}

/// The pool that a call leaves, without what it hands out.
pub open spec fn left_by<T>(r: Result<(State, T), VaultError>) -> Result<State, VaultError> {
    match r {
        Ok((next, _)) => Ok(next),
        Err(e) => Err(e),
    }
}

impl State {
    /// A user's account is changed, with the authorisation of the user.
    pub open spec fn by_user(self, user: Address, account: Account) -> Result<State, VaultError> {
        if self.authorized(user) {
            Ok(self.with_account(user, account))
        } else {
            Err(VaultError::Unauthorized)
        }
    }

    /// What a call does that moves tokens, shares or rewards.
    #[verifier::opaque]
    pub open spec fn user_step(self, call: UserCall) -> Result<State, VaultError> {
        match call {
            UserCall::Stake { staker, amount } => left_by(self.stake(staker, amount)),
            UserCall::StakeFor { delegate, beneficiary, amount } => left_by(
                self.stake_for(delegate, beneficiary, amount),
            ),
            UserCall::StakeAndClaim { user, amount, reward_balance } => left_by(
                self.stake_and_claim(user, amount, reward_balance),
            ),
            UserCall::Unstake { staker, shares } => left_by(self.unstake(staker, shares)),
            UserCall::UnstakeAll { user } => left_by(self.unstake_all(user)),
            UserCall::RequestUnstake { user, amount } => self.request_unstake(user, amount),
            UserCall::Claim { staker } => left_by(self.claim(staker)),
            UserCall::ClaimEpochRewards { user } => left_by(self.claim_epoch_rewards(user)),
            UserCall::TransferPosition { from, to } => self.transfer_position(from, to),
            UserCall::TransferPositionWithRewards { from, to } =>
                self.transfer_position_with_rewards(from, to),
            UserCall::MergePositions { user } => self.merge_positions(user),
        }
    }

    /// What a call does that pays out or changes a choice.
    #[verifier::opaque]
    pub open spec fn owner_step(self, call: OwnerCall) -> Result<State, VaultError> {
        match call {
            OwnerCall::ExecuteUnstake { user } => left_by(self.execute_unstake(user)),
            OwnerCall::CheckAutoPause { reward_balance } => self.check_auto_pause(reward_balance),
            OwnerCall::WithdrawVested { user } => left_by(self.withdraw_vested(user)),
            OwnerCall::WithdrawAllVested { user } => left_by(self.withdraw_vested(user)),
            OwnerCall::ApproveDelegate { user, delegate } => self.by_user(
                user,
                Account { delegate: Some(delegate), ..self.account(user) },
            ),
            OwnerCall::RevokeDelegate { user, delegate } => self.revoke_delegate(user, delegate),
            OwnerCall::SetAutoRestake { user, enabled } => self.by_user(
                user,
                Account { auto_restake: enabled, ..self.account(user) },
            ),
        }
    }

    /// What a call of the admin does to stakes and streaks.
    #[verifier::opaque]
    pub open spec fn manage_step(self, call: ManageCall) -> Result<State, VaultError> {
        match call {
            ManageCall::Slash { admin_addr, user, amount } => left_by(
                self.slash(admin_addr, user, amount),
            ),
            ManageCall::RecordWaveActivity { wave_id, active_users } => self.record_wave_activity(
                wave_id,
                active_users,
            ),
            ManageCall::SetEpochMode { epoch_ledgers, reward_per_epoch } => self.set_epoch_mode(
                epoch_ledgers,
                reward_per_epoch,
            ),
            ManageCall::FinalizeEpoch => self.finalize_epoch(),
        }
    }

    /// What a call of the admin does that is about one user.
    #[verifier::opaque]
    pub open spec fn mark_step(self, call: MarkCall) -> Result<State, VaultError> {
        match call {
            MarkCall::FlagFrozen { user } => self.flag_frozen(user),
            MarkCall::Unfreeze { user } => self.by_admin(
                self.with_account(user, Account { frozen_at: None, ..self.account(user) }),
            ),
            MarkCall::AddToWhitelist { user } => self.by_admin(
                self.with_account(user, Account { whitelisted: true, ..self.account(user) }),
            ),
            MarkCall::RemoveFromWhitelist { user } => self.by_admin(
                self.with_account(user, Account { whitelisted: false, ..self.account(user) }),
            ),
            MarkCall::SetKycStatus { user, approved } => self.by_admin(
                self.with_account(user, Account { kyc_approved: approved, ..self.account(user) }),
            ),
            MarkCall::ScheduleVesting { user, amount, claimable_at_ledger } =>
                self.by_admin_unless(
                self.vesting_refusal(user, amount),
                self.schedule_vesting(user, amount, claimable_at_ledger),
            ),
        }
    }

    /// What a call of the admin does to the pool as a whole.
    #[verifier::opaque]
    pub open spec fn admin_step(self, call: AdminCall) -> Result<State, VaultError> {
        match call {
            AdminCall::Initialize {
                admin,
                token,
                reward_rate_bps,
                stake_decimals,
                reward_decimals,
            } => self.initialize(admin, token, reward_rate_bps, stake_decimals, reward_decimals),
            AdminCall::Pause => self.by_admin_unless(self.stop_refusal(), self.pause()),
            AdminCall::Unpause => self.by_admin_unless(self.stop_refusal(), self.unpause()),
            AdminCall::EmergencyStop => self.by_admin(
                self.with_settings(Settings { stopped: true, ..self.settings }).publish(
                    Event::Stopped { admin: self.admin(), ledger: self.sequence },
                ),
            ),
            AdminCall::AddYield { admin_addr, amount } => self.add_yield(admin_addr, amount),
            AdminCall::FundRewardPool { admin_addr, amount } => self.fund_reward_pool(
                admin_addr,
                amount,
            ),
            AdminCall::TransferAdmin { new_admin } => self.by_admin(self.transfer_admin(new_admin)),
            AdminCall::RescueToken { admin_addr, token, amount, recipient } => self.rescue_token(
                admin_addr,
                token,
                amount,
                recipient,
            ),
        }
    }

    /// What a call of the admin does to rewards and lists.
    #[verifier::opaque]
    pub open spec fn plan_step(self, call: PlanCall) -> Result<State, VaultError> {
        match call {
            PlanCall::TakeSnapshot => self.by_admin(self.snapshot_taken()),
            PlanCall::StartBoostCampaign { multiplier_bps, duration_ledgers } =>
                self.by_admin_unless(
                self.campaign_refusal(multiplier_bps, duration_ledgers),
                self.campaign_started(multiplier_bps, duration_ledgers),
            ),
            PlanCall::EndBoostCampaign => self.by_admin_unless(
                if self.running_campaign() is None {
                    Some(VaultError::NoCampaignActive)
                } else {
                    None
                },
                self.with_settings(Settings { campaign: None, ..self.settings }).publish(
                    Event::CampaignEnded { admin: self.admin(), ledger: self.sequence },
                ),
            ),
            PlanCall::SetRewardRateBps { rate_bps } => self.by_admin_unless(
                self.rate_refusal(rate_bps),
                self.rate_set(rate_bps),
            ),
            PlanCall::SetBoostSchedule { tiers } => self.by_admin_unless(
                if tiers.len() > MAX_BOOST_TIERS {
                    Some(VaultError::TooManyBoostTiers)
                } else if !crate::pool_admin::valid_schedule(tiers) {
                    Some(VaultError::InvalidBoostSchedule)
                } else {
                    None
                },
                State { boost_schedule: tiers, ..self }.acted(
                    AdminAction::SetBoostSchedule,
                    ActionDetails::Number { number: tiers.len() as u32 },
                ),
            ),
            PlanCall::SetLeaderboardSize { n } => self.by_admin_unless(
                crate::pool_admin::above(
                    n as int,
                    MAX_LEADERBOARD_SIZE,
                    VaultError::LeaderboardSizeTooLarge,
                ),
                self.leaderboard_sized(n),
            ),
            PlanCall::SetPoolDescription { description } => self.by_admin_unless(
                crate::pool_admin::above(
                    description@.len() as int,
                    MAX_DESCRIPTION_LEN,
                    VaultError::DescriptionTooLong,
                ),
                self.described(description),
            ),
        }
    }

    /// What a call of the admin does that sets one thing.
    #[verifier::opaque]
    pub open spec fn setting_step(self, call: SettingCall) -> Result<State, VaultError> {
        match call {
            SettingCall::SetSlashTreasury { treasury } => self.by_admin(
                self.with_settings(Settings { slash_treasury: Some(treasury), ..self.settings }),
            ),
            SettingCall::SetWhitelistEnabled { enabled } => self.by_admin(
                self.with_settings(Settings { whitelist_enabled: enabled, ..self.settings }),
            ),
            SettingCall::SetKycRequired { required } => self.by_admin(
                self.with_settings(Settings { kyc_required: required, ..self.settings }),
            ),
            SettingCall::SetWithdrawalLimit { limit } => self.by_admin_unless(
                crate::pool_admin::not_positive(limit),
                self.with_settings(
                    Settings { withdrawal_limit: Some(limit), ..self.settings },
                ).publish(
                    Event::WithdrawalLimitUpdated {
                        admin: self.admin(),
                        new_limit: limit,
                        ledger: self.sequence,
                    },
                ).acted(AdminAction::SetCap, ActionDetails::Amount { amount: limit }),
            ),
            SettingCall::SetCooldownPeriod { ledgers } => self.by_admin(
                self.with_settings(Settings { cooldown_period: ledgers, ..self.settings }),
            ),
            SettingCall::SetLockPeriod { ledgers } => self.by_admin(
                self.with_settings(Settings { lock_period: ledgers, ..self.settings }).acted(
                    AdminAction::SetLockPeriod,
                    ActionDetails::Number { number: ledgers },
                ),
            ),
            SettingCall::SetEarlyExitPenaltyBps { bps } => self.by_admin_unless(
                crate::pool_admin::above(
                    bps as int,
                    MAX_PENALTY_BPS,
                    VaultError::InvalidPenaltyBps,
                ),
                self.with_settings(Settings { early_exit_penalty_bps: bps, ..self.settings }).acted(
                    AdminAction::SetEarlyExitPenalty,
                    ActionDetails::Number { number: bps },
                ),
            ),
            SettingCall::SetUnstakeFeeBps { bps } => self.by_admin_unless(
                crate::pool_admin::above(
                    bps as int,
                    MAX_UNSTAKE_FEE_BPS,
                    VaultError::UnstakeFeeTooHigh,
                ),
                self.with_settings(Settings { unstake_fee_bps: bps, ..self.settings }),
            ),
            SettingCall::SetMinStake { amount } => self.by_admin_unless(
                crate::pool_admin::negative(amount),
                self.with_settings(Settings { min_stake: amount, ..self.settings }).acted(
                    AdminAction::SetMinStake,
                    ActionDetails::Amount { amount },
                ),
            ),
            SettingCall::SetPoolCap { cap } => self.by_admin_unless(
                crate::pool_admin::negative(cap),
                self.with_settings(Settings { pool_cap: cap, ..self.settings }).publish(
                    Event::PoolCapUpdated {
                        admin: self.admin(),
                        new_cap: cap,
                        ledger: self.sequence,
                    },
                ),
            ),
            SettingCall::SetClaimCap { max_amount, window_ledgers } => self.by_admin_unless(
                crate::pool_admin::negative(max_amount),
                self.with_settings(
                    Settings {
                        claim_cap: max_amount,
                        claim_cap_window: window_ledgers,
                        ..self.settings
                    },
                ),
            ),
            SettingCall::SetRewardToken { token } => self.by_admin(
                self.with_settings(Settings { reward_token: Some(token), ..self.settings }).acted(
                    AdminAction::SetRewardToken,
                    ActionDetails::Whom { address: token },
                ),
            ),
            SettingCall::SetNftContract { nft } => self.by_admin(
                self.with_settings(Settings { nft_contract: Some(nft), ..self.settings }).acted(
                    AdminAction::SetNftContract,
                    ActionDetails::Whom { address: nft },
                ),
            ),
            SettingCall::SetRestakeWindow { ledgers } => self.by_admin(
                self.with_settings(Settings { restake_window: ledgers, ..self.settings }).acted(
                    AdminAction::SetRestakeWindow,
                    ActionDetails::Number { number: ledgers },
                ),
            ),
            SettingCall::SetMaxPositionsPerUser { max } => self.by_admin_unless(
                crate::pool_admin::above(
                    max as int,
                    MAX_POSITIONS,
                    VaultError::MaxPositionsTooHigh,
                ),
                self.with_settings(Settings { max_positions: max, ..self.settings }),
            ),
            SettingCall::SetInactivityThreshold { ledgers } => self.by_admin(
                self.with_settings(Settings { inactivity_threshold: ledgers, ..self.settings }),
            ),
            SettingCall::SetVestingPeriod { ledgers } => self.by_admin(
                self.with_settings(Settings { vesting_period: ledgers, ..self.settings }),
            ),
        }
    }

    /// What a call does.
    pub open spec fn step(self, call: Call) -> Result<State, VaultError> {
        match call {
            Call::User(call) => self.user_step(call),
            Call::Owner(call) => self.owner_step(call),
            Call::Manage(call) => self.manage_step(call),
            Call::Mark(call) => self.mark_step(call),
            Call::Admin(call) => self.admin_step(call),
            Call::Plan(call) => self.plan_step(call),
            Call::Setting(call) => self.setting_step(call),
        }
    }

    /// The pool at a later ledger, called by others.
    pub open spec fn at(self, sequence: u32, signers: Seq<Address>) -> State {
        State { sequence, signers, effects: Seq::empty(), ..self }
    }
}

} // verus!
