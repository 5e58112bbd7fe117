//! What the vault stores and what it hands out.
use crate::address::Address;
use vstd::prelude::*;

verus! {

/// A time-limited boost of the reward rate for every staker.
#[derive(Clone, Copy, Debug, PartialEq, Eq, Structural)]
pub struct CampaignInfo {
    pub multiplier_bps: u32,
    pub starts_at_ledger: u32,
    pub ends_at_ledger: u32,
}

/// What an entry of the admin changelog is about.
#[derive(Clone, Copy, Debug, PartialEq, Eq, Structural)]
pub enum ChangeType {
    Paused,
    Unpaused,
    AdminTransferred,
    RateChanged,
}

impl ChangeType {
    /// The word under which the change is recorded.
    pub open spec fn word(self) -> Seq<char> {
        match self {
            ChangeType::Paused => "paused"@,
            ChangeType::Unpaused => "unpaused"@,
            ChangeType::AdminTransferred => "admin_transferred"@,
            ChangeType::RateChanged => "rate_changed"@,
        }
    }

    /// The word under which the change is recorded.
    pub fn as_str(&self) -> (word: &'static str)
        ensures
            word@ == self.word(),
    {
        match self {
            ChangeType::Paused => "paused",
            ChangeType::Unpaused => "unpaused",
            ChangeType::AdminTransferred => "admin_transferred",
            ChangeType::RateChanged => "rate_changed",
        }
    }
}

/// One entry of the admin changelog.
#[derive(Clone, Copy, Debug, PartialEq, Eq, Structural)]
pub struct ChangelogEntry {
    pub change_type: ChangeType,
    pub old_value: i128,
    pub new_value: i128,
}

/// How much of the claim cap a user has used, and since when.
#[derive(Clone, Copy, Debug, PartialEq, Eq, Structural)]
pub struct ClaimWindow {
    pub claimed_in_window: i128,
    pub window_started_at: u32,
}

/// What the contract says of itself.
#[derive(Clone, Debug)]
pub struct ContractMetadata {
    pub name: String,
    pub version: String,
    pub description: String,
}

/// The optional parts that a deployment can have.
#[derive(Clone, Copy, Debug, PartialEq, Eq, Structural)]
pub enum InterfaceId {
    Base,
    Lockup,
    Whitelist,
    Compounding,
    EpochMode,
    VestingSchedule,
}

/// One line of the leaderboard.
#[derive(Clone, Copy, Debug, PartialEq, Eq, Structural)]
pub struct LeaderboardEntry {
    pub staker: Address,
    pub amount: i128,
}

/// The configuration of the pool.
#[derive(Clone, Copy, Debug, PartialEq, Eq, Structural)]
pub struct PoolConfig {
    pub admin: Address,
    pub stake_token: Address,
    pub reward_token: Address,
    pub reward_rate_bps: u32,
    pub paused: bool,
}

/// Figures about the pool as a whole.
#[derive(Clone, Copy, Debug, PartialEq, Eq, Structural)]
pub struct PoolStats {
    pub total_staked: i128,
    pub total_stakers: u32,
    pub reward_rate_bps: i128,
    pub reward_token_balance: i128,
    pub paused: bool,
    pub total_rewards_paid: i128,
}

/// The two actions that a user's stake history records.
#[derive(Clone, Copy, Debug, PartialEq, Eq, Structural)]
pub enum StakeAction {
    Stake,
    Unstake,
}

/// One entry of a user's stake history.
#[derive(Clone, Copy, Debug, PartialEq, Eq, Structural)]
pub struct StakeHistoryEntry {
    pub action: StakeAction,
    pub amount: i128,
    pub ledger: u32,
}

/// An open position.
#[derive(Clone, Copy, Debug, PartialEq, Eq, Structural)]
pub struct StakePosition {
    pub amount: i128,
    pub staked_at_ledger: u32,
    pub last_claim_ledger: u32,
}

/// In how many waves in a row a user was active.
#[derive(Clone, Copy, Debug, PartialEq, Eq, Structural)]
pub struct StakeStreak {
    pub current_streak: u32,
    pub longest_streak: u32,
    pub last_active_wave: u32,
}

/// How much of what a user earned was claimed.
#[derive(Clone, Copy, Debug, PartialEq, Eq, Structural)]
pub struct StakingEfficiencyScore {
    pub total_claimed: i128,
    pub estimated_if_compounded: i128,
    pub efficiency_bps: i128,
}

/// A governance checkpoint of the total that is staked.
#[derive(Clone, Copy, Debug, PartialEq, Eq, Structural)]
pub struct TotalStakedSnapshot {
    pub total_staked: i128,
    pub ledger: u32,
}

/// Tokens on their way out, waiting for the cooldown to pass.
#[derive(Clone, Copy, Debug, PartialEq, Eq, Structural)]
pub struct UnbondingPosition {
    pub amount: i128,
    pub unbonding_since: u32,
}

/// What `can_unstake` answers.
#[derive(Clone, Copy, Debug, PartialEq, Eq, Structural)]
pub enum UnstakeCheckResult {
    Ready,
    PoolPaused,
    NoPosition,
    InsufficientAmount,
    StillLocked,
}

/// Figures about one user.
#[derive(Clone, Copy, Debug, PartialEq, Eq, Structural)]
pub struct UserStats {
    pub position_amount: i128,
    pub pending_reward: i128,
    pub staked_at_ledger: u32,
    pub last_claim_ledger: u32,
}

/// A user's position, pending reward and part of the pool. `position` holds the position
/// of a user who has one and nothing otherwise.
#[derive(Clone, Debug)]
pub struct UserSummary {
    pub position: Vec<StakePosition>,
    pub pending_reward: i128,
    pub pool_share_bps: i128,
}

/// A reward that can be withdrawn from a certain ledger on.
#[derive(Clone, Copy, Debug, PartialEq, Eq, Structural)]
pub struct VestingEntry {
    pub amount: i128,
    pub claimable_at_ledger: u32,
}

/// The epoch that is running.
#[derive(Clone, Copy, Debug, PartialEq, Eq, Structural)]
pub struct EpochState {
    pub epoch_number: u32,
    pub started_at: u32,
    pub reward_pool: i128,
    pub total_staked_snapshot: i128,
}

/// One change of the reward rate, and who made it.
#[derive(Clone, Copy, Debug, PartialEq, Eq, Structural)]
pub struct RateHistoryEntry {
    pub old_rate_bps: i128,
    pub new_rate_bps: i128,
    pub changed_at_ledger: u32,
    pub changed_by: Address,
}

/// How far a user is on the way to the next boost tier.
#[derive(Clone, Copy, Debug, PartialEq, Eq)]
pub struct BoostTierProgress {
    pub current_tier: u32,
    pub current_multiplier_bps: i128,
    pub next_tier_in_ledgers: Option<u32>,
    pub next_multiplier_bps: Option<i128>,
}

/// The admin actions that are recorded in the event log.
#[derive(Clone, Copy, Debug, PartialEq, Eq, Structural)]
pub enum AdminAction {
    SetRewardRate,
    Pause,
    Unpause,
    TransferAdmin,
    SetLockPeriod,
    SetCap,
    RescueToken,
    SetEarlyExitPenalty,
    SetMinStake,
    FundRewardPool,
    AddYield,
    SetBoostSchedule,
    SetNftContract,
    SetRestakeWindow,
    SetRewardToken,
}

/// What only the admin's calls change, lists apart.
#[derive(Clone, Copy, Debug)]
pub struct Settings {
    pub admin: Option<Address>,
    pub token: Option<Address>,
    pub reward_token: Option<Address>,
    pub nft_contract: Option<Address>,
    pub slash_treasury: Option<Address>,
    pub stopped: bool,
    pub reward_rate_bps: u32,
    pub stake_decimals: u32,
    pub reward_decimals: u32,
    pub initialized_at_ledger: Option<u32>,
    pub last_rate_change_ledger: u32,
    pub admin_action_count: u32,
    pub whitelist_enabled: bool,
    pub kyc_required: bool,
    pub withdrawal_limit: Option<i128>,
    pub min_stake: i128,
    pub pool_cap: i128,
    pub max_positions: u32,
    pub cooldown_period: u32,
    pub lock_period: u32,
    pub early_exit_penalty_bps: u32,
    pub unstake_fee_bps: u32,
    pub restake_window: u32,
    pub claim_cap: i128,
    pub claim_cap_window: u32,
    pub campaign: Option<CampaignInfo>,
    pub leaderboard_size: u32,
    pub inactivity_threshold: u32,
    pub vesting_period: u32,
    pub epoch_mode: bool,
    pub epoch_ledgers: u32,
    pub epoch_reward_per_epoch: i128,
    pub current_epoch: Option<EpochState>,
    pub last_recorded_wave: Option<u32>,
    pub auto_pause_threshold: i128,
}

impl Settings {
    /// The settings of a pool that was just deployed.
    pub open spec fn blank() -> Settings {
        Settings {
            admin: None,
            token: None,
            reward_token: None,
            nft_contract: None,
            slash_treasury: None,
            stopped: false,
            reward_rate_bps: 0,
            stake_decimals: 7,
            reward_decimals: 7,
            initialized_at_ledger: None,
            last_rate_change_ledger: 0,
            admin_action_count: 0,
            whitelist_enabled: false,
            kyc_required: false,
            withdrawal_limit: None,
            min_stake: 0,
            pool_cap: 0,
            max_positions: 0,
            cooldown_period: 0,
            lock_period: 0,
            early_exit_penalty_bps: 0,
            unstake_fee_bps: 0,
            restake_window: 0,
            claim_cap: 0,
            claim_cap_window: 0,
            campaign: None,
            leaderboard_size: 0,
            inactivity_threshold: 0,
            vesting_period: 0,
            epoch_mode: false,
            epoch_ledgers: 0,
            epoch_reward_per_epoch: 0,
            current_epoch: None,
            last_recorded_wave: None,
            auto_pause_threshold: 0,
        }
    }

    /// The settings of a pool that was just deployed.
    pub fn new() -> (settings: Settings)
        ensures
            settings == Settings::blank(),
    {
        Settings {
            admin: None,
            token: None,
            reward_token: None,
            nft_contract: None,
            slash_treasury: None,
            stopped: false,
            reward_rate_bps: 0,
            stake_decimals: 7,
            reward_decimals: 7,
            initialized_at_ledger: None,
            last_rate_change_ledger: 0,
            admin_action_count: 0,
            whitelist_enabled: false,
            kyc_required: false,
            withdrawal_limit: None,
            min_stake: 0,
            pool_cap: 0,
            max_positions: 0,
            cooldown_period: 0,
            lock_period: 0,
            early_exit_penalty_bps: 0,
            unstake_fee_bps: 0,
            restake_window: 0,
            claim_cap: 0,
            claim_cap_window: 0,
            campaign: None,
            leaderboard_size: 0,
            inactivity_threshold: 0,
            vesting_period: 0,
            epoch_mode: false,
            epoch_ledgers: 0,
            epoch_reward_per_epoch: 0,
            current_epoch: None,
            last_recorded_wave: None,
            auto_pause_threshold: 0,
        }
    }
}

/// The totals of the pool, and whether it is paused.
#[derive(Clone, Copy, Debug)]
pub struct Pool {
    pub paused: bool,
    pub total_shares: i128,
    pub total_deposited: i128,
    pub total_stakers: u32,
    pub reward_pool_balance: i128,
    pub total_rewards_paid: i128,
    pub last_updated_ledger: u32,
}

impl Pool {
    /// The totals of a pool that was just deployed.
    pub open spec fn blank() -> Pool {
        Pool {
            paused: false,
            total_shares: 0,
            total_deposited: 0,
            total_stakers: 0,
            reward_pool_balance: 0,
            total_rewards_paid: 0,
            last_updated_ledger: 0,
        }
    }

    /// The totals of a pool that was just deployed.
    pub fn new() -> (pool: Pool)
        ensures
            pool == Pool::blank(),
    {
        Pool {
            paused: false,
            total_shares: 0,
            total_deposited: 0,
            total_stakers: 0,
            reward_pool_balance: 0,
            total_rewards_paid: 0,
            last_updated_ledger: 0,
        }
    }
}

/// What the vault stores about one user, lists apart.
#[derive(Clone, Copy, Debug)]
pub struct Account {
    pub shares: i128,
    pub staked_at: Option<u32>,
    pub last_claim: u32,
    pub checkpoint: Option<u32>,
    pub accrued: i128,
    pub remainder: i128,
    pub auto_restake: bool,
    pub restaked: bool,
    pub last_unstake: Option<u32>,
    pub delegate: Option<Address>,
    pub whitelisted: bool,
    pub kyc_approved: bool,
    pub frozen_at: Option<u32>,
    pub claim_window: Option<ClaimWindow>,
    pub unbonding: Option<UnbondingPosition>,
    pub streak: Option<StakeStreak>,
    pub last_claimed_epoch: u32,
    pub total_claimed: i128,
}

impl View for Account {
    type V = Account;

    open spec fn view(&self) -> Account {
        *self
    }
}

impl Account {
    /// The account of a user of whom nothing is stored.
    pub open spec fn blank() -> Account {
        Account {
            shares: 0,
            staked_at: None,
            last_claim: 0,
            checkpoint: None,
            accrued: 0,
            remainder: 0,
            auto_restake: false,
            restaked: false,
            last_unstake: None,
            delegate: None,
            whitelisted: false,
            kyc_approved: false,
            frozen_at: None,
            claim_window: None,
            unbonding: None,
            streak: None,
            last_claimed_epoch: 0,
            total_claimed: 0,
        }
    }

    /// The account of a user of whom nothing is stored.
    pub fn new() -> (account: Account)
        ensures
            account == Account::blank(),
    {
        Account {
            shares: 0,
            staked_at: None,
            last_claim: 0,
            checkpoint: None,
            accrued: 0,
            remainder: 0,
            auto_restake: false,
            restaked: false,
            last_unstake: None,
            delegate: None,
            whitelisted: false,
            kyc_approved: false,
            frozen_at: None,
            claim_window: None,
            unbonding: None,
            streak: None,
            last_claimed_epoch: 0,
            total_claimed: 0,
        }
    }
}

} // verus!
