//! Everything the vault can answer in place of a result.
use vstd::prelude::*;

verus! {

/// The reason why a call was refused.
#[derive(Copy, Clone, Debug, Eq, PartialEq, PartialOrd, Ord, Structural)]
pub enum VaultError {
    /// Returned by initialize-dependent getters and stake/unstake flows when
    /// the admin, token, or other required contract state has not been stored yet.
    NotInitialized,
    /// Returned by initialize() when the vault has already been initialized.
    AlreadyInitialized,
    /// Returned where the user whose call it is, or the admin, did not authorise
    /// it, and by `rescue_token()` / `slash()` when the supplied admin address
    /// does not match the stored admin.
    Unauthorized,
    /// Returned by staking, unstaking, and amount-setting calls when a
    /// caller supplies zero or a negative amount where that is not allowed.
    ZeroAmount,
    /// Returned by `withdraw()`, `unstake()`, and `unstake_all()` when the
    /// caller tries to burn more shares than they own.
    InsufficientShares,
    /// Returned by staking, unstaking, and admin-yield entrypoints that require
    /// the pool to be unpaused.
    VaultPaused,
    /// Reserved for token-validation failures during initialization or future
    /// token checks; no current public function returns this variant.
    InvalidToken,
    /// Returned by staking, unstaking, claim, slash, preview, and reward math
    /// helpers when checked arithmetic or share conversion fails.
    ArithmeticError,
    /// Returned by `withdraw()`, `unstake()`, and `unstake_all()` when the
    /// requested share amount exceeds the configured per-transaction limit.
    WithdrawalLimitExceeded,
    /// Returned by `set_early_exit_penalty_bps()` when the admin sets a value
    /// above the supported cap.
    InvalidPenaltyBps,
    /// Returned by `deposit()`, `stake()`, and `stake_for()` when the resulting
    /// position would fall below the configured minimum stake.
    BelowMinimumStake,
    /// Returned by `set_boost_schedule()` when more than five boost tiers are
    /// supplied.
    TooManyBoostTiers,
    /// Returned by `set_boost_schedule()` when a tier multiplier is below the
    /// base rate or the tier ledgers are not strictly increasing.
    InvalidBoostSchedule,
    /// Returned by `claim()`, `stake_and_claim()`, and `claim_epoch_rewards()`
    /// when the reward pool does not hold enough tokens to pay the claim.
    InsufficientRewardPool,
    /// Returned by `revoke_delegate()` when the caller revokes the wrong
    /// delegate, and by `stake_for()` when the caller is not the approved
    /// delegate for the beneficiary.
    NotADelegate,
    /// Returned by `rescue_token()` when the admin tries to rescue the stake
    /// token itself.
    CannotRescueStakeToken,
    /// Returned by `rescue_token()` when the admin tries to rescue the
    /// registered reward token.
    CannotRescueRewardToken,
    /// Returned by position-dependent flows such as `unstake_all()`,
    /// `claimable_since()`, `position_age_ledgers()`, `time_since_last_claim()`,
    /// `request_unstake()`, `execute_unstake()`, `slash()`, `transfer_position()`,
    /// `merge_positions()`, and `flag_frozen()` when the user has no active
    /// stake or unbonding position.
    PositionNotFound,
    /// Returned by `deposit()`, `stake()`, `stake_for()`, and `stake_and_claim()`
    /// when whitelist enforcement is enabled and the staker or beneficiary is
    /// not approved.
    NotWhitelisted,
    /// Returned by `withdraw()` and `unstake()` when cooldown is enabled, and
    /// by `execute_unstake()` when the cooldown has not finished yet.
    UseCooldownFlow,
    /// Returned by `set_unstake_fee_bps()` when the fee exceeds 500 bps (5%).
    UnstakeFeeTooHigh,
    /// Returned by `batch_position_query()` when more than 20 addresses are supplied.
    BatchTooLarge,
    /// Reserved for aggregate-claim or staker-count limit checks; no current
    /// public function returns this variant.
    TooManyStakers,
    /// Returned by `transfer_position()` when the recipient already has an
    /// active staking position.
    RecipientAlreadyStaking,
    /// Returned by `start_boost_campaign()` when a boost campaign is already active.
    CampaignAlreadyActive,
    /// Returned by `end_boost_campaign()` when there is no active boost campaign
    /// to cancel.
    NoCampaignActive,
    /// Returned by `set_leaderboard_size()` when the requested leaderboard cap
    /// exceeds 20.
    LeaderboardSizeTooLarge,
    /// Returned by `view_all_positions()` when `page_size` is 0 or greater than 20.
    PageSizeTooLarge,
    /// Returned by staking entrypoints when KYC enforcement is enabled and the
    /// staker or beneficiary is not approved.
    KycNotApproved,
    /// Returned by `deposit()`, `stake()`, `stake_for()`, `stake_and_claim()`,
    /// `pause()`, and `unpause()` after `emergency_stop()` has permanently
    /// stopped the contract.
    ContractStopped,
    /// Returned by staking entrypoints when the new deposit would exceed the
    /// configured pool cap.
    PoolCapReached,
    /// Returned by `set_pool_description()` when the description exceeds 200
    /// characters.
    DescriptionTooLong,
    /// Returned by `record_wave_activity()` when the supplied wave id is not
    /// greater than the last recorded wave.
    NonMonotonicWaveId,
    /// Returned by `record_wave_activity()` when more than 50 active users are
    /// supplied in one call.
    TooManyActiveUsers,
    /// Returned by `initialize()` when the admin or token address is invalid
    /// for this contract, such as matching the contract's own address.
    InvalidAddress,
    /// Returned by `initialize()` and `set_reward_rate_bps()` when the reward
    /// APR exceeds the configured cap.
    RateTooHigh,
    /// Returned by staking entrypoints when the user already holds the
    /// configured maximum number of active positions.
    MaxPositionsReached,
    /// Returned by `set_max_positions_per_user()` when the requested cap exceeds 10.
    MaxPositionsTooHigh,
    /// Reserved for future bulk-KYC updates; no current public function returns
    /// this variant.
    BatchKycTooLarge,
    /// Returned by `position_value_in_reward_token()` when the supplied rate is 0.
    InvalidRate,
    /// Returned by epoch-mode entrypoints when the contract is in the wrong mode.
    EpochModeConflict,
    /// Returned when a vesting queue already holds the maximum supported entries.
    VestingQueueFull,
    /// Returned when a vesting withdrawal is requested but nothing has matured yet.
    NothingToWithdraw,
    /// Returned when an epoch cannot be finalized because the configured window has not elapsed.
    EpochNotFinalized,
    /// Reserved for relayers that a user did not approve; no current public
    /// function returns this variant.
    RelayerNotApproved,
    /// Reserved for yield sources that are not on a whitelist; no current public
    /// function returns this variant.
    NotYieldSource,
    /// Reserved for rewards of a yield source that are not positive; no current
    /// public function returns this variant.
    InvalidRewardAmount,
    /// Reserved for pool names of more than 50 characters; no current public
    /// function returns this variant.
    NameTooLong,
}

impl VaultError {
    /// The number under which the contract reports the error.
    pub open spec fn number(self) -> u32 {
        match self {
            VaultError::NotInitialized => 1,
            VaultError::AlreadyInitialized => 2,
            VaultError::Unauthorized => 3,
            VaultError::ZeroAmount => 4,
            VaultError::InsufficientShares => 5,
            VaultError::VaultPaused => 6,
            VaultError::InvalidToken => 7,
            VaultError::ArithmeticError => 8,
            VaultError::WithdrawalLimitExceeded => 9,
            VaultError::InvalidPenaltyBps => 10,
            VaultError::BelowMinimumStake => 11,
            VaultError::TooManyBoostTiers => 12,
            VaultError::InvalidBoostSchedule => 13,
            VaultError::InsufficientRewardPool => 14,
            VaultError::NotADelegate => 15,
            VaultError::CannotRescueStakeToken => 16,
            VaultError::CannotRescueRewardToken => 17,
            VaultError::PositionNotFound => 18,
            VaultError::NotWhitelisted => 19,
            VaultError::UseCooldownFlow => 20,
            VaultError::UnstakeFeeTooHigh => 21,
            VaultError::BatchTooLarge => 22,
            VaultError::TooManyStakers => 23,
            VaultError::RecipientAlreadyStaking => 24,
            VaultError::CampaignAlreadyActive => 25,
            VaultError::NoCampaignActive => 26,
            VaultError::LeaderboardSizeTooLarge => 27,
            VaultError::PageSizeTooLarge => 28,
            VaultError::KycNotApproved => 29,
            VaultError::ContractStopped => 30,
            VaultError::PoolCapReached => 31,
            VaultError::DescriptionTooLong => 32,
            VaultError::NonMonotonicWaveId => 33,
            VaultError::TooManyActiveUsers => 34,
            VaultError::InvalidAddress => 35,
            VaultError::RateTooHigh => 36,
            VaultError::MaxPositionsReached => 37,
            VaultError::MaxPositionsTooHigh => 38,
            VaultError::BatchKycTooLarge => 39,
            VaultError::InvalidRate => 40,
            VaultError::EpochModeConflict => 41,
            VaultError::VestingQueueFull => 42,
            VaultError::NothingToWithdraw => 43,
            VaultError::EpochNotFinalized => 44,
            VaultError::RelayerNotApproved => 41,
            VaultError::NotYieldSource => 42,
            VaultError::InvalidRewardAmount => 43,
            VaultError::NameTooLong => 45,
        }
    }

    /// The number under which the contract reports the error. A few late additions share
    /// their number with an earlier error.
    pub fn code(&self) -> (number: u32)
        ensures
            number == self.number(),
    {
        match self {
            VaultError::NotInitialized => 1,
            VaultError::AlreadyInitialized => 2,
            VaultError::Unauthorized => 3,
            VaultError::ZeroAmount => 4,
            VaultError::InsufficientShares => 5,
            VaultError::VaultPaused => 6,
            VaultError::InvalidToken => 7,
            VaultError::ArithmeticError => 8,
            VaultError::WithdrawalLimitExceeded => 9,
            VaultError::InvalidPenaltyBps => 10,
            VaultError::BelowMinimumStake => 11,
            VaultError::TooManyBoostTiers => 12,
            VaultError::InvalidBoostSchedule => 13,
            VaultError::InsufficientRewardPool => 14,
            VaultError::NotADelegate => 15,
            VaultError::CannotRescueStakeToken => 16,
            VaultError::CannotRescueRewardToken => 17,
            VaultError::PositionNotFound => 18,
            VaultError::NotWhitelisted => 19,
            VaultError::UseCooldownFlow => 20,
            VaultError::UnstakeFeeTooHigh => 21,
            VaultError::BatchTooLarge => 22,
            VaultError::TooManyStakers => 23,
            VaultError::RecipientAlreadyStaking => 24,
            VaultError::CampaignAlreadyActive => 25,
            VaultError::NoCampaignActive => 26,
            VaultError::LeaderboardSizeTooLarge => 27,
            VaultError::PageSizeTooLarge => 28,
            VaultError::KycNotApproved => 29,
            VaultError::ContractStopped => 30,
            VaultError::PoolCapReached => 31,
            VaultError::DescriptionTooLong => 32,
            VaultError::NonMonotonicWaveId => 33,
            VaultError::TooManyActiveUsers => 34,
            VaultError::InvalidAddress => 35,
            VaultError::RateTooHigh => 36,
            VaultError::MaxPositionsReached => 37,
            VaultError::MaxPositionsTooHigh => 38,
            VaultError::BatchKycTooLarge => 39,
            VaultError::InvalidRate => 40,
            VaultError::EpochModeConflict => 41,
            VaultError::VestingQueueFull => 42,
            VaultError::NothingToWithdraw => 43,
            VaultError::EpochNotFinalized => 44,
            VaultError::RelayerNotApproved => 41,
            VaultError::NotYieldSource => 42,
            VaultError::InvalidRewardAmount => 43,
            VaultError::NameTooLong => 45,
        }
    }
}

} // verus!
