//! What the pool publishes, and one function for each thing that it can publish.
use crate::address::Address;
use crate::env::Env;
use crate::storage::AdminAction;
use vstd::prelude::*;

verus! {

/// What an admin action carries with it.
#[derive(Clone, Copy, Debug, PartialEq, Eq, Structural)]
pub enum ActionDetails {
    Nothing,
    Rates { old_rate: u32, new_rate: u32 },
    Number { number: u32 },
    Amount { amount: i128 },
    Whom { address: Address },
    Rescue { token: Address, amount: i128, recipient: Address },
}

/// Something that the pool publishes. `ledger` is the ledger at which it happened.
#[derive(Clone, Debug)]
pub enum Event {
    /// Tokens came in and shares were minted for them.
    Deposit { depositor: Address, amount: i128, shares_minted: i128, ledger: u32 },
    /// Shares were burned and tokens went back.
    Withdraw { withdrawer: Address, shares_burned: i128, amount_returned: i128, ledger: u32 },
    /// The admin paused the pool.
    Paused { admin: Address, ledger: u32 },
    /// The admin resumed the pool.
    Unpaused { admin: Address, ledger: u32 },
    /// Yield was put into the pool.
    YieldAdded { admin: Address, amount: i128, ledger: u32 },
    /// The admin role went to another address.
    AdminChanged { old_admin: Address, new_admin: Address, ledger: u32 },
    /// The withdrawal limit was set.
    WithdrawalLimitUpdated { admin: Address, new_limit: i128, ledger: u32 },
    /// The reward rate was set.
    RateChanged { old_rate_bps: u32, new_rate_bps: u32, ledger: u32 },
    /// The cap on deposits was set.
    PoolCapUpdated { admin: Address, new_cap: i128, ledger: u32 },
    /// A user without a position staked.
    PositionOpened { user: Address, amount: i128, ledger: u32 },
    /// A user's position came to nothing.
    PositionClosed { user: Address, ledger: u32 },
    /// Tokens that do not belong to the pool were sent on.
    TokenRescued { token: Address, amount: i128, recipient: Address, ledger: u32 },
    /// An entry of the audit log of admin actions.
    AdminActed { action: AdminAction, actor: Address, details: ActionDetails, ledger: u32 },
    /// A part of a user's stake was taken.
    Slash { admin: Address, user: Address, amount: i128, ledger: u32 },
    /// A position went to another user; the rewards stayed.
    PositionTransferred { from: Address, to: Address, amount: i128, ledger: u32 },
    /// A position went to another user together with its rewards. The estimate is for information:
    /// nothing is settled.
    PositionTransferredWithRewards {
        from: Address,
        to: Address,
        amount: i128,
        pending_reward_estimate: i128,
        ledger: u32,
    },
    /// A boost campaign began.
    CampaignStarted { admin: Address, multiplier_bps: u32, ends_at_ledger: u32, ledger: u32 },
    /// A boost campaign was cancelled.
    CampaignEnded { admin: Address, ledger: u32 },
    /// Accrued rewards were compounded into the stake.
    AutoRestaked { user: Address, amount: i128, ledger: u32 },
    /// The pool paused itself because its reward funding had dropped too low.
    AutoPaused { reward_balance: i128, threshold: i128, ledger: u32 },
    /// A user claimed rewards.
    Claimed { user: Address, reward: i128, ledger: u32 },
    /// A pool was set up.
    PoolInitialized {
        admin: Address,
        stake_token: Address,
        reward_token: Address,
        reward_rate_bps: u32,
    },
    /// A position was flagged as frozen.
    FrozenPosition { admin: Address, user: Address, frozen_at: u32, ledger: u32 },
    /// The pool was stopped for good: it takes no stake any more.
    Stopped { admin: Address, ledger: u32 },
    /// The description of the pool was set.
    DescriptionUpdated { admin: Address, description: String, ledger: u32 },
    /// A user merged their positions.
    PositionsMerged { user: Address, count_merged: u32, total_amount: i128, ledger: u32 },
    /// A user approved a relayer.
    RelayerApproved { user: Address, relayer: Address, ledger: u32 },
    /// A user revoked a relayer.
    RelayerRevoked { user: Address, relayer: Address, ledger: u32 },
    /// A relayer claimed rewards for a user.
    ClaimedOnBehalf { relayer: Address, user: Address, reward: i128, ledger: u32 },
    /// A yield source brought rewards.
    RewardAdded { source: Address, amount: i128, ledger: u32 },
    /// An address became a yield source.
    YieldSourceAdded { admin: Address, source: Address, ledger: u32 },
    /// An address is a yield source no more.
    YieldSourceRemoved { admin: Address, source: Address, ledger: u32 },
}

impl Event {
    /// The name under which the event is published.
    pub open spec fn name(self) -> Seq<char> {
        match self {
            Event::Deposit { .. } => "deposit"@,
            Event::Withdraw { .. } => "withdraw"@,
            Event::Paused { .. } => "paused"@,
            Event::Unpaused { .. } => "unpaused"@,
            Event::YieldAdded { .. } => "yield_add"@,
            Event::AdminChanged { .. } => "admin_set"@,
            Event::WithdrawalLimitUpdated { .. } => "wd_limit"@,
            Event::RateChanged { .. } => "rate_chg"@,
            Event::PoolCapUpdated { .. } => "cap_upd"@,
            Event::PositionOpened { .. } => "pos_open"@,
            Event::PositionClosed { .. } => "pos_clos"@,
            Event::TokenRescued { .. } => "tk_rescue"@,
            Event::AdminActed { .. } => "adm_act"@,
            Event::Slash { .. } => "slash"@,
            Event::PositionTransferred { .. } => "pos_xfer"@,
            Event::PositionTransferredWithRewards { .. } => "pos_xf_rw"@,
            Event::CampaignStarted { .. } => "camp_on"@,
            Event::CampaignEnded { .. } => "camp_off"@,
            Event::AutoRestaked { .. } => "auto_rst"@,
            Event::AutoPaused { .. } => "auto_ps"@,
            Event::Claimed { .. } => "claimed"@,
            Event::PoolInitialized { .. } => "init"@,
            Event::FrozenPosition { .. } => "frz_pos"@,
            Event::Stopped { .. } => "stopped"@,
            Event::DescriptionUpdated { .. } => "desc_upd"@,
            Event::PositionsMerged { .. } => "merge"@,
            Event::RelayerApproved { .. } => "rlyr_set"@,
            Event::RelayerRevoked { .. } => "rlyr_rev"@,
            Event::ClaimedOnBehalf { .. } => "claimed"@,
            Event::RewardAdded { .. } => "rwd_add"@,
            Event::YieldSourceAdded { .. } => "ys_add"@,
            Event::YieldSourceRemoved { .. } => "ys_rem"@,
        }
    }

    /// The address under which the event is published, where it has one.
    pub open spec fn about(self) -> Option<Address> {
        match self {
            Event::Deposit { depositor, .. } => Some(depositor),
            Event::Withdraw { withdrawer, .. } => Some(withdrawer),
            Event::Paused { admin, .. } => Some(admin),
            Event::Unpaused { admin, .. } => Some(admin),
            Event::YieldAdded { admin, .. } => Some(admin),
            Event::AdminChanged { old_admin, .. } => Some(old_admin),
            Event::WithdrawalLimitUpdated { admin, .. } => Some(admin),
            Event::RateChanged { .. } => None,
            Event::PoolCapUpdated { admin, .. } => Some(admin),
            Event::PositionOpened { user, .. } => Some(user),
            Event::PositionClosed { user, .. } => Some(user),
            Event::TokenRescued { .. } => None,
            Event::AdminActed { .. } => None,
            Event::Slash { admin, .. } => Some(admin),
            Event::PositionTransferred { from, .. } => Some(from),
            Event::PositionTransferredWithRewards { from, .. } => Some(from),
            Event::CampaignStarted { admin, .. } => Some(admin),
            Event::CampaignEnded { admin, .. } => Some(admin),
            Event::AutoRestaked { user, .. } => Some(user),
            Event::AutoPaused { .. } => None,
            Event::Claimed { user, .. } => Some(user),
            Event::PoolInitialized { .. } => None,
            Event::FrozenPosition { admin, .. } => Some(admin),
            Event::Stopped { admin, .. } => Some(admin),
            Event::DescriptionUpdated { admin, .. } => Some(admin),
            Event::PositionsMerged { user, .. } => Some(user),
            Event::RelayerApproved { user, .. } => Some(user),
            Event::RelayerRevoked { user, .. } => Some(user),
            Event::ClaimedOnBehalf { user, .. } => Some(user),
            Event::RewardAdded { source, .. } => Some(source),
            Event::YieldSourceAdded { admin, .. } => Some(admin),
            Event::YieldSourceRemoved { admin, .. } => Some(admin),
        }
    }

    /// The name under which the event is published.
    pub fn topic(&self) -> (topic: &'static str)
        ensures
            topic@ == self.name(),
    {
        match self {
            Event::Deposit { .. } => "deposit",
            Event::Withdraw { .. } => "withdraw",
            Event::Paused { .. } => "paused",
            Event::Unpaused { .. } => "unpaused",
            Event::YieldAdded { .. } => "yield_add",
            Event::AdminChanged { .. } => "admin_set",
            Event::WithdrawalLimitUpdated { .. } => "wd_limit",
            Event::RateChanged { .. } => "rate_chg",
            Event::PoolCapUpdated { .. } => "cap_upd",
            Event::PositionOpened { .. } => "pos_open",
            Event::PositionClosed { .. } => "pos_clos",
            Event::TokenRescued { .. } => "tk_rescue",
            Event::AdminActed { .. } => "adm_act",
            Event::Slash { .. } => "slash",
            Event::PositionTransferred { .. } => "pos_xfer",
            Event::PositionTransferredWithRewards { .. } => "pos_xf_rw",
            Event::CampaignStarted { .. } => "camp_on",
            Event::CampaignEnded { .. } => "camp_off",
            Event::AutoRestaked { .. } => "auto_rst",
            Event::AutoPaused { .. } => "auto_ps",
            Event::Claimed { .. } => "claimed",
            Event::PoolInitialized { .. } => "init",
            Event::FrozenPosition { .. } => "frz_pos",
            Event::Stopped { .. } => "stopped",
            Event::DescriptionUpdated { .. } => "desc_upd",
            Event::PositionsMerged { .. } => "merge",
            Event::RelayerApproved { .. } => "rlyr_set",
            Event::RelayerRevoked { .. } => "rlyr_rev",
            Event::ClaimedOnBehalf { .. } => "claimed",
            Event::RewardAdded { .. } => "rwd_add",
            Event::YieldSourceAdded { .. } => "ys_add",
            Event::YieldSourceRemoved { .. } => "ys_rem",
        }
    }

    /// The address under which the event is published, where it has one.
    pub fn subject(&self) -> (subject: Option<Address>)
        ensures
            subject == self.about(),
    {
        match self {
            Event::Deposit { depositor, .. } => Some(*depositor),
            Event::Withdraw { withdrawer, .. } => Some(*withdrawer),
            Event::Paused { admin, .. } => Some(*admin),
            Event::Unpaused { admin, .. } => Some(*admin),
            Event::YieldAdded { admin, .. } => Some(*admin),
            Event::AdminChanged { old_admin, .. } => Some(*old_admin),
            Event::WithdrawalLimitUpdated { admin, .. } => Some(*admin),
            Event::RateChanged { .. } => None,
            Event::PoolCapUpdated { admin, .. } => Some(*admin),
            Event::PositionOpened { user, .. } => Some(*user),
            Event::PositionClosed { user, .. } => Some(*user),
            Event::TokenRescued { .. } => None,
            Event::AdminActed { .. } => None,
            Event::Slash { admin, .. } => Some(*admin),
            Event::PositionTransferred { from, .. } => Some(*from),
            Event::PositionTransferredWithRewards { from, .. } => Some(*from),
            Event::CampaignStarted { admin, .. } => Some(*admin),
            Event::CampaignEnded { admin, .. } => Some(*admin),
            Event::AutoRestaked { user, .. } => Some(*user),
            Event::AutoPaused { .. } => None,
            Event::Claimed { user, .. } => Some(*user),
            Event::PoolInitialized { .. } => None,
            Event::FrozenPosition { admin, .. } => Some(*admin),
            Event::Stopped { admin, .. } => Some(*admin),
            Event::DescriptionUpdated { admin, .. } => Some(*admin),
            Event::PositionsMerged { user, .. } => Some(*user),
            Event::RelayerApproved { user, .. } => Some(*user),
            Event::RelayerRevoked { user, .. } => Some(*user),
            Event::ClaimedOnBehalf { user, .. } => Some(*user),
            Event::RewardAdded { source, .. } => Some(*source),
            Event::YieldSourceAdded { admin, .. } => Some(*admin),
            Event::YieldSourceRemoved { admin, .. } => Some(*admin),
        }
    }
}

/// Publishes: tokens came in and shares were minted for them.
pub fn deposit(env: &mut Env, depositor: &Address, amount: i128, shares_minted: i128, ledger: u32)
    ensures
        final(env)@ == old(env)@.publish(
            (Event::Deposit { depositor: *depositor, amount, shares_minted, ledger }),
        ),
{
    let event = Event::Deposit { depositor: *depositor, amount, shares_minted, ledger };
    env.publish(event);
}

/// Publishes: shares were burned and tokens went back.
pub fn withdraw(
    env: &mut Env,
    withdrawer: &Address,
    shares_burned: i128,
    amount_returned: i128,
    ledger: u32,
)
    ensures
        final(env)@ == old(env)@.publish(
            (Event::Withdraw { withdrawer: *withdrawer, shares_burned, amount_returned, ledger }),
        ),
{
    let event = Event::Withdraw { withdrawer: *withdrawer, shares_burned, amount_returned, ledger };
    env.publish(event);
}

/// Publishes: the admin paused the pool.
pub fn paused(env: &mut Env, admin: &Address, ledger: u32)
    ensures
        final(env)@ == old(env)@.publish(
            (Event::Paused { admin: *admin, ledger }),
        ),
{
    let event = Event::Paused { admin: *admin, ledger };
    env.publish(event);
}

/// Publishes: the admin resumed the pool.
pub fn unpaused(env: &mut Env, admin: &Address, ledger: u32)
    ensures
        final(env)@ == old(env)@.publish(
            (Event::Unpaused { admin: *admin, ledger }),
        ),
{
    let event = Event::Unpaused { admin: *admin, ledger };
    env.publish(event);
}

/// Publishes: yield was put into the pool.
pub fn yield_added(env: &mut Env, admin: &Address, amount: i128)
    ensures
        final(env)@ == old(env)@.publish(
            (Event::YieldAdded { admin: *admin, amount, ledger: old(env)@.sequence }),
        ),
{
    let event = Event::YieldAdded { admin: *admin, amount, ledger: env.sequence };
    env.publish(event);
}

/// Publishes: the admin role went to another address.
pub fn admin_changed(env: &mut Env, old_admin: &Address, new_admin: &Address)
    ensures
        final(env)@ == old(env)@.publish(
            (Event::AdminChanged {
                old_admin: *old_admin,
                new_admin: *new_admin,
                ledger: old(env)@.sequence,
            }),
        ),
{
    let event = Event::AdminChanged {
        old_admin: *old_admin,
        new_admin: *new_admin,
        ledger: env.sequence,
    };
    env.publish(event);
}

/// Publishes: the withdrawal limit was set.
pub fn withdrawal_limit_updated(env: &mut Env, admin: &Address, new_limit: i128)
    ensures
        final(env)@ == old(env)@.publish(
            (Event::WithdrawalLimitUpdated {
                admin: *admin,
                new_limit,
                ledger: old(env)@.sequence,
            }),
        ),
{
    let event = Event::WithdrawalLimitUpdated { admin: *admin, new_limit, ledger: env.sequence };
    env.publish(event);
}

/// Publishes: the reward rate was set.
pub fn rate_changed(env: &mut Env, old_rate_bps: u32, new_rate_bps: u32)
    ensures
        final(env)@ == old(env)@.publish(
            (Event::RateChanged { old_rate_bps, new_rate_bps, ledger: old(env)@.sequence }),
        ),
{
    let event = Event::RateChanged { old_rate_bps, new_rate_bps, ledger: env.sequence };
    env.publish(event);
}

/// Publishes: the cap on deposits was set.
pub fn pool_cap_updated(env: &mut Env, admin: &Address, new_cap: i128)
    ensures
        final(env)@ == old(env)@.publish(
            (Event::PoolCapUpdated { admin: *admin, new_cap, ledger: old(env)@.sequence }),
        ),
{
    let event = Event::PoolCapUpdated { admin: *admin, new_cap, ledger: env.sequence };
    env.publish(event);
}

/// Publishes: a user without a position staked.
pub fn position_opened(env: &mut Env, user: &Address, amount: i128)
    ensures
        final(env)@ == old(env)@.publish(
            (Event::PositionOpened { user: *user, amount, ledger: old(env)@.sequence }),
        ),
{
    let event = Event::PositionOpened { user: *user, amount, ledger: env.sequence };
    env.publish(event);
}

/// Publishes: a user's position came to nothing.
pub fn position_closed(env: &mut Env, user: &Address)
    ensures
        final(env)@ == old(env)@.publish(
            (Event::PositionClosed { user: *user, ledger: old(env)@.sequence }),
        ),
{
    let event = Event::PositionClosed { user: *user, ledger: env.sequence };
    env.publish(event);
}

/// Publishes: tokens that do not belong to the pool were sent on.
pub fn token_rescued(env: &mut Env, token: &Address, amount: i128, recipient: &Address)
    ensures
        final(env)@ == old(env)@.publish(
            (Event::TokenRescued {
                token: *token,
                amount,
                recipient: *recipient,
                ledger: old(env)@.sequence,
            }),
        ),
{
    let event = Event::TokenRescued {
        token: *token,
        amount,
        recipient: *recipient,
        ledger: env.sequence,
    };
    env.publish(event);
}

/// Records an admin action: `SetRewardRate`.
pub fn admin_action_set_reward_rate(env: &mut Env, actor: &Address, old_rate: u32, new_rate: u32)
    ensures
        final(env)@ == old(env)@.admin_acted(
            AdminAction::SetRewardRate,
            *actor,
            (ActionDetails::Rates { old_rate, new_rate }),
        ),
{
    let details = ActionDetails::Rates { old_rate, new_rate };
    env.admin_acted(AdminAction::SetRewardRate, *actor, details);
}

/// Records an admin action: `Pause`.
pub fn admin_action_pause(env: &mut Env, actor: &Address)
    ensures
        final(env)@ == old(env)@.admin_acted(AdminAction::Pause, *actor, ActionDetails::Nothing),
{
    env.admin_acted(AdminAction::Pause, *actor, ActionDetails::Nothing);
}

/// Records an admin action: `Unpause`.
pub fn admin_action_unpause(env: &mut Env, actor: &Address)
    ensures
        final(env)@ == old(env)@.admin_acted(AdminAction::Unpause, *actor, ActionDetails::Nothing),
{
    env.admin_acted(AdminAction::Unpause, *actor, ActionDetails::Nothing);
}

/// Records an admin action: `TransferAdmin`.
pub fn admin_action_transfer_admin(env: &mut Env, actor: &Address, new_admin: &Address)
    ensures
        final(env)@ == old(env)@.admin_acted(
            AdminAction::TransferAdmin,
            *actor,
            (ActionDetails::Whom { address: *new_admin }),
        ),
{
    let details = ActionDetails::Whom { address: *new_admin };
    env.admin_acted(AdminAction::TransferAdmin, *actor, details);
}

/// Records an admin action: `SetLockPeriod`.
pub fn admin_action_set_lock_period(env: &mut Env, actor: &Address, new_ledgers: u32)
    ensures
        final(env)@ == old(env)@.admin_acted(
            AdminAction::SetLockPeriod,
            *actor,
            (ActionDetails::Number { number: new_ledgers }),
        ),
{
    let details = ActionDetails::Number { number: new_ledgers };
    env.admin_acted(AdminAction::SetLockPeriod, *actor, details);
}

/// Records an admin action: `SetCap`.
pub fn admin_action_set_cap(env: &mut Env, actor: &Address, new_limit: i128)
    ensures
        final(env)@ == old(env)@.admin_acted(
            AdminAction::SetCap,
            *actor,
            (ActionDetails::Amount { amount: new_limit }),
        ),
{
    env.admin_acted(AdminAction::SetCap, *actor, ActionDetails::Amount { amount: new_limit });
}

/// Records an admin action: `RescueToken`.
pub fn admin_action_rescue_token(
    env: &mut Env,
    actor: &Address,
    token: &Address,
    amount: i128,
    recipient: &Address,
)
    ensures
        final(env)@ == old(env)@.admin_acted(
            AdminAction::RescueToken,
            *actor,
            (ActionDetails::Rescue { token: *token, amount, recipient: *recipient }),
        ),
{
    let details = ActionDetails::Rescue { token: *token, amount, recipient: *recipient };
    env.admin_acted(AdminAction::RescueToken, *actor, details);
}

/// Records an admin action: `SetEarlyExitPenalty`.
pub fn admin_action_set_early_exit_penalty(env: &mut Env, actor: &Address, new_bps: u32)
    ensures
        final(env)@ == old(env)@.admin_acted(
            AdminAction::SetEarlyExitPenalty,
            *actor,
            (ActionDetails::Number { number: new_bps }),
        ),
{
    let details = ActionDetails::Number { number: new_bps };
    env.admin_acted(AdminAction::SetEarlyExitPenalty, *actor, details);
}

/// Records an admin action: `SetMinStake`.
pub fn admin_action_set_min_stake(env: &mut Env, actor: &Address, new_amount: i128)
    ensures
        final(env)@ == old(env)@.admin_acted(
            AdminAction::SetMinStake,
            *actor,
            (ActionDetails::Amount { amount: new_amount }),
        ),
{
    env.admin_acted(AdminAction::SetMinStake, *actor, ActionDetails::Amount { amount: new_amount });
}

/// Records an admin action: `FundRewardPool`.
pub fn admin_action_fund_reward_pool(env: &mut Env, actor: &Address, amount: i128)
    ensures
        final(env)@ == old(env)@.admin_acted(
            AdminAction::FundRewardPool,
            *actor,
            (ActionDetails::Amount { amount }),
        ),
{
    env.admin_acted(AdminAction::FundRewardPool, *actor, ActionDetails::Amount { amount });
}

/// Records an admin action: `AddYield`.
pub fn admin_action_add_yield(env: &mut Env, actor: &Address, amount: i128)
    ensures
        final(env)@ == old(env)@.admin_acted(
            AdminAction::AddYield,
            *actor,
            (ActionDetails::Amount { amount }),
        ),
{
    env.admin_acted(AdminAction::AddYield, *actor, ActionDetails::Amount { amount });
}

/// Records an admin action: `SetBoostSchedule`.
pub fn admin_action_set_boost_schedule(env: &mut Env, actor: &Address, num_tiers: u32)
    ensures
        final(env)@ == old(env)@.admin_acted(
            AdminAction::SetBoostSchedule,
            *actor,
            (ActionDetails::Number { number: num_tiers }),
        ),
{
    let details = ActionDetails::Number { number: num_tiers };
    env.admin_acted(AdminAction::SetBoostSchedule, *actor, details);
}

/// Records an admin action: `SetNftContract`.
pub fn admin_action_set_nft_contract(env: &mut Env, actor: &Address, nft_addr: &Address)
    ensures
        final(env)@ == old(env)@.admin_acted(
            AdminAction::SetNftContract,
            *actor,
            (ActionDetails::Whom { address: *nft_addr }),
        ),
{
    let details = ActionDetails::Whom { address: *nft_addr };
    env.admin_acted(AdminAction::SetNftContract, *actor, details);
}

/// Records an admin action: `SetRestakeWindow`.
pub fn admin_action_set_restake_window(env: &mut Env, actor: &Address, window: u32)
    ensures
        final(env)@ == old(env)@.admin_acted(
            AdminAction::SetRestakeWindow,
            *actor,
            (ActionDetails::Number { number: window }),
        ),
{
    let details = ActionDetails::Number { number: window };
    env.admin_acted(AdminAction::SetRestakeWindow, *actor, details);
}

/// Records an admin action: `SetRewardToken`.
pub fn admin_action_set_reward_token(env: &mut Env, actor: &Address, token: &Address)
    ensures
        final(env)@ == old(env)@.admin_acted(
            AdminAction::SetRewardToken,
            *actor,
            (ActionDetails::Whom { address: *token }),
        ),
{
    env.admin_acted(AdminAction::SetRewardToken, *actor, ActionDetails::Whom { address: *token });
}

/// Publishes: a part of a user's stake was taken.
pub fn slash(env: &mut Env, admin: &Address, user: &Address, amount: i128)
    ensures
        final(env)@ == old(env)@.publish(
            (Event::Slash { admin: *admin, user: *user, amount, ledger: old(env)@.sequence }),
        ),
{
    let event = Event::Slash { admin: *admin, user: *user, amount, ledger: env.sequence };
    env.publish(event);
}

/// Publishes: a position went to another user; the rewards stayed.
pub fn position_transferred(env: &mut Env, from: &Address, to: &Address, amount: i128)
    ensures
        final(env)@ == old(env)@.publish(
            (Event::PositionTransferred {
                from: *from,
                to: *to,
                amount,
                ledger: old(env)@.sequence,
            }),
        ),
{
    let event = Event::PositionTransferred { from: *from, to: *to, amount, ledger: env.sequence };
    env.publish(event);
}

/// Publishes: a position went to another user together with its rewards. The estimate is for
/// information: nothing is settled.
pub fn position_transferred_with_rewards(
    env: &mut Env,
    from: &Address,
    to: &Address,
    amount: i128,
    pending_reward_estimate: i128,
    ledger: u32,
)
    ensures
        final(env)@ == old(env)@.publish(
            (Event::PositionTransferredWithRewards {
                from: *from,
                to: *to,
                amount,
                pending_reward_estimate,
                ledger,
            }),
        ),
{
    let event = Event::PositionTransferredWithRewards {
        from: *from,
        to: *to,
        amount,
        pending_reward_estimate,
        ledger,
    };
    env.publish(event);
}

/// Publishes: a boost campaign began.
pub fn campaign_started(env: &mut Env, admin: &Address, multiplier_bps: u32, ends_at_ledger: u32)
    ensures
        final(env)@ == old(env)@.publish(
            (Event::CampaignStarted {
                admin: *admin,
                multiplier_bps,
                ends_at_ledger,
                ledger: old(env)@.sequence,
            }),
        ),
{
    let event = Event::CampaignStarted {
        admin: *admin,
        multiplier_bps,
        ends_at_ledger,
        ledger: env.sequence,
    };
    env.publish(event);
}

/// Publishes: a boost campaign was cancelled.
pub fn campaign_ended(env: &mut Env, admin: &Address)
    ensures
        final(env)@ == old(env)@.publish(
            (Event::CampaignEnded { admin: *admin, ledger: old(env)@.sequence }),
        ),
{
    let event = Event::CampaignEnded { admin: *admin, ledger: env.sequence };
    env.publish(event);
}

/// Publishes: accrued rewards were compounded into the stake.
pub fn auto_restaked(env: &mut Env, user: &Address, amount: i128)
    ensures
        final(env)@ == old(env)@.publish(
            (Event::AutoRestaked { user: *user, amount, ledger: old(env)@.sequence }),
        ),
{
    let event = Event::AutoRestaked { user: *user, amount, ledger: env.sequence };
    env.publish(event);
}

/// Publishes: the pool paused itself because its reward funding had dropped too low.
pub fn auto_paused(env: &mut Env, reward_balance: i128, threshold: i128)
    ensures
        final(env)@ == old(env)@.publish(
            (Event::AutoPaused { reward_balance, threshold, ledger: old(env)@.sequence }),
        ),
{
    let event = Event::AutoPaused { reward_balance, threshold, ledger: env.sequence };
    env.publish(event);
}

/// Publishes: a user claimed rewards.
pub fn claimed(env: &mut Env, user: &Address, reward: i128, ledger: u32)
    ensures
        final(env)@ == old(env)@.publish(
            (Event::Claimed { user: *user, reward, ledger }),
        ),
{
    let event = Event::Claimed { user: *user, reward, ledger };
    env.publish(event);
}

/// Publishes: a pool was set up.
pub fn pool_initialized(
    env: &mut Env,
    admin: &Address,
    stake_token: &Address,
    reward_token: &Address,
    reward_rate_bps: u32,
)
    ensures
        final(env)@ == old(env)@.publish(
            (Event::PoolInitialized {
                admin: *admin,
                stake_token: *stake_token,
                reward_token: *reward_token,
                reward_rate_bps,
            }),
        ),
{
    let event = Event::PoolInitialized {
        admin: *admin,
        stake_token: *stake_token,
        reward_token: *reward_token,
        reward_rate_bps,
    };
    env.publish(event);
}

/// Publishes: a position was flagged as frozen.
pub fn frozen_position(env: &mut Env, admin: &Address, user: &Address, frozen_at: u32)
    ensures
        final(env)@ == old(env)@.publish(
            (Event::FrozenPosition {
                admin: *admin,
                user: *user,
                frozen_at,
                ledger: old(env)@.sequence,
            }),
        ),
{
    let event = Event::FrozenPosition {
        admin: *admin,
        user: *user,
        frozen_at,
        ledger: env.sequence,
    };
    env.publish(event);
}

/// Publishes: the pool was stopped for good: it takes no stake any more.
pub fn stopped(env: &mut Env, admin: &Address)
    ensures
        final(env)@ == old(env)@.publish(
            (Event::Stopped { admin: *admin, ledger: old(env)@.sequence }),
        ),
{
    let event = Event::Stopped { admin: *admin, ledger: env.sequence };
    env.publish(event);
}

/// Publishes: the description of the pool was set.
pub fn description_updated(env: &mut Env, admin: &Address, description: &String)
    ensures
        final(env)@ == old(env)@.publish(
            (Event::DescriptionUpdated {
                admin: *admin,
                description: *description,
                ledger: old(env)@.sequence,
            }),
        ),
{
    let event = Event::DescriptionUpdated {
        admin: *admin,
        description: description.clone(),
        ledger: env.sequence,
    };
    env.publish(event);
}

/// Publishes: a user merged their positions.
pub fn positions_merged(env: &mut Env, user: &Address, count_merged: u32, total_amount: i128)
    ensures
        final(env)@ == old(env)@.publish(
            (Event::PositionsMerged {
                user: *user,
                count_merged,
                total_amount,
                ledger: old(env)@.sequence,
            }),
        ),
{
    let event = Event::PositionsMerged {
        user: *user,
        count_merged,
        total_amount,
        ledger: env.sequence,
    };
    env.publish(event);
}

/// Publishes: a user approved a relayer.
pub fn relayer_approved(env: &mut Env, user: &Address, relayer: &Address)
    ensures
        final(env)@ == old(env)@.publish(
            (Event::RelayerApproved { user: *user, relayer: *relayer, ledger: old(env)@.sequence }),
        ),
{
    let event = Event::RelayerApproved { user: *user, relayer: *relayer, ledger: env.sequence };
    env.publish(event);
}

/// Publishes: a user revoked a relayer.
pub fn relayer_revoked(env: &mut Env, user: &Address, relayer: &Address)
    ensures
        final(env)@ == old(env)@.publish(
            (Event::RelayerRevoked { user: *user, relayer: *relayer, ledger: old(env)@.sequence }),
        ),
{
    let event = Event::RelayerRevoked { user: *user, relayer: *relayer, ledger: env.sequence };
    env.publish(event);
}

/// Publishes: a relayer claimed rewards for a user.
pub fn claimed_on_behalf(env: &mut Env, relayer: &Address, user: &Address, reward: i128)
    ensures
        final(env)@ == old(env)@.publish(
            (Event::ClaimedOnBehalf {
                relayer: *relayer,
                user: *user,
                reward,
                ledger: old(env)@.sequence,
            }),
        ),
{
    let event = Event::ClaimedOnBehalf {
        relayer: *relayer,
        user: *user,
        reward,
        ledger: env.sequence,
    };
    env.publish(event);
}

/// Publishes: a yield source brought rewards.
pub fn reward_added(env: &mut Env, source: &Address, amount: i128)
    ensures
        final(env)@ == old(env)@.publish(
            (Event::RewardAdded { source: *source, amount, ledger: old(env)@.sequence }),
        ),
{
    let event = Event::RewardAdded { source: *source, amount, ledger: env.sequence };
    env.publish(event);
}

/// Publishes: an address became a yield source.
pub fn yield_source_added(env: &mut Env, admin: &Address, source: &Address)
    ensures
        final(env)@ == old(env)@.publish(
            (Event::YieldSourceAdded {
                admin: *admin,
                source: *source,
                ledger: old(env)@.sequence,
            }),
        ),
{
    let event = Event::YieldSourceAdded { admin: *admin, source: *source, ledger: env.sequence };
    env.publish(event);
}

/// Publishes: an address is a yield source no more.
pub fn yield_source_removed(env: &mut Env, admin: &Address, source: &Address)
    ensures
        final(env)@ == old(env)@.publish(
            (Event::YieldSourceRemoved {
                admin: *admin,
                source: *source,
                ledger: old(env)@.sequence,
            }),
        ),
{
    let event = Event::YieldSourceRemoved { admin: *admin, source: *source, ledger: env.sequence };
    env.publish(event);
}

} // verus!
