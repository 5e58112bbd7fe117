//! What the admin sets is set, to what they say, and nothing else changes with it.
use crate::address::Address;
use crate::calls::{AdminCall, Call, MarkCall, PlanCall, SettingCall};
use crate::env::{Effect, State};
use crate::errors::VaultError;
use crate::events::{ActionDetails, Event};
use crate::laws::amounts::{lemma_all_transfers, transfers};
use crate::storage::{
    Account, AdminAction, CampaignInfo, ChangeType, ChangelogEntry, Pool, RateHistoryEntry,
    Settings, TotalStakedSnapshot, VestingEntry,
};
use vstd::prelude::*;

verus! {

impl State {
    /// The admin authorised the call.
    pub open spec fn admin_signed(self) -> bool {
        self.settings.admin matches Some(admin) && self.signers.contains(admin)
    }

    /// All that is stored about users and all totals are the same.
    pub open spec fn same_users(self, other: State) -> bool {
        &&& self.accounts == other.accounts
        &&& self.pool == other.pool
        &&& self.votes == other.votes
        &&& self.stake_log == other.stake_log
        &&& self.vesting == other.vesting
        &&& self.stakers == other.stakers
        &&& self.epoch_stakes == other.epoch_stakes
        &&& self.epoch_factors == other.epoch_factors
        &&& self.sequence == other.sequence
        &&& self.contract == other.contract
        &&& transfers(self.effects) == transfers(other.effects)
    }

    /// All lists that the pool keeps are the same.
    pub open spec fn same_lists(self, other: State) -> bool {
        &&& self.rate_history == other.rate_history
        &&& self.reward_rate_history == other.reward_rate_history
        &&& self.boost_schedule == other.boost_schedule
        &&& self.changelog == other.changelog
        &&& self.leaderboard == other.leaderboard
        &&& self.snapshots == other.snapshots
        &&& self.description == other.description
    }
}

/// A call of the admin came out with `settings`, told what it did, and changed nothing else.
pub open spec fn only_set(
    state: State,
    r: Result<State, VaultError>,
    settings: Settings,
    told: Seq<Effect>,
    counts: bool,
) -> bool {
    r matches Ok(next) && {
        &&& next.settings == (Settings {
            admin_action_count: next.settings.admin_action_count,
            ..settings
        })
        &&& counted(state, next, counts)
        &&& next.effects =~= state.effects + told
        &&& next.same_users(state)
        &&& next.same_lists(state)
    }
}

/// One more action of the admin was counted, where it counts. The count stops at its largest
/// number.
pub open spec fn counted(state: State, next: State, counts: bool) -> bool {
    let (was, is) = (state.settings.admin_action_count, next.settings.admin_action_count);
    if counts && was < u32::MAX {
        is == was + 1
    } else {
        is == was
    }
}

/// The audit log is told of an action of the admin.
pub open spec fn acted(state: State, action: AdminAction, details: ActionDetails) -> Effect {
    Effect::Publish(
        Event::AdminActed {
            action,
            actor: state.settings.admin->Some_0,
            details,
            ledger: state.sequence,
        },
    )
}

/// `set_slash_treasury` sets what it says.
pub proof fn set_slash_treasury_sets_it(state: State, to: Address)
    requires
        state.admin_signed(),
    ensures
        only_set(
            state,
            state.step(Call::Setting(SettingCall::SetSlashTreasury { treasury: to })),
            (Settings { slash_treasury: Some(to), ..state.settings }),
            seq![],
            false,
        ),
{
    reveal(State::setting_step);
    lemma_all_transfers();
}

/// `set_whitelist_enabled` sets what it says.
pub proof fn set_whitelist_enabled_sets_it(state: State, flag: bool)
    requires
        state.admin_signed(),
    ensures
        only_set(
            state,
            state.step(Call::Setting(SettingCall::SetWhitelistEnabled { enabled: flag })),
            (Settings { whitelist_enabled: flag, ..state.settings }),
            seq![],
            false,
        ),
{
    reveal(State::setting_step);
    lemma_all_transfers();
}

/// `set_kyc_required` sets what it says.
pub proof fn set_kyc_required_sets_it(state: State, flag: bool)
    requires
        state.admin_signed(),
    ensures
        only_set(
            state,
            state.step(Call::Setting(SettingCall::SetKycRequired { required: flag })),
            (Settings { kyc_required: flag, ..state.settings }),
            seq![],
            false,
        ),
{
    reveal(State::setting_step);
    lemma_all_transfers();
}

/// `set_withdrawal_limit` sets what it says, within its limits.
pub proof fn set_withdrawal_limit_sets_it(state: State, amount: i128)
    requires
        state.admin_signed(),
    ensures
        amount > 0 ==> only_set(
            state,
            state.step(Call::Setting(SettingCall::SetWithdrawalLimit { limit: amount })),
            (Settings { withdrawal_limit: Some(amount), ..state.settings }),
            seq![
                Effect::Publish(
                    Event::WithdrawalLimitUpdated {
                        admin: state.settings.admin->Some_0,
                        new_limit: amount,
                        ledger: state.sequence,
                    },
                ),
                acted(state, AdminAction::SetCap, ActionDetails::Amount { amount }),
            ],
            true,
        ),
        amount <= 0 ==> state.step(
            Call::Setting(SettingCall::SetWithdrawalLimit { limit: amount }),
        ) == Err::<State, VaultError>(VaultError::ZeroAmount),
{
    reveal(State::setting_step);
    lemma_all_transfers();
}

/// `set_cooldown_period` sets what it says.
pub proof fn set_cooldown_period_sets_it(state: State, n: u32)
    requires
        state.admin_signed(),
    ensures
        only_set(
            state,
            state.step(Call::Setting(SettingCall::SetCooldownPeriod { ledgers: n })),
            (Settings { cooldown_period: n, ..state.settings }),
            seq![],
            false,
        ),
{
    reveal(State::setting_step);
    lemma_all_transfers();
}

/// `set_lock_period` sets what it says.
pub proof fn set_lock_period_sets_it(state: State, n: u32)
    requires
        state.admin_signed(),
    ensures
        only_set(
            state,
            state.step(Call::Setting(SettingCall::SetLockPeriod { ledgers: n })),
            (Settings { lock_period: n, ..state.settings }),
            seq![
                acted(state, AdminAction::SetLockPeriod, ActionDetails::Number { number: n }),
            ],
            true,
        ),
{
    reveal(State::setting_step);
    lemma_all_transfers();
}

/// `set_early_exit_penalty_bps` sets what it says, within its limits.
pub proof fn set_early_exit_penalty_bps_sets_it(state: State, n: u32)
    requires
        state.admin_signed(),
    ensures
        n <= 2_000 ==> only_set(
            state,
            state.step(Call::Setting(SettingCall::SetEarlyExitPenaltyBps { bps: n })),
            (Settings { early_exit_penalty_bps: n, ..state.settings }),
            seq![
                acted(state, AdminAction::SetEarlyExitPenalty, ActionDetails::Number { number: n }),
            ],
            true,
        ),
        n > 2_000 ==> state.step(
            Call::Setting(SettingCall::SetEarlyExitPenaltyBps { bps: n }),
        ) == Err::<State, VaultError>(VaultError::InvalidPenaltyBps),
{
    reveal(State::setting_step);
    lemma_all_transfers();
}

/// `set_unstake_fee_bps` sets what it says, within its limits.
pub proof fn set_unstake_fee_bps_sets_it(state: State, n: u32)
    requires
        state.admin_signed(),
    ensures
        n <= 500 ==> only_set(
            state,
            state.step(Call::Setting(SettingCall::SetUnstakeFeeBps { bps: n })),
            (Settings { unstake_fee_bps: n, ..state.settings }),
            seq![],
            false,
        ),
        n > 500 ==> state.step(
            Call::Setting(SettingCall::SetUnstakeFeeBps { bps: n }),
        ) == Err::<State, VaultError>(VaultError::UnstakeFeeTooHigh),
{
    reveal(State::setting_step);
    lemma_all_transfers();
}

/// `set_min_stake` sets what it says, within its limits.
pub proof fn set_min_stake_sets_it(state: State, amount: i128)
    requires
        state.admin_signed(),
    ensures
        amount >= 0 ==> only_set(
            state,
            state.step(Call::Setting(SettingCall::SetMinStake { amount })),
            (Settings { min_stake: amount, ..state.settings }),
            seq![acted(state, AdminAction::SetMinStake, ActionDetails::Amount { amount })],
            true,
        ),
        amount < 0 ==> state.step(
            Call::Setting(SettingCall::SetMinStake { amount }),
        ) == Err::<State, VaultError>(VaultError::ZeroAmount),
{
    reveal(State::setting_step);
    lemma_all_transfers();
}

/// `set_pool_cap` sets what it says, within its limits.
pub proof fn set_pool_cap_sets_it(state: State, amount: i128)
    requires
        state.admin_signed(),
    ensures
        amount >= 0 ==> only_set(
            state,
            state.step(Call::Setting(SettingCall::SetPoolCap { cap: amount })),
            (Settings { pool_cap: amount, ..state.settings }),
            seq![
                Effect::Publish(
                    Event::PoolCapUpdated {
                        admin: state.settings.admin->Some_0,
                        new_cap: amount,
                        ledger: state.sequence,
                    },
                ),
            ],
            false,
        ),
        amount < 0 ==> state.step(
            Call::Setting(SettingCall::SetPoolCap { cap: amount }),
        ) == Err::<State, VaultError>(VaultError::ZeroAmount),
{
    reveal(State::setting_step);
    lemma_all_transfers();
}

/// `set_claim_cap` sets what it says, within its limits.
pub proof fn set_claim_cap_sets_it(state: State, amount: i128, n: u32)
    requires
        state.admin_signed(),
    ensures
        amount >= 0 ==> only_set(
            state,
            state.step(
                Call::Setting(SettingCall::SetClaimCap { max_amount: amount, window_ledgers: n }),
            ),
            (Settings { claim_cap: amount, claim_cap_window: n, ..state.settings }),
            seq![],
            false,
        ),
        amount < 0 ==> state.step(
            Call::Setting(SettingCall::SetClaimCap { max_amount: amount, window_ledgers: n }),
        ) == Err::<State, VaultError>(VaultError::ZeroAmount),
{
    reveal(State::setting_step);
    lemma_all_transfers();
}

/// `set_reward_token` sets what it says.
pub proof fn set_reward_token_sets_it(state: State, to: Address)
    requires
        state.admin_signed(),
    ensures
        only_set(
            state,
            state.step(Call::Setting(SettingCall::SetRewardToken { token: to })),
            (Settings { reward_token: Some(to), ..state.settings }),
            seq![
                acted(state, AdminAction::SetRewardToken, ActionDetails::Whom { address: to }),
            ],
            true,
        ),
{
    reveal(State::setting_step);
    lemma_all_transfers();
}

/// `set_nft_contract` sets what it says.
pub proof fn set_nft_contract_sets_it(state: State, to: Address)
    requires
        state.admin_signed(),
    ensures
        only_set(
            state,
            state.step(Call::Setting(SettingCall::SetNftContract { nft: to })),
            (Settings { nft_contract: Some(to), ..state.settings }),
            seq![
                acted(state, AdminAction::SetNftContract, ActionDetails::Whom { address: to }),
            ],
            true,
        ),
{
    reveal(State::setting_step);
    lemma_all_transfers();
}

/// `set_restake_window` sets what it says.
pub proof fn set_restake_window_sets_it(state: State, n: u32)
    requires
        state.admin_signed(),
    ensures
        only_set(
            state,
            state.step(Call::Setting(SettingCall::SetRestakeWindow { ledgers: n })),
            (Settings { restake_window: n, ..state.settings }),
            seq![
                acted(state, AdminAction::SetRestakeWindow, ActionDetails::Number { number: n }),
            ],
            true,
        ),
{
    reveal(State::setting_step);
    lemma_all_transfers();
}

/// `set_max_positions_per_user` sets what it says, within its limits.
pub proof fn set_max_positions_per_user_sets_it(state: State, n: u32)
    requires
        state.admin_signed(),
    ensures
        n <= 10 ==> only_set(
            state,
            state.step(Call::Setting(SettingCall::SetMaxPositionsPerUser { max: n })),
            (Settings { max_positions: n, ..state.settings }),
            seq![],
            false,
        ),
        n > 10 ==> state.step(
            Call::Setting(SettingCall::SetMaxPositionsPerUser { max: n }),
        ) == Err::<State, VaultError>(VaultError::MaxPositionsTooHigh),
{
    reveal(State::setting_step);
    lemma_all_transfers();
}

/// `set_inactivity_threshold` sets what it says.
pub proof fn set_inactivity_threshold_sets_it(state: State, n: u32)
    requires
        state.admin_signed(),
    ensures
        only_set(
            state,
            state.step(Call::Setting(SettingCall::SetInactivityThreshold { ledgers: n })),
            (Settings { inactivity_threshold: n, ..state.settings }),
            seq![],
            false,
        ),
{
    reveal(State::setting_step);
    lemma_all_transfers();
}

/// `set_vesting_period` sets what it says.
pub proof fn set_vesting_period_sets_it(state: State, n: u32)
    requires
        state.admin_signed(),
    ensures
        only_set(
            state,
            state.step(Call::Setting(SettingCall::SetVestingPeriod { ledgers: n })),
            (Settings { vesting_period: n, ..state.settings }),
            seq![],
            false,
        ),
{
    reveal(State::setting_step);
    lemma_all_transfers();
}

/// `set_reward_rate_bps` sets the rate and remembers the old one, in both histories and in the
/// changelog. A rate above 100% is refused, and so is one beside epochs.
pub proof fn set_reward_rate_sets_it(state: State, rate_bps: u32)
    requires
        state.admin_signed(),
    ensures
        rate_bps <= 10_000 && (!state.settings.epoch_mode || rate_bps == 0) ==> (state.step(
            Call::Plan(PlanCall::SetRewardRateBps { rate_bps }),
        ) matches Ok(next) && {
            let old = state.settings.reward_rate_bps;
            &&& next.settings == (Settings {
                reward_rate_bps: rate_bps,
                last_rate_change_ledger: state.sequence,
                admin_action_count: next.settings.admin_action_count,
                ..state.settings
            })
            &&& next.same_users(state)
            &&& next.boost_schedule == state.boost_schedule
            &&& next.leaderboard == state.leaderboard
            &&& next.snapshots == state.snapshots
            &&& counted(state, next, true)
            &&& next.effects == state.effects + seq![
                Effect::Publish(
                    Event::RateChanged {
                        old_rate_bps: old,
                        new_rate_bps: rate_bps,
                        ledger: state.sequence,
                    },
                ),
                acted(
                    state,
                    AdminAction::SetRewardRate,
                    ActionDetails::Rates { old_rate: old, new_rate: rate_bps },
                ),
            ]
            &&& added(next.rate_history, state.rate_history, (state.sequence, old), 50)
            &&& added(
                next.reward_rate_history,
                state.reward_rate_history,
                (RateHistoryEntry {
                    old_rate_bps: old as i128,
                    new_rate_bps: rate_bps as i128,
                    changed_at_ledger: state.sequence,
                    changed_by: state.settings.admin->Some_0,
                }),
                20,
            )
            &&& added(
                next.changelog,
                state.changelog,
                (ChangelogEntry {
                    change_type: ChangeType::RateChanged,
                    old_value: old as i128,
                    new_value: rate_bps as i128,
                }),
                10,
            )
        }),
        rate_bps > 10_000 || (state.settings.epoch_mode && rate_bps > 0) ==> state.step(
            Call::Plan(PlanCall::SetRewardRateBps { rate_bps }),
        ) is Err,
{
    reveal(State::plan_step);
    lemma_all_transfers();
}

/// An item came to the end of a list, and the oldest ones went where there are more than `n`.
pub open spec fn added<T>(after: Seq<T>, before: Seq<T>, item: T, n: int) -> bool {
    &&& before.len() < n ==> after.len() == before.len() + 1
    &&& before.len() >= n ==> after.len() == n
    &&& after.last() == item
    &&& forall|k: int|
        1 <= k < after.len() ==> #[trigger] after[after.len() - 1 - k] == before[before.len() - k]
}

/// `set_boost_schedule` takes up to five tiers, each of which begins later than the one before and
/// raises the rate or leaves it.
pub proof fn set_boost_schedule_sets_it(state: State, tiers: Seq<(u32, u32)>)
    requires
        state.admin_signed(),
    ensures
        ({
            let call = Call::Plan(PlanCall::SetBoostSchedule { tiers });
            let fine = tiers.len() <= 5 && (forall|i: int|
                0 <= i < tiers.len() ==> (#[trigger] tiers[i]).1 >= 10_000) && (forall|
                i: int,
                j: int,
            |
                0 <= i < j < tiers.len() ==> (#[trigger] tiers[i]).0 < (#[trigger] tiers[j]).0);
            &&& fine ==> (state.step(call) matches Ok(next) && {
                &&& next.boost_schedule == tiers
                &&& next.settings == (Settings {
                    admin_action_count: next.settings.admin_action_count,
                    ..state.settings
                })
                &&& next.same_users(state)
                &&& next.rate_history == state.rate_history
                &&& next.leaderboard == state.leaderboard
                &&& next.snapshots == state.snapshots
                &&& counted(state, next, true)
                &&& next.effects == state.effects.push(
                    acted(
                        state,
                        AdminAction::SetBoostSchedule,
                        ActionDetails::Number { number: tiers.len() as u32 },
                    ),
                )
            })
            &&& !fine ==> state.step(call) is Err
        }),
{
    reveal(State::plan_step);
    lemma_all_transfers();
}

/// A campaign runs for as many ledgers as it is given, from now on, and only one at a time.
pub proof fn a_campaign_runs_its_time(state: State, multiplier_bps: u32, ledgers: u32)
    requires
        state.admin_signed(),
    ensures
        ({
            let call = Call::Plan(
                PlanCall::StartBoostCampaign { multiplier_bps, duration_ledgers: ledgers },
            );
            let busy = state.settings.campaign matches Some(c) && state.sequence < c.ends_at_ledger;
            let ends = state.sequence + ledgers;
            &&& multiplier_bps >= 10_000 && ledgers > 0 && !busy ==> (state.step(call) matches Ok(
                next,
            ) && {
                &&& next.settings == (Settings {
                    campaign: Some(
                        CampaignInfo {
                            multiplier_bps,
                            starts_at_ledger: state.sequence,
                            ends_at_ledger: if ends < u32::MAX {
                                ends as u32
                            } else {
                                u32::MAX
                            },
                        },
                    ),
                    ..state.settings
                })
                &&& next.effects == state.effects.push(
                    Effect::Publish(
                        Event::CampaignStarted {
                            admin: state.settings.admin->Some_0,
                            multiplier_bps,
                            ends_at_ledger: if ends < u32::MAX {
                                ends as u32
                            } else {
                                u32::MAX
                            },
                            ledger: state.sequence,
                        },
                    ),
                )
                &&& next.same_users(state)
                &&& next.same_lists(state)
            })
            &&& multiplier_bps < 10_000 || ledgers == 0 || busy ==> state.step(call) is Err
        }),
        ({
            let call = Call::Plan(PlanCall::EndBoostCampaign);
            let runs = state.settings.campaign matches Some(c) && c.starts_at_ledger
                <= state.sequence < c.ends_at_ledger;
            &&& runs ==> (state.step(call) matches Ok(next) && {
                &&& next.settings == (Settings { campaign: None, ..state.settings })
                &&& next.effects == state.effects.push(
                    Effect::Publish(
                        Event::CampaignEnded {
                            admin: state.settings.admin->Some_0,
                            ledger: state.sequence,
                        },
                    ),
                )
                &&& next.same_users(state)
                &&& next.same_lists(state)
            })
            &&& !runs ==> state.step(call) == Err::<State, VaultError>(VaultError::NoCampaignActive)
        }),
{
    reveal(State::plan_step);
    lemma_all_transfers();
}

/// `set_leaderboard_size` sets the size and cuts a board that is longer; `take_snapshot` keeps what
/// is deposited now; `set_pool_description` keeps up to 200 characters.
pub proof fn lists_are_kept_as_set(state: State, n: u32, description: String)
    requires
        state.admin_signed(),
    ensures
        n <= 20 ==> (state.step(Call::Plan(PlanCall::SetLeaderboardSize { n })) matches Ok(
            next,
        ) && {
            &&& next.settings == (Settings { leaderboard_size: n, ..state.settings })
            &&& next.leaderboard == if state.leaderboard.len() <= n {
                state.leaderboard
            } else {
                state.leaderboard.take(n as int)
            }
            &&& next.same_users(state)
        }),
        n > 20 ==> state.step(Call::Plan(PlanCall::SetLeaderboardSize { n })) == Err::<
            State,
            VaultError,
        >(VaultError::LeaderboardSizeTooLarge),
        state.step(Call::Plan(PlanCall::TakeSnapshot)) matches Ok(next) && {
            &&& added(
                next.snapshots,
                state.snapshots,
                (TotalStakedSnapshot {
                    total_staked: state.pool.total_deposited,
                    ledger: state.sequence,
                }),
                50,
            )
            &&& next.settings == state.settings
            &&& next.same_users(state)
        },
        description@.len() <= 200 ==> (state.step(
            Call::Plan(PlanCall::SetPoolDescription { description }),
        ) matches Ok(next) && {
            &&& next.description == Some(description)
            &&& next.effects == state.effects.push(
                Effect::Publish(
                    Event::DescriptionUpdated {
                        admin: state.settings.admin->Some_0,
                        description,
                        ledger: state.sequence,
                    },
                ),
            )
            &&& next.settings == state.settings
            &&& next.same_users(state)
        }),
        description@.len() > 200 ==> state.step(
            Call::Plan(PlanCall::SetPoolDescription { description }),
        ) == Err::<State, VaultError>(VaultError::DescriptionTooLong),
{
    reveal(State::plan_step);
    lemma_all_transfers();
}

/// One account changed, to `account`, and nothing else.
pub open spec fn only_marked(
    state: State,
    r: Result<State, VaultError>,
    user: Address,
    account: Account,
) -> bool {
    r matches Ok(next) && {
        &&& next.accounts == state.accounts.insert(user, account)
        &&& next.settings == state.settings
        &&& next.pool == state.pool
        &&& next.vesting == state.vesting
        &&& next.stakers == state.stakers
        &&& transfers(next.effects) == transfers(state.effects)
        &&& next.same_lists(state)
    }
}

/// Whitelist, KYC status and frozen flag of a user are what the admin last said; a frozen flag
/// needs a position.
pub proof fn marks_are_what_was_said(state: State, user: Address, approved: bool)
    requires
        state.admin_signed(),
    ensures
        only_marked(
            state,
            state.step(Call::Mark(MarkCall::AddToWhitelist { user })),
            user,
            (Account { whitelisted: true, ..state.account(user) }),
        ),
        only_marked(
            state,
            state.step(Call::Mark(MarkCall::RemoveFromWhitelist { user })),
            user,
            (Account { whitelisted: false, ..state.account(user) }),
        ),
        only_marked(
            state,
            state.step(Call::Mark(MarkCall::SetKycStatus { user, approved })),
            user,
            (Account { kyc_approved: approved, ..state.account(user) }),
        ),
        only_marked(
            state,
            state.step(Call::Mark(MarkCall::Unfreeze { user })),
            user,
            (Account { frozen_at: None, ..state.account(user) }),
        ),
        state.account(user).shares != 0 ==> only_marked(
            state,
            state.step(Call::Mark(MarkCall::FlagFrozen { user })),
            user,
            (Account { frozen_at: Some(state.sequence), ..state.account(user) }),
        ),
        state.account(user).shares == 0 ==> state.step(Call::Mark(MarkCall::FlagFrozen { user }))
            == Err::<State, VaultError>(VaultError::PositionNotFound),
{
    reveal(State::mark_step);
    lemma_all_transfers();
}

/// `schedule_vesting` adds an entry to the end of the queue of a user, which holds ten at most.
pub proof fn a_vesting_is_scheduled(state: State, user: Address, amount: i128, ledger: u32)
    requires
        state.admin_signed(),
    ensures
        ({
            let call = Call::Mark(
                MarkCall::ScheduleVesting { user, amount, claimable_at_ledger: ledger },
            );
            let queue = state.vesting_of(user);
            &&& amount > 0 && queue.len() < 10 ==> (state.step(call) matches Ok(next) && {
                &&& next.vesting_of(user) == queue.push(
                    VestingEntry { amount, claimable_at_ledger: ledger },
                )
                &&& forall|other: Address|
                    other != user ==> #[trigger] next.vesting_of(other) == state.vesting_of(other)
                &&& next.accounts == state.accounts
                &&& next.settings == state.settings
                &&& next.pool == state.pool
                &&& next.effects == state.effects
            })
            &&& amount <= 0 ==> state.step(call) == Err::<State, VaultError>(VaultError::ZeroAmount)
            &&& amount > 0 && queue.len() >= 10 ==> state.step(call) == Err::<State, VaultError>(
                VaultError::VestingQueueFull,
            )
        }),
{
    reveal(State::mark_step);
}

/// Yield belongs to all shares: it is added to what is deposited, and no share is minted. What the
/// reward pool is funded with is added to it. Both come from whom the call names.
pub proof fn what_is_brought_is_added(state: State, from: Address, amount: i128)
    requires
        state.admin_signed(),
        state.settings.token is Some,
    ensures
        ({
            let call = Call::Admin(AdminCall::AddYield { admin_addr: from, amount });
            let fine = amount > 0 && !state.pool.paused && state.pool.total_deposited + amount
                <= i128::MAX;
            &&& fine ==> (state.step(call) matches Ok(next) && {
                &&& next.pool == (Pool {
                    total_deposited: (state.pool.total_deposited + amount) as i128,
                    ..state.pool
                })
                &&& next.accounts == state.accounts
                &&& counted(state, next, true)
                &&& next.effects == state.effects + seq![
                    Effect::Transfer {
                        token: state.settings.token->Some_0,
                        from,
                        to: state.contract,
                        amount,
                    },
                    Effect::Publish(
                        Event::YieldAdded {
                            admin: state.settings.admin->Some_0,
                            amount,
                            ledger: state.sequence,
                        },
                    ),
                    acted(state, AdminAction::AddYield, ActionDetails::Amount { amount }),
                ]
            })
            &&& amount <= 0 || state.pool.paused ==> state.step(call) is Err
        }),
        ({
            let call = Call::Admin(AdminCall::FundRewardPool { admin_addr: from, amount });
            let fine = amount > 0 && state.pool.reward_pool_balance + amount <= i128::MAX;
            &&& fine ==> (state.step(call) matches Ok(next) && {
                &&& next.pool == (Pool {
                    reward_pool_balance: (state.pool.reward_pool_balance + amount) as i128,
                    ..state.pool
                })
                &&& next.accounts == state.accounts
                &&& counted(state, next, true)
                &&& next.effects == state.effects + seq![
                    Effect::Transfer {
                        token: state.settings.token->Some_0,
                        from,
                        to: state.contract,
                        amount,
                    },
                    acted(state, AdminAction::FundRewardPool, ActionDetails::Amount { amount }),
                ]
            })
            &&& amount <= 0 ==> state.step(call) is Err
        }),
{
    reveal(State::admin_step);
    lemma_all_transfers();
}

/// Pause, resume and stop do that and no more; a stop needs no resumed pool, and after it the pool
/// can be neither paused nor resumed.
pub proof fn pause_resume_and_stop(state: State)
    requires
        state.admin_signed(),
    ensures
        ({
            let (pause, unpause, stop) = (
                Call::Admin(AdminCall::Pause),
                Call::Admin(AdminCall::Unpause),
                Call::Admin(AdminCall::EmergencyStop),
            );
            &&& !state.settings.stopped ==> (state.step(pause) matches Ok(next) && {
                &&& next.pool == (Pool {
                    paused: true,
                    last_updated_ledger: state.sequence,
                    ..state.pool
                })
                &&& next.accounts == state.accounts
                &&& next.settings == (Settings {
                    admin_action_count: next.settings.admin_action_count,
                    ..state.settings
                })
                &&& counted(state, next, true)
                &&& next.effects == state.effects + seq![
                    Effect::Publish(
                        Event::Paused {
                            admin: state.settings.admin->Some_0,
                            ledger: state.sequence,
                        },
                    ),
                    acted(state, AdminAction::Pause, ActionDetails::Nothing),
                ]
                &&& added(
                    next.changelog,
                    state.changelog,
                    (ChangelogEntry {
                        change_type: ChangeType::Paused,
                        old_value: 0,
                        new_value: 1,
                    }),
                    10,
                )
            })
            &&& !state.settings.stopped ==> (state.step(unpause) matches Ok(next) && {
                &&& next.pool == (Pool {
                    paused: false,
                    last_updated_ledger: state.sequence,
                    ..state.pool
                })
                &&& next.accounts == state.accounts
                &&& next.settings == (Settings {
                    admin_action_count: next.settings.admin_action_count,
                    ..state.settings
                })
                &&& counted(state, next, true)
                &&& next.effects == state.effects + seq![
                    Effect::Publish(
                        Event::Unpaused {
                            admin: state.settings.admin->Some_0,
                            ledger: state.sequence,
                        },
                    ),
                    acted(state, AdminAction::Unpause, ActionDetails::Nothing),
                ]
                &&& added(
                    next.changelog,
                    state.changelog,
                    (ChangelogEntry {
                        change_type: ChangeType::Unpaused,
                        old_value: 1,
                        new_value: 0,
                    }),
                    10,
                )
            })
            &&& state.settings.stopped ==> {
                &&& state.step(pause) == Err::<State, VaultError>(VaultError::ContractStopped)
                &&& state.step(unpause) == Err::<State, VaultError>(VaultError::ContractStopped)
            }
            &&& state.step(stop) matches Ok(next) && {
                &&& next.settings == (Settings { stopped: true, ..state.settings })
                &&& next.pool == state.pool
                &&& next.accounts == state.accounts
                &&& next.effects == state.effects.push(
                    Effect::Publish(
                        Event::Stopped {
                            admin: state.settings.admin->Some_0,
                            ledger: state.sequence,
                        },
                    ),
                )
            }
        }),
{
    reveal(State::admin_step);
    lemma_all_transfers();
}

/// The admin role goes to whom it is given, and from then on it is theirs alone. A token that is
/// neither staked nor a reward goes to the recipient.
pub proof fn the_role_goes_over_and_tokens_come_back(
    state: State,
    to: Address,
    token: Address,
    amount: i128,
)
    requires
        state.admin_signed(),
    ensures
        only_transferred(state, to),
        ({
            let admin = state.settings.admin->Some_0;
            let call = Call::Admin(
                AdminCall::RescueToken { admin_addr: admin, token, amount, recipient: to },
            );
            let fine = amount > 0 && state.settings.token is Some && state.settings.token != Some(
                token,
            ) && state.settings.reward_token != Some(token);
            &&& fine ==> (state.step(call) matches Ok(next) && {
                &&& counted(state, next, true)
                &&& next.effects == state.effects + seq![
                    Effect::Transfer { token, from: state.contract, to, amount },
                    Effect::Publish(
                        Event::TokenRescued {
                            token,
                            amount,
                            recipient: to,
                            ledger: state.sequence,
                        },
                    ),
                    acted(
                        state,
                        AdminAction::RescueToken,
                        ActionDetails::Rescue { token, amount, recipient: to },
                    ),
                ]
                &&& next.accounts == state.accounts
                &&& next.pool == state.pool
            })
            &&& !fine ==> state.step(call) is Err
        }),
{
    reveal(State::admin_step);
    lemma_all_transfers();
}

/// The admin role went to `to`.
pub open spec fn only_transferred(state: State, to: Address) -> bool {
    state.step(Call::Admin(AdminCall::TransferAdmin { new_admin: to })) matches Ok(next) && {
        &&& next.settings == (Settings {
            admin: Some(to),
            admin_action_count: next.settings.admin_action_count,
            ..state.settings
        })
        &&& next.accounts == state.accounts
        &&& next.pool == state.pool
        &&& counted(state, next, true)
        &&& next.effects =~= state.effects + seq![
            Effect::Publish(
                Event::AdminChanged {
                    old_admin: state.settings.admin->Some_0,
                    new_admin: to,
                    ledger: state.sequence,
                },
            ),
            acted(state, AdminAction::TransferAdmin, ActionDetails::Whom { address: to }),
        ]
        &&& added(
            next.changelog,
            state.changelog,
            (ChangelogEntry {
                change_type: ChangeType::AdminTransferred,
                old_value: 0,
                new_value: 0,
            }),
            10,
        )
    }
}

/// `initialize` sets up a pool that has no admin: with its admin, to whom slashes go too, its
/// token, its rate, and the decimals, which are 7 where none are given.
pub proof fn a_pool_is_set_up_as_told(
    state: State,
    admin: Address,
    token: Address,
    rate_bps: u32,
    stake_decimals: Option<u32>,
    reward_decimals: Option<u32>,
)
    ensures
        ({
            let r = state.initialize(admin, token, rate_bps, stake_decimals, reward_decimals);
            let fine = state.settings.admin is None && admin != state.contract && token
                != state.contract && rate_bps <= 10_000;
            &&& fine ==> (r matches Ok(next) && {
                &&& next.settings.admin == Some(admin)
                &&& next.settings.token == Some(token)
                &&& next.settings.slash_treasury == Some(admin)
                &&& next.settings.initialized_at_ledger == Some(state.sequence)
                &&& rate_bps > 0 ==> next.settings.reward_rate_bps == rate_bps
                &&& rate_bps == 0 ==> next.settings.reward_rate_bps
                    == state.settings.reward_rate_bps
                &&& next.settings.stake_decimals == match stake_decimals {
                    Some(decimals) => decimals,
                    None => 7,
                }
                &&& next.settings.reward_decimals == match reward_decimals {
                    Some(decimals) => decimals,
                    None => 7,
                }
                &&& next.pool == (Pool { paused: false, ..state.pool })
                &&& next.accounts == state.accounts
                &&& next.effects == state.effects.push(
                    Effect::Publish(
                        Event::PoolInitialized {
                            admin,
                            stake_token: token,
                            reward_token: token,
                            reward_rate_bps: rate_bps,
                        },
                    ),
                )
            })
            &&& !fine ==> r is Err
            &&& state.settings.admin is Some ==> r == Err::<State, VaultError>(
                VaultError::AlreadyInitialized,
            )
        }),
{
    lemma_all_transfers();
}

} // verus!
