//! When the pool refuses, and when it may not.
use crate::address::Address;
use crate::env::State;
use crate::errors::VaultError;
use crate::storage::UnstakeCheckResult;
use vstd::prelude::*;

verus! {

/// A stopped pool takes no stake, from nobody and in no way, and can be neither paused nor
/// resumed.
pub proof fn a_stopped_pool_takes_no_stake(
    state: State,
    user: Address,
    delegate: Address,
    amount: i128,
)
    requires
        state.settings.stopped,
    ensures
        state.stake_inner(user, amount) == Err::<(State, i128), VaultError>(
            VaultError::ContractStopped,
        ),
        state.authorized(delegate) ==> state.stake_for(delegate, user, amount) == Err::<
            (State, i128),
            VaultError,
        >(VaultError::ContractStopped),
        state.admin_refusal() is None ==> {
            &&& state.by_admin_unless(state.stop_refusal(), state.pause()) == Err::<
                State,
                VaultError,
            >(VaultError::ContractStopped)
            &&& state.by_admin_unless(state.stop_refusal(), state.unpause()) == Err::<
                State,
                VaultError,
            >(VaultError::ContractStopped)
        },
{
}

/// A paused pool takes no stake, pays no stake back and moves no position; the admin can bring
/// no yield either.
pub proof fn a_paused_pool_stands_still(
    state: State,
    user: Address,
    other: Address,
    amount: i128,
)
    requires
        state.pool.paused,
        !state.settings.stopped,
        state.authorized(user),
    ensures
        state.stake(user, amount) == Err::<(State, i128), VaultError>(VaultError::VaultPaused),
        state.stake_for(user, other, amount) == Err::<(State, i128), VaultError>(
            VaultError::VaultPaused,
        ),
        state.unstake(user, amount) == Err::<(State, i128), VaultError>(VaultError::VaultPaused),
        state.request_unstake(user, amount) == Err::<State, VaultError>(VaultError::VaultPaused),
        state.execute_unstake(user) == Err::<(State, i128), VaultError>(VaultError::VaultPaused),
        state.transfer_position(user, other) == Err::<State, VaultError>(VaultError::VaultPaused),
        state.transfer_position_with_rewards(user, other) == Err::<State, VaultError>(
            VaultError::VaultPaused,
        ),
        state.admin_refusal() is None ==> state.add_yield(user, amount) == Err::<
            State,
            VaultError,
        >(VaultError::VaultPaused),
{
}

/// A pause can be taken back: after `pause` and `unpause` the pool takes stakes as before.
pub proof fn a_pause_can_be_taken_back(state: State)
    requires
        !state.settings.stopped,
        !state.pool.paused,
    ensures
        state.pause().pool.paused,
        !state.pause().settings.stopped,
        !state.pause().unpause().pool.paused,
        state.pause().unpause().accounts == state.accounts,
        state.pause().unpause().pool.total_shares == state.pool.total_shares,
        state.pause().unpause().pool.total_deposited == state.pool.total_deposited,
{
}

/// The way out stays open: whether a user may unstake does not depend on the stop, the whitelist,
/// the KYC status or the frozen flag.
pub proof fn leaving_needs_no_approval(state: State, other: State, user: Address, shares: i128)
    requires
        state.authorized(user) == other.authorized(user),
        state.pool.paused == other.pool.paused,
        state.settings.cooldown_period == other.settings.cooldown_period,
        state.settings.withdrawal_limit == other.settings.withdrawal_limit,
        state.account(user).shares == other.account(user).shares,
    ensures
        state.unstake_refusal(user, shares) == other.unstake_refusal(user, shares),
{
}

/// Who unstakes all has no position any more.
pub proof fn a_full_exit_leaves_no_position(state: State, user: Address)
    ensures
        state.unstake_all(user) matches Ok((next, _)) ==> {
            &&& next.account(user).shares == 0
            &&& next.account(user).staked_at is None
            &&& !next.stakers.contains(user)
        },
{
    if let Ok((next, _)) = state.unstake_all(user) {
        if let Ok(settled) = state.accrue(user, state.account(user).shares) {
            if let Ok(compounded) = settled.compound(user) {
                crate::laws::registry::lemma_without(compounded.stakers, user);
                assert(next.stakers == crate::history::without(compounded.stakers, user));
            }
        }
    }
}

/// Nothing but these stands against an unstake.
pub proof fn reasons_against_an_unstake(state: State, staker: Address, shares: i128)
    ensures
        state.unstake(staker, shares) matches Err(e) ==> {
            ||| e == VaultError::Unauthorized && !state.authorized(staker)
            ||| e == VaultError::VaultPaused && state.pool.paused
            ||| e == VaultError::UseCooldownFlow && state.settings.cooldown_period > 0
            ||| e == VaultError::ZeroAmount && shares <= 0
            ||| e == VaultError::WithdrawalLimitExceeded && (state.settings.withdrawal_limit
                matches Some(limit) && shares > limit)
            ||| e == VaultError::InsufficientShares && state.account(staker).shares < shares
            ||| e == VaultError::NotInitialized && state.settings.token is None
            ||| e == VaultError::ArithmeticError
        },
{
}

/// Nor against a full exit: the withdrawal limit is held against the shares that are there before
/// rewards become shares.
pub proof fn reasons_against_a_full_exit(state: State, user: Address)
    ensures
        state.unstake_all(user) matches Err(e) ==> {
            ||| e == VaultError::PositionNotFound && state.account(user).shares == 0
            ||| e == VaultError::Unauthorized && !state.authorized(user)
            ||| e == VaultError::VaultPaused && state.pool.paused
            ||| e == VaultError::UseCooldownFlow && state.settings.cooldown_period > 0
            ||| e == VaultError::ZeroAmount && state.account(user).shares < 0
            ||| e == VaultError::WithdrawalLimitExceeded && (state.settings.withdrawal_limit
                matches Some(limit) && state.account(user).shares > limit)
            ||| e == VaultError::NotInitialized && state.settings.token is None
            ||| e == VaultError::ArithmeticError
        },
        state.settings.withdrawal_limit matches Some(limit) ==> state.account(user).shares > limit
            ==> state.unstake_all(user) is Err,
{
}

/// Nothing but these stands against a claim: it goes on while the pool is paused or stopped,
/// whoever is on the whitelist or approved.
pub proof fn reasons_against_a_claim(state: State, staker: Address)
    ensures
        state.claim(staker) matches Err(e) ==> {
            ||| e == VaultError::Unauthorized && !state.authorized(staker)
            ||| e == VaultError::EpochModeConflict && state.settings.epoch_mode
            ||| e == VaultError::InsufficientRewardPool
            ||| e == VaultError::VestingQueueFull && state.settings.vesting_period > 0
            ||| e == VaultError::NotInitialized && state.settings.token is None
            ||| e == VaultError::ArithmeticError
        },
{
}

/// The minimum, the cap and the gates of a stake are kept: whoever staked was let in.
pub proof fn a_staker_was_let_in(state: State, staker: Address, amount: i128)
    ensures
        state.stake(staker, amount) is Ok ==> {
            let account = state.account(staker);
            &&& state.authorized(staker)
            &&& !state.settings.stopped
            &&& !state.pool.paused
            &&& state.settings.whitelist_enabled ==> account.whitelisted
            &&& state.settings.kyc_required ==> account.kyc_approved
            &&& amount > 0
        },
        state.stake(staker, amount) matches Ok((next, _)) ==> state.settings.pool_cap > 0
            ==> next.pool.total_deposited <= state.settings.pool_cap,
{
}

/// A delegate brings tokens and nothing else: only the approved one may stake for a user, and
/// without the user's own authorisation nothing goes out.
pub proof fn a_delegate_can_only_stake(
    state: State,
    delegate: Address,
    beneficiary: Address,
    amount: i128,
)
    ensures
        state.stake_for(delegate, beneficiary, amount) is Ok ==> {
            &&& state.authorized(delegate)
            &&& state.account(beneficiary).delegate == Some(delegate)
        },
        !state.authorized(beneficiary) ==> {
            &&& state.unstake(beneficiary, amount) is Err
            &&& state.request_unstake(beneficiary, amount) is Err
            &&& state.execute_unstake(beneficiary) is Err
            &&& state.claim(beneficiary) is Err
            &&& state.withdraw_vested(beneficiary) is Err
        },
{
}

/// A delegate who was revoked is none.
pub proof fn a_revoked_delegate_is_none(
    state: State,
    user: Address,
    delegate: Address,
    amount: i128,
)
    ensures
        state.revoke_delegate(user, delegate) matches Ok(next) ==> {
            &&& next.account(user).delegate is None
            &&& next.stake_for(delegate, user, amount) is Err
        },
{
}

/// `can_unstake` tells the truth: a user who authorises it can unstake exactly where it answers
/// that they are ready.
pub proof fn the_ready_can_leave(state: State, user: Address, shares: i128)
    requires
        state.authorized(user),
        state.account(user).shares >= 0,
    ensures
        state.unstake_check(user, shares) == UnstakeCheckResult::Ready <==> state.unstake(
            user,
            shares,
        ) is Ok,
{
}

/// Where the pool has a threshold, too small a balance pauses it; a pool without one is left
/// alone.
pub proof fn too_small_a_reserve_pauses(state: State, reward_balance: i128)
    requires
        state.settings.token is Some,
    ensures
        state.check_auto_pause(reward_balance) matches Ok(next) && {
            &&& next.pool.paused == (state.pool.paused || (state.settings.auto_pause_threshold != 0
                && reward_balance < state.settings.auto_pause_threshold))
            &&& next.accounts == state.accounts
        },
{
}

} // verus!
