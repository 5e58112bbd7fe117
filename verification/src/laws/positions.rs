//! Positions that change hands, unbond, vest or are slashed.
use crate::address::Address;
use crate::env::{Effect, State};
use crate::errors::VaultError;
use crate::storage::VestingEntry;
use vstd::prelude::*;

verus! {

/// A transfer moves the whole position and its lock-up timer and leaves the totals alone. The
/// sender keeps their rewards, settled up to now; the receiver starts without any.
pub proof fn a_transfer_moves_the_position(state: State, from: Address, to: Address)
    requires
        state.balanced(),
    ensures
        state.transfer_position(from, to) matches Ok(next) ==> {
            let settled = state.accrue(from, state.account(from).shares)->Ok_0;
            &&& from != to
            &&& next.account(to).shares == state.account(from).shares
            &&& next.account(from).shares == 0
            &&& next.account(to).staked_at == Some(state.staked_since(from))
            &&& next.account(from).staked_at is None
            &&& next.account(from).accrued == settled.account(from).accrued
            &&& next.account(to).accrued == 0
            &&& next.account(to).checkpoint == Some(state.sequence)
            &&& next.pool == state.pool
        },
{
    crate::laws::books::nobody_holds_more_than_all(state, from);
    crate::laws::books::nobody_holds_more_than_all(state, to);
    crate::laws::books::settling_keeps_the_books(state, from);
}

/// A transfer with rewards moves what was accrued too, and the receiver goes on to accrue from
/// where the sender was settled: now and at every later ledger they have pending what the sender
/// would have had.
pub proof fn a_transfer_with_rewards_moves_all(
    state: State,
    from: Address,
    to: Address,
    later: u32,
    signers: Seq<Address>,
)
    requires
        state.balanced(),
        state.registered(),
    ensures
        state.transfer_position_with_rewards(from, to) matches Ok(next) ==> {
            &&& from != to
            &&& next.account(to).shares == state.account(from).shares
            &&& next.account(from).shares == 0
            &&& next.account(to).staked_at == Some(state.staked_since(from))
            &&& next.account(to).accrued == state.account(from).accrued
            &&& next.account(from).accrued == 0
            &&& next.account(to).checkpoint == Some(state.settled_until(from))
            &&& next.account(to).last_claim == state.account(from).last_claim
            &&& next.account(to).remainder == state.account(from).remainder
            &&& next.account(from).remainder == 0
            &&& next.pending_reward(to) == state.pending_reward(from)
            &&& next.pending_reward(from) == Ok::<i128, VaultError>(0i128)
            &&& next.at(later, signers).pending_reward(to) == state.at(
                later,
                signers,
            ).pending_reward(from)
            &&& next.pool == state.pool
        },
{
    assert(state.enlisted(from));
    crate::laws::books::nobody_holds_more_than_all(state, from);
    crate::laws::books::nobody_holds_more_than_all(state, to);
}

/// A slash takes no more than it is told to and no more than there is; it goes off what is
/// deposited, and the user loses what they accrued.
pub proof fn a_slash_takes_what_it_says(
    state: State,
    admin_addr: Address,
    user: Address,
    amount: i128,
)
    requires
        state.balanced(),
    ensures
        state.slash(admin_addr, user, amount) matches Ok((next, taken)) ==> {
            &&& 0 < taken <= amount
            &&& state.worth(state.account(user).shares) matches Some(position) && taken <= position
            &&& next.pool.total_deposited == state.pool.total_deposited - taken
            &&& next.account(user).shares <= state.account(user).shares
            &&& next.account(user).accrued == 0
            &&& next.pending_reward(user) == Ok::<i128, VaultError>(0i128)
        },
{
    let shares = state.account(user).shares;
    crate::laws::books::nobody_holds_more_than_all(state, user);
    if let Ok((next, taken)) = state.slash(admin_addr, user, amount) {
        let position = state.worth(shares)->Some_0;
        let (t, d, s) = (
            state.pool.total_shares as int,
            state.pool.total_deposited as int,
            shares as int,
        );
        assert(s * d >= 0) by (nonlinear_arith)
            requires
                s >= 0,
                d >= 0,
        ;
        assert(position >= 0) by (nonlinear_arith)
            requires
                position == (s * d) / t,
                s * d >= 0,
                t > 0,
        ;
        let actual = crate::math::smaller(amount as int, position as int) as i128;
        crate::laws::books::shares_for_an_amount(state, user, actual);
        assert(next.account(user).checkpoint == Some(state.sequence));
        assert(next.sequence == state.sequence);
    }
}

/// What has unbonded is paid once.
pub proof fn what_unbonded_is_paid_once(state: State, user: Address)
    ensures
        state.execute_unstake(user) matches Ok((next, paid)) ==> {
            &&& state.account(user).unbonding matches Some(position) && paid == position.amount
            &&& next.execute_unstake(user) == Err::<(State, i128), VaultError>(
                VaultError::PositionNotFound,
            )
        },
{
}

/// The cooldown is waited for: what was asked for, together with what was unbonding already, is
/// paid once the cooldown has passed, and not before. Without a cooldown it is paid at once.
pub proof fn the_cooldown_is_waited_for(
    state: State,
    user: Address,
    amount: i128,
    later: u32,
    signers: Seq<Address>,
)
    requires
        state.settings.token is Some,
        signers.contains(user),
    ensures
        state.request_unstake(user, amount) matches Ok(next) ==> {
            let due = crate::math::ledger_after(state.sequence, state.settings.cooldown_period);
            let then = next.at(later, signers);
            if state.settings.cooldown_period == 0 {
                &&& next.account(user).unbonding is None
                &&& next.effects.len() > 0
                &&& next.effects.last() matches Effect::Transfer { token, from, to, amount: paid }
                &&& state.settings.token == Some(token)
                &&& from == state.contract
                &&& to == user
                &&& paid - state.unbonding_amount(user) == state.pool.total_deposited
                    - next.pool.total_deposited
            } else if later < due {
                then.execute_unstake(user) == Err::<(State, i128), VaultError>(
                    VaultError::UseCooldownFlow,
                )
            } else {
                then.execute_unstake(user) matches Ok((_, paid)) && paid == next.unbonding_amount(
                    user,
                ) && paid - state.unbonding_amount(user) == state.pool.total_deposited
                    - next.pool.total_deposited
            }
        },
{
}

/// The sum of a list of entries.
pub open spec fn amounts(entries: Seq<VestingEntry>) -> int
    decreases entries.len(),
{
    if entries.len() == 0 {
        0
    } else {
        amounts(entries.drop_last()) + entries.last().amount
    }
}

/// What has vested and what has not are all that there was: nothing is lost on the way.
pub proof fn vested_and_unvested_are_all(entries: Seq<VestingEntry>, ledger: u32)
    ensures
        crate::claims::matured(entries, ledger) matches Some(total) ==> total + amounts(
            crate::claims::unripe(entries, ledger),
        ) == amounts(entries),
    decreases entries.len(),
{
    reveal(Seq::filter);
    if entries.len() > 0 {
        vested_and_unvested_are_all(entries.drop_last(), ledger);
        let before = crate::claims::unripe(entries.drop_last(), ledger);
        assert(before.push(entries.last()).drop_last() =~= before);
    }
}

proof fn lemma_unripe(entries: Seq<VestingEntry>, ledger: u32)
    ensures
        crate::claims::matured(crate::claims::unripe(entries, ledger), ledger) == Some(0i128),
    decreases entries.len(),
{
    reveal(Seq::filter);
    if entries.len() > 0 {
        lemma_unripe(entries.drop_last(), ledger);
        let before = crate::claims::unripe(entries.drop_last(), ledger);
        assert(before.push(entries.last()).drop_last() =~= before);
    }
}

/// What has vested is paid once.
pub proof fn what_vested_is_paid_once(state: State, user: Address)
    ensures
        state.withdraw_vested(user) matches Ok((next, _)) ==> {
            &&& next.withdraw_vested(user) == Err::<(State, i128), VaultError>(
                VaultError::NothingToWithdraw,
            )
            &&& next.vesting_of(user) == crate::claims::unripe(
                state.vesting_of(user),
                state.sequence,
            )
        },
{
    lemma_unripe(state.vesting_of(user), state.sequence);
}

/// A reward that is claimed while rewards vest is paid by the vesting queue, whole, once the
/// vesting period has passed: it is the last entry of the queue.
pub proof fn a_vesting_reward_is_queued(state: State, user: Address, reward: i128)
    requires
        state.settings.vesting_period > 0,
    ensures
        state.deliver(user, reward) matches Ok(next) ==> {
            let queue = next.vesting_of(user);
            &&& queue.len() == state.vesting_of(user).len() + 1
            &&& queue.len() <= crate::claims::MAX_VESTING_ENTRIES
            &&& queue.last().amount == reward
            &&& queue.last().claimable_at_ledger == crate::math::ledger_after(
                state.sequence,
                state.settings.vesting_period,
            )
            &&& next.effects == state.effects
        },
{
}

} // verus!
