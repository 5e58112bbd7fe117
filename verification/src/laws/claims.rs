//! What a claim pays and what vests: all that is owed and fits, to whom it is owed.
use crate::address::Address;
use crate::env::{Effect, State};
use crate::errors::VaultError;
use crate::events::Event;
use crate::laws::amounts::{lemma_all_transfers, transfers};
use crate::storage::{ClaimWindow, VestingEntry};
use vstd::prelude::*;

verus! {

/// What a reward leaves of the pool: it went out at once, or into the vesting queue.
pub open spec fn delivered(before: State, after: State, user: Address, reward: i128) -> bool {
    if reward > 0 && before.settings.vesting_period == 0 {
        &&& before.settings.token matches Some(token) && transfers(after.effects) == transfers(
            before.effects,
        ).push(Effect::Transfer { token, from: before.contract, to: user, amount: reward })
        &&& after.vesting_of(user) == before.vesting_of(user)
    } else if reward > 0 {
        let due = before.sequence + before.settings.vesting_period;
        &&& transfers(after.effects) == transfers(before.effects)
        &&& after.vesting_of(user) == before.vesting_of(user).push(
            VestingEntry {
                amount: reward,
                claimable_at_ledger: if due < u32::MAX {
                    due as u32
                } else {
                    u32::MAX
                },
            },
        )
        &&& before.vesting_of(user).len() < 10
    } else {
        &&& transfers(after.effects) == transfers(before.effects)
        &&& after.vesting_of(user) == before.vesting_of(user)
    }
}

pub(crate) proof fn lemma_delivered(state: State, user: Address, reward: i128)
    requires
        reward > 0,
    ensures
        state.deliver(user, reward) matches Ok(next) ==> {
            &&& delivered(state, next, user, reward)
            &&& next.accounts == state.accounts
            &&& next.pool == state.pool
            &&& next.settings == state.settings
            &&& next.sequence == state.sequence
        },
{
    lemma_all_transfers();
}

/// A claim pays all whole tokens that the user is owed, as far as the cap leaves room in the
/// window: the window is the one in which they claimed last, until it has run out. What is paid
/// comes off the reward pool; the rest stays owed.
pub proof fn a_claim_pays_all_that_fits(state: State, user: Address)
    requires
        state.balanced(),
    ensures
        state.claim_inner(user) matches Ok((next, reward)) ==> {
            let (was, is) = (state.account(user), next.account(user));
            let cap = state.settings.claim_cap;
            let open = was.claim_window matches Some(window) && state.sequence
                <= window.window_started_at + state.settings.claim_cap_window;
            let spent = if open {
                was.claim_window->Some_0.claimed_in_window as int
            } else {
                0
            };
            &&& reward >= 0
            &&& (reward + is.accrued) * 63_072_000_000 + is.remainder == state.owed_dust(user)
            &&& is.accrued >= 0
            &&& 0 <= is.remainder < 63_072_000_000
            &&& cap == 0 ==> is.accrued == 0
            &&& cap > 0 && 0 <= spent <= cap ==> {
                &&& reward <= cap - spent
                &&& is.accrued > 0 ==> reward == cap - spent
            }
            &&& cap > 0 && spent > cap ==> reward == 0
            &&& cap > 0 && reward > 0 ==> is.claim_window == Some(
                ClaimWindow {
                    claimed_in_window: (spent + reward) as i128,
                    window_started_at: if open {
                        was.claim_window->Some_0.window_started_at
                    } else {
                        state.sequence
                    },
                },
            )
            &&& cap == 0 || reward == 0 ==> is.claim_window == was.claim_window
            &&& is.shares == was.shares
            &&& is.staked_at == was.staked_at
            &&& is.last_claim == state.sequence
            &&& next.settled_until(user) == state.sequence
            &&& is.total_claimed == was.total_claimed + reward
            &&& next.pool.reward_pool_balance == state.pool.reward_pool_balance - reward
            &&& next.pool.total_rewards_paid == state.pool.total_rewards_paid + reward
            &&& next.pool.total_shares == state.pool.total_shares
            &&& next.pool.total_deposited == state.pool.total_deposited
            &&& delivered(state, next, user, reward)
            &&& reward > 0 ==> next.effects.last() == Effect::Publish(
                Event::Claimed { user, reward, ledger: state.sequence },
            )
        },
        state.settings.epoch_mode ==> state.claim_inner(user) == Err::<(State, i128), VaultError>(
            VaultError::EpochModeConflict,
        ),
{
    crate::laws::rewards::a_settlement_owes_the_same(state, user);
    crate::laws::books::settling_keeps_the_books(state, user);
    crate::laws::books::nobody_holds_more_than_all(state, user);
    if let Ok((next, reward)) = state.claim_inner(user) {
        let settled = state.accrue(user, state.account(user).shares)->Ok_0;
        lemma_all_transfers();
        if reward > 0 {
            lemma_delivered(settled, user, reward);
            let out = settled.deliver(user, reward)->Ok_0;
            assert(next.vesting_of(user) == out.vesting_of(user));
            assert(transfers(next.effects) == transfers(out.effects));
        }
    }
}

/// A claim is what `claim` pays; besides, the reserve is looked at where something was paid.
pub proof fn a_claim_is_a_claim(state: State, user: Address)
    ensures
        state.claim(user) matches Ok((next, reward)) ==> {
            &&& state.authorized(user)
            &&& state.claim_inner(user) matches Ok((claimed, paid)) && {
                &&& paid == reward
                &&& next.accounts == claimed.accounts
                &&& next.pool == claimed.pool
                &&& next.vesting == claimed.vesting
                &&& transfers(next.effects) == transfers(claimed.effects)
            }
        },
        state.authorized(user) && state.claim_inner(user) is Ok ==> state.claim(user) is Ok,
{
    lemma_all_transfers();
}

/// An entry that is added to the queue of a user is paid on top of what the queue pays anyway, from
/// the ledger on at which it can be claimed, and not before.
pub proof fn an_entry_is_paid_when_it_is_ripe(
    entries: Seq<VestingEntry>,
    entry: VestingEntry,
    ledger: u32,
)
    ensures
        ledger < entry.claimable_at_ledger ==> {
            &&& crate::claims::matured(entries.push(entry), ledger) == crate::claims::matured(
                entries,
                ledger,
            )
            &&& crate::claims::unripe(entries.push(entry), ledger) == crate::claims::unripe(
                entries,
                ledger,
            ).push(entry)
        },
        ledger >= entry.claimable_at_ledger ==> {
            &&& (crate::claims::matured(entries, ledger), crate::claims::matured(
                entries.push(entry),
                ledger,
            )) matches (Some(before), Some(after)) ==> after == before + entry.amount
            &&& crate::claims::matured(entries, ledger) matches Some(before) ==> (
            crate::claims::matured(entries.push(entry), ledger) is Some <==> i128::MIN <= before
                + entry.amount && before + entry.amount <= i128::MAX)
            &&& crate::claims::unripe(entries.push(entry), ledger) == crate::claims::unripe(
                entries,
                ledger,
            )
        },
        crate::claims::matured(Seq::empty(), ledger) == Some(0i128),
        crate::claims::unripe(Seq::empty(), ledger) == Seq::<VestingEntry>::empty(),
{
    reveal(Seq::filter);
    assert(entries.push(entry).drop_last() == entries);
}

/// What has vested is paid to the user, all of it at once.
pub proof fn what_vested_is_paid(state: State, user: Address)
    ensures
        state.withdraw_vested(user) matches Ok((next, paid)) ==> {
            &&& crate::claims::matured(state.vesting_of(user), state.sequence) == Some(paid)
            &&& paid != 0
            &&& paid <= state.pool.reward_pool_balance
            &&& next.vesting_of(user) == crate::claims::unripe(
                state.vesting_of(user),
                state.sequence,
            )
            &&& state.settings.token matches Some(token) && transfers(next.effects) == transfers(
                state.effects,
            ).push(Effect::Transfer { token, from: state.contract, to: user, amount: paid })
            &&& next.accounts == state.accounts
            &&& next.pool == state.pool
        },
        crate::claims::matured(state.vesting_of(user), state.sequence) matches Some(total) && total
            > 0 && state.pool.reward_pool_balance >= total && state.authorized(user)
            && state.settings.token is Some ==> state.withdraw_vested(user) is Ok,
        crate::claims::matured(state.vesting_of(user), state.sequence) == Some(0i128)
            && state.authorized(user) ==> state.withdraw_vested(user) == Err::<
            (State, i128),
            VaultError,
        >(VaultError::NothingToWithdraw),
{
    lemma_all_transfers();
}

} // verus!
