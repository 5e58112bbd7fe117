//! What an amount comes to: the shares that tokens buy, the tokens that shares are paid with, and
//! what penalty, fee, request and slash take off.
use crate::address::Address;
use crate::env::{Effect, State};
use crate::errors::VaultError;
use crate::events::Event;
use vstd::prelude::*;

verus! {

/// `part` is `of` times `num` by `den`, rounded down.
pub open spec fn rounded_down(part: int, of: int, num: int, den: int) -> bool {
    part * den <= of * num < (part + 1) * den
}

/// The transfers among what a call makes happen, in order.
pub open spec fn transfers(effects: Seq<Effect>) -> Seq<Effect> {
    effects.filter(|effect: Effect| effect is Transfer)
}

pub(crate) proof fn lemma_scaled(a: int, b: int, c: int)
    requires
        a >= 0,
        b >= 0,
        c > 0,
    ensures
        crate::math::scaled(a, b, c) is Some <==> a * b <= i128::MAX,
        crate::math::scaled(a, b, c) matches Some(q) ==> rounded_down(q as int, a, b, c) && q >= 0,
{
    let p = a * b;
    assert(p >= 0) by (nonlinear_arith)
        requires
            a >= 0,
            b >= 0,
            p == a * b,
    ;
    let q = p / c;
    assert(0 <= q <= p && q * c <= p < (q + 1) * c) by (nonlinear_arith)
        requires
            p >= 0,
            c > 0,
            q == p / c,
    ;
}

/// Tokens buy the shares that they are the price of, rounded down; the first ones buy a share each.
pub proof fn tokens_buy_their_shares(state: State, amount: i128)
    requires
        state.pool.total_shares >= 0,
        state.pool.total_deposited >= 0,
        amount >= 0,
    ensures
        state.pool.total_shares == 0 || state.pool.total_deposited == 0 ==> state.minted(amount)
            == Some(amount),
        state.pool.total_shares > 0 && state.pool.total_deposited > 0 ==> {
            &&& state.minted(amount) is Some <==> amount * state.pool.total_shares <= i128::MAX
            &&& state.minted(amount) matches Some(shares) ==> rounded_down(
                shares as int,
                amount as int,
                state.pool.total_shares as int,
                state.pool.total_deposited as int,
            )
        },
{
    if state.pool.total_shares > 0 && state.pool.total_deposited > 0 {
        lemma_scaled(
            amount as int,
            state.pool.total_shares as int,
            state.pool.total_deposited as int,
        );
    }
}

/// Shares are worth their part of what is deposited, rounded down.
pub proof fn shares_are_worth_their_part(state: State, shares: i128)
    requires
        state.pool.total_shares > 0,
        state.pool.total_deposited >= 0,
        shares >= 0,
    ensures
        state.worth(shares) is Some <==> shares * state.pool.total_deposited <= i128::MAX,
        state.worth(shares) matches Some(amount) ==> rounded_down(
            amount as int,
            shares as int,
            state.pool.total_deposited as int,
            state.pool.total_shares as int,
        ),
{
    lemma_scaled(
        shares as int,
        state.pool.total_deposited as int,
        state.pool.total_shares as int,
    );
}

/// The penalty is the set part of the whole, for those who leave before their lock-up has passed
/// and did not come back within the grace window; the fee is the set part of the rest; and the user
/// gets what is left of both.
pub proof fn penalty_and_fee_are_as_set(state: State, user: Address, amount: i128)
    requires
        state.within_limits(),
        amount >= 0,
    ensures
        state.payout(user, amount) matches Some((returned, fee)) ==> {
            let penalty = amount - returned - fee;
            let account = state.account(user);
            let early = account.staked_at matches Some(since) && state.settings.lock_period > 0
                && state.sequence < since + state.settings.lock_period && state.sequence < u32::MAX;
            &&& early && !account.restaked ==> rounded_down(
                penalty,
                amount as int,
                state.settings.early_exit_penalty_bps as int,
                10_000,
            )
            &&& !early || account.restaked ==> penalty == 0
            &&& rounded_down(
                fee as int,
                returned + fee,
                state.settings.unstake_fee_bps as int,
                10_000,
            )
            &&& returned >= 0
            &&& fee >= 0
        },
        state.payout(user, amount) is Some <== amount * 2_000 <= i128::MAX,
{
    let (a, b) = (amount as int, state.penalty_bps(user) as int);
    lemma_scaled(a, b, 10_000);
    assert(0 <= a * b <= a * 2_000) by (nonlinear_arith)
        requires
            a >= 0,
            0 <= b <= 2_000,
    ;
    if let Some(penalty) = crate::unstaking::cut(amount, state.penalty_bps(user)) {
        let (r, f) = (a - penalty, state.settings.unstake_fee_bps as int);
        assert(0 <= r * f <= r * 500) by (nonlinear_arith)
            requires
                r >= 0,
                0 <= f <= 500,
        ;
        lemma_scaled(r, f, 10_000);
    }
}

/// `shares` are what `amount` buys in a pool of `total` shares for `deposited` tokens.
pub open spec fn bought(shares: int, amount: int, total: int, deposited: int) -> bool {
    if total == 0 || deposited == 0 {
        shares == amount
    } else {
        rounded_down(shares, amount, total, deposited)
    }
}

pub(crate) proof fn lemma_transfers(effects: Seq<Effect>, effect: Effect)
    ensures
        transfers(effects.push(effect)) == (if effect is Transfer {
            transfers(effects).push(effect)
        } else {
            transfers(effects)
        }),
{
    reveal(Seq::filter);
    assert(effects.push(effect).drop_last() == effects);
}

pub(crate) proof fn lemma_all_transfers()
    ensures
        forall|effects: Seq<Effect>, effect: Effect| #[trigger]
            transfers(effects.push(effect)) == (if effect is Transfer {
                transfers(effects).push(effect)
            } else {
                transfers(effects)
            }),
{
    assert forall|effects: Seq<Effect>, effect: Effect| #[trigger]
        transfers(effects.push(effect)) == (if effect is Transfer {
            transfers(effects).push(effect)
        } else {
            transfers(effects)
        }) by {
        lemma_transfers(effects, effect);
    }
}

proof fn lemma_bought(state: State, amount: i128)
    requires
        state.balanced(),
        amount >= 0,
    ensures
        state.minted(amount) matches Some(shares) ==> shares >= 0 && bought(
            shares as int,
            amount as int,
            state.pool.total_shares as int,
            state.pool.total_deposited as int,
        ),
{
    crate::laws::books::nobody_holds_more_than_all(state, state.contract);
    tokens_buy_their_shares(state, amount);
    crate::laws::books::lemma_minted(state.pool.total_shares, state.pool.total_deposited, amount);
}

/// Rewards of a user who wants that become shares: all whole tokens that they are owed, at the
/// price of the moment. Those of others stay accrued.
pub(crate) proof fn lemma_restaked(state: State, user: Address)
    requires
        state.balanced(),
    ensures
        state.accrue(user, state.account(user).shares) matches Ok(settled) ==> {
            settled.compound(user) matches Ok(next) ==> {
                let (was, is) = (state.account(user), next.account(user));
                let reward = next.pool.total_deposited - state.pool.total_deposited;
                let grown = is.shares - was.shares;
                &&& reward * 63_072_000_000 + is.accrued_dust() == state.owed_dust(user)
                &&& is.accrued >= 0
                &&& 0 <= is.remainder < 63_072_000_000
                &&& is.checkpoint == Some(state.sequence)
                &&& is.staked_at == was.staked_at
                &&& was.auto_restake ==> is.accrued == 0
                &&& !was.auto_restake ==> reward == 0
                &&& reward >= 0
                &&& grown >= 0
                &&& reward == 0 ==> grown == 0
                &&& reward > 0 ==> bought(
                    grown,
                    reward,
                    state.pool.total_shares as int,
                    state.pool.total_deposited as int,
                )
                &&& next.pool.total_shares == state.pool.total_shares + grown
                &&& next.pool.reward_pool_balance == state.pool.reward_pool_balance
                &&& transfers(next.effects) == transfers(state.effects)
            }
        },
{
    crate::laws::rewards::a_settlement_owes_the_same(state, user);
    crate::laws::books::settling_keeps_the_books(state, user);
    if let Ok(settled) = state.accrue(user, state.account(user).shares) {
        lemma_bought(settled, settled.account(user).accrued);
        lemma_all_transfers();
    }
}

/// A stake buys the shares that it is the price of. Before that the rewards of the staker are
/// settled: they stay owed, or become shares at their price where the staker wants that. The tokens
/// come from the staker, and nothing else moves.
pub proof fn a_stake_buys_what_it_pays_for(state: State, staker: Address, amount: i128)
    requires
        state.balanced(),
    ensures
        state.stake(staker, amount) matches Ok((next, minted)) ==> {
            let (was, is) = (state.account(staker), next.account(staker));
            let reward = next.pool.total_deposited - state.pool.total_deposited - amount;
            let grown = is.shares - was.shares - minted;
            &&& reward * 63_072_000_000 + is.accrued_dust() == state.owed_dust(staker)
            &&& 0 <= is.remainder < 63_072_000_000
            &&& was.auto_restake ==> is.accrued == 0
            &&& !was.auto_restake ==> reward == 0
            &&& reward == 0 ==> grown == 0
            &&& reward > 0 ==> bought(
                grown,
                reward,
                state.pool.total_shares as int,
                state.pool.total_deposited as int,
            )
            &&& bought(
                minted as int,
                amount as int,
                state.pool.total_shares + grown,
                state.pool.total_deposited + reward,
            )
            &&& next.pool.total_shares == state.pool.total_shares + grown + minted
            &&& next.pool.reward_pool_balance == state.pool.reward_pool_balance
            &&& next.settled_until(staker) == state.sequence
            &&& was.shares == 0 ==> is.staked_at == Some(state.sequence)
            &&& was.shares != 0 ==> is.staked_at == was.staked_at
            &&& state.settings.token matches Some(token) && transfers(next.effects) == transfers(
                state.effects,
            ).push(Effect::Transfer { token, from: staker, to: state.contract, amount })
            &&& next.effects.last() == Effect::Publish(
                Event::Deposit {
                    depositor: staker,
                    amount,
                    shares_minted: minted,
                    ledger: state.sequence,
                },
            )
        },
{
    lemma_restaked(state, staker);
    crate::laws::books::settling_keeps_the_books(state, staker);
    if let Ok((next, minted)) = state.stake(staker, amount) {
        let settled = state.accrue(staker, state.account(staker).shares)->Ok_0;
        crate::laws::books::compounding_keeps_the_books(settled, staker);
        let compounded = settled.compound(staker)->Ok_0;
        lemma_bought(compounded, amount);
        lemma_all_transfers();
    }
}

/// A stake of a delegate does the same for the beneficiary, whose rewards stay owed: the tokens
/// come from the delegate.
pub proof fn a_stake_for_another_buys_what_it_pays_for(
    state: State,
    delegate: Address,
    beneficiary: Address,
    amount: i128,
)
    requires
        state.balanced(),
    ensures
        state.stake_for(delegate, beneficiary, amount) matches Ok((next, minted)) ==> {
            let (was, is) = (state.account(beneficiary), next.account(beneficiary));
            &&& is.accrued_dust() == state.owed_dust(beneficiary)
            &&& 0 <= is.remainder < 63_072_000_000
            &&& is.shares == was.shares + minted
            &&& bought(
                minted as int,
                amount as int,
                state.pool.total_shares as int,
                state.pool.total_deposited as int,
            )
            &&& next.pool.total_shares == state.pool.total_shares + minted
            &&& next.pool.total_deposited == state.pool.total_deposited + amount
            &&& next.pool.reward_pool_balance == state.pool.reward_pool_balance
            &&& next.settled_until(beneficiary) == state.sequence
            &&& was.shares == 0 ==> is.staked_at == Some(state.sequence)
            &&& was.shares != 0 ==> is.staked_at == was.staked_at
            &&& state.settings.token matches Some(token) && transfers(next.effects) == transfers(
                state.effects,
            ).push(Effect::Transfer { token, from: delegate, to: state.contract, amount })
            &&& next.effects.last() == Effect::Publish(
                Event::Deposit {
                    depositor: beneficiary,
                    amount,
                    shares_minted: minted,
                    ledger: state.sequence,
                },
            )
        },
{
    crate::laws::rewards::a_settlement_owes_the_same(state, beneficiary);
    crate::laws::books::settling_keeps_the_books(state, beneficiary);
    if let Ok((next, minted)) = state.stake_for(delegate, beneficiary, amount) {
        let settled = state.accrue(beneficiary, state.account(beneficiary).shares)->Ok_0;
        lemma_bought(settled, amount);
        lemma_all_transfers();
    }
}

/// What it means that a user burned `burned` shares, which were worth `worth`, and got `returned`
/// for them, after their rewards had become `grown` shares or stayed owed.
pub open spec fn paid_out(
    before: State,
    after: State,
    user: Address,
    burned: int,
    grown: int,
    worth: int,
    returned: int,
) -> bool {
    let (was, is) = (before.account(user), after.account(user));
    let fee = after.pool.reward_pool_balance - before.pool.reward_pool_balance;
    let reward = after.pool.total_deposited + returned + fee - before.pool.total_deposited;
    let penalty = worth - returned - fee;
    let early = was.staked_at matches Some(since) && before.settings.lock_period > 0
        && before.sequence < since + before.settings.lock_period && before.sequence < u32::MAX;
    &&& is.shares == was.shares + grown - burned
    &&& after.pool.total_shares == before.pool.total_shares + grown - burned
    &&& reward * 63_072_000_000 + is.accrued_dust() == before.owed_dust(user)
    &&& 0 <= is.remainder < 63_072_000_000
    &&& was.auto_restake ==> is.accrued == 0
    &&& !was.auto_restake ==> reward == 0
    &&& reward == 0 ==> grown == 0
    &&& reward > 0 ==> bought(
        grown,
        reward,
        before.pool.total_shares as int,
        before.pool.total_deposited as int,
    )
    &&& rounded_down(
        worth,
        burned,
        before.pool.total_deposited + reward,
        before.pool.total_shares + grown,
    )
    &&& early && !was.restaked ==> rounded_down(
        penalty,
        worth,
        before.settings.early_exit_penalty_bps as int,
        10_000,
    )
    &&& !early || was.restaked ==> penalty == 0
    &&& rounded_down(fee, worth - penalty, before.settings.unstake_fee_bps as int, 10_000)
    &&& after.settled_until(user) == before.sequence
    &&& is.staked_at == if is.shares == 0 {
        None
    } else {
        was.staked_at
    }
    &&& before.settings.token matches Some(token) && transfers(after.effects) == transfers(
        before.effects,
    ).push(
        Effect::Transfer {
            token,
            from: before.contract,
            to: user,
            amount: returned as i128,
        },
    )
    &&& exists|k: int|
        0 <= k < after.effects.len() && #[trigger] after.effects[k] == Effect::Publish(
            Event::Withdraw {
                withdrawer: user,
                shares_burned: burned as i128,
                amount_returned: returned as i128,
                ledger: before.sequence,
            },
        )
}

pub(crate) proof fn lemma_debited(state: State, user: Address, shares: i128)
    requires
        state.balanced(),
        state.within_limits(),
        0 < shares <= state.account(user).shares,
    ensures
        state.debit(user, shares) matches Ok((next, returned)) ==> {
            let (was, is) = (state.account(user), next.account(user));
            let fee = next.pool.reward_pool_balance - state.pool.reward_pool_balance;
            &&& state.worth(shares) matches Some(worth) && state.payout(user, worth) == Some(
                (returned, fee as i128),
            ) && worth >= 0
            &&& 0 <= fee <= i128::MAX
            &&& is.shares == was.shares - shares
            &&& next.pool.total_shares == state.pool.total_shares - shares
            &&& next.pool.total_deposited == state.pool.total_deposited - returned - fee
            &&& is.accrued_dust() == was.accrued_dust()
            &&& is.accrued == was.accrued
            &&& is.remainder == was.remainder
            &&& is.checkpoint == was.checkpoint
            &&& is.staked_at == if is.shares == 0 {
                None
            } else {
                was.staked_at
            }
            &&& state.settings.token matches Some(token) && transfers(next.effects) == transfers(
                state.effects,
            ).push(
                Effect::Transfer { token, from: state.contract, to: user, amount: returned },
            )
            &&& exists|k: int|
                0 <= k < next.effects.len() && #[trigger] next.effects[k] == Effect::Publish(
                    Event::Withdraw {
                        withdrawer: user,
                        shares_burned: shares,
                        amount_returned: returned,
                        ledger: state.sequence,
                    },
                )
        },
{
    crate::laws::books::nobody_holds_more_than_all(state, user);
    crate::laws::books::lemma_worth(state.pool.total_shares, state.pool.total_deposited, shares);
    if let Ok((next, returned)) = state.debit(user, shares) {
        let worth = state.worth(shares)->Some_0;
        penalty_and_fee_are_as_set(state, user, worth);
        lemma_all_transfers();
        let told = Effect::Publish(
            Event::Withdraw {
                withdrawer: user,
                shares_burned: shares,
                amount_returned: returned,
                ledger: state.sequence,
            },
        );
        let n = next.effects.len() as int;
        assert(next.effects[n - 1] == told || next.effects[n - 2] == told);
    }
}

/// An unstake pays the worth of the shares, less the penalty, which stays in the pool, and the fee,
/// which goes to the reward pool. Before that the rewards of the user are settled: they stay owed,
/// or become shares that stay where the user wants that. The tokens go to the user, and nothing
/// else moves.
pub proof fn an_unstake_pays_for_what_it_burns(state: State, staker: Address, shares: i128)
    requires
        state.balanced(),
        state.within_limits(),
    ensures
        state.unstake(staker, shares) matches Ok((next, returned)) ==> {
            let grown = next.account(staker).shares + shares - state.account(staker).shares;
            exists|worth: int| #[trigger]
                paid_out(state, next, staker, shares as int, grown, worth, returned as int)
        },
{
    lemma_restaked(state, staker);
    crate::laws::books::settling_keeps_the_books(state, staker);
    if let Ok((next, returned)) = state.unstake(staker, shares) {
        let settled = state.accrue(staker, state.account(staker).shares)->Ok_0;
        crate::laws::books::compounding_keeps_the_books(settled, staker);
        let compounded = settled.compound(staker)->Ok_0;
        crate::laws::books::nobody_holds_more_than_all(compounded, staker);
        lemma_debited(compounded, staker, shares);
        let worth = compounded.worth(shares)->Some_0;
        penalty_and_fee_are_as_set(compounded, staker, worth);
        shares_are_worth_their_part(compounded, shares);
        let grown = next.account(staker).shares + shares - state.account(staker).shares;
        assert(paid_out(state, next, staker, shares as int, grown, worth as int, returned as int));
    }
}

/// A full exit pays in the same way for all shares, those that rewards became on the way among
/// them.
pub proof fn a_full_exit_pays_for_all(state: State, user: Address)
    requires
        state.balanced(),
        state.within_limits(),
    ensures
        state.unstake_all(user) matches Ok((next, returned)) ==> exists|grown: int, worth: int|
            #[trigger]
            paid_out(
                state,
                next,
                user,
                state.account(user).shares + grown,
                grown,
                worth,
                returned as int,
            ),
        state.account(user).shares == 0 ==> state.unstake_all(user) == Err::<
            (State, i128),
            VaultError,
        >(VaultError::PositionNotFound),
{
    lemma_restaked(state, user);
    crate::laws::books::nobody_holds_more_than_all(state, user);
    crate::laws::books::settling_keeps_the_books(state, user);
    if let Ok((next, returned)) = state.unstake_all(user) {
        let settled = state.accrue(user, state.account(user).shares)->Ok_0;
        crate::laws::books::compounding_keeps_the_books(settled, user);
        let compounded = settled.compound(user)->Ok_0;
        crate::laws::books::nobody_holds_more_than_all(compounded, user);
        let all = compounded.account(user).shares;
        lemma_debited(compounded, user, all);
        let worth = compounded.worth(all)->Some_0;
        penalty_and_fee_are_as_set(compounded, user, worth);
        shares_are_worth_their_part(compounded, all);
        let grown = all - state.account(user).shares;
        assert(paid_out(
            state,
            next,
            user,
            state.account(user).shares + grown,
            grown,
            worth as int,
            returned as int,
        ));
    }
}

/// The shares that stand for a part of a position can be told, and are no more than its shares.
proof fn lemma_shares_for(state: State, user: Address, worth: i128, part: i128)
    requires
        state.balanced(),
        state.account(user).shares > 0,
        state.worth(state.account(user).shares) == Some(worth),
        0 < part <= worth,
    ensures
        ({
            let shares = state.account(user).shares;
            let burned = state.shares_for(shares, part);
            &&& 0 <= burned <= shares
            &&& state.pool.total_shares > 0
            &&& state.pool.total_deposited > 0
            &&& rounded_down(
                burned as int,
                part as int,
                state.pool.total_shares as int,
                state.pool.total_deposited as int,
            )
            &&& rounded_down(
                worth as int,
                shares as int,
                state.pool.total_deposited as int,
                state.pool.total_shares as int,
            )
        }),
{
    let shares = state.account(user).shares;
    crate::laws::books::nobody_holds_more_than_all(state, user);
    crate::laws::books::lemma_worth(state.pool.total_shares, state.pool.total_deposited, shares);
    let (t, d, s, w, p) = (
        state.pool.total_shares as int,
        state.pool.total_deposited as int,
        shares as int,
        worth as int,
        part as int,
    );
    shares_are_worth_their_part(state, shares);
    tokens_buy_their_shares(state, part);
    assert(p * t <= w * t) by (nonlinear_arith)
        requires
            p <= w,
            t > 0,
    ;
    let m = state.minted(part)->Some_0 as int;
    assert(0 <= m <= s) by (nonlinear_arith)
        requires
            m * d <= p * t,
            p * t < (m + 1) * d,
            p * t <= s * d,
            d > 0,
            p > 0,
            t > 0,
    ;
}

proof fn lemma_taken_out(state: State, user: Address, burned: i128, removed: i128)
    ensures
        state.take_out(user, burned, removed) matches Ok(next) ==> {
            let (was, is) = (state.account(user), next.account(user));
            &&& is.shares == was.shares - burned
            &&& next.pool.total_shares == state.pool.total_shares - burned
            &&& next.pool.total_deposited == state.pool.total_deposited - removed
            &&& next.pool.reward_pool_balance == state.pool.reward_pool_balance
            &&& is.accrued == was.accrued
            &&& is.remainder == was.remainder
            &&& is.unbonding == was.unbonding
            &&& is.staked_at == if is.shares == 0 {
                None
            } else {
                was.staked_at
            }
            &&& next.settings == state.settings
            &&& next.sequence == state.sequence
            &&& next.contract == state.contract
            &&& transfers(next.effects) == transfers(state.effects)
        },
{
    lemma_all_transfers();
}

proof fn lemma_unbonded(state: State, user: Address, amount: i128)
    ensures
        state.unbond(user, amount) matches Ok(next) ==> {
            let (was, is) = (state.account(user), next.account(user));
            let waiting = match was.unbonding {
                Some(position) => position.amount as int,
                None => 0,
            };
            &&& is.shares == was.shares
            &&& next.pool == state.pool
            &&& is.accrued == was.accrued
            &&& is.remainder == was.remainder
            &&& is.staked_at == was.staked_at
            &&& is.checkpoint == Some(state.sequence)
            &&& next.settings == state.settings
            &&& next.sequence == state.sequence
            &&& state.settings.cooldown_period > 0 ==> {
                &&& is.unbonding matches Some(position) && position.amount == waiting + amount
                    && position.unbonding_since == state.sequence
                &&& transfers(next.effects) == transfers(state.effects)
            }
            &&& state.settings.cooldown_period == 0 ==> {
                &&& is.unbonding is None
                &&& state.settings.token matches Some(token) && transfers(next.effects)
                    == transfers(state.effects).push(
                    Effect::Transfer {
                        token,
                        from: state.contract,
                        to: user,
                        amount: (waiting + amount) as i128,
                    },
                )
            }
        },
{
    lemma_all_transfers();
}

/// A request takes out of the stake what was asked for, or the whole position where it is less:
/// the shares that stand for it are burned, and their worth unbonds together with what was
/// unbonding, or is paid at once where there is no cooldown. It costs the user no reward: all
/// that they were owed stays owed.
pub proof fn a_request_takes_out_what_was_asked_for(state: State, user: Address, amount: i128)
    requires
        state.balanced(),
    ensures
        state.request_unstake(user, amount) matches Ok(next) ==> {
            let (was, is) = (state.account(user), next.account(user));
            let (t, d) = (state.pool.total_shares as int, state.pool.total_deposited as int);
            let burned = was.shares - is.shares;
            let removed = d - next.pool.total_deposited;
            let waiting = match was.unbonding {
                Some(position) => position.amount as int,
                None => 0,
            };
            &&& exists|worth: int|
                {
                    &&& #[trigger] rounded_down(worth, was.shares as int, d, t)
                    &&& amount <= worth ==> rounded_down(burned, amount as int, t, d)
                    &&& amount > worth ==> rounded_down(burned, worth, t, d)
                }
            &&& rounded_down(removed, burned, d, t)
            &&& 0 <= burned <= was.shares
            &&& next.pool.total_shares == t - burned
            &&& next.pool.reward_pool_balance == state.pool.reward_pool_balance
            &&& is.accrued_dust() == state.owed_dust(user)
            &&& 0 <= is.remainder < 63_072_000_000
            &&& next.settled_until(user) == state.sequence
            &&& is.staked_at == if is.shares == 0 {
                None
            } else {
                was.staked_at
            }
            &&& state.settings.cooldown_period > 0 ==> {
                &&& is.unbonding matches Some(position) && position.amount == waiting + removed
                    && position.unbonding_since == state.sequence
                &&& transfers(next.effects) == transfers(state.effects)
            }
            &&& state.settings.cooldown_period == 0 ==> {
                &&& is.unbonding is None
                &&& state.settings.token matches Some(token) && transfers(next.effects)
                    == transfers(state.effects).push(
                    Effect::Transfer {
                        token,
                        from: state.contract,
                        to: user,
                        amount: (waiting + removed) as i128,
                    },
                )
            }
        },
        !state.settings.epoch_mode ==> (state.request_unstake(user, amount) matches Ok(next)
            ==> next.pending_reward(user) == state.pending_reward(user)),
{
    crate::laws::rewards::a_settlement_owes_the_same(state, user);
    crate::laws::books::settling_keeps_the_books(state, user);
    crate::laws::books::nobody_holds_more_than_all(state, user);
    if let Ok(next) = state.request_unstake(user, amount) {
        let shares = state.account(user).shares;
        let worth = state.worth(shares)->Some_0;
        let wanted = crate::math::smaller(amount as int, worth as int) as i128;
        let burned = state.shares_for(shares, wanted);
        lemma_shares_for(state, user, worth, wanted);
        shares_are_worth_their_part(state, burned);
        let removed = state.worth(burned)->Some_0;
        let settled = state.accrue(user, shares)->Ok_0;
        lemma_taken_out(settled, user, burned, removed);
        let taken = settled.take_out(user, burned, removed)->Ok_0;
        lemma_unbonded(taken, user, removed);
        let (was, is) = (state.account(user), next.account(user));
        let (t, d) = (state.pool.total_shares as int, state.pool.total_deposited as int);
        assert(exists|worth: int|
            {
                &&& #[trigger] rounded_down(worth, was.shares as int, d, t)
                &&& amount <= worth ==> rounded_down(burned as int, amount as int, t, d)
                &&& amount > worth ==> rounded_down(burned as int, worth, t, d)
            }) by {
            assert(rounded_down(worth as int, was.shares as int, d, t));
        }
    }
}

/// A slash takes what was asked for, or the whole position where it is less, and burns the shares
/// that stand for it, so that those of others are worth what they were but for rounding. The tokens
/// go to the treasury, and nothing else moves; the user loses what they accrued.
pub proof fn a_slash_burns_what_it_takes(
    state: State,
    admin_addr: Address,
    user: Address,
    amount: i128,
)
    requires
        state.balanced(),
    ensures
        state.slash(admin_addr, user, amount) matches Ok((next, taken)) ==> {
            let (was, is) = (state.account(user), next.account(user));
            let (t, d) = (state.pool.total_shares as int, state.pool.total_deposited as int);
            let burned = was.shares - is.shares;
            &&& exists|worth: int|
                {
                    &&& #[trigger] rounded_down(worth, was.shares as int, d, t)
                    &&& amount <= worth ==> taken == amount
                    &&& amount > worth ==> taken == worth
                }
            &&& rounded_down(burned, taken as int, t, d)
            &&& 0 <= burned <= was.shares
            &&& next.pool.total_shares == t - burned
            &&& next.pool.total_deposited == d - taken
            &&& next.pool.reward_pool_balance == state.pool.reward_pool_balance
            &&& is.accrued == 0
            &&& next.settled_until(user) == state.sequence
            &&& is.staked_at == if is.shares == 0 {
                None
            } else {
                was.staked_at
            }
            &&& is.unbonding == was.unbonding
            &&& (state.settings.token, state.settings.slash_treasury) matches (
                Some(token),
                Some(treasury),
            ) && transfers(next.effects) == transfers(state.effects).push(
                Effect::Transfer { token, from: state.contract, to: treasury, amount: taken },
            )
            &&& state.settings.admin matches Some(admin) && next.effects.last() == Effect::Publish(
                Event::Slash { admin, user, amount: taken, ledger: state.sequence },
            )
        },
{
    crate::laws::books::nobody_holds_more_than_all(state, user);
    if let Ok((next, taken)) = state.slash(admin_addr, user, amount) {
        let shares = state.account(user).shares;
        let worth = state.worth(shares)->Some_0;
        crate::laws::books::lemma_worth(
            state.pool.total_shares,
            state.pool.total_deposited,
            shares,
        );
        let burned = state.shares_for(shares, taken);
        lemma_shares_for(state, user, worth, taken);
        lemma_all_transfers();
        let (was, is) = (state.account(user), next.account(user));
        let (t, d) = (state.pool.total_shares as int, state.pool.total_deposited as int);
        assert(is.shares == shares - burned);
        assert(exists|worth: int|
            {
                &&& #[trigger] rounded_down(worth, was.shares as int, d, t)
                &&& amount <= worth ==> taken == amount
                &&& amount > worth ==> taken == worth
            }) by {
            assert(rounded_down(worth as int, was.shares as int, d, t));
        }
        let (token, treasury) = (
            state.settings.token->Some_0,
            state.settings.slash_treasury->Some_0,
        );
        assert(transfers(next.effects) == transfers(state.effects).push(
            Effect::Transfer { token, from: state.contract, to: treasury, amount: taken },
        ));
    }
}

/// What has unbonded is paid to the user, whole, and nothing else changes.
pub proof fn what_unbonded_is_paid(state: State, user: Address)
    ensures
        state.execute_unstake(user) matches Ok((next, paid)) ==> {
            &&& state.account(user).unbonding matches Some(position) && paid == position.amount
                && (state.settings.cooldown_period == 0 || state.sequence
                >= position.unbonding_since + state.settings.cooldown_period || state.sequence
                == u32::MAX)
            &&& next.account(user).unbonding is None
            &&& next.account(user).shares == state.account(user).shares
            &&& next.account(user).accrued_dust() == state.account(user).accrued_dust()
            &&& next.account(user).checkpoint == state.account(user).checkpoint
            &&& next.pool == state.pool
            &&& state.settings.token matches Some(token) && transfers(next.effects) == transfers(
                state.effects,
            ).push(Effect::Transfer { token, from: state.contract, to: user, amount: paid })
        },
        state.execute_unstake(user) is Ok <== {
            &&& state.authorized(user)
            &&& !state.pool.paused
            &&& state.settings.token is Some
            &&& state.account(user).unbonding matches Some(position) && state.sequence
                >= position.unbonding_since + state.settings.cooldown_period
        },
{
    lemma_all_transfers();
}

} // verus!
