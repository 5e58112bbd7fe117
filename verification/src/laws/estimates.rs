//! What the estimates and simulations answer is what the pool would do.
use crate::address::Address;
use crate::env::{Env, State};
use crate::errors::VaultError;
use crate::laws::amounts::rounded_down;
use crate::rewards::REWARD_UNIT;
use crate::storage::CampaignInfo;
use crate::vault::VaultContract;
use vstd::prelude::*;

verus! {

proof fn lemma_pending(state: State, user: Address)
    requires
        state.balanced(),
        !state.settings.epoch_mode,
    ensures
        state.pending_reward(user) matches Ok(pending) ==> pending * REWARD_UNIT
            <= state.owed_dust(user) < (pending + 1) * REWARD_UNIT,
{
    crate::laws::rewards::a_settlement_owes_the_same(state, user);
    crate::laws::books::nobody_holds_more_than_all(state, user);
}

/// What is owed later is what is owed now and what the ledgers in between add.
proof fn lemma_owed_later(state: State, user: Address, later: u32, rate: int, signers: Seq<Address>)
    requires
        state.balanced(),
        !state.settings.epoch_mode,
        state.sequence <= later,
        state.account(user).checkpoint is Some,
        state.settled_until(user) <= state.sequence,
        state.account(user).staked_at is Some,
        forall|l: int|
            state.sequence <= l < later ==> #[trigger] state.terms(
                state.account(user).shares,
                state.account(user).staked_at->Some_0,
            ).rate_at(l) == rate,
    ensures
        state.at(later, signers).owed_dust(user) == state.owed_dust(user) + state.account(
            user,
        ).shares * rate * (later - state.sequence),
        state.at(later, signers).balanced(),
{
    let account = state.account(user);
    let terms = state.terms(account.shares, account.staked_at->Some_0);
    let then = state.at(later, signers);
    crate::rewards::dust_adds_up(
        terms,
        state.settled_until(user) as int,
        state.sequence as int,
        later as int,
    );
    crate::rewards::lemma_dust_steady(terms, state.sequence as int, later as int, rate);
    assert(then.account(user) == account);
    assert(then.terms(account.shares, account.staked_at->Some_0) == terms);
}

/// `ledgers_to_target` counts the ledgers in which the position, as it is worth now and at the rate
/// of now, earns what is missing: that many are enough, and one less is not.
pub proof fn the_target_is_earned_in_time(state: State, user: Address, target: i128)
    requires
        state.balanced(),
        state.account(user).staked_at matches Some(since) && since <= state.sequence,
    ensures
        state.ledgers_to_target(user, target) matches Ok(n) ==> {
            &&& state.pending_reward(user) matches Ok(pending) && {
                &&& n == 0 <==> pending >= target
                &&& 0 < n < u32::MAX ==> {
                    let rate = state.terms(
                        state.account(user).shares,
                        state.account(user).staked_at->Some_0,
                    ).rate_at(state.sequence as int);
                    let missing = (target - pending) * 63_072_000_000;
                    exists|worth: int|
                        {
                            &&& #[trigger] rounded_down(
                                worth,
                                state.account(user).shares as int,
                                state.pool.total_deposited as int,
                                state.pool.total_shares as int,
                            )
                            &&& (n - 1) * (worth * rate) < missing <= n * (worth * rate)
                        }
                }
            }
        },
{
    crate::laws::books::nobody_holds_more_than_all(state, user);
    let shares = state.account(user).shares;
    let rate = state.boosted_rate_of(user);
    if let Ok(n) = state.ledgers_to_target(user, target) {
        let pending = state.pending_reward(user)->Ok_0;
        if 0 < n < u32::MAX {
            crate::rewards::boosted_rate_is_not_negative(
                state.settings.reward_rate_bps,
                state.boost_multiplier(user),
                crate::rewards::campaign_multiplier(
                    state.settings.campaign,
                    state.sequence as int,
                ),
            );
            let worth = state.worth(shares)->Some_0;
            crate::laws::amounts::shares_are_worth_their_part(state, shares);
            let per = worth * rate;
            let dust = (target - pending) * REWARD_UNIT;
            assert(per > 0) by (nonlinear_arith)
                requires
                    per == worth * rate,
                    worth > 0,
                    rate > 0,
            ;
            lemma_rounded_up(dust, per);
        } else if n == 0 && pending < target {
            let worth = state.worth(shares)->Some_0;
            crate::rewards::boosted_rate_is_not_negative(
                state.settings.reward_rate_bps,
                state.boost_multiplier(user),
                crate::rewards::campaign_multiplier(
                    state.settings.campaign,
                    state.sequence as int,
                ),
            );
            let per = worth * rate;
            let dust = (target - pending) * REWARD_UNIT;
            assert(per > 0) by (nonlinear_arith)
                requires
                    per == worth * rate,
                    worth > 0,
                    rate > 0,
            ;
            lemma_rounded_up(dust, per);
        }
    }
}

proof fn lemma_rounded_up(a: int, b: int)
    requires
        a > 0,
        b > 0,
    ensures
        (a + b - 1) / b >= 1,
        ((a + b - 1) / b - 1) * b < a <= ((a + b - 1) / b) * b,
{
    let q = (a + b - 1) / b;
    assert(q >= 1 && (q - 1) * b < a && a <= q * b) by (nonlinear_arith)
        requires
            a > 0,
            b > 0,
            q == (a + b - 1) / b,
    ;
}

/// It is the first ledger at which the target is reached, where each share is worth one token and
/// the rate stays the same up to then: then the target is pending, and at the ledger before it is
/// not, if no dust is left over now.
pub proof fn the_target_is_reached_at_that_ledger(
    state: State,
    user: Address,
    target: i128,
    signers: Seq<Address>,
)
    requires
        state.balanced(),
        !state.settings.epoch_mode,
        state.pool.total_shares == state.pool.total_deposited,
        state.account(user).shares > 0,
        state.account(user).staked_at matches Some(since) && since <= state.sequence,
        state.account(user).checkpoint is Some,
        state.settled_until(user) <= state.sequence,
    ensures
        state.ledgers_to_target(user, target) matches Ok(n) ==> {
            let terms = state.terms(
                state.account(user).shares,
                state.account(user).staked_at->Some_0,
            );
            let reached = state.sequence + n;
            0 < n < u32::MAX && reached <= u32::MAX && (forall|l: int|
                state.sequence <= l < reached ==> #[trigger] terms.rate_at(l) == terms.rate_at(
                    state.sequence as int,
                )) ==> {
                &&& state.at(reached as u32, signers).pending_reward(user) matches Ok(then)
                    ==> then >= target
                &&& state.owed_dust(user) % 63_072_000_000 == 0 ==> (state.at(
                    (reached - 1) as u32,
                    signers,
                ).pending_reward(user) matches Ok(then) ==> then < target)
            }
        },
{
    crate::laws::books::nobody_holds_more_than_all(state, user);
    the_target_is_earned_in_time(state, user, target);
    let account = state.account(user);
    let terms = state.terms(account.shares, account.staked_at->Some_0);
    let rate = terms.rate_at(state.sequence as int);
    if let Ok(n) = state.ledgers_to_target(user, target) {
        let reached = state.sequence + n;
        if 0 < n < u32::MAX && reached <= u32::MAX && (forall|l: int|
            state.sequence <= l < reached ==> #[trigger] terms.rate_at(l) == rate) {
            let pending = state.pending_reward(user)->Ok_0;
            let (s, t, d) = (
                account.shares as int,
                state.pool.total_shares as int,
                state.pool.total_deposited as int,
            );
            let worth = choose|worth: int|
                {
                    &&& #[trigger] rounded_down(worth, s, d, t)
                    &&& (n - 1) * (worth * rate) < (target - pending) * 63_072_000_000 <= n * (
                    worth * rate)
                };
            assert(worth == s) by (nonlinear_arith)
                requires
                    worth * t <= s * d,
                    s * d < (worth + 1) * t,
                    t == d,
                    t > 0,
            ;
            lemma_owed_later(state, user, reached as u32, rate, signers);
            lemma_owed_later(state, user, (reached - 1) as u32, rate, signers);
            lemma_pending(state, user);
            lemma_pending(state.at(reached as u32, signers), user);
            lemma_pending(state.at((reached - 1) as u32, signers), user);
            assert(s * rate * n == n * (s * rate)) by (nonlinear_arith);
            assert(s * rate * (n - 1) == (n - 1) * (s * rate)) by (nonlinear_arith);
        }
    }
}

/// The worth of a position, as far as estimates go by it.
pub open spec fn position_is_worth(state: State, user: Address, worth: int) -> bool {
    &&& state.account(user).shares > 0
    &&& rounded_down(
        worth,
        state.account(user).shares as int,
        state.pool.total_deposited as int,
        state.pool.total_shares as int,
    )
}

pub(crate) proof fn lemma_position_worth(state: State, user: Address, worth: int)
    requires
        state.balanced(),
        position_is_worth(state, user, worth),
        state.account(user).shares * state.pool.total_deposited <= i128::MAX,
    ensures
        state.position_worth(user) == Some(worth as i128),
        0 <= worth <= i128::MAX,
{
    crate::laws::books::nobody_holds_more_than_all(state, user);
    let shares = state.account(user).shares;
    crate::laws::amounts::shares_are_worth_their_part(state, shares);
    let (w, v) = (worth, state.worth(shares)->Some_0 as int);
    let (p, t) = (shares * state.pool.total_deposited, state.pool.total_shares as int);
    assert(w == v) by (nonlinear_arith)
        requires
            w * t <= p,
            p < (w + 1) * t,
            v * t <= p,
            p < (v + 1) * t,
            t > 0,
    ;
    crate::laws::books::lemma_worth(
        state.pool.total_shares,
        state.pool.total_deposited,
        shares,
    );
}

/// `answer` is an amount in the precision of the reward token, or as it is where it cannot be held
/// in that precision.
pub open spec fn answered(state: State, amount: int, answer: i128) -> bool {
    match state.normalized(amount as i128) {
        Ok(shifted) => answer == shifted,
        Err(_) => answer == amount,
    }
}

/// The estimates for a day and for a year are what the position, as it is worth now, earns in that
/// time at the rate of now without a boost: a year earns the rate, and a day has 17,280 ledgers.
/// Both are told in the precision of the reward token.
pub proof fn estimates_go_by_the_rate(
    env: Env,
    user: Address,
    worth: int,
    a_day: int,
    a_year: int,
    day: i128,
    year: i128,
)
    requires
        env@.balanced(),
        position_is_worth(env@, user, worth),
        env@.account(user).shares * env@.pool.total_deposited <= i128::MAX,
        worth * env@.settings.reward_rate_bps * 17_280 <= i128::MAX,
        earns(a_day, worth, env@.settings.reward_rate_bps as int, 17_280),
        rounded_down(a_year, worth, env@.settings.reward_rate_bps as int, 10_000),
        call_ensures(VaultContract::daily_reward_estimate, (&env, user), day),
        call_ensures(VaultContract::get_estimated_annual_reward, (&env, user), year),
    ensures
        env@.settings.reward_rate_bps > 0 ==> answered(env@, a_day, day) && answered(
            env@,
            a_year,
            year,
        ),
        env@.settings.reward_rate_bps == 0 ==> day == 0 && year == 0,
{
    lemma_position_worth(env@, user, worth);
    let rate = env@.settings.reward_rate_bps as int;
    let p = worth * rate;
    assert(p >= 0) by (nonlinear_arith)
        requires
            p == worth * rate,
            worth >= 0,
            rate >= 0,
    ;
    crate::laws::amounts::lemma_scaled(worth, rate, 10_000);
    assert(a_day == (p * 17_280) / 63_072_000_000);
    assert(a_year == p / 10_000);
}

/// `days_to_target` are the whole days in which `ledgers_to_target` ledgers close at five seconds
/// each.
pub proof fn days_hold_their_ledgers(state: State, user: Address, target: i128)
    ensures
        match (state.ledgers_to_target(user, target), state.days_to_target(user, target)) {
            (Ok(ledgers), Ok(days)) => if ledgers == u32::MAX {
                days == u32::MAX
            } else {
                (days - 1) * 86_400 < ledgers * 5 <= days * 86_400
            },
            (Err(e), Err(f)) => e == f,
            _ => false,
        },
{
}

/// Where the target is never reached, or not in any number of ledgers that can be told, the answer
/// is the largest number; it is nothing else.
pub proof fn a_target_out_of_reach_is_told(state: State, user: Address, target: i128)
    requires
        state.balanced(),
        state.account(user).staked_at matches Some(since) && since <= state.sequence,
    ensures
        state.ledgers_to_target(user, target) == Ok::<u32, VaultError>(u32::MAX) ==> {
            let rate = state.terms(
                state.account(user).shares,
                state.account(user).staked_at->Some_0,
            ).rate_at(state.sequence as int);
            &&& state.pending_reward(user) matches Ok(pending) && pending < target
            &&& state.account(user).shares == 0 || rate == 0 || exists|worth: int|
                {
                    &&& #[trigger] position_is_worth(state, user, worth)
                    &&& worth == 0 || (target - state.pending_reward(user)->Ok_0) * 63_072_000_000
                        > (u32::MAX - 1) * (worth * rate)
                }
        },
        state.pending_reward(user) matches Ok(pending) && pending < target && state.settings.admin
            is Some && state.account(user).shares == 0 ==> state.ledgers_to_target(user, target)
            == Ok::<u32, VaultError>(u32::MAX),
{
    crate::laws::books::nobody_holds_more_than_all(state, user);
    let shares = state.account(user).shares;
    let rate = state.boosted_rate_of(user);
    if state.ledgers_to_target(user, target) == Ok::<u32, VaultError>(u32::MAX) && shares != 0
        && rate != 0 {
        let pending = state.pending_reward(user)->Ok_0;
        crate::rewards::boosted_rate_is_not_negative(
            state.settings.reward_rate_bps,
            state.boost_multiplier(user),
            crate::rewards::campaign_multiplier(state.settings.campaign, state.sequence as int),
        );
        let worth = state.worth(shares)->Some_0;
        crate::laws::amounts::shares_are_worth_their_part(state, shares);
        crate::laws::books::lemma_worth(
            state.pool.total_shares,
            state.pool.total_deposited,
            shares,
        );
        assert(position_is_worth(state, user, worth as int));
        if worth > 0 {
            let per = worth * rate;
            let dust = (target - pending) * REWARD_UNIT;
            assert(per > 0) by (nonlinear_arith)
                requires
                    per == worth * rate,
                    worth > 0,
                    rate > 0,
            ;
            lemma_rounded_up(dust, per);
            let q = (dust + per - 1) / per;
            assert((u32::MAX - 1) * per <= (q - 1) * per) by (nonlinear_arith)
                requires
                    q >= u32::MAX,
                    per > 0,
            ;
        }
    }
}

/// The value of a position in reward tokens is its worth at the rate that is asked for.
pub proof fn a_value_goes_by_the_rate_asked_for(
    env: Env,
    user: Address,
    rate_bps: u32,
    worth: int,
    r: Result<i128, VaultError>,
)
    requires
        env@.balanced(),
        position_is_worth(env@, user, worth),
        env@.account(user).shares * env@.pool.total_deposited <= i128::MAX,
        worth * rate_bps <= i128::MAX,
        rate_bps > 0,
        call_ensures(VaultContract::position_value_in_reward_token, (&env, user, rate_bps), r),
    ensures
        r matches Ok(value) && rounded_down(value as int, worth, rate_bps as int, 10_000),
{
    lemma_position_worth(env@, user, worth);
    crate::laws::amounts::lemma_scaled(worth, rate_bps as int, 10_000);
}

proof fn lemma_power(exponent: nat)
    ensures
        crate::math::power(10, exponent) == vstd::arithmetic::power::pow(10, exponent),
        vstd::arithmetic::power::pow(10, exponent) > 0,
    decreases exponent,
{
    reveal(vstd::arithmetic::power::pow);
    if exponent > 0 {
        lemma_power((exponent - 1) as nat);
    }
}

/// An amount is brought into the precision of the reward token: a power of ten for each decimal
/// that the one has more than the other, rounded down where there are fewer.
pub proof fn precision_is_shifted(state: State, amount: i128)
    requires
        amount >= 0,
    ensures
        ({
            let (from, to) = (state.settings.stake_decimals, state.settings.reward_decimals);
            &&& from == to ==> state.normalized(amount) == Ok::<i128, VaultError>(amount)
            &&& from < to ==> (state.normalized(amount) matches Ok(shifted) ==> shifted == amount
                * vstd::arithmetic::power::pow(10, (to - from) as nat))
            &&& from > to ==> (state.normalized(amount) matches Ok(shifted) ==> rounded_down(
                shifted as int,
                amount as int,
                1,
                vstd::arithmetic::power::pow(10, (from - to) as nat),
            ))
            &&& from < to && amount * vstd::arithmetic::power::pow(10, (to - from) as nat)
                <= i128::MAX && vstd::arithmetic::power::pow(10, (to - from) as nat) <= i128::MAX
                ==> state.normalized(amount) is Ok
            &&& from > to && vstd::arithmetic::power::pow(10, (from - to) as nat) <= i128::MAX
                ==> state.normalized(amount) is Ok
        }),
{
    let (from, to) = (state.settings.stake_decimals, state.settings.reward_decimals);
    let a = amount as int;
    if from < to {
        lemma_power((to - from) as nat);
        let f = vstd::arithmetic::power::pow(10, (to - from) as nat);
        assert(a * f >= 0) by (nonlinear_arith)
            requires
                a >= 0,
                f > 0,
        ;
    } else if from > to {
        lemma_power((from - to) as nat);
        let f = vstd::arithmetic::power::pow(10, (from - to) as nat);
        let q = a / f;
        assert(0 <= q <= a && q * f <= a && a < (q + 1) * f) by (nonlinear_arith)
            requires
                a >= 0,
                f > 0,
                q == a / f,
        ;
    }
}

/// `calc_pending_reward` answers what is owed in whole tokens, in the precision of the reward
/// token.
pub proof fn pending_is_what_is_owed(env: Env, user: Address, pending: i128, answer: i128)
    requires
        env@.balanced(),
        !env@.settings.epoch_mode,
        call_ensures(
            VaultContract::calc_pending_reward,
            (&env, user),
            Ok::<i128, VaultError>(answer),
        ),
        pending * 63_072_000_000 <= env@.owed_dust(user) < (pending + 1) * 63_072_000_000,
    ensures
        env@.normalized(pending) == Ok::<i128, VaultError>(answer),
{
    lemma_pending(env@, user);
}

/// `reward` is what `amount` earns at a rate in some ledgers, rounded down.
pub open spec fn earns(reward: int, amount: int, rate_bps: int, ledgers: int) -> bool {
    reward * 63_072_000_000 <= amount * rate_bps * ledgers < (reward + 1) * 63_072_000_000
}

proof fn lemma_simple(amount: i128, rate: int, ledgers: u32)
    requires
        amount >= 0,
        rate >= 0,
    ensures
        crate::rewards::simple_reward(amount, rate, ledgers) matches Ok(reward) ==> earns(
            reward as int,
            amount as int,
            rate,
            ledgers as int,
        ) && reward >= 0,
        crate::rewards::simple_reward(amount, rate, ledgers) is Ok <==> amount * rate * ledgers
            <= i128::MAX,
{
    let (a, l) = (amount as int, ledgers as int);
    let p = a * rate;
    assert(p >= 0) by (nonlinear_arith)
        requires
            p == a * rate,
            a >= 0,
            rate >= 0,
    ;
    assert(p * l >= 0) by (nonlinear_arith)
        requires
            p >= 0,
            l >= 0,
    ;
}

/// A stake that is simulated earns the rate of now for as many ledgers.
pub proof fn a_simulated_stake_earns_the_rate(
    env: Env,
    amount: i128,
    ledgers: u32,
    r: Result<i128, VaultError>,
)
    requires
        amount >= 0,
        env@.settings.admin is Some,
        call_ensures(VaultContract::simulate_stake, (&env, amount, ledgers), r),
    ensures
        amount * env@.settings.reward_rate_bps * ledgers <= i128::MAX ==> (r matches Ok(reward)
            && earns(
            reward as int,
            amount as int,
            env@.settings.reward_rate_bps as int,
            ledgers as int,
        )),
{
    lemma_simple(amount, env@.settings.reward_rate_bps as int, ledgers);
}

/// What was earned before is only added.
proof fn lemma_compounded_on_top(amount: i128, total: i128, rate_bps: u32, ledgers: u32, each: u32)
    requires
        amount >= 0,
        total >= 0,
    ensures
        crate::estimates::compounded(amount, total, rate_bps, ledgers, each) matches Ok(all) ==> {
            &&& all >= total
            &&& crate::estimates::compounded(amount, 0, rate_bps, ledgers, each) == Ok::<
                i128,
                VaultError,
            >((all - total) as i128)
        },
    decreases ledgers,
{
    if ledgers > 0 && each > 0 {
        let step = if ledgers < each {
            ledgers
        } else {
            each
        };
        lemma_simple(amount, rate_bps as int, step);
        if let Ok(reward) = crate::rewards::simple_reward(amount, rate_bps as int, step) {
            if crate::estimates::compounded(amount, total, rate_bps, ledgers, each) is Ok {
                let rest = (ledgers - step) as u32;
                let next = (amount + reward) as i128;
                lemma_compounded_on_top(next, (total + reward) as i128, rate_bps, rest, each);
                lemma_compounded_on_top(next, reward, rate_bps, rest, each);
                lemma_compounded_from(next, total, reward, rate_bps, rest, each);
            }
        }
    }
}

/// What was earned before makes the same difference wherever it is added.
proof fn lemma_compounded_from(
    amount: i128,
    total: i128,
    more: i128,
    rate_bps: u32,
    ledgers: u32,
    each: u32,
)
    requires
        amount >= 0,
        total >= 0,
        more >= 0,
        total + more <= i128::MAX,
    ensures
        crate::estimates::compounded(amount, (total + more) as i128, rate_bps, ledgers, each)
            matches Ok(all) ==> all >= total && crate::estimates::compounded(
            amount,
            more,
            rate_bps,
            ledgers,
            each,
        ) == Ok::<i128, VaultError>((all - total) as i128),
    decreases ledgers,
{
    if ledgers > 0 && each > 0 {
        let step = if ledgers < each {
            ledgers
        } else {
            each
        };
        lemma_simple(amount, rate_bps as int, step);
        if let Ok(reward) = crate::rewards::simple_reward(amount, rate_bps as int, step) {
            if crate::estimates::compounded(
                amount,
                (total + more) as i128,
                rate_bps,
                ledgers,
                each,
            ) is Ok {
                lemma_compounded_from(
                    (amount + reward) as i128,
                    total,
                    (more + reward) as i128,
                    rate_bps,
                    (ledgers - step) as u32,
                    each,
                );
            }
        }
    }
}

/// Compounding stakes what the first interval earned and goes on with the rest of the ledgers:
/// interval by interval, and the last one may be shorter. Without ledgers or without an interval
/// nothing is earned.
pub proof fn compounding_goes_interval_by_interval(
    env: Env,
    amount: i128,
    ledgers: u32,
    interval: u32,
    total: i128,
    first: i128,
    rest: i128,
)
    requires
        amount >= 0,
        call_ensures(
            VaultContract::simulate_compound,
            (&env, amount, ledgers, interval),
            Ok::<i128, VaultError>(total),
        ),
    ensures
        ledgers == 0 || interval == 0 || env@.settings.reward_rate_bps == 0 ==> total == 0,
        ({
            let step = if ledgers < interval {
                ledgers
            } else {
                interval
            };
            &&& ledgers > 0
            &&& interval > 0
            &&& earns(
                first as int,
                amount as int,
                env@.settings.reward_rate_bps as int,
                step as int,
            )
            &&& amount + first <= i128::MAX
            &&& call_ensures(
                VaultContract::simulate_compound,
                (&env, (amount + first) as i128, (ledgers - step) as u32, interval),
                Ok::<i128, VaultError>(rest),
            )
        }) ==> total == first + rest,
{
    let rate_bps = env@.settings.reward_rate_bps;
    if ledgers > 0 && interval > 0 && rate_bps > 0 {
        let step = if ledgers < interval {
            ledgers
        } else {
            interval
        };
        lemma_simple(amount, rate_bps as int, step);
        let reward = crate::rewards::simple_reward(amount, rate_bps as int, step)->Ok_0;
        lemma_compounded_on_top(
            (amount + reward) as i128,
            reward,
            rate_bps,
            (ledgers - step) as u32,
            interval,
        );
    }
}

proof fn lemma_tiered_splits(
    amount: i128,
    total: i128,
    rate_bps: u32,
    multiplier_bps: u32,
    cursor: u32,
    ledgers: u32,
    tiers: Seq<(u32, u32)>,
    k: int,
)
    requires
        crate::pool_admin::valid_schedule(tiers),
        0 <= k < tiers.len(),
        cursor < tiers[k].0,
        tiers[k].0 < ledgers,
        k + 1 < tiers.len() ==> tiers[k + 1].0 >= ledgers,
    ensures
        crate::estimates::tiered(
            amount,
            total,
            rate_bps,
            multiplier_bps,
            cursor,
            ledgers,
            tiers,
        ) == (match crate::estimates::tiered(
            amount,
            total,
            rate_bps,
            multiplier_bps,
            cursor,
            tiers[k].0,
            tiers,
        ) {
            Err(e) => Err(e),
            Ok(before) => match crate::rewards::simple_reward(
                amount,
                (rate_bps * tiers[k].1) / 10_000,
                (ledgers - tiers[k].0) as u32,
            ) {
                Err(e) => Err(e),
                Ok(reward) => crate::rewards::amount_of(before + reward),
            },
        }),
    decreases tiers.len(),
{
    let tail = tiers.skip(1);
    assert(crate::pool_admin::valid_schedule(tail)) by {
        assert forall|i: int| 0 <= i < tail.len() implies (#[trigger] tail[i]).1 >= 10_000 by {
            assert(tail[i] == tiers[i + 1]);
        }
        assert forall|i: int, j: int| 0 <= i < j < tail.len() implies (#[trigger] tail[i]).0 < (
        #[trigger] tail[j]).0 by {
            assert(tiers[i + 1].0 < tiers[j + 1].0);
        }
    }
    if k > 0 {
        assert(tiers[0].0 < tiers[k].0);
        assert(tail[k - 1] == tiers[k]);
        if tiers[0].0 <= cursor {
            lemma_tiered_splits(
                amount,
                total,
                rate_bps,
                tiers[0].1,
                cursor,
                ledgers,
                tail,
                k - 1,
            );
        } else {
            let rate = (rate_bps * multiplier_bps) / 10_000;
            if let Ok(reward) = crate::rewards::simple_reward(
                amount,
                rate,
                (tiers[0].0 - cursor) as u32,
            ) {
                if crate::math::fits(total + reward) {
                    lemma_tiered_splits(
                        amount,
                        (total + reward) as i128,
                        rate_bps,
                        tiers[0].1,
                        tiers[0].0,
                        ledgers,
                        tail,
                        k - 1,
                    );
                }
            }
        }
    } else if tail.len() > 0 {
        assert(tail[0] == tiers[1]);
    }
}

/// `simulate_boost_impact` tells what the stake earns without tiers and what it earns with them:
/// up to the first tier both are the same; and from the last tier that begins on, its multiplier
/// counts on top of what was earned up to it.
pub proof fn each_tier_counts_from_where_it_begins(
    env: Env,
    amount: i128,
    ledgers: u32,
    tier: int,
    base: i128,
    boosted: i128,
)
    requires
        amount >= 0,
        env@.settings.reward_rate_bps > 0,
        crate::pool_admin::valid_schedule(env@.boost_schedule),
        call_ensures(
            VaultContract::simulate_boost_impact,
            (&env, amount, ledgers),
            Ok::<(i128, i128), VaultError>((base, boosted)),
        ),
    ensures
        earns(
            base as int,
            amount as int,
            env@.settings.reward_rate_bps as int,
            ledgers as int,
        ),
        ledgers > 0 && (env@.boost_schedule.len() == 0 || env@.boost_schedule[0].0 >= ledgers)
            ==> boosted == base,
        0 <= tier < env@.boost_schedule.len() && 0 < env@.boost_schedule[tier].0 < ledgers && (tier
            + 1 < env@.boost_schedule.len() ==> env@.boost_schedule[tier + 1].0 >= ledgers) ==> {
            let (begins, multiplier_bps) = env@.boost_schedule[tier];
            forall|base_before: i128, before: i128| #[trigger]
                call_ensures(
                    VaultContract::simulate_boost_impact,
                    (&env, amount, begins),
                    Ok::<(i128, i128), VaultError>((base_before, before)),
                ) ==> earns(
                    boosted - before,
                    amount as int,
                    (env@.settings.reward_rate_bps * multiplier_bps) / 10_000,
                    ledgers - begins,
                )
        },
        tier == 0 && env@.boost_schedule.len() > 0 && env@.boost_schedule[0].0 == 0 && ledgers > 0
            && (env@.boost_schedule.len() > 1 ==> env@.boost_schedule[1].0 >= ledgers) ==> earns(
            boosted as int,
            amount as int,
            (env@.settings.reward_rate_bps * env@.boost_schedule[0].1) / 10_000,
            ledgers as int,
        ),
{
    let rate_bps = env@.settings.reward_rate_bps;
    let tiers = env@.boost_schedule;
    lemma_simple(amount, rate_bps as int, ledgers);
    assert((rate_bps * 10_000) / 10_000 == rate_bps);
    if 0 <= tier < tiers.len() {
        let m = tiers[tier].1;
        assert(rate_bps * m >= 0) by (nonlinear_arith);
        if 0 < tiers[tier].0 < ledgers && (tier + 1 < tiers.len() ==> tiers[tier + 1].0
            >= ledgers) {
            lemma_tiered_splits(amount, 0, rate_bps, 10_000, 0, ledgers, tiers, tier);
            lemma_simple(
                amount,
                (rate_bps * m) / 10_000,
                (ledgers - tiers[tier].0) as u32,
            );
        }
        if tier == 0 && tiers[0].0 == 0 && ledgers > 0 {
            reveal_with_fuel(crate::estimates::tiered, 3);
            lemma_simple(amount, (rate_bps * m) / 10_000, ledgers);
            if tiers.len() > 1 {
                assert(tiers.skip(1)[0] == tiers[1]);
            }
        }
    }
}

/// The rate that was in force at a ledger is the one that the next change replaced, and the present
/// one where no change came after it.
pub proof fn a_rate_was_in_force_until_it_changed(
    history: Seq<(u32, u32)>,
    current: u32,
    ledger: int,
    change: int,
)
    requires
        0 <= change <= history.len(),
        forall|i: int| 0 <= i < change ==> (#[trigger] history[i]).0 <= ledger,
        change < history.len() ==> ledger < history[change].0,
    ensures
        crate::estimates::rate_in_force(history, current, ledger) == if change < history.len() {
            history[change].1
        } else {
            current
        },
{
    crate::estimates::lemma_rate_in_force(history, current, ledger, change);
}

/// The average rate weighs the rate of every ledger of the window the same. Before the first change
/// it is the present rate.
pub proof fn the_average_weighs_every_ledger(state: State, window: u32)
    requires
        window > 0,
        state.within_limits(),
        forall|i: int| 0 <= i < state.rate_history.len() ==> (#[trigger] state.rate_history[i]).1
            <= 10_000,
    ensures
        state.rate_history.len() == 0 ==> state.average_rate(window)
            == state.settings.reward_rate_bps,
        state.rate_history.len() > 0 ==> {
            let start = if window < state.sequence {
                state.sequence - window
            } else {
                0
            };
            let sum = crate::estimates::rates_sum(
                state.rate_history,
                state.settings.reward_rate_bps,
                start,
                state.sequence as int,
            );
            rounded_down(state.average_rate(window) as int, sum, 1, window as int)
        },
{
    if state.rate_history.len() > 0 {
        let start = if window < state.sequence {
            state.sequence - window
        } else {
            0
        };
        let (history, rate) = (state.rate_history, state.settings.reward_rate_bps);
        let sum = crate::estimates::rates_sum(history, rate, start, state.sequence as int);
        lemma_rates_sum_bound(history, rate, start, state.sequence as int);
        let (n, w) = (state.sequence - start, window as int);
        assert(0 <= sum / w <= 10_000 && (sum / w) * w <= sum && sum < (sum / w + 1) * w)
            by (nonlinear_arith)
            requires
                0 <= sum <= 10_000 * n,
                n <= w,
                w > 0,
        ;
    }
}

proof fn lemma_rates_sum_bound(history: Seq<(u32, u32)>, current: u32, start: int, end: int)
    requires
        start <= end,
        current <= 10_000,
        forall|i: int| 0 <= i < history.len() ==> (#[trigger] history[i]).1 <= 10_000,
    ensures
        0 <= crate::estimates::rates_sum(history, current, start, end) <= 10_000 * (end - start),
    decreases end - start,
{
    if start < end {
        lemma_rates_sum_bound(history, current, start, end - 1);
        lemma_rate_bound(history, current, end - 1);
    }
}

proof fn lemma_rate_bound(history: Seq<(u32, u32)>, current: u32, ledger: int)
    requires
        current <= 10_000,
        forall|i: int| 0 <= i < history.len() ==> (#[trigger] history[i]).1 <= 10_000,
    ensures
        crate::estimates::rate_in_force(history, current, ledger) <= 10_000,
    decreases history.len(),
{
    if history.len() > 0 {
        assert(history[0].1 <= 10_000);
        let tail = history.skip(1);
        assert forall|i: int| 0 <= i < tail.len() implies (#[trigger] tail[i]).1 <= 10_000 by {
            assert(tail[i] == history[i + 1]);
        }
        lemma_rate_bound(tail, current, ledger);
    }
}

/// The sum over a window is that of its ledgers, one by one.
pub proof fn a_sum_of_rates_goes_ledger_by_ledger(
    history: Seq<(u32, u32)>,
    current: u32,
    start: int,
    ledger: int,
)
    requires
        start <= ledger,
    ensures
        crate::estimates::rates_sum(history, current, start, start) == 0,
        crate::estimates::rates_sum(history, current, start, ledger + 1)
            == crate::estimates::rates_sum(history, current, start, ledger)
            + crate::estimates::rate_in_force(history, current, ledger),
{
}

/// Dust and reward of some ledgers are the amount times the boosted rate times the ledgers; the
/// reward is the whole tokens among it. Each multiplier is rounded down.
pub proof fn rewards_of_ledgers_go_by_the_boosted_rate(
    amount: i128,
    rate_bps: u32,
    tier_bps: u32,
    campaign_bps: u32,
    ledgers: u32,
    tier_rate: int,
    rate: int,
    dust: i128,
    reward: i128,
)
    requires
        amount >= 0,
        rounded_down(tier_rate, rate_bps as int, tier_bps as int, 10_000),
        rounded_down(rate, tier_rate, campaign_bps as int, 10_000),
        call_ensures(
            VaultContract::reward_dust_for_ledgers,
            (amount, rate_bps, tier_bps, ledgers),
            Ok::<i128, VaultError>(dust),
        ),
        call_ensures(
            VaultContract::reward_for_ledgers,
            (amount, rate_bps, tier_bps, campaign_bps, ledgers),
            Ok::<i128, VaultError>(reward),
        ),
    ensures
        dust == amount * tier_rate * ledgers,
        earns(reward as int, amount as int, rate, ledgers as int),
{
    let x = rate_bps * tier_bps;
    assert(x >= 0) by (nonlinear_arith)
        requires
            x == rate_bps * tier_bps,
    ;
    assert(tier_rate == x / 10_000);
    assert(tier_rate * campaign_bps >= 0) by (nonlinear_arith)
        requires
            tier_rate >= 0,
    ;
    assert(rate == (tier_rate * campaign_bps) / 10_000);
    lemma_simple(amount, rate, ledgers);
}

/// A campaign counts from the ledger at which it starts up to the one before it ends.
pub proof fn a_campaign_counts_while_it_runs(
    cursor: u32,
    campaign: Option<CampaignInfo>,
    r: (u32, u32),
)
    requires
        call_ensures(VaultContract::campaign_info_at, (cursor, &campaign), r),
    ensures
        match campaign {
            Some(c) => {
                &&& c.starts_at_ledger <= cursor < c.ends_at_ledger ==> r == (
                    c.multiplier_bps,
                    c.ends_at_ledger,
                )
                &&& cursor < c.starts_at_ledger ==> r == (10_000u32, c.starts_at_ledger)
                &&& c.starts_at_ledger <= cursor && c.ends_at_ledger <= cursor ==> r == (
                    10_000u32,
                    u32::MAX,
                )
            },
            None => r == (10_000u32, u32::MAX),
        },
{
}

/// The multiplier of a user is that of the last tier that began since they staked.
pub proof fn the_multiplier_is_that_of_the_tier(
    env: Env,
    user: Address,
    begun: int,
    r: Result<u32, VaultError>,
)
    requires
        env@.settings.admin is Some,
        call_ensures(VaultContract::get_boost_multiplier, (&env, user), r),
        env@.account(user).staked_at matches Some(since) && since <= env@.sequence,
        0 <= begun <= env@.boost_schedule.len(),
        forall|i: int|
            0 <= i < begun ==> (#[trigger] env@.boost_schedule[i]).0 <= env@.sequence
                - env@.account(user).staked_at->Some_0,
        begun < env@.boost_schedule.len() ==> env@.boost_schedule[begun].0 > env@.sequence
            - env@.account(user).staked_at->Some_0,
    ensures
        r == Ok::<u32, VaultError>(
            if begun == 0 {
                10_000
            } else {
                env@.boost_schedule[begun - 1].1
            },
        ),
{
    let elapsed = env@.sequence - env@.account(user).staked_at->Some_0;
    crate::rewards::lemma_tiers_reached(env@.boost_schedule, elapsed, begun);
}

/// What one token earns in one ledger is the rate by the dust of a token, in whole tokens; in an
/// empty pool it is nothing.
pub proof fn a_token_earns_the_rate_in_a_ledger(env: Env, r: i128)
    requires
        call_ensures(VaultContract::reward_per_token_per_ledger, (&env,), r),
    ensures
        env@.pool.total_deposited != 0 ==> earns(
            r as int,
            1,
            env@.settings.reward_rate_bps as int,
            1,
        ),
        env@.pool.total_deposited == 0 ==> r == 0,
{
}

/// `twap_apr_bps` answers the average, and `ledgers_to_target` and `days_to_target` what they are
/// named after.
pub proof fn estimates_are_told(
    env: Env,
    user: Address,
    window: u32,
    target: i128,
    average: Result<u32, VaultError>,
    ledgers: Result<u32, VaultError>,
    days: Result<u32, VaultError>,
)
    requires
        env@.settings.admin is Some,
        call_ensures(VaultContract::twap_apr_bps, (&env, window), average),
        call_ensures(VaultContract::ledgers_to_target, (&env, user, target), ledgers),
        call_ensures(VaultContract::days_to_target, (&env, user, target), days),
    ensures
        average == Ok::<u32, VaultError>(env@.average_rate(window)),
        ledgers == env@.ledgers_to_target(user, target),
        days == env@.days_to_target(user, target),
        window == 0 ==> average == Ok::<u32, VaultError>(env@.settings.reward_rate_bps),
{
}

} // verus!
