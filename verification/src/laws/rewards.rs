//! Rewards: none is lost to rounding, none is paid twice, and none goes over the cap.
use crate::address::Address;
use crate::env::{Effect, State};
use crate::errors::VaultError;
use crate::events::Event;
use crate::rewards::{Terms, BOOST_BPS_BASE, REWARD_UNIT};
use crate::storage::Account;
use vstd::prelude::*;

verus! {

impl Account {
    /// All that is accrued, in dust.
    pub open spec fn accrued_dust(self) -> int {
        self.accrued * REWARD_UNIT + self.remainder
    }
}

impl State {
    /// All that a user has earned and not been paid, in dust: what is accrued, and what their
    /// shares have earned since. In epoch mode, and without a position, nothing is earned by the
    /// ledger.
    pub open spec fn owed_dust(self, user: Address) -> int {
        let account = self.account(user);
        account.accrued_dust() + match account.staked_at {
            Some(staked_at) => if self.settings.epoch_mode {
                0
            } else {
                self.terms(account.shares, staked_at).dust(
                    self.settled_until(user) as int,
                    self.sequence as int,
                )
            },
            None => 0,
        }
    }
}

/// Every ledger adds the shares times the rate, raised by the tier that is in force and by the
/// campaign that runs at that ledger; each of the two steps is rounded down. The tier is the last
/// one that began, counted from the stake; before the first one and outside of a campaign nothing
/// is raised.
pub proof fn a_ledger_earns_the_boosted_rate(
    terms: Terms,
    start: int,
    ledger: int,
    tier: int,
    tier_bps: int,
    campaign_bps: int,
)
    requires
        start <= ledger,
        crate::pool_admin::valid_schedule(terms.schedule),
        -1 <= tier < terms.schedule.len(),
        tier >= 0 ==> terms.schedule[tier].0 <= ledger - terms.staked_at,
        tier + 1 < terms.schedule.len() ==> ledger - terms.staked_at < terms.schedule[tier + 1].0,
        tier_bps == if tier >= 0 {
            terms.schedule[tier].1 as int
        } else {
            10_000
        },
        campaign_bps == match terms.campaign {
            Some(c) if c.starts_at_ledger <= ledger && ledger < c.ends_at_ledger =>
                c.multiplier_bps as int,
            _ => 10_000,
        },
    ensures
        exists|tier_rate: int, rate: int|
            {
                &&& #[trigger] crate::laws::amounts::rounded_down(
                    tier_rate,
                    terms.rate_bps as int,
                    tier_bps,
                    10_000,
                )
                &&& #[trigger] crate::laws::amounts::rounded_down(
                    rate,
                    tier_rate,
                    campaign_bps,
                    10_000,
                )
                &&& terms.dust(start, ledger + 1) == terms.dust(start, ledger) + terms.shares * rate
            },
        terms.dust(start, start) == 0,
{
    let elapsed = ledger - terms.staked_at;
    assert forall|i: int| 0 <= i < tier + 1 implies (#[trigger] terms.schedule[i]).0 <= elapsed by {
        if i < tier {
            assert(terms.schedule[i].0 < terms.schedule[tier].0);
        }
    }
    crate::rewards::lemma_tiers_reached(terms.schedule, elapsed, tier + 1);
    let tier_rate = (terms.rate_bps * tier_bps) / 10_000;
    let rate = (tier_rate * campaign_bps) / 10_000;
    assert(terms.rate_at(ledger) == rate);
    assert(crate::laws::amounts::rounded_down(tier_rate, terms.rate_bps as int, tier_bps, 10_000));
    assert(crate::laws::amounts::rounded_down(rate, tier_rate, campaign_bps, 10_000));
}

/// A settlement owes a user as much as they were owed before, in whole tokens and a rest that is
/// less than one; what is pending are those whole tokens.
pub proof fn a_settlement_owes_the_same(state: State, user: Address)
    requires
        state.balanced(),
    ensures
        state.settled(user, state.account(user).shares) matches Ok(account) ==> {
            &&& account.accrued_dust() == state.owed_dust(user)
            &&& account.accrued >= 0
            &&& 0 <= account.remainder < 63_072_000_000
            &&& account.checkpoint == Some(state.sequence)
            &&& account.shares == state.account(user).shares
            &&& !state.settings.epoch_mode ==> state.pending_reward(user) == Ok::<i128, VaultError>(
                account.accrued,
            )
        },
        state.account(user).accrued_dust() <= state.owed_dust(user),
{
    crate::laws::books::nobody_holds_more_than_all(state, user);
    let account = state.account(user);
    if let Some(staked_at) = account.staked_at {
        let terms = state.terms(account.shares, staked_at);
        let since = state.settled_until(user);
        if since < state.sequence {
            crate::rewards::dust_grows(terms, since as int, since as int, state.sequence as int);
        }
        if account.shares == 0 {
            lemma_no_shares_no_dust(terms, since as int, state.sequence as int);
        }
        if state.settings.reward_rate_bps == 0 {
            lemma_no_rate_no_dust(terms, since as int, state.sequence as int);
        }
    }
}

proof fn lemma_no_rate_no_dust(terms: Terms, start: int, end: int)
    requires
        terms.rate_bps == 0,
    ensures
        terms.dust(start, end) == 0,
    decreases end - start,
{
    if start < end {
        lemma_no_rate_no_dust(terms, start, end - 1);
        let tier = crate::rewards::tier_multiplier(terms.schedule, end - 1 - terms.staked_at);
        let campaign = crate::rewards::campaign_multiplier(terms.campaign, end - 1);
        assert(0 * tier == 0 && 0 * campaign == 0);
        assert(terms.rate_at(end - 1) == 0);
        assert(terms.shares * 0 == 0);
    }
}

/// A settlement adds exactly the dust of the ledgers since the last one: what does not make a
/// whole token is carried on.
pub proof fn settling_loses_nothing(state: State, user: Address, staked_at: u32)
    requires
        state.balanced(),
        !state.settings.epoch_mode,
        state.settings.reward_rate_bps > 0,
        state.account(user).staked_at == Some(staked_at),
    ensures
        state.settled(user, state.account(user).shares) matches Ok(account) ==> {
            let terms = state.terms(state.account(user).shares, staked_at);
            &&& account.in_order()
            &&& account.accrued_dust() == state.account(user).accrued_dust() + terms.dust(
                state.settled_until(user) as int,
                state.sequence as int,
            )
        },
{
    crate::laws::books::nobody_holds_more_than_all(state, user);
    let account = state.account(user);
    let terms = state.terms(account.shares, staked_at);
    let since = state.settled_until(user);
    if since < state.sequence {
        crate::rewards::dust_grows(terms, since as int, since as int, state.sequence as int);
        if account.shares == 0 {
            lemma_no_shares_no_dust(terms, since as int, state.sequence as int);
        }
    }
}

proof fn lemma_no_shares_no_dust(terms: Terms, start: int, end: int)
    requires
        terms.shares == 0,
    ensures
        terms.dust(start, end) == 0,
    decreases end - start,
{
    if start < end {
        lemma_no_shares_no_dust(terms, start, end - 1);
        let rate = terms.rate_at(end - 1);
        assert(0 * rate == 0);
    }
}

/// A settlement in between changes nothing: settling at one ledger and again at a later one comes
/// to the same as settling at the later one alone.
pub proof fn settling_in_between_changes_nothing(state: State, user: Address, later: u32)
    requires
        state.balanced(),
        state.sequence <= later,
        state.settled_until(user) <= state.sequence,
        state.account(user).checkpoint is Some,
    ensures
        ({
            let shares = state.account(user).shares;
            let alone = state.at(later, state.signers).settled(user, shares);
            state.accrue(user, shares) matches Ok(between) ==> {
                let twice = between.at(later, state.signers).settled(user, shares);
                (alone, twice) matches (Ok(one), Ok(two)) ==> one == two
            }
        }),
{
    let shares = state.account(user).shares;
    let end = state.at(later, state.signers);
    crate::laws::books::settling_keeps_the_books(state, user);
    crate::laws::books::nobody_holds_more_than_all(state, user);
    if let Ok(between) = state.accrue(user, shares) {
        let resumed = between.at(later, state.signers);
        if let (Ok(one), Ok(two)) = (end.settled(user, shares), resumed.settled(user, shares)) {
            if let Some(staked_at) = state.account(user).staked_at {
                if !state.settings.epoch_mode && state.settings.reward_rate_bps > 0 {
                    let terms = state.terms(shares, staked_at);
                    settling_loses_nothing(state, user, staked_at);
                    settling_loses_nothing(end, user, staked_at);
                    settling_loses_nothing(resumed, user, staked_at);
                    crate::rewards::dust_adds_up(
                        terms,
                        state.settled_until(user) as int,
                        state.sequence as int,
                        later as int,
                    );
                    lemma_same_dust(one, two);
                }
            }
        }
    }
}

proof fn lemma_same_dust(one: Account, two: Account)
    requires
        one.in_order(),
        two.in_order(),
        one.accrued_dust() == two.accrued_dust(),
    ensures
        one.accrued == two.accrued,
        one.remainder == two.remainder,
{
}

/// No boost makes a rate smaller: the boosted rate is at least the plain one.
pub proof fn boosts_never_cost(state: State, shares: i128, staked_at: u32, ledger: int)
    requires
        state.within_limits(),
    ensures
        state.terms(shares, staked_at).rate_at(ledger) >= state.settings.reward_rate_bps,
{
    let terms = state.terms(shares, staked_at);
    let rate = state.settings.reward_rate_bps as int;
    lemma_tier(state, ledger - staked_at);
    let tier = crate::rewards::tier_multiplier(state.boost_schedule, ledger - staked_at) as int;
    let campaign = crate::rewards::campaign_multiplier(state.settings.campaign, ledger) as int;
    assert(rate * tier >= rate * 10_000) by (nonlinear_arith)
        requires
            tier >= 10_000,
            rate >= 0,
    ;
    let effective = (rate * tier) / 10_000;
    assert(effective * campaign >= effective * 10_000) by (nonlinear_arith)
        requires
            campaign >= 10_000,
            effective >= 0,
    ;
}

proof fn lemma_tier(state: State, elapsed: int)
    requires
        state.within_limits(),
    ensures
        crate::rewards::tier_multiplier(state.boost_schedule, elapsed) >= BOOST_BPS_BASE,
{
    let schedule = state.boost_schedule;
    lemma_tiers_bound(schedule, elapsed);
    let k = crate::rewards::tiers_reached(schedule, elapsed);
    if k > 0 {
        assert(schedule[k - 1].1 >= BOOST_BPS_BASE);
    }
}

proof fn lemma_tiers_bound(schedule: Seq<(u32, u32)>, elapsed: int)
    ensures
        0 <= crate::rewards::tiers_reached(schedule, elapsed) <= schedule.len(),
    decreases schedule.len(),
{
    if schedule.len() > 0 && schedule[0].0 <= elapsed {
        lemma_tiers_bound(schedule.skip(1), elapsed);
    }
}

/// Every settlement lets the rewards of a user accrue from now on: a stake, an unstake, the request
/// for one, and a claim.
pub proof fn a_settlement_starts_anew(state: State, user: Address, amount: i128)
    ensures
        state.stake(user, amount) matches Ok((next, _)) ==> next.settled_until(user)
            == state.sequence,
        state.unstake(user, amount) matches Ok((next, _)) ==> next.settled_until(user)
            == state.sequence,
        state.request_unstake(user, amount) matches Ok(next) ==> next.settled_until(user)
            == state.sequence,
        state.claim(user) matches Ok((next, _)) ==> next.settled_until(user) == state.sequence,
{
    lemma_stake_settles(state, user, amount);
    lemma_unstake_settles(state, user, amount);
    lemma_request_settles(state, user, amount);
    lemma_claim_settles(state, user);
}

proof fn lemma_stake_settles(state: State, user: Address, amount: i128)
    ensures
        state.stake(user, amount) matches Ok((next, _)) ==> next.settled_until(user)
            == state.sequence,
{
    let shares = state.account(user).shares;
    if let Ok((next, _)) = state.stake(user, amount) {
        let settled = state.accrue(user, shares)->Ok_0;
        assert(settled.account(user).checkpoint == Some(state.sequence));
        let compounded = settled.compound(user)->Ok_0;
        assert(compounded.account(user).checkpoint == Some(state.sequence));
        let credited = compounded.credit(user, user, amount, shares == 0)->Ok_0.0;
        lemma_credit_keeps_checkpoint(compounded, user, user, amount, shares == 0);
        assert(next.accounts == credited.accounts);
    }
}

proof fn lemma_credit_keeps_checkpoint(
    state: State,
    payer: Address,
    user: Address,
    amount: i128,
    fresh: bool,
)
    ensures
        state.credit(payer, user, amount, fresh) matches Ok((next, _)) ==> next.account(
            user,
        ).checkpoint == state.account(user).checkpoint,
{
}

proof fn lemma_unstake_settles(state: State, user: Address, shares: i128)
    ensures
        state.unstake(user, shares) matches Ok((next, _)) ==> next.settled_until(user)
            == state.sequence,
{
    if let Ok((next, _)) = state.unstake(user, shares) {
        let settled = state.accrue(user, state.account(user).shares)->Ok_0;
        assert(settled.account(user).checkpoint == Some(state.sequence));
        let compounded = settled.compound(user)->Ok_0;
        assert(compounded.account(user).checkpoint == Some(state.sequence));
        lemma_debit_keeps_checkpoint(compounded, user, shares);
    }
}

proof fn lemma_debit_keeps_checkpoint(state: State, user: Address, shares: i128)
    ensures
        state.debit(user, shares) matches Ok((next, _)) ==> next.account(user).checkpoint
            == state.account(user).checkpoint,
{
}

proof fn lemma_request_settles(state: State, user: Address, amount: i128)
    ensures
        state.request_unstake(user, amount) matches Ok(next) ==> next.settled_until(user)
            == state.sequence,
{
}

proof fn lemma_claim_settles(state: State, user: Address)
    ensures
        state.claim(user) matches Ok((next, _)) ==> next.settled_until(user) == state.sequence,
{
}

/// Where there is no claim cap, a claim pays what is pending: all that is accrued and all that
/// has accrued since.
pub proof fn a_claim_pays_what_is_pending(state: State, user: Address)
    requires
        state.balanced(),
        state.settings.claim_cap == 0,
    ensures
        state.claim(user) matches Ok((_, reward)) ==> state.pending_reward(user) == Ok::<
            i128,
            VaultError,
        >(reward),
{
    crate::laws::books::nobody_holds_more_than_all(state, user);
    lemma_earned_is_not_negative(state, user);
}

proof fn lemma_earned_is_not_negative(state: State, user: Address)
    requires
        state.balanced(),
    ensures
        state.earned(
            user,
            state.account(user).shares,
            state.settled_until(user),
            state.sequence,
        ) matches Ok((reward, remainder)) ==> reward >= 0,
{
    crate::laws::books::nobody_holds_more_than_all(state, user);
    let account = state.account(user);
    let since = state.settled_until(user);
    if let Some(staked_at) = account.staked_at {
        if since < state.sequence {
            crate::rewards::dust_grows(
                state.terms(account.shares, staked_at),
                since as int,
                since as int,
                state.sequence as int,
            );
        }
    }
}

/// What a claim pays comes off what is accrued and off the reward pool, and is added to what was
/// paid and to what the user has claimed; the rest stays accrued.
pub proof fn a_claim_is_booked(state: State, user: Address)
    requires
        state.balanced(),
    ensures
        state.claim_inner(user) matches Ok((next, reward)) ==> {
            let settled = state.accrue(user, state.account(user).shares)->Ok_0;
            &&& 0 <= reward <= settled.account(user).accrued
            &&& next.account(user).accrued + reward == settled.account(user).accrued
            &&& next.account(user).shares == state.account(user).shares
            &&& next.account(user).total_claimed == state.account(user).total_claimed + reward
            &&& next.pool.reward_pool_balance + reward == state.pool.reward_pool_balance
            &&& next.pool.total_rewards_paid == state.pool.total_rewards_paid + reward
            &&& next.pool.total_shares == state.pool.total_shares
            &&& next.pool.total_deposited == state.pool.total_deposited
        },
{
    crate::laws::books::settling_keeps_the_books(state, user);
    if let Ok(settled) = state.accrue(user, state.account(user).shares) {
        crate::laws::books::nobody_holds_more_than_all(settled, user);
    }
}

/// Nothing is paid twice: where there is no claim cap, a second claim at the same ledger pays
/// nothing.
pub proof fn nothing_is_claimed_twice(state: State, user: Address)
    requires
        state.balanced(),
        state.settings.claim_cap == 0,
    ensures
        state.claim_inner(user) matches Ok((next, _)) ==> {
            next.claim_inner(user) matches Ok((_, again)) && again == 0
        },
{
    if let Ok((next, reward)) = state.claim_inner(user) {
        a_claim_is_booked(state, user);
        let account = next.account(user);
        assert(account.checkpoint == Some(state.sequence));
        assert(next.sequence == state.sequence);
        assert(account.accrued == 0);
        assert(next.accrue(user, account.shares) matches Ok(settled) && settled.account(
            user,
        ).accrued == 0);
    }
}

/// A claim keeps to the cap: it pays no more than the room that is left in the window, and counts
/// what it pays.
pub proof fn a_claim_keeps_to_the_cap(state: State, user: Address)
    requires
        state.balanced(),
        state.settings.claim_cap > 0,
        0 <= state.current_window(user).claimed_in_window <= state.settings.claim_cap,
    ensures
        state.claim_inner(user) matches Ok((next, reward)) ==> {
            &&& reward + state.current_window(user).claimed_in_window <= state.settings.claim_cap
            &&& reward > 0 ==> {
                &&& next.account(user).claim_window matches Some(window)
                &&& window.claimed_in_window == state.current_window(user).claimed_in_window
                    + reward
                &&& window.window_started_at == state.current_window(user).window_started_at
            }
        },
{
    a_claim_is_booked(state, user);
}

/// `stake_and_claim` is a claim, the check on the reserve that a paid claim brings, and a stake.
pub proof fn stake_and_claim_is_both(
    state: State,
    user: Address,
    amount: i128,
    reward_balance: i128,
)
    requires
        state.settings.auto_pause_threshold == 0,
    ensures
        state.stake_and_claim(user, amount, reward_balance) == (match state.claim(user) {
            Err(e) => Err(e),
            Ok((claimed, reward)) => match claimed.stake(user, amount) {
                Err(e) => Err(e),
                Ok((staked, _)) => Ok((staked, reward)),
            },
        }),
{
    if state.authorized(user) {
        if let Ok((claimed, reward)) = state.claim_inner(user) {
            lemma_claim_keeps_signers(state, user);
            assert(claimed.watch_reserve() == claimed);
            assert(claimed.check_auto_pause(reward_balance) == Ok::<State, VaultError>(claimed));
        }
    }
}

proof fn lemma_claim_keeps_signers(state: State, user: Address)
    ensures
        state.claim_inner(user) matches Ok((next, _)) ==> next.signers == state.signers
            && next.settings == state.settings,
{
}

/// `stake_and_claim` tells of the claim before it tells of the stake.
pub proof fn the_claim_is_told_before_the_stake(
    state: State,
    user: Address,
    amount: i128,
    reward_balance: i128,
)
    ensures
        state.stake_and_claim(user, amount, reward_balance) matches Ok((next, reward)) ==> {
            let told = next.effects;
            &&& told.len() > 0
            &&& told.last() matches Effect::Publish(event)
            &&& event is Deposit
            &&& event->depositor == user
            &&& event->Deposit_amount == amount
            &&& reward != 0 ==> exists|i: int|
                0 <= i < told.len() - 1 && #[trigger] told[i] == Effect::Publish(
                    Event::Claimed { user, reward, ledger: state.sequence },
                )
        },
{
    if let Ok((next, reward)) = state.stake_and_claim(user, amount, reward_balance) {
        let claimed = state.claim_inner(user)->Ok_0.0;
        let watched = if reward != 0 {
            claimed.check_auto_pause(reward_balance)->Ok_0
        } else {
            claimed
        };
        lemma_stake_tells(watched, user, amount);
        if reward != 0 {
            let i = claimed.effects.len() - 1;
            lemma_claim_tells(state, user);
            assert(watched.effects[i] == claimed.effects[i]);
            assert(next.effects[i] == watched.effects[i]);
        }
    }
}

proof fn lemma_claim_tells(state: State, user: Address)
    ensures
        state.claim_inner(user) matches Ok((next, reward)) ==> reward != 0 ==> {
            &&& next.effects.len() > 0
            &&& next.effects.last() == Effect::Publish(
                Event::Claimed { user, reward, ledger: state.sequence },
            )
        },
{
}

proof fn lemma_stake_tells(state: State, user: Address, amount: i128)
    ensures
        state.stake_inner(user, amount) matches Ok((next, minted)) ==> {
            &&& next.effects.len() > state.effects.len()
            &&& next.effects.last() == Effect::Publish(
                Event::Deposit {
                    depositor: user,
                    amount,
                    shares_minted: minted,
                    ledger: state.sequence,
                },
            )
            &&& forall|i: int|
                0 <= i < state.effects.len() ==> #[trigger] next.effects[i] == state.effects[i]
        },
{
    let shares = state.account(user).shares;
    if let Ok((next, _)) = state.stake_inner(user, amount) {
        let settled = state.accrue(user, shares)->Ok_0;
        let compounded = settled.compound(user)->Ok_0;
        assert(settled.effects == state.effects);
        assert(compounded.effects.len() >= settled.effects.len());
        lemma_credit_tells(compounded, user, user, amount, shares == 0);
    }
}

proof fn lemma_credit_tells(
    state: State,
    payer: Address,
    user: Address,
    amount: i128,
    fresh: bool,
)
    ensures
        state.credit(payer, user, amount, fresh) matches Ok((next, _)) ==> {
            &&& next.effects.len() >= state.effects.len()
            &&& forall|i: int|
                0 <= i < state.effects.len() ==> #[trigger] next.effects[i] == state.effects[i]
        },
{
}

/// With a threshold, `stake_and_claim` sees the pool paused between its two parts where the claim
/// left too little; then the stake is refused and nothing happens at all.
pub proof fn stake_and_claim_stops_short(
    state: State,
    user: Address,
    amount: i128,
    reward_balance: i128,
)
    requires
        state.settings.auto_pause_threshold != 0,
        reward_balance < state.settings.auto_pause_threshold,
        !state.settings.stopped,
    ensures
        state.claim_inner(user) matches Ok((_, reward)) ==> reward != 0 ==> state.stake_and_claim(
            user,
            amount,
            reward_balance,
        ) is Err,
{
    if let Ok((claimed, reward)) = state.claim_inner(user) {
        lemma_claim_keeps_signers(state, user);
    }
}

/// What a user is owed grows from one ledger to the next by their shares times the rate of the
/// pool, raised by the tier that the user has reached and by the campaign that runs, each rounded
/// down; in epoch mode it does not grow.
pub proof fn what_is_owed_grows_by_the_boosted_rate(
    state: State,
    user: Address,
    signers: Seq<Address>,
    tier: int,
    tier_bps: int,
    campaign_bps: int,
)
    requires
        state.within_limits(),
        state.sequence < u32::MAX,
        state.account(user).checkpoint matches Some(settled) && settled <= state.sequence,
        state.account(user).staked_at is Some,
        -1 <= tier < state.boost_schedule.len(),
        ({
            let elapsed = state.sequence - state.account(user).staked_at->Some_0;
            &&& tier >= 0 ==> state.boost_schedule[tier].0 <= elapsed
            &&& tier + 1 < state.boost_schedule.len() ==> elapsed < state.boost_schedule[tier + 1].0
        }),
        tier_bps == if tier >= 0 {
            state.boost_schedule[tier].1 as int
        } else {
            10_000
        },
        campaign_bps == match state.settings.campaign {
            Some(c) if c.starts_at_ledger <= state.sequence && state.sequence < c.ends_at_ledger =>
                c.multiplier_bps as int,
            _ => 10_000,
        },
    ensures
        ({
            let next = state.at((state.sequence + 1) as u32, signers);
            &&& state.settings.epoch_mode ==> next.owed_dust(user) == state.owed_dust(user)
            &&& !state.settings.epoch_mode ==> exists|tier_rate: int, rate: int|
                {
                    &&& #[trigger] crate::laws::amounts::rounded_down(
                        tier_rate,
                        state.settings.reward_rate_bps as int,
                        tier_bps,
                        10_000,
                    )
                    &&& #[trigger] crate::laws::amounts::rounded_down(
                        rate,
                        tier_rate,
                        campaign_bps,
                        10_000,
                    )
                    &&& next.owed_dust(user) == state.owed_dust(user) + state.account(user).shares
                        * rate
                }
        }),
{
    let account = state.account(user);
    let terms = state.terms(account.shares, account.staked_at->Some_0);
    let settled = account.checkpoint->Some_0 as int;
    let next = state.at((state.sequence + 1) as u32, signers);
    assert(next.account(user) == account);
    assert(next.terms(account.shares, account.staked_at->Some_0) == terms);
    if !state.settings.epoch_mode {
        a_ledger_earns_the_boosted_rate(
            terms,
            settled,
            state.sequence as int,
            tier,
            tier_bps,
            campaign_bps,
        );
        let (tier_rate, rate) = choose|tier_rate: int, rate: int|
            {
                &&& #[trigger] crate::laws::amounts::rounded_down(
                    tier_rate,
                    terms.rate_bps as int,
                    tier_bps,
                    10_000,
                )
                &&& #[trigger] crate::laws::amounts::rounded_down(
                    rate,
                    tier_rate,
                    campaign_bps,
                    10_000,
                )
                &&& terms.dust(settled, state.sequence + 1) == terms.dust(
                    settled,
                    state.sequence as int,
                ) + terms.shares * rate
            };
        assert(crate::laws::amounts::rounded_down(
            tier_rate,
            state.settings.reward_rate_bps as int,
            tier_bps,
            10_000,
        ));
    }
}

/// What was settled at a ledger is owed at that ledger, to the last dust.
pub proof fn what_is_settled_is_owed(state: State, user: Address)
    requires
        state.account(user).checkpoint == Some(state.sequence),
    ensures
        state.owed_dust(user) == state.account(user).accrued * 63_072_000_000 + state.account(
            user,
        ).remainder,
{
}

/// With a threshold `stake_and_claim` is a claim and a stake too, where the claim pays nothing or
/// leaves enough.
pub proof fn stake_and_claim_goes_on(
    state: State,
    user: Address,
    amount: i128,
    reward_balance: i128,
)
    requires
        state.signers.contains(user),
        state.settings.token is Some,
        reward_balance >= state.settings.auto_pause_threshold,
    ensures
        match (state.claim_inner(user), state.stake_and_claim(user, amount, reward_balance)) {
            (Err(e), r) => r == Err::<(State, i128), VaultError>(e),
            (Ok((claimed, reward)), r) => match (claimed.stake(user, amount), r) {
                (Ok((staked, _)), Ok((next, paid))) => next == staked && paid == reward,
                (Err(e), Err(f)) => e == f,
                _ => false,
            },
        },
{
    lemma_claim_keeps_signers(state, user);
}

} // verus!
