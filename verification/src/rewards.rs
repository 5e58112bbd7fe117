//! How rewards accrue.
//!
//! Every ledger adds the user's shares times the boosted rate of that ledger, as dust. A
//! `REWARD_UNIT` of dust is one token; what is left over is carried to the next settlement, so
//! that nothing is lost to rounding.
use crate::address::Address;
use crate::env::{Env, State};
use crate::errors::VaultError;
use crate::storage::{Account, CampaignInfo};
use crate::vault::VaultContract;
use vstd::prelude::*;

verus! {

/// The multiplier of a user without a boost, in basis points.
pub const BOOST_BPS_BASE: u32 = 10_000;

/// How many ledgers Stellar closes in a year.
pub const STELLAR_LEDGERS_PER_YEAR: u32 = 6_307_200;

/// How much dust is one token: `BOOST_BPS_BASE` times `STELLAR_LEDGERS_PER_YEAR`.
pub const REWARD_UNIT: i128 = 63_072_000_000;

/// How many boost tiers are reached `elapsed` ledgers after the stake. The tiers are gone
/// through in order, up to the first that is not reached.
pub open spec fn tiers_reached(schedule: Seq<(u32, u32)>, elapsed: int) -> int
    decreases schedule.len(),
{
    if schedule.len() == 0 || schedule[0].0 > elapsed {
        0
    } else {
        1 + tiers_reached(schedule.skip(1), elapsed)
    }
}

/// The multiplier `elapsed` ledgers after the stake: that of the last tier reached.
pub open spec fn tier_multiplier(schedule: Seq<(u32, u32)>, elapsed: int) -> u32 {
    if tiers_reached(schedule, elapsed) == 0 {
        BOOST_BPS_BASE
    } else {
        schedule[tiers_reached(schedule, elapsed) - 1].1
    }
}

/// The multiplier that a campaign gives to everybody at a ledger.
pub open spec fn campaign_multiplier(campaign: Option<CampaignInfo>, ledger: int) -> u32 {
    match campaign {
        Some(c) => if c.starts_at_ledger <= ledger < c.ends_at_ledger {
            c.multiplier_bps
        } else {
            BOOST_BPS_BASE
        },
        None => BOOST_BPS_BASE,
    }
}

/// A rate with both multipliers, which stack.
pub open spec fn boosted_rate(rate_bps: u32, tier_bps: u32, campaign_bps: u32) -> int {
    ((rate_bps * tier_bps) / 10_000) * campaign_bps / 10_000
}

/// A number as an amount, or the arithmetic error where it is too large for one.
pub open spec fn amount_of(x: int) -> Result<i128, VaultError> {
    if crate::math::fits(x) {
        Ok(x as i128)
    } else {
        Err(VaultError::ArithmeticError)
    }
}

/// What the rewards of a position depend on.
pub struct Terms {
    pub shares: i128,
    pub rate_bps: u32,
    pub staked_at: u32,
    pub schedule: Seq<(u32, u32)>,
    pub campaign: Option<CampaignInfo>,
}

impl Terms {
    /// The boosted rate at a ledger.
    pub open spec fn rate_at(self, ledger: int) -> int {
        boosted_rate(
            self.rate_bps,
            tier_multiplier(self.schedule, ledger - self.staked_at),
            campaign_multiplier(self.campaign, ledger),
        )
    }

    /// The dust that the ledgers from `start` up to, but not including, `end` add.
    pub open spec fn dust(self, start: int, end: int) -> int
        decreases end - start,
    {
        if end <= start {
            0
        } else {
            self.dust(start, end - 1) + self.shares * self.rate_at(end - 1)
        }
    }
}

/// Dust over two periods that meet is the dust over both together.
pub proof fn dust_adds_up(terms: Terms, start: int, middle: int, end: int)
    requires
        start <= middle <= end,
    ensures
        terms.dust(start, end) == terms.dust(start, middle) + terms.dust(middle, end),
    decreases end - middle,
{
    if middle < end {
        dust_adds_up(terms, start, middle, end - 1);
    }
}

proof fn lemma_boosted_rate_bounds(rate_bps: u32, tier_bps: u32, campaign_bps: u32)
    ensures
        0 <= rate_bps * tier_bps <= 0x1_0000_0000 * 0x1_0000_0000,
        0 <= (rate_bps * tier_bps) / 10_000 <= 0x1_0000_0000 * 0x1_0000_0000,
        0 <= ((rate_bps * tier_bps) / 10_000) * campaign_bps <= 0x1_0000_0000 * 0x1_0000_0000
            * 0x1_0000_0000,
        0 <= boosted_rate(rate_bps, tier_bps, campaign_bps) <= 0x1_0000_0000 * 0x1_0000_0000
            * 0x1_0000_0000,
{
    assert(0 <= rate_bps * tier_bps <= 0x1_0000_0000 * 0x1_0000_0000) by (nonlinear_arith)
        requires
            0 <= rate_bps <= 0x1_0000_0000,
            0 <= tier_bps <= 0x1_0000_0000,
    ;
    let e = (rate_bps * tier_bps) / 10_000;
    assert(0 <= e * campaign_bps <= 0x1_0000_0000 * 0x1_0000_0000 * 0x1_0000_0000)
        by (nonlinear_arith)
        requires
            0 <= e <= 0x1_0000_0000 * 0x1_0000_0000,
            0 <= campaign_bps <= 0x1_0000_0000,
    ;
}

/// A boosted rate is never negative.
pub proof fn boosted_rate_is_not_negative(rate_bps: u32, tier_bps: u32, campaign_bps: u32)
    ensures
        boosted_rate(rate_bps, tier_bps, campaign_bps) >= 0,
{
    lemma_boosted_rate_bounds(rate_bps, tier_bps, campaign_bps);
}

/// The dust of longer periods is further from zero, on the side of the shares.
pub proof fn dust_grows(terms: Terms, start: int, middle: int, end: int)
    requires
        start <= middle <= end,
    ensures
        terms.shares >= 0 ==> 0 <= terms.dust(start, middle) <= terms.dust(start, end),
        terms.shares <= 0 ==> 0 >= terms.dust(start, middle) >= terms.dust(start, end),
    decreases end - start,
{
    if start < end {
        let r = terms.rate_at(end - 1);
        lemma_boosted_rate_bounds(
            terms.rate_bps,
            tier_multiplier(terms.schedule, end - 1 - terms.staked_at),
            campaign_multiplier(terms.campaign, end - 1),
        );
        let s = terms.shares as int;
        assert(s >= 0 ==> s * r >= 0) by (nonlinear_arith)
            requires
                r >= 0,
        ;
        assert(s <= 0 ==> s * r <= 0) by (nonlinear_arith)
            requires
                r >= 0,
        ;
        if middle < end {
            dust_grows(terms, start, middle, end - 1);
        } else {
            dust_grows(terms, start, end - 1, end - 1);
        }
    }
}

/// Dust over a period in which the rate does not change.
pub(crate) proof fn lemma_dust_steady(terms: Terms, start: int, end: int, rate: int)
    requires
        start <= end,
        forall|l: int| start <= l < end ==> #[trigger] terms.rate_at(l) == rate,
    ensures
        terms.dust(start, end) == terms.shares * rate * (end - start),
    decreases end - start,
{
    let p = terms.shares * rate;
    if start < end {
        lemma_dust_steady(terms, start, end - 1, rate);
        assert(terms.rate_at(end - 1) == rate);
        assert(p * (end - 1 - start) + p == p * (end - start)) by (nonlinear_arith);
    } else {
        assert(p * (end - start) == 0) by (nonlinear_arith)
            requires
                end == start,
        ;
    }
}

pub(crate) proof fn lemma_tiers_reached(schedule: Seq<(u32, u32)>, elapsed: int, k: int)
    requires
        0 <= k <= schedule.len(),
        forall|i: int| 0 <= i < k ==> (#[trigger] schedule[i]).0 <= elapsed,
        k < schedule.len() ==> schedule[k].0 > elapsed,
    ensures
        tiers_reached(schedule, elapsed) == k,
    decreases schedule.len(),
{
    if k > 0 {
        assert(schedule[0].0 <= elapsed);
        let tail = schedule.skip(1);
        assert forall|i: int| 0 <= i < k - 1 implies (#[trigger] tail[i]).0 <= elapsed by {
            assert(tail[i] == schedule[i + 1]);
        }
        lemma_tiers_reached(tail, elapsed, k - 1);
    }
}

impl State {
    /// What the rewards on `shares` of a user who staked at `staked_at` depend on.
    pub open spec fn terms(self, shares: i128, staked_at: u32) -> Terms {
        Terms {
            shares,
            rate_bps: self.settings.reward_rate_bps,
            staked_at,
            schedule: self.boost_schedule,
            campaign: self.settings.campaign,
        }
    }

    /// What a user earns on `shares` from ledger `start` up to ledger `end`, in whole tokens,
    /// and the dust that is left over.
    pub open spec fn earned(self, user: Address, shares: i128, start: u32, end: u32) -> Result<
        (i128, i128),
        VaultError,
    > {
        let account = self.account(user);
        match account.staked_at {
            Some(staked_at) => if shares == 0 || end <= start || self.settings.reward_rate_bps == 0 {
                Ok((0, account.remainder))
            } else {
                let fresh = self.terms(shares, staked_at).dust(start as int, end as int);
                let dust = fresh + account.remainder;
                if crate::math::fits(fresh) && crate::math::fits(dust) {
                    Ok(
                        (
                            crate::math::quotient(dust, REWARD_UNIT as int) as i128,
                            crate::math::rest(dust, REWARD_UNIT as int) as i128,
                        ),
                    )
                } else {
                    Err(VaultError::ArithmeticError)
                }
            },
            None => Ok((0, account.remainder)),
        }
    }

    /// The ledger up to which the rewards of a user are settled.
    pub open spec fn settled_until(self, user: Address) -> u32 {
        match self.account(user).checkpoint {
            Some(ledger) => ledger,
            None => self.sequence,
        }
    }

    /// What a user could claim now if nothing stood in the way.
    pub open spec fn pending_reward(self, user: Address) -> Result<i128, VaultError> {
        let account = self.account(user);
        match self.earned(user, account.shares, self.settled_until(user), self.sequence) {
            Ok((reward, _)) => amount_of(account.accrued + reward),
            Err(e) => Err(e),
        }
    }

    /// The account of a user after the rewards on `shares` were settled up to now. In epoch
    /// mode nothing accrues by the ledger.
    pub open spec fn settled(self, user: Address, shares: i128) -> Result<Account, VaultError> {
        let account = self.account(user);
        if self.settings.epoch_mode {
            Ok(Account { checkpoint: Some(self.sequence), ..account })
        } else {
            match self.earned(user, shares, self.settled_until(user), self.sequence) {
                Ok((reward, remainder)) => if reward > 0 {
                    if crate::math::fits(account.accrued + reward) {
                        Ok(
                            Account {
                                checkpoint: Some(self.sequence),
                                accrued: (account.accrued + reward) as i128,
                                remainder,
                                ..account
                            },
                        )
                    } else {
                        Err(VaultError::ArithmeticError)
                    }
                } else {
                    Ok(Account { checkpoint: Some(self.sequence), remainder, ..account })
                },
                Err(e) => Err(e),
            }
        }
    }

    /// The pool after the rewards on `shares` of a user were settled up to now.
    pub open spec fn accrue(self, user: Address, shares: i128) -> Result<State, VaultError> {
        match self.settled(user, shares) {
            Ok(account) => Ok(self.with_account(user, account)),
            Err(e) => Err(e),
        }
    }
}

impl VaultContract {
    /// The dust that `elapsed_ledgers` ledgers add at a rate with a multiplier.
    ///
    /// An amount of 100 at 100 bps over 300 ledgers is 3,000,000 dust, far less than one token:
    /// it would be lost if it were divided here.
    pub fn reward_dust_for_ledgers(
        amount: i128,
        rate_bps: u32,
        multiplier_bps: u32,
        elapsed_ledgers: u32,
    ) -> (r: Result<i128, VaultError>)
        ensures
            r == amount_of(amount * ((rate_bps * multiplier_bps) / 10_000) * elapsed_ledgers),
    {
        proof {
            lemma_boosted_rate_bounds(rate_bps, multiplier_bps, BOOST_BPS_BASE);
            let e = (rate_bps * multiplier_bps) / 10_000;
            assert(e * BOOST_BPS_BASE / 10_000 == e);
        }
        Self::boosted_dust(amount, rate_bps, multiplier_bps, BOOST_BPS_BASE, elapsed_ledgers)
    }

    /// The dust that `elapsed_ledgers` ledgers add at a rate with both multipliers.
    fn boosted_dust(
        amount: i128,
        rate_bps: u32,
        multiplier_bps: u32,
        campaign_multiplier_bps: u32,
        elapsed_ledgers: u32,
    ) -> (r: Result<i128, VaultError>)
        ensures
            r == amount_of(
                amount * boosted_rate(rate_bps, multiplier_bps, campaign_multiplier_bps)
                    * elapsed_ledgers,
            ),
    {
        let ghost rate = boosted_rate(rate_bps, multiplier_bps, campaign_multiplier_bps);
        if elapsed_ledgers == 0 || amount == 0 {
            assert(amount * rate * elapsed_ledgers == 0) by (nonlinear_arith)
                requires
                    elapsed_ledgers == 0 || amount == 0,
            ;
            return Ok(0);
        }
        let boosted: i128 = Self::boosted_rate_bps(
            rate_bps,
            multiplier_bps,
            campaign_multiplier_bps,
        );
        let per_ledger: i128 = match amount.checked_mul(boosted) {
            Some(x) => x,
            None => {
                proof {
                    let x = amount * rate;
                    assert(x * elapsed_ledgers >= x || x < 0) by (nonlinear_arith)
                        requires
                            elapsed_ledgers >= 1,
                    ;
                    assert(x * elapsed_ledgers <= x || x > 0) by (nonlinear_arith)
                        requires
                            elapsed_ledgers >= 1,
                    ;
                }
                return Err(VaultError::ArithmeticError);
            },
        };
        match per_ledger.checked_mul(elapsed_ledgers as i128) {
            Some(x) => Ok(x),
            None => Err(VaultError::ArithmeticError),
        }
    }

    /// A rate with both multipliers.
    pub(crate) fn boosted_rate_bps(rate_bps: u32, tier_bps: u32, campaign_bps: u32) -> (rate: i128)
        ensures
            rate == boosted_rate(rate_bps, tier_bps, campaign_bps),
    {
        proof {
            lemma_boosted_rate_bounds(rate_bps, tier_bps, campaign_bps);
        }
        let effective: i128 = (rate_bps as i128 * tier_bps as i128) / 10_000;
        (effective * campaign_bps as i128) / 10_000
    }

    /// The reward for `elapsed_ledgers` ledgers at a rate with both multipliers, in whole tokens.
    pub fn reward_for_ledgers(
        amount: i128,
        rate_bps: u32,
        multiplier_bps: u32,
        campaign_multiplier_bps: u32,
        elapsed_ledgers: u32,
    ) -> (r: Result<i128, VaultError>)
        ensures
            r == simple_reward(
                amount,
                boosted_rate(rate_bps, multiplier_bps, campaign_multiplier_bps),
                elapsed_ledgers,
            ),
    {
        match Self::boosted_dust(
            amount,
            rate_bps,
            multiplier_bps,
            campaign_multiplier_bps,
            elapsed_ledgers,
        ) {
            Ok(dust) => Ok(dust / REWARD_UNIT),
            Err(e) => Err(e),
        }
    }

    /// The campaign multiplier at a ledger, and the next ledger at which it can change.
    pub fn campaign_info_at(cursor: u32, campaign: &Option<CampaignInfo>) -> (r: (u32, u32))
        ensures
            r.0 == campaign_multiplier(*campaign, cursor as int),
            r.1 == (match *campaign {
                Some(c) => if cursor < c.starts_at_ledger {
                    c.starts_at_ledger
                } else if cursor < c.ends_at_ledger {
                    c.ends_at_ledger
                } else {
                    u32::MAX
                },
                None => u32::MAX,
            }),
    {
        match campaign {
            Some(c) => {
                if cursor >= c.starts_at_ledger && cursor < c.ends_at_ledger {
                    (c.multiplier_bps, c.ends_at_ledger)
                } else if cursor < c.starts_at_ledger {
                    (BOOST_BPS_BASE, c.starts_at_ledger)
                } else {
                    (BOOST_BPS_BASE, u32::MAX)
                }
            },
            None => (BOOST_BPS_BASE, u32::MAX),
        }
    }

    /// The multiplier of the last tier that is reached after `elapsed` ledgers.
    pub(crate) fn multiplier_for_elapsed(schedule: &Vec<(u32, u32)>, elapsed: u32) -> (r: u32)
        ensures
            r == tier_multiplier(schedule@, elapsed as int),
    {
        let k: usize = Self::tiers_for_elapsed(schedule, elapsed);
        if k == 0 {
            BOOST_BPS_BASE
        } else {
            schedule[k - 1].1
        }
    }

    /// How many tiers are reached after `elapsed` ledgers.
    pub(crate) fn tiers_for_elapsed(schedule: &Vec<(u32, u32)>, elapsed: u32) -> (k: usize)
        ensures
            k == tiers_reached(schedule@, elapsed as int),
            k <= schedule@.len(),
            k < schedule@.len() ==> schedule@[k as int].0 > elapsed,
            forall|i: int| 0 <= i < k ==> (#[trigger] schedule@[i]).0 <= elapsed,
    {
        let mut k: usize = 0;
        while k < schedule.len() && schedule[k].0 <= elapsed
            invariant
                k <= schedule@.len(),
                forall|i: int| 0 <= i < k ==> (#[trigger] schedule@[i]).0 <= elapsed,
            decreases schedule@.len() - k,
        {
            k = k + 1;
        }
        proof {
            lemma_tiers_reached(schedule@, elapsed as int, k as int);
        }
        k
    }

    /// The tier multiplier at a ledger for a user who staked at `staked_at`, and a later ledger
    /// up to which it stays.
    fn tier_info_at(schedule: &Vec<(u32, u32)>, staked_at: u32, cursor: u32) -> (r: (u32, u32))
        requires
            cursor < u32::MAX,
        ensures
            r.1 > cursor,
            forall|l: int|
                cursor <= l < r.1 ==> #[trigger] tier_multiplier(schedule@, l - staked_at) == r.0,
    {
        if cursor < staked_at {
            proof {
                assert forall|l: int| cursor <= l < staked_at implies
                    #[trigger] tier_multiplier(schedule@, l - staked_at) == BOOST_BPS_BASE by {
                    lemma_tiers_reached(schedule@, l - staked_at, 0);
                }
            }
            return (BOOST_BPS_BASE, staked_at);
        }
        let elapsed: u32 = cursor - staked_at;
        let k: usize = Self::tiers_for_elapsed(schedule, elapsed);
        let multiplier: u32 = if k == 0 {
            BOOST_BPS_BASE
        } else {
            schedule[k - 1].1
        };
        let until: u32 = if k < schedule.len() {
            staked_at.saturating_add(schedule[k].0)
        } else {
            u32::MAX
        };
        proof {
            assert forall|l: int| cursor <= l < until implies
                #[trigger] tier_multiplier(schedule@, l - staked_at) == multiplier by {
                lemma_tiers_reached(schedule@, l - staked_at, k as int);
            }
        }
        (multiplier, until)
    }

    /// What a user earns on `current_shares` from one ledger up to another, in whole tokens, and
    /// the dust that is left over. The period is cut where a tier or the campaign begins or ends.
    pub(crate) fn reward_between_ledgers(
        env: &Env,
        user: Address,
        current_shares: i128,
        start_ledger: u32,
        end_ledger: u32,
    ) -> (r: Result<(i128, i128), VaultError>)
        ensures
            r == env@.earned(user, current_shares, start_ledger, end_ledger),
    {
        let account = env.account(user);
        let rate_bps: u32 = env.settings.reward_rate_bps;
        let staked_at: u32 = match account.staked_at {
            Some(ledger) => ledger,
            None => {
                return Ok((0, account.remainder));
            },
        };
        if current_shares == 0 || end_ledger <= start_ledger || rate_bps == 0 {
            return Ok((0, account.remainder));
        }
        let ghost terms = env@.terms(current_shares, staked_at);
        let ghost (first, last) = (start_ledger as int, end_ledger as int);
        let mut dust: i128 = 0;
        let mut cursor: u32 = start_ledger;
        while cursor < end_ledger
            invariant
                start_ledger <= cursor <= end_ledger,
                terms == env@.terms(current_shares, staked_at),
                rate_bps == env.settings.reward_rate_bps,
                first == start_ledger,
                last == end_ledger,
                dust == terms.dust(first, cursor as int),
                account == env@.account(user),
                account.staked_at == Some(staked_at),
                !(current_shares == 0 || end_ledger <= start_ledger || rate_bps == 0),
            decreases end_ledger - cursor,
        {
            let (tier_bps, tier_until) = Self::tier_info_at(&env.boost_schedule, staked_at, cursor);
            let (campaign_bps, campaign_until) = Self::campaign_info_at(cursor, &env.settings.campaign);
            let mut until: u32 = end_ledger;
            if tier_until < until {
                until = tier_until;
            }
            if campaign_until < until {
                until = campaign_until;
            }
            proof {
                let rate = boosted_rate(rate_bps, tier_bps, campaign_bps);
                assert forall|l: int| cursor <= l < until implies #[trigger] terms.rate_at(l)
                    == rate by {
                    assert(tier_multiplier(env@.boost_schedule, l - staked_at) == tier_bps);
                }
                lemma_dust_steady(terms, cursor as int, until as int, rate);
                dust_adds_up(terms, first, cursor as int, until as int);
                dust_grows(terms, first, cursor as int, until as int);
                dust_grows(terms, cursor as int, cursor as int, until as int);
                dust_grows(terms, first, until as int, last);
            }
            let segment: i128 = match Self::boosted_dust(
                current_shares,
                rate_bps,
                tier_bps,
                campaign_bps,
                until - cursor,
            ) {
                Ok(x) => x,
                Err(e) => {
                    return Err(e);
                },
            };
            dust = match dust.checked_add(segment) {
                Some(x) => x,
                None => {
                    return Err(VaultError::ArithmeticError);
                },
            };
            cursor = until;
        }
        match dust.checked_add(account.remainder) {
            Some(total) => Ok((total / REWARD_UNIT, total % REWARD_UNIT)),
            None => Err(VaultError::ArithmeticError),
        }
    }

    /// What a user could claim now if nothing stood in the way.
    pub(crate) fn pending_raw(env: &Env, user: Address) -> (r: Result<i128, VaultError>)
        ensures
            r == env@.pending_reward(user),
    {
        let account = env.account(user);
        let since: u32 = match account.checkpoint {
            Some(ledger) => ledger,
            None => env.sequence,
        };
        match Self::reward_between_ledgers(env, user, account.shares, since, env.sequence) {
            Ok((reward, _)) => match account.accrued.checked_add(reward) {
                Some(x) => Ok(x),
                None => Err(VaultError::ArithmeticError),
            },
            Err(e) => Err(e),
        }
    }

    /// The account of a user after the rewards on `current_shares` were settled up to now.
    pub(crate) fn settled_account(env: &Env, user: Address, current_shares: i128) -> (r: Result<
        Account,
        VaultError,
    >)
        ensures
            r == env@.settled(user, current_shares),
    {
        let mut account = env.account(user);
        let now: u32 = env.sequence;
        if !env.settings.epoch_mode {
            let since: u32 = match account.checkpoint {
                Some(ledger) => ledger,
                None => now,
            };
            match Self::reward_between_ledgers(env, user, current_shares, since, now) {
                Ok((reward, remainder)) => {
                    if reward > 0 {
                        match account.accrued.checked_add(reward) {
                            Some(accrued) => {
                                account.accrued = accrued;
                            },
                            None => {
                                return Err(VaultError::ArithmeticError);
                            },
                        }
                    }
                    account.remainder = remainder;
                },
                Err(e) => {
                    return Err(e);
                },
            }
        }
        account.checkpoint = Some(now);
        Ok(account)
    }

    /// Settles the rewards on `current_shares` of a user up to now.
    pub(crate) fn accrue_rewards(env: &mut Env, user: Address, current_shares: i128) -> (r: Result<
        (),
        VaultError,
    >)
        ensures
            crate::env::did(r, final(env)@, old(env)@.accrue(user, current_shares)),
    {
        match Self::settled_account(env, user, current_shares) {
            Ok(account) => {
                env.set_account(user, account);
                Ok(())
            },
            Err(e) => Err(e),
        }
    }
}

/// The reward for `ledgers` ledgers at a steady rate, in whole tokens.
pub open spec fn simple_reward(amount: i128, rate_bps: int, ledgers: u32) -> Result<
    i128,
    VaultError,
> {
    let dust = amount * rate_bps * ledgers;
    if crate::math::fits(dust) {
        Ok(crate::math::quotient(dust, REWARD_UNIT as int) as i128)
    } else {
        Err(VaultError::ArithmeticError)
    }
}

} // verus!
