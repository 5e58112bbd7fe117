//! Estimates and simulations: what a stake would earn, and when.
use crate::address::Address;
use crate::admin::get_admin;
use crate::balance::shares_to_amount;
use crate::env::{Env, State};
use crate::errors::VaultError;
use crate::rewards::{BOOST_BPS_BASE, REWARD_UNIT};
use crate::vault::VaultContract;
use vstd::prelude::*;

verus! {

/// How many ledgers Stellar closes in a day.
pub const LEDGERS_PER_DAY: u32 = 17_280;

/// 10 to the power of `exponent`, where it can be held.
pub open spec fn ten_to(exponent: u32) -> Option<i128> {
    if crate::math::fits(crate::math::power(10, exponent as nat)) {
        Some(crate::math::power(10, exponent as nat) as i128)
    } else {
        None
    }
}

/// The rate that was in force at a ledger: the old rate of the first change after it, and the
/// present rate where there was none.
pub open spec fn rate_in_force(history: Seq<(u32, u32)>, current: u32, ledger: int) -> u32
    decreases history.len(),
{
    if history.len() == 0 {
        current
    } else if history[0].0 > ledger {
        history[0].1
    } else {
        rate_in_force(history.skip(1), current, ledger)
    }
}

/// The sum of the rates in force over the ledgers from `start` up to, but not including, `end`.
pub open spec fn rates_sum(history: Seq<(u32, u32)>, current: u32, start: int, end: int) -> int
    decreases end - start,
{
    if end <= start {
        0
    } else {
        rates_sum(history, current, start, end - 1) + rate_in_force(history, current, end - 1)
    }
}

/// What claims every `interval` ledgers earn in `ledgers` ledgers where each one is staked on
/// top of `amount`; `total` is what they earned before.
pub open spec fn compounded(
    amount: i128,
    total: i128,
    rate_bps: u32,
    ledgers: u32,
    interval: u32,
) -> Result<i128, VaultError>
    decreases ledgers,
{
    if ledgers == 0 || interval == 0 {
        Ok(total)
    } else {
        let step = if ledgers < interval {
            ledgers
        } else {
            interval
        };
        match crate::rewards::simple_reward(amount, rate_bps as int, step) {
            Err(e) => Err(e),
            Ok(reward) => if !crate::math::fits(total + reward) || !crate::math::fits(
                amount + reward,
            ) {
                Err(VaultError::ArithmeticError)
            } else {
                compounded(
                    (amount + reward) as i128,
                    (total + reward) as i128,
                    rate_bps,
                    (ledgers - step) as u32,
                    interval,
                )
            },
        }
    }
}

/// What `amount` earns from `cursor` up to `ledgers` ledgers after the stake, with a multiplier
/// that `tiers` raise; `total` is what it earned before. Each tier is rounded by itself.
pub open spec fn tiered(
    amount: i128,
    total: i128,
    rate_bps: u32,
    multiplier_bps: u32,
    cursor: u32,
    ledgers: u32,
    tiers: Seq<(u32, u32)>,
) -> Result<i128, VaultError>
    decreases tiers.len(),
{
    let rate = (rate_bps * multiplier_bps) / 10_000;
    if tiers.len() > 0 && tiers[0].0 <= cursor {
        tiered(amount, total, rate_bps, tiers[0].1, cursor, ledgers, tiers.skip(1))
    } else if tiers.len() > 0 && tiers[0].0 < ledgers {
        match crate::rewards::simple_reward(amount, rate, (tiers[0].0 - cursor) as u32) {
            Err(e) => Err(e),
            Ok(reward) => if !crate::math::fits(total + reward) {
                Err(VaultError::ArithmeticError)
            } else {
                tiered(
                    amount,
                    (total + reward) as i128,
                    rate_bps,
                    tiers[0].1,
                    tiers[0].0,
                    ledgers,
                    tiers.skip(1),
                )
            },
        }
    } else if cursor < ledgers {
        match crate::rewards::simple_reward(amount, rate, (ledgers - cursor) as u32) {
            Err(e) => Err(e),
            Ok(reward) => crate::rewards::amount_of(total + reward),
        }
    } else {
        Ok(total)
    }
}

impl State {
    /// An amount of stake tokens in the precision of the reward token.
    pub open spec fn normalized(self, amount: i128) -> Result<i128, VaultError> {
        let (from, to) = (self.settings.stake_decimals, self.settings.reward_decimals);
        if from == to {
            Ok(amount)
        } else if to > from {
            match ten_to((to - from) as u32) {
                None => Err(VaultError::ArithmeticError),
                Some(factor) => crate::rewards::amount_of(amount * factor),
            }
        } else {
            match ten_to((from - to) as u32) {
                None => Err(VaultError::ArithmeticError),
                Some(factor) => Ok(crate::math::quotient(amount as int, factor as int) as i128),
            }
        }
    }

    /// The same, or the amount itself where it cannot be held.
    pub open spec fn normalized_or_raw(self, amount: i128) -> i128 {
        match self.normalized(amount) {
            Ok(normalized) => normalized,
            Err(_) => amount,
        }
    }

    /// The tier multiplier of a user now.
    pub open spec fn boost_multiplier(self, user: Address) -> u32 {
        match self.account(user).staked_at {
            Some(staked_at) => crate::rewards::tier_multiplier(
                self.boost_schedule,
                crate::math::ledgers_between(staked_at, self.sequence) as int,
            ),
            None => BOOST_BPS_BASE,
        }
    }

    /// The rate of a user now, with both multipliers.
    pub open spec fn boosted_rate_of(self, user: Address) -> int {
        crate::rewards::boosted_rate(
            self.settings.reward_rate_bps,
            self.boost_multiplier(user),
            crate::rewards::campaign_multiplier(self.settings.campaign, self.sequence as int),
        )
    }

    /// How many ledgers it takes to earn `remaining` at a steady rate on `amount`, rounded up.
    pub open spec fn ledgers_for(remaining: int, amount: i128, rate: int) -> Result<
        u32,
        VaultError,
    > {
        let per_ledger = amount * rate;
        let dust = remaining * REWARD_UNIT;
        if !crate::math::fits(per_ledger) || !crate::math::fits(remaining) || !crate::math::fits(
            dust,
        ) || !crate::math::fits(dust + per_ledger - 1) {
            Err(VaultError::ArithmeticError)
        } else {
            let ledgers = (dust + per_ledger - 1) / per_ledger;
            if ledgers > u32::MAX {
                Ok(u32::MAX)
            } else {
                Ok(ledgers as u32)
            }
        }
    }

    /// In how many ledgers a user will have earned `target`; the largest number where never.
    pub open spec fn ledgers_to_target(self, user: Address, target: i128) -> Result<
        u32,
        VaultError,
    > {
        let shares = self.account(user).shares;
        let rate = self.boosted_rate_of(user);
        if self.settings.admin is None {
            Err(VaultError::NotInitialized)
        } else {
            match self.pending_reward(user) {
                Err(e) => Err(e),
                Ok(pending) => if pending >= target {
                    Ok(0)
                } else if shares == 0 || rate == 0 {
                    Ok(u32::MAX)
                } else {
                    match self.worth(shares) {
                        None => Err(VaultError::ArithmeticError),
                        Some(amount) => if amount <= 0 {
                            Ok(u32::MAX)
                        } else {
                            State::ledgers_for(target - pending, amount, rate)
                        },
                    }
                },
            }
        }
    }

    /// The days that `ledgers_to_target` ledgers take, at 5 seconds each, rounded up.
    pub open spec fn days_to_target(self, user: Address, target: i128) -> Result<u32, VaultError> {
        match self.ledgers_to_target(user, target) {
            Err(e) => Err(e),
            Ok(ledgers) => if ledgers == u32::MAX {
                Ok(u32::MAX)
            } else {
                Ok(((ledgers * 5 + 86_399) / 86_400) as u32)
            },
        }
    }

    /// The average rate over the last `window` ledgers.
    pub open spec fn average_rate(self, window: u32) -> u32 {
        let rate = self.settings.reward_rate_bps;
        if window == 0 || self.rate_history.len() == 0 {
            rate
        } else {
            (rates_sum(
                self.rate_history,
                rate,
                if window < self.sequence {
                    self.sequence - window
                } else {
                    0
                },
                self.sequence as int,
            ) / window as int) as u32
        }
    }

    /// What a position earns in a day at the present rate.
    pub open spec fn daily_reward(self, position: i128) -> i128 {
        let product = position * self.settings.reward_rate_bps * LEDGERS_PER_DAY;
        if crate::math::fits(position * self.settings.reward_rate_bps) && crate::math::fits(product) {
            crate::math::quotient(product, REWARD_UNIT as int) as i128
        } else {
            0
        }
    }

    /// What a position earns in a year at the present rate.
    pub open spec fn annual_reward(self, position: i128) -> i128 {
        match crate::math::scaled(position as int, self.settings.reward_rate_bps as int, 10_000) {
            Some(reward) => reward,
            None => 0,
        }
    }

    /// What the position of a user is worth, where they have one and its worth can be held.
    pub open spec fn position_worth(self, user: Address) -> Option<i128> {
        if self.account(user).shares == 0 {
            None
        } else {
            self.worth(self.account(user).shares)
        }
    }
}

proof fn lemma_power_grows(base: int, low: nat, high: nat)
    requires
        base >= 1,
        low <= high,
    ensures
        1 <= crate::math::power(base, low) <= crate::math::power(base, high),
    decreases high,
{
    if high > 0 {
        if low < high {
            lemma_power_grows(base, low, (high - 1) as nat);
        } else {
            lemma_power_grows(base, (low - 1) as nat, (high - 1) as nat);
        }
        let p = crate::math::power(base, (high - 1) as nat);
        assert(base * p >= p) by (nonlinear_arith)
            requires
                base >= 1,
                p >= 1,
        ;
    }
}

pub(crate) proof fn lemma_rate_in_force(history: Seq<(u32, u32)>, current: u32, ledger: int, k: int)
    requires
        0 <= k <= history.len(),
        forall|i: int| 0 <= i < k ==> (#[trigger] history[i]).0 <= ledger,
        k < history.len() ==> history[k].0 > ledger,
    ensures
        rate_in_force(history, current, ledger) == (if k < history.len() {
            history[k].1
        } else {
            current
        }),
    decreases history.len(),
{
    if k > 0 {
        assert(history[0].0 <= ledger);
        let tail = history.skip(1);
        assert forall|i: int| 0 <= i < k - 1 implies (#[trigger] tail[i]).0 <= ledger by {
            assert(tail[i] == history[i + 1]);
        }
        lemma_rate_in_force(tail, current, ledger, k - 1);
    }
}

proof fn lemma_rates_steady(
    history: Seq<(u32, u32)>,
    current: u32,
    start: int,
    middle: int,
    end: int,
    rate: u32,
)
    requires
        start <= middle <= end,
        forall|l: int| middle <= l < end ==> #[trigger] rate_in_force(history, current, l) == rate,
    ensures
        rates_sum(history, current, start, end) == rates_sum(history, current, start, middle) + rate
            * (end - middle),
    decreases end - middle,
{
    if middle < end {
        lemma_rates_steady(history, current, start, middle, end - 1, rate);
        assert(rate_in_force(history, current, end - 1) == rate);
        assert(rate * (end - 1 - middle) + rate == rate * (end - middle)) by (nonlinear_arith);
    } else {
        assert(rate * (end - middle) == 0) by (nonlinear_arith)
            requires
                end == middle,
        ;
    }
}

proof fn lemma_rates_bound(history: Seq<(u32, u32)>, current: u32, start: int, end: int)
    requires
        start <= end,
    ensures
        0 <= rates_sum(history, current, start, end) <= u32::MAX * (end - start),
    decreases end - start,
{
    if start < end {
        lemma_rates_bound(history, current, start, end - 1);
    }
}

impl VaultContract {
    /// 10 to the power of `exponent`, where it can be held.
    fn ten_to(exponent: u32) -> (r: Option<i128>)
        ensures
            r == ten_to(exponent),
    {
        let mut power: i128 = 1;
        let mut i: u32 = 0;
        while i < exponent
            invariant
                i <= exponent,
                power == crate::math::power(10, i as nat),
            decreases exponent - i,
        {
            proof {
                lemma_power_grows(10, (i + 1) as nat, exponent as nat);
            }
            power = match power.checked_mul(10) {
                Some(next) => next,
                None => {
                    return None;
                },
            };
            i = i + 1;
        }
        Some(power)
    }

    /// An amount of stake tokens in the precision of the reward token.
    pub(crate) fn normalize_to_reward_decimals(env: &Env, amount: i128) -> (r: Result<
        i128,
        VaultError,
    >)
        ensures
            r == env@.normalized(amount),
    {
        let from: u32 = env.settings.stake_decimals;
        let to: u32 = env.settings.reward_decimals;
        if from == to {
            return Ok(amount);
        }
        if to > from {
            match Self::ten_to(to - from) {
                None => Err(VaultError::ArithmeticError),
                Some(factor) => match amount.checked_mul(factor) {
                    Some(x) => Ok(x),
                    None => Err(VaultError::ArithmeticError),
                },
            }
        } else {
            match Self::ten_to(from - to) {
                None => Err(VaultError::ArithmeticError),
                Some(factor) => {
                    proof {
                        lemma_power_grows(10, 0, (from - to) as nat);
                    }
                    Ok(amount / factor)
                },
            }
        }
    }

    /// The same, or the amount itself where it cannot be held.
    fn normalize_or_raw(env: &Env, amount: i128) -> (r: i128)
        ensures
            r == env@.normalized_or_raw(amount),
    {
        match Self::normalize_to_reward_decimals(env, amount) {
            Ok(normalized) => normalized,
            Err(_) => amount,
        }
    }

    /// The tier multiplier of a user now.
    fn boost_multiplier_for_ledger(env: &Env, user: Address) -> (r: u32)
        ensures
            r == env@.boost_multiplier(user),
    {
        match env.account(user).staked_at {
            Some(staked_at) => Self::multiplier_for_elapsed(
                &env.boost_schedule,
                env.sequence.saturating_sub(staked_at),
            ),
            None => BOOST_BPS_BASE,
        }
    }

    /// The reward multiplier of a user, by how long they have been staking.
    pub fn get_boost_multiplier(env: &Env, user: Address) -> (r: Result<u32, VaultError>)
        ensures
            r == env@.once_set_up(env@.boost_multiplier(user)),
    {
        get_admin(env)?;
        Ok(Self::boost_multiplier_for_ledger(env, user))
    }

    /// What a user could claim now, in the precision of the reward token.
    pub fn calc_pending_reward(env: &Env, user: Address) -> (r: Result<i128, VaultError>)
        ensures
            r == (if env@.settings.admin is None {
                Err(VaultError::NotInitialized)
            } else {
                match env@.pending_reward(user) {
                    Ok(raw) => env@.normalized(raw),
                    Err(e) => Err(e),
                }
            }),
    {
        get_admin(env)?;
        let raw: i128 = Self::pending_raw(env, user)?;
        Self::normalize_to_reward_decimals(env, raw)
    }

    /// How many ledgers it takes to earn `remaining`, rounded up.
    fn ledgers_for(remaining: i128, amount: i128, rate: i128) -> (r: Result<u32, VaultError>)
        requires
            amount > 0,
            rate > 0,
            remaining > 0,
        ensures
            r == State::ledgers_for(remaining as int, amount, rate as int),
    {
        assert(amount * rate > 0) by (nonlinear_arith)
            requires
                amount > 0,
                rate > 0,
        ;
        let per_ledger: i128 = match amount.checked_mul(rate) {
            Some(x) => x,
            None => {
                return Err(VaultError::ArithmeticError);
            },
        };
        let dust: i128 = match remaining.checked_mul(REWARD_UNIT) {
            Some(x) => x,
            None => {
                return Err(VaultError::ArithmeticError);
            },
        };
        match dust.checked_add(per_ledger - 1) {
            Some(x) => {
                let ledgers: i128 = x / per_ledger;
                proof {
                    let (a, b) = (x as int, per_ledger as int);
                    assert(0 <= a / b) by (nonlinear_arith)
                        requires
                            a >= 0,
                            b > 0,
                    ;
                }
                if ledgers > u32::MAX as i128 {
                    Ok(u32::MAX)
                } else {
                    Ok(ledgers as u32)
                }
            },
            None => Err(VaultError::ArithmeticError),
        }
    }

    /// In how many ledgers a user will have earned `target_reward`, as things are now. This is 0
    /// where they have, and the largest number where they never will.
    pub fn ledgers_to_target(env: &Env, user: Address, target_reward: i128) -> (r: Result<
        u32,
        VaultError,
    >)
        ensures
            r == env@.ledgers_to_target(user, target_reward),
    {
        get_admin(env)?;
        let pending: i128 = Self::pending_raw(env, user)?;
        if pending >= target_reward {
            return Ok(0);
        }
        let shares: i128 = env.account(user).shares;
        let (campaign_bps, _) = Self::campaign_info_at(env.sequence, &env.settings.campaign);
        let rate: i128 = Self::boosted_rate_bps(
            env.settings.reward_rate_bps,
            Self::boost_multiplier_for_ledger(env, user),
            campaign_bps,
        );
        if shares == 0 || rate == 0 {
            return Ok(u32::MAX);
        }
        proof {
            let state = env@;
            crate::rewards::boosted_rate_is_not_negative(
                state.settings.reward_rate_bps,
                state.boost_multiplier(user),
                campaign_bps,
            );
        }
        let amount: i128 = match shares_to_amount(
            env.pool.total_shares,
            env.pool.total_deposited,
            shares,
        ) {
            Some(amount) => amount,
            None => {
                return Err(VaultError::ArithmeticError);
            },
        };
        if amount <= 0 {
            return Ok(u32::MAX);
        }
        match target_reward.checked_sub(pending) {
            Some(remaining) => Self::ledgers_for(remaining, amount, rate),
            None => Err(VaultError::ArithmeticError),
        }
    }

    /// In how many days a user will have earned `target_reward`, as things are now.
    pub fn days_to_target(env: &Env, user: Address, target_reward: i128) -> (r: Result<
        u32,
        VaultError,
    >)
        ensures
            r == env@.days_to_target(user, target_reward),
    {
        let ledgers: u32 = Self::ledgers_to_target(env, user, target_reward)?;
        if ledgers == u32::MAX {
            return Ok(u32::MAX);
        }
        let days: u64 = (ledgers as u64 * 5 + 86_399) / 86_400;
        Ok(days as u32)
    }

    /// The worth of a user's position, where they have one and its worth can be held.
    fn position_worth(env: &Env, user: Address) -> (r: Option<i128>)
        ensures
            r == env@.position_worth(user),
    {
        let shares: i128 = env.account(user).shares;
        if shares == 0 {
            None
        } else {
            shares_to_amount(env.pool.total_shares, env.pool.total_deposited, shares)
        }
    }

    /// The worth of a position in reward tokens, at a given rate.
    pub fn position_value_in_reward_token(env: &Env, user: Address, reward_rate_bps: u32) -> (r:
        Result<i128, VaultError>)
        ensures
            r == (if env@.account(user).shares == 0 {
                Ok(0i128)
            } else {
                match env@.position_worth(user) {
                    None => Err(VaultError::ArithmeticError),
                    Some(amount) => if reward_rate_bps == 0 {
                        Err(VaultError::InvalidRate)
                    } else {
                        match crate::math::scaled(amount as int, reward_rate_bps as int, 10_000) {
                            Some(value) => Ok(value),
                            None => Err(VaultError::ArithmeticError),
                        }
                    },
                }
            }),
    {
        if env.account(user).shares == 0 {
            return Ok(0);
        }
        match Self::position_worth(env, user) {
            None => Err(VaultError::ArithmeticError),
            Some(amount) => {
                if reward_rate_bps == 0 {
                    return Err(VaultError::InvalidRate);
                }
                match crate::math::mul_div(amount, reward_rate_bps as i128, 10_000) {
                    Some(value) => Ok(value),
                    None => Err(VaultError::ArithmeticError),
                }
            },
        }
    }

    /// What the position of a user earns in a day at the present rate, in the precision of the
    /// reward token.
    pub fn daily_reward_estimate(env: &Env, user: Address) -> (r: i128)
        ensures
            r == (match env@.position_worth(user) {
                Some(amount) => if env@.settings.reward_rate_bps == 0 {
                    0
                } else {
                    env@.normalized_or_raw(env@.daily_reward(amount))
                },
                None => 0,
            }),
    {
        let amount: i128 = match Self::position_worth(env, user) {
            Some(amount) => amount,
            None => {
                return 0;
            },
        };
        let rate_bps: u32 = env.settings.reward_rate_bps;
        if rate_bps == 0 {
            return 0;
        }
        let raw: i128 = match amount.checked_mul(rate_bps as i128) {
            Some(x) => match x.checked_mul(LEDGERS_PER_DAY as i128) {
                Some(y) => y / REWARD_UNIT,
                None => 0,
            },
            None => 0,
        };
        Self::normalize_or_raw(env, raw)
    }

    /// What the position of a user earns in a year at the present rate, in the precision of the
    /// reward token.
    pub fn get_estimated_annual_reward(env: &Env, user: Address) -> (r: i128)
        ensures
            r == (match env@.position_worth(user) {
                Some(amount) => if env@.settings.reward_rate_bps == 0 {
                    0
                } else {
                    env@.normalized_or_raw(env@.annual_reward(amount))
                },
                None => 0,
            }),
    {
        let amount: i128 = match Self::position_worth(env, user) {
            Some(amount) => amount,
            None => {
                return 0;
            },
        };
        let rate_bps: u32 = env.settings.reward_rate_bps;
        if rate_bps == 0 {
            return 0;
        }
        let raw: i128 = match crate::math::mul_div(amount, rate_bps as i128, 10_000) {
            Some(raw) => raw,
            None => 0,
        };
        Self::normalize_or_raw(env, raw)
    }

    /// The average reward rate over the last `window_ledgers` ledgers.
    pub fn twap_apr_bps(env: &Env, window_ledgers: u32) -> (r: Result<u32, VaultError>)
        ensures
            r == env@.once_set_up(env@.average_rate(window_ledgers)),
    {
        get_admin(env)?;
        let rate_bps: u32 = env.settings.reward_rate_bps;
        if window_ledgers == 0 || env.rate_history.len() == 0 {
            return Ok(rate_bps);
        }
        let now: u32 = env.sequence;
        let start: u32 = now.saturating_sub(window_ledgers);
        let history = &env.rate_history;
        let mut sum: u64 = 0;
        let mut cursor: u32 = start;
        let mut k: usize = 0;
        while cursor < now
            invariant
                start <= cursor <= now,
                k <= history@.len(),
                forall|i: int| 0 <= i < k ==> (#[trigger] history@[i]).0 <= cursor,
                sum == rates_sum(history@, rate_bps, start as int, cursor as int),
            decreases now - cursor,
        {
            while k < history.len() && history[k].0 <= cursor
                invariant
                    k <= history@.len(),
                    forall|i: int| 0 <= i < k ==> (#[trigger] history@[i]).0 <= cursor,
                decreases history@.len() - k,
            {
                k = k + 1;
            }
            let mut until: u32 = now;
            let mut rate: u32 = rate_bps;
            if k < history.len() {
                rate = history[k].1;
                if history[k].0 < until {
                    until = history[k].0;
                }
            }
            proof {
                assert forall|l: int| cursor <= l < until implies #[trigger] rate_in_force(
                    history@,
                    rate_bps,
                    l,
                ) == rate by {
                    lemma_rate_in_force(history@, rate_bps, l, k as int);
                }
                lemma_rates_steady(
                    history@,
                    rate_bps,
                    start as int,
                    cursor as int,
                    until as int,
                    rate,
                );
                lemma_rates_bound(history@, rate_bps, start as int, until as int);
                lemma_rates_bound(history@, rate_bps, start as int, cursor as int);
                assert(0 <= rate * (until - cursor)) by (nonlinear_arith)
                    requires
                        until >= cursor,
                ;
                assert((until - cursor) * rate == rate * (until - cursor)) by (nonlinear_arith);
            }
            sum = sum + (until - cursor) as u64 * rate as u64;
            cursor = until;
        }
        proof {
            lemma_rates_bound(history@, rate_bps, start as int, now as int);
            let (s, w) = (sum as int, window_ledgers as int);
            assert(s / w <= u32::MAX) by (nonlinear_arith)
                requires
                    0 <= s <= u32::MAX * w,
                    w > 0,
            ;
        }
        Ok((sum / window_ledgers as u64) as u32)
    }

    /// What `amount` would earn in `ledgers` ledgers at the present rate without a boost.
    pub fn simulate_stake(env: &Env, amount: i128, ledgers: u32) -> (r: Result<i128, VaultError>)
        ensures
            r == (if env@.settings.admin is None {
                Err(VaultError::NotInitialized)
            } else {
                crate::rewards::simple_reward(amount, env@.settings.reward_rate_bps as int, ledgers)
            }),
    {
        get_admin(env)?;
        Self::plain_reward(amount, env.settings.reward_rate_bps, ledgers)
    }

    /// The reward for `ledgers` ledgers at a rate without a boost.
    fn plain_reward(amount: i128, rate_bps: u32, ledgers: u32) -> (r: Result<i128, VaultError>)
        ensures
            r == crate::rewards::simple_reward(amount, rate_bps as int, ledgers),
    {
        proof {
            assert(crate::rewards::boosted_rate(rate_bps, BOOST_BPS_BASE, BOOST_BPS_BASE)
                == rate_bps);
        }
        Self::reward_for_ledgers(amount, rate_bps, BOOST_BPS_BASE, BOOST_BPS_BASE, ledgers)
    }

    /// What `amount` would earn in `ledgers` ledgers at the present rate if the reward were
    /// claimed and staked every `claim_interval` ledgers.
    pub fn simulate_compound(env: &Env, amount: i128, ledgers: u32, claim_interval: u32) -> (r:
        Result<i128, VaultError>)
        ensures
            r == (if env@.settings.admin is None {
                Err(VaultError::NotInitialized)
            } else if env@.settings.reward_rate_bps == 0 {
                Ok(0i128)
            } else {
                compounded(amount, 0, env@.settings.reward_rate_bps, ledgers, claim_interval)
            }),
    {
        get_admin(env)?;
        let rate_bps: u32 = env.settings.reward_rate_bps;
        if rate_bps == 0 || claim_interval == 0 {
            return Ok(0);
        }
        let mut total: i128 = 0;
        let mut remaining: u32 = ledgers;
        let mut current: i128 = amount;
        while remaining > 0
            invariant
                claim_interval > 0,
                rate_bps == env@.settings.reward_rate_bps,
                rate_bps > 0,
                env@.settings.admin is Some,
                compounded(amount, 0, rate_bps, ledgers, claim_interval) == compounded(
                    current,
                    total,
                    rate_bps,
                    remaining,
                    claim_interval,
                ),
            decreases remaining,
        {
            let interval: u32 = if remaining < claim_interval {
                remaining
            } else {
                claim_interval
            };
            let reward: i128 = Self::plain_reward(current, rate_bps, interval)?;
            match (total.checked_add(reward), current.checked_add(reward)) {
                (Some(new_total), Some(new_amount)) => {
                    total = new_total;
                    current = new_amount;
                },
                _ => {
                    return Err(VaultError::ArithmeticError);
                },
            }
            remaining = remaining - interval;
        }
        Ok(total)
    }

    /// What `amount` would earn in `ledgers` ledgers at the present rate with the boost tiers.
    fn boosted_reward(
        schedule: &Vec<(u32, u32)>,
        rate_bps: u32,
        amount: i128,
        ledgers: u32,
    ) -> (r: Result<i128, VaultError>)
        ensures
            r == tiered(amount, 0, rate_bps, BOOST_BPS_BASE, 0, ledgers, schedule@),
    {
        let mut total: i128 = 0;
        let mut cursor: u32 = 0;
        let mut multiplier: u32 = BOOST_BPS_BASE;
        let mut k: usize = 0;
        assert(schedule@.skip(0) == schedule@);
        while k < schedule.len() && (schedule[k].0 <= cursor || schedule[k].0 < ledgers)
            invariant
                k <= schedule@.len(),
                tiered(amount, 0, rate_bps, BOOST_BPS_BASE, 0, ledgers, schedule@) == tiered(
                    amount,
                    total,
                    rate_bps,
                    multiplier,
                    cursor,
                    ledgers,
                    schedule@.skip(k as int),
                ),
            decreases schedule@.len() - k,
        {
            proof {
                assert(schedule@.skip(k as int)[0] == schedule@[k as int]);
                assert(schedule@.skip(k as int).skip(1) == schedule@.skip(k + 1));
            }
            let (tier_ledger, tier_multiplier) = schedule[k];
            if tier_ledger > cursor {
                let reward: i128 = Self::tier_reward(
                    amount,
                    rate_bps,
                    multiplier,
                    tier_ledger - cursor,
                )?;
                total = match total.checked_add(reward) {
                    Some(sum) => sum,
                    None => {
                        return Err(VaultError::ArithmeticError);
                    },
                };
                cursor = tier_ledger;
            }
            multiplier = tier_multiplier;
            k = k + 1;
        }
        proof {
            if k < schedule@.len() {
                assert(schedule@.skip(k as int)[0] == schedule@[k as int]);
            }
        }
        if cursor < ledgers {
            let reward: i128 = Self::tier_reward(amount, rate_bps, multiplier, ledgers - cursor)?;
            return match total.checked_add(reward) {
                Some(sum) => Ok(sum),
                None => Err(VaultError::ArithmeticError),
            };
        }
        Ok(total)
    }

    /// The reward for `ledgers` ledgers in a tier.
    fn tier_reward(amount: i128, rate_bps: u32, multiplier_bps: u32, ledgers: u32) -> (r: Result<
        i128,
        VaultError,
    >)
        ensures
            r == crate::rewards::simple_reward(
                amount,
                ((rate_bps * multiplier_bps) / 10_000) as int,
                ledgers,
            ),
    {
        proof {
            let e = (rate_bps * multiplier_bps) / 10_000;
            assert(e * BOOST_BPS_BASE / 10_000 == e);
        }
        Self::reward_for_ledgers(amount, rate_bps, multiplier_bps, BOOST_BPS_BASE, ledgers)
    }

    /// What `amount` would earn in `ledgers` ledgers at the present rate without the boost tiers
    /// and with them.
    pub fn simulate_boost_impact(env: &Env, amount: i128, ledgers: u32) -> (r: Result<
        (i128, i128),
        VaultError,
    >)
        ensures
            r == (if env@.settings.admin is None {
                Err(VaultError::NotInitialized)
            } else if env@.settings.reward_rate_bps == 0 {
                Ok((0i128, 0i128))
            } else {
                match (
                    crate::rewards::simple_reward(
                        amount,
                        env@.settings.reward_rate_bps as int,
                        ledgers,
                    ),
                    tiered(
                        amount,
                        0,
                        env@.settings.reward_rate_bps,
                        BOOST_BPS_BASE,
                        0,
                        ledgers,
                        env@.boost_schedule,
                    ),
                ) {
                    (Ok(base), Ok(boosted)) => Ok((base, boosted)),
                    (Err(e), _) => Err(e),
                    (_, Err(e)) => Err(e),
                }
            }),
    {
        get_admin(env)?;
        let rate_bps: u32 = env.settings.reward_rate_bps;
        if rate_bps == 0 {
            return Ok((0, 0));
        }
        let base: i128 = Self::plain_reward(amount, rate_bps, ledgers)?;
        let boosted: i128 = Self::boosted_reward(&env.boost_schedule, rate_bps, amount, ledgers)?;
        Ok((base, boosted))
    }

    /// What one staked token earns in one ledger. This is 0 for every rate that can be set: the
    /// rate has to be multiplied by a position before it is divided.
    pub fn reward_per_token_per_ledger(env: &Env) -> (r: i128)
        ensures
            r == (if env@.pool.total_deposited == 0 {
                0
            } else {
                env@.settings.reward_rate_bps as int / REWARD_UNIT as int
            }),
    {
        if env.pool.total_deposited == 0 {
            return 0;
        }
        env.settings.reward_rate_bps as i128 / REWARD_UNIT
    }
}

} // verus!
