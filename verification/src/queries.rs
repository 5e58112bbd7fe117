//! Questions about users and their positions.
use crate::address::{text_precedes, Address};
use crate::admin::{get_admin, require_admin};
use crate::balance::shares_to_amount;
use crate::env::{Env, State};
use crate::errors::VaultError;
use crate::history::copied;
use crate::rewards::BOOST_BPS_BASE;
use crate::storage::{
    BoostTierProgress, ClaimWindow, StakeHistoryEntry, StakePosition, StakingEfficiencyScore,
    UnbondingPosition, UnstakeCheckResult, UserStats, UserSummary, VestingEntry,
};
use crate::vault::VaultContract;
use vstd::prelude::*;

verus! {

/// How many positions can be asked for at once.
pub const MAX_BATCH: u32 = 20;

/// A number, or the largest that there is where it is larger.
pub open spec fn counted_up(n: int) -> u32 {
    if n > u32::MAX {
        u32::MAX
    } else {
        n as u32
    }
}

/// The place of a vote history entry that counts at a ledger: how many entries are not later. The
/// entries are gone through in order, up to the first that is later.
pub open spec fn entries_until(history: Seq<(u32, i128)>, ledger: u32) -> int
    decreases history.len(),
{
    if history.len() == 0 || history[0].0 > ledger {
        0
    } else {
        1 + entries_until(history.skip(1), ledger)
    }
}

/// The shares of a user at a ledger, as their vote history tells: none before it begins.
pub open spec fn weight_at(history: Seq<(u32, i128)>, ledger: u32) -> i128 {
    if entries_until(history, ledger) == 0 {
        0
    } else {
        history[entries_until(history, ledger) - 1].1
    }
}

/// One position ranks above another: it is larger, or it is as large and the text of its owner's
/// address comes first.
pub open spec fn ranks_above(amount: i128, text: Seq<u8>, than: i128, than_text: Seq<u8>) -> bool {
    if amount != than {
        amount > than
    } else {
        crate::address::precedes(text, than_text)
    }
}

impl State {
    /// The position of a user, where they have one.
    pub open spec fn position(self, user: Address) -> Result<Option<StakePosition>, VaultError> {
        let account = self.account(user);
        if account.shares == 0 {
            Ok(None)
        } else {
            match self.worth(account.shares) {
                None => Err(VaultError::ArithmeticError),
                Some(amount) => Ok(
                    Some(
                        StakePosition {
                            amount,
                            staked_at_ledger: self.staked_at(user),
                            last_claim_ledger: account.last_claim,
                        },
                    ),
                ),
            }
        }
    }

    /// Since when a user stakes: since ledger 0, where nothing is stored.
    pub open spec fn staked_at(self, user: Address) -> u32 {
        match self.account(user).staked_at {
            Some(ledger) => ledger,
            None => 0,
        }
    }

    /// The positions of a list of users, in its order.
    pub open spec fn batch(self, users: Seq<Address>) -> Result<
        Seq<Option<StakePosition>>,
        VaultError,
    >
        decreases users.len(),
    {
        if users.len() == 0 {
            Ok(Seq::empty())
        } else {
            match (self.batch(users.drop_last()), self.position(users.last())) {
                (Ok(before), Ok(position)) => Ok(before.push(position)),
                _ => Err(VaultError::ArithmeticError),
            }
        }
    }

    /// The positions of those of a list of users who have one, in its order.
    pub open spec fn listing(self, users: Seq<Address>) -> Result<
        Seq<(Address, StakePosition)>,
        VaultError,
    >
        decreases users.len(),
    {
        if users.len() == 0 {
            Ok(Seq::empty())
        } else {
            match (self.listing(users.drop_last()), self.position(users.last())) {
                (Ok(before), Ok(Some(position))) => Ok(before.push((users.last(), position))),
                (Ok(before), Ok(None)) => Ok(before),
                _ => Err(VaultError::ArithmeticError),
            }
        }
    }

    /// The stakers on a page of a list with `page_size` stakers on each page.
    pub open spec fn page(self, page: u32, page_size: u32) -> Seq<Address> {
        let start = page * page_size;
        let end = crate::math::smaller(start + page_size, self.stakers.len() as int);
        if start < end {
            self.stakers.subrange(start, end)
        } else {
            Seq::empty()
        }
    }

    /// A staker ranks above a user.
    pub open spec fn outranks(self, other: Address, user: Address) -> bool {
        let shares = self.account(other).shares;
        other != user && shares != 0 && ranks_above(
            self.standing(shares),
            other.text(),
            self.standing(self.account(user).shares),
            user.text(),
        )
    }

    /// The rank of a user among the stakers: 1 for the largest position.
    pub open spec fn rank(self, user: Address) -> Option<u32> {
        if self.account(user).shares == 0 {
            None
        } else {
            Some(
                counted_up(
                    1 + self.stakers.filter(
                        |other: Address| self.outranks(other, user),
                    ).len() as int,
                ),
            )
        }
    }

    /// A staker came at the present rate.
    pub open spec fn joined_at_rate(self, user: Address) -> bool {
        self.account(user).shares > 0 && self.staked_at(user) >= self.settings.last_rate_change_ledger
    }

    /// The part of all shares that a user holds, in basis points.
    pub open spec fn pool_share_bps(self, user: Address) -> i128 {
        match crate::math::scaled(
            self.account(user).shares as int,
            BOOST_BPS_BASE as int,
            self.pool.total_shares as int,
        ) {
            Some(bps) => bps,
            None => 0,
        }
    }

    /// The part of all deposited tokens that the position of a user stands for, in basis points.
    pub open spec fn percentage_of_pool(self, user: Address) -> i128 {
        match self.position_worth(user) {
            None => 0,
            Some(amount) => match crate::math::scaled(
                amount as int,
                BOOST_BPS_BASE as int,
                self.pool.total_deposited as int,
            ) {
                Some(bps) => bps,
                None => 0,
            },
        }
    }

    /// What `can_unstake` answers.
    pub open spec fn unstake_check(self, user: Address, amount: i128) -> UnstakeCheckResult {
        let shares = self.account(user).shares;
        if self.pool.paused {
            UnstakeCheckResult::PoolPaused
        } else if shares == 0 {
            UnstakeCheckResult::NoPosition
        } else if self.settings.cooldown_period > 0 {
            UnstakeCheckResult::StillLocked
        } else if amount <= 0 || amount > shares || (self.settings.withdrawal_limit is Some && amount
            > self.settings.withdrawal_limit->Some_0) {
            UnstakeCheckResult::InsufficientAmount
        } else if !self.can_pay_for(user, amount) {
            UnstakeCheckResult::InsufficientAmount
        } else {
            UnstakeCheckResult::Ready
        }
    }

    /// What `staking_efficiency_score` answers.
    pub open spec fn efficiency(self, user: Address) -> StakingEfficiencyScore {
        let claimed = self.account(user).total_claimed;
        let pending = match self.pending_reward(user) {
            Ok(reward) => reward,
            Err(_) => 0,
        };
        let earned = match crate::math::sum(claimed as int, pending as int) {
            Some(earned) => earned,
            None => 0,
        };
        let bps = match crate::math::scaled(claimed as int, BOOST_BPS_BASE as int, earned as int) {
            Some(bps) => bps,
            None => 0,
        };
        if self.position_worth(user) is None || self.settings.reward_rate_bps == 0 {
            StakingEfficiencyScore {
                total_claimed: 0,
                estimated_if_compounded: 0,
                efficiency_bps: 0,
            }
        } else {
            StakingEfficiencyScore {
                total_claimed: claimed,
                estimated_if_compounded: earned,
                efficiency_bps: if bps < 0 {
                    0
                } else if bps > BOOST_BPS_BASE {
                    BOOST_BPS_BASE as i128
                } else {
                    bps
                },
            }
        }
    }

    /// What `get_boost_tier_progress` answers.
    pub open spec fn tier_progress(self, user: Address) -> BoostTierProgress {
        let elapsed = crate::math::ledgers_between(self.staked_since(user), self.sequence);
        let k = crate::rewards::tiers_reached(self.boost_schedule, elapsed as int);
        BoostTierProgress {
            current_tier: k as u32,
            current_multiplier_bps: crate::rewards::tier_multiplier(
                self.boost_schedule,
                elapsed as int,
            ) as i128,
            next_tier_in_ledgers: if k < self.boost_schedule.len() {
                Some((self.boost_schedule[k].0 - elapsed) as u32)
            } else {
                None
            },
            next_multiplier_bps: if k < self.boost_schedule.len() {
                Some(self.boost_schedule[k].1 as i128)
            } else {
                None
            },
        }
    }
}

pub(crate) proof fn lemma_entries_until(history: Seq<(u32, i128)>, ledger: u32, k: int)
    requires
        0 <= k <= history.len(),
        forall|i: int| 0 <= i < k ==> (#[trigger] history[i]).0 <= ledger,
        k < history.len() ==> history[k].0 > ledger,
    ensures
        entries_until(history, ledger) == k,
    decreases history.len(),
{
    if k > 0 {
        assert(history[0].0 <= ledger);
        let tail = history.skip(1);
        assert forall|i: int| 0 <= i < k - 1 implies (#[trigger] tail[i]).0 <= ledger by {
            assert(tail[i] == history[i + 1]);
        }
        lemma_entries_until(tail, ledger, k - 1);
    }
}

/// Where the positions of the first users cannot be had, neither can those of all.
proof fn lemma_batch_fails(state: State, users: Seq<Address>, k: int)
    requires
        0 <= k <= users.len(),
    ensures
        state.batch(users.take(k)) is Err ==> state.batch(users) == Err::<
            Seq<Option<StakePosition>>,
            VaultError,
        >(VaultError::ArithmeticError),
        state.listing(users.take(k)) is Err ==> state.listing(users) == Err::<
            Seq<(Address, StakePosition)>,
            VaultError,
        >(VaultError::ArithmeticError),
    decreases users.len() - k,
{
    if k < users.len() {
        assert(users.take(k + 1).drop_last() == users.take(k));
        lemma_batch_fails(state, users, k + 1);
    } else {
        assert(users.take(k) == users);
    }
}

impl VaultContract {
    /// The shares of a user.
    pub fn shares_of(env: &Env, user: Address) -> (shares: i128)
        ensures
            shares == env@.account(user).shares,
    {
        env.account(user).shares
    }

    /// The position of a user, where they have one.
    fn build_position(env: &Env, user: Address) -> (r: Result<Option<StakePosition>, VaultError>)
        ensures
            r == env@.position(user),
    {
        let account = env.account(user);
        if account.shares == 0 {
            return Ok(None);
        }
        match shares_to_amount(env.pool.total_shares, env.pool.total_deposited, account.shares) {
            None => Err(VaultError::ArithmeticError),
            Some(amount) => Ok(
                Some(
                    StakePosition {
                        amount,
                        staked_at_ledger: account.staked_at.unwrap_or(0),
                        last_claim_ledger: account.last_claim,
                    },
                ),
            ),
        }
    }

    /// The position of a user, where they have one.
    pub fn position_of(env: &Env, user: Address) -> (r: Result<Option<StakePosition>, VaultError>)
        ensures
            r == env@.position(user),
    {
        Self::build_position(env, user)
    }

    /// Whether a user has a position.
    pub fn has_position(env: &Env, user: Address) -> (r: bool)
        ensures
            r == (env@.account(user).staked_at is Some),
    {
        env.account(user).staked_at.is_some()
    }

    /// The positions of up to 20 users, in the order in which they are asked for.
    pub fn batch_position_query(env: &Env, users: Vec<Address>) -> (r: Result<
        Vec<Option<StakePosition>>,
        VaultError,
    >)
        ensures
            if users@.len() > MAX_BATCH {
                r matches Err(e) && e == VaultError::BatchTooLarge
            } else {
                match env@.batch(users@) {
                    Ok(positions) => r matches Ok(v) && v@ == positions,
                    Err(e) => r matches Err(f) && f == e,
                }
            },
    {
        if users.len() > MAX_BATCH as usize {
            return Err(VaultError::BatchTooLarge);
        }
        let mut results: Vec<Option<StakePosition>> = Vec::new();
        let mut i: usize = 0;
        while i < users.len()
            invariant
                i <= users@.len() <= MAX_BATCH,
                env@.batch(users@.take(i as int)) == Ok::<Seq<Option<StakePosition>>, VaultError>(
                    results@,
                ),
            decreases users@.len() - i,
        {
            proof {
                assert(users@.take(i + 1).drop_last() == users@.take(i as int));
                lemma_batch_fails(env@, users@, i + 1);
            }
            let position = Self::build_position(env, users[i])?;
            results.push(position);
            i = i + 1;
        }
        assert(users@.take(i as int) == users@);
        Ok(results)
    }

    /// Admin: the positions on a page of the list of stakers, in the order in which they came.
    /// A page has 20 positions at most and those past the last one are empty.
    pub fn view_all_positions(env: &Env, page: u32, page_size: u32) -> (r: Result<
        Vec<(Address, StakePosition)>,
        VaultError,
    >)
        ensures
            match env@.admin_refusal() {
                Some(e) => r matches Err(f) && f == e,
                None => if page_size == 0 || page_size > MAX_BATCH {
                    r matches Err(e) && e == VaultError::PageSizeTooLarge
                } else {
                    match env@.listing(env@.page(page, page_size)) {
                        Ok(positions) => r matches Ok(v) && v@ == positions,
                        Err(e) => r matches Err(f) && f == e,
                    }
                },
            },
    {
        require_admin(env)?;
        if page_size == 0 || page_size > MAX_BATCH {
            return Err(VaultError::PageSizeTooLarge);
        }
        proof {
            assert(0 <= page * page_size <= u32::MAX * 20) by (nonlinear_arith)
                requires
                    page <= u32::MAX,
                    page_size <= 20,
            ;
        }
        let start: u64 = page as u64 * page_size as u64;
        let end: u64 = start + page_size as u64;
        let ghost users = env@.page(page, page_size);
        let mut results: Vec<(Address, StakePosition)> = Vec::new();
        let mut i: u64 = start;
        assert(users.take(0) == Seq::<Address>::empty());
        while i < end && i < env.stakers.len() as u64
            invariant
                start <= i <= end,
                start == page * page_size,
                end == start + page_size,
                0 < page_size <= MAX_BATCH,
                users == env@.page(page, page_size),
                env@.admin_refusal() is None,
                i > start ==> i <= env.stakers@.len(),
                0 <= i - start <= users.len(),
                env@.listing(users.take(i - start)) == Ok::<
                    Seq<(Address, StakePosition)>,
                    VaultError,
                >(results@),
            decreases end - i,
        {
            let user = env.stakers[i as usize];
            proof {
                assert(users[i - start] == user);
                assert(users.take(i - start + 1).drop_last() == users.take(i - start));
                assert(users.take(i - start + 1).last() == user);
                lemma_batch_fails(env@, users, i - start + 1);
            }
            if let Some(position) = Self::build_position(env, user)? {
                results.push((user, position));
            }
            i = i + 1;
        }
        assert(users.take(i - start) == users);
        Ok(results)
    }

    /// Since when the rewards of a user accrue: since they were settled last.
    pub fn claimable_since(env: &Env, user: Address) -> (r: Result<u32, VaultError>)
        ensures
            r == (match env@.position(user) {
                Ok(Some(_)) => Ok(env@.settled_until(user)),
                Ok(None) => Err(VaultError::PositionNotFound),
                Err(e) => Err(e),
            }),
    {
        match Self::build_position(env, user) {
            Ok(Some(_)) => Ok(env.account(user).checkpoint.unwrap_or(env.sequence)),
            Ok(None) => Err(VaultError::PositionNotFound),
            Err(e) => Err(e),
        }
    }

    /// The governance weight of a user: their shares.
    pub fn current_vote_weight(env: &Env, user: Address) -> (r: Result<i128, VaultError>)
        ensures
            r == env@.once_set_up(env@.account(user).shares),
    {
        get_admin(env)?;
        Ok(env.account(user).shares)
    }

    /// The governance weight of a user at a ledger.
    pub fn vote_weight_at(env: &Env, user: Address, ledger: u32) -> (r: Result<i128, VaultError>)
        ensures
            r == env@.once_set_up(weight_at(env@.votes_of(user), ledger)),
    {
        get_admin(env)?;
        match env.votes.get(user) {
            None => Ok(0),
            Some(history) => {
                let mut k: usize = 0;
                while k < history.len() && history[k].0 <= ledger
                    invariant
                        k <= history@.len(),
                        forall|i: int| 0 <= i < k ==> (#[trigger] history@[i]).0 <= ledger,
                    decreases history@.len() - k,
                {
                    k = k + 1;
                }
                proof {
                    lemma_entries_until(history@, ledger, k as int);
                }
                if k == 0 {
                    Ok(0)
                } else {
                    Ok(history[k - 1].1)
                }
            },
        }
    }

    /// Whether a user is on the whitelist.
    pub fn is_whitelisted(env: &Env, user: Address) -> (r: bool)
        ensures
            r == env@.account(user).whitelisted,
    {
        env.account(user).whitelisted
    }

    /// Whether the KYC status of a user is approved, which counts only while it is required.
    pub fn is_kyc_approved(env: &Env, user: Address) -> (r: bool)
        ensures
            r == (env@.settings.kyc_required && env@.account(user).kyc_approved),
    {
        env.settings.kyc_required && env.account(user).kyc_approved
    }

    /// What is unbonding of a user.
    pub fn pending_unbonding(env: &Env, user: Address) -> (r: Result<
        Option<UnbondingPosition>,
        VaultError,
    >)
        ensures
            r == Ok::<Option<UnbondingPosition>, VaultError>(env@.account(user).unbonding),
    {
        Ok(env.account(user).unbonding)
    }

    /// The claim window of a user, where there is a claim cap and they have claimed under it.
    pub fn get_claim_window(env: &Env, user: Address) -> (r: Option<ClaimWindow>)
        ensures
            r == (if env@.settings.claim_cap == 0 {
                None
            } else {
                env@.account(user).claim_window
            }),
    {
        if env.settings.claim_cap == 0 {
            None
        } else {
            env.account(user).claim_window
        }
    }

    /// How far a user is on the way to the next boost tier.
    pub fn get_boost_tier_progress(env: &Env, user: Address) -> (progress: BoostTierProgress)
        ensures
            progress == env@.tier_progress(user),
    {
        let now: u32 = env.sequence;
        let elapsed: u32 = now.saturating_sub(env.account(user).staked_at.unwrap_or(now));
        let k: usize = Self::tiers_for_elapsed(&env.boost_schedule, elapsed);
        let multiplier: u32 = if k == 0 {
            BOOST_BPS_BASE
        } else {
            env.boost_schedule[k - 1].1
        };
        if k < env.boost_schedule.len() {
            let (threshold, next) = env.boost_schedule[k];
            BoostTierProgress {
                current_tier: k as u32,
                current_multiplier_bps: multiplier as i128,
                next_tier_in_ledgers: Some(threshold - elapsed),
                next_multiplier_bps: Some(next as i128),
            }
        } else {
            BoostTierProgress {
                current_tier: k as u32,
                current_multiplier_bps: multiplier as i128,
                next_tier_in_ledgers: None,
                next_multiplier_bps: None,
            }
        }
    }

    /// How many ledgers ago a user opened their position.
    pub fn position_age_ledgers(env: &Env, user: Address) -> (r: Result<u32, VaultError>)
        ensures
            r == (if env@.account(user).shares == 0 {
                Err(VaultError::PositionNotFound)
            } else {
                Ok(crate::math::ledgers_between(env@.staked_at(user), env@.sequence))
            }),
    {
        let account = env.account(user);
        if account.shares == 0 {
            return Err(VaultError::PositionNotFound);
        }
        Ok(env.sequence.saturating_sub(account.staked_at.unwrap_or(0)))
    }

    /// How many ledgers ago a user with a position claimed.
    pub fn time_since_last_claim(env: &Env, user: Address) -> (r: Result<u32, VaultError>)
        ensures
            r == (if env@.account(user).shares == 0 {
                Err(VaultError::PositionNotFound)
            } else {
                Ok(crate::math::ledgers_between(env@.account(user).last_claim, env@.sequence))
            }),
    {
        let account = env.account(user);
        if account.shares == 0 {
            return Err(VaultError::PositionNotFound);
        }
        Ok(env.sequence.saturating_sub(account.last_claim))
    }

    /// How many ledgers the position of a user stays locked.
    pub fn minimum_lock_remaining(env: &Env, user: Address) -> (r: Result<u32, VaultError>)
        ensures
            r == (if env@.account(user).shares == 0 {
                Err(VaultError::PositionNotFound)
            } else if env@.settings.lock_period == 0 {
                Ok(0u32)
            } else {
                Ok(
                    crate::math::ledgers_between(
                        env@.sequence,
                        crate::math::ledger_after(env@.staked_at(user), env@.settings.lock_period),
                    ),
                )
            }),
    {
        let account = env.account(user);
        if account.shares == 0 {
            return Err(VaultError::PositionNotFound);
        }
        if env.settings.lock_period == 0 {
            return Ok(0);
        }
        let unlock: u32 = account.staked_at.unwrap_or(0).saturating_add(env.settings.lock_period);
        Ok(unlock.saturating_sub(env.sequence))
    }

    /// Figures about a user.
    pub fn user_stats(env: &Env, user: Address) -> (r: Result<UserStats, VaultError>)
        ensures
            r == (if env@.settings.admin is None {
                Err(VaultError::NotInitialized)
            } else {
                match (env@.position(user), env@.pending_reward(user)) {
                    (Err(e), _) => Err(e),
                    (_, Err(e)) => Err(e),
                    (Ok(position), Ok(pending_reward)) => Ok(
                        match position {
                            Some(p) => UserStats {
                                position_amount: p.amount,
                                pending_reward,
                                staked_at_ledger: p.staked_at_ledger,
                                last_claim_ledger: p.last_claim_ledger,
                            },
                            None => UserStats {
                                position_amount: 0,
                                pending_reward,
                                staked_at_ledger: 0,
                                last_claim_ledger: 0,
                            },
                        },
                    ),
                }
            }),
    {
        get_admin(env)?;
        let position = Self::build_position(env, user)?;
        let pending_reward: i128 = Self::pending_raw(env, user)?;
        match position {
            Some(p) => Ok(
                UserStats {
                    position_amount: p.amount,
                    pending_reward,
                    staked_at_ledger: p.staked_at_ledger,
                    last_claim_ledger: p.last_claim_ledger,
                },
            ),
            None => Ok(
                UserStats {
                    position_amount: 0,
                    pending_reward,
                    staked_at_ledger: 0,
                    last_claim_ledger: 0,
                },
            ),
        }
    }

    /// The position of a user, their pending reward and their part of the pool: nothing at all for
    /// a user without a stake.
    pub fn user_summary(env: &Env, user: Address) -> (r: Result<UserSummary, VaultError>)
        ensures
            match (env@.position(user), env@.pending_reward(user)) {
                (Err(e), _) => r matches Err(f) && f == e,
                (_, Err(e)) => r matches Err(f) && f == e,
                (Ok(position), Ok(pending_reward)) => {
                    &&& r matches Ok(summary)
                    &&& summary.position@ == (match position {
                        Some(p) => seq![p],
                        None => Seq::empty(),
                    })
                    &&& summary.pending_reward == (if position is Some {
                        pending_reward
                    } else {
                        0
                    })
                    &&& summary.pool_share_bps == env@.pool_share_bps(user)
                },
            },
    {
        let found = Self::build_position(env, user)?;
        let pending_reward: i128 = Self::pending_raw(env, user)?;
        let pool_share_bps: i128 = match crate::math::mul_div(
            env.account(user).shares,
            BOOST_BPS_BASE as i128,
            env.pool.total_shares,
        ) {
            Some(bps) => bps,
            None => 0,
        };
        let mut position: Vec<StakePosition> = Vec::new();
        let mut summed: i128 = 0;
        if let Some(p) = found {
            position.push(p);
            summed = pending_reward;
        }
        Ok(UserSummary { position, pending_reward: summed, pool_share_bps })
    }

    /// How much of what a user earned they have claimed.
    pub fn staking_efficiency_score(env: &Env, user: Address) -> (score: StakingEfficiencyScore)
        ensures
            score == env@.efficiency(user),
    {
        let account = env.account(user);
        let worth = shares_to_amount(
            env.pool.total_shares,
            env.pool.total_deposited,
            account.shares,
        );
        if account.shares == 0 || worth.is_none() || env.settings.reward_rate_bps == 0 {
            return StakingEfficiencyScore {
                total_claimed: 0,
                estimated_if_compounded: 0,
                efficiency_bps: 0,
            };
        }
        let claimed: i128 = account.total_claimed;
        let pending: i128 = match Self::pending_raw(env, user) {
            Ok(reward) => reward,
            Err(_) => 0,
        };
        let earned: i128 = match claimed.checked_add(pending) {
            Some(sum) => sum,
            None => 0,
        };
        let bps: i128 = match crate::math::mul_div(claimed, BOOST_BPS_BASE as i128, earned) {
            Some(bps) => bps,
            None => 0,
        };
        let efficiency_bps: i128 = if bps < 0 {
            0
        } else if bps > BOOST_BPS_BASE as i128 {
            BOOST_BPS_BASE as i128
        } else {
            bps
        };
        StakingEfficiencyScore {
            total_claimed: claimed,
            estimated_if_compounded: earned,
            efficiency_bps,
        }
    }

    /// The last stakes and unstakes of a user, oldest first.
    pub fn stake_history(env: &Env, user: Address) -> (r: Vec<StakeHistoryEntry>)
        ensures
            r@ == env@.stake_log_of(user),
    {
        match env.stake_log.get(user) {
            Some(list) => copied(list),
            None => Vec::new(),
        }
    }

    /// The rewards of a user that vest.
    pub fn vesting_balance(env: &Env, user: Address) -> (r: Vec<VestingEntry>)
        ensures
            r@ == env@.vesting_of(user),
    {
        match env.vesting.get(user) {
            Some(list) => copied(list),
            None => Vec::new(),
        }
    }

    /// Whether `unstake` of `amount` shares would succeed now, and if not, why not. Where a
    /// cooldown is set, tokens are locked up until they have unbonded.
    pub fn can_unstake(env: &Env, user: Address, amount: i128) -> (r: UnstakeCheckResult)
        ensures
            r == env@.unstake_check(user, amount),
    {
        if env.pool.paused {
            return UnstakeCheckResult::PoolPaused;
        }
        let account = env.account(user);
        if account.shares == 0 {
            return UnstakeCheckResult::NoPosition;
        }
        if env.settings.cooldown_period > 0 {
            return UnstakeCheckResult::StillLocked;
        }
        if amount <= 0 || account.shares < amount {
            return UnstakeCheckResult::InsufficientAmount;
        }
        if let Some(limit) = env.settings.withdrawal_limit {
            if amount > limit {
                return UnstakeCheckResult::InsufficientAmount;
            }
        }
        if !Self::can_pay_for(env, user, amount) {
            return UnstakeCheckResult::InsufficientAmount;
        }
        UnstakeCheckResult::Ready
    }

    /// The part of all deposited tokens that the position of a user stands for, in basis points.
    pub fn percentage_of_pool(env: &Env, user: Address) -> (bps: i128)
        ensures
            bps == env@.percentage_of_pool(user),
    {
        let shares: i128 = env.account(user).shares;
        if shares == 0 {
            return 0;
        }
        match shares_to_amount(env.pool.total_shares, env.pool.total_deposited, shares) {
            None => 0,
            Some(amount) => match crate::math::mul_div(
                amount,
                BOOST_BPS_BASE as i128,
                env.pool.total_deposited,
            ) {
                Some(bps) => bps,
                None => 0,
            },
        }
    }

    /// Whether one position ranks above another.
    pub fn ranks_above(amount: i128, text: &Vec<u8>, than: i128, than_text: &Vec<u8>) -> (r: bool)
        ensures
            r == ranks_above(amount, text@, than, than_text@),
    {
        if amount != than {
            amount > than
        } else {
            text_precedes(text, than_text)
        }
    }

    /// What a number of shares counts in a ranking.
    fn standing(env: &Env, shares: i128) -> (r: i128)
        ensures
            r == env@.standing(shares),
    {
        if shares == 0 {
            return 0;
        }
        match shares_to_amount(env.pool.total_shares, env.pool.total_deposited, shares) {
            Some(amount) => amount,
            None => 0,
        }
    }

    /// The rank of a user among the stakers, 1 for the largest position. Of two that are as large,
    /// the one whose owner's address text comes first ranks higher: the bytes of the text are
    /// compared, not those of the key.
    pub fn get_staker_rank(env: &Env, user: Address) -> (rank: Option<u32>)
        ensures
            rank == env@.rank(user),
    {
        let shares: i128 = env.account(user).shares;
        if shares == 0 {
            return None;
        }
        let amount: i128 = Self::standing(env, shares);
        let text: Vec<u8> = user.to_text();
        let ghost above = |other: Address| env@.outranks(other, user);
        let mut rank: u32 = 1;
        let mut i: usize = 0;
        proof {
            reveal(Seq::filter);
        }
        while i < env.stakers.len()
            invariant
                i <= env.stakers@.len(),
                shares == env@.account(user).shares,
                shares != 0,
                amount == env@.standing(shares),
                text@ == user.text(),
                above == (|other: Address| env@.outranks(other, user)),
                rank == counted_up(1 + env.stakers@.take(i as int).filter(above).len() as int),
            decreases env.stakers@.len() - i,
        {
            let other = env.stakers[i];
            let other_shares: i128 = env.account(other).shares;
            proof {
                assert(env.stakers@.take(i + 1).drop_last() == env.stakers@.take(i as int));
                reveal(Seq::filter);
            }
            if other != user && other_shares != 0 {
                let other_amount: i128 = Self::standing(env, other_shares);
                let other_text: Vec<u8> = other.to_text();
                if Self::ranks_above(other_amount, &other_text, amount, &text) {
                    rank = rank.saturating_add(1);
                }
            }
            i = i + 1;
        }
        assert(env.stakers@.take(i as int) == env.stakers@);
        Some(rank)
    }

    /// How many stakers came at the present reward rate.
    pub fn staker_count_at_rate(env: &Env) -> (count: u32)
        ensures
            count == counted_up(
                env@.stakers.filter(|user: Address| env@.joined_at_rate(user)).len() as int,
            ),
    {
        let ghost joined = |user: Address| env@.joined_at_rate(user);
        let mut count: u32 = 0;
        let mut i: usize = 0;
        proof {
            reveal(Seq::filter);
        }
        while i < env.stakers.len()
            invariant
                i <= env.stakers@.len(),
                joined == (|user: Address| env@.joined_at_rate(user)),
                count == counted_up(env.stakers@.take(i as int).filter(joined).len() as int),
            decreases env.stakers@.len() - i,
        {
            let account = env.account(env.stakers[i]);
            proof {
                assert(env.stakers@.take(i + 1).drop_last() == env.stakers@.take(i as int));
                reveal(Seq::filter);
            }
            if account.shares > 0 && account.staked_at.unwrap_or(0)
                >= env.settings.last_rate_change_ledger {
                count = count.saturating_add(1);
            }
            i = i + 1;
        }
        assert(env.stakers@.take(i as int) == env.stakers@);
        count
    }
}

} // verus!
