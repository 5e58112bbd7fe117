//! What is asked is answered with what is stored, and with what follows from it.
use crate::address::Address;
use crate::env::{Env, State};
use crate::errors::VaultError;
use crate::laws::amounts::rounded_down;
use crate::storage::{
    BoostTierProgress, ChangelogEntry, ClaimWindow, EpochState, InterfaceId, LeaderboardEntry,
    PoolConfig, PoolStats, RateHistoryEntry, StakeHistoryEntry, StakePosition, StakeStreak,
    StakingEfficiencyScore, TotalStakedSnapshot, UnbondingPosition, UnstakeCheckResult, UserStats,
    UserSummary, VestingEntry,
};
use crate::vault::VaultContract;
use vstd::prelude::*;

verus! {

/// A position is worth its shares, and tells since when it lasts and when its owner last claimed; a
/// user without shares has none.
pub proof fn a_position_is_told(
    env: Env,
    user: Address,
    r: Result<Option<StakePosition>, VaultError>,
)
    requires
        env@.balanced(),
        call_ensures(VaultContract::position_of, (&env, user), r),
    ensures
        r == env@.position(user),
        ({
            let account = env@.account(user);
            &&& account.shares == 0 ==> r == Ok::<Option<StakePosition>, VaultError>(None)
            &&& account.shares > 0 ==> (r matches Ok(told) ==> told matches Some(position) && {
                &&& rounded_down(
                    position.amount as int,
                    account.shares as int,
                    env@.pool.total_deposited as int,
                    env@.pool.total_shares as int,
                )
                &&& position.last_claim_ledger == account.last_claim
                &&& account.staked_at matches Some(since) ==> position.staked_at_ledger == since
            })
            &&& account.shares > 0 && account.shares * env@.pool.total_deposited <= i128::MAX
                ==> r is Ok
        }),
{
    crate::laws::books::nobody_holds_more_than_all(env@, user);
    if env@.account(user).shares > 0 {
        crate::laws::amounts::shares_are_worth_their_part(env@, env@.account(user).shares);
    }
}

/// What is asked about one user is answered with what is stored about them.
pub proof fn stored_answers(
    env: Env,
    user: Address,
    other: Address,
    number: i128,
    flag: bool,
    window: Option<ClaimWindow>,
    unbonding: Result<Option<UnbondingPosition>, VaultError>,
    weight: Result<i128, VaultError>,
)
    ensures
        ({
            let account = env@.account(user);
            &&& call_ensures(VaultContract::shares_of, (&env, user), number) ==> number
                == account.shares
            &&& call_ensures(VaultContract::has_position, (&env, user), flag) ==> flag
                == account.staked_at is Some
            &&& call_ensures(VaultContract::is_whitelisted, (&env, user), flag) ==> flag
                == account.whitelisted
            &&& call_ensures(VaultContract::is_kyc_approved, (&env, user), flag) ==> flag == (
            env@.settings.kyc_required && account.kyc_approved)
            &&& call_ensures(VaultContract::is_frozen, (&env, user), flag) ==> flag
                == account.frozen_at is Some
            &&& call_ensures(VaultContract::is_delegate, (&env, user, other), flag) ==> flag == (
            account.delegate == Some(other))
            &&& call_ensures(VaultContract::is_auto_restake_enabled, (&env, user), flag) ==> flag
                == account.auto_restake
            &&& call_ensures(VaultContract::get_claim_window, (&env, user), window) ==> window
                == if env@.settings.claim_cap == 0 {
                None
            } else {
                account.claim_window
            }
            &&& call_ensures(VaultContract::pending_unbonding, (&env, user), unbonding)
                ==> unbonding == Ok::<Option<UnbondingPosition>, VaultError>(account.unbonding)
            &&& call_ensures(VaultContract::current_vote_weight, (&env, user), weight)
                && env@.settings.admin is Some ==> weight == Ok::<i128, VaultError>(account.shares)
        }),
{
}

/// What is asked about the pool is answered with what is stored about it.
pub proof fn pool_answers(
    env: Env,
    amount: i128,
    flag: bool,
    number: u32,
    told: Result<i128, VaultError>,
    counted: Result<u32, VaultError>,
    totals: Result<(i128, i128), VaultError>,
    lock: Result<(u32, u32), VaultError>,
    who: Result<Address, VaultError>,
)
    requires
        env@.settings.admin is Some,
    ensures
        ({
            let (settings, pool) = (env@.settings, env@.pool);
            &&& call_ensures(VaultContract::is_paused, (&env,), flag) ==> flag == pool.paused
            &&& call_ensures(VaultContract::is_stopped, (&env,), flag) ==> flag == settings.stopped
            &&& call_ensures(VaultContract::total_staked, (&env,), told) ==> told == Ok::<
                i128,
                VaultError,
            >(pool.total_shares)
            &&& call_ensures(VaultContract::total_vote_weight, (&env,), told) ==> told == Ok::<
                i128,
                VaultError,
            >(pool.total_shares)
            &&& call_ensures(VaultContract::vault_state, (&env,), totals) ==> totals == Ok::<
                (i128, i128),
                VaultError,
            >((pool.total_shares, pool.total_deposited))
            &&& call_ensures(VaultContract::total_rewards_paid, (&env,), amount) ==> amount
                == pool.total_rewards_paid
            &&& call_ensures(VaultContract::get_reward_pool_balance, (&env,), told) ==> told
                == Ok::<i128, VaultError>(pool.reward_pool_balance)
            &&& call_ensures(VaultContract::get_last_updated_ledger, (&env,), number) ==> number
                == pool.last_updated_ledger
            &&& call_ensures(VaultContract::get_lock_config, (&env,), lock) ==> lock == Ok::<
                (u32, u32),
                VaultError,
            >((settings.lock_period, settings.early_exit_penalty_bps))
            &&& call_ensures(VaultContract::get_unstake_fee_bps, (&env,), number) ==> number
                == settings.unstake_fee_bps
            &&& call_ensures(VaultContract::get_min_stake, (&env,), told) ==> told == Ok::<
                i128,
                VaultError,
            >(settings.min_stake)
            &&& call_ensures(VaultContract::get_pool_cap, (&env,), told) ==> told == Ok::<
                i128,
                VaultError,
            >(settings.pool_cap)
            &&& call_ensures(VaultContract::get_withdrawal_limit, (&env,), told) ==> told == Ok::<
                i128,
                VaultError,
            >(
                match settings.withdrawal_limit {
                    Some(limit) => limit,
                    None => 0,
                },
            )
            &&& call_ensures(VaultContract::get_reward_rate_bps, (&env,), counted) ==> counted
                == Ok::<u32, VaultError>(settings.reward_rate_bps)
            &&& call_ensures(VaultContract::current_apr_bps, (&env,), number) ==> number
                == settings.reward_rate_bps
            &&& call_ensures(VaultContract::get_admin_action_count, (&env,), counted) ==> counted
                == Ok::<u32, VaultError>(settings.admin_action_count)
            &&& call_ensures(VaultContract::get_max_positions_per_user, (&env,), number) ==> number
                == settings.max_positions
            &&& call_ensures(VaultContract::stake_decimals, (&env,), number) ==> number
                == settings.stake_decimals
            &&& call_ensures(VaultContract::reward_decimals, (&env,), number) ==> number
                == settings.reward_decimals
            &&& call_ensures(VaultContract::get_admin, (&env,), who) ==> who == Ok::<
                Address,
                VaultError,
            >(settings.admin->Some_0)
            &&& call_ensures(VaultContract::get_stake_token, (&env,), who) && settings.token is Some
                ==> who == Ok::<Address, VaultError>(settings.token->Some_0)
            &&& call_ensures(VaultContract::get_reward_token, (&env,), who)
                && settings.reward_token is Some ==> who == Ok::<Address, VaultError>(
                settings.reward_token->Some_0,
            )
            &&& call_ensures(VaultContract::pool_uptime_ledgers, (&env,), number) ==> (
            settings.initialized_at_ledger matches Some(since) ==> since <= env@.sequence ==> number
                == env@.sequence - since)
        }),
{
}

/// The configuration and the statistics of the pool are what is stored.
pub proof fn pool_summaries(
    env: Env,
    balance: i128,
    config: Result<PoolConfig, VaultError>,
    stats: Result<PoolStats, VaultError>,
    campaign: Result<Option<(u32, u32)>, VaultError>,
)
    requires
        env@.settings.admin is Some,
        env@.settings.token is Some,
        call_ensures(VaultContract::get_pool_config, (&env,), config),
        call_ensures(VaultContract::pool_stats, (&env, balance), stats),
        call_ensures(VaultContract::active_campaign, (&env,), campaign),
    ensures
        config == Ok::<PoolConfig, VaultError>(
            PoolConfig {
                admin: env@.settings.admin->Some_0,
                stake_token: env@.settings.token->Some_0,
                reward_token: env@.settings.token->Some_0,
                reward_rate_bps: env@.settings.reward_rate_bps,
                paused: env@.pool.paused,
            },
        ),
        stats == Ok::<PoolStats, VaultError>(
            PoolStats {
                total_staked: env@.pool.total_deposited,
                total_stakers: env@.pool.total_stakers,
                reward_rate_bps: env@.settings.reward_rate_bps as i128,
                reward_token_balance: balance,
                paused: env@.pool.paused,
                total_rewards_paid: env@.pool.total_rewards_paid,
            },
        ),
        match env@.settings.campaign {
            Some(c) => if c.starts_at_ledger <= env@.sequence < c.ends_at_ledger {
                campaign == Ok::<Option<(u32, u32)>, VaultError>(
                    Some((c.multiplier_bps, c.ends_at_ledger)),
                )
            } else {
                campaign == Ok::<Option<(u32, u32)>, VaultError>(None)
            },
            None => campaign == Ok::<Option<(u32, u32)>, VaultError>(None),
        },
{
}

/// Ages are counted in ledgers up to now: that of a position from its stake, that of a claim from
/// the claim, and the lock-up that is left up to its end.
pub proof fn ages_are_counted_up_to_now(
    env: Env,
    user: Address,
    age: Result<u32, VaultError>,
    waited: Result<u32, VaultError>,
    locked: Result<u32, VaultError>,
    since: Result<u32, VaultError>,
)
    requires
        call_ensures(VaultContract::position_age_ledgers, (&env, user), age),
        call_ensures(VaultContract::time_since_last_claim, (&env, user), waited),
        call_ensures(VaultContract::minimum_lock_remaining, (&env, user), locked),
        call_ensures(VaultContract::claimable_since, (&env, user), since),
    ensures
        ({
            let account = env@.account(user);
            let none = Err::<u32, VaultError>(VaultError::PositionNotFound);
            let now = env@.sequence;
            let end = account.staked_at->Some_0 + env@.settings.lock_period;
            &&& account.shares == 0 ==> age == none && waited == none && locked == none && since
                == none
            &&& account.shares != 0 && account.last_claim <= now ==> waited == Ok::<
                u32,
                VaultError,
            >((now - account.last_claim) as u32)
            &&& account.shares != 0 && account.staked_at is Some && account.staked_at->Some_0 <= now
                ==> {
                &&& age == Ok::<u32, VaultError>((now - account.staked_at->Some_0) as u32)
                &&& env@.settings.lock_period > 0 && now < end <= u32::MAX ==> locked == Ok::<
                    u32,
                    VaultError,
                >((end - now) as u32)
                &&& env@.settings.lock_period == 0 || end <= now ==> locked == Ok::<
                    u32,
                    VaultError,
                >(0)
            }
            &&& since matches Ok(ledger) ==> (account.checkpoint matches Some(settled) ==> ledger
                == settled)
        }),
{
}

/// The vote weight at a ledger is what was noted last by then, and nothing before the first note.
pub proof fn votes_count_what_was_noted_last(history: Seq<(u32, i128)>, ledger: u32, last: int)
    requires
        -1 <= last < history.len(),
        forall|i: int| 0 <= i <= last ==> (#[trigger] history[i]).0 <= ledger,
        last + 1 < history.len() ==> ledger < history[last + 1].0,
    ensures
        crate::queries::weight_at(history, ledger) == if last >= 0 {
            history[last].1
        } else {
            0
        },
{
    crate::queries::lemma_entries_until(history, ledger, last + 1);
}

/// `vote_weight_at` goes by the notes of the user.
pub proof fn a_vote_weight_is_told(
    env: Env,
    user: Address,
    ledger: u32,
    r: Result<i128, VaultError>,
)
    requires
        env@.settings.admin is Some,
        call_ensures(VaultContract::vote_weight_at, (&env, user, ledger), r),
    ensures
        r == Ok::<i128, VaultError>(crate::queries::weight_at(env@.votes_of(user), ledger)),
{
}

/// A checkpoint is found where one was taken by then, and it is the last one of them.
pub proof fn a_checkpoint_is_the_last_by_then(
    env: Env,
    ledger: u32,
    last: int,
    r: Option<TotalStakedSnapshot>,
)
    requires
        call_ensures(VaultContract::get_snapshot_at, (&env, ledger), r),
        -1 <= last < env@.snapshots.len(),
        last >= 0 ==> env@.snapshots[last].ledger <= ledger,
        forall|i: int|
            last < i < env@.snapshots.len() ==> ledger < (#[trigger] env@.snapshots[i]).ledger,
    ensures
        r == if last >= 0 {
            Some(env@.snapshots[last])
        } else {
            None
        },
{
    lemma_snapshot(env@.snapshots, ledger, last);
}

proof fn lemma_snapshot(snapshots: Seq<TotalStakedSnapshot>, ledger: u32, last: int)
    requires
        -1 <= last < snapshots.len(),
        last >= 0 ==> snapshots[last].ledger <= ledger,
        forall|i: int| last < i < snapshots.len() ==> ledger < (#[trigger] snapshots[i]).ledger,
    ensures
        crate::pool_queries::snapshot_until(snapshots, ledger) == if last >= 0 {
            Some(snapshots[last])
        } else {
            None
        },
    decreases snapshots.len(),
{
    if last + 1 < snapshots.len() {
        let shorter = snapshots.drop_last();
        assert(ledger < snapshots[snapshots.len() - 1].ledger);
        assert forall|i: int| last < i < shorter.len() implies ledger < (#[trigger]
        shorter[i]).ledger by {
            assert(shorter[i] == snapshots[i]);
        }
        lemma_snapshot(shorter, ledger, last);
    }
}

/// The progress through the boost tiers: how many have begun, the multiplier of the last of them,
/// and how long it takes until which multiplier comes next.
pub proof fn progress_goes_by_the_tiers(
    env: Env,
    user: Address,
    begun: int,
    progress: BoostTierProgress,
)
    requires
        call_ensures(VaultContract::get_boost_tier_progress, (&env, user), progress),
        env@.account(user).staked_at matches Some(since) && since <= env@.sequence,
        0 <= begun <= env@.boost_schedule.len() <= 5,
        forall|i: int|
            0 <= i < begun ==> (#[trigger] env@.boost_schedule[i]).0 <= env@.sequence
                - env@.account(user).staked_at->Some_0,
        begun < env@.boost_schedule.len() ==> env@.boost_schedule[begun].0 > env@.sequence
            - env@.account(user).staked_at->Some_0,
    ensures
        progress.current_tier == begun,
        progress.current_multiplier_bps == if begun == 0 {
            10_000
        } else {
            env@.boost_schedule[begun - 1].1 as i128
        },
        begun < env@.boost_schedule.len() ==> {
            &&& progress.next_tier_in_ledgers matches Some(wait) && wait
                + env@.sequence == env@.account(user).staked_at->Some_0
                + env@.boost_schedule[begun].0
            &&& progress.next_multiplier_bps == Some(env@.boost_schedule[begun].1 as i128)
        },
        begun == env@.boost_schedule.len() ==> progress.next_tier_in_ledgers is None
            && progress.next_multiplier_bps is None,
{
    let elapsed = env@.sequence - env@.account(user).staked_at->Some_0;
    crate::rewards::lemma_tiers_reached(env@.boost_schedule, elapsed, begun);
}

/// The part of the pool that a user has, by shares and by worth, in basis points, rounded down.
pub proof fn a_part_is_told_in_basis_points(env: Env, user: Address, worth: int, bps: i128)
    requires
        env@.balanced(),
        crate::laws::estimates::position_is_worth(env@, user, worth),
        env@.account(user).shares * env@.pool.total_deposited <= i128::MAX,
        env@.account(user).shares * 10_000 <= i128::MAX,
        worth * 10_000 <= i128::MAX,
        env@.pool.total_deposited > 0,
        call_ensures(VaultContract::percentage_of_pool, (&env, user), bps),
    ensures
        rounded_down(bps as int, worth, 10_000, env@.pool.total_deposited as int),
        rounded_down(
            env@.pool_share_bps(user) as int,
            env@.account(user).shares as int,
            10_000,
            env@.pool.total_shares as int,
        ),
{
    crate::laws::books::nobody_holds_more_than_all(env@, user);
    crate::laws::estimates::lemma_position_worth(env@, user, worth);
    crate::laws::amounts::lemma_scaled(worth, 10_000, env@.pool.total_deposited as int);
    crate::laws::amounts::lemma_scaled(
        env@.account(user).shares as int,
        10_000,
        env@.pool.total_shares as int,
    );
}

/// What is told about a user at once is what is told one by one.
pub proof fn summaries_agree(
    env: Env,
    user: Address,
    position: Option<StakePosition>,
    pending: i128,
    stats: Result<UserStats, VaultError>,
    summary: Result<UserSummary, VaultError>,
)
    requires
        env@.settings.admin is Some,
        call_ensures(
            VaultContract::position_of,
            (&env, user),
            Ok::<Option<StakePosition>, VaultError>(position),
        ),
        env@.pending_reward(user) == Ok::<i128, VaultError>(pending),
        call_ensures(VaultContract::user_stats, (&env, user), stats),
        call_ensures(VaultContract::user_summary, (&env, user), summary),
    ensures
        stats matches Ok(s) && {
            &&& s.pending_reward == pending
            &&& position matches Some(p) ==> s.position_amount == p.amount && s.staked_at_ledger
                == p.staked_at_ledger && s.last_claim_ledger == p.last_claim_ledger
            &&& position is None ==> s.position_amount == 0 && s.staked_at_ledger == 0
                && s.last_claim_ledger == 0
        },
        summary matches Ok(s) && {
            &&& position matches Some(p) ==> s.position@ == seq![p] && s.pending_reward == pending
            &&& position is None ==> s.position@.len() == 0 && s.pending_reward == 0
            &&& s.pool_share_bps == env@.pool_share_bps(user)
        },
{
}

/// The score tells what part of all that a user earned they have claimed.
pub proof fn the_score_tells_what_was_claimed(
    env: Env,
    user: Address,
    pending: i128,
    score: StakingEfficiencyScore,
)
    requires
        call_ensures(VaultContract::staking_efficiency_score, (&env, user), score),
        env@.pending_reward(user) == Ok::<i128, VaultError>(pending),
        pending >= 0,
        env@.account(user).total_claimed >= 0,
        env@.account(user).total_claimed + pending > 0,
        (env@.account(user).total_claimed + pending) * 10_000 <= i128::MAX,
        env@.position_worth(user) is Some,
        env@.settings.reward_rate_bps > 0,
    ensures
        score.total_claimed == env@.account(user).total_claimed,
        score.estimated_if_compounded == env@.account(user).total_claimed + pending,
        rounded_down(
            score.efficiency_bps as int,
            score.total_claimed as int,
            10_000,
            score.estimated_if_compounded as int,
        ),
{
    let (c, e) = (
        env@.account(user).total_claimed as int,
        env@.account(user).total_claimed + pending,
    );
    crate::laws::amounts::lemma_scaled(c, 10_000, e);
    let q = (c * 10_000) / e;
    assert(0 <= q <= 10_000) by (nonlinear_arith)
        requires
            0 <= c <= e,
            0 < e,
            q == (c * 10_000) / e,
    ;
}

/// `can_unstake` tells what stands in the way: the pause first, then that there is no position,
/// then the cooldown, and then the amount.
pub proof fn what_stands_in_the_way_is_told(
    env: Env,
    user: Address,
    amount: i128,
    r: UnstakeCheckResult,
)
    requires
        call_ensures(VaultContract::can_unstake, (&env, user, amount), r),
    ensures
        ({
            let shares = env@.account(user).shares;
            let too_much = amount <= 0 || amount > shares || (env@.settings.withdrawal_limit
                matches Some(limit) && amount > limit);
            &&& env@.pool.paused <==> r is PoolPaused
            &&& !env@.pool.paused && shares == 0 <==> r is NoPosition
            &&& !env@.pool.paused && shares != 0 && env@.settings.cooldown_period > 0 <==> r is
                StillLocked
            &&& !env@.pool.paused && shares != 0 && env@.settings.cooldown_period == 0 && too_much
                ==> r is InsufficientAmount
        }),
{
}

/// The streak that is told is the one that was recorded last, and 0 for who was not in the last
/// wave.
pub proof fn a_streak_is_told(env: Env, user: Address, streak: StakeStreak)
    requires
        call_ensures(VaultContract::get_streak, (&env, user), streak),
    ensures
        match env@.account(user).streak {
            Some(kept) => {
                let last = match env@.settings.last_recorded_wave {
                    Some(wave) => wave,
                    None => 0,
                };
                &&& streak.longest_streak == kept.longest_streak
                &&& streak.last_active_wave == kept.last_active_wave
                &&& kept.last_active_wave == last ==> streak.current_streak == kept.current_streak
                &&& kept.last_active_wave != last ==> streak.current_streak == 0
            },
            None => streak == (StakeStreak {
                current_streak: 0,
                longest_streak: 0,
                last_active_wave: 0,
            }),
        },
{
}

/// One address text comes before another where it has the smaller byte at the first place at which
/// they differ, or where it ends there.
pub proof fn texts_are_compared_byte_by_byte(a: Seq<u8>, b: Seq<u8>, k: int)
    requires
        0 <= k <= a.len(),
        k <= b.len(),
        forall|i: int| 0 <= i < k ==> #[trigger] a[i] == b[i],
        k < a.len() && k < b.len() ==> a[k] != b[k],
    ensures
        crate::address::precedes(a, b) == (k < b.len() && (k == a.len() || a[k] < b[k])),
    decreases k,
{
    if k > 0 {
        let (c, d) = (a.skip(1), b.skip(1));
        assert(a[0] == b[0]);
        assert forall|i: int| 0 <= i < k - 1 implies #[trigger] c[i] == d[i] by {
            assert(a[i + 1] == b[i + 1]);
        }
        texts_are_compared_byte_by_byte(c, d, k - 1);
    }
}

/// Of two users with shares the one whose shares are worth more outranks the other, and where both
/// are worth the same, the one whose text comes first.
pub proof fn the_larger_position_outranks(
    state: State,
    one: Address,
    other: Address,
    worth: int,
    other_worth: int,
)
    requires
        state.balanced(),
        one != other,
        crate::laws::estimates::position_is_worth(state, one, worth),
        crate::laws::estimates::position_is_worth(state, other, other_worth),
        state.account(one).shares * state.pool.total_deposited <= i128::MAX,
        state.account(other).shares * state.pool.total_deposited <= i128::MAX,
    ensures
        state.outranks(one, other) == (worth > other_worth || (worth == other_worth
            && crate::address::precedes(one.text(), other.text()))),
{
    crate::laws::estimates::lemma_position_worth(state, one, worth);
    crate::laws::estimates::lemma_position_worth(state, other, other_worth);
}

/// `get_staker_rank` counts who outranks a user: a user without shares has no rank.
pub proof fn a_rank_is_told(env: Env, user: Address, r: Option<u32>)
    requires
        call_ensures(VaultContract::get_staker_rank, (&env, user), r),
    ensures
        env@.account(user).shares == 0 ==> r is None,
        env@.account(user).shares != 0 ==> (r matches Some(rank) && (env@.stakers.len() < u32::MAX
            ==> rank == 1 + outranking(env@, env@.stakers, user))),
{
    lemma_outranking(env@, env@.stakers, user);
}

/// How many of some users outrank one.
pub open spec fn outranking(state: State, users: Seq<Address>, user: Address) -> int
    decreases users.len(),
{
    if users.len() == 0 {
        0
    } else {
        outranking(state, users.drop_last(), user) + if state.outranks(users.last(), user) {
            1int
        } else {
            0
        }
    }
}

proof fn lemma_outranking(state: State, users: Seq<Address>, user: Address)
    ensures
        outranking(state, users, user) == users.filter(
            |other: Address| state.outranks(other, user),
        ).len(),
        0 <= outranking(state, users, user) <= users.len(),
    decreases users.len(),
{
    reveal(Seq::filter);
    if users.len() > 0 {
        lemma_outranking(state, users.drop_last(), user);
    }
}

/// How many of some users have shares and came at the present rate.
pub open spec fn came_at_the_rate(state: State, users: Seq<Address>) -> int
    decreases users.len(),
{
    if users.len() == 0 {
        0
    } else {
        let account = state.account(users.last());
        let since = match account.staked_at {
            Some(ledger) => ledger,
            None => 0,
        };
        came_at_the_rate(state, users.drop_last()) + if account.shares > 0 && since
            >= state.settings.last_rate_change_ledger {
            1int
        } else {
            0
        }
    }
}

/// `staker_count_at_rate` counts the stakers with shares who came since the rate last changed.
pub proof fn stakers_at_the_rate_are_counted(env: Env, count: u32)
    requires
        call_ensures(VaultContract::staker_count_at_rate, (&env,), count),
        env@.stakers.len() <= u32::MAX,
    ensures
        count == came_at_the_rate(env@, env@.stakers),
{
    lemma_came(env@, env@.stakers);
}

proof fn lemma_came(state: State, users: Seq<Address>)
    ensures
        came_at_the_rate(state, users) == users.filter(
            |user: Address| state.joined_at_rate(user),
        ).len(),
        0 <= came_at_the_rate(state, users) <= users.len(),
    decreases users.len(),
{
    reveal(Seq::filter);
    if users.len() > 0 {
        lemma_came(state, users.drop_last());
    }
}

/// Positions that are asked for at once come in the order in which they were asked for, up to
/// twenty.
pub proof fn a_batch_is_answered_in_order(
    env: Env,
    users: Vec<Address>,
    positions: Vec<Option<StakePosition>>,
    k: int,
)
    requires
        call_ensures(
            VaultContract::batch_position_query,
            (&env, users),
            Ok::<Vec<Option<StakePosition>>, VaultError>(positions),
        ),
    ensures
        users@.len() <= 20,
        positions@.len() == users@.len(),
        0 <= k < users@.len() ==> env@.position(users@[k]) == Ok::<
            Option<StakePosition>,
            VaultError,
        >(positions@[k]),
{
    lemma_batch(env@, users@, k);
}

proof fn lemma_batch(state: State, users: Seq<Address>, k: int)
    ensures
        state.batch(users) matches Ok(positions) ==> {
            &&& positions.len() == users.len()
            &&& 0 <= k < users.len() ==> state.position(users[k]) == Ok::<
                Option<StakePosition>,
                VaultError,
            >(positions[k])
        },
    decreases users.len(),
{
    if users.len() > 0 {
        lemma_batch(state, users.drop_last(), k);
    }
}

/// A page holds the stakers from `page` times its size on, as many as its size, in the order of the
/// list.
pub proof fn a_page_holds_its_part_of_the_list(state: State, page: u32, size: u32, k: int)
    requires
        0 <= k < size,
    ensures
        ({
            let place = page * size + k;
            let there = state.page(page, size);
            &&& place < state.stakers.len() ==> k < there.len() && there[k] == state.stakers[place]
            &&& place >= state.stakers.len() ==> k >= there.len()
            &&& there.len() <= size
        }),
{
    assert(page * size >= 0) by (nonlinear_arith);
}

/// `view_all_positions` shows the admin the positions on a page, of those who have one.
pub proof fn a_page_shows_the_positions_on_it(
    env: Env,
    page: u32,
    size: u32,
    shown: Vec<(Address, StakePosition)>,
    user: Address,
    position: StakePosition,
)
    requires
        call_ensures(
            VaultContract::view_all_positions,
            (&env, page, size),
            Ok::<Vec<(Address, StakePosition)>, VaultError>(shown),
        ),
    ensures
        env@.settings.admin matches Some(admin) && env@.signers.contains(admin),
        1 <= size <= 20,
        shown@.len() <= env@.page(page, size).len(),
        shown@.contains((user, position)) <==> env@.page(page, size).contains(user)
            && env@.position(user) == Ok::<Option<StakePosition>, VaultError>(Some(position)),
{
    lemma_listing(env@, env@.page(page, size), user, position);
}

proof fn lemma_listing(state: State, users: Seq<Address>, user: Address, position: StakePosition)
    ensures
        state.listing(users) matches Ok(shown) ==> {
            &&& shown.len() <= users.len()
            &&& shown.contains((user, position)) <==> users.contains(user) && state.position(user)
                == Ok::<Option<StakePosition>, VaultError>(Some(position))
        },
    decreases users.len(),
{
    if users.len() > 0 && state.listing(users) is Ok {
        let shorter = users.drop_last();
        lemma_listing(state, shorter, user, position);
        let before = state.listing(shorter)->Ok_0;
        let shown = state.listing(users)->Ok_0;
        let line = (user, position);
        assert(users.contains(user) <==> shorter.contains(user) || user == users.last()) by {
            if users.contains(user) {
                let k = choose|k: int| 0 <= k < users.len() && users[k] == user;
                if k < shorter.len() {
                    assert(shorter[k] == user);
                }
            }
            if shorter.contains(user) {
                let k = choose|k: int| 0 <= k < shorter.len() && shorter[k] == user;
                assert(users[k] == user);
            }
            assert(users[users.len() - 1] == users.last());
        }
        if let Ok(Some(last)) = state.position(users.last()) {
            let item = (users.last(), last);
            assert(shown == before.push(item));
            assert(shown[before.len() as int] == item);
            if before.contains(line) {
                let k = choose|k: int| 0 <= k < before.len() && before[k] == line;
                assert(shown[k] == line);
            }
            if shown.contains(line) {
                let k = choose|k: int| 0 <= k < shown.len() && shown[k] == line;
                if k < before.len() {
                    assert(before[k] == line);
                }
            }
        }
    }
}

/// Other contracts are told what a position is worth, what is deposited in all, and whether the
/// pool is paused.
pub proof fn other_contracts_are_told(
    env: Env,
    user: Address,
    worth: int,
    staked: i128,
    total: i128,
    paused: bool,
)
    requires
        env@.balanced(),
        call_ensures(
            <VaultContract as crate::interface::IStakingPool>::staked_amount,
            (&env, user),
            staked,
        ),
        call_ensures(
            <VaultContract as crate::interface::IStakingPool>::total_staked,
            (&env,),
            total,
        ),
        call_ensures(
            <VaultContract as crate::interface::IStakingPool>::is_paused,
            (&env,),
            paused,
        ),
        env@.account(user).shares * env@.pool.total_deposited <= i128::MAX,
    ensures
        crate::laws::estimates::position_is_worth(env@, user, worth) ==> staked == worth,
        env@.account(user).shares == 0 ==> staked == 0,
        total == env@.pool.total_deposited,
        paused == env@.pool.paused,
{
    if crate::laws::estimates::position_is_worth(env@, user, worth) {
        crate::laws::estimates::lemma_position_worth(env@, user, worth);
    }
}

/// Lists are told as they are kept.
pub proof fn lists_are_told(
    env: Env,
    user: Address,
    changelog: Vec<ChangelogEntry>,
    rates: Vec<RateHistoryEntry>,
    changes: Vec<(u32, u32)>,
    board: Vec<LeaderboardEntry>,
    snapshots: Vec<TotalStakedSnapshot>,
    log: Vec<StakeHistoryEntry>,
    queue: Vec<VestingEntry>,
)
    ensures
        call_ensures(VaultContract::get_changelog, (&env,), changelog) ==> changelog@
            == env@.changelog,
        call_ensures(VaultContract::get_reward_rate_history, (&env,), rates) ==> rates@
            == env@.reward_rate_history,
        call_ensures(
            VaultContract::get_rate_history,
            (&env,),
            Ok::<Vec<(u32, u32)>, VaultError>(changes),
        ) ==> changes@ == env@.rate_history,
        call_ensures(
            VaultContract::get_boost_schedule,
            (&env,),
            Ok::<Vec<(u32, u32)>, VaultError>(changes),
        ) ==> changes@ == env@.boost_schedule,
        call_ensures(
            VaultContract::get_leaderboard,
            (&env,),
            Ok::<Vec<LeaderboardEntry>, VaultError>(board),
        ) ==> board@ == env@.leaderboard,
        call_ensures(VaultContract::get_all_snapshots, (&env,), snapshots) ==> snapshots@
            == env@.snapshots,
        call_ensures(VaultContract::stake_history, (&env, user), log) ==> log@ == env@.stake_log_of(
            user,
        ),
        call_ensures(VaultContract::vesting_balance, (&env, user), queue) ==> queue@
            == env@.vesting_of(user),
{
}

/// Three interfaces are supported and three are not; a preview is what shares are worth; epochs are
/// told as they are kept.
pub proof fn some_more_answers(
    env: Env,
    user: Address,
    shares: i128,
    epoch: u32,
    flag: bool,
    preview: Result<i128, VaultError>,
    reward: i128,
    running: Result<EpochState, VaultError>,
)
    requires
        env@.pool.total_shares > 0,
        env@.pool.total_deposited >= 0,
        shares >= 0,
    ensures
        call_ensures(VaultContract::supports_interface, (&env, InterfaceId::Base), flag) ==> flag,
        call_ensures(VaultContract::supports_interface, (&env, InterfaceId::Lockup), flag) ==> flag,
        call_ensures(VaultContract::supports_interface, (&env, InterfaceId::Whitelist), flag)
            ==> flag,
        call_ensures(VaultContract::supports_interface, (&env, InterfaceId::Compounding), flag)
            ==> flag == false,
        call_ensures(VaultContract::supports_interface, (&env, InterfaceId::EpochMode), flag)
            ==> flag == false,
        call_ensures(VaultContract::supports_interface, (&env, InterfaceId::VestingSchedule), flag)
            ==> flag == false,
        call_ensures(VaultContract::preview_redeem, (&env, shares), preview) && shares
            * env@.pool.total_deposited <= i128::MAX ==> (preview matches Ok(worth)
            && rounded_down(
            worth as int,
            shares as int,
            env@.pool.total_deposited as int,
            env@.pool.total_shares as int,
        )),
        call_ensures(VaultContract::epoch_reward, (&env, user, epoch), reward) ==> reward
            == env@.epoch_reward(user, epoch),
        call_ensures(VaultContract::current_epoch, (&env,), running) ==> match
            env@.settings.current_epoch {
            Some(kept) => running == Ok::<EpochState, VaultError>(kept),
            None => running == Err::<EpochState, VaultError>(VaultError::NotInitialized),
        },
{
    crate::laws::amounts::shares_are_worth_their_part(env@, shares);
}

/// Up to twenty positions can be asked for at once, and up to twenty stand on a page; neither fewer
/// nor more.
pub proof fn twenty_at_once(
    env: Env,
    users: Vec<Address>,
    page: u32,
    size: u32,
    batch: Result<Vec<Option<StakePosition>>, VaultError>,
    shown: Result<Vec<(Address, StakePosition)>, VaultError>,
)
    requires
        env@.admin_signed(),
        call_ensures(VaultContract::batch_position_query, (&env, users), batch),
        call_ensures(VaultContract::view_all_positions, (&env, page, size), shown),
    ensures
        users@.len() > 20 <==> (batch matches Err(e) && e == VaultError::BatchTooLarge),
        size == 0 || size > 20 <==> (shown matches Err(e) && e == VaultError::PageSizeTooLarge),
        users@.len() <= 20 ==> (batch matches Err(e) ==> e == VaultError::ArithmeticError),
        0 < size <= 20 ==> (shown matches Err(e) ==> e == VaultError::ArithmeticError),
{
    lemma_batch_error(env@, users@);
    lemma_batch_error(env@, env@.page(page, size));
}

proof fn lemma_batch_error(state: State, users: Seq<Address>)
    ensures
        state.batch(users) matches Err(e) ==> e == VaultError::ArithmeticError,
        state.listing(users) matches Err(e) ==> e == VaultError::ArithmeticError,
{
}

/// Other contracts are told what is pending in the precision of the reward token, and 0 where that
/// cannot be told.
pub proof fn other_contracts_are_told_what_is_pending(env: Env, user: Address, pending: i128)
    requires
        call_ensures(
            <VaultContract as crate::interface::IStakingPool>::pending_reward,
            (&env, user),
            pending,
        ),
    ensures
        env@.settings.admin is None ==> pending == 0,
        env@.settings.admin is Some ==> match env@.pending_reward(user) {
            Ok(raw) => match env@.normalized(raw) {
                Ok(told) => pending == told,
                Err(_) => pending == 0,
            },
            Err(_) => pending == 0,
        },
{
}

/// A pool that is not set up has no answers.
pub proof fn a_pool_without_an_admin_has_no_answers(
    env: Env,
    user: Address,
    n: u32,
    amount: i128,
    told: Result<i128, VaultError>,
    counted: Result<u32, VaultError>,
    totals: Result<(i128, i128), VaultError>,
    lock: Result<(u32, u32), VaultError>,
    who: Result<Address, VaultError>,
)
    requires
        env@.settings.admin is None,
    ensures
        ({
            let none = Err::<i128, VaultError>(VaultError::NotInitialized);
            let no_count = Err::<u32, VaultError>(VaultError::NotInitialized);
            &&& call_ensures(VaultContract::get_admin, (&env,), who) ==> who == Err::<
                Address,
                VaultError,
            >(VaultError::NotInitialized)
            &&& call_ensures(VaultContract::vault_state, (&env,), totals) ==> totals == Err::<
                (i128, i128),
                VaultError,
            >(VaultError::NotInitialized)
            &&& call_ensures(VaultContract::get_lock_config, (&env,), lock) ==> lock == Err::<
                (u32, u32),
                VaultError,
            >(VaultError::NotInitialized)
            &&& call_ensures(VaultContract::total_staked, (&env,), told) ==> told == none
            &&& call_ensures(VaultContract::total_vote_weight, (&env,), told) ==> told == none
            &&& call_ensures(VaultContract::current_vote_weight, (&env, user), told) ==> told
                == none
            &&& call_ensures(VaultContract::vote_weight_at, (&env, user, n), told) ==> told == none
            &&& call_ensures(VaultContract::calc_pending_reward, (&env, user), told) ==> told
                == none
            &&& call_ensures(VaultContract::get_min_stake, (&env,), told) ==> told == none
            &&& call_ensures(VaultContract::get_pool_cap, (&env,), told) ==> told == none
            &&& call_ensures(VaultContract::get_withdrawal_limit, (&env,), told) ==> told == none
            &&& call_ensures(VaultContract::get_reward_pool_balance, (&env,), told) ==> told == none
            &&& call_ensures(VaultContract::simulate_stake, (&env, amount, n), told) ==> told
                == none
            &&& call_ensures(VaultContract::get_reward_rate_bps, (&env,), counted) ==> counted
                == no_count
            &&& call_ensures(VaultContract::twap_apr_bps, (&env, n), counted) ==> counted
                == no_count
            &&& call_ensures(VaultContract::get_boost_multiplier, (&env, user), counted) ==> counted
                == no_count
            &&& call_ensures(VaultContract::ledgers_to_target, (&env, user, amount), counted)
                ==> counted == no_count
        }),
{
}

} // verus!
