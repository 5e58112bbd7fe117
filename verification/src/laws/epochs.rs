//! Epochs: each one is claimed once and pays out no more than its reward.
use crate::address::Address;
use crate::calls::{AdminCall, Call, ManageCall, MarkCall, PlanCall, SettingCall};
use crate::env::{Effect, State};
use crate::epochs::EPOCH_SCALE;
use crate::errors::VaultError;
use crate::events::Event;
use crate::laws::amounts::{lemma_all_transfers, rounded_down};
use crate::storage::{Account, EpochState, Settings};
use crate::table::UserEpochSnapshotKey;
use vstd::prelude::*;

verus! {

impl State {
    /// Nothing is kept yet for the running epoch or a later one.
    pub open spec fn epochs_in_order(self) -> bool {
        let running = match self.settings.current_epoch {
            Some(epoch) => epoch.epoch_number,
            None => 0,
        };
        &&& forall|key: UserEpochSnapshotKey| #[trigger]
            self.epoch_stakes.contains_key(key) ==> key.epoch < running
        &&& forall|epoch: u32| #[trigger]
            self.epoch_factors.contains_key(epoch) ==> epoch < running
    }

    /// The rewards of some users for an epoch.
    pub open spec fn epoch_rewards(self, users: Seq<Address>, epoch: u32) -> int
        decreases users.len(),
    {
        if users.len() == 0 {
            0
        } else {
            self.epoch_rewards(users.drop_last(), epoch) + self.epoch_reward(users.last(), epoch)
        }
    }
}

/// A fresh pool has no epochs.
pub proof fn no_epochs_at_first(contract: Address, sequence: u32)
    ensures
        State::blank(contract, sequence).epochs_in_order(),
{
}

proof fn lemma_manage(state: State, call: ManageCall)
    requires
        state.epochs_in_order(),
    ensures
        state.manage_step(call) matches Ok(next) ==> next.epochs_in_order(),
{
    reveal(State::manage_step);
    match call {
        ManageCall::RecordWaveActivity { wave_id, active_users } => {
            lemma_carry_on(state.lapse(active_users), active_users, state.last_wave(), wave_id);
        },
        _ => {},
    }
}

proof fn lemma_carry_on(state: State, active: Seq<Address>, last: u32, wave: u32)
    ensures
        state.carry_on(active, last, wave) matches Ok(next) ==> next.settings == state.settings
            && next.epoch_stakes == state.epoch_stakes && next.epoch_factors
            == state.epoch_factors,
    decreases active.len(),
{
    if active.len() > 0 {
        lemma_carry_on(state, active.drop_last(), last, wave);
    }
}

/// The calls of the admin that are about something else leave the epochs alone.
proof fn lemma_mark(state: State, call: MarkCall)
    ensures
        state.mark_step(call) matches Ok(next) ==> next.settings.current_epoch
            == state.settings.current_epoch && next.epoch_stakes == state.epoch_stakes
            && next.epoch_factors == state.epoch_factors,
{
    reveal(State::mark_step);
}

proof fn lemma_admin(state: State, call: AdminCall)
    ensures
        state.admin_step(call) matches Ok(next) ==> next.settings.current_epoch
            == state.settings.current_epoch && next.epoch_stakes == state.epoch_stakes
            && next.epoch_factors == state.epoch_factors,
{
    reveal(State::admin_step);
}

proof fn lemma_plan(state: State, call: PlanCall)
    ensures
        state.plan_step(call) matches Ok(next) ==> next.settings.current_epoch
            == state.settings.current_epoch && next.epoch_stakes == state.epoch_stakes
            && next.epoch_factors == state.epoch_factors,
{
    reveal(State::plan_step);
}

proof fn lemma_setting(state: State, call: SettingCall)
    ensures
        state.setting_step(call) matches Ok(next) ==> next.settings.current_epoch
            == state.settings.current_epoch && next.epoch_stakes == state.epoch_stakes
            && next.epoch_factors == state.epoch_factors,
{
    reveal(State::setting_step);
}

/// Every call keeps the epochs in order.
pub proof fn epochs_stay_in_order(state: State, call: Call)
    requires
        state.epochs_in_order(),
    ensures
        state.step(call) matches Ok(next) ==> next.epochs_in_order(),
{
    match call {
        Call::User(call) => crate::laws::consent::users_change_what_is_theirs(state, call),
        Call::Owner(call) => crate::laws::consent::owners_change_what_is_theirs(state, call),
        Call::Manage(call) => lemma_manage(state, call),
        Call::Mark(call) => lemma_mark(state, call),
        Call::Admin(call) => lemma_admin(state, call),
        Call::Plan(call) => lemma_plan(state, call),
        Call::Setting(call) => lemma_setting(state, call),
    }
}

/// Epochs are claimed once: after a claim that paid something, a claim in the same epoch pays
/// nothing.
pub proof fn an_epoch_is_claimed_once(state: State, user: Address)
    ensures
        state.claim_epoch_rewards(user) matches Ok((next, reward)) ==> {
            next.claim_epoch_rewards(user) matches Ok((_, again)) && again == 0
        },
{
    if let Ok((next, reward)) = state.claim_epoch_rewards(user) {
        if reward != 0 {
            let current = state.settings.current_epoch->Some_0.epoch_number;
            let last = state.account(user).last_claimed_epoch;
            if current as int <= last + 1 {
                assert(state.epoch_total(user, last as int, current as int) == Some(0i128));
            }
            assert(next.account(user).last_claimed_epoch == current - 1);
            assert(next.settings == state.settings);
            assert(next.signers == state.signers);
            assert(next.epoch_total(user, current - 1, current as int) == Some(0i128));
        }
    }
}

/// Shares of users who are all different are a part of all shares.
proof fn lemma_distinct_shares(accounts: Map<Address, Account>, users: Seq<Address>)
    requires
        accounts.dom().finite(),
        users.no_duplicates(),
        forall|u: Address| #[trigger] accounts.contains_key(u) ==> accounts[u].shares >= 0,
    ensures
        shares_of(accounts, users) <= crate::laws::books::share_sum(accounts),
        0 <= shares_of(accounts, users),
    decreases users.len(),
{
    crate::laws::books::shares_are_not_negative(accounts);
    if users.len() > 0 {
        let user = users.last();
        let shorter = users.drop_last();
        assert(users[users.len() - 1] == user);
        assert(shorter.no_duplicates()) by {
            assert forall|i: int, j: int|
                0 <= i < shorter.len() && 0 <= j < shorter.len() && i
                    != j implies shorter[i] != shorter[j] by {
                assert(users[i] != users[j]);
            }
        }
        lemma_distinct_shares(accounts, shorter);
        if accounts.contains_key(user) {
            let rest = accounts.remove(user);
            assert forall|u: Address| #[trigger] rest.contains_key(u) implies rest[u].shares >= 0 by {
                assert(accounts.contains_key(u));
            }
            lemma_distinct_shares(rest, shorter);
            lemma_without(accounts, shorter, user);
            crate::laws::books::share_sum_without(accounts, user);
        }
    }
}

/// The shares of a list of users.
pub open spec fn shares_of(accounts: Map<Address, Account>, users: Seq<Address>) -> int
    decreases users.len(),
{
    if users.len() == 0 {
        0
    } else {
        shares_of(accounts, users.drop_last()) + (if accounts.contains_key(users.last()) {
            accounts[users.last()].shares as int
        } else {
            0
        })
    }
}

proof fn lemma_without(accounts: Map<Address, Account>, users: Seq<Address>, user: Address)
    requires
        forall|i: int| 0 <= i < users.len() ==> users[i] != user,
    ensures
        shares_of(accounts.remove(user), users) == shares_of(accounts, users),
    decreases users.len(),
{
    if users.len() > 0 {
        assert(users[users.len() - 1] == users.last());
        let shorter = users.drop_last();
        assert forall|i: int| 0 <= i < shorter.len() implies shorter[i] != user by {
            assert(users[i] != user);
        }
        lemma_without(accounts, shorter, user);
    }
}

/// The reward of a user for the epoch that was just ended is no more than their part.
proof fn lemma_fair_part(state: State, user: Address, reward: i128, epoch: u32)
    requires
        state.balanced(),
        state.epochs_in_order(),
        state.settings.current_epoch matches Some(e) && e.epoch_number == epoch,
        reward >= 0,
        state.pool.total_deposited > 0,
        state.reward_factor(reward) is Some,
    ensures
        ({
            let next = state.next_epoch(epoch, state.reward_factor(reward)->Some_0);
            let part = next.epoch_reward(user, epoch);
            &&& 0 <= part
            &&& part * state.pool.total_shares <= reward * state.account(user).shares
        }),
{
    crate::laws::books::nobody_holds_more_than_all(state, user);
    let factor = state.reward_factor(reward)->Some_0;
    let next = state.next_epoch(epoch, factor);
    let key = UserEpochSnapshotKey { user, epoch };
    let (r, d, t, h) = (
        reward as int,
        state.pool.total_deposited as int,
        state.pool.total_shares as int,
        state.account(user).shares as int,
    );
    let scale = EPOCH_SCALE as int;
    assert(r * scale >= 0) by (nonlinear_arith)
        requires
            r >= 0,
            scale >= 0,
    ;
    let f = factor as int;
    assert(f >= 0 && f * d <= r * scale) by (nonlinear_arith)
        requires
            f == (r * scale) / d,
            d > 0,
            r * scale >= 0,
    ;
    assert(r * h >= 0) by (nonlinear_arith)
        requires
            r >= 0,
            h >= 0,
    ;
    if state.counts(user) {
        assert(next.epoch_stakes.contains_key(key));
        let s = state.standing(state.account(user).shares) as int;
        assert(h * d >= 0) by (nonlinear_arith)
            requires
                h >= 0,
                d >= 0,
        ;
        assert(s >= 0 && s * t <= h * d) by (nonlinear_arith)
            requires
                s == 0 || s == (h * d) / t,
                t > 0,
                h * d >= 0,
        ;
        let p = next.epoch_reward(user, epoch) as int;
        assert(s * f >= 0) by (nonlinear_arith)
            requires
                s >= 0,
                f >= 0,
        ;
        assert(p >= 0 && p * scale <= s * f) by (nonlinear_arith)
            requires
                p == 0 || p == (s * f) / scale,
                scale > 0,
                s * f >= 0,
        ;
        assert((p * scale) * t <= (s * f) * t) by (nonlinear_arith)
            requires
                p * scale <= s * f,
                t >= 0,
        ;
        assert((s * f) * t == (s * t) * f) by (nonlinear_arith);
        assert((s * t) * f <= (h * d) * f) by (nonlinear_arith)
            requires
                s * t <= h * d,
                f >= 0,
        ;
        assert((h * d) * f == h * (f * d)) by (nonlinear_arith);
        assert(h * (f * d) <= h * (r * scale)) by (nonlinear_arith)
            requires
                f * d <= r * scale,
                h >= 0,
        ;
        assert(h * (r * scale) == (r * h) * scale) by (nonlinear_arith);
        assert((p * scale) * t == (p * t) * scale) by (nonlinear_arith);
        assert(p * t <= r * h) by (nonlinear_arith)
            requires
                (p * t) * scale <= (r * h) * scale,
                scale > 0,
        ;
    } else {
        assert(!state.epoch_stakes.contains_key(key));
        assert(!next.epoch_stakes.contains_key(key));
        assert(0 * t == 0);
    }
}

proof fn lemma_fair_parts(state: State, users: Seq<Address>, reward: i128, epoch: u32)
    requires
        state.balanced(),
        state.epochs_in_order(),
        state.settings.current_epoch matches Some(e) && e.epoch_number == epoch,
        reward >= 0,
        state.pool.total_deposited > 0,
        state.reward_factor(reward) is Some,
    ensures
        ({
            let next = state.next_epoch(epoch, state.reward_factor(reward)->Some_0);
            next.epoch_rewards(users, epoch) * state.pool.total_shares <= reward * shares_of(
                state.accounts,
                users,
            )
        }),
    decreases users.len(),
{
    let next = state.next_epoch(epoch, state.reward_factor(reward)->Some_0);
    let t = state.pool.total_shares as int;
    let r = reward as int;
    if users.len() > 0 {
        let shorter = users.drop_last();
        lemma_fair_parts(state, shorter, reward, epoch);
        lemma_fair_part(state, users.last(), reward, epoch);
        let (a, b) = (
            next.epoch_rewards(shorter, epoch),
            next.epoch_reward(users.last(), epoch) as int,
        );
        let (x, y) = (
            shares_of(state.accounts, shorter),
            state.account(users.last()).shares as int,
        );
        assert((a + b) * t == a * t + b * t) by (nonlinear_arith);
        assert(r * (x + y) == r * x + r * y) by (nonlinear_arith);
    } else {
        assert(0 * t == 0);
        assert(r * 0 == 0);
    }
}

/// An epoch pays out no more than its reward, however many users claim for it.
pub proof fn an_epoch_pays_no_more_than_its_reward(state: State, users: Seq<Address>)
    requires
        state.balanced(),
        state.epochs_in_order(),
        users.no_duplicates(),
        state.settings.current_epoch matches Some(epoch) && epoch.reward_pool >= 0,
        state.pool.total_shares > 0,
    ensures
        state.finalize_epoch() matches Ok(next) ==> {
            let epoch = state.settings.current_epoch->Some_0;
            next.epoch_rewards(users, epoch.epoch_number) <= epoch.reward_pool
        },
{
    if let Ok(next) = state.finalize_epoch() {
        let epoch = state.settings.current_epoch->Some_0;
        let n = epoch.epoch_number;
        let r = epoch.reward_pool as int;
        let t = state.pool.total_shares as int;
        assert forall|u: Address| #[trigger] state.accounts.contains_key(u) implies
            state.accounts[u].shares >= 0 by {
            assert(state.accounts[u].in_order());
        }
        lemma_distinct_shares(state.accounts, users);
        let h = shares_of(state.accounts, users);
        let p = next.epoch_rewards(users, n);
        if state.pool.total_deposited > 0 {
            lemma_fair_parts(state, users, epoch.reward_pool, n);
            assert(r * h <= r * t) by (nonlinear_arith)
                requires
                    h <= t,
                    r >= 0,
            ;
            assert(p <= r) by (nonlinear_arith)
                requires
                    p * t <= r * t,
                    t > 0,
            ;
        } else {
            lemma_no_factor_no_reward(next, users, n);
        }
    }
}

proof fn lemma_no_factor_no_reward(state: State, users: Seq<Address>, epoch: u32)
    requires
        state.epoch_factors.contains_key(epoch),
        state.epoch_factors[epoch] == 0,
    ensures
        state.epoch_rewards(users, epoch) == 0,
    decreases users.len(),
{
    if users.len() > 0 {
        lemma_no_factor_no_reward(state, users.drop_last(), epoch);
        let key = UserEpochSnapshotKey { user: users.last(), epoch };
        let staked = state.epoch_stakes[key];
        assert(staked * 0 == 0);
    }
}

/// An epoch ends when its ledgers have passed, and the next one begins at once. What was kept for
/// the epochs before it stays.
pub proof fn an_epoch_ends_in_time(state: State)
    requires
        state.admin_signed(),
        state.settings.current_epoch is Some,
    ensures
        state.settings.epoch_mode ==> ({
            let epoch = state.settings.current_epoch->Some_0;
            let n = epoch.epoch_number;
            let over = state.sequence >= epoch.started_at + state.settings.epoch_ledgers
                || state.sequence == u32::MAX;
            &&& !over ==> state.finalize_epoch() == Err::<State, VaultError>(
                VaultError::EpochNotFinalized,
            )
            &&& over && n < u32::MAX && epoch.reward_pool >= 0 && epoch.reward_pool
                * 1_000_000_000_000 <= i128::MAX ==> state.finalize_epoch() is Ok
            &&& state.finalize_epoch() matches Ok(next) ==> {
                &&& next.settings == (Settings {
                    current_epoch: Some(
                        EpochState {
                            epoch_number: (n + 1) as u32,
                            started_at: state.sequence,
                            reward_pool: state.settings.epoch_reward_per_epoch,
                            total_staked_snapshot: 0,
                        },
                    ),
                    ..state.settings
                })
                &&& n < u32::MAX
                &&& next.accounts == state.accounts
                &&& next.pool == state.pool
                &&& next.effects == state.effects
                &&& forall|user: Address, other: u32|
                    other != n ==> #[trigger] next.epoch_reward(user, other) == state.epoch_reward(
                        user,
                        other,
                    )
            }
        }),
        !state.settings.epoch_mode ==> state.finalize_epoch() is Err,
{
    let reward = state.settings.current_epoch->Some_0.reward_pool;
    if state.pool.total_deposited > 0 && reward >= 0 {
        crate::laws::amounts::lemma_scaled(
            reward as int,
            1_000_000_000_000,
            state.pool.total_deposited as int,
        );
    }
    if let Ok(next) = state.finalize_epoch() {
        let n = state.settings.current_epoch->Some_0.epoch_number;
        assert forall|user: Address, other: u32| other != n implies #[trigger] next.epoch_reward(
            user,
            other,
        ) == state.epoch_reward(user, other) by {
            let key = UserEpochSnapshotKey { user, epoch: other };
            assert(next.epoch_stakes.contains_key(key) == state.epoch_stakes.contains_key(key));
        }
    }
}

/// The reward of an epoch is shared out by what each user had staked at its end: a user gets the
/// worth of their shares times the reward per deposited token, which is kept to twelve decimals.
/// Who had no shares gets nothing.
pub proof fn an_epoch_is_shared_out_by_stake(
    state: State,
    user: Address,
    worth: int,
    per_token: int,
)
    requires
        state.balanced(),
        state.registered(),
        state.epochs_in_order(),
        state.settings.current_epoch matches Some(epoch) && epoch.reward_pool >= 0,
        state.pool.total_deposited > 0,
        rounded_down(
            per_token,
            state.settings.current_epoch->Some_0.reward_pool as int,
            1_000_000_000_000,
            state.pool.total_deposited as int,
        ),
        state.account(user).shares > 0 ==> rounded_down(
            worth,
            state.account(user).shares as int,
            state.pool.total_deposited as int,
            state.pool.total_shares as int,
        ) && state.account(user).shares * state.pool.total_deposited <= i128::MAX && worth
            * per_token <= i128::MAX,
    ensures
        state.finalize_epoch() matches Ok(next) ==> {
            let n = state.settings.current_epoch->Some_0.epoch_number;
            &&& state.account(user).shares > 0 ==> rounded_down(
                next.epoch_reward(user, n) as int,
                worth,
                per_token,
                1_000_000_000_000,
            )
            &&& state.account(user).shares == 0 ==> next.epoch_reward(user, n) == 0
        },
{
    crate::laws::books::nobody_holds_more_than_all(state, user);
    if let Ok(next) = state.finalize_epoch() {
        let epoch = state.settings.current_epoch->Some_0;
        let n = epoch.epoch_number;
        let (r, d) = (epoch.reward_pool as int, state.pool.total_deposited as int);
        crate::laws::amounts::lemma_scaled(r, 1_000_000_000_000, d);
        let f = next.epoch_factors[n] as int;
        assert(f == per_token) by (nonlinear_arith)
            requires
                f * d <= r * 1_000_000_000_000,
                r * 1_000_000_000_000 < (f + 1) * d,
                per_token * d <= r * 1_000_000_000_000,
                r * 1_000_000_000_000 < (per_token + 1) * d,
                d > 0,
        ;
        let key = UserEpochSnapshotKey { user, epoch: n };
        assert(!state.epoch_stakes.contains_key(key));
        if state.account(user).shares > 0 {
            assert(state.enlisted(user));
            crate::laws::estimates::lemma_position_worth(state, user, worth);
            assert(next.epoch_stakes[key] == worth);
            assert(f >= 0) by (nonlinear_arith)
                requires
                    r * 1_000_000_000_000 < (f + 1) * d,
                    r >= 0,
                    d > 0,
            ;
            crate::laws::amounts::lemma_scaled(worth, f, 1_000_000_000_000);
        }
    }
}

/// What a user is owed for epochs is the sum of their rewards for each of them.
pub proof fn epochs_add_up(state: State, user: Address, last: int, epoch: u32)
    requires
        last < epoch,
    ensures
        state.epoch_total(user, last, last + 1) == Some(0i128),
        (state.epoch_total(user, last, epoch as int), state.epoch_total(user, last, epoch + 1))
            matches (Some(before), Some(with)) ==> with == before + state.epoch_reward(user, epoch),
{
}

/// A claim for epochs pays all that the user is owed for the epochs that ended since they last
/// claimed, out of the reward pool; from then on those count as claimed.
pub proof fn a_claim_pays_for_the_epochs_that_ended(state: State, user: Address)
    requires
        state.balanced(),
    ensures
        state.claim_epoch_rewards(user) matches Ok((next, reward)) ==> {
            let (was, is) = (state.account(user), next.account(user));
            &&& state.settings.current_epoch matches Some(epoch) && state.epoch_total(
                user,
                was.last_claimed_epoch as int,
                epoch.epoch_number as int,
            ) == Some(reward)
            &&& reward != 0 ==> is.last_claimed_epoch + 1
                == state.settings.current_epoch->Some_0.epoch_number
            &&& reward == 0 ==> next == state
            &&& is.shares == was.shares
            &&& is.accrued == was.accrued
            &&& is.total_claimed == was.total_claimed + reward
            &&& next.pool.reward_pool_balance == state.pool.reward_pool_balance - reward
            &&& next.pool.total_rewards_paid == state.pool.total_rewards_paid + reward
            &&& next.pool.total_shares == state.pool.total_shares
            &&& next.pool.total_deposited == state.pool.total_deposited
            &&& reward > 0 ==> {
                &&& reward <= state.pool.reward_pool_balance
                &&& crate::laws::claims::delivered(state, next, user, reward)
                &&& next.effects.last() == Effect::Publish(
                    Event::Claimed { user, reward, ledger: state.sequence },
                )
            }
        },
{
    lemma_all_transfers();
    if let Ok((next, reward)) = state.claim_epoch_rewards(user) {
        let last = state.account(user).last_claimed_epoch;
        let current = state.settings.current_epoch->Some_0.epoch_number;
        if current as int <= last + 1 {
            assert(state.epoch_total(user, last as int, current as int) == Some(0i128));
        }
        if reward > 0 {
            crate::laws::claims::lemma_delivered(state, user, reward);
            let out = state.deliver(user, reward)->Ok_0;
            assert(next.vesting_of(user) == out.vesting_of(user));
            assert(crate::laws::amounts::transfers(next.effects)
                == crate::laws::amounts::transfers(out.effects));
        }
    }
}

/// Epochs begin where there is no rate: with the length and the reward that are set. Where one runs
/// already it goes on.
pub proof fn epochs_begin_as_set(state: State, ledgers: u32, reward: i128)
    requires
        state.admin_signed(),
    ensures
        state.settings.reward_rate_bps > 0 ==> state.set_epoch_mode(ledgers, reward) == Err::<
            State,
            VaultError,
        >(VaultError::EpochModeConflict),
        state.settings.reward_rate_bps == 0 ==> (state.set_epoch_mode(ledgers, reward) matches Ok(
            next,
        ) && {
            &&& next.settings == (Settings {
                epoch_mode: true,
                epoch_ledgers: ledgers,
                epoch_reward_per_epoch: reward,
                current_epoch: if state.settings.current_epoch is Some {
                    state.settings.current_epoch
                } else {
                    Some(
                        EpochState {
                            epoch_number: 1,
                            started_at: state.sequence,
                            reward_pool: reward,
                            total_staked_snapshot: 0,
                        },
                    )
                },
                ..state.settings
            })
            &&& next.same_users(state)
            &&& next.same_lists(state)
        }),
{
}

} // verus!
