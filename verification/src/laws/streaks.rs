//! Streaks: they grow wave by wave, they lapse, and the longest one is remembered.
use crate::address::Address;
use crate::env::State;
use crate::errors::VaultError;
use crate::storage::Account;
use vstd::prelude::*;

verus! {

proof fn lemma_carry_on(state: State, active: Seq<Address>, last: u32, wave: u32, user: Address)
    ensures
        state.carry_on(active, last, wave) matches Ok(next) ==> {
            let (was, is) = (state.last_streak(user), next.last_streak(user));
            &&& next.settings == state.settings
            &&& is.longest_streak >= was.longest_streak
            &&& !active.contains(user) ==> is == was
            &&& active.contains(user) ==> is.last_active_wave == wave
            &&& active.contains(user) && was.last_active_wave != wave ==> is.current_streak >= 1
        },
    decreases active.len(),
{
    if active.len() > 0 {
        let shorter = active.drop_last();
        lemma_carry_on(state, shorter, last, wave, user);
        assert(active[active.len() - 1] == active.last());
        if shorter.contains(user) {
            let k = choose|k: int| 0 <= k < shorter.len() && shorter[k] == user;
            assert(active[k] == user);
        }
        if active.contains(user) && active.last() != user {
            let k = choose|k: int| 0 <= k < active.len() && active[k] == user;
            assert(shorter[k] == user);
        }
    }
}

/// The longest streak of a user never falls.
pub proof fn the_longest_streak_never_falls(
    state: State,
    wave: u32,
    active: Seq<Address>,
    user: Address,
)
    ensures
        state.record_wave_activity(wave, active) matches Ok(next) ==> next.streak(
            user,
        ).longest_streak >= state.streak(user).longest_streak,
{
    let lapsed = state.lapse(active);
    assert(lapsed.accounts.contains_key(user) == state.accounts.contains_key(user));
    lemma_carry_on(lapsed, active, state.last_wave(), wave, user);
}

/// A user who missed the wave has no streak, and one who did not has one.
pub proof fn who_misses_a_wave_starts_anew(
    state: State,
    wave: u32,
    active: Seq<Address>,
    user: Address,
)
    requires
        state.waves_in_order(),
    ensures
        state.record_wave_activity(wave, active) matches Ok(next) ==> {
            &&& !active.contains(user) ==> next.streak(user).current_streak == 0
            &&& active.contains(user) ==> next.streak(user).current_streak >= 1 && next.streak(
                user,
            ).last_active_wave == wave
            &&& next.last_wave() == wave
        },
{
    let lapsed = state.lapse(active);
    assert(lapsed.accounts.contains_key(user) == state.accounts.contains_key(user));
    assert(state.last_streak(user).last_active_wave <= state.last_wave());
    lemma_carry_on(lapsed, active, state.last_wave(), wave, user);
    lemma_reported(state, wave, active, user);
}

proof fn lemma_reported(state: State, wave: u32, active: Seq<Address>, user: Address)
    ensures
        state.record_wave_activity(wave, active) matches Ok(next) ==> state.lapse(active).carry_on(
            active,
            state.last_wave(),
            wave,
        ) matches Ok(carried) && next.last_streak(user) == carried.last_streak(user)
            && next.last_wave() == wave,
{
}

/// A user who was active in this wave and in the one before carries their streak on by one, however
/// often they are named; who was not active in the one before starts at one.
pub proof fn who_stays_active_carries_on(
    state: State,
    wave: u32,
    active: Seq<Address>,
    user: Address,
)
    requires
        state.waves_in_order(),
        active.contains(user),
    ensures
        state.record_wave_activity(wave, active) matches Ok(next) ==> {
            let before = state.streak(user);
            next.streak(user).current_streak == (if state.last_wave() > 0
                && before.last_active_wave == state.last_wave() {
                before.current_streak + 1
            } else {
                1
            })
        },
{
    let lapsed = state.lapse(active);
    assert(lapsed.accounts.contains_key(user) == state.accounts.contains_key(user));
    assert(lapsed.account(user) == state.account(user));
    assert(state.last_streak(user).last_active_wave <= state.last_wave());
    if state.record_wave_activity(wave, active) is Ok {
        lemma_once(lapsed, active, state.last_wave(), wave, user);
        lemma_carry_on(lapsed, active, state.last_wave(), wave, user);
        lemma_reported(state, wave, active, user);
    }
}

proof fn lemma_once(state: State, active: Seq<Address>, last: u32, wave: u32, user: Address)
    requires
        active.contains(user),
        state.last_streak(user).last_active_wave != wave,
    ensures
        state.carry_on(active, last, wave) matches Ok(next) ==> Some(next.last_streak(user))
            == crate::streaks::carried_on(state.last_streak(user), last, wave),
    decreases active.len(),
{
    let shorter = active.drop_last();
    assert(active[active.len() - 1] == active.last());
    if shorter.contains(user) {
        lemma_once(state, shorter, last, wave, user);
    } else {
        lemma_carry_on(state, shorter, last, wave, user);
        if active.last() != user {
            let k = choose|k: int| 0 <= k < active.len() && active[k] == user;
            assert(shorter[k] == user);
        }
    }
}

/// The longest streak is the longest that there ever was: it grows with the streak that outgrows
/// it, and only then.
pub proof fn the_longest_streak_is_remembered(
    state: State,
    wave: u32,
    active: Seq<Address>,
    user: Address,
)
    requires
        state.waves_in_order(),
    ensures
        state.record_wave_activity(wave, active) matches Ok(next) ==> {
            let (was, is) = (state.streak(user), next.streak(user));
            &&& !active.contains(user) ==> {
                &&& is.longest_streak == was.longest_streak
                &&& is.last_active_wave == was.last_active_wave
            }
            &&& active.contains(user) ==> is.longest_streak == if is.current_streak
                > was.longest_streak {
                is.current_streak
            } else {
                was.longest_streak
            }
        },
{
    let lapsed = state.lapse(active);
    assert(lapsed.accounts.contains_key(user) == state.accounts.contains_key(user));
    assert(state.last_streak(user).last_active_wave <= state.last_wave());
    if state.record_wave_activity(wave, active) is Ok {
        lemma_carry_on(lapsed, active, state.last_wave(), wave, user);
        lemma_reported(state, wave, active, user);
        if active.contains(user) {
            assert(lapsed.account(user) == state.account(user));
            lemma_once(lapsed, active, state.last_wave(), wave, user);
        }
    }
}

/// A wave is recorded by the admin, for up to fifty users, where it comes after the last one; it
/// changes nothing but streaks.
pub proof fn a_wave_comes_after_the_last(
    state: State,
    wave: u32,
    active: Seq<Address>,
    user: Address,
)
    requires
        state.admin_signed(),
    ensures
        ({
            let last = match state.settings.last_recorded_wave {
                Some(last) => last,
                None => 0,
            };
            &&& active.len() > 50 ==> state.record_wave_activity(wave, active) == Err::<
                State,
                VaultError,
            >(VaultError::TooManyActiveUsers)
            &&& active.len() <= 50 && wave <= last ==> state.record_wave_activity(wave, active)
                == Err::<State, VaultError>(VaultError::NonMonotonicWaveId)
            &&& active.len() <= 50 && wave > last && (forall|u: Address| #[trigger]
                active.contains(u) ==> state.last_streak(u).current_streak < u32::MAX)
                && state.waves_in_order() ==> state.record_wave_activity(wave, active) is Ok
            &&& state.record_wave_activity(wave, active) matches Ok(next) ==> {
                &&& next.settings.last_recorded_wave == Some(wave)
                &&& next.pool == state.pool
                &&& next.effects == state.effects
                &&& next.stakers == state.stakers
                &&& next.account(user) == (Account {
                    streak: next.account(user).streak,
                    ..state.account(user)
                })
            }
        }),
{
    let lapsed = state.lapse(active);
    assert(lapsed.accounts.contains_key(user) == state.accounts.contains_key(user));
    lemma_only_streaks(lapsed, active, state.last_wave(), wave, user);
    if active.len() <= 50 && wave > state.last_wave() && (forall|u: Address| #[trigger]
        active.contains(u) ==> state.last_streak(u).current_streak < u32::MAX)
        && state.waves_in_order() {
        assert forall|u: Address| #[trigger] active.contains(u) implies lapsed.last_streak(
            u,
        ).current_streak < u32::MAX && lapsed.last_streak(u).last_active_wave < wave by {
            assert(lapsed.accounts.contains_key(u) == state.accounts.contains_key(u));
            assert(state.last_streak(u).last_active_wave <= state.last_wave());
        }
        lemma_carries(lapsed, active, state.last_wave(), wave);
    }
}

proof fn lemma_only_streaks(
    state: State,
    active: Seq<Address>,
    last: u32,
    wave: u32,
    user: Address,
)
    ensures
        state.carry_on(active, last, wave) matches Ok(next) ==> {
            &&& next.pool == state.pool
            &&& next.effects == state.effects
            &&& next.stakers == state.stakers
            &&& next.settings == state.settings
            &&& next.account(user) == (Account {
                streak: next.account(user).streak,
                ..state.account(user)
            })
        },
    decreases active.len(),
{
    if active.len() > 0 {
        lemma_only_streaks(state, active.drop_last(), last, wave, user);
    }
}

proof fn lemma_carries(state: State, active: Seq<Address>, last: u32, wave: u32)
    requires
        forall|u: Address| #[trigger]
            active.contains(u) ==> state.last_streak(u).current_streak < u32::MAX
                && state.last_streak(u).last_active_wave < wave,
    ensures
        state.carry_on(active, last, wave) is Ok,
    decreases active.len(),
{
    if active.len() > 0 {
        let shorter = active.drop_last();
        let user = active.last();
        assert(active.contains(user)) by {
            assert(active[active.len() - 1] == user);
        }
        assert forall|u: Address| #[trigger] shorter.contains(u) implies state.last_streak(
            u,
        ).current_streak < u32::MAX && state.last_streak(u).last_active_wave < wave by {
            let k = choose|k: int| 0 <= k < shorter.len() && shorter[k] == u;
            assert(active[k] == u);
            assert(active.contains(u));
        }
        lemma_carries(state, shorter, last, wave);
        lemma_carry_on(state, shorter, last, wave, user);
        if shorter.contains(user) {
            lemma_once(state, shorter, last, wave, user);
        }
    }
}

} // verus!
