//! In how many waves in a row each user was active.
use crate::address::Address;
use crate::admin::require_admin;
use crate::env::{Env, State};
use crate::errors::VaultError;
use crate::history::listed;
use crate::storage::{Account, Settings, StakeStreak};
use crate::vault::VaultContract;
use vstd::prelude::*;

verus! {

/// How many active users can be recorded at once.
pub const MAX_ACTIVE_USERS: u32 = 50;

/// The streak of a user of whom none is stored.
pub open spec fn no_streak() -> StakeStreak {
    StakeStreak { current_streak: 0, longest_streak: 0, last_active_wave: 0 }
}

/// A streak after the user was active in `wave`, where `last_wave` was the wave before. It goes
/// on where the user was active then too, and starts anew otherwise. Who is named once more is
/// not counted once more.
pub open spec fn carried_on(streak: StakeStreak, last_wave: u32, wave: u32) -> Option<StakeStreak> {
    let current = if streak.last_active_wave == wave {
        streak.current_streak as int
    } else if last_wave > 0 && streak.last_active_wave == last_wave {
        streak.current_streak + 1
    } else {
        1
    };
    if current > u32::MAX {
        None
    } else {
        Some(
            StakeStreak {
                current_streak: current as u32,
                longest_streak: if current > streak.longest_streak {
                    current as u32
                } else {
                    streak.longest_streak
                },
                last_active_wave: wave,
            },
        )
    }
}

/// An account whose user missed a wave: the streak is 0, the longest streak stays.
pub open spec fn lapsed(account: Account) -> Account {
    Account {
        streak: match account.streak {
            Some(streak) => Some(StakeStreak { current_streak: 0, ..streak }),
            None => None,
        },
        ..account
    }
}

impl State {
    /// The streak of a user as it stood after the last wave in which they were active.
    pub open spec fn last_streak(self, user: Address) -> StakeStreak {
        match self.account(user).streak {
            Some(streak) => streak,
            None => no_streak(),
        }
    }

    /// The streak of a user: who was not active in the last wave has none.
    pub open spec fn streak(self, user: Address) -> StakeStreak {
        let streak = self.last_streak(user);
        if streak.last_active_wave == self.last_wave() {
            streak
        } else {
            StakeStreak { current_streak: 0, ..streak }
        }
    }

    /// The last wave that was recorded: 0 where there was none.
    pub open spec fn last_wave(self) -> u32 {
        match self.settings.last_recorded_wave {
            Some(wave) => wave,
            None => 0,
        }
    }

    /// The stakers who are not among the active users lose their streaks.
    pub open spec fn lapse(self, active: Seq<Address>) -> State {
        State {
            accounts: Map::new(
                |user: Address| self.accounts.contains_key(user),
                |user: Address|
                    if self.stakers.contains(user) && !active.contains(user) {
                        lapsed(self.accounts[user])
                    } else {
                        self.accounts[user]
                    },
            ),
            ..self
        }
    }

    /// The streaks of the active users are carried on, one after the other.
    pub open spec fn carry_on(self, active: Seq<Address>, last_wave: u32, wave: u32) -> Result<
        State,
        VaultError,
    >
        decreases active.len(),
    {
        if active.len() == 0 {
            Ok(self)
        } else {
            match self.carry_on(active.drop_last(), last_wave, wave) {
                Err(e) => Err(e),
                Ok(before) => {
                    let user = active.last();
                    match carried_on(before.last_streak(user), last_wave, wave) {
                        None => Err(VaultError::ArithmeticError),
                        Some(streak) => Ok(
                            before.with_account(
                                user,
                                Account { streak: Some(streak), ..before.account(user) },
                            ),
                        ),
                    }
                },
            }
        }
    }

    /// What `record_wave_activity` does.
    pub open spec fn record_wave_activity(self, wave: u32, active: Seq<Address>) -> Result<
        State,
        VaultError,
    > {
        match self.admin_refusal() {
            Some(e) => Err(e),
            None => if active.len() > MAX_ACTIVE_USERS {
                Err(VaultError::TooManyActiveUsers)
            } else if wave <= self.last_wave() {
                Err(VaultError::NonMonotonicWaveId)
            } else {
                match self.lapse(active).carry_on(active, self.last_wave(), wave) {
                    Err(e) => Err(e),
                    Ok(recorded) => Ok(
                        recorded.with_settings(
                            Settings { last_recorded_wave: Some(wave), ..recorded.settings },
                        ),
                    ),
                }
            },
        }
    }
}

/// Where the streaks of the first users cannot be carried on, neither can all.
proof fn lemma_carry_on_fails(state: State, active: Seq<Address>, last: u32, wave: u32, k: int)
    requires
        0 <= k <= active.len(),
        state.carry_on(active.take(k), last, wave) is Err,
    ensures
        state.carry_on(active, last, wave) == state.carry_on(active.take(k), last, wave),
    decreases active.len() - k,
{
    if k < active.len() {
        assert(active.take(k + 1).drop_last() == active.take(k));
        lemma_carry_on_fails(state, active, last, wave, k + 1);
    } else {
        assert(active.take(k) == active);
    }
}

impl VaultContract {
    /// Takes the streaks of the stakers who are not among the active users.
    fn lapse_streaks(env: &mut Env, active: &Vec<Address>)
        ensures
            final(env)@ == old(env)@.lapse(active@),
    {
        let ghost start = env@;
        let mut i: usize = 0;
        while i < env.stakers.len()
            invariant
                i <= env.stakers@.len(),
                start == old(env)@,
                env@ == (State { accounts: env@.accounts, ..start }),
                forall|user: Address| #[trigger]
                    env@.accounts.contains_key(user) == start.accounts.contains_key(user),
                forall|user: Address| #[trigger]
                    env@.accounts.contains_key(user) ==> env@.accounts[user] == (
                    if start.stakers.take(i as int).contains(user) && !active@.contains(user) {
                        lapsed(start.accounts[user])
                    } else {
                        start.accounts[user]
                    }),
            decreases env.stakers@.len() - i,
        {
            let staker = env.stakers[i];
            proof {
                let (done, next) = (start.stakers.take(i as int), start.stakers.take(i + 1));
                assert forall|user: Address| #[trigger] next.contains(user) == (done.contains(user)
                    || user == staker) by {
                    if done.contains(user) {
                        let k = choose|k: int| 0 <= k < done.len() && done[k] == user;
                        assert(next[k] == user);
                    }
                    if next.contains(user) {
                        let k = choose|k: int| 0 <= k < next.len() && next[k] == user;
                        if k < i {
                            assert(done[k] == user);
                        }
                    }
                    if user == staker {
                        assert(next[i as int] == user);
                    }
                }
            }
            if !listed(active, staker) {
                let mut account = env.account(staker);
                if let Some(streak) = account.streak {
                    if streak.current_streak > 0 {
                        account.streak = Some(
                            StakeStreak {
                                current_streak: 0,
                                longest_streak: streak.longest_streak,
                                last_active_wave: streak.last_active_wave,
                            },
                        );
                        env.set_account(staker, account);
                    }
                }
            }
            i = i + 1;
        }
        proof {
            assert(start.stakers.take(i as int) == start.stakers);
            assert(env@.accounts =~= start.lapse(active@).accounts);
        }
    }

    /// Carries the streaks of the active users on.
    fn carry_streaks_on(env: &mut Env, active: &Vec<Address>, last_wave: u32, wave: u32) -> (r:
        Result<(), VaultError>)
        ensures
            crate::env::did(r, final(env)@, old(env)@.carry_on(active@, last_wave, wave)),
    {
        let ghost start = env@;
        let mut i: usize = 0;
        while i < active.len()
            invariant
                i <= active@.len(),
                start == old(env)@,
                start.carry_on(active@.take(i as int), last_wave, wave) == Ok::<State, VaultError>(
                    env@,
                ),
            decreases active@.len() - i,
        {
            let user = active[i];
            proof {
                assert(active@.take(i + 1).drop_last() == active@.take(i as int));
            }
            let mut account = env.account(user);
            let mut streak = match account.streak {
                Some(streak) => streak,
                None => StakeStreak { current_streak: 0, longest_streak: 0, last_active_wave: 0 },
            };
            if streak.last_active_wave != wave {
                if last_wave > 0 && streak.last_active_wave == last_wave {
                    if streak.current_streak == u32::MAX {
                        proof {
                            lemma_carry_on_fails(start, active@, last_wave, wave, i + 1);
                        }
                        return Err(VaultError::ArithmeticError);
                    }
                    streak.current_streak = streak.current_streak + 1;
                } else {
                    streak.current_streak = 1;
                }
            }
            if streak.current_streak > streak.longest_streak {
                streak.longest_streak = streak.current_streak;
            }
            streak.last_active_wave = wave;
            account.streak = Some(streak);
            env.set_account(user, account);
            i = i + 1;
        }
        assert(active@.take(i as int) == active@);
        Ok(())
    }

    /// Admin: records who was active in a wave. The waves are numbered upwards. Those who were
    /// active in the wave before too carry their streak on; who was not active loses it.
    pub fn record_wave_activity(
        env: Env,
        admin: Address,
        wave_id: u32,
        active_users: Vec<Address>,
    ) -> (r: Result<Env, VaultError>)
        ensures
            crate::env::moves_to(r, env@.record_wave_activity(wave_id, active_users@)),
    {
        let mut env = env;
        let _ = admin;
        require_admin(&env)?;
        if active_users.len() > MAX_ACTIVE_USERS as usize {
            return Err(VaultError::TooManyActiveUsers);
        }
        let last_wave: u32 = match env.settings.last_recorded_wave {
            Some(wave) => wave,
            None => 0,
        };
        if wave_id <= last_wave {
            return Err(VaultError::NonMonotonicWaveId);
        }
        Self::lapse_streaks(&mut env, &active_users);
        Self::carry_streaks_on(&mut env, &active_users, last_wave, wave_id)?;
        env.settings.last_recorded_wave = Some(wave_id);
        Ok(env)
    }

    /// The streak of a user, which is 0 where they were not active in the last wave: all zeros
    /// where none is stored.
    pub fn get_streak(env: &Env, user: Address) -> (streak: StakeStreak)
        ensures
            streak == env@.streak(user),
    {
        let last_wave: u32 = match env.settings.last_recorded_wave {
            Some(wave) => wave,
            None => 0,
        };
        let mut streak = match env.account(user).streak {
            Some(streak) => streak,
            None => StakeStreak { current_streak: 0, longest_streak: 0, last_active_wave: 0 },
        };
        if streak.last_active_wave != last_wave {
            streak.current_streak = 0;
        }
        streak
    }
}

} // verus!
