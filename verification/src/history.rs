//! The lists that the pool keeps: bounded logs, the registry of stakers and the leaderboard.
use crate::address::Address;
use crate::balance::shares_to_amount;
use crate::env::{Env, State};
use crate::storage::{
    ChangeType, ChangelogEntry, LeaderboardEntry, StakeAction, StakeHistoryEntry,
};
use crate::vault::VaultContract;
use vstd::prelude::*;

verus! {

/// How many stakes and unstakes of a user are kept.
pub const MAX_STAKE_HISTORY: u32 = 5;

/// How many admin changes are kept.
pub const MAX_CHANGELOG_ENTRIES: u32 = 10;

/// How many entries of a user's vote history are kept.
pub const MAX_HISTORY_SNAPSHOTS: u32 = 100;

/// The last `n` items of a list, or the whole list where it is not longer.
pub open spec fn newest<T>(list: Seq<T>, n: int) -> Seq<T> {
    if list.len() > n {
        list.skip(list.len() - n)
    } else {
        list
    }
}

/// A copy of a list.
pub fn copied<T: Copy>(list: &Vec<T>) -> (copy: Vec<T>)
    ensures
        copy@ == list@,
{
    let mut copy: Vec<T> = Vec::new();
    let mut i: usize = 0;
    while i < list.len()
        invariant
            i <= list@.len(),
            copy@ == list@.take(i as int),
        decreases list@.len() - i,
    {
        copy.push(list[i]);
        i = i + 1;
    }
    assert(list@.take(i as int) == list@);
    copy
}

/// Appends an item to a list and drops the oldest items, so that `n` are left at most.
pub fn append<T>(list: &mut Vec<T>, item: T, n: usize)
    ensures
        final(list)@ == newest(old(list)@.push(item), n as int),
{
    list.push(item);
    let ghost all = list@;
    while list.len() > n
        invariant
            list@.len() <= all.len(),
            list@ == all.skip(all.len() - list@.len()),
            list@.len() >= n || list@ == all,
        decreases list@.len(),
    {
        list.remove(0);
        assert(list@ == all.skip(all.len() - list@.len()));
    }
    assert(all.skip(0) == all);
}

/// Whether an address is in a list.
pub fn listed(list: &Vec<Address>, who: Address) -> (r: bool)
    ensures
        r == list@.contains(who),
{
    let mut i: usize = 0;
    while i < list.len()
        invariant
            i <= list@.len(),
            forall|k: int| 0 <= k < i ==> list@[k] != who,
        decreases list@.len() - i,
    {
        if list[i] == who {
            return true;
        }
        i = i + 1;
    }
    false
}

/// A list of addresses without one of them.
pub open spec fn without(list: Seq<Address>, who: Address) -> Seq<Address> {
    list.filter(|address: Address| address != who)
}

/// A list of stakers after the position of `from` went to `to`, who takes their place.
pub open spec fn succeeded(list: Seq<Address>, from: Address, to: Address) -> Seq<Address> {
    without(list, to).map_values(
        |address: Address|
            if address == from {
                to
            } else {
                address
            },
    )
}

/// A leaderboard without the line of a user.
pub open spec fn others(board: Seq<LeaderboardEntry>, user: Address) -> Seq<LeaderboardEntry> {
    board.filter(|entry: LeaderboardEntry| entry.staker != user)
}

/// The place of `amount` on a leaderboard: in front of the first line with less.
pub open spec fn seat(board: Seq<LeaderboardEntry>, amount: i128) -> int
    decreases board.len(),
{
    if board.len() == 0 || amount > board[0].amount {
        0
    } else {
        1 + seat(board.skip(1), amount)
    }
}

/// A leaderboard of `size` lines after the position of a user became `amount`. A user gets on
/// it where there is room or where the last line has less, and then the last line may go.
pub open spec fn reseated(
    board: Seq<LeaderboardEntry>,
    size: u32,
    user: Address,
    amount: i128,
) -> Seq<LeaderboardEntry> {
    let rest = others(board, user);
    if amount > 0 && (rest.len() < size || amount > rest.last().amount) {
        let all = rest.insert(seat(rest, amount), LeaderboardEntry { staker: user, amount });
        if all.len() > size {
            all.take(size as int)
        } else {
            all
        }
    } else {
        rest
    }
}

/// A vote history after the shares became `shares` at a ledger. There is one entry for a ledger.
pub open spec fn noted(history: Seq<(u32, i128)>, ledger: u32, shares: i128) -> Seq<(u32, i128)> {
    if history.len() > 0 && history.last().0 == ledger {
        newest(history.drop_last().push((ledger, shares)), MAX_HISTORY_SNAPSHOTS as int)
    } else {
        newest(history.push((ledger, shares)), MAX_HISTORY_SNAPSHOTS as int)
    }
}

impl State {
    /// The vote history of a user is carried on.
    pub open spec fn note_shares(self, user: Address, shares: i128) -> State {
        State {
            votes: self.votes.insert(user, noted(self.votes_of(user), self.sequence, shares)),
            ..self
        }
    }

    /// The stake history of a user is carried on.
    pub open spec fn log_stake(self, user: Address, action: StakeAction, amount: i128) -> State {
        let entry = StakeHistoryEntry { action, amount, ledger: self.sequence };
        State {
            stake_log: self.stake_log.insert(
                user,
                newest(self.stake_log_of(user).push(entry), MAX_STAKE_HISTORY as int),
            ),
            ..self
        }
    }

    /// The changelog is carried on.
    pub open spec fn log_change(
        self,
        change_type: ChangeType,
        old_value: i128,
        new_value: i128,
    ) -> State {
        let entry = ChangelogEntry { change_type, old_value, new_value };
        State {
            changelog: newest(self.changelog.push(entry), MAX_CHANGELOG_ENTRIES as int),
            ..self
        }
    }

    /// What a number of shares counts on the leaderboard.
    pub open spec fn standing(self, shares: i128) -> i128 {
        match self.worth(shares) {
            Some(amount) => if shares == 0 {
                0
            } else {
                amount
            },
            None => 0,
        }
    }

    /// The leaderboard after a user came to hold `shares`. A leaderboard of size 0 is not kept.
    pub open spec fn reseat(self, user: Address, shares: i128) -> State {
        if self.settings.leaderboard_size == 0 {
            self
        } else {
            State {
                leaderboard: reseated(
                    self.leaderboard,
                    self.settings.leaderboard_size,
                    user,
                    self.standing(shares),
                ),
                ..self
            }
        }
    }
}

proof fn lemma_seat(board: Seq<LeaderboardEntry>, amount: i128, k: int)
    requires
        0 <= k <= board.len(),
        forall|i: int| 0 <= i < k ==> amount <= (#[trigger] board[i]).amount,
        k < board.len() ==> amount > board[k].amount,
    ensures
        seat(board, amount) == k,
    decreases board.len(),
{
    if k > 0 {
        assert(amount <= board[0].amount);
        let tail = board.skip(1);
        assert forall|i: int| 0 <= i < k - 1 implies amount <= (#[trigger] tail[i]).amount by {
            assert(tail[i] == board[i + 1]);
        }
        lemma_seat(tail, amount, k - 1);
    }
}

impl VaultContract {
    /// Takes a user out of the registry of stakers.
    pub(crate) fn remove_from_staker_list(env: &mut Env, user: Address)
        ensures
            final(env)@ == (State {
                stakers: without(old(env)@.stakers, user),
                ..old(env)@
            }),
    {
        let mut kept: Vec<Address> = Vec::new();
        let mut i: usize = 0;
        while i < env.stakers.len()
            invariant
                i <= env.stakers@.len(),
                kept@ == without(env.stakers@.take(i as int), user),
                env@ == old(env)@,
            decreases env.stakers@.len() - i,
        {
            assert(env.stakers@.take(i + 1).drop_last() == env.stakers@.take(i as int));
            reveal(Seq::filter);
            if env.stakers[i] != user {
                kept.push(env.stakers[i]);
            }
            i = i + 1;
        }
        assert(env.stakers@.take(i as int) == env.stakers@);
        env.stakers = kept;
    }

    /// Puts `to` into the place of `from` in the registry of stakers.
    pub(crate) fn replace_in_staker_list(env: &mut Env, from: Address, to: Address)
        ensures
            final(env)@ == (State {
                stakers: succeeded(old(env)@.stakers, from, to),
                ..old(env)@
            }),
    {
        Self::remove_from_staker_list(env, to);
        let ghost kept = env.stakers@;
        let mut i: usize = 0;
        while i < env.stakers.len()
            invariant
                i <= env.stakers@.len(),
                kept == without(old(env)@.stakers, to),
                env.stakers@.len() == kept.len(),
                forall|k: int|
                    0 <= k < kept.len() ==> #[trigger] env.stakers@[k] == (if k < i && kept[k]
                        == from {
                        to
                    } else {
                        kept[k]
                    }),
                env@ == (State { stakers: env.stakers@, ..old(env)@ }),
            decreases kept.len() - i,
        {
            if env.stakers[i] == from {
                env.stakers[i] = to;
            }
            i = i + 1;
        }
        assert(env.stakers@ =~= succeeded(old(env)@.stakers, from, to));
    }

    /// Carries the vote history of a user on.
    pub(crate) fn record_stake_snapshot(env: &mut Env, user: Address, amount: i128)
        ensures
            final(env)@ == old(env)@.note_shares(user, amount),
    {
        let now: u32 = env.sequence;
        let mut history: Vec<(u32, i128)> = match env.votes.get(user) {
            Some(list) => copied(list),
            None => Vec::new(),
        };
        if history.len() > 0 && history[history.len() - 1].0 == now {
            history.pop();
        }
        append(&mut history, (now, amount), MAX_HISTORY_SNAPSHOTS as usize);
        env.votes.set(user, history);
    }

    /// Carries the stake history of a user on.
    pub(crate) fn append_stake_history(
        env: &mut Env,
        user: Address,
        action: StakeAction,
        amount: i128,
    )
        ensures
            final(env)@ == old(env)@.log_stake(user, action, amount),
    {
        let mut history: Vec<StakeHistoryEntry> = match env.stake_log.get(user) {
            Some(list) => copied(list),
            None => Vec::new(),
        };
        let entry = StakeHistoryEntry { action, amount, ledger: env.sequence };
        append(&mut history, entry, MAX_STAKE_HISTORY as usize);
        env.stake_log.set(user, history);
    }

    /// Carries the changelog on.
    pub(crate) fn append_changelog(
        env: &mut Env,
        change_type: ChangeType,
        old_value: i128,
        new_value: i128,
    )
        ensures
            final(env)@ == old(env)@.log_change(change_type, old_value, new_value),
    {
        let entry = ChangelogEntry { change_type, old_value, new_value };
        append(&mut env.changelog, entry, MAX_CHANGELOG_ENTRIES as usize);
    }

    /// Brings the leaderboard up to date after a user came to hold `new_shares`.
    pub(crate) fn update_leaderboard(env: &mut Env, user: Address, new_shares: i128)
        ensures
            final(env)@ == old(env)@.reseat(user, new_shares),
    {
        let size: u32 = env.settings.leaderboard_size;
        if size == 0 {
            return;
        }
        let amount: i128 = if new_shares == 0 {
            0
        } else {
            match shares_to_amount(env.pool.total_shares, env.pool.total_deposited, new_shares) {
                Some(amount) => amount,
                None => 0,
            }
        };
        let mut board: Vec<LeaderboardEntry> = Vec::new();
        let mut i: usize = 0;
        while i < env.leaderboard.len()
            invariant
                i <= env.leaderboard@.len(),
                board@ == others(env.leaderboard@.take(i as int), user),
                env@ == old(env)@,
            decreases env.leaderboard@.len() - i,
        {
            assert(env.leaderboard@.take(i + 1).drop_last() == env.leaderboard@.take(i as int));
            reveal(Seq::filter);
            if env.leaderboard[i].staker != user {
                board.push(env.leaderboard[i]);
            }
            i = i + 1;
        }
        assert(env.leaderboard@.take(i as int) == env.leaderboard@);
        if amount > 0 && (board.len() < size as usize || amount > board[board.len() - 1].amount) {
            let mut j: usize = 0;
            while j < board.len() && amount <= board[j].amount
                invariant
                    j <= board@.len(),
                    forall|k: int| 0 <= k < j ==> amount <= (#[trigger] board@[k]).amount,
                decreases board@.len() - j,
            {
                j = j + 1;
            }
            proof {
                lemma_seat(board@, amount, j as int);
            }
            board.insert(j, LeaderboardEntry { staker: user, amount });
            if board.len() > size as usize {
                board.truncate(size as usize);
            }
        }
        env.leaderboard = board;
    }
}

} // verus!
