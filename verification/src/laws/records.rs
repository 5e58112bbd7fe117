//! What the pool keeps of the past: no list grows without bound, the leaderboard is in order, and
//! the vote history of a user ends with the shares that they hold.
use crate::address::Address;
use crate::balance::{MAX_RATE_HISTORY_ENTRIES, MAX_RICH_RATE_HISTORY, MAX_STAKED_SNAPSHOTS};
use crate::calls::{
    AdminCall, Call, ManageCall, MarkCall, OwnerCall, PlanCall, SettingCall, UserCall,
};
use crate::env::State;
use crate::history::{MAX_CHANGELOG_ENTRIES, MAX_HISTORY_SNAPSHOTS, MAX_STAKE_HISTORY};
use crate::pool_admin::MAX_LEADERBOARD_SIZE;
use crate::storage::{Account, LeaderboardEntry, Pool, StakeAction};
use vstd::prelude::*;

verus! {

/// Each entry of a vote history is of a later ledger than those before it.
pub open spec fn ascending(history: Seq<(u32, i128)>) -> bool {
    forall|i: int, j: int|
        0 <= i < j < history.len() ==> (#[trigger] history[i]).0 < (#[trigger] history[j]).0
}

/// A leaderboard begins with the largest position and has one line for a user.
pub open spec fn in_order(board: Seq<LeaderboardEntry>) -> bool {
    &&& forall|i: int, j: int|
        0 <= i < j < board.len() ==> (#[trigger] board[i]).amount >= (#[trigger] board[j]).amount
    &&& forall|i: int, j: int|
        0 <= i < j < board.len() ==> (#[trigger] board[i]).staker != (#[trigger] board[j]).staker
}

impl State {
    /// No list is longer than it may be, and the leaderboard is in order.
    pub open spec fn tidy(self) -> bool {
        &&& self.changelog.len() <= MAX_CHANGELOG_ENTRIES
        &&& self.rate_history.len() <= MAX_RATE_HISTORY_ENTRIES
        &&& self.reward_rate_history.len() <= MAX_RICH_RATE_HISTORY
        &&& self.snapshots.len() <= MAX_STAKED_SNAPSHOTS
        &&& self.settings.leaderboard_size <= MAX_LEADERBOARD_SIZE
        &&& self.leaderboard.len() <= self.settings.leaderboard_size
        &&& in_order(self.leaderboard)
        &&& forall|user: Address| #[trigger] self.stake_log_of(user).len() <= MAX_STAKE_HISTORY
    }

    /// The vote history of a user is not too long and goes up to now at most.
    pub open spec fn ballot_kept(self, user: Address) -> bool {
        let history = self.votes_of(user);
        &&& history.len() <= MAX_HISTORY_SNAPSHOTS
        &&& ascending(history)
        &&& history.len() > 0 ==> history.last().0 <= self.sequence
    }

    /// It ends with the shares that the user holds.
    pub open spec fn ballot_current(self, user: Address) -> bool {
        let history = self.votes_of(user);
        &&& self.ballot_kept(user)
        &&& self.account(user).shares == (if history.len() > 0 {
            history.last().1
        } else {
            0
        })
    }

    /// All that the pool keeps of the past is as it should be.
    pub open spec fn recorded(self) -> bool {
        self.tidy() && forall|user: Address| #[trigger] self.ballot_current(user)
    }

    /// The same, but that the shares of one user have not been noted yet.
    pub open spec fn recorded_but(self, who: Address) -> bool {
        &&& self.tidy()
        &&& self.ballot_kept(who)
        &&& forall|user: Address| user != who ==> #[trigger] self.ballot_current(user)
    }

    /// What is kept of the past is the same.
    pub open spec fn same_records(self, other: State) -> bool {
        &&& self.sequence == other.sequence
        &&& self.settings.leaderboard_size == other.settings.leaderboard_size
        &&& self.changelog == other.changelog
        &&& self.rate_history == other.rate_history
        &&& self.reward_rate_history == other.reward_rate_history
        &&& self.snapshots == other.snapshots
        &&& self.leaderboard == other.leaderboard
        &&& self.stake_log == other.stake_log
        &&& self.votes == other.votes
    }

    /// Nobody but one user holds other shares.
    pub open spec fn same_shares_but(self, other: State, who: Address) -> bool {
        forall|user: Address|
            user != who ==> #[trigger] self.account(user).shares == other.account(user).shares
    }
}

pub(crate) proof fn lemma_others(board: Seq<LeaderboardEntry>, user: Address)
    requires
        in_order(board),
    ensures
        in_order(crate::history::others(board, user)),
        crate::history::others(board, user).len() <= board.len(),
        forall|i: int|
            0 <= i < crate::history::others(board, user).len() ==> (
            #[trigger] crate::history::others(board, user)[i]).staker != user,
        forall|i: int|
            0 <= i < crate::history::others(board, user).len() ==> board.contains(
                #[trigger] crate::history::others(board, user)[i],
            ),
    decreases board.len(),
{
    reveal(Seq::filter);
    if board.len() > 0 {
        let shorter = board.drop_last();
        let kept = crate::history::others(shorter, user);
        let all = crate::history::others(board, user);
        lemma_others(shorter, user);
        assert forall|i: int| 0 <= i < kept.len() implies board.contains(#[trigger] kept[i])
            && kept[i].amount >= board.last().amount && kept[i].staker != board.last().staker by {
            assert(shorter.contains(kept[i]));
            let k = choose|k: int| 0 <= k < shorter.len() && shorter[k] == kept[i];
            assert(board[k] == kept[i]);
            assert(board[board.len() - 1] == board.last());
        }
        assert(board.contains(board.last())) by {
            assert(board[board.len() - 1] == board.last());
        }
        assert(all == kept || all == kept.push(board.last()));
    }
}

pub(crate) proof fn lemma_seat_splits(board: Seq<LeaderboardEntry>, amount: i128)
    ensures
        0 <= crate::history::seat(board, amount) <= board.len(),
        forall|i: int|
            0 <= i < crate::history::seat(board, amount) ==> amount <= (#[trigger] board[i]).amount,
        crate::history::seat(board, amount) < board.len() ==> amount
            > board[crate::history::seat(board, amount)].amount,
    decreases board.len(),
{
    if board.len() > 0 && amount <= board[0].amount {
        let tail = board.skip(1);
        lemma_seat_splits(tail, amount);
        assert forall|i: int| 0 <= i < crate::history::seat(board, amount) implies amount <= (
        #[trigger] board[i]).amount by {
            if i > 0 {
                assert(tail[i - 1] == board[i]);
            }
        }
    }
}

/// A leaderboard stays in order, and no longer than it may be, whatever becomes of a position.
pub proof fn leaderboard_stays_in_order(
    board: Seq<LeaderboardEntry>,
    size: u32,
    user: Address,
    amount: i128,
)
    requires
        in_order(board),
        board.len() <= size,
    ensures
        in_order(crate::history::reseated(board, size, user, amount)),
        crate::history::reseated(board, size, user, amount).len() <= size,
{
    let rest = crate::history::others(board, user);
    lemma_others(board, user);
    lemma_seat_splits(rest, amount);
    let k = crate::history::seat(rest, amount);
    let all = rest.insert(k, LeaderboardEntry { staker: user, amount });
    assert forall|i: int, j: int| 0 <= i < j < all.len() implies (#[trigger] all[i]).amount >= (
    #[trigger] all[j]).amount && all[i].staker != all[j].staker by {
        let a = if i < k {
            i
        } else {
            i - 1
        };
        let b = if j < k {
            j
        } else {
            j - 1
        };
        if i != k && j != k {
            assert(rest[a].amount >= rest[b].amount);
            assert(rest[a].staker != rest[b].staker);
        } else if i == k {
            assert(rest[b].staker != user);
            if b > k {
                assert(rest[k].amount >= rest[b].amount);
            }
        } else {
            assert(rest[a].amount >= amount);
            assert(rest[a].staker != user);
        }
    }
}

/// A vote history stays ascending and bounded, and ends with what was noted.
proof fn lemma_noted(history: Seq<(u32, i128)>, ledger: u32, shares: i128)
    requires
        ascending(history),
        history.len() <= MAX_HISTORY_SNAPSHOTS,
        history.len() > 0 ==> history.last().0 <= ledger,
    ensures
        ({
            let after = crate::history::noted(history, ledger, shares);
            &&& ascending(after)
            &&& 0 < after.len() <= MAX_HISTORY_SNAPSHOTS
            &&& after.last() == (ledger, shares)
        }),
{
    let kept = if history.len() > 0 && history.last().0 == ledger {
        history.drop_last()
    } else {
        history
    };
    let all = kept.push((ledger, shares));
    assert forall|i: int, j: int| 0 <= i < j < all.len() implies (#[trigger] all[i]).0 < (
    #[trigger] all[j]).0 by {
        if j == kept.len() {
            if i < history.len() - 1 {
                assert(history[i].0 < history[history.len() - 1].0);
            }
        } else {
            assert(history[i].0 < history[j].0);
        }
    }
}

/// The past stays as it was: what is noted now changes no weight at an earlier ledger, as long as
/// the history is not full.
pub proof fn past_votes_stay(history: Seq<(u32, i128)>, now: u32, shares: i128, ledger: u32)
    requires
        ascending(history),
        history.len() < MAX_HISTORY_SNAPSHOTS,
        history.len() > 0 ==> history.last().0 <= now,
        ledger < now,
    ensures
        crate::queries::weight_at(crate::history::noted(history, now, shares), ledger)
            == crate::queries::weight_at(history, ledger),
{
    let after = crate::history::noted(history, now, shares);
    lemma_entries(history, ledger);
    lemma_entries(after, ledger);
    let k = crate::queries::entries_until(history, ledger);
    let m = crate::queries::entries_until(after, ledger);
    let kept = if history.len() > 0 && history.last().0 == now {
        history.drop_last()
    } else {
        history
    };
    assert(after =~= kept.push((now, shares)));
    if k < m {
        assert(after[k].0 <= ledger);
        if k < kept.len() {
            assert(after[k] == history[k]);
        }
    }
    if m < k {
        assert(history[m].0 <= ledger);
        if m < kept.len() {
            assert(after[m] == history[m]);
        }
    }
}

proof fn lemma_entries(history: Seq<(u32, i128)>, ledger: u32)
    ensures
        0 <= crate::queries::entries_until(history, ledger) <= history.len(),
        forall|i: int|
            0 <= i < crate::queries::entries_until(history, ledger) ==> (#[trigger] history[i]).0
                <= ledger,
        crate::queries::entries_until(history, ledger) < history.len() ==> history[
            crate::queries::entries_until(history, ledger)
        ].0 > ledger,
    decreases history.len(),
{
    if history.len() > 0 && history[0].0 <= ledger {
        let tail = history.skip(1);
        lemma_entries(tail, ledger);
        assert forall|i: int| 0 <= i < crate::queries::entries_until(history, ledger) implies (
        #[trigger] history[i]).0 <= ledger by {
            if i > 0 {
                assert(tail[i - 1] == history[i]);
            }
        }
    }
}

/// The vote weight of a user at the present ledger is their present vote weight.
pub proof fn present_votes_are_current(state: State, user: Address)
    requires
        state.recorded(),
    ensures
        crate::queries::weight_at(state.votes_of(user), state.sequence) == state.account(
            user,
        ).shares,
{
    assert(state.ballot_current(user));
    let history = state.votes_of(user);
    lemma_entries(history, state.sequence);
    let k = crate::queries::entries_until(history, state.sequence);
    if k < history.len() {
        assert(history[k].0 <= history[history.len() - 1].0);
    }
}

/// What is kept stays as it should be while time goes by.
pub proof fn records_age_well(state: State, sequence: u32, signers: Seq<Address>)
    requires
        state.recorded(),
        state.sequence <= sequence,
    ensures
        state.at(sequence, signers).recorded(),
{
    let later = state.at(sequence, signers);
    assert forall|user: Address| #[trigger] later.stake_log_of(user).len() <= MAX_STAKE_HISTORY by {
        assert(state.stake_log_of(user).len() <= MAX_STAKE_HISTORY);
    }
    assert forall|user: Address| #[trigger] later.ballot_current(user) by {
        assert(state.ballot_current(user));
    }
}

proof fn lemma_same(before: State, after: State, who: Address)
    requires
        before.recorded_but(who),
        after.same_records(before),
        after.same_shares_but(before, who),
    ensures
        after.recorded_but(who),
{
    assert forall|user: Address| #[trigger] after.stake_log_of(user).len() <= MAX_STAKE_HISTORY by {
        assert(before.stake_log_of(user).len() <= MAX_STAKE_HISTORY);
    }
    assert forall|user: Address| user != who implies #[trigger] after.ballot_current(user) by {
        assert(before.ballot_current(user));
        assert(after.account(user).shares == before.account(user).shares);
    }
}

/// Nobody holds other shares, and what is kept is the same.
proof fn lemma_unchanged(before: State, after: State, who: Address)
    requires
        before.recorded(),
        after.same_records(before),
        after.same_shares_but(before, who),
        after.account(who).shares == before.account(who).shares,
    ensures
        after.recorded(),
{
    assert(before.ballot_current(who));
    lemma_same(before, after, who);
    assert forall|user: Address| #[trigger] after.ballot_current(user) by {
        assert(before.ballot_current(user));
    }
}

/// Once the shares of a user are noted and the leaderboard follows, all is recorded.
proof fn lemma_note(state: State, user: Address, shares: i128)
    requires
        state.recorded_but(user),
        state.account(user).shares == shares,
    ensures
        state.note_shares(user, shares).reseat(user, shares).recorded(),
{
    let noted = state.note_shares(user, shares);
    let after = noted.reseat(user, shares);
    lemma_noted(state.votes_of(user), state.sequence, shares);
    if state.settings.leaderboard_size > 0 {
        leaderboard_stays_in_order(
            state.leaderboard,
            state.settings.leaderboard_size,
            user,
            noted.standing(shares),
        );
    }
    assert forall|other: Address| #[trigger] after.stake_log_of(other).len()
        <= MAX_STAKE_HISTORY by {
        assert(state.stake_log_of(other).len() <= MAX_STAKE_HISTORY);
    }
    assert forall|other: Address| #[trigger] after.ballot_current(other) by {
        assert(after.votes_of(other) == (if other == user {
            crate::history::noted(state.votes_of(user), state.sequence, shares)
        } else {
            state.votes_of(other)
        }));
        if other != user {
            assert(state.ballot_current(other));
        }
    }
}

proof fn lemma_log(state: State, user: Address, action: StakeAction, amount: i128)
    requires
        state.recorded(),
    ensures
        state.log_stake(user, action, amount).recorded(),
{
    let after = state.log_stake(user, action, amount);
    assert forall|other: Address| #[trigger] after.stake_log_of(other).len()
        <= MAX_STAKE_HISTORY by {
        assert(state.stake_log_of(other).len() <= MAX_STAKE_HISTORY);
    }
    assert forall|other: Address| #[trigger] after.ballot_current(other) by {
        assert(state.ballot_current(other));
    }
}

proof fn lemma_accrue(state: State, user: Address, shares: i128)
    requires
        state.recorded(),
    ensures
        state.accrue(user, shares) matches Ok(next) ==> {
            &&& next.recorded()
            &&& next.account(user).shares == state.account(user).shares
        },
{
    if let Ok(next) = state.accrue(user, shares) {
        lemma_unchanged(state, next, user);
    }
}

proof fn lemma_compound(state: State, user: Address)
    requires
        state.recorded(),
    ensures
        state.compound(user) matches Ok(next) ==> next.recorded_but(user),
{
    assert(state.ballot_current(user));
    if let Ok(next) = state.compound(user) {
        lemma_same(state, next, user);
    }
}

proof fn lemma_credit(state: State, payer: Address, user: Address, amount: i128, fresh: bool)
    requires
        state.recorded_but(user),
    ensures
        state.credit(payer, user, amount, fresh) matches Ok((next, _)) ==> next.recorded(),
{
    if let Ok((next, shares)) = state.credit(payer, user, amount, fresh) {
        let token = state.settings.token->Some_0;
        let held = (state.account(user).shares + shares) as i128;
        let paid = state.collect(token, payer, amount).with_account(
            user,
            Account { shares: held, ..state.account(user) },
        ).with_pool(
            Pool {
                total_shares: (state.pool.total_shares + shares) as i128,
                total_deposited: (state.pool.total_deposited + amount) as i128,
                ..state.pool
            },
        );
        let entered = if fresh {
            paid.opened(user, amount)
        } else {
            paid
        };
        assert(next == entered.note_shares(user, held).reseat(user, held));
        lemma_same(state, entered, user);
        lemma_note(entered, user, held);
    }
}

proof fn lemma_unstaked(state: State, user: Address, shares: i128, token: Address, returned: i128)
    requires
        state.recorded_but(user),
    ensures
        state.unstaked(user, shares, token, returned).recorded(),
{
    let held = state.account(user).shares;
    let gone = if held == 0 {
        state.left(user)
    } else {
        state
    };
    lemma_same(state, gone, user);
    lemma_note(gone, user, held);
    let noted = gone.note_shares(user, held).reseat(user, held);
    lemma_log(noted, user, StakeAction::Unstake, returned);
    lemma_unchanged(
        noted.log_stake(user, StakeAction::Unstake, returned),
        state.unstaked(user, shares, token, returned),
        user,
    );
}

proof fn lemma_debit(state: State, user: Address, shares: i128)
    requires
        state.recorded_but(user),
    ensures
        state.debit(user, shares) matches Ok((next, _)) ==> next.recorded(),
{
    if let Ok((next, returned)) = state.debit(user, shares) {
        let token = state.settings.token->Some_0;
        let amount = state.worth(shares)->Some_0;
        let fee = state.payout(user, amount)->Some_0.1;
        let burned = state.with_account(
            user,
            Account { shares: (state.account(user).shares - shares) as i128, ..state.account(user) },
        ).with_pool(
            Pool {
                total_shares: (state.pool.total_shares - shares) as i128,
                total_deposited: (state.pool.total_deposited - (returned + fee)) as i128,
                reward_pool_balance: if fee > 0 {
                    (state.pool.reward_pool_balance + fee) as i128
                } else {
                    state.pool.reward_pool_balance
                },
                ..state.pool
            },
        );
        assert(next == burned.unstaked(user, shares, token, returned));
        lemma_same(state, burned, user);
        lemma_unstaked(burned, user, shares, token, returned);
    }
}

proof fn lemma_take_out(state: State, user: Address, shares: i128, amount: i128)
    requires
        state.recorded(),
    ensures
        state.take_out(user, shares, amount) matches Ok(next) ==> next.recorded(),
{
    if let Ok(next) = state.take_out(user, shares, amount) {
        let held = (state.account(user).shares - shares) as i128;
        let taken = state.with_account(
            user,
            Account { shares: held, ..state.account(user) },
        ).with_pool(
            Pool {
                total_shares: (state.pool.total_shares - shares) as i128,
                total_deposited: (state.pool.total_deposited - amount) as i128,
                ..state.pool
            },
        );
        let gone = if held == 0 {
            taken.closed(user)
        } else {
            taken
        };
        assert(next == gone.note_shares(user, held).reseat(user, held));
        assert(state.ballot_current(user));
        lemma_same(state, gone, user);
        lemma_note(gone, user, held);
    }
}

proof fn lemma_stake_inner(state: State, staker: Address, amount: i128)
    requires
        state.recorded(),
    ensures
        state.stake_inner(staker, amount) matches Ok((next, _)) ==> next.recorded(),
{
    let shares = state.account(staker).shares;
    lemma_accrue(state, staker, shares);
    if let Ok(settled) = state.accrue(staker, shares) {
        lemma_compound(settled, staker);
        if let Ok(compounded) = settled.compound(staker) {
            lemma_credit(compounded, staker, staker, amount, shares == 0);
            if let Ok((credited, minted)) = compounded.credit(staker, staker, amount, shares == 0) {
                lemma_log(credited, staker, StakeAction::Stake, amount);
                if let Ok((next, _)) = state.stake_inner(staker, amount) {
                    lemma_unchanged(
                        credited.log_stake(staker, StakeAction::Stake, amount),
                        next,
                        staker,
                    );
                }
            }
        }
    }
}

proof fn lemma_stake_for(state: State, delegate: Address, user: Address, amount: i128)
    requires
        state.recorded(),
    ensures
        state.stake_for(delegate, user, amount) matches Ok((next, _)) ==> next.recorded(),
{
    let shares = state.account(user).shares;
    lemma_accrue(state, user, shares);
    if let Ok(settled) = state.accrue(user, shares) {
        assert(settled.ballot_current(user));
        lemma_credit(settled, delegate, user, amount, shares == 0);
        if let Ok((credited, minted)) = settled.credit(delegate, user, amount, shares == 0) {
            if let Ok((next, _)) = state.stake_for(delegate, user, amount) {
                lemma_unchanged(credited, next, user);
            }
        }
    }
}

proof fn lemma_unstake(state: State, staker: Address, shares: i128)
    requires
        state.recorded(),
    ensures
        state.unstake(staker, shares) matches Ok((next, _)) ==> next.recorded(),
{
    let held = state.account(staker).shares;
    lemma_accrue(state, staker, held);
    if let Ok(settled) = state.accrue(staker, held) {
        lemma_compound(settled, staker);
        if let Ok(compounded) = settled.compound(staker) {
            lemma_debit(compounded, staker, shares);
        }
    }
}

proof fn lemma_request(state: State, user: Address, amount: i128)
    requires
        state.recorded(),
    ensures
        state.request_unstake(user, amount) matches Ok(next) ==> next.recorded(),
{
    let shares = state.account(user).shares;
    lemma_accrue(state, user, shares);
    if let Some(position) = state.worth(shares) {
        let wanted = crate::math::smaller(amount as int, position as int) as i128;
        let burned = state.shares_for(shares, wanted);
        if let (Ok(settled), Some(removed)) = (state.accrue(user, shares), state.worth(burned)) {
            lemma_take_out(settled, user, burned, removed);
            if let Ok(taken) = settled.take_out(user, burned, removed) {
                if let Ok(next) = taken.unbond(user, removed) {
                    lemma_unchanged(taken, next, user);
                }
            }
        }
    }
}

proof fn lemma_claim_inner(state: State, user: Address)
    requires
        state.recorded(),
    ensures
        state.claim_inner(user) matches Ok((next, _)) ==> next.recorded(),
{
    let shares = state.account(user).shares;
    lemma_accrue(state, user, shares);
    if let Ok(settled) = state.accrue(user, shares) {
        if let Ok((next, _)) = state.claim_inner(user) {
            lemma_unchanged(settled, next, user);
        }
    }
}

proof fn lemma_stake_and_claim(state: State, user: Address, amount: i128, balance: i128)
    requires
        state.recorded(),
    ensures
        state.stake_and_claim(user, amount, balance) matches Ok((next, _)) ==> next.recorded(),
{
    lemma_claim_inner(state, user);
    if let Ok((claimed, reward)) = state.claim_inner(user) {
        if reward == 0 {
            lemma_stake_inner(claimed, user, amount);
        } else if let Ok(watched) = claimed.check_auto_pause(balance) {
            lemma_unchanged(claimed, watched, user);
            lemma_stake_inner(watched, user, amount);
        }
    }
}

/// Two users hold other shares, which are then noted.
proof fn lemma_handed_over(
    before: State,
    moved: State,
    from: Address,
    to: Address,
    shares: i128,
)
    requires
        before.recorded(),
        from != to,
        moved.same_records(before),
        forall|user: Address|
            user != from && user != to ==> #[trigger] moved.account(user).shares == before.account(
                user,
            ).shares,
        moved.account(from).shares == 0,
        moved.account(to).shares == shares,
    ensures
        moved.handed_over(from, to, shares).recorded(),
{
    let listed = State {
        stakers: crate::history::succeeded(moved.stakers, from, to),
        ..moved
    };
    let one = listed.note_shares(from, 0);
    let two = one.note_shares(to, shares);
    let three = two.reseat(from, 0);
    let four = three.reseat(to, shares);
    assert(before.ballot_current(from));
    assert(before.ballot_current(to));
    lemma_noted(before.votes_of(from), before.sequence, 0);
    lemma_noted(before.votes_of(to), before.sequence, shares);
    if before.settings.leaderboard_size > 0 {
        leaderboard_stays_in_order(
            two.leaderboard,
            two.settings.leaderboard_size,
            from,
            two.standing(0),
        );
        leaderboard_stays_in_order(
            three.leaderboard,
            three.settings.leaderboard_size,
            to,
            three.standing(shares),
        );
    }
    assert forall|user: Address| #[trigger] four.stake_log_of(user).len() <= MAX_STAKE_HISTORY by {
        assert(before.stake_log_of(user).len() <= MAX_STAKE_HISTORY);
    }
    assert forall|user: Address| #[trigger] four.ballot_current(user) by {
        assert(before.ballot_current(user));
        assert(one.votes_of(to) == before.votes_of(to));
        assert(four.votes_of(user) == (if user == to {
            crate::history::noted(before.votes_of(to), before.sequence, shares)
        } else if user == from {
            crate::history::noted(before.votes_of(from), before.sequence, 0)
        } else {
            before.votes_of(user)
        }));
        assert(four.account(user) == moved.account(user));
        if user != from && user != to {
            assert(moved.account(user).shares == before.account(user).shares);
        }
    }
    assert(four == moved.handed_over(from, to, shares));
}

proof fn lemma_stake_step(state: State, staker: Address, amount: i128)
    requires
        state.recorded(),
    ensures
        state.user_step(UserCall::Stake { staker, amount }) matches Ok(next) ==> next.recorded(),
{
    reveal(State::user_step);
    lemma_stake_inner(state, staker, amount);
}

proof fn lemma_stake_for_step(state: State, delegate: Address, beneficiary: Address, amount: i128)
    requires
        state.recorded(),
    ensures
        state.user_step(UserCall::StakeFor { delegate, beneficiary, amount }) matches Ok(next)
            ==> next.recorded(),
{
    reveal(State::user_step);
    lemma_stake_for(state, delegate, beneficiary, amount);
}

proof fn lemma_stake_and_claim_step(state: State, user: Address, amount: i128, reward_balance: i128)
    requires
        state.recorded(),
    ensures
        state.user_step(UserCall::StakeAndClaim { user, amount, reward_balance }) matches Ok(next)
            ==> next.recorded(),
{
    reveal(State::user_step);
    lemma_stake_and_claim(state, user, amount, reward_balance);
}

proof fn lemma_unstake_step(state: State, staker: Address, shares: i128)
    requires
        state.recorded(),
    ensures
        state.user_step(UserCall::Unstake { staker, shares }) matches Ok(next) ==> next.recorded(),
{
    reveal(State::user_step);
    lemma_unstake(state, staker, shares);
}

proof fn lemma_unstake_all_step(state: State, user: Address)
    requires
        state.recorded(),
    ensures
        state.user_step(UserCall::UnstakeAll { user }) matches Ok(next) ==> next.recorded(),
{
    reveal(State::user_step);
    let held = state.account(user).shares;
    lemma_accrue(state, user, held);
    if let Ok(settled) = state.accrue(user, held) {
        lemma_compound(settled, user);
        if let Ok(compounded) = settled.compound(user) {
            lemma_debit(compounded, user, compounded.account(user).shares);
        }
    }
}

proof fn lemma_request_unstake_step(state: State, user: Address, amount: i128)
    requires
        state.recorded(),
    ensures
        state.user_step(UserCall::RequestUnstake { user, amount }) matches Ok(next)
            ==> next.recorded(),
{
    reveal(State::user_step);
    lemma_request(state, user, amount);
}

proof fn lemma_claim_step(state: State, staker: Address)
    requires
        state.recorded(),
    ensures
        state.user_step(UserCall::Claim { staker }) matches Ok(next) ==> next.recorded(),
{
    reveal(State::user_step);
    lemma_claim_inner(state, staker);
    if let Ok((claimed, reward)) = state.claim_inner(staker) {
        lemma_unchanged(claimed, claimed.watch_reserve(), staker);
    }
}

proof fn lemma_claim_epoch_rewards_step(state: State, user: Address)
    requires
        state.recorded(),
    ensures
        state.user_step(UserCall::ClaimEpochRewards { user }) matches Ok(next) ==> next.recorded(),
{
    reveal(State::user_step);
    if let Ok((next, _)) = state.claim_epoch_rewards(user) {
        lemma_unchanged(state, next, user);
    }
}

proof fn lemma_transfer_position_step(state: State, from: Address, to: Address)
    requires
        state.recorded(),
        state.balanced(),
    ensures
        state.user_step(UserCall::TransferPosition { from, to }) matches Ok(next)
            ==> next.recorded(),
{
    reveal(State::user_step);
    let shares = state.account(from).shares;
    crate::laws::books::nobody_holds_more_than_all(state, from);
    crate::laws::books::nobody_holds_more_than_all(state, to);
    lemma_accrue(state, from, shares);
    if let (Ok(next), Ok(settled)) = (
        state.transfer_position(from, to),
        state.accrue(from, shares),
    ) {
        let moved = State {
            accounts: next.accounts,
            ..settled
        };
        lemma_handed_over(settled, moved, from, to, shares);
        lemma_unchanged(moved.handed_over(from, to, shares), next, from);
    }
}

proof fn lemma_transfer_position_with_rewards_step(state: State, from: Address, to: Address)
    requires
        state.recorded(),
        state.balanced(),
    ensures
        state.user_step(UserCall::TransferPositionWithRewards { from, to }) matches Ok(next)
            ==> next.recorded(),
{
    reveal(State::user_step);
    let shares = state.account(from).shares;
    crate::laws::books::nobody_holds_more_than_all(state, from);
    crate::laws::books::nobody_holds_more_than_all(state, to);
    if let Ok(next) = state.transfer_position_with_rewards(from, to) {
        let moved = State {
            accounts: next.accounts,
            ..state
        };
        lemma_handed_over(state, moved, from, to, shares);
        lemma_unchanged(moved.handed_over(from, to, shares), next, from);
    }
}

proof fn lemma_merge_positions_step(state: State, user: Address)
    requires
        state.recorded(),
    ensures
        state.user_step(UserCall::MergePositions { user }) matches Ok(next) ==> next.recorded(),
{
    reveal(State::user_step);
    lemma_accrue(state, user, state.account(user).shares);
    if let Ok(settled) = state.accrue(user, state.account(user).shares) {
        if let Ok(next) = state.merge_positions(user) {
            lemma_unchanged(settled, next, user);
        }
    }
}

proof fn lemma_user(state: State, call: UserCall)
    requires
        state.recorded(),
        state.balanced(),
    ensures
        state.user_step(call) matches Ok(next) ==> next.recorded(),
{
    match call {
        UserCall::Stake { staker, amount } => {
            lemma_stake_step(state, staker, amount);
        },
        UserCall::StakeFor { delegate, beneficiary, amount } => {
            lemma_stake_for_step(state, delegate, beneficiary, amount);
        },
        UserCall::StakeAndClaim { user, amount, reward_balance } => {
            lemma_stake_and_claim_step(state, user, amount, reward_balance);
        },
        UserCall::Unstake { staker, shares } => {
            lemma_unstake_step(state, staker, shares);
        },
        UserCall::UnstakeAll { user } => {
            lemma_unstake_all_step(state, user);
        },
        UserCall::RequestUnstake { user, amount } => {
            lemma_request_unstake_step(state, user, amount);
        },
        UserCall::Claim { staker } => {
            lemma_claim_step(state, staker);
        },
        UserCall::ClaimEpochRewards { user } => {
            lemma_claim_epoch_rewards_step(state, user);
        },
        UserCall::TransferPosition { from, to } => {
            lemma_transfer_position_step(state, from, to);
        },
        UserCall::TransferPositionWithRewards { from, to } => {
            lemma_transfer_position_with_rewards_step(state, from, to);
        },
        UserCall::MergePositions { user } => {
            lemma_merge_positions_step(state, user);
        },
    }
}

proof fn lemma_owner(state: State, call: OwnerCall)
    requires
        state.recorded(),
    ensures
        state.owner_step(call) matches Ok(next) ==> next.recorded(),
{
    reveal(State::owner_step);
    if let Ok(next) = state.owner_step(call) {
        let user = match crate::laws::consent::owner(call) {
            Some(user) => user,
            None => state.contract,
        };
        lemma_unchanged(state, next, user);
    }
}

proof fn lemma_carry_on(state: State, active: Seq<Address>, last: u32, wave: u32)
    requires
        state.recorded(),
    ensures
        state.carry_on(active, last, wave) matches Ok(next) ==> next.recorded(),
    decreases active.len(),
{
    if active.len() > 0 {
        lemma_carry_on(state, active.drop_last(), last, wave);
        if let Ok(before) = state.carry_on(active.drop_last(), last, wave) {
            if let Ok(next) = state.carry_on(active, last, wave) {
                lemma_unchanged(before, next, active.last());
            }
        }
    }
}

proof fn lemma_slash(state: State, admin_addr: Address, user: Address, amount: i128)
    requires
        state.recorded(),
    ensures
        state.slash(admin_addr, user, amount) matches Ok((next, _)) ==> next.recorded(),
{
    let shares = state.account(user).shares;
    if let Some(position) = state.worth(shares) {
        let actual = crate::math::smaller(amount as int, position as int) as i128;
        let burned = state.shares_for(shares, actual);
        lemma_take_out(state, user, burned, actual);
        if let Ok(taken) = state.take_out(user, burned, actual) {
            if let Ok((next, _)) = state.slash(admin_addr, user, amount) {
                lemma_unchanged(taken, next, user);
            }
        }
    }
}

proof fn lemma_wave(state: State, wave: u32, active: Seq<Address>)
    requires
        state.recorded(),
    ensures
        state.record_wave_activity(wave, active) matches Ok(next) ==> next.recorded(),
{
    let lapsed = state.lapse(active);
    assert forall|user: Address| #[trigger] lapsed.account(user).shares == state.account(
        user,
    ).shares by {
        assert(lapsed.accounts.contains_key(user) == state.accounts.contains_key(user));
    }
    lemma_unchanged(state, lapsed, state.contract);
    lemma_carry_on(lapsed, active, state.last_wave(), wave);
    if let Ok(recorded) = lapsed.carry_on(active, state.last_wave(), wave) {
        if let Ok(next) = state.record_wave_activity(wave, active) {
            lemma_unchanged(recorded, next, state.contract);
        }
    }
}

proof fn lemma_manage(state: State, call: ManageCall)
    requires
        state.recorded(),
    ensures
        state.manage_step(call) matches Ok(next) ==> next.recorded(),
{
    reveal(State::manage_step);
    match call {
        ManageCall::Slash { admin_addr, user, amount } => {
            lemma_slash(state, admin_addr, user, amount);
        },
        ManageCall::RecordWaveActivity { wave_id, active_users } => {
            lemma_wave(state, wave_id, active_users);
        },
        _ => {
            if let Ok(next) = state.manage_step(call) {
                lemma_unchanged(state, next, state.contract);
            }
        },
    }
}

proof fn lemma_mark(state: State, call: MarkCall)
    requires
        state.recorded(),
    ensures
        state.mark_step(call) matches Ok(next) ==> next.recorded(),
{
    reveal(State::mark_step);
    if let Ok(next) = state.mark_step(call) {
        assert forall|user: Address| #[trigger] next.account(user).shares == state.account(
            user,
        ).shares by {}
        lemma_unchanged(state, next, state.contract);
    }
}

/// The same accounts, vote histories and stake histories; the other lists may differ.
proof fn lemma_lists(before: State, after: State)
    requires
        before.recorded(),
        after.sequence == before.sequence,
        after.accounts == before.accounts,
        after.votes == before.votes,
        after.stake_log == before.stake_log,
        after.settings.leaderboard_size <= MAX_LEADERBOARD_SIZE,
        after.leaderboard.len() <= after.settings.leaderboard_size,
        in_order(after.leaderboard),
        after.changelog.len() <= MAX_CHANGELOG_ENTRIES,
        after.rate_history.len() <= MAX_RATE_HISTORY_ENTRIES,
        after.reward_rate_history.len() <= MAX_RICH_RATE_HISTORY,
        after.snapshots.len() <= MAX_STAKED_SNAPSHOTS,
    ensures
        after.recorded(),
{
    assert forall|user: Address| #[trigger] after.stake_log_of(user).len() <= MAX_STAKE_HISTORY by {
        assert(before.stake_log_of(user).len() <= MAX_STAKE_HISTORY);
    }
    assert forall|user: Address| #[trigger] after.ballot_current(user) by {
        assert(before.ballot_current(user));
    }
}

proof fn lemma_admin(state: State, call: AdminCall)
    requires
        state.recorded(),
    ensures
        state.admin_step(call) matches Ok(next) ==> next.recorded(),
{
    reveal(State::admin_step);
    if let Ok(next) = state.admin_step(call) {
        lemma_lists(state, next);
    }
}

proof fn lemma_take_snapshot_step(state: State)
    requires
        state.recorded(),
    ensures
        state.plan_step(PlanCall::TakeSnapshot) matches Ok(next) ==> next.recorded(),
{
    reveal(State::plan_step);
    if let Ok(next) = state.plan_step(PlanCall::TakeSnapshot) {
        lemma_lists(state, next);
    }
}

proof fn lemma_start_boost_campaign_step(state: State, multiplier_bps: u32, duration_ledgers: u32)
    requires
        state.recorded(),
    ensures
        ({
            let call = PlanCall::StartBoostCampaign { multiplier_bps, duration_ledgers };
            state.plan_step(call) matches Ok(next) ==> next.recorded()
        }),
{
    reveal(State::plan_step);
    let call = PlanCall::StartBoostCampaign { multiplier_bps, duration_ledgers };
    if let Ok(next) = state.plan_step(call) {
        lemma_lists(state, next);
    }
}

proof fn lemma_end_boost_campaign_step(state: State)
    requires
        state.recorded(),
    ensures
        state.plan_step(PlanCall::EndBoostCampaign) matches Ok(next) ==> next.recorded(),
{
    reveal(State::plan_step);
    if let Ok(next) = state.plan_step(PlanCall::EndBoostCampaign) {
        lemma_lists(state, next);
    }
}

proof fn lemma_set_reward_rate_bps_step(state: State, rate_bps: u32)
    requires
        state.recorded(),
    ensures
        state.plan_step(PlanCall::SetRewardRateBps { rate_bps }) matches Ok(next)
            ==> next.recorded(),
{
    reveal(State::plan_step);
    if let Ok(next) = state.plan_step(PlanCall::SetRewardRateBps { rate_bps }) {
        lemma_lists(state, next);
    }
}

proof fn lemma_set_boost_schedule_step(state: State, tiers: Seq<(u32, u32)>)
    requires
        state.recorded(),
    ensures
        state.plan_step(PlanCall::SetBoostSchedule { tiers }) matches Ok(next) ==> next.recorded(),
{
    reveal(State::plan_step);
    if let Ok(next) = state.plan_step(PlanCall::SetBoostSchedule { tiers }) {
        lemma_lists(state, next);
    }
}

proof fn lemma_set_leaderboard_size_step(state: State, n: u32)
    requires
        state.recorded(),
    ensures
        state.plan_step(PlanCall::SetLeaderboardSize { n }) matches Ok(next) ==> next.recorded(),
{
    reveal(State::plan_step);
    if let Ok(next) = state.plan_step(PlanCall::SetLeaderboardSize { n }) {
        lemma_lists(state, next);
    }
}

proof fn lemma_set_pool_description_step(state: State, description: String)
    requires
        state.recorded(),
    ensures
        state.plan_step(PlanCall::SetPoolDescription { description }) matches Ok(next)
            ==> next.recorded(),
{
    reveal(State::plan_step);
    if let Ok(next) = state.plan_step(PlanCall::SetPoolDescription { description }) {
        lemma_lists(state, next);
    }
}

proof fn lemma_plan(state: State, call: PlanCall)
    requires
        state.recorded(),
    ensures
        state.plan_step(call) matches Ok(next) ==> next.recorded(),
{
    match call {
        PlanCall::TakeSnapshot => lemma_take_snapshot_step(state),
        PlanCall::StartBoostCampaign { multiplier_bps, duration_ledgers } => {
            lemma_start_boost_campaign_step(state, multiplier_bps, duration_ledgers)
        },
        PlanCall::EndBoostCampaign => lemma_end_boost_campaign_step(state),
        PlanCall::SetRewardRateBps { rate_bps } => lemma_set_reward_rate_bps_step(state, rate_bps),
        PlanCall::SetBoostSchedule { tiers } => lemma_set_boost_schedule_step(state, tiers),
        PlanCall::SetLeaderboardSize { n } => lemma_set_leaderboard_size_step(state, n),
        PlanCall::SetPoolDescription { description } => {
            lemma_set_pool_description_step(state, description)
        },
    }
}

proof fn lemma_setting(state: State, call: SettingCall)
    requires
        state.recorded(),
    ensures
        state.setting_step(call) matches Ok(next) ==> next.recorded(),
{
    reveal(State::setting_step);
    if let Ok(next) = state.setting_step(call) {
        lemma_lists(state, next);
    }
}

/// A fresh pool has nothing to keep.
pub proof fn nothing_recorded_at_first(contract: Address, sequence: u32)
    ensures
        State::blank(contract, sequence).recorded(),
{
}

/// Every call keeps the lists within their bounds, the leaderboard in order, and the vote history
/// of every user up to date.
pub proof fn records_are_kept(state: State, call: Call)
    requires
        state.recorded(),
        state.balanced(),
    ensures
        state.step(call) matches Ok(next) ==> next.recorded(),
{
    match call {
        Call::User(call) => lemma_user(state, call),
        Call::Owner(call) => lemma_owner(state, call),
        Call::Manage(call) => lemma_manage(state, call),
        Call::Mark(call) => lemma_mark(state, call),
        Call::Admin(call) => lemma_admin(state, call),
        Call::Plan(call) => lemma_plan(state, call),
        Call::Setting(call) => lemma_setting(state, call),
    }
}

} // verus!
