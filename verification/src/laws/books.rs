//! The books of the pool balance: the shares of all users together are all shares, and no
//! balance is ever negative.
use crate::address::Address;
use crate::calls::{
    AdminCall, Call, ManageCall, MarkCall, OwnerCall, PlanCall, SettingCall, UserCall,
};
use crate::env::State;
use crate::rewards::REWARD_UNIT;
use crate::storage::{Account, Pool};
use vstd::prelude::*;

verus! {

/// The shares of all users together.
pub open spec fn share_sum(accounts: Map<Address, Account>) -> int
    decreases accounts.dom().len(),
{
    if accounts.dom().finite() && accounts.dom().len() > 0 {
        let user = accounts.dom().choose();
        accounts[user].shares + share_sum(accounts.remove(user))
    } else {
        0
    }
}

/// The shares of all are those of one and those of all others.
pub proof fn share_sum_without(accounts: Map<Address, Account>, user: Address)
    requires
        accounts.dom().finite(),
        accounts.contains_key(user),
    ensures
        share_sum(accounts) == accounts[user].shares + share_sum(accounts.remove(user)),
    decreases accounts.dom().len(),
{
    let first = accounts.dom().choose();
    assert(accounts.dom().contains(user));
    if first != user {
        share_sum_without(accounts.remove(first), user);
        share_sum_without(accounts.remove(user), first);
        assert(accounts.remove(first).remove(user) =~= accounts.remove(user).remove(first));
    }
}

proof fn lemma_sum_insert(accounts: Map<Address, Account>, user: Address, account: Account)
    requires
        accounts.dom().finite(),
    ensures
        accounts.insert(user, account).dom().finite(),
        share_sum(accounts.insert(user, account)) == share_sum(accounts) + account.shares - (
        if accounts.contains_key(user) {
            accounts[user].shares as int
        } else {
            0
        }),
{
    let after = accounts.insert(user, account);
    share_sum_without(after, user);
    if accounts.contains_key(user) {
        share_sum_without(accounts, user);
        assert(after.remove(user) =~= accounts.remove(user));
    } else {
        assert(after.remove(user) =~= accounts);
    }
}

proof fn lemma_part_of_sum(accounts: Map<Address, Account>, user: Address)
    requires
        accounts.dom().finite(),
        forall|u: Address| #[trigger] accounts.contains_key(u) ==> accounts[u].shares >= 0,
    ensures
        share_sum(accounts) >= 0,
        accounts.contains_key(user) ==> accounts[user].shares <= share_sum(accounts),
    decreases accounts.dom().len(),
{
    if accounts.dom().len() > 0 {
        let first = accounts.dom().choose();
        let rest = accounts.remove(first);
        assert forall|u: Address| #[trigger] rest.contains_key(u) implies rest[u].shares >= 0 by {
            assert(accounts.contains_key(u));
        }
        lemma_part_of_sum(rest, user);
        assert(accounts.contains_key(first));
    }
}

/// Where nobody holds less than nothing, neither do all together.
pub proof fn shares_are_not_negative(accounts: Map<Address, Account>)
    requires
        accounts.dom().finite(),
        forall|u: Address| #[trigger] accounts.contains_key(u) ==> accounts[u].shares >= 0,
    ensures
        share_sum(accounts) >= 0,
{
    lemma_part_of_sum(accounts, arbitrary());
}

impl Account {
    /// No balance of the account is negative, and the dust is less than a token.
    pub open spec fn in_order(self) -> bool {
        &&& self.shares >= 0
        &&& self.accrued >= 0
        &&& 0 <= self.remainder < REWARD_UNIT
    }
}

impl State {
    /// The books balance.
    pub open spec fn balanced(self) -> bool {
        &&& self.accounts.dom().finite()
        &&& self.pool.total_shares == share_sum(self.accounts)
        &&& forall|user: Address| #[trigger]
            self.accounts.contains_key(user) ==> self.accounts[user].in_order()
        &&& self.pool.total_deposited >= 0
        &&& self.pool.reward_pool_balance >= 0
        &&& self.settings.claim_cap >= 0
    }
}

/// No user holds more shares than there are.
pub proof fn nobody_holds_more_than_all(state: State, user: Address)
    requires
        state.balanced(),
    ensures
        0 <= state.account(user).shares <= state.pool.total_shares,
        state.account(user).in_order(),
{
    assert forall|u: Address| #[trigger] state.accounts.contains_key(u) implies
        state.accounts[u].shares >= 0 by {
        assert(state.accounts[u].in_order());
    }
    lemma_part_of_sum(state.accounts, user);
    if state.accounts.contains_key(user) {
        assert(state.accounts[user].in_order());
    }
}

/// One account changes together with the totals.
proof fn lemma_entry(before: State, after: State, user: Address, account: Account)
    requires
        before.balanced(),
        after.accounts == before.accounts.insert(user, account),
        account.in_order(),
        after.pool.total_shares == before.pool.total_shares + account.shares - before.account(
            user,
        ).shares,
        after.pool.total_deposited >= 0,
        after.pool.reward_pool_balance >= 0,
        after.settings.claim_cap >= 0,
    ensures
        after.balanced(),
{
    lemma_sum_insert(before.accounts, user, account);
    assert forall|u: Address| #[trigger] after.accounts.contains_key(u) implies
        after.accounts[u].in_order() by {
        if u != user {
            assert(before.accounts.contains_key(u));
        }
    }
}

pub(crate) proof fn lemma_worth(total_shares: i128, total_deposited: i128, shares: i128)
    requires
        0 <= shares <= total_shares,
        0 <= total_deposited,
    ensures
        crate::balance::worth(total_shares, total_deposited, shares) matches Some(amount) ==> 0
            <= amount <= total_deposited,
{
    let (s, t, d) = (shares as int, total_shares as int, total_deposited as int);
    if t > 0 {
        assert(0 <= s * d) by (nonlinear_arith)
            requires
                s >= 0,
                d >= 0,
        ;
        assert(0 <= (s * d) / t <= d) by (nonlinear_arith)
            requires
                0 <= s <= t,
                0 < t,
                0 <= d,
        ;
    }
}

/// The part of the pool that a user has is between nothing and all of it.
pub proof fn a_part_is_no_more_than_all(state: State, user: Address)
    requires
        state.balanced(),
    ensures
        0 <= state.percentage_of_pool(user) <= 10_000,
        0 <= state.pool_share_bps(user) <= 10_000,
{
    let shares = state.account(user).shares;
    nobody_holds_more_than_all(state, user);
    lemma_worth(state.pool.total_shares, state.pool.total_deposited, shares);
    if state.pool.total_shares > 0 {
        lemma_part(shares as int, state.pool.total_shares as int);
    }
    if let Some(amount) = state.position_worth(user) {
        if state.pool.total_deposited > 0 {
            lemma_part(amount as int, state.pool.total_deposited as int);
        }
    }
}

proof fn lemma_part(part: int, all: int)
    requires
        0 <= part <= all,
        0 < all,
    ensures
        0 <= (part * 10_000) / all <= 10_000,
{
    assert(0 <= (part * 10_000) / all <= 10_000) by (nonlinear_arith)
        requires
            0 <= part <= all,
            0 < all,
    ;
}

pub(crate) proof fn lemma_minted(total_shares: i128, total_deposited: i128, amount: i128)
    requires
        0 <= total_shares,
        0 <= total_deposited,
        0 <= amount,
    ensures
        crate::balance::minted(total_shares, total_deposited, amount) matches Some(shares)
            ==> shares >= 0,
{
    let (a, t, d) = (amount as int, total_shares as int, total_deposited as int);
    if t > 0 && d > 0 {
        assert(0 <= a * t) by (nonlinear_arith)
            requires
                a >= 0,
                t >= 0,
        ;
        assert(0 <= (a * t) / d) by (nonlinear_arith)
            requires
                0 <= a * t,
                0 < d,
        ;
    }
}

/// A cut is a part of what it is taken of.
proof fn lemma_cut(amount: i128, bps: u32)
    requires
        amount >= 0,
        bps <= 10_000,
    ensures
        crate::unstaking::cut(amount, bps) matches Some(part) ==> 0 <= part <= amount && part
            * 10_000 <= amount * bps,
{
    let (a, b) = (amount as int, bps as int);
    assert(0 <= a * b <= a * 10_000) by (nonlinear_arith)
        requires
            a >= 0,
            0 <= b <= 10_000,
    ;
}

proof fn lemma_settled(state: State, user: Address)
    requires
        state.balanced(),
    ensures
        state.settled(user, state.account(user).shares) matches Ok(account) ==> {
            &&& account.in_order()
            &&& account.shares == state.account(user).shares
            &&& account.auto_restake == state.account(user).auto_restake
        },
{
    nobody_holds_more_than_all(state, user);
    let account = state.account(user);
    let since = state.settled_until(user);
    if let Some(staked_at) = account.staked_at {
        let terms = state.terms(account.shares, staked_at);
        if since < state.sequence {
            crate::rewards::dust_grows(
                terms,
                since as int,
                since as int,
                state.sequence as int,
            );
        }
    }
}

/// Settling the rewards of a user keeps the books balanced.
pub proof fn settling_keeps_the_books(state: State, user: Address)
    requires
        state.balanced(),
    ensures
        state.accrue(user, state.account(user).shares) matches Ok(next) ==> {
            &&& next.balanced()
            &&& next.account(user).shares == state.account(user).shares
            &&& next.pool == state.pool
            &&& next.settings == state.settings
        },
{
    lemma_settled(state, user);
    if let Ok(account) = state.settled(user, state.account(user).shares) {
        lemma_entry(state, state.with_account(user, account), user, account);
    }
}

/// Compounding the rewards of a user keeps the books balanced.
pub proof fn compounding_keeps_the_books(state: State, user: Address)
    requires
        state.balanced(),
    ensures
        state.compound(user) matches Ok(next) ==> {
            &&& next.balanced()
            &&& next.account(user).shares >= state.account(user).shares
            &&& next.settings == state.settings
        },
{
    nobody_holds_more_than_all(state, user);
    let account = state.account(user);
    lemma_minted(state.pool.total_shares, state.pool.total_deposited, account.accrued);
    if let Ok(next) = state.compound(user) {
        if account.auto_restake && account.accrued > 0 {
            lemma_entry(state, next, user, next.accounts[user]);
        }
    }
}

/// Crediting a stake keeps the books balanced.
pub proof fn crediting_keeps_the_books(
    state: State,
    payer: Address,
    user: Address,
    amount: i128,
    fresh: bool,
)
    requires
        state.balanced(),
        amount > 0,
    ensures
        state.credit(payer, user, amount, fresh) matches Ok((next, _)) ==> next.balanced(),
{
    nobody_holds_more_than_all(state, user);
    lemma_minted(state.pool.total_shares, state.pool.total_deposited, amount);
    if let Ok((next, shares)) = state.credit(payer, user, amount, fresh) {
        assert(next.accounts =~= state.accounts.insert(user, next.accounts[user]));
        lemma_entry(state, next, user, next.accounts[user]);
    }
}

/// The parts into which a payout falls.
proof fn lemma_payout(state: State, user: Address, amount: i128)
    requires
        amount >= 0,
        state.settings.early_exit_penalty_bps <= 10_000,
        state.settings.unstake_fee_bps <= 10_000,
    ensures
        state.payout(user, amount) matches Some((returned, fee)) ==> {
            &&& 0 <= returned
            &&& 0 <= fee
            &&& returned + fee <= amount
        },
{
    let penalty_bps = state.penalty_bps(user);
    lemma_cut(amount, penalty_bps);
    if let Some(penalty) = crate::unstaking::cut(amount, penalty_bps) {
        lemma_cut((amount - penalty) as i128, state.settings.unstake_fee_bps);
    }
}

/// What `unstaked` does not touch.
proof fn lemma_unstaked(state: State, user: Address, shares: i128, token: Address, returned: i128)
    ensures
        ({
            let next = state.unstaked(user, shares, token, returned);
            let account = next.account(user);
            &&& next.accounts == state.accounts || next.accounts == state.accounts.insert(
                user,
                account,
            )
            &&& account.shares == state.account(user).shares
            &&& account.accrued == state.account(user).accrued
            &&& account.remainder == state.account(user).remainder
            &&& next.settings == state.settings
            &&& next.pool.total_shares == state.pool.total_shares
            &&& next.pool.total_deposited == state.pool.total_deposited
            &&& next.pool.reward_pool_balance == state.pool.reward_pool_balance
        }),
{
    let gone = state.left(user);
    assert(gone.accounts =~= state.accounts.insert(user, gone.account(user)));
}

proof fn lemma_debit(state: State, user: Address, shares: i128)
    requires
        state.balanced(),
        state.settings.early_exit_penalty_bps <= 10_000,
        state.settings.unstake_fee_bps <= 10_000,
        0 <= shares <= state.account(user).shares,
    ensures
        state.debit(user, shares) matches Ok((next, _)) ==> next.balanced(),
{
    nobody_holds_more_than_all(state, user);
    lemma_worth(state.pool.total_shares, state.pool.total_deposited, shares);
    if let (Some(amount), Some(token)) = (state.worth(shares), state.settings.token) {
        lemma_payout(state, user, amount);
        if let Ok((next, returned)) = state.debit(user, shares) {
            let fee = state.payout(user, amount)->Some_0.1;
            let held = (state.account(user).shares - shares) as i128;
            let burned = state.with_account(
                user,
                Account { shares: held, ..state.account(user) },
            ).with_pool(
                Pool {
                    total_shares: (state.pool.total_shares - shares) as i128,
                    total_deposited: (state.pool.total_deposited - (returned + fee)) as i128,
                    reward_pool_balance: if fee > 0 {
                        (state.pool.reward_pool_balance + fee) as i128
                    } else {
                        state.pool.reward_pool_balance
                    },
                    ..state.pool
                },
            );
            assert(next == burned.unstaked(user, shares, token, returned));
            lemma_unstaked(burned, user, shares, token, returned);
            assert(next.accounts =~= state.accounts.insert(user, next.account(user)));
            lemma_entry(state, next, user, next.account(user));
        }
    }
}

proof fn lemma_take_out(state: State, user: Address, shares: i128, amount: i128)
    requires
        state.balanced(),
        0 <= shares <= state.account(user).shares,
        0 <= amount <= state.pool.total_deposited,
    ensures
        state.take_out(user, shares, amount) matches Ok(next) ==> next.balanced(),
{
    nobody_holds_more_than_all(state, user);
    if let Ok(next) = state.take_out(user, shares, amount) {
        assert(next.accounts =~= state.accounts.insert(user, next.account(user)));
        lemma_entry(state, next, user, next.account(user));
    }
}

/// The shares for an amount are not negative and not more than the position.
pub proof fn shares_for_an_amount(state: State, user: Address, amount: i128)
    requires
        state.balanced(),
        0 <= amount,
    ensures
        0 <= state.shares_for(state.account(user).shares, amount) <= state.account(user).shares,
{
    nobody_holds_more_than_all(state, user);
    lemma_minted(state.pool.total_shares, state.pool.total_deposited, amount);
}

/// An account that keeps its shares and its rewards changes nothing in the books.
proof fn lemma_same_entry(before: State, after: State, user: Address)
    requires
        before.balanced(),
        after.accounts == before.accounts || after.accounts == before.accounts.insert(
            user,
            after.account(user),
        ),
        after.account(user).shares == before.account(user).shares,
        after.account(user).in_order(),
        after.pool.total_shares == before.pool.total_shares,
        after.pool.total_deposited >= 0,
        after.pool.reward_pool_balance >= 0,
        after.settings.claim_cap >= 0,
    ensures
        after.balanced(),
{
    if after.accounts != before.accounts {
        lemma_entry(before, after, user, after.account(user));
    }
}

proof fn lemma_sum_same(one: Map<Address, Account>, other: Map<Address, Account>)
    requires
        one.dom() == other.dom(),
        forall|u: Address| #[trigger] one.contains_key(u) ==> one[u].shares == other[u].shares,
    ensures
        share_sum(one) == share_sum(other),
    decreases one.dom().len(),
{
    if one.dom().finite() && one.dom().len() > 0 {
        let first = one.dom().choose();
        assert(one.contains_key(first));
        assert(one.remove(first).dom() =~= other.remove(first).dom());
        assert forall|u: Address| #[trigger] one.remove(first).contains_key(u) implies one.remove(
            first,
        )[u].shares == other.remove(first)[u].shares by {
            assert(one.contains_key(u));
        }
        lemma_sum_same(one.remove(first), other.remove(first));
    }
}

/// A stake keeps the books balanced.
pub proof fn staking_keeps_the_books(state: State, staker: Address, amount: i128)
    requires
        state.balanced(),
    ensures
        state.stake_inner(staker, amount) matches Ok((next, _)) ==> next.balanced(),
{
    let shares = state.account(staker).shares;
    settling_keeps_the_books(state, staker);
    if let Ok(settled) = state.accrue(staker, shares) {
        compounding_keeps_the_books(settled, staker);
        if let Ok(compounded) = settled.compound(staker) {
            if amount > 0 {
                crediting_keeps_the_books(compounded, staker, staker, amount, shares == 0);
            }
        }
    }
}

proof fn lemma_stake_for(state: State, delegate: Address, user: Address, amount: i128)
    requires
        state.balanced(),
    ensures
        state.stake_for(delegate, user, amount) matches Ok((next, _)) ==> next.balanced(),
{
    let shares = state.account(user).shares;
    settling_keeps_the_books(state, user);
    if let Ok(settled) = state.accrue(user, shares) {
        if amount > 0 {
            crediting_keeps_the_books(settled, delegate, user, amount, shares == 0);
        }
    }
}

/// An unstake keeps the books balanced.
pub proof fn unstaking_keeps_the_books(state: State, staker: Address, shares: i128)
    requires
        state.balanced(),
        state.within_limits(),
    ensures
        state.unstake(staker, shares) matches Ok((next, _)) ==> next.balanced(),
{
    let held = state.account(staker).shares;
    settling_keeps_the_books(state, staker);
    if let Ok(settled) = state.accrue(staker, held) {
        compounding_keeps_the_books(settled, staker);
        if let Ok(compounded) = settled.compound(staker) {
            if 0 < shares <= held {
                lemma_debit(compounded, staker, shares);
            }
        }
    }
}

proof fn lemma_request(state: State, user: Address, amount: i128)
    requires
        state.balanced(),
    ensures
        state.request_unstake(user, amount) matches Ok(next) ==> next.balanced(),
{
    let shares = state.account(user).shares;
    nobody_holds_more_than_all(state, user);
    settling_keeps_the_books(state, user);
    if let Some(position) = state.worth(shares) {
        let wanted = crate::math::smaller(amount as int, position as int) as i128;
        if amount > 0 && position > 0 {
            shares_for_an_amount(state, user, wanted);
            let burned = state.shares_for(shares, wanted);
            lemma_worth(state.pool.total_shares, state.pool.total_deposited, burned);
            if let (Ok(settled), Some(removed)) = (
                state.accrue(user, shares),
                state.worth(burned),
            ) {
                lemma_take_out(settled, user, burned, removed);
                if let Ok(taken) = settled.take_out(user, burned, removed) {
                    nobody_holds_more_than_all(taken, user);
                    if let Ok(next) = taken.unbond(user, removed) {
                        lemma_same_entry(taken, next, user);
                    }
                }
            }
        }
    }
}

pub(crate) proof fn lemma_claim_inner(state: State, user: Address)
    requires
        state.balanced(),
    ensures
        state.claim_inner(user) matches Ok((next, _)) ==> next.balanced(),
{
    settling_keeps_the_books(state, user);
    if let Ok(settled) = state.accrue(user, state.account(user).shares) {
        nobody_holds_more_than_all(settled, user);
        let reward = settled.payable(user, settled.account(user).accrued);
        assert(0 <= reward <= settled.account(user).accrued);
        if let Ok((next, _)) = state.claim_inner(user) {
            assert(next.accounts =~= settled.accounts.insert(user, next.account(user)));
            lemma_same_entry(settled, next, user);
        }
    }
}

proof fn lemma_stake_and_claim(state: State, user: Address, amount: i128, balance: i128)
    requires
        state.balanced(),
    ensures
        state.stake_and_claim(user, amount, balance) matches Ok((next, _)) ==> next.balanced(),
{
    lemma_claim_inner(state, user);
    if let Ok((claimed, reward)) = state.claim_inner(user) {
        if reward == 0 {
            staking_keeps_the_books(claimed, user, amount);
        } else if let Ok(watched) = claimed.check_auto_pause(balance) {
            assert(watched.accounts == claimed.accounts);
            assert(watched.balanced());
            staking_keeps_the_books(watched, user, amount);
        }
    }
}

proof fn lemma_epoch_claim(state: State, user: Address)
    requires
        state.balanced(),
    ensures
        state.claim_epoch_rewards(user) matches Ok((next, _)) ==> next.balanced(),
{
    nobody_holds_more_than_all(state, user);
    if let Ok((next, reward)) = state.claim_epoch_rewards(user) {
        if reward != 0 {
            assert(next.accounts =~= state.accounts.insert(user, next.account(user)));
            lemma_same_entry(state, next, user);
        }
    }
}

/// Two accounts change, and their shares together stay the same.
proof fn lemma_two_entries(before: State, after: State, from: Address, to: Address)
    requires
        before.balanced(),
        from != to,
        after.accounts == before.accounts.insert(to, after.account(to)).insert(
            from,
            after.account(from),
        ),
        after.account(to).in_order(),
        after.account(from).in_order(),
        after.account(to).shares + after.account(from).shares == before.account(to).shares
            + before.account(from).shares,
        after.pool == before.pool,
        after.settings == before.settings,
    ensures
        after.balanced(),
{
    let receiver = after.account(to);
    nobody_holds_more_than_all(before, to);
    lemma_sum_insert(before.accounts, to, receiver);
    lemma_sum_insert(before.accounts.insert(to, receiver), from, after.account(from));
    assert forall|u: Address| #[trigger] after.accounts.contains_key(u) implies
        after.accounts[u].in_order() by {
        if u != from && u != to {
            assert(before.accounts.contains_key(u));
        }
    }
}

proof fn lemma_transfer(state: State, from: Address, to: Address)
    requires
        state.balanced(),
    ensures
        state.transfer_position(from, to) matches Ok(next) ==> next.balanced(),
{
    let shares = state.account(from).shares;
    settling_keeps_the_books(state, from);
    nobody_holds_more_than_all(state, from);
    nobody_holds_more_than_all(state, to);
    if let Ok(next) = state.transfer_position(from, to) {
        if let Ok(settled) = state.accrue(from, shares) {
            nobody_holds_more_than_all(settled, from);
            nobody_holds_more_than_all(settled, to);
            lemma_two_entries(settled, next, from, to);
        }
    }
}

proof fn lemma_transfer_with_rewards(state: State, from: Address, to: Address)
    requires
        state.balanced(),
    ensures
        state.transfer_position_with_rewards(from, to) matches Ok(next) ==> next.balanced(),
{
    nobody_holds_more_than_all(state, from);
    nobody_holds_more_than_all(state, to);
    if let Ok(next) = state.transfer_position_with_rewards(from, to) {
        lemma_two_entries(state, next, from, to);
    }
}

proof fn lemma_merge(state: State, user: Address)
    requires
        state.balanced(),
    ensures
        state.merge_positions(user) matches Ok(next) ==> next.balanced(),
{
    settling_keeps_the_books(state, user);
    if let Ok(next) = state.merge_positions(user) {
        if let Ok(settled) = state.accrue(user, state.account(user).shares) {
            nobody_holds_more_than_all(settled, user);
            lemma_same_entry(settled, next, user);
        }
    }
}

proof fn lemma_slash(state: State, admin_addr: Address, user: Address, amount: i128)
    requires
        state.balanced(),
    ensures
        state.slash(admin_addr, user, amount) matches Ok((next, _)) ==> next.balanced(),
{
    let shares = state.account(user).shares;
    nobody_holds_more_than_all(state, user);
    lemma_worth(state.pool.total_shares, state.pool.total_deposited, shares);
    if let Some(position) = state.worth(shares) {
        if amount > 0 {
            let actual = crate::math::smaller(amount as int, position as int) as i128;
            shares_for_an_amount(state, user, actual);
            lemma_take_out(state, user, state.shares_for(shares, actual), actual);
            if let Ok(taken) = state.take_out(user, state.shares_for(shares, actual), actual) {
                nobody_holds_more_than_all(taken, user);
                lemma_same_entry(taken, taken.forfeited(user), user);
            }
        }
    }
}

proof fn lemma_carry_on(state: State, active: Seq<Address>, last: u32, wave: u32)
    requires
        state.balanced(),
    ensures
        state.carry_on(active, last, wave) matches Ok(next) ==> next.balanced(),
    decreases active.len(),
{
    if active.len() > 0 {
        lemma_carry_on(state, active.drop_last(), last, wave);
        if let Ok(before) = state.carry_on(active.drop_last(), last, wave) {
            nobody_holds_more_than_all(before, active.last());
            if let Ok(next) = state.carry_on(active, last, wave) {
                lemma_same_entry(before, next, active.last());
            }
        }
    }
}

proof fn lemma_wave(state: State, wave: u32, active: Seq<Address>)
    requires
        state.balanced(),
    ensures
        state.record_wave_activity(wave, active) matches Ok(next) ==> next.balanced(),
{
    let lapsed = state.lapse(active);
    assert(lapsed.accounts.dom() =~= state.accounts.dom());
    assert forall|u: Address| #[trigger] state.accounts.contains_key(u) implies
        state.accounts[u].shares == lapsed.accounts[u].shares by {
        assert(lapsed.accounts.contains_key(u));
    }
    lemma_sum_same(state.accounts, lapsed.accounts);
    assert forall|u: Address| #[trigger] lapsed.accounts.contains_key(u) implies
        lapsed.accounts[u].in_order() by {
        assert(state.accounts.contains_key(u));
    }
    lemma_carry_on(lapsed, active, state.last_wave(), wave);
}

proof fn lemma_stake_step(state: State, staker: Address, amount: i128)
    requires
        state.balanced(),
    ensures
        state.user_step(UserCall::Stake { staker, amount }) matches Ok(next) ==> next.balanced(),
{
    reveal(State::user_step);
    staking_keeps_the_books(state, staker, amount);
}

proof fn lemma_stake_for_step(state: State, delegate: Address, beneficiary: Address, amount: i128)
    requires
        state.balanced(),
    ensures
        state.user_step(UserCall::StakeFor { delegate, beneficiary, amount }) matches Ok(next)
            ==> next.balanced(),
{
    reveal(State::user_step);
    lemma_stake_for(state, delegate, beneficiary, amount);
}

proof fn lemma_stake_and_claim_step(state: State, user: Address, amount: i128, reward_balance: i128)
    requires
        state.balanced(),
    ensures
        state.user_step(UserCall::StakeAndClaim { user, amount, reward_balance }) matches Ok(next)
            ==> next.balanced(),
{
    reveal(State::user_step);
    lemma_stake_and_claim(state, user, amount, reward_balance);
}

proof fn lemma_unstake_step(state: State, staker: Address, shares: i128)
    requires
        state.balanced(),
        state.within_limits(),
    ensures
        state.user_step(UserCall::Unstake { staker, shares }) matches Ok(next) ==> next.balanced(),
{
    reveal(State::user_step);
    unstaking_keeps_the_books(state, staker, shares);
}

proof fn lemma_unstake_all_step(state: State, user: Address)
    requires
        state.balanced(),
        state.within_limits(),
    ensures
        state.user_step(UserCall::UnstakeAll { user }) matches Ok(next) ==> next.balanced(),
{
    reveal(State::user_step);
    let held = state.account(user).shares;
    settling_keeps_the_books(state, user);
    if let Ok(settled) = state.accrue(user, held) {
        compounding_keeps_the_books(settled, user);
        if let Ok(compounded) = settled.compound(user) {
            let all = compounded.account(user).shares;
            if 0 < all {
                lemma_debit(compounded, user, all);
            }
        }
    }
}

proof fn lemma_request_unstake_step(state: State, user: Address, amount: i128)
    requires
        state.balanced(),
    ensures
        state.user_step(UserCall::RequestUnstake { user, amount }) matches Ok(next)
            ==> next.balanced(),
{
    reveal(State::user_step);
    lemma_request(state, user, amount);
}

proof fn lemma_claim_step(state: State, staker: Address)
    requires
        state.balanced(),
    ensures
        state.user_step(UserCall::Claim { staker }) matches Ok(next) ==> next.balanced(),
{
    reveal(State::user_step);
    lemma_claim_inner(state, staker);
}

proof fn lemma_claim_epoch_rewards_step(state: State, user: Address)
    requires
        state.balanced(),
    ensures
        state.user_step(UserCall::ClaimEpochRewards { user }) matches Ok(next) ==> next.balanced(),
{
    reveal(State::user_step);
    lemma_epoch_claim(state, user);
}

proof fn lemma_transfer_position_step(state: State, from: Address, to: Address)
    requires
        state.balanced(),
    ensures
        state.user_step(UserCall::TransferPosition { from, to }) matches Ok(next)
            ==> next.balanced(),
{
    reveal(State::user_step);
    lemma_transfer(state, from, to);
}

proof fn lemma_transfer_position_with_rewards_step(state: State, from: Address, to: Address)
    requires
        state.balanced(),
    ensures
        state.user_step(UserCall::TransferPositionWithRewards { from, to }) matches Ok(next)
            ==> next.balanced(),
{
    reveal(State::user_step);
    lemma_transfer_with_rewards(state, from, to);
}

proof fn lemma_merge_positions_step(state: State, user: Address)
    requires
        state.balanced(),
    ensures
        state.user_step(UserCall::MergePositions { user }) matches Ok(next) ==> next.balanced(),
{
    reveal(State::user_step);
    lemma_merge(state, user);
}

proof fn lemma_owner(state: State, call: OwnerCall)
    requires
        state.balanced(),
    ensures
        state.owner_step(call) matches Ok(next) ==> next.balanced(),
{
    reveal(State::owner_step);
    if let Ok(next) = state.owner_step(call) {
        if let Some(user) = crate::laws::consent::owner(call) {
            nobody_holds_more_than_all(state, user);
            lemma_same_entry(state, next, user);
        }
    }
}

proof fn lemma_manage(state: State, call: ManageCall)
    requires
        state.balanced(),
    ensures
        state.manage_step(call) matches Ok(next) ==> next.balanced(),
{
    reveal(State::manage_step);
    match call {
        ManageCall::Slash { admin_addr, user, amount } => {
            lemma_slash(state, admin_addr, user, amount);
        },
        ManageCall::RecordWaveActivity { wave_id, active_users } => {
            lemma_wave(state, wave_id, active_users);
        },
        _ => {},
    }
}

/// The user about whom the admin stores something.
spec fn marked(call: MarkCall) -> Address {
    match call {
        MarkCall::FlagFrozen { user } => user,
        MarkCall::Unfreeze { user } => user,
        MarkCall::AddToWhitelist { user } => user,
        MarkCall::RemoveFromWhitelist { user } => user,
        MarkCall::SetKycStatus { user, .. } => user,
        MarkCall::ScheduleVesting { user, .. } => user,
    }
}

proof fn lemma_mark(state: State, call: MarkCall)
    requires
        state.balanced(),
    ensures
        state.mark_step(call) matches Ok(next) ==> next.balanced(),
{
    reveal(State::mark_step);
    nobody_holds_more_than_all(state, marked(call));
    if let Ok(next) = state.mark_step(call) {
        lemma_same_entry(state, next, marked(call));
    }
}

proof fn lemma_admin(state: State, call: AdminCall)
    requires
        state.balanced(),
    ensures
        state.admin_step(call) matches Ok(next) ==> {
            &&& next.accounts == state.accounts
            &&& next.pool.total_shares == state.pool.total_shares
            &&& next.pool.total_deposited >= 0
            &&& next.pool.reward_pool_balance >= 0
        },
{
    reveal(State::admin_step);
}

proof fn lemma_plan(state: State, call: PlanCall)
    ensures
        state.plan_step(call) matches Ok(next) ==> {
            &&& next.accounts == state.accounts
            &&& next.pool == state.pool
        },
{
    reveal(State::plan_step);
}

proof fn lemma_setting(state: State, call: SettingCall)
    ensures
        state.setting_step(call) matches Ok(next) ==> {
            &&& next.accounts == state.accounts
            &&& next.pool == state.pool
        },
{
    reveal(State::setting_step);
}

/// The books of a fresh pool balance.
pub proof fn books_balance_at_first(contract: Address, sequence: u32)
    ensures
        State::blank(contract, sequence).balanced(),
{
}

/// Every call keeps the books balanced: the shares of all users together are all shares, and no
/// balance becomes negative.
pub proof fn books_stay_balanced(state: State, call: Call)
    requires
        state.balanced(),
        state.within_limits(),
    ensures
        state.step(call) matches Ok(next) ==> next.balanced(),
{
    crate::laws::limits::limits_are_kept(state, call);
    match call {
        Call::User(call) => lemma_user(state, call),
        Call::Owner(call) => lemma_owner(state, call),
        Call::Manage(call) => lemma_manage(state, call),
        Call::Mark(call) => lemma_mark(state, call),
        Call::Admin(call) => lemma_admin(state, call),
        Call::Plan(call) => lemma_plan(state, call),
        Call::Setting(call) => lemma_setting(state, call),
    }
}

proof fn lemma_user(state: State, call: UserCall)
    requires
        state.balanced(),
        state.within_limits(),
    ensures
        state.user_step(call) matches Ok(next) ==> next.balanced(),
{
    match call {
        UserCall::Stake { staker, amount } => {
            lemma_stake_step(state, staker, amount);
        },
        UserCall::StakeFor { delegate, beneficiary, amount } => {
            lemma_stake_for_step(state, delegate, beneficiary, amount);
        },
        UserCall::StakeAndClaim { user, amount, reward_balance } => {
            lemma_stake_and_claim_step(state, user, amount, reward_balance);
        },
        UserCall::Unstake { staker, shares } => {
            lemma_unstake_step(state, staker, shares);
        },
        UserCall::UnstakeAll { user } => {
            lemma_unstake_all_step(state, user);
        },
        UserCall::RequestUnstake { user, amount } => {
            lemma_request_unstake_step(state, user, amount);
        },
        UserCall::Claim { staker } => {
            lemma_claim_step(state, staker);
        },
        UserCall::ClaimEpochRewards { user } => {
            lemma_claim_epoch_rewards_step(state, user);
        },
        UserCall::TransferPosition { from, to } => {
            lemma_transfer_position_step(state, from, to);
        },
        UserCall::TransferPositionWithRewards { from, to } => {
            lemma_transfer_position_with_rewards_step(state, from, to);
        },
        UserCall::MergePositions { user } => {
            lemma_merge_positions_step(state, user);
        },
    }
}

} // verus!
