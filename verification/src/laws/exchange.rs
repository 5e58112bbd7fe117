//! Shares against tokens: what rounding can cost, and whom.
use crate::address::Address;
use crate::env::State;
use vstd::prelude::*;

verus! {

impl State {
    /// A share is worth no less than it was before. (Where there were no shares, there was
    /// nothing to be worth less.)
    pub open spec fn price_kept(self, before: State) -> bool {
        before.pool.total_shares == 0 || before.pool.total_deposited * self.pool.total_shares
            <= self.pool.total_deposited * before.pool.total_shares
    }
}

/// The quotient of a smaller fraction is not larger.
proof fn lemma_quotients(x: int, p: int, y: int, q: int)
    requires
        p > 0,
        q > 0,
        x * q <= y * p,
    ensures
        x / p <= y / q,
{
    let a = x / p;
    assert(a * p <= x) by (nonlinear_arith)
        requires
            p > 0,
            a == x / p,
    ;
    assert(a * q <= y) by (nonlinear_arith)
        requires
            a * p <= x,
            x * q <= y * p,
            p > 0,
            q > 0,
    ;
    assert(a <= y / q) by (nonlinear_arith)
        requires
            a * q <= y,
            q > 0,
    ;
}

/// A share of a pool whose price was kept is worth no less, in whole tokens too.
pub proof fn kept_price_keeps_worth(before: State, after: State, shares: i128)
    requires
        after.price_kept(before),
        before.pool.total_shares > 0,
        after.pool.total_shares > 0,
        before.pool.total_deposited >= 0,
        after.pool.total_deposited >= 0,
        shares >= 0,
    ensures
        (before.worth(shares), after.worth(shares)) matches (Some(old_worth), Some(new_worth))
            ==> old_worth <= new_worth,
{
    let (h, t, d) = (
        shares as int,
        before.pool.total_shares as int,
        before.pool.total_deposited as int,
    );
    let (u, e) = (after.pool.total_shares as int, after.pool.total_deposited as int);
    assert((h * d) * u <= (h * e) * t) by (nonlinear_arith)
        requires
            d * u <= e * t,
            h >= 0,
    ;
    assert(h * d >= 0) by (nonlinear_arith)
        requires
            h >= 0,
            d >= 0,
    ;
    assert(h * e >= 0) by (nonlinear_arith)
        requires
            h >= 0,
            e >= 0,
    ;
    lemma_quotients(h * d, t, h * e, u);
}

/// Shares that are minted for `amount` keep the price.
proof fn lemma_mint(t: int, d: int, amount: int, shares: int)
    requires
        t > 0,
        d >= 0,
        amount >= 0,
        d == 0 || shares == (amount * t) / d,
    ensures
        d * (t + shares) <= (d + amount) * t,
        d > 0 ==> shares * (d + amount) <= amount * (t + shares),
{
    if d > 0 {
        assert(shares * d <= amount * t) by (nonlinear_arith)
            requires
                d > 0,
                shares == (amount * t) / d,
        ;
        assert(d * (t + shares) <= (d + amount) * t) by (nonlinear_arith)
            requires
                shares * d <= amount * t,
        ;
        assert(shares * (d + amount) <= amount * (t + shares)) by (nonlinear_arith)
            requires
                shares * d <= amount * t,
        ;
    } else {
        assert(0 * (t + shares) <= amount * t) by (nonlinear_arith)
            requires
                amount >= 0,
                t > 0,
        ;
    }
}

/// What is paid for burned shares keeps the price, as long as it is not more than their worth.
proof fn lemma_burn(t: int, d: int, shares: int, out: int)
    requires
        t > 0,
        d >= 0,
        shares >= 0,
        out <= (shares * d) / t,
    ensures
        d * (t - shares) <= (d - out) * t,
{
    assert(out * t <= shares * d) by (nonlinear_arith)
        requires
            t > 0,
            out <= (shares * d) / t,
    ;
    assert(d * (t - shares) <= (d - out) * t) by (nonlinear_arith)
        requires
            out * t <= shares * d,
    ;
}

/// The first stake into an empty pool gets one share for each token.
pub proof fn first_stake_is_one_for_one(state: State, amount: i128)
    requires
        state.pool.total_shares == 0 || state.pool.total_deposited == 0,
    ensures
        state.minted(amount) == Some(amount),
{
}

/// The shares that `amount` buys are worth no more than `amount`: rounding is in favour of those
/// who are in the pool already. An empty pool with tokens left in it is no such pool.
pub proof fn shares_are_worth_what_they_cost(
    total_shares: i128,
    total_deposited: i128,
    amount: i128,
)
    requires
        total_shares >= 0,
        total_deposited >= 0,
        amount > 0,
        total_shares > 0 || total_deposited == 0,
    ensures
        crate::balance::minted(total_shares, total_deposited, amount) matches Some(shares) ==> {
            let after = crate::math::scaled(
                shares as int,
                total_deposited + amount,
                total_shares + shares,
            );
            after matches Some(worth) ==> worth <= amount
        },
{
    let (t, d, a) = (total_shares as int, total_deposited as int, amount as int);
    if let Some(minted) = crate::balance::minted(total_shares, total_deposited, amount) {
        let s = minted as int;
        if t > 0 && d > 0 {
            assert(a * t >= 0) by (nonlinear_arith)
                requires
                    a > 0,
                    t > 0,
            ;
            assert(s >= 0) by (nonlinear_arith)
                requires
                    s == (a * t) / d,
                    a * t >= 0,
                    d > 0,
            ;
            lemma_mint(t, d, a, s);
        } else {
            assert(a * (d + a) <= a * (t + a)) by (nonlinear_arith)
                requires
                    d == 0,
                    t >= 0,
                    a > 0,
            ;
        }
        let (x, y) = (s * (d + a), t + s);
        assert(x <= a * y);
        assert(x >= 0) by (nonlinear_arith)
            requires
                x == s * (d + a),
                s >= 0,
                d + a >= 0,
        ;
        if y > 0 {
            assert(x / y <= a) by (nonlinear_arith)
                requires
                    x <= a * y,
                    y > 0,
            ;
        }
    }
}

proof fn lemma_compound(state: State, user: Address)
    requires
        state.balanced(),
    ensures
        state.compound(user) matches Ok(next) ==> next.price_kept(state) && (
        state.pool.total_shares == 0 ==> state.pool.total_deposited == 0
            ==> next.pool.total_shares == next.pool.total_deposited),
{
    crate::laws::books::nobody_holds_more_than_all(state, user);
    let account = state.account(user);
    if let Ok(next) = state.compound(user) {
        if account.auto_restake && account.accrued > 0 && state.pool.total_shares > 0 {
            let (t, d, a) = (
                state.pool.total_shares as int,
                state.pool.total_deposited as int,
                account.accrued as int,
            );
            assert(a * t >= 0) by (nonlinear_arith)
                requires
                    a >= 0,
                    t >= 0,
            ;
            lemma_mint(t, d, a, next.pool.total_shares - t);
        }
    }
}

proof fn lemma_credit(state: State, payer: Address, user: Address, amount: i128, fresh: bool)
    requires
        state.balanced(),
        amount > 0,
    ensures
        state.credit(payer, user, amount, fresh) matches Ok((next, minted)) ==> {
            &&& next.price_kept(state)
            &&& next.pool.total_shares == state.pool.total_shares + minted
            &&& next.pool.total_deposited == state.pool.total_deposited + amount
        },
{
    crate::laws::books::nobody_holds_more_than_all(state, user);
    if let Ok((next, minted)) = state.credit(payer, user, amount, fresh) {
        let (t, d, a) = (
            state.pool.total_shares as int,
            state.pool.total_deposited as int,
            amount as int,
        );
        if t > 0 {
            assert(a * t >= 0) by (nonlinear_arith)
                requires
                    a >= 0,
                    t >= 0,
            ;
            lemma_mint(t, d, a, minted as int);
        }
    }
}

/// `before` to `middle` to `after`.
proof fn lemma_chain(before: State, middle: State, after: State)
    requires
        middle.price_kept(before),
        after.price_kept(middle),
        before.pool.total_shares >= 0,
        before.pool.total_deposited >= 0,
        middle.pool.total_shares >= 0,
        after.pool.total_shares >= 0,
        after.pool.total_deposited >= 0,
        middle.pool.total_shares > 0 || before.pool.total_shares == 0,
    ensures
        after.price_kept(before),
{
    let (t, d) = (before.pool.total_shares as int, before.pool.total_deposited as int);
    let (u, e) = (middle.pool.total_shares as int, middle.pool.total_deposited as int);
    let (v, f) = (after.pool.total_shares as int, after.pool.total_deposited as int);
    if t > 0 {
        assert((d * u) * v <= (e * t) * v) by (nonlinear_arith)
            requires
                d * u <= e * t,
                v >= 0,
        ;
        assert((e * v) * t <= (f * u) * t) by (nonlinear_arith)
            requires
                e * v <= f * u,
                t >= 0,
        ;
        assert((d * v) * u == (d * u) * v) by (nonlinear_arith);
        assert((e * t) * v == (e * v) * t) by (nonlinear_arith);
        assert((f * u) * t == (f * t) * u) by (nonlinear_arith);
        assert(d * v <= f * t) by (nonlinear_arith)
            requires
                (d * v) * u <= (f * t) * u,
                u > 0,
        ;
    }
}

/// A stake takes nothing from those who are in the pool: the worth of a share does not fall.
pub proof fn a_stake_costs_nobody_else(state: State, staker: Address, amount: i128)
    requires
        state.balanced(),
    ensures
        state.stake_inner(staker, amount) matches Ok((next, _)) ==> next.price_kept(state),
{
    let shares = state.account(staker).shares;
    crate::laws::books::settling_keeps_the_books(state, staker);
    crate::laws::books::nobody_holds_more_than_all(state, staker);
    if let Ok((next, _)) = state.stake_inner(staker, amount) {
        if let Ok(settled) = state.accrue(staker, shares) {
            crate::laws::books::compounding_keeps_the_books(settled, staker);
            lemma_compound(settled, staker);
            if let Ok(compounded) = settled.compound(staker) {
                crate::laws::books::nobody_holds_more_than_all(compounded, staker);
                lemma_credit(compounded, staker, staker, amount, shares == 0);
                crate::laws::books::crediting_keeps_the_books(
                    compounded,
                    staker,
                    staker,
                    amount,
                    shares == 0,
                );
                if let Ok((credited, _)) = compounded.credit(staker, staker, amount, shares == 0) {
                    crate::laws::books::nobody_holds_more_than_all(credited, staker);
                    lemma_chain(settled, compounded, credited);
                }
            }
        }
    }
}

/// So does a stake of a delegate.
pub proof fn a_stake_for_another_costs_nobody_else(
    state: State,
    delegate: Address,
    beneficiary: Address,
    amount: i128,
)
    requires
        state.balanced(),
    ensures
        state.stake_for(delegate, beneficiary, amount) matches Ok((next, _)) ==> next.price_kept(
            state,
        ),
{
    let shares = state.account(beneficiary).shares;
    crate::laws::books::settling_keeps_the_books(state, beneficiary);
    if let Ok((next, _)) = state.stake_for(delegate, beneficiary, amount) {
        if let Ok(settled) = state.accrue(beneficiary, shares) {
            lemma_credit(settled, delegate, beneficiary, amount, shares == 0);
        }
    }
}

/// The parts into which an amount falls that a user takes out: the penalty, which stays in the
/// pool, is 20% at most; the fee, which goes to the reward pool, is 5% of the rest at most; and
/// the user gets what is left.
pub proof fn a_payout_adds_up(state: State, user: Address, amount: i128)
    requires
        state.within_limits(),
        amount >= 0,
    ensures
        state.payout(user, amount) matches Some((returned, fee)) ==> {
            let penalty = amount - returned - fee;
            &&& returned >= 0
            &&& fee >= 0
            &&& penalty >= 0
            &&& penalty * 10_000 <= amount * 2_000
            &&& fee * 10_000 <= (amount - penalty) * 500
            &&& Some(penalty as i128) == crate::unstaking::cut(amount, state.penalty_bps(user))
        },
{
    let (a, b) = (amount as int, state.penalty_bps(user) as int);
    assert(0 <= a * b <= a * 2_000) by (nonlinear_arith)
        requires
            a >= 0,
            0 <= b <= 2_000,
    ;
    if let Some(penalty) = crate::unstaking::cut(amount, state.penalty_bps(user)) {
        let (r, f) = (a - penalty, state.settings.unstake_fee_bps as int);
        assert(0 <= r * f <= r * 500) by (nonlinear_arith)
            requires
                r >= 0,
                0 <= f <= 500,
        ;
    }
}

/// A user who owes neither penalty nor fee gets all that they take out.
pub proof fn a_free_payout_is_whole(state: State, user: Address, amount: i128)
    requires
        state.penalty_bps(user) == 0,
        state.settings.unstake_fee_bps == 0,
    ensures
        state.payout(user, amount) == Some((amount, 0i128)),
{
    assert(amount * 0 == 0);
}

proof fn lemma_debit(state: State, user: Address, shares: i128)
    requires
        state.balanced(),
        state.within_limits(),
        0 < shares <= state.account(user).shares,
    ensures
        state.debit(user, shares) matches Ok((next, returned)) ==> {
            &&& next.price_kept(state)
            &&& state.worth(shares) matches Some(worth) && 0 <= returned <= worth
        },
{
    crate::laws::books::nobody_holds_more_than_all(state, user);
    if let Ok((next, returned)) = state.debit(user, shares) {
        let amount = state.worth(shares)->Some_0;
        let (t, d, s) = (
            state.pool.total_shares as int,
            state.pool.total_deposited as int,
            shares as int,
        );
        assert(s * d >= 0) by (nonlinear_arith)
            requires
                s >= 0,
                d >= 0,
        ;
        assert(amount >= 0) by (nonlinear_arith)
            requires
                amount == (s * d) / t,
                s * d >= 0,
                t > 0,
        ;
        a_payout_adds_up(state, user, amount);
        let fee = state.payout(user, amount)->Some_0.1;
        lemma_burn(t, d, s, returned + fee);
        assert(next.pool.total_shares == t - s);
        assert(next.pool.total_deposited == d - (returned + fee));
    }
}

/// An unstake takes nothing from those who stay: the worth of a share does not fall.
pub proof fn an_unstake_costs_nobody_else(state: State, staker: Address, shares: i128)
    requires
        state.balanced(),
        state.within_limits(),
    ensures
        state.unstake(staker, shares) matches Ok((next, _)) ==> next.price_kept(state),
{
    let held = state.account(staker).shares;
    crate::laws::books::settling_keeps_the_books(state, staker);
    crate::laws::books::nobody_holds_more_than_all(state, staker);
    if let Ok((next, _)) = state.unstake(staker, shares) {
        if let Ok(settled) = state.accrue(staker, held) {
            crate::laws::books::compounding_keeps_the_books(settled, staker);
            lemma_compound(settled, staker);
            if let Ok(compounded) = settled.compound(staker) {
                crate::laws::books::nobody_holds_more_than_all(compounded, staker);
                lemma_debit(compounded, staker, shares);
                crate::laws::books::unstaking_keeps_the_books(state, staker, shares);
                crate::laws::books::nobody_holds_more_than_all(next, staker);
                lemma_chain(settled, compounded, next);
            }
        }
    }
}

/// So does a request to unstake.
pub proof fn a_request_costs_nobody_else(state: State, user: Address, amount: i128)
    requires
        state.balanced(),
    ensures
        state.request_unstake(user, amount) matches Ok(next) ==> next.price_kept(state),
{
    let shares = state.account(user).shares;
    crate::laws::books::nobody_holds_more_than_all(state, user);
    if let Ok(next) = state.request_unstake(user, amount) {
        let position = state.worth(shares)->Some_0;
        let wanted = crate::math::smaller(amount as int, position as int) as i128;
        let burned = state.shares_for(shares, wanted);
        let removed = state.worth(burned)->Some_0;
        let (t, d, b) = (
            state.pool.total_shares as int,
            state.pool.total_deposited as int,
            burned as int,
        );
        crate::laws::books::shares_for_an_amount(state, user, wanted);
        assert(b * d >= 0) by (nonlinear_arith)
            requires
                b >= 0,
                d >= 0,
        ;
        lemma_burn(t, d, b, removed as int);
        assert(next.pool.total_shares == t - b);
        assert(next.pool.total_deposited == d - removed);
    }
}

/// An unstake that owes neither penalty nor fee pays what `preview_redeem` says, for a user
/// whose rewards are not compounded.
pub proof fn an_unstake_pays_what_was_previewed(state: State, staker: Address, shares: i128)
    requires
        state.penalty_bps(staker) == 0,
        state.settings.unstake_fee_bps == 0,
        !state.account(staker).auto_restake,
    ensures
        state.unstake(staker, shares) matches Ok((_, returned)) ==> state.worth(shares) == Some(
            returned,
        ),
{
    if let Ok((next, returned)) = state.unstake(staker, shares) {
        if let Ok(settled) = state.accrue(staker, state.account(staker).shares) {
            assert(settled.compound(staker) == Ok::<State, crate::errors::VaultError>(settled));
            if let Some(amount) = settled.worth(shares) {
                a_free_payout_is_whole(settled, staker, amount);
            }
        }
    }
}

/// What a stake leaves of the staker's account.
proof fn lemma_after_stake(state: State, staker: Address, amount: i128)
    requires
        state.balanced(),
    ensures
        state.stake_inner(staker, amount) matches Ok((next, _)) ==> {
            let account = next.account(staker);
            &&& account.checkpoint == Some(state.sequence)
            &&& account.auto_restake ==> account.accrued <= 0
            &&& next.sequence == state.sequence
        },
{
}

/// Settling twice at one ledger changes nothing.
proof fn lemma_settled_already(state: State, user: Address)
    requires
        state.account(user).checkpoint == Some(state.sequence),
        state.accounts.contains_key(user),
    ensures
        state.accrue(user, state.account(user).shares) == Ok::<State, crate::errors::VaultError>(
            state,
        ),
{
    assert(state.accounts.insert(user, state.account(user)) =~= state.accounts);
    if let Ok(next) = state.accrue(user, state.account(user).shares) {
        assert(next =~= state);
    }
}

/// Nobody gains by staking and unstaking again at the same ledger. (An empty pool in which
/// tokens are left gives them to whoever stakes first.)
pub proof fn staking_and_unstaking_gains_nothing(state: State, staker: Address, amount: i128)
    requires
        state.balanced(),
        state.within_limits(),
        state.pool.total_shares > 0 || state.pool.total_deposited == 0,
    ensures
        state.stake(staker, amount) matches Ok((staked, minted)) ==> {
            staked.unstake(staker, minted) matches Ok((_, returned)) ==> returned <= amount
        },
{
    let shares = state.account(staker).shares;
    if let Ok((staked, minted)) = state.stake(staker, amount) {
        crate::laws::books::settling_keeps_the_books(state, staker);
        crate::laws::books::nobody_holds_more_than_all(state, staker);
        let settled = state.accrue(staker, shares)->Ok_0;
        crate::laws::books::compounding_keeps_the_books(settled, staker);
        lemma_compound(settled, staker);
        let compounded = settled.compound(staker)->Ok_0;
        crate::laws::books::nobody_holds_more_than_all(compounded, staker);
        lemma_credit(compounded, staker, staker, amount, shares == 0);
        lemma_after_stake(state, staker, amount);
        lemma_settled_already(staked, staker);
        if let Ok((next, returned)) = staked.unstake(staker, minted) {
            assert(staked.compound(staker) == Ok::<State, crate::errors::VaultError>(staked));
            lemma_staked_totals(state, staker, amount);
            crate::laws::books::staking_keeps_the_books(state, staker, amount);
            lemma_debit(staked, staker, minted);
            shares_are_worth_what_they_cost(
                compounded.pool.total_shares,
                compounded.pool.total_deposited,
                amount,
            );
        }
    }
}

/// The totals that a stake leaves.
proof fn lemma_staked_totals(state: State, staker: Address, amount: i128)
    requires
        state.balanced(),
    ensures
        state.stake_inner(staker, amount) matches Ok((next, minted)) ==> {
            let settled = state.accrue(staker, state.account(staker).shares)->Ok_0;
            let compounded = settled.compound(staker)->Ok_0;
            &&& next.pool.total_shares == compounded.pool.total_shares + minted
            &&& next.pool.total_deposited == compounded.pool.total_deposited + amount
            &&& compounded.minted(amount) == Some(minted)
            &&& next.settings == state.settings
            &&& next.account(staker).shares >= minted
        },
{
    let shares = state.account(staker).shares;
    crate::laws::books::settling_keeps_the_books(state, staker);
    if let Ok(settled) = state.accrue(staker, shares) {
        crate::laws::books::compounding_keeps_the_books(settled, staker);
        if let Ok(compounded) = settled.compound(staker) {
            crate::laws::books::nobody_holds_more_than_all(compounded, staker);
        }
    }
}

} // verus!
