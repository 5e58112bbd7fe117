//! When a call is owed success: with ordinary amounts nothing stands against it but what is meant
//! to.
use crate::address::Address;
use crate::env::State;
use crate::errors::VaultError;
use crate::laws::amounts::rounded_down;
use crate::rewards::Terms;
use vstd::prelude::*;

verus! {

impl State {
    /// No number of the pool and of a user is so large that it would be refused: amounts are up to
    /// 10^18, and no boost raises a rate more than a hundredfold.
    pub open spec fn ordinary(self, user: Address) -> bool {
        let account = self.account(user);
        let most: int = 1_000_000_000_000_000_000;
        &&& self.pool.total_shares <= most
        &&& self.pool.total_deposited <= most
        &&& self.pool.reward_pool_balance <= most
        &&& 0 <= self.pool.total_rewards_paid <= most
        &&& self.pool.total_stakers < u32::MAX
        &&& account.accrued <= most
        &&& 0 <= account.total_claimed <= most
        &&& account.unbonding matches Some(position) ==> 0 <= position.amount <= most
        &&& account.claim_window matches Some(window) ==> 0 <= window.claimed_in_window <= most
        &&& forall|i: int|
            0 <= i < self.boost_schedule.len() ==> (#[trigger] self.boost_schedule[i]).1
                <= 1_000_000
        &&& self.settings.campaign matches Some(c) ==> c.multiplier_bps <= 1_000_000
        &&& !account.auto_restake
    }
}

proof fn lemma_tier_bound(schedule: Seq<(u32, u32)>, elapsed: int)
    requires
        forall|i: int| 0 <= i < schedule.len() ==> (#[trigger] schedule[i]).1 <= 1_000_000,
    ensures
        0 <= crate::rewards::tiers_reached(schedule, elapsed) <= schedule.len(),
        crate::rewards::tier_multiplier(schedule, elapsed) <= 1_000_000,
    decreases schedule.len(),
{
    if schedule.len() > 0 && schedule[0].0 <= elapsed {
        let tail = schedule.skip(1);
        assert forall|i: int| 0 <= i < tail.len() implies (#[trigger] tail[i]).1 <= 1_000_000 by {
            assert(tail[i] == schedule[i + 1]);
        }
        lemma_tier_bound(tail, elapsed);
        let k = crate::rewards::tiers_reached(schedule, elapsed);
        assert(schedule[k - 1].1 <= 1_000_000);
    }
}

proof fn lemma_dust_bound(terms: Terms, start: int, end: int)
    requires
        start <= end,
        0 <= terms.shares,
        terms.rate_bps <= 10_000,
        forall|i: int|
            0 <= i < terms.schedule.len() ==> (#[trigger] terms.schedule[i]).1 <= 1_000_000,
        terms.campaign matches Some(c) ==> c.multiplier_bps <= 1_000_000,
    ensures
        0 <= terms.dust(start, end) <= terms.shares * 100_000_000 * (end - start),
    decreases end - start,
{
    let s = terms.shares as int;
    if start < end {
        lemma_dust_bound(terms, start, end - 1);
        let tier = crate::rewards::tier_multiplier(
            terms.schedule,
            end - 1 - terms.staked_at,
        ) as int;
        let campaign = crate::rewards::campaign_multiplier(terms.campaign, end - 1) as int;
        lemma_tier_bound(terms.schedule, end - 1 - terms.staked_at);
        let r = terms.rate_bps as int;
        assert(0 <= r * tier <= 10_000 * 1_000_000) by (nonlinear_arith)
            requires
                0 <= r <= 10_000,
                0 <= tier <= 1_000_000,
        ;
        let e = (r * tier) / 10_000;
        assert(0 <= e * campaign <= 1_000_000 * 1_000_000) by (nonlinear_arith)
            requires
                0 <= e <= 1_000_000,
                0 <= campaign <= 1_000_000,
        ;
        let rate = terms.rate_at(end - 1);
        assert(0 <= rate <= 100_000_000);
        assert(0 <= s * rate <= s * 100_000_000) by (nonlinear_arith)
            requires
                s >= 0,
                0 <= rate <= 100_000_000,
        ;
        let q = s * 100_000_000;
        assert(q * (end - 1 - start) + q == q * (end - start)) by (nonlinear_arith);
    } else {
        let q = s * 100_000_000;
        assert(q * (end - start) == 0) by (nonlinear_arith)
            requires
                end == start,
        ;
    }
}

proof fn lemma_settles(state: State, user: Address)
    requires
        state.balanced(),
        state.within_limits(),
        state.ordinary(user),
    ensures
        state.settled(user, state.account(user).shares) is Ok,
        state.accrue(user, state.account(user).shares) matches Ok(settled) && settled.compound(user)
            == Ok::<State, VaultError>(settled),
{
    crate::laws::books::nobody_holds_more_than_all(state, user);
    let account = state.account(user);
    if let Some(staked_at) = account.staked_at {
        let terms = state.terms(account.shares, staked_at);
        let since = state.settled_until(user);
        if since < state.sequence {
            lemma_dust_bound(terms, since as int, state.sequence as int);
            let (s, n) = (account.shares as int, state.sequence - since);
            assert(s * 100_000_000 * n <= 1_000_000_000_000_000_000 * 100_000_000 * 0x1_0000_0000)
                by (nonlinear_arith)
                requires
                    0 <= s <= 1_000_000_000_000_000_000,
                    0 <= n <= 0x1_0000_0000,
            ;
        }
    }
}

/// A stake is taken exactly where the staker authorised it, the pool is open, the staker may stake,
/// the amount is positive and keeps to minimum and cap, and there is room for a position.
pub proof fn a_stake_is_taken(state: State, staker: Address, amount: i128, worth: int)
    requires
        state.balanced(),
        state.within_limits(),
        state.ordinary(staker),
        amount <= 1_000_000_000_000_000_000,
        state.account(staker).shares > 0 ==> rounded_down(
            worth,
            state.account(staker).shares as int,
            state.pool.total_deposited as int,
            state.pool.total_shares as int,
        ),
        state.account(staker).shares == 0 ==> worth == 0,
    ensures
        state.stake(staker, amount) is Ok <==> {
            &&& state.signers.contains(staker)
            &&& may_stake(state, staker, amount, worth)
        },
{
    lemma_settles(state, staker);
    lemma_taken(state, staker, staker, amount, worth);
}

/// Nothing stands against a stake of `amount` on a position that is worth `worth`.
pub open spec fn may_stake(state: State, user: Address, amount: i128, worth: int) -> bool {
    let account = state.account(user);
    &&& !state.settings.stopped
    &&& !state.pool.paused
    &&& state.settings.whitelist_enabled ==> account.whitelisted
    &&& state.settings.kyc_required ==> account.kyc_approved
    &&& amount > 0
    &&& state.settings.token is Some
    &&& state.settings.max_positions > 0 && account.shares > 0 ==> state.settings.max_positions > 1
    &&& worth + amount >= state.settings.min_stake
    &&& state.settings.pool_cap > 0 ==> state.pool.total_deposited + amount
        <= state.settings.pool_cap
}

proof fn lemma_taken(state: State, payer: Address, user: Address, amount: i128, worth: int)
    requires
        state.balanced(),
        state.within_limits(),
        state.ordinary(user),
        amount <= 1_000_000_000_000_000_000,
        state.account(user).shares > 0 ==> rounded_down(
            worth,
            state.account(user).shares as int,
            state.pool.total_deposited as int,
            state.pool.total_shares as int,
        ),
        state.account(user).shares == 0 ==> worth == 0,
    ensures
        ({
            let shares = state.account(user).shares;
            let settled = state.accrue(user, shares)->Ok_0;
            &&& amount > 0 && state.settings.token is Some ==> (settled.credit(
                payer,
                user,
                amount,
                shares == 0,
            ) is Ok <==> state.settings.pool_cap > 0 ==> state.pool.total_deposited + amount
                <= state.settings.pool_cap)
            &&& amount > 0 ==> (state.min_stake_refusal(shares, amount) is None <==> worth + amount
                >= state.settings.min_stake)
        }),
{
    lemma_settles(state, user);
    crate::laws::books::nobody_holds_more_than_all(state, user);
    let shares = state.account(user).shares;
    let (t, d, s, a) = (
        state.pool.total_shares as int,
        state.pool.total_deposited as int,
        shares as int,
        amount as int,
    );
    let most: int = 1_000_000_000_000_000_000;
    if shares > 0 {
        assert(s * d <= most * most) by (nonlinear_arith)
            requires
                0 <= s <= most,
                0 <= d <= most,
        ;
        crate::laws::estimates::lemma_position_worth(state, user, worth);
        crate::laws::books::lemma_worth(
            state.pool.total_shares,
            state.pool.total_deposited,
            shares,
        );
    }
    if amount > 0 && t > 0 && d > 0 {
        assert(a * t <= most * most) by (nonlinear_arith)
            requires
                0 <= a <= most,
                0 <= t <= most,
        ;
        crate::laws::amounts::tokens_buy_their_shares(state, amount);
        let m = state.minted(amount)->Some_0 as int;
        assert(0 <= m <= a * t) by (nonlinear_arith)
            requires
                m * d <= a * t,
                a * t < (m + 1) * d,
                d > 0,
                a * t >= 0,
        ;
    }
}

/// A stake of a delegate is taken where the delegate authorised it and is the approved one, and the
/// beneficiary could stake.
pub proof fn a_stake_for_another_is_taken(
    state: State,
    delegate: Address,
    beneficiary: Address,
    amount: i128,
    worth: int,
)
    requires
        state.balanced(),
        state.within_limits(),
        state.ordinary(beneficiary),
        amount <= 1_000_000_000_000_000_000,
        state.account(beneficiary).shares > 0 ==> rounded_down(
            worth,
            state.account(beneficiary).shares as int,
            state.pool.total_deposited as int,
            state.pool.total_shares as int,
        ),
        state.account(beneficiary).shares == 0 ==> worth == 0,
    ensures
        state.stake_for(delegate, beneficiary, amount) is Ok <==> {
            &&& state.signers.contains(delegate)
            &&& state.account(beneficiary).delegate == Some(delegate)
            &&& may_stake(state, beneficiary, amount, worth)
        },
{
    lemma_settles(state, beneficiary);
    lemma_taken(state, delegate, beneficiary, amount, worth);
}

/// An unstake is paid exactly where the user authorised it, the pool is not paused, no cooldown is
/// set, the shares are theirs, and the withdrawal limit allows it.
pub proof fn an_unstake_is_paid(state: State, staker: Address, shares: i128)
    requires
        state.balanced(),
        state.within_limits(),
        state.ordinary(staker),
        state.settings.token is Some,
    ensures
        state.unstake(staker, shares) is Ok <==> may_unstake(state, staker, shares),
        state.unstake_all(staker) is Ok <==> may_unstake(
            state,
            staker,
            state.account(staker).shares,
        ),
{
    lemma_settles(state, staker);
    crate::laws::books::settling_keeps_the_books(state, staker);
    let settled = state.accrue(staker, state.account(staker).shares)->Ok_0;
    if may_unstake(state, staker, shares) {
        lemma_debits(settled, staker, shares);
    }
    if may_unstake(state, staker, state.account(staker).shares) {
        lemma_debits(settled, staker, state.account(staker).shares);
    }
}

/// Nothing stands against an unstake of `shares`.
pub open spec fn may_unstake(state: State, staker: Address, shares: i128) -> bool {
    &&& state.signers.contains(staker)
    &&& !state.pool.paused
    &&& state.settings.cooldown_period == 0
    &&& 0 < shares <= state.account(staker).shares
    &&& state.settings.withdrawal_limit matches Some(limit) ==> shares <= limit
}

proof fn lemma_debits(state: State, user: Address, shares: i128)
    requires
        state.balanced(),
        state.within_limits(),
        state.pool.total_shares <= 1_000_000_000_000_000_000,
        state.pool.total_deposited <= 1_000_000_000_000_000_000,
        state.pool.reward_pool_balance <= 1_000_000_000_000_000_000,
        state.settings.token is Some,
        0 < shares <= state.account(user).shares,
    ensures
        state.debit(user, shares) is Ok,
{
    crate::laws::books::nobody_holds_more_than_all(state, user);
    let (s, d) = (shares as int, state.pool.total_deposited as int);
    let most: int = 1_000_000_000_000_000_000;
    assert(s * d <= most * most) by (nonlinear_arith)
        requires
            0 <= s <= most,
            0 <= d <= most,
    ;
    crate::laws::amounts::shares_are_worth_their_part(state, shares);
    crate::laws::books::lemma_worth(state.pool.total_shares, state.pool.total_deposited, shares);
    let worth = state.worth(shares)->Some_0;
    crate::laws::amounts::penalty_and_fee_are_as_set(state, user, worth);
    crate::laws::exchange::a_payout_adds_up(state, user, worth);
}

/// A request is granted exactly where the user authorised it, the pool is not paused, the amount is
/// positive, and the user has a position that is worth something.
pub proof fn a_request_is_granted(state: State, user: Address, amount: i128, worth: int)
    requires
        state.balanced(),
        state.within_limits(),
        state.ordinary(user),
        state.settings.token is Some,
        state.account(user).shares > 0 ==> rounded_down(
            worth,
            state.account(user).shares as int,
            state.pool.total_deposited as int,
            state.pool.total_shares as int,
        ),
    ensures
        state.request_unstake(user, amount) is Ok <==> {
            &&& state.signers.contains(user)
            &&& !state.pool.paused
            &&& amount > 0
            &&& state.account(user).shares > 0
            &&& worth > 0
        },
{
    lemma_settles(state, user);
    crate::laws::books::nobody_holds_more_than_all(state, user);
    let shares = state.account(user).shares;
    let (s, d) = (shares as int, state.pool.total_deposited as int);
    let most: int = 1_000_000_000_000_000_000;
    if shares > 0 {
        assert(s * d <= most * most) by (nonlinear_arith)
            requires
                0 <= s <= most,
                0 <= d <= most,
        ;
        crate::laws::estimates::lemma_position_worth(state, user, worth);
        crate::laws::books::lemma_worth(
            state.pool.total_shares,
            state.pool.total_deposited,
            shares,
        );
        if amount > 0 && worth > 0 {
            let wanted = crate::math::smaller(amount as int, worth) as i128;
            crate::laws::books::shares_for_an_amount(state, user, wanted);
            let burned = state.shares_for(shares, wanted);
            let b = burned as int;
            assert(b * d <= most * most) by (nonlinear_arith)
                requires
                    0 <= b <= most,
                    0 <= d <= most,
            ;
            crate::laws::amounts::shares_are_worth_their_part(state, burned);
            crate::laws::books::lemma_worth(
                state.pool.total_shares,
                state.pool.total_deposited,
                burned,
            );
        }
    }
}

/// A claim goes through exactly where the user authorised it, rewards accrue by the ledger, and
/// what it would pay is there: in the reward pool, and in the vesting queue a place for it.
pub proof fn a_claim_goes_through(state: State, user: Address)
    requires
        state.balanced(),
        state.within_limits(),
        state.ordinary(user),
        state.settings.token is Some,
        state.settings.claim_cap == 0,
    ensures
        state.claim(user) is Ok <==> {
            &&& state.signers.contains(user)
            &&& !state.settings.epoch_mode
            &&& state.owed_dust(user) >= 63_072_000_000 ==> {
                &&& state.owed_dust(user) < (state.pool.reward_pool_balance + 1) * 63_072_000_000
                &&& state.settings.vesting_period > 0 ==> state.vesting_of(user).len() < 10
            }
        },
{
    lemma_settles(state, user);
    crate::laws::books::settling_keeps_the_books(state, user);
    crate::laws::rewards::a_settlement_owes_the_same(state, user);
    crate::laws::books::nobody_holds_more_than_all(state, user);
}

/// A slash is made exactly where the admin made it, of a positive amount, and the user has a
/// position that is worth something.
pub proof fn a_slash_is_made(
    state: State,
    admin_addr: Address,
    user: Address,
    amount: i128,
    worth: int,
)
    requires
        state.balanced(),
        state.ordinary(user),
        state.settings.token is Some,
        state.settings.slash_treasury is Some,
        state.account(user).shares > 0 ==> rounded_down(
            worth,
            state.account(user).shares as int,
            state.pool.total_deposited as int,
            state.pool.total_shares as int,
        ),
    ensures
        state.slash(admin_addr, user, amount) is Ok <==> {
            &&& state.settings.admin == Some(admin_addr)
            &&& state.signers.contains(admin_addr)
            &&& amount > 0
            &&& state.account(user).shares > 0
            &&& worth > 0
        },
        state.settings.admin is Some && (state.settings.admin != Some(admin_addr)
            || !state.signers.contains(admin_addr)) ==> state.slash(admin_addr, user, amount)
            == Err::<(State, i128), VaultError>(VaultError::Unauthorized),
{
    crate::laws::books::nobody_holds_more_than_all(state, user);
    let shares = state.account(user).shares;
    let (s, d) = (shares as int, state.pool.total_deposited as int);
    let most: int = 1_000_000_000_000_000_000;
    if shares > 0 {
        assert(s * d <= most * most) by (nonlinear_arith)
            requires
                0 <= s <= most,
                0 <= d <= most,
        ;
        crate::laws::estimates::lemma_position_worth(state, user, worth);
        crate::laws::books::lemma_worth(
            state.pool.total_shares,
            state.pool.total_deposited,
            shares,
        );
        if amount > 0 && worth > 0 {
            let wanted = crate::math::smaller(amount as int, worth) as i128;
            crate::laws::books::shares_for_an_amount(state, user, wanted);
        }
    }
}

/// A transfer is made exactly where the sender authorised it, the pool is not paused, the sender
/// has a position and the receiver has none; a merge where the user authorised it and has a
/// position.
pub proof fn transfers_and_merges_are_made(state: State, from: Address, to: Address)
    requires
        state.balanced(),
        state.within_limits(),
        state.ordinary(from),
    ensures
        state.transfer_position(from, to) is Ok <==> may_transfer(state, from, to),
        state.transfer_position_with_rewards(from, to) is Ok <==> may_transfer(state, from, to),
        state.merge_positions(from) is Ok <==> state.signers.contains(from) && state.account(
            from,
        ).shares > 0,
{
    lemma_settles(state, from);
    crate::laws::books::nobody_holds_more_than_all(state, from);
    crate::laws::books::nobody_holds_more_than_all(state, to);
    let shares = state.account(from).shares;
    let (s, d) = (shares as int, state.pool.total_deposited as int);
    let most: int = 1_000_000_000_000_000_000;
    if shares > 0 {
        assert(s * d <= most * most) by (nonlinear_arith)
            requires
                0 <= s <= most,
                0 <= d <= most,
        ;
        crate::laws::amounts::shares_are_worth_their_part(state, shares);
    }
}

/// Nothing stands against a transfer.
pub open spec fn may_transfer(state: State, from: Address, to: Address) -> bool {
    &&& state.signers.contains(from)
    &&& !state.pool.paused
    &&& state.account(from).shares > 0
    &&& state.account(to).shares == 0
}

/// Nothing but these stands against a stake, and the error tells which it is.
pub proof fn reasons_against_a_stake(state: State, staker: Address, amount: i128)
    requires
        state.balanced(),
    ensures
        state.stake(staker, amount) matches Err(e) ==> {
            ||| e == VaultError::Unauthorized && !state.signers.contains(staker)
            ||| refused(state, staker, amount, e)
        },
{
    crate::laws::books::nobody_holds_more_than_all(state, staker);
    crate::laws::books::lemma_worth(
        state.pool.total_shares,
        state.pool.total_deposited,
        state.account(staker).shares,
    );
}

/// Nothing but these stands against a stake for another.
pub proof fn reasons_against_a_stake_for_another(
    state: State,
    delegate: Address,
    user: Address,
    amount: i128,
)
    requires
        state.balanced(),
    ensures
        state.stake_for(delegate, user, amount) matches Err(e) ==> {
            ||| e == VaultError::Unauthorized && !state.signers.contains(delegate)
            ||| e == VaultError::NotADelegate && state.account(user).delegate != Some(delegate)
            ||| refused(state, user, amount, e)
        },
{
    crate::laws::books::nobody_holds_more_than_all(state, user);
    crate::laws::books::lemma_worth(
        state.pool.total_shares,
        state.pool.total_deposited,
        state.account(user).shares,
    );
}

/// A stake of a user is refused for a reason.
pub open spec fn refused(state: State, user: Address, amount: i128, e: VaultError) -> bool {
    let account = state.account(user);
    match e {
        VaultError::ContractStopped => state.settings.stopped,
        VaultError::VaultPaused => state.pool.paused,
        VaultError::NotWhitelisted => state.settings.whitelist_enabled && !account.whitelisted,
        VaultError::KycNotApproved => state.settings.kyc_required && !account.kyc_approved,
        VaultError::ZeroAmount => amount <= 0,
        VaultError::NotInitialized => state.settings.token is None,
        VaultError::MaxPositionsReached => state.settings.max_positions > 0 && account.shares > 0,
        VaultError::BelowMinimumStake => amount < state.settings.min_stake,
        VaultError::PoolCapReached => state.settings.pool_cap > 0 && (account.auto_restake
            || state.pool.total_deposited + amount > state.settings.pool_cap),
        VaultError::ArithmeticError => true,
        _ => false,
    }
}

/// Nothing but these stands against a request and against being paid what has unbonded.
pub proof fn reasons_against_a_request(state: State, user: Address, amount: i128)
    ensures
        state.request_unstake(user, amount) matches Err(e) ==> {
            ||| e == VaultError::Unauthorized && !state.signers.contains(user)
            ||| e == VaultError::VaultPaused && state.pool.paused
            ||| e == VaultError::ZeroAmount && amount <= 0
            ||| e == VaultError::PositionNotFound
            ||| e == VaultError::NotInitialized && state.settings.token is None
            ||| e == VaultError::ArithmeticError
        },
        state.execute_unstake(user) matches Err(e) ==> {
            ||| e == VaultError::Unauthorized && !state.signers.contains(user)
            ||| e == VaultError::VaultPaused && state.pool.paused
            ||| e == VaultError::PositionNotFound && state.account(user).unbonding is None
            ||| e == VaultError::UseCooldownFlow && state.settings.cooldown_period > 0
            ||| e == VaultError::NotInitialized && state.settings.token is None
        },
{
}

/// Under a cap a claim goes through at least where all that is owed is in the reward pool and the
/// queue has a place for it.
pub proof fn a_capped_claim_goes_through(state: State, user: Address)
    requires
        state.balanced(),
        state.within_limits(),
        state.ordinary(user),
        state.settings.token is Some,
        state.settings.claim_cap <= 1_000_000_000_000_000_000,
        state.signers.contains(user),
        !state.settings.epoch_mode,
        state.owed_dust(user) < (state.pool.reward_pool_balance + 1) * 63_072_000_000,
        state.settings.vesting_period > 0 ==> state.vesting_of(user).len() < 10,
    ensures
        state.claim(user) is Ok,
{
    lemma_settles(state, user);
    crate::laws::books::settling_keeps_the_books(state, user);
    crate::laws::rewards::a_settlement_owes_the_same(state, user);
    crate::laws::books::nobody_holds_more_than_all(state, user);
}

/// Rewards can become shares, where amounts are up to 10^12, no boost raises a rate more than a
/// hundredfold, and a share is worth a token at least.
pub proof fn rewards_can_be_restaked(state: State, user: Address)
    requires
        state.balanced(),
        state.within_limits(),
        state.pool.total_shares <= state.pool.total_deposited <= 1_000_000_000_000,
        state.account(user).accrued <= 1_000_000_000_000,
        forall|i: int|
            0 <= i < state.boost_schedule.len() ==> (#[trigger] state.boost_schedule[i]).1
                <= 1_000_000,
        state.settings.campaign matches Some(c) ==> c.multiplier_bps <= 1_000_000,
    ensures
        state.accrue(user, state.account(user).shares) matches Ok(settled) && settled.compound(user)
            is Ok,
{
    crate::laws::books::nobody_holds_more_than_all(state, user);
    let account = state.account(user);
    let most: int = 1_000_000_000_000;
    if let Some(staked_at) = account.staked_at {
        let terms = state.terms(account.shares, staked_at);
        let since = state.settled_until(user);
        if since < state.sequence {
            lemma_dust_bound(terms, since as int, state.sequence as int);
            let (s, n) = (account.shares as int, state.sequence - since);
            assert(s * 100_000_000 * n <= most * 100_000_000 * 0x1_0000_0000) by (nonlinear_arith)
                requires
                    0 <= s <= most,
                    0 <= n <= 0x1_0000_0000,
                    most == 1_000_000_000_000,
            ;
        }
    }
    let settled = state.accrue(user, account.shares)->Ok_0;
    let a = settled.account(user).accrued;
    assert(a <= 10_000_000_000_000_000_000);
    if a > 0 {
        let (t, d, x) = (
            state.pool.total_shares as int,
            state.pool.total_deposited as int,
            a as int,
        );
        assert(x * t <= 10_000_000_000_000_000_000 * most) by (nonlinear_arith)
            requires
                0 <= x <= 10_000_000_000_000_000_000,
                0 <= t <= most,
        ;
        crate::laws::amounts::tokens_buy_their_shares(settled, a);
        if t > 0 && d > 0 {
            let m = settled.minted(a)->Some_0 as int;
            assert(0 <= m <= x * t) by (nonlinear_arith)
                requires
                    m * d <= x * t,
                    x * t < (m + 1) * d,
                    d > 0,
                    x * t >= 0,
            ;
        }
    }
}

/// What is pending, and in how many ledgers a target is reached, can be told.
pub proof fn estimates_can_be_told(state: State, user: Address, target: i128)
    requires
        state.balanced(),
        state.within_limits(),
        state.ordinary(user),
        state.settings.admin is Some,
        target <= 1_000_000_000_000_000_000,
    ensures
        state.pending_reward(user) is Ok,
        state.ledgers_to_target(user, target) is Ok,
        state.days_to_target(user, target) is Ok,
{
    lemma_settles(state, user);
    crate::laws::books::nobody_holds_more_than_all(state, user);
    lemma_pending_is_not_negative(state, user);
    let shares = state.account(user).shares;
    let (s, d) = (shares as int, state.pool.total_deposited as int);
    let most: int = 1_000_000_000_000_000_000;
    let campaign = crate::rewards::campaign_multiplier(
        state.settings.campaign,
        state.sequence as int,
    );
    let tier = state.boost_multiplier(user);
    crate::rewards::boosted_rate_is_not_negative(state.settings.reward_rate_bps, tier, campaign);
    if let Some(staked_at) = state.account(user).staked_at {
        lemma_tier_bound(
            state.boost_schedule,
            crate::math::ledgers_between(staked_at, state.sequence) as int,
        );
    }
    let (r, m, c) = (state.settings.reward_rate_bps as int, tier as int, campaign as int);
    assert(0 <= r * m <= 10_000 * 1_000_000) by (nonlinear_arith)
        requires
            0 <= r <= 10_000,
            0 <= m <= 1_000_000,
    ;
    let e = (r * m) / 10_000;
    assert(0 <= e * c <= 1_000_000 * 1_000_000) by (nonlinear_arith)
        requires
            0 <= e <= 1_000_000,
            0 <= c <= 1_000_000,
    ;
    let rate = state.boosted_rate_of(user);
    assert(rate <= 100_000_000);
    if shares > 0 {
        assert(s * d <= most * most) by (nonlinear_arith)
            requires
                0 <= s <= most,
                0 <= d <= most,
        ;
        crate::laws::amounts::shares_are_worth_their_part(state, shares);
        crate::laws::books::lemma_worth(
            state.pool.total_shares,
            state.pool.total_deposited,
            shares,
        );
        let w = state.worth(shares)->Some_0 as int;
        assert(0 <= w * rate <= most * 100_000_000) by (nonlinear_arith)
            requires
                0 <= w <= most,
                0 <= rate <= 100_000_000,
        ;
    }
}

proof fn lemma_pending_is_not_negative(state: State, user: Address)
    requires
        state.balanced(),
        state.within_limits(),
        state.ordinary(user),
    ensures
        state.pending_reward(user) matches Ok(pending) && pending >= 0,
{
    crate::laws::books::nobody_holds_more_than_all(state, user);
    let account = state.account(user);
    if let Some(staked_at) = account.staked_at {
        let terms = state.terms(account.shares, staked_at);
        let since = state.settled_until(user);
        if since < state.sequence {
            lemma_dust_bound(terms, since as int, state.sequence as int);
            let (s, n) = (account.shares as int, state.sequence - since);
            assert(s * 100_000_000 * n <= 1_000_000_000_000_000_000 * 100_000_000 * 0x1_0000_0000)
                by (nonlinear_arith)
                requires
                    0 <= s <= 1_000_000_000_000_000_000,
                    0 <= n <= 0x1_0000_0000,
            ;
        }
    }
}

} // verus!
