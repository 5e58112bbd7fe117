//! What a call makes happen outside of the pool, all of it and in order; and the leaderboard, which
//! follows every position.
use crate::address::Address;
use crate::env::{Effect, State};
use crate::events::Event;
use crate::laws::amounts::rounded_down;
use vstd::prelude::*;

verus! {

/// A list with one item, or without any.
pub open spec fn only_if(holds: bool, effect: Effect) -> Seq<Effect> {
    if holds {
        seq![effect]
    } else {
        Seq::empty()
    }
}

/// What is told where rewards became shares.
pub open spec fn restaked(state: State, user: Address, reward: int) -> Seq<Effect> {
    only_if(
        reward > 0,
        Effect::Publish(
            Event::AutoRestaked { user, amount: reward as i128, ledger: state.sequence },
        ),
    )
}

/// What happens where a user without shares comes with a stake.
pub open spec fn came(state: State, user: Address, amount: i128) -> Seq<Effect> {
    let nft = state.settings.nft_contract;
    only_if(
        state.account(user).shares == 0,
        Effect::Publish(Event::PositionOpened { user, amount, ledger: state.sequence }),
    ) + only_if(
        state.account(user).shares == 0 && nft is Some,
        Effect::MintReceipt {
            nft: nft->Some_0,
            owner: user,
            vault: state.contract,
            amount,
            ledger: state.sequence,
        },
    )
}

/// What happens where a user has no shares left.
pub open spec fn went(state: State, next: State, user: Address) -> Seq<Effect> {
    only_if(
        next.account(user).shares == 0,
        Effect::Publish(Event::PositionClosed { user, ledger: state.sequence }),
    )
}

/// A stake takes the tokens and tells of them; before that it tells of rewards that became shares,
/// and of a position that is new.
pub proof fn what_a_stake_makes_happen(state: State, staker: Address, amount: i128)
    requires
        state.balanced(),
    ensures
        state.stake(staker, amount) matches Ok((next, minted)) ==> {
            let reward = next.pool.total_deposited - state.pool.total_deposited - amount;
            &&& state.settings.token matches Some(token) && next.effects == state.effects
                + restaked(state, staker, reward) + seq![
                Effect::Transfer { token, from: staker, to: state.contract, amount },
            ] + came(state, staker, amount) + seq![
                Effect::Publish(
                    Event::Deposit {
                        depositor: staker,
                        amount,
                        shares_minted: minted,
                        ledger: state.sequence,
                    },
                ),
            ]
        },
{
    if let Ok((next, minted)) = state.stake(staker, amount) {
        let shares = state.account(staker).shares;
        let token = state.settings.token->Some_0;
        crate::laws::amounts::lemma_restaked(state, staker);
        let settled = state.accrue(staker, shares)->Ok_0;
        let compounded = settled.compound(staker)->Ok_0;
        let reward = compounded.pool.total_deposited - state.pool.total_deposited;
        assert(compounded.effects =~= state.effects + restaked(state, staker, reward));
        let credited = compounded.credit(staker, staker, amount, shares == 0)->Ok_0.0;
        lemma_credit_tells(compounded, staker, staker, amount, shares == 0);
        assert(credited.effects =~= compounded.effects + seq![
            Effect::Transfer { token, from: staker, to: state.contract, amount },
        ] + came(state, staker, amount));
        assert(next.effects =~= credited.effects.push(
            Effect::Publish(
                Event::Deposit {
                    depositor: staker,
                    amount,
                    shares_minted: minted,
                    ledger: state.sequence,
                },
            ),
        ));
        assert(next.effects =~= state.effects + restaked(state, staker, reward) + seq![
            Effect::Transfer { token, from: staker, to: state.contract, amount },
        ] + came(state, staker, amount) + seq![
            Effect::Publish(
                Event::Deposit {
                    depositor: staker,
                    amount,
                    shares_minted: minted,
                    ledger: state.sequence,
                },
            ),
        ]);
    }
}

proof fn lemma_credit_tells(
    state: State,
    payer: Address,
    user: Address,
    amount: i128,
    fresh: bool,
)
    ensures
        state.credit(payer, user, amount, fresh) matches Ok((next, _)) ==> {
            let token = state.settings.token->Some_0;
            let nft = state.settings.nft_contract;
            &&& next.effects =~= state.effects + seq![
                Effect::Transfer { token, from: payer, to: state.contract, amount },
            ] + only_if(
                fresh,
                Effect::Publish(Event::PositionOpened { user, amount, ledger: state.sequence }),
            ) + only_if(
                fresh && nft is Some,
                Effect::MintReceipt {
                    nft: nft->Some_0,
                    owner: user,
                    vault: state.contract,
                    amount,
                    ledger: state.sequence,
                },
            )
            &&& next.pool.total_deposited == state.pool.total_deposited + amount
        },
{
}

/// A stake for another does the same, with the tokens of the delegate; it restakes no reward.
pub proof fn what_a_stake_for_another_makes_happen(
    state: State,
    delegate: Address,
    user: Address,
    amount: i128,
)
    ensures
        state.stake_for(delegate, user, amount) matches Ok((next, minted)) ==> {
            &&& state.settings.token matches Some(token) && next.effects == state.effects + seq![
                Effect::Transfer { token, from: delegate, to: state.contract, amount },
            ] + came(state, user, amount) + seq![
                Effect::Publish(
                    Event::Deposit {
                        depositor: user,
                        amount,
                        shares_minted: minted,
                        ledger: state.sequence,
                    },
                ),
            ]
        },
{
    if let Ok((next, minted)) = state.stake_for(delegate, user, amount) {
        let shares = state.account(user).shares;
        let token = state.settings.token->Some_0;
        let settled = state.accrue(user, shares)->Ok_0;
        lemma_credit_tells(settled, delegate, user, amount, shares == 0);
        let credited = settled.credit(delegate, user, amount, shares == 0)->Ok_0.0;
        assert(settled.effects == state.effects);
        assert(next.effects =~= credited.effects.push(
            Effect::Publish(
                Event::Deposit {
                    depositor: user,
                    amount,
                    shares_minted: minted,
                    ledger: state.sequence,
                },
            ),
        ));
        assert(next.effects =~= state.effects + seq![
            Effect::Transfer { token, from: delegate, to: state.contract, amount },
        ] + came(state, user, amount) + seq![
            Effect::Publish(
                Event::Deposit {
                    depositor: user,
                    amount,
                    shares_minted: minted,
                    ledger: state.sequence,
                },
            ),
        ]);
    }
}

/// An unstake tells of rewards that became shares, and of a position that is closed, whose receipt
/// is burned; then it pays and tells of it, and has the reserve looked at where there is a
/// threshold.
pub proof fn what_an_unstake_makes_happen(state: State, staker: Address, shares: i128)
    requires
        state.balanced(),
        state.within_limits(),
    ensures
        state.unstake(staker, shares) matches Ok((next, returned)) ==> {
            let fee = next.pool.reward_pool_balance - state.pool.reward_pool_balance;
            let reward = next.pool.total_deposited + returned + fee - state.pool.total_deposited;
            let nft = state.settings.nft_contract;
            &&& state.settings.token matches Some(token) && next.effects == state.effects
                + restaked(state, staker, reward) + went(state, next, staker) + only_if(
                next.account(staker).shares == 0 && nft is Some,
                Effect::BurnReceipt { nft: nft->Some_0, owner: staker },
            ) + seq![
                Effect::Transfer { token, from: state.contract, to: staker, amount: returned },
                Effect::Publish(
                    Event::Withdraw {
                        withdrawer: staker,
                        shares_burned: shares,
                        amount_returned: returned,
                        ledger: state.sequence,
                    },
                ),
            ] + only_if(
                state.settings.auto_pause_threshold != 0,
                Effect::CheckReserve { token },
            )
        },
{
    if let Ok((next, returned)) = state.unstake(staker, shares) {
        let held = state.account(staker).shares;
        let token = state.settings.token->Some_0;
        let nft = state.settings.nft_contract;
        crate::laws::amounts::lemma_restaked(state, staker);
        crate::laws::books::settling_keeps_the_books(state, staker);
        let settled = state.accrue(staker, held)->Ok_0;
        crate::laws::books::compounding_keeps_the_books(settled, staker);
        let compounded = settled.compound(staker)->Ok_0;
        let reward = compounded.pool.total_deposited - state.pool.total_deposited;
        assert(compounded.effects =~= state.effects + restaked(state, staker, reward));
        crate::laws::amounts::lemma_debited(compounded, staker, shares);
        lemma_debit_tells(compounded, staker, shares);
        assert(next.effects =~= state.effects + restaked(state, staker, reward) + went(
            state,
            next,
            staker,
        ) + only_if(
            next.account(staker).shares == 0 && nft is Some,
            Effect::BurnReceipt { nft: nft->Some_0, owner: staker },
        ) + seq![
            Effect::Transfer { token, from: state.contract, to: staker, amount: returned },
            Effect::Publish(
                Event::Withdraw {
                    withdrawer: staker,
                    shares_burned: shares,
                    amount_returned: returned,
                    ledger: state.sequence,
                },
            ),
        ] + only_if(
            state.settings.auto_pause_threshold != 0,
            Effect::CheckReserve { token },
        ));
    }
}

proof fn lemma_debit_tells(state: State, user: Address, shares: i128)
    ensures
        state.debit(user, shares) matches Ok((next, returned)) ==> {
            let token = state.settings.token->Some_0;
            let nft = state.settings.nft_contract;
            next.effects =~= state.effects + went(state, next, user) + only_if(
                next.account(user).shares == 0 && nft is Some,
                Effect::BurnReceipt { nft: nft->Some_0, owner: user },
            ) + seq![
                Effect::Transfer { token, from: state.contract, to: user, amount: returned },
                Effect::Publish(
                    Event::Withdraw {
                        withdrawer: user,
                        shares_burned: shares,
                        amount_returned: returned,
                        ledger: state.sequence,
                    },
                ),
            ] + only_if(
                state.settings.auto_pause_threshold != 0,
                Effect::CheckReserve { token },
            )
        },
{
}

/// A request tells of a position that is closed, and pays at once where there is no cooldown; a
/// slash pays the treasury and tells of it.
pub proof fn what_a_request_and_a_slash_make_happen(
    state: State,
    admin_addr: Address,
    user: Address,
    amount: i128,
)
    ensures
        state.request_unstake(user, amount) matches Ok(next) ==> {
            let waiting = match state.account(user).unbonding {
                Some(position) => position.amount as int,
                None => 0,
            };
            let paid = waiting + state.pool.total_deposited - next.pool.total_deposited;
            next.effects =~= state.effects + went(state, next, user) + only_if(
                state.settings.cooldown_period == 0,
                Effect::Transfer {
                    token: state.settings.token->Some_0,
                    from: state.contract,
                    to: user,
                    amount: paid as i128,
                },
            )
        },
        state.slash(admin_addr, user, amount) matches Ok((next, taken)) ==> {
            next.effects =~= state.effects + went(state, next, user) + seq![
                Effect::Transfer {
                    token: state.settings.token->Some_0,
                    from: state.contract,
                    to: state.settings.slash_treasury->Some_0,
                    amount: taken,
                },
                Effect::Publish(
                    Event::Slash { admin: admin_addr, user, amount: taken, ledger: state.sequence },
                ),
            ]
        },
{
    lemma_request_tells(state, user, amount);
    lemma_slash_tells(state, admin_addr, user, amount);
}

proof fn lemma_take_out_tells(state: State, user: Address, burned: i128, removed: i128)
    ensures
        state.take_out(user, burned, removed) matches Ok(next) ==> {
            &&& next.effects =~= state.effects + went(state, next, user)
            &&& next.pool.total_deposited == state.pool.total_deposited - removed
            &&& next.settings == state.settings
            &&& next.contract == state.contract
            &&& next.account(user).unbonding == state.account(user).unbonding
        },
{
}

proof fn lemma_request_tells(state: State, user: Address, amount: i128)
    ensures
        state.request_unstake(user, amount) matches Ok(next) ==> {
            let waiting = match state.account(user).unbonding {
                Some(position) => position.amount as int,
                None => 0,
            };
            let paid = waiting + state.pool.total_deposited - next.pool.total_deposited;
            next.effects =~= state.effects + went(state, next, user) + only_if(
                state.settings.cooldown_period == 0,
                Effect::Transfer {
                    token: state.settings.token->Some_0,
                    from: state.contract,
                    to: user,
                    amount: paid as i128,
                },
            )
        },
{
    if let Ok(next) = state.request_unstake(user, amount) {
        let shares = state.account(user).shares;
        let worth = state.worth(shares)->Some_0;
        let wanted = crate::math::smaller(amount as int, worth as int) as i128;
        let burned = state.shares_for(shares, wanted);
        let removed = state.worth(burned)->Some_0;
        let settled = state.accrue(user, shares)->Ok_0;
        lemma_take_out_tells(settled, user, burned, removed);
        let taken = settled.take_out(user, burned, removed)->Ok_0;
        assert(next.account(user).shares == taken.account(user).shares);
        assert(next.pool == taken.pool);
    }
}

proof fn lemma_slash_tells(state: State, admin_addr: Address, user: Address, amount: i128)
    ensures
        state.slash(admin_addr, user, amount) matches Ok((next, taken)) ==> {
            next.effects =~= state.effects + went(state, next, user) + seq![
                Effect::Transfer {
                    token: state.settings.token->Some_0,
                    from: state.contract,
                    to: state.settings.slash_treasury->Some_0,
                    amount: taken,
                },
                Effect::Publish(
                    Event::Slash { admin: admin_addr, user, amount: taken, ledger: state.sequence },
                ),
            ]
        },
{
    if let Ok((next, taken)) = state.slash(admin_addr, user, amount) {
        let burned = state.shares_for(state.account(user).shares, taken);
        lemma_take_out_tells(state, user, burned, taken);
        let out = state.take_out(user, burned, taken)->Ok_0;
        assert(next.account(user).shares == out.account(user).shares);
    }
}

/// Too small a reserve is told together with the pause; otherwise nothing happens.
pub proof fn what_a_check_on_the_reserve_makes_happen(state: State, balance: i128)
    requires
        state.settings.token is Some,
    ensures
        state.check_auto_pause(balance) matches Ok(next) && {
            let low = state.settings.auto_pause_threshold != 0 && balance
                < state.settings.auto_pause_threshold;
            &&& next.effects =~= state.effects + only_if(
                low,
                Effect::Publish(
                    Event::AutoPaused {
                        reward_balance: balance,
                        threshold: state.settings.auto_pause_threshold,
                        ledger: state.sequence,
                    },
                ),
            )
            &&& !low ==> next == state
        },
{
}

/// The leaderboard `after` a position became `shares` shares shows it with what they are worth
/// then, in a pool of these totals.
pub open spec fn follows_on_the_board(state: State, next: State, user: Address) -> bool {
    if state.settings.leaderboard_size == 0 {
        next.leaderboard == state.leaderboard
    } else {
        exists|amount: i128|
            {
                &&& #[trigger] crate::history::reseated(
                    state.leaderboard,
                    state.settings.leaderboard_size,
                    user,
                    amount,
                ) == next.leaderboard
                &&& next.account(user).shares == 0 ==> amount == 0
                &&& next.account(user).shares > 0 && next.account(user).shares
                    * next.pool.total_deposited <= i128::MAX ==> rounded_down(
                    amount as int,
                    next.account(user).shares as int,
                    next.pool.total_deposited as int,
                    next.pool.total_shares as int,
                )
            }
    }
}

proof fn lemma_reseated(state: State, next: State, user: Address)
    requires
        next.account(user).shares >= 0,
        next.account(user).shares > 0 ==> next.pool.total_shares > 0,
        next.pool.total_deposited >= 0,
        state.settings.leaderboard_size == 0 ==> next.leaderboard == state.leaderboard,
        state.settings.leaderboard_size > 0 ==> next.leaderboard == crate::history::reseated(
            state.leaderboard,
            state.settings.leaderboard_size,
            user,
            next.standing(next.account(user).shares),
        ),
    ensures
        follows_on_the_board(state, next, user),
{
    let shares = next.account(user).shares;
    if shares > 0 {
        crate::laws::amounts::shares_are_worth_their_part(next, shares);
    }
    if state.settings.leaderboard_size > 0 {
        assert(crate::history::reseated(
            state.leaderboard,
            state.settings.leaderboard_size,
            user,
            next.standing(shares),
        ) == next.leaderboard);
    }
}

/// The leaderboard follows every stake and unstake, every request and every slash: it shows what
/// the position has become.
pub proof fn the_leaderboard_follows(
    state: State,
    user: Address,
    other: Address,
    amount: i128,
)
    requires
        state.balanced(),
        state.within_limits(),
    ensures
        state.stake(user, amount) matches Ok((next, _)) ==> follows_on_the_board(state, next, user),
        state.stake_for(other, user, amount) matches Ok((next, _)) ==> follows_on_the_board(
            state,
            next,
            user,
        ),
        state.unstake(user, amount) matches Ok((next, _)) ==> follows_on_the_board(
            state,
            next,
            user,
        ),
        state.request_unstake(user, amount) matches Ok(next) ==> follows_on_the_board(
            state,
            next,
            user,
        ),
        state.slash(other, user, amount) matches Ok((next, _)) ==> follows_on_the_board(
            state,
            next,
            user,
        ),
{
    lemma_board_stake(state, user, amount);
    lemma_board_stake_for(state, other, user, amount);
    lemma_board_unstake(state, user, amount);
    lemma_board_request(state, user, amount);
    lemma_board_slash(state, other, user, amount);
}

proof fn lemma_board_stake(state: State, user: Address, amount: i128)
    requires
        state.balanced(),
    ensures
        state.stake(user, amount) matches Ok((next, _)) ==> follows_on_the_board(state, next, user),
{
    if let Ok((next, _)) = state.stake(user, amount) {
        crate::laws::books::staking_keeps_the_books(state, user, amount);
        crate::laws::books::nobody_holds_more_than_all(next, user);
        let shares = state.account(user).shares;
        let settled = state.accrue(user, shares)->Ok_0;
        let compounded = settled.compound(user)->Ok_0;
        let credited = compounded.credit(user, user, amount, shares == 0)->Ok_0.0;
        lemma_credit_board(compounded, user, user, amount, shares == 0);
        assert(next.leaderboard == credited.leaderboard);
        assert(next.accounts == credited.accounts);
        assert(next.pool.total_shares == credited.pool.total_shares);
        assert(next.pool.total_deposited == credited.pool.total_deposited);
        assert(compounded.leaderboard == state.leaderboard);
        lemma_reseated(state, next, user);
    }
}

proof fn lemma_credit_board(
    state: State,
    payer: Address,
    user: Address,
    amount: i128,
    fresh: bool,
)
    ensures
        state.credit(payer, user, amount, fresh) matches Ok((next, _)) ==> {
            &&& state.settings.leaderboard_size == 0 ==> next.leaderboard == state.leaderboard
            &&& state.settings.leaderboard_size > 0 ==> next.leaderboard
                == crate::history::reseated(
                state.leaderboard,
                state.settings.leaderboard_size,
                user,
                next.standing(next.account(user).shares),
            )
        },
{
}

proof fn lemma_board_stake_for(state: State, delegate: Address, user: Address, amount: i128)
    requires
        state.balanced(),
    ensures
        state.stake_for(delegate, user, amount) matches Ok((next, _)) ==> follows_on_the_board(
            state,
            next,
            user,
        ),
{
    if let Ok((next, _)) = state.stake_for(delegate, user, amount) {
        let shares = state.account(user).shares;
        crate::laws::books::settling_keeps_the_books(state, user);
        let settled = state.accrue(user, shares)->Ok_0;
        crate::laws::books::crediting_keeps_the_books(
            settled,
            delegate,
            user,
            amount,
            shares == 0,
        );
        let credited = settled.credit(delegate, user, amount, shares == 0)->Ok_0.0;
        crate::laws::books::nobody_holds_more_than_all(credited, user);
        lemma_credit_board(settled, delegate, user, amount, shares == 0);
        assert(next.leaderboard == credited.leaderboard);
        assert(next.accounts == credited.accounts);
        assert(next.pool == credited.pool);
        lemma_reseated(state, next, user);
    }
}

proof fn lemma_board_unstake(state: State, user: Address, shares: i128)
    requires
        state.balanced(),
        state.within_limits(),
    ensures
        state.unstake(user, shares) matches Ok((next, _)) ==> follows_on_the_board(
            state,
            next,
            user,
        ),
{
    if let Ok((next, _)) = state.unstake(user, shares) {
        crate::laws::books::unstaking_keeps_the_books(state, user, shares);
        crate::laws::books::nobody_holds_more_than_all(next, user);
        let settled = state.accrue(user, state.account(user).shares)->Ok_0;
        let compounded = settled.compound(user)->Ok_0;
        assert(compounded.leaderboard == state.leaderboard);
        lemma_debit_board(compounded, user, shares);
        lemma_reseated(state, next, user);
    }
}

proof fn lemma_debit_board(state: State, user: Address, shares: i128)
    ensures
        state.debit(user, shares) matches Ok((next, _)) ==> {
            &&& state.settings.leaderboard_size == 0 ==> next.leaderboard == state.leaderboard
            &&& state.settings.leaderboard_size > 0 ==> next.leaderboard
                == crate::history::reseated(
                state.leaderboard,
                state.settings.leaderboard_size,
                user,
                next.standing(next.account(user).shares),
            )
        },
{
}

proof fn lemma_take_out_board(state: State, user: Address, burned: i128, removed: i128)
    ensures
        state.take_out(user, burned, removed) matches Ok(next) ==> {
            &&& state.settings.leaderboard_size == 0 ==> next.leaderboard == state.leaderboard
            &&& state.settings.leaderboard_size > 0 ==> next.leaderboard
                == crate::history::reseated(
                state.leaderboard,
                state.settings.leaderboard_size,
                user,
                next.standing(next.account(user).shares),
            )
        },
{
}

proof fn lemma_board_request(state: State, user: Address, amount: i128)
    requires
        state.balanced(),
    ensures
        state.request_unstake(user, amount) matches Ok(next) ==> follows_on_the_board(
            state,
            next,
            user,
        ),
{
    if let Ok(next) = state.request_unstake(user, amount) {
        crate::laws::amounts::a_request_takes_out_what_was_asked_for(state, user, amount);
        crate::laws::books::nobody_holds_more_than_all(state, user);
        let shares = state.account(user).shares;
        let worth = state.worth(shares)->Some_0;
        let wanted = crate::math::smaller(amount as int, worth as int) as i128;
        let burned = state.shares_for(shares, wanted);
        let removed = state.worth(burned)->Some_0;
        crate::laws::books::shares_for_an_amount(state, user, wanted);
        crate::laws::books::lemma_worth(
            state.pool.total_shares,
            state.pool.total_deposited,
            burned,
        );
        let settled = state.accrue(user, shares)->Ok_0;
        let taken = settled.take_out(user, burned, removed)->Ok_0;
        lemma_take_out_board(settled, user, burned, removed);
        assert(next.leaderboard == taken.leaderboard);
        assert(next.account(user).shares == taken.account(user).shares);
        assert(next.pool == taken.pool);
        assert(next.pool.total_shares >= next.account(user).shares);
        lemma_reseated(state, next, user);
    }
}

proof fn lemma_board_slash(state: State, admin_addr: Address, user: Address, amount: i128)
    requires
        state.balanced(),
    ensures
        state.slash(admin_addr, user, amount) matches Ok((next, _)) ==> follows_on_the_board(
            state,
            next,
            user,
        ),
{
    if let Ok((next, taken)) = state.slash(admin_addr, user, amount) {
        crate::laws::amounts::a_slash_burns_what_it_takes(state, admin_addr, user, amount);
        crate::laws::books::nobody_holds_more_than_all(state, user);
        let shares = state.account(user).shares;
        crate::laws::books::lemma_worth(
            state.pool.total_shares,
            state.pool.total_deposited,
            shares,
        );
        let burned = state.shares_for(shares, taken);
        let out = state.take_out(user, burned, taken)->Ok_0;
        lemma_take_out_board(state, user, burned, taken);
        assert(next.leaderboard == out.leaderboard);
        assert(next.account(user).shares == out.account(user).shares);
        assert(next.pool == out.pool);
        lemma_reseated(state, next, user);
    }
}

/// A transfer is told with what the position is worth, and one with rewards also with what is
/// pending; nothing else happens. The receiver takes the place of the sender in the list of
/// stakers, and on the leaderboard the sender goes and the receiver comes.
pub proof fn what_a_transfer_makes_happen(state: State, from: Address, to: Address, k: int)
    requires
        state.balanced(),
        state.account(from).shares * state.pool.total_deposited <= i128::MAX,
    ensures
        state.transfer_position(from, to) matches Ok(next) ==> {
            &&& changed_hands(state, next, from, to, k)
            &&& exists|worth: i128|
                {
                    &&& #[trigger] rounded_down(
                        worth as int,
                        state.account(from).shares as int,
                        state.pool.total_deposited as int,
                        state.pool.total_shares as int,
                    )
                    &&& next.effects == state.effects.push(
                        Effect::Publish(
                            Event::PositionTransferred {
                                from,
                                to,
                                amount: worth,
                                ledger: state.sequence,
                            },
                        ),
                    )
                }
        },
        state.transfer_position_with_rewards(from, to) matches Ok(next) ==> {
            &&& changed_hands(state, next, from, to, k)
            &&& exists|worth: i128|
                {
                    &&& #[trigger] rounded_down(
                        worth as int,
                        state.account(from).shares as int,
                        state.pool.total_deposited as int,
                        state.pool.total_shares as int,
                    )
                    &&& next.effects == state.effects.push(
                        Effect::Publish(
                            Event::PositionTransferredWithRewards {
                                from,
                                to,
                                amount: worth,
                                pending_reward_estimate: match state.pending_reward(from) {
                                    Ok(pending) => pending,
                                    Err(_) => state.account(from).accrued,
                                },
                                ledger: state.sequence,
                            },
                        ),
                    )
                }
        },
{
    crate::laws::books::nobody_holds_more_than_all(state, from);
    crate::laws::books::nobody_holds_more_than_all(state, to);
    let shares = state.account(from).shares;
    if shares > 0 {
        crate::laws::amounts::shares_are_worth_their_part(state, shares);
        let worth = state.worth(shares)->Some_0;
        assert(rounded_down(
            worth as int,
            shares as int,
            state.pool.total_deposited as int,
            state.pool.total_shares as int,
        ));
        if let Ok(next) = state.transfer_position(from, to) {
            let settled = state.accrue(from, shares)->Ok_0;
            assert(next == settled.moved(from, to, worth));
            lemma_place(state.stakers, from, to, k);
            lemma_moved(settled, from, to, worth);
        }
        if let Ok(next) = state.transfer_position_with_rewards(from, to) {
            lemma_place(state.stakers, from, to, k);
        }
    }
}

/// A position went from one user to another: in the list of stakers, on the leaderboard, and in
/// the vote histories.
pub open spec fn changed_hands(
    state: State,
    next: State,
    from: Address,
    to: Address,
    k: int,
) -> bool {
    let shares = state.account(from).shares;
    let size = state.settings.leaderboard_size;
    &&& from != to
    &&& !state.stakers.contains(to) ==> {
        &&& next.stakers.len() == state.stakers.len()
        &&& 0 <= k < state.stakers.len() ==> next.stakers[k] == if state.stakers[k] == from {
            to
        } else {
            state.stakers[k]
        }
    }
    &&& size == 0 ==> next.leaderboard == state.leaderboard
    &&& size > 0 ==> next.leaderboard == crate::history::reseated(
        crate::history::reseated(state.leaderboard, size, from, 0),
        size,
        to,
        state.worth(shares)->Some_0,
    )
    &&& next.votes_of(from) == crate::history::noted(state.votes_of(from), state.sequence, 0)
    &&& next.votes_of(to) == crate::history::noted(state.votes_of(to), state.sequence, shares)
}

proof fn lemma_moved(settled: State, from: Address, to: Address, worth: i128)
    requires
        from != to,
        settled.account(from).shares > 0,
        settled.worth(settled.account(from).shares) == Some(worth),
    ensures
        changed_hands(settled, settled.moved(from, to, worth), from, to, -1),
{
    if !settled.stakers.contains(to) {
        lemma_place(settled.stakers, from, to, 0);
    }
}

proof fn lemma_place(list: Seq<Address>, from: Address, to: Address, k: int)
    requires
        from != to,
    ensures
        !list.contains(to) ==> {
            let after = crate::history::succeeded(list, from, to);
            &&& after.len() == list.len()
            &&& 0 <= k < list.len() ==> after[k] == if list[k] == from {
                to
            } else {
                list[k]
            }
        },
{
    if !list.contains(to) {
        lemma_all_kept(list, to);
    }
}

proof fn lemma_all_kept(list: Seq<Address>, who: Address)
    requires
        !list.contains(who),
    ensures
        crate::history::without(list, who) == list,
    decreases list.len(),
{
    reveal(Seq::filter);
    if list.len() > 0 {
        let shorter = list.drop_last();
        assert(!shorter.contains(who)) by {
            if shorter.contains(who) {
                let k = choose|k: int| 0 <= k < shorter.len() && shorter[k] == who;
                assert(list[k] == who);
            }
        }
        lemma_all_kept(shorter, who);
        assert(list[list.len() - 1] != who);
        assert(shorter.push(list.last()) == list);
    }
}

/// A vote history gets a note of the shares at a ledger: one for each ledger, and the last hundred
/// of them.
pub proof fn shares_are_noted(history: Seq<(u32, i128)>, ledger: u32, shares: i128)
    requires
        history.len() <= 100,
    ensures
        ({
            let after = crate::history::noted(history, ledger, shares);
            let again = history.len() > 0 && history.last().0 == ledger;
            &&& after.len() > 0
            &&& after.len() <= 100
            &&& after.last() == (ledger, shares)
            &&& again ==> after.drop_last() == history.drop_last()
            &&& !again && history.len() < 100 ==> after.drop_last() == history
            &&& !again && history.len() == 100 ==> after.drop_last() == history.skip(1)
        }),
{
    let after = crate::history::noted(history, ledger, shares);
    if history.len() > 0 && history.last().0 == ledger {
        assert(after.drop_last() =~= history.drop_last());
    } else if history.len() < 100 {
        assert(after.drop_last() =~= history);
    } else {
        assert(after.drop_last() =~= history.skip(1));
    }
}

} // verus!
