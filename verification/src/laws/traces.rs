//! What a call leaves behind in the lists of the pool: who is listed, what is noted of them, what
//! the leaderboard shows, which receipts are minted and burned, and what a transfer hands over.
use crate::address::Address;
use crate::calls::{Call, OwnerCall};
use crate::env::{Effect, State};
use crate::errors::VaultError;
use crate::events::Event;
use crate::laws::amounts::{lemma_all_transfers, rounded_down, transfers};
use crate::laws::settings::added;
use crate::storage::{Account, LeaderboardEntry, StakeAction, StakeHistoryEntry};
use vstd::prelude::*;

verus! {

/// The receipts that are minted and burned among what a call makes happen, in order.
pub open spec fn receipts(effects: Seq<Effect>) -> Seq<Effect> {
    effects.filter(|effect: Effect| effect is MintReceipt || effect is BurnReceipt)
}

proof fn lemma_all_receipts()
    ensures
        forall|effects: Seq<Effect>, effect: Effect| #[trigger]
            receipts(effects.push(effect)) == (if effect is MintReceipt || effect is BurnReceipt {
                receipts(effects).push(effect)
            } else {
                receipts(effects)
            }),
{
    assert forall|effects: Seq<Effect>, effect: Effect| #[trigger]
        receipts(effects.push(effect)) == (if effect is MintReceipt || effect is BurnReceipt {
            receipts(effects).push(effect)
        } else {
            receipts(effects)
        }) by {
        reveal(Seq::filter);
        assert(effects.push(effect).drop_last() == effects);
    }
}

proof fn lemma_compounded_traces(state: State, user: Address)
    ensures
        state.accrue(user, state.account(user).shares) matches Ok(settled) ==> (settled.compound(
            user,
        ) matches Ok(next) ==> {
            &&& receipts(next.effects) == receipts(state.effects)
            &&& next.stake_log == state.stake_log
            &&& next.stakers == state.stakers
            &&& next.settings == state.settings
            &&& next.sequence == state.sequence
            &&& next.contract == state.contract
            &&& next.account(user).restaked == state.account(user).restaked
            &&& next.account(user).last_unstake == state.account(user).last_unstake
            &&& next.pool.total_stakers == state.pool.total_stakers
        }),
{
    lemma_all_receipts();
}

/// A stake of a user without shares lists them, mints a receipt where there is a receipt contract,
/// and frees them of the early exit penalty where they left within the grace window. The stake is
/// kept in the stake history of the user.
pub proof fn a_stake_leaves_its_traces(state: State, staker: Address, amount: i128)
    ensures
        state.stake(staker, amount) matches Ok((next, minted)) ==> {
            let (was, is) = (state.account(staker), next.account(staker));
            let back = was.last_unstake matches Some(left) && state.settings.restake_window > 0
                && state.sequence <= left + state.settings.restake_window;
            &&& added(
                next.stake_log_of(staker),
                state.stake_log_of(staker),
                (StakeHistoryEntry { action: StakeAction::Stake, amount, ledger: state.sequence }),
                5,
            )
            &&& next.pool.last_updated_ledger == state.sequence
            &&& was.shares == 0 ==> {
                &&& next.stakers == if state.stakers.contains(staker) {
                    state.stakers
                } else {
                    state.stakers.push(staker)
                }
                &&& next.pool.total_stakers == state.pool.total_stakers + 1
                &&& is.restaked == (was.restaked || back)
                &&& is.last_claim == state.sequence
                &&& match state.settings.nft_contract {
                    Some(nft) => receipts(next.effects) == receipts(state.effects).push(
                        Effect::MintReceipt {
                            nft,
                            owner: staker,
                            vault: state.contract,
                            amount,
                            ledger: state.sequence,
                        },
                    ),
                    None => receipts(next.effects) == receipts(state.effects),
                }
            }
            &&& was.shares != 0 ==> {
                &&& next.stakers == state.stakers
                &&& next.pool.total_stakers == state.pool.total_stakers
                &&& is.restaked == was.restaked
                &&& is.last_claim == was.last_claim
                &&& receipts(next.effects) == receipts(state.effects)
            }
        },
{
    if let Ok((next, minted)) = state.stake(staker, amount) {
        let shares = state.account(staker).shares;
        lemma_all_receipts();
        lemma_compounded_traces(state, staker);
        let settled = state.accrue(staker, shares)->Ok_0;
        let compounded = settled.compound(staker)->Ok_0;
        let credited = compounded.credit(staker, staker, amount, shares == 0)->Ok_0.0;
        assert(receipts(next.effects) == receipts(credited.effects));
        assert(next.stakers == credited.stakers);
        assert(next.accounts == credited.accounts);
        assert(credited.stake_log == state.stake_log);
    }
}

/// An unstake is kept in the stake history too. With the last shares the user leaves: they are
/// taken off the list, the receipt is burned, and the grace window starts.
pub proof fn an_unstake_leaves_its_traces(state: State, staker: Address, shares: i128)
    requires
        state.balanced(),
    ensures
        state.unstake(staker, shares) matches Ok((next, returned)) ==> {
            let (was, is) = (state.account(staker), next.account(staker));
            &&& added(
                next.stake_log_of(staker),
                state.stake_log_of(staker),
                (StakeHistoryEntry {
                    action: StakeAction::Unstake,
                    amount: returned,
                    ledger: state.sequence,
                }),
                5,
            )
            &&& next.pool.last_updated_ledger == state.sequence
            &&& is.shares == 0 ==> {
                &&& is.last_unstake == Some(state.sequence)
                &&& is.restaked == false
                &&& !next.stakers.contains(staker)
                &&& next.pool.total_stakers == if state.pool.total_stakers > 0 {
                    (state.pool.total_stakers - 1) as u32
                } else {
                    0
                }
                &&& match state.settings.nft_contract {
                    Some(nft) => receipts(next.effects) == receipts(state.effects).push(
                        Effect::BurnReceipt { nft, owner: staker },
                    ),
                    None => receipts(next.effects) == receipts(state.effects),
                }
            }
            &&& is.shares != 0 ==> {
                &&& is.last_unstake == was.last_unstake
                &&& is.restaked == was.restaked
                &&& next.stakers == state.stakers
                &&& next.pool.total_stakers == state.pool.total_stakers
                &&& receipts(next.effects) == receipts(state.effects)
            }
        },
{
    if let Ok((next, returned)) = state.unstake(staker, shares) {
        lemma_all_receipts();
        lemma_compounded_traces(state, staker);
        let settled = state.accrue(staker, state.account(staker).shares)->Ok_0;
        let compounded = settled.compound(staker)->Ok_0;
        crate::laws::registry::lemma_without(compounded.stakers, staker);
        lemma_debit_traces(compounded, staker, shares);
    }
}

proof fn lemma_debit_traces(state: State, user: Address, shares: i128)
    ensures
        state.debit(user, shares) matches Ok((next, returned)) ==> {
            let (was, is) = (state.account(user), next.account(user));
            &&& added(
                next.stake_log_of(user),
                state.stake_log_of(user),
                (StakeHistoryEntry {
                    action: StakeAction::Unstake,
                    amount: returned,
                    ledger: state.sequence,
                }),
                5,
            )
            &&& next.pool.last_updated_ledger == state.sequence
            &&& is.shares == 0 ==> {
                &&& is.last_unstake == Some(state.sequence)
                &&& is.restaked == false
                &&& next.stakers == crate::history::without(state.stakers, user)
                &&& next.pool.total_stakers == if state.pool.total_stakers > 0 {
                    (state.pool.total_stakers - 1) as u32
                } else {
                    0
                }
                &&& match state.settings.nft_contract {
                    Some(nft) => receipts(next.effects) == receipts(state.effects).push(
                        Effect::BurnReceipt { nft, owner: user },
                    ),
                    None => receipts(next.effects) == receipts(state.effects),
                }
            }
            &&& is.shares != 0 ==> {
                &&& is.last_unstake == was.last_unstake
                &&& is.restaked == was.restaked
                &&& next.stakers == state.stakers
                &&& next.pool.total_stakers == state.pool.total_stakers
                &&& receipts(next.effects) == receipts(state.effects)
            }
        },
{
    lemma_all_receipts();
}

/// A leaderboard shows a user whose position became `amount` with that amount, where there is room
/// or where the last line has less, and not at all otherwise; all others on it have the lines that
/// they had, as far as there is room, and nobody else comes on.
pub proof fn the_leaderboard_shows_what_became_of_a_position(
    board: Seq<LeaderboardEntry>,
    size: u32,
    user: Address,
    amount: i128,
)
    requires
        crate::laws::records::in_order(board),
        board.len() <= size,
    ensures
        ({
            let after = crate::history::reseated(board, size, user, amount);
            let mine = LeaderboardEntry { staker: user, amount };
            &&& forall|line: LeaderboardEntry| #[trigger]
                after.contains(line) ==> line == mine || (line.staker != user && board.contains(
                    line,
                ))
            &&& amount <= 0 ==> forall|line: LeaderboardEntry| #[trigger]
                after.contains(line) <==> line.staker != user && board.contains(line)
            &&& amount > 0 && board.len() < size ==> after.contains(mine) && forall|
                line: LeaderboardEntry,
            | #[trigger]
                board.contains(line) && line.staker != user ==> after.contains(line)
            &&& amount > 0 && size > 0 && (exists|k: int|
                0 <= k < board.len() && (#[trigger] board[k]).staker != user && board[k].amount
                    < amount) ==> after.contains(mine)
        }),
{
    let rest = crate::history::others(board, user);
    let after = crate::history::reseated(board, size, user, amount);
    let mine = LeaderboardEntry { staker: user, amount };
    lemma_others_are(board, user);
    let k = crate::history::seat(rest, amount);
    crate::laws::records::lemma_others(board, user);
    crate::laws::records::lemma_seat_splits(rest, amount);
    let all = rest.insert(k, mine);
    assert forall|line: LeaderboardEntry| #[trigger] after.contains(line) implies line == mine || (
    line.staker != user && board.contains(line)) by {
        let i = choose|i: int| 0 <= i < after.len() && after[i] == line;
        if after == rest {
            assert(rest.contains(line));
        } else {
            assert(all[i] == line);
            if i < k {
                assert(rest[i] == line);
                assert(rest.contains(line));
            } else if i > k {
                assert(rest[i - 1] == line);
                assert(rest.contains(line));
            }
        }
    }
    if amount > 0 && (rest.len() < size || amount > rest.last().amount) && size > 0 {
        assert(all[k] == mine);
        if k == size {
            assert(rest.len() == size);
            assert(amount <= rest[rest.len() - 1].amount);
        }
        assert(after[k] == mine);
        assert(after.contains(mine));
    }
    if amount > 0 && board.len() < size {
        assert(rest.len() < size);
        assert(after == all);
        assert forall|line: LeaderboardEntry| #[trigger]
            board.contains(line) && line.staker != user implies after.contains(line) by {
            assert(rest.contains(line));
            let i = choose|i: int| 0 <= i < rest.len() && rest[i] == line;
            if i < k {
                assert(after[i] == line);
            } else {
                assert(after[i + 1] == line);
            }
        }
    }
    if amount > 0 && size > 0 && (exists|j: int|
        0 <= j < board.len() && (#[trigger] board[j]).staker != user && board[j].amount < amount) {
        let j = choose|j: int|
            0 <= j < board.len() && (#[trigger] board[j]).staker != user && board[j].amount
                < amount;
        assert(board.contains(board[j]));
        assert(rest.contains(board[j]));
        let i = choose|i: int| 0 <= i < rest.len() && rest[i] == board[j];
        let n = rest.len() - 1;
        if i < n {
            assert(rest[i].amount >= rest[n].amount);
        }
    }
}

proof fn lemma_others_are(board: Seq<LeaderboardEntry>, user: Address)
    ensures
        forall|line: LeaderboardEntry| #[trigger]
            crate::history::others(board, user).contains(line) <==> board.contains(line)
                && line.staker != user,
        crate::history::others(board, user).len() <= board.len(),
    decreases board.len(),
{
    reveal(Seq::filter);
    let rest = crate::history::others(board, user);
    if board.len() > 0 {
        let shorter = board.drop_last();
        let before = crate::history::others(shorter, user);
        lemma_others_are(shorter, user);
        assert(rest == before || rest == before.push(board.last()));
        assert(board == shorter.push(board.last()));
        assert forall|line: LeaderboardEntry| #[trigger] rest.contains(line) <==> board.contains(
            line,
        ) && line.staker != user by {
            lemma_push(before, board.last(), line);
            lemma_push(shorter, board.last(), line);
        }
    }
}

proof fn lemma_push(list: Seq<LeaderboardEntry>, item: LeaderboardEntry, a: LeaderboardEntry)
    ensures
        list.push(item).contains(a) <==> list.contains(a) || a == item,
{
    let longer = list.push(item);
    if longer.contains(a) {
        let k = choose|k: int| 0 <= k < longer.len() && longer[k] == a;
        if k < list.len() {
            assert(list[k] == a);
        }
    }
    if list.contains(a) {
        let k = choose|k: int| 0 <= k < list.len() && list[k] == a;
        assert(longer[k] == a);
    }
    assert(longer[list.len() as int] == item);
}

/// A transfer leaves the sender all that they were owed and gives the receiver no reward; no token
/// moves, and the event tells what the position is worth.
pub proof fn a_transfer_costs_no_reward(state: State, from: Address, to: Address)
    requires
        state.balanced(),
    ensures
        state.transfer_position(from, to) matches Ok(next) ==> {
            let (was, is) = (state.account(from), next.account(from));
            &&& is.accrued_dust() == state.owed_dust(from)
            &&& 0 <= is.remainder < 63_072_000_000
            &&& next.account(to).accrued == 0
            &&& next.account(to).last_claim == state.sequence
            &&& next.settled_until(to) == state.sequence
            &&& next.account(to).shares == was.shares
            &&& is.shares == 0
            &&& transfers(next.effects) == transfers(state.effects)
            &&& exists|worth: i128|
                {
                    &&& #[trigger] rounded_down(
                        worth as int,
                        was.shares as int,
                        state.pool.total_deposited as int,
                        state.pool.total_shares as int,
                    )
                    &&& next.effects.last() == Effect::Publish(
                        Event::PositionTransferred {
                            from,
                            to,
                            amount: worth,
                            ledger: state.sequence,
                        },
                    )
                }
        },
{
    crate::laws::rewards::a_settlement_owes_the_same(state, from);
    crate::laws::books::nobody_holds_more_than_all(state, from);
    crate::laws::books::nobody_holds_more_than_all(state, to);
    if let Ok(next) = state.transfer_position(from, to) {
        let shares = state.account(from).shares;
        lemma_all_transfers();
        crate::laws::amounts::shares_are_worth_their_part(state, shares);
        let worth = state.worth(shares)->Some_0;
        assert(from != to);
        assert(rounded_down(
            worth as int,
            shares as int,
            state.pool.total_deposited as int,
            state.pool.total_shares as int,
        ));
        let settled = state.accrue(from, shares)->Ok_0;
        assert(next == settled.moved(from, to, worth));
        assert(transfers(next.effects) == transfers(state.effects));
    }
}

/// A transfer is refused without the sender, in a paused pool, without a position, and where the
/// receiver has one; for nothing else but too large a number.
pub proof fn reasons_against_a_transfer(state: State, from: Address, to: Address)
    ensures
        ({
            let reason = |e: VaultError|
                {
                    ||| e == VaultError::Unauthorized && !state.signers.contains(from)
                    ||| e == VaultError::VaultPaused && state.pool.paused
                    ||| e == VaultError::PositionNotFound && state.account(from).shares == 0
                    ||| e == VaultError::RecipientAlreadyStaking && state.account(to).shares > 0
                };
            &&& state.transfer_position_with_rewards(from, to) matches Err(e) ==> reason(e)
            &&& state.transfer_position(from, to) matches Err(e) ==> reason(e) || e
                == VaultError::ArithmeticError
            &&& !state.signers.contains(from) || state.pool.paused || state.account(from).shares
                == 0 || state.account(to).shares > 0 ==> {
                &&& state.transfer_position(from, to) is Err
                &&& state.transfer_position_with_rewards(from, to) is Err
            }
        }),
{
}

/// Merging settles what is owed and starts the lock-up and the boost tiers anew; the shares stay.
pub proof fn merging_starts_the_position_anew(state: State, user: Address)
    requires
        state.balanced(),
    ensures
        state.merge_positions(user) matches Ok(next) ==> {
            let (was, is) = (state.account(user), next.account(user));
            &&& state.signers.contains(user)
            &&& was.shares > 0
            &&& is.shares == was.shares
            &&& is.staked_at == Some(state.sequence)
            &&& is.accrued_dust() == state.owed_dust(user)
            &&& 0 <= is.remainder < 63_072_000_000
            &&& next.settled_until(user) == state.sequence
            &&& next.pool == state.pool
            &&& next.stakers == state.stakers
            &&& transfers(next.effects) == transfers(state.effects)
        },
        state.signers.contains(user) && state.account(user).shares == 0 ==> state.merge_positions(
            user,
        ) == Err::<State, VaultError>(VaultError::PositionNotFound),
{
    crate::laws::rewards::a_settlement_owes_the_same(state, user);
    crate::laws::books::nobody_holds_more_than_all(state, user);
    lemma_all_transfers();
}

/// A stake for another leaves the same traces for the beneficiary, but for the stake history, which
/// tells what a user staked themself.
pub proof fn a_stake_for_another_leaves_its_traces(
    state: State,
    delegate: Address,
    user: Address,
    amount: i128,
)
    ensures
        state.stake_for(delegate, user, amount) matches Ok((next, minted)) ==> {
            let (was, is) = (state.account(user), next.account(user));
            let back = was.last_unstake matches Some(left) && state.settings.restake_window > 0
                && state.sequence <= left + state.settings.restake_window;
            &&& next.stake_log == state.stake_log
            &&& was.shares == 0 ==> {
                &&& next.stakers == if state.stakers.contains(user) {
                    state.stakers
                } else {
                    state.stakers.push(user)
                }
                &&& next.pool.total_stakers == state.pool.total_stakers + 1
                &&& is.restaked == (was.restaked || back)
                &&& is.last_claim == state.sequence
                &&& match state.settings.nft_contract {
                    Some(nft) => receipts(next.effects) == receipts(state.effects).push(
                        Effect::MintReceipt {
                            nft,
                            owner: user,
                            vault: state.contract,
                            amount,
                            ledger: state.sequence,
                        },
                    ),
                    None => receipts(next.effects) == receipts(state.effects),
                }
            }
            &&& was.shares != 0 ==> {
                &&& next.stakers == state.stakers
                &&& next.pool.total_stakers == state.pool.total_stakers
                &&& is.restaked == was.restaked
                &&& is.last_claim == was.last_claim
                &&& receipts(next.effects) == receipts(state.effects)
            }
        },
{
    if let Ok((next, minted)) = state.stake_for(delegate, user, amount) {
        let shares = state.account(user).shares;
        lemma_all_receipts();
        let settled = state.accrue(user, shares)->Ok_0;
        let credited = settled.credit(delegate, user, amount, shares == 0)->Ok_0.0;
        assert(receipts(next.effects) == receipts(credited.effects));
        assert(next.stakers == credited.stakers);
        assert(next.accounts == credited.accounts);
    }
}

/// Who has no shares left after a request or a slash is taken off the list; who has some stays
/// where they are.
pub proof fn who_has_no_shares_left_is_taken_off(
    state: State,
    admin_addr: Address,
    user: Address,
    amount: i128,
)
    requires
        state.balanced(),
    ensures
        state.request_unstake(user, amount) matches Ok(next) ==> taken_off(state, next, user),
        state.slash(admin_addr, user, amount) matches Ok((next, _)) ==> taken_off(
            state,
            next,
            user,
        ),
{
    crate::laws::books::nobody_holds_more_than_all(state, user);
    let shares = state.account(user).shares;
    if let Ok(next) = state.request_unstake(user, amount) {
        let settled = state.accrue(user, shares)->Ok_0;
        let worth = state.worth(shares)->Some_0;
        let wanted = crate::math::smaller(amount as int, worth as int) as i128;
        let burned = state.shares_for(shares, wanted);
        let removed = state.worth(burned)->Some_0;
        lemma_take_out_traces(settled, user, burned, removed);
        let taken = settled.take_out(user, burned, removed)->Ok_0;
        assert(next.stakers == taken.stakers);
        assert(next.pool == taken.pool);
        assert(next.account(user).shares == taken.account(user).shares);
    }
    if let Ok((next, taken)) = state.slash(admin_addr, user, amount) {
        let burned = state.shares_for(shares, taken);
        lemma_take_out_traces(state, user, burned, taken);
    }
}

/// A user is off the list where they have no shares left, and nobody else is.
pub open spec fn taken_off(state: State, next: State, user: Address) -> bool {
    if next.account(user).shares == 0 {
        &&& forall|other: Address| #[trigger]
            next.stakers.contains(other) <==> state.stakers.contains(other) && other != user
        &&& next.pool.total_stakers == if state.pool.total_stakers > 0 {
            (state.pool.total_stakers - 1) as u32
        } else {
            0
        }
    } else {
        &&& next.stakers == state.stakers
        &&& next.pool.total_stakers == state.pool.total_stakers
    }
}

proof fn lemma_take_out_traces(state: State, user: Address, burned: i128, removed: i128)
    ensures
        state.take_out(user, burned, removed) matches Ok(next) ==> taken_off(state, next, user),
{
    crate::laws::registry::lemma_without(state.stakers, user);
}

/// Rewards that become shares are told; where none do, nothing is.
pub proof fn restaking_is_told(state: State, user: Address)
    requires
        state.account(user).accrued >= 0,
    ensures
        state.compound(user) matches Ok(next) ==> {
            let account = state.account(user);
            if account.auto_restake && account.accrued > 0 {
                next.effects == state.effects.push(
                    Effect::Publish(
                        Event::AutoRestaked {
                            user,
                            amount: account.accrued,
                            ledger: state.sequence,
                        },
                    ),
                )
            } else {
                next == state
            }
        },
{
}

/// After an unstake, and after a claim that paid something, the reserve is to be looked at, where
/// the pool has a threshold for it.
pub proof fn the_reserve_is_looked_at(state: State, user: Address, shares: i128)
    requires
        state.settings.token is Some,
    ensures
        ({
            let look = Effect::CheckReserve { token: state.settings.token->Some_0 };
            &&& state.settings.auto_pause_threshold != 0 ==> {
                &&& state.unstake(user, shares) matches Ok((next, _)) ==> next.effects.last()
                    == look
                &&& state.claim(user) matches Ok((next, reward)) ==> reward != 0
                    ==> next.effects.last() == look
            }
            &&& state.settings.auto_pause_threshold == 0 ==> (state.unstake(user, shares) matches
                Ok((next, _)) ==> next.effects.last() is Publish)
        }),
{
    if state.unstake(user, shares) is Ok {
        let settled = state.accrue(user, state.account(user).shares)->Ok_0;
        let compounded = settled.compound(user)->Ok_0;
        assert(compounded.settings == state.settings);
    }
    if state.claim(user) is Ok {
        let claimed = state.claim_inner(user)->Ok_0.0;
        assert(claimed.settings == state.settings);
    }
}

/// What a user has chosen and what the admin has said of them is the same.
pub open spec fn same_standing(was: Account, is: Account) -> bool {
    &&& is.delegate == was.delegate
    &&& is.whitelisted == was.whitelisted
    &&& is.kyc_approved == was.kyc_approved
    &&& is.frozen_at == was.frozen_at
    &&& is.auto_restake == was.auto_restake
    &&& is.streak == was.streak
}

/// What a user has claimed is the same.
pub open spec fn same_claims(was: Account, is: Account) -> bool {
    &&& is.claim_window == was.claim_window
    &&& is.total_claimed == was.total_claimed
    &&& is.last_claimed_epoch == was.last_claimed_epoch
}

/// A stake changes nothing of an account but shares, rewards and where they are counted from; nor
/// does an unstake, which may also start the grace window.
pub proof fn stakes_change_nothing_else(
    state: State,
    user: Address,
    other: Address,
    amount: i128,
)
    ensures
        state.stake(user, amount) matches Ok((next, _)) ==> {
            &&& same_standing(state.account(user), next.account(user))
            &&& same_claims(state.account(user), next.account(user))
            &&& next.account(user).unbonding == state.account(user).unbonding
            &&& next.account(user).last_unstake == state.account(user).last_unstake
        },
        state.stake_for(other, user, amount) matches Ok((next, _)) ==> {
            &&& same_standing(state.account(user), next.account(user))
            &&& same_claims(state.account(user), next.account(user))
            &&& next.account(user).unbonding == state.account(user).unbonding
            &&& next.account(user).last_unstake == state.account(user).last_unstake
        },
        state.unstake(user, amount) matches Ok((next, _)) ==> {
            &&& same_standing(state.account(user), next.account(user))
            &&& same_claims(state.account(user), next.account(user))
            &&& next.account(user).unbonding == state.account(user).unbonding
            &&& next.account(user).last_claim == state.account(user).last_claim
        },
        state.unstake_all(user) matches Ok((next, _)) ==> {
            &&& same_standing(state.account(user), next.account(user))
            &&& same_claims(state.account(user), next.account(user))
            &&& next.account(user).unbonding == state.account(user).unbonding
        },
{
    lemma_stake_changes(state, user, amount);
    lemma_stake_for_changes(state, other, user, amount);
    lemma_unstake_changes(state, user, amount);
}

proof fn lemma_compound_changes(state: State, user: Address)
    ensures
        state.accrue(user, state.account(user).shares) matches Ok(settled) ==> (settled.compound(
            user,
        ) matches Ok(next) ==> {
            let (was, is) = (state.account(user), next.account(user));
            &&& same_standing(was, is)
            &&& same_claims(was, is)
            &&& is.unbonding == was.unbonding
            &&& is.last_unstake == was.last_unstake
            &&& is.last_claim == was.last_claim
        }),
{
}

proof fn lemma_stake_changes(state: State, user: Address, amount: i128)
    ensures
        state.stake(user, amount) matches Ok((next, _)) ==> {
            let (was, is) = (state.account(user), next.account(user));
            &&& same_standing(was, is)
            &&& same_claims(was, is)
            &&& is.unbonding == was.unbonding
            &&& is.last_unstake == was.last_unstake
        },
{
    if let Ok((next, _)) = state.stake(user, amount) {
        lemma_compound_changes(state, user);
        let shares = state.account(user).shares;
        let settled = state.accrue(user, shares)->Ok_0;
        let compounded = settled.compound(user)->Ok_0;
        lemma_credit_changes(compounded, user, user, amount, shares == 0);
        let credited = compounded.credit(user, user, amount, shares == 0)->Ok_0.0;
        assert(next.accounts == credited.accounts);
    }
}

proof fn lemma_stake_for_changes(state: State, delegate: Address, user: Address, amount: i128)
    ensures
        state.stake_for(delegate, user, amount) matches Ok((next, _)) ==> {
            let (was, is) = (state.account(user), next.account(user));
            &&& same_standing(was, is)
            &&& same_claims(was, is)
            &&& is.unbonding == was.unbonding
            &&& is.last_unstake == was.last_unstake
        },
{
    if let Ok((next, _)) = state.stake_for(delegate, user, amount) {
        let shares = state.account(user).shares;
        let settled = state.accrue(user, shares)->Ok_0;
        lemma_credit_changes(settled, delegate, user, amount, shares == 0);
        let credited = settled.credit(delegate, user, amount, shares == 0)->Ok_0.0;
        assert(next.accounts == credited.accounts);
    }
}

proof fn lemma_credit_changes(
    state: State,
    payer: Address,
    user: Address,
    amount: i128,
    fresh: bool,
)
    ensures
        state.credit(payer, user, amount, fresh) matches Ok((next, _)) ==> {
            let (was, is) = (state.account(user), next.account(user));
            &&& same_standing(was, is)
            &&& same_claims(was, is)
            &&& is.unbonding == was.unbonding
            &&& is.last_unstake == was.last_unstake
        },
{
}

proof fn lemma_unstake_changes(state: State, user: Address, shares: i128)
    ensures
        state.unstake(user, shares) matches Ok((next, _)) ==> {
            let (was, is) = (state.account(user), next.account(user));
            &&& same_standing(was, is)
            &&& same_claims(was, is)
            &&& is.unbonding == was.unbonding
            &&& is.last_claim == was.last_claim
        },
        state.unstake_all(user) matches Ok((next, _)) ==> {
            let (was, is) = (state.account(user), next.account(user));
            &&& same_standing(was, is)
            &&& same_claims(was, is)
            &&& is.unbonding == was.unbonding
        },
{
    lemma_compound_changes(state, user);
    if let Ok(settled) = state.accrue(user, state.account(user).shares) {
        if let Ok(compounded) = settled.compound(user) {
            lemma_debit_changes(compounded, user, shares);
            lemma_debit_changes(compounded, user, compounded.account(user).shares);
        }
    }
}

proof fn lemma_debit_changes(state: State, user: Address, shares: i128)
    ensures
        state.debit(user, shares) matches Ok((next, _)) ==> {
            let (was, is) = (state.account(user), next.account(user));
            &&& same_standing(was, is)
            &&& same_claims(was, is)
            &&& is.unbonding == was.unbonding
            &&& is.last_claim == was.last_claim
        },
{
}

/// Nor do a request, a claim, a slash and a merge change what they are not about.
pub proof fn the_rest_changes_nothing_else(
    state: State,
    user: Address,
    admin_addr: Address,
    amount: i128,
)
    ensures
        state.request_unstake(user, amount) matches Ok(next) ==> {
            &&& same_standing(state.account(user), next.account(user))
            &&& same_claims(state.account(user), next.account(user))
            &&& next.account(user).last_claim == state.account(user).last_claim
            &&& next.account(user).last_unstake == state.account(user).last_unstake
            &&& next.account(user).restaked == state.account(user).restaked
        },
        state.claim_inner(user) matches Ok((next, _)) ==> {
            &&& same_standing(state.account(user), next.account(user))
            &&& next.account(user).unbonding == state.account(user).unbonding
            &&& next.account(user).last_unstake == state.account(user).last_unstake
            &&& next.account(user).restaked == state.account(user).restaked
            &&& next.stakers == state.stakers
            &&& next.votes == state.votes
        },
        state.slash(admin_addr, user, amount) matches Ok((next, _)) ==> {
            &&& same_standing(state.account(user), next.account(user))
            &&& same_claims(state.account(user), next.account(user))
            &&& next.account(user).last_claim == state.sequence
            &&& next.account(user).last_unstake == state.account(user).last_unstake
            &&& next.account(user).restaked == state.account(user).restaked
            &&& next.account(user).remainder == state.account(user).remainder
        },
        state.merge_positions(user) matches Ok(next) ==> {
            &&& same_standing(state.account(user), next.account(user))
            &&& same_claims(state.account(user), next.account(user))
            &&& next.account(user).unbonding == state.account(user).unbonding
            &&& next.account(user).last_claim == state.account(user).last_claim
        },
{
    lemma_request_changes(state, user, amount);
    lemma_claim_changes(state, user);
    lemma_slash_changes(state, admin_addr, user, amount);
}

proof fn lemma_request_changes(state: State, user: Address, amount: i128)
    ensures
        state.request_unstake(user, amount) matches Ok(next) ==> {
            let (was, is) = (state.account(user), next.account(user));
            &&& same_standing(was, is)
            &&& same_claims(was, is)
            &&& is.last_claim == was.last_claim
            &&& is.last_unstake == was.last_unstake
            &&& is.restaked == was.restaked
        },
{
}

proof fn lemma_claim_changes(state: State, user: Address)
    ensures
        state.claim_inner(user) matches Ok((next, _)) ==> {
            let (was, is) = (state.account(user), next.account(user));
            &&& same_standing(was, is)
            &&& is.unbonding == was.unbonding
            &&& is.last_unstake == was.last_unstake
            &&& is.restaked == was.restaked
            &&& next.stakers == state.stakers
            &&& next.votes == state.votes
        },
{
}

proof fn lemma_slash_changes(state: State, admin_addr: Address, user: Address, amount: i128)
    ensures
        state.slash(admin_addr, user, amount) matches Ok((next, _)) ==> {
            let (was, is) = (state.account(user), next.account(user));
            &&& same_standing(was, is)
            &&& same_claims(was, is)
            &&& is.last_claim == state.sequence
            &&& is.last_unstake == was.last_unstake
            &&& is.restaked == was.restaked
            &&& is.remainder == was.remainder
        },
{
}

/// A choice of a user is what they last said, and changes nothing else.
pub proof fn choices_are_what_was_said(
    state: State,
    user: Address,
    delegate: Address,
    enabled: bool,
)
    requires
        state.signers.contains(user),
    ensures
        crate::laws::settings::only_marked(
            state,
            state.step(Call::Owner(OwnerCall::ApproveDelegate { user, delegate })),
            user,
            (Account { delegate: Some(delegate), ..state.account(user) }),
        ),
        crate::laws::settings::only_marked(
            state,
            state.step(Call::Owner(OwnerCall::SetAutoRestake { user, enabled })),
            user,
            (Account { auto_restake: enabled, ..state.account(user) }),
        ),
        state.account(user).delegate == Some(delegate) ==> crate::laws::settings::only_marked(
            state,
            state.revoke_delegate(user, delegate),
            user,
            (Account { delegate: None, ..state.account(user) }),
        ),
        state.account(user).delegate != Some(delegate) ==> state.revoke_delegate(user, delegate)
            == Err::<State, VaultError>(VaultError::NotADelegate),
{
    reveal(State::owner_step);
}

/// What is not stored of a position counts from now.
pub proof fn what_is_not_stored_counts_from_now(state: State, user: Address)
    ensures
        match state.account(user).checkpoint {
            Some(ledger) => state.settled_until(user) == ledger,
            None => state.settled_until(user) == state.sequence,
        },
        match state.account(user).staked_at {
            Some(ledger) => state.staked_since(user) == ledger,
            None => state.staked_since(user) == state.sequence,
        },
        !state.accounts.contains_key(user) ==> state.account(user) == Account::blank(),
        state.accounts.contains_key(user) ==> state.account(user) == state.accounts[user],
{
}

/// A full exit leaves the traces of an unstake of all shares: the user is off the list, the receipt
/// is burned, and the grace window starts.
pub proof fn a_full_exit_leaves_its_traces(state: State, user: Address)
    requires
        state.balanced(),
    ensures
        state.unstake_all(user) matches Ok((next, returned)) ==> {
            let is = next.account(user);
            &&& is.shares == 0
            &&& is.last_unstake == Some(state.sequence)
            &&& is.restaked == false
            &&& added(
                next.stake_log_of(user),
                state.stake_log_of(user),
                (StakeHistoryEntry {
                    action: StakeAction::Unstake,
                    amount: returned,
                    ledger: state.sequence,
                }),
                5,
            )
            &&& forall|other: Address| #[trigger]
                next.stakers.contains(other) <==> state.stakers.contains(other) && other != user
            &&& next.pool.total_stakers == if state.pool.total_stakers > 0 {
                (state.pool.total_stakers - 1) as u32
            } else {
                0
            }
            &&& match state.settings.nft_contract {
                Some(nft) => receipts(next.effects) == receipts(state.effects).push(
                    Effect::BurnReceipt { nft, owner: user },
                ),
                None => receipts(next.effects) == receipts(state.effects),
            }
        },
{
    if let Ok((next, returned)) = state.unstake_all(user) {
        lemma_compounded_traces(state, user);
        let settled = state.accrue(user, state.account(user).shares)->Ok_0;
        let compounded = settled.compound(user)->Ok_0;
        crate::laws::registry::lemma_without(compounded.stakers, user);
        lemma_debit_traces(compounded, user, compounded.account(user).shares);
    }
}

/// A merge is told with what the position is worth.
pub proof fn a_merge_is_told(state: State, user: Address, worth: int)
    requires
        state.balanced(),
        crate::laws::estimates::position_is_worth(state, user, worth),
        state.account(user).shares * state.pool.total_deposited <= i128::MAX,
    ensures
        state.merge_positions(user) matches Ok(next) ==> next.effects == state.effects.push(
            Effect::Publish(
                Event::PositionsMerged {
                    user,
                    count_merged: 1,
                    total_amount: worth as i128,
                    ledger: state.sequence,
                },
            ),
        ),
{
    crate::laws::estimates::lemma_position_worth(state, user, worth);
}

} // verus!
