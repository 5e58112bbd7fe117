//! The list of stakers: it holds all users who have shares, and nobody twice. And the waves: nobody
//! was active in a wave that is still to come.
use crate::address::Address;
use crate::calls::{
    AdminCall, Call, ManageCall, MarkCall, OwnerCall, PlanCall, SettingCall, UserCall,
};
use crate::env::State;
use crate::storage::Account;
use vstd::prelude::*;

verus! {

impl Account {
    /// It is known since when the position lasts and up to when its rewards are settled.
    pub open spec fn begun(self) -> bool {
        self.staked_at is Some && self.checkpoint is Some
    }
}

impl State {
    /// A user who has shares is listed, and their position has a beginning.
    pub open spec fn enlisted(self, user: Address) -> bool {
        self.account(user).shares > 0 ==> self.stakers.contains(user) && self.account(user).begun()
    }

    /// The list of stakers holds all users who have shares, nobody twice, and no more than were
    /// counted. Besides them it may hold users whose stakes were too small for a share.
    pub open spec fn registered(self) -> bool {
        &&& self.stakers.no_duplicates()
        &&& self.stakers.len() <= self.pool.total_stakers
        &&& forall|user: Address| #[trigger] self.enlisted(user)
    }

    /// The users who have shares, in the order of the list of stakers.
    pub open spec fn holders(self) -> Seq<Address> {
        self.stakers.filter(|user: Address| self.account(user).shares > 0)
    }

    /// Nobody was active in a wave after the last one.
    pub open spec fn waves_in_order(self) -> bool {
        forall|user: Address| (#[trigger] self.last_streak(user)).last_active_wave
            <= self.last_wave()
    }

    /// The list of stakers follows what became of the shares of one user, and their streak is the
    /// same.
    pub open spec fn follows(self, before: State, user: Address) -> bool {
        let (was, is) = (before.account(user), self.account(user));
        &&& is.streak == was.streak
        &&& is.shares > 0 && (was.shares > 0 ==> was.begun()) ==> is.begun()
        &&& {
            ||| {
                &&& self.stakers == before.stakers
                &&& self.pool.total_stakers >= before.pool.total_stakers
                &&& is.shares > 0 ==> was.shares > 0 || before.stakers.contains(user)
            }
            ||| {
                &&& self.stakers == before.stakers.push(user)
                &&& self.pool.total_stakers == before.pool.total_stakers + 1
                &&& !before.stakers.contains(user)
            }
            ||| {
                &&& self.stakers == crate::history::without(before.stakers, user)
                &&& self.pool.total_stakers + 1 >= before.pool.total_stakers
                &&& was.shares > 0 && is.shares == 0
            }
        }
    }

    /// Neither the list of stakers nor what it depends on differs.
    pub open spec fn same_register(self, before: State) -> bool {
        &&& self.stakers == before.stakers
        &&& self.pool.total_stakers == before.pool.total_stakers
        &&& self.settings.last_recorded_wave == before.settings.last_recorded_wave
        &&& forall|user: Address| (#[trigger] self.account(user)).shares == before.account(
            user,
        ).shares
        &&& forall|user: Address| (#[trigger] self.account(user)).begun() == before.account(
            user,
        ).begun()
        &&& forall|user: Address| (#[trigger] self.account(user)).streak == before.account(
            user,
        ).streak
    }
}

/// The list of stakers is empty at first, as it should be.
pub proof fn nobody_is_listed_at_first(contract: Address, sequence: u32)
    ensures
        State::blank(contract, sequence).registered(),
        State::blank(contract, sequence).waves_in_order(),
{
}

/// What a list keeps of its members: those it is asked to keep, and nobody twice.
pub(crate) proof fn lemma_kept(list: Seq<Address>, keep: spec_fn(Address) -> bool)
    ensures
        forall|a: Address| #[trigger]
            list.filter(keep).contains(a) <==> list.contains(a) && keep(a),
        list.no_duplicates() ==> list.filter(keep).no_duplicates(),
        list.filter(keep).len() <= list.len(),
        forall|a: Address| #[trigger]
            list.contains(a) && !keep(a) ==> list.filter(keep).len() < list.len(),
    decreases list.len(),
{
    reveal(Seq::filter);
    let kept = list.filter(keep);
    if list.len() > 0 {
        let shorter = list.drop_last();
        let before = shorter.filter(keep);
        lemma_kept(shorter, keep);
        assert(kept == if keep(list.last()) {
            before.push(list.last())
        } else {
            before
        });
        assert(list == shorter.push(list.last()));
        assert forall|a: Address| #[trigger] list.contains(a) <==> shorter.contains(a) || a
            == list.last() by {
            lemma_push(shorter, list.last(), a);
        }
        assert forall|a: Address| #[trigger] kept.contains(a) <==> list.contains(a) && keep(a) by {
            lemma_push(before, list.last(), a);
        }
        assert forall|a: Address| #[trigger] list.contains(a) && !keep(a) implies kept.len()
            < list.len() by {
            assert(shorter.contains(a) || a == list.last());
        }
        if list.no_duplicates() {
            assert forall|i: int, j: int|
                0 <= i < shorter.len() && 0 <= j < shorter.len() && i != j implies shorter[i]
                != shorter[j] by {
                assert(list[i] != list[j]);
            }
            assert(!shorter.contains(list.last())) by {
                if shorter.contains(list.last()) {
                    let k = choose|k: int| 0 <= k < shorter.len() && shorter[k] == list.last();
                    assert(list[k] == list[list.len() - 1]);
                }
            }
            assert(!before.contains(list.last()));
            assert forall|i: int, j: int|
                0 <= i < kept.len() && 0 <= j < kept.len() && i != j implies kept[i] != kept[j] by {
                if i == before.len() {
                    assert(before[j] != kept[i]) by {
                        assert(before.contains(before[j]));
                    }
                }
                if j == before.len() {
                    assert(before[i] != kept[j]) by {
                        assert(before.contains(before[i]));
                    }
                }
            }
        }
    }
}

proof fn lemma_kept_without(list: Seq<Address>, who: Address, keep: spec_fn(Address) -> bool)
    requires
        forall|address: Address| #[trigger] keep(address) == (address != who),
    ensures
        crate::history::without(list, who) == list.filter(keep),
    decreases list.len(),
{
    reveal(Seq::filter);
    if list.len() > 0 {
        lemma_kept_without(list.drop_last(), who, keep);
    }
}

pub(crate) proof fn lemma_without(list: Seq<Address>, who: Address)
    ensures
        forall|a: Address| #[trigger]
            crate::history::without(list, who).contains(a) <==> list.contains(a) && a != who,
        list.no_duplicates() ==> crate::history::without(list, who).no_duplicates(),
        crate::history::without(list, who).len() <= list.len(),
        list.contains(who) ==> crate::history::without(list, who).len() < list.len(),
{
    let keep = |address: Address| address != who;
    lemma_kept(list, keep);
    lemma_kept_without(list, who, keep);
}

proof fn lemma_push(list: Seq<Address>, item: Address, a: Address)
    ensures
        list.push(item).contains(a) <==> list.contains(a) || a == item,
{
    let longer = list.push(item);
    if longer.contains(a) {
        let k = choose|k: int| 0 <= k < longer.len() && longer[k] == a;
        if k < list.len() {
            assert(list[k] == a);
        }
    }
    if list.contains(a) {
        let k = choose|k: int| 0 <= k < list.len() && list[k] == a;
        assert(longer[k] == a);
    }
    assert(longer[list.len() as int] == item);
}

proof fn lemma_succeeded(list: Seq<Address>, from: Address, to: Address)
    requires
        list.no_duplicates(),
        list.contains(from),
        from != to,
    ensures
        crate::history::succeeded(list, from, to).no_duplicates(),
        crate::history::succeeded(list, from, to).len() <= list.len(),
        forall|a: Address| #[trigger]
            crate::history::succeeded(list, from, to).contains(a) <==> a == to || (list.contains(a)
                && a != from),
{
    lemma_without(list, to);
    let kept = crate::history::without(list, to);
    let all = crate::history::succeeded(list, from, to);
    assert(all.len() == kept.len());
    assert forall|i: int, j: int|
        0 <= i < all.len() && 0 <= j < all.len() && i != j implies all[i] != all[j] by {
        assert(kept.contains(kept[i]));
        assert(kept.contains(kept[j]));
        assert(kept[i] != kept[j]);
    }
    assert forall|a: Address| #[trigger] all.contains(a) <==> a == to || (list.contains(a) && a
        != from) by {
        if all.contains(a) {
            let k = choose|k: int| 0 <= k < all.len() && all[k] == a;
            assert(kept.contains(kept[k]));
        }
        if a == to {
            assert(kept.contains(from));
            let k = choose|k: int| 0 <= k < kept.len() && kept[k] == from;
            assert(all[k] == to);
        } else if list.contains(a) && a != from {
            assert(kept.contains(a));
            let k = choose|k: int| 0 <= k < kept.len() && kept[k] == a;
            assert(all[k] == a);
        }
    }
}

/// Where the list follows the one user whose account differs, it is as it should be.
proof fn lemma_follows(before: State, after: State, user: Address)
    requires
        after.follows(before, user),
        after.settings.last_recorded_wave == before.settings.last_recorded_wave,
        forall|other: Address|
            other != user ==> #[trigger] after.account(other) == before.account(other),
    ensures
        before.registered() ==> after.registered(),
        before.waves_in_order() ==> after.waves_in_order(),
{
    lemma_without(before.stakers, user);
    if before.registered() {
        assert(before.enlisted(user));
        assert forall|other: Address| #[trigger] after.enlisted(other) by {
            assert(before.enlisted(other));
            lemma_push(before.stakers, user, other);
        }
        assert forall|i: int, j: int|
            0 <= i < after.stakers.len() && 0 <= j < after.stakers.len() && i
                != j implies after.stakers[i] != after.stakers[j] by {
            if after.stakers == before.stakers.push(user) && !before.stakers.contains(user) {
                if i < before.stakers.len() {
                    assert(before.stakers.contains(before.stakers[i]));
                }
                if j < before.stakers.len() {
                    assert(before.stakers.contains(before.stakers[j]));
                }
            }
        }
    }
    if before.waves_in_order() {
        assert forall|other: Address| (#[trigger] after.last_streak(other)).last_active_wave
            <= after.last_wave() by {
            assert(after.last_streak(other) == before.last_streak(other));
        }
    }
}

proof fn lemma_same(before: State, after: State)
    requires
        after.same_register(before),
    ensures
        before.registered() ==> after.registered(),
        before.waves_in_order() ==> after.waves_in_order(),
{
    if before.registered() {
        assert forall|user: Address| #[trigger] after.enlisted(user) by {
            assert(before.enlisted(user));
            assert(after.account(user).shares == before.account(user).shares);
        }
    }
    if before.waves_in_order() {
        assert forall|user: Address| (#[trigger] after.last_streak(user)).last_active_wave
            <= after.last_wave() by {
            assert(after.account(user).streak == before.account(user).streak);
            assert(after.last_streak(user) == before.last_streak(user));
        }
    }
}

proof fn lemma_settled(state: State, user: Address)
    ensures
        state.accrue(user, state.account(user).shares) matches Ok(next) ==> {
            &&& next.stakers == state.stakers
            &&& next.pool.total_stakers == state.pool.total_stakers
            &&& next.account(user).shares == state.account(user).shares
            &&& next.account(user).staked_at == state.account(user).staked_at
            &&& next.account(user).checkpoint is Some
            &&& next.account(user).streak == state.account(user).streak
        },
{
}

proof fn lemma_compounded(state: State, user: Address)
    requires
        state.balanced(),
    ensures
        state.compound(user) matches Ok(next) ==> {
            &&& next.stakers == state.stakers
            &&& next.pool.total_stakers == state.pool.total_stakers
            &&& next.account(user).shares >= state.account(user).shares
            &&& next.account(user).staked_at == state.account(user).staked_at
            &&& next.account(user).checkpoint == state.account(user).checkpoint
            &&& next.account(user).streak == state.account(user).streak
        },
{
    crate::laws::books::compounding_keeps_the_books(state, user);
}

proof fn lemma_credited(state: State, payer: Address, user: Address, amount: i128, fresh: bool)
    requires
        state.balanced(),
        amount > 0,
    ensures
        state.credit(payer, user, amount, fresh) matches Ok((next, _)) ==> {
            let (was, is) = (state.account(user), next.account(user));
            &&& is.shares >= was.shares
            &&& is.streak == was.streak
            &&& is.checkpoint == was.checkpoint
            &&& fresh ==> is.staked_at is Some
            &&& !fresh ==> is.staked_at == was.staked_at
            &&& fresh ==> next.pool.total_stakers == state.pool.total_stakers + 1
            &&& !fresh ==> next.pool.total_stakers == state.pool.total_stakers
            &&& next.stakers == (if fresh && !state.stakers.contains(user) {
                state.stakers.push(user)
            } else {
                state.stakers
            })
        },
{
    crate::laws::books::nobody_holds_more_than_all(state, user);
    crate::laws::books::lemma_minted(state.pool.total_shares, state.pool.total_deposited, amount);
}

proof fn lemma_stake_inner(state: State, user: Address, amount: i128)
    requires
        state.balanced(),
    ensures
        state.stake_inner(user, amount) matches Ok((next, _)) ==> next.follows(state, user),
{
    let shares = state.account(user).shares;
    crate::laws::books::nobody_holds_more_than_all(state, user);
    crate::laws::books::settling_keeps_the_books(state, user);
    lemma_settled(state, user);
    if let Ok((next, _)) = state.stake_inner(user, amount) {
        let settled = state.accrue(user, shares)->Ok_0;
        crate::laws::books::compounding_keeps_the_books(settled, user);
        lemma_compounded(settled, user);
        let compounded = settled.compound(user)->Ok_0;
        lemma_credited(compounded, user, user, amount, shares == 0);
        let credited = compounded.credit(user, user, amount, shares == 0)->Ok_0.0;
        assert(next.accounts == credited.accounts);
        assert(next.stakers == credited.stakers);
        assert(next.pool.total_stakers == credited.pool.total_stakers);
    }
}

proof fn lemma_stake_for(state: State, delegate: Address, user: Address, amount: i128)
    requires
        state.balanced(),
    ensures
        state.stake_for(delegate, user, amount) matches Ok((next, _)) ==> next.follows(state, user),
{
    let shares = state.account(user).shares;
    crate::laws::books::nobody_holds_more_than_all(state, user);
    crate::laws::books::settling_keeps_the_books(state, user);
    lemma_settled(state, user);
    if let Ok((next, _)) = state.stake_for(delegate, user, amount) {
        let settled = state.accrue(user, shares)->Ok_0;
        lemma_credited(settled, delegate, user, amount, shares == 0);
        let credited = settled.credit(delegate, user, amount, shares == 0)->Ok_0.0;
        assert(next.accounts == credited.accounts);
        assert(next.stakers == credited.stakers);
        assert(next.pool.total_stakers == credited.pool.total_stakers);
    }
}

proof fn lemma_claim_inner(state: State, user: Address)
    ensures
        state.claim_inner(user) matches Ok((next, _)) ==> {
            &&& next.stakers == state.stakers
            &&& next.pool.total_stakers == state.pool.total_stakers
            &&& next.account(user).shares == state.account(user).shares
            &&& next.account(user).staked_at == state.account(user).staked_at
            &&& next.account(user).checkpoint is Some
            &&& next.account(user).streak == state.account(user).streak
        },
{
}

proof fn lemma_stake_and_claim(state: State, user: Address, amount: i128, balance: i128)
    requires
        state.balanced(),
    ensures
        state.stake_and_claim(user, amount, balance) matches Ok((next, _)) ==> next.follows(
            state,
            user,
        ),
{
    lemma_claim_inner(state, user);
    crate::laws::books::lemma_claim_inner(state, user);
    if let Ok((next, reward)) = state.stake_and_claim(user, amount, balance) {
        let claimed = state.claim_inner(user)->Ok_0.0;
        let watched = if reward != 0 {
            claimed.check_auto_pause(balance)->Ok_0
        } else {
            claimed
        };
        assert(watched.accounts == claimed.accounts);
        assert(watched.balanced());
        lemma_stake_inner(watched, user, amount);
        assert(watched.stakers == state.stakers);
    }
}

proof fn lemma_debited(state: State, user: Address, shares: i128)
    requires
        0 < shares <= state.account(user).shares,
    ensures
        state.debit(user, shares) matches Ok((next, _)) ==> next.follows(state, user),
{
}

proof fn lemma_unstake(state: State, user: Address, shares: i128)
    requires
        state.balanced(),
    ensures
        state.unstake(user, shares) matches Ok((next, _)) ==> next.follows(state, user),
        state.unstake_all(user) matches Ok((next, _)) ==> next.follows(state, user),
{
    let held = state.account(user).shares;
    crate::laws::books::nobody_holds_more_than_all(state, user);
    crate::laws::books::settling_keeps_the_books(state, user);
    lemma_settled(state, user);
    if let Ok(settled) = state.accrue(user, held) {
        lemma_compounded(settled, user);
        if let Ok(compounded) = settled.compound(user) {
            let all = compounded.account(user).shares;
            if 0 < shares <= held {
                lemma_debited(compounded, user, shares);
            }
            if 0 < all {
                lemma_debited(compounded, user, all);
            }
        }
    }
}

proof fn lemma_taken_out(state: State, user: Address, shares: i128, amount: i128)
    requires
        0 <= shares <= state.account(user).shares,
        state.account(user).shares > 0,
    ensures
        state.take_out(user, shares, amount) matches Ok(next) ==> next.follows(state, user),
{
}

proof fn lemma_request(state: State, user: Address, amount: i128)
    requires
        state.balanced(),
    ensures
        state.request_unstake(user, amount) matches Ok(next) ==> next.follows(state, user),
{
    let shares = state.account(user).shares;
    crate::laws::books::nobody_holds_more_than_all(state, user);
    lemma_settled(state, user);
    if let Ok(next) = state.request_unstake(user, amount) {
        let position = state.worth(shares)->Some_0;
        let wanted = crate::math::smaller(amount as int, position as int) as i128;
        let burned = state.shares_for(shares, wanted);
        crate::laws::books::shares_for_an_amount(state, user, wanted);
        let settled = state.accrue(user, shares)->Ok_0;
        let removed = state.worth(burned)->Some_0;
        lemma_taken_out(settled, user, burned, removed);
        let taken = settled.take_out(user, burned, removed)->Ok_0;
        assert(next.stakers == taken.stakers);
    }
}

proof fn lemma_slash(state: State, admin_addr: Address, user: Address, amount: i128)
    requires
        state.balanced(),
    ensures
        state.slash(admin_addr, user, amount) matches Ok((next, _)) ==> {
            &&& next.follows(state, user)
            &&& next.settings == state.settings
            &&& forall|other: Address|
                other != user ==> #[trigger] next.account(other) == state.account(other)
        },
{
    let shares = state.account(user).shares;
    crate::laws::books::nobody_holds_more_than_all(state, user);
    if let Ok((next, _)) = state.slash(admin_addr, user, amount) {
        let position = state.worth(shares)->Some_0;
        crate::laws::books::lemma_worth(
            state.pool.total_shares,
            state.pool.total_deposited,
            shares,
        );
        let actual = crate::math::smaller(amount as int, position as int) as i128;
        let burned = state.shares_for(shares, actual);
        crate::laws::books::shares_for_an_amount(state, user, actual);
        lemma_taken_out(state, user, burned, actual);
    }
}

proof fn lemma_handed_over(before: State, after: State, from: Address, to: Address)
    requires
        before.balanced(),
        before.account(from).shares != 0,
        before.account(to).shares <= 0,
        after.stakers == crate::history::succeeded(before.stakers, from, to),
        after.pool.total_stakers == before.pool.total_stakers,
        after.settings.last_recorded_wave == before.settings.last_recorded_wave,
        forall|other: Address|
            other != from && other != to ==> #[trigger] after.account(other) == before.account(
                other,
            ),
        after.account(from).shares == 0,
        after.account(to).shares == before.account(from).shares,
        after.account(to).begun(),
        after.account(from).streak == before.account(from).streak,
        after.account(to).streak == before.account(to).streak,
    ensures
        before.registered() ==> after.registered(),
        before.waves_in_order() ==> after.waves_in_order(),
{
    crate::laws::books::nobody_holds_more_than_all(before, from);
    if before.registered() {
        assert(before.enlisted(from));
        lemma_succeeded(before.stakers, from, to);
        assert forall|other: Address| #[trigger] after.enlisted(other) by {
            assert(before.enlisted(other));
        }
    }
    if before.waves_in_order() {
        assert forall|other: Address| (#[trigger] after.last_streak(other)).last_active_wave
            <= after.last_wave() by {
            assert(after.last_streak(other) == before.last_streak(other));
        }
    }
}

proof fn lemma_transfers(state: State, from: Address, to: Address)
    requires
        state.balanced(),
    ensures
        state.transfer_position(from, to) matches Ok(next) ==> (state.registered()
            ==> next.registered()) && (state.waves_in_order() ==> next.waves_in_order()),
        state.transfer_position_with_rewards(from, to) matches Ok(next) ==> (state.registered()
            ==> next.registered()) && (state.waves_in_order() ==> next.waves_in_order()),
{
    crate::laws::books::nobody_holds_more_than_all(state, from);
    lemma_settled(state, from);
    if let Ok(next) = state.transfer_position(from, to) {
        lemma_handed_over(state, next, from, to);
    }
    if let Ok(next) = state.transfer_position_with_rewards(from, to) {
        lemma_handed_over(state, next, from, to);
    }
}

proof fn lemma_merge(state: State, user: Address)
    ensures
        state.merge_positions(user) matches Ok(next) ==> next.follows(state, user),
{
    lemma_settled(state, user);
}

proof fn lemma_epoch_claim(state: State, user: Address)
    ensures
        state.claim_epoch_rewards(user) matches Ok((next, _)) ==> next.follows(state, user),
{
}

#[verifier::spinoff_prover]
#[verifier::rlimit(40)]
proof fn lemma_stake_follows(state: State, call: UserCall)
    requires
        state.balanced(),
        call is Stake || call is StakeFor || call is StakeAndClaim || call is Unstake
            || call is UnstakeAll || call is RequestUnstake,
    ensures
        state.user_step(call) matches Ok(next) ==> next.follows(
            state,
            crate::laws::consent::first_party(call),
        ),
{
    reveal(State::user_step);
    match call {
        UserCall::Stake { staker, amount } => lemma_stake_inner(state, staker, amount),
        UserCall::StakeFor { delegate, beneficiary, amount } => {
            lemma_stake_for(state, delegate, beneficiary, amount)
        },
        UserCall::StakeAndClaim { user, amount, reward_balance } => {
            lemma_stake_and_claim(state, user, amount, reward_balance)
        },
        UserCall::Unstake { staker, shares } => lemma_unstake(state, staker, shares),
        UserCall::UnstakeAll { user } => lemma_unstake(state, user, 0),
        UserCall::RequestUnstake { user, amount } => lemma_request(state, user, amount),
        _ => {},
    }
}

#[verifier::spinoff_prover]
#[verifier::rlimit(40)]
proof fn lemma_user_follows(state: State, call: UserCall)
    requires
        state.balanced(),
        !(call is TransferPosition),
        !(call is TransferPositionWithRewards),
    ensures
        state.user_step(call) matches Ok(next) ==> next.follows(
            state,
            crate::laws::consent::first_party(call),
        ),
{
    if call is Stake || call is StakeFor || call is StakeAndClaim || call is Unstake
        || call is UnstakeAll || call is RequestUnstake {
        lemma_stake_follows(state, call);
    } else {
        reveal(State::user_step);
        match call {
            UserCall::Claim { staker } => lemma_claim_inner(state, staker),
            UserCall::ClaimEpochRewards { user } => lemma_epoch_claim(state, user),
            UserCall::MergePositions { user } => lemma_merge(state, user),
            _ => {},
        }
    }
}

proof fn lemma_user(state: State, call: UserCall)
    requires
        state.balanced(),
    ensures
        state.user_step(call) matches Ok(next) ==> (state.registered() ==> next.registered()) && (
        state.waves_in_order() ==> next.waves_in_order()),
{
    match call {
        UserCall::TransferPosition { from, to } => {
            reveal(State::user_step);
            lemma_transfers(state, from, to);
        },
        UserCall::TransferPositionWithRewards { from, to } => {
            reveal(State::user_step);
            lemma_transfers(state, from, to);
        },
        _ => {
            lemma_user_follows(state, call);
            crate::laws::consent::users_change_what_is_theirs(state, call);
            if let Ok(next) = state.user_step(call) {
                lemma_follows(state, next, crate::laws::consent::first_party(call));
            }
        },
    }
}

proof fn lemma_owner(state: State, call: OwnerCall)
    ensures
        state.owner_step(call) matches Ok(next) ==> next.same_register(state),
{
    reveal(State::owner_step);
}

proof fn lemma_mark(state: State, call: MarkCall)
    ensures
        state.mark_step(call) matches Ok(next) ==> next.same_register(state),
{
    reveal(State::mark_step);
}

proof fn lemma_admin(state: State, call: AdminCall)
    ensures
        state.admin_step(call) matches Ok(next) ==> next.same_register(state),
{
    reveal(State::admin_step);
}

proof fn lemma_plan(state: State, call: PlanCall)
    ensures
        state.plan_step(call) matches Ok(next) ==> next.same_register(state),
{
    reveal(State::plan_step);
}

proof fn lemma_setting(state: State, call: SettingCall)
    ensures
        state.setting_step(call) matches Ok(next) ==> next.same_register(state),
{
    reveal(State::setting_step);
}

proof fn lemma_carry_on(state: State, active: Seq<Address>, last: u32, wave: u32, user: Address)
    ensures
        state.carry_on(active, last, wave) matches Ok(next) ==> {
            &&& next.stakers == state.stakers
            &&& next.pool == state.pool
            &&& next.account(user).shares == state.account(user).shares
            &&& next.account(user).begun() == state.account(user).begun()
            &&& next.last_streak(user).last_active_wave == wave || next.last_streak(user)
                == state.last_streak(user)
        },
    decreases active.len(),
{
    if active.len() > 0 {
        lemma_carry_on(state, active.drop_last(), last, wave, user);
    }
}

proof fn lemma_wave_of(state: State, wave: u32, active: Seq<Address>, user: Address)
    ensures
        state.record_wave_activity(wave, active) matches Ok(next) ==> {
            &&& next.stakers == state.stakers
            &&& next.pool == state.pool
            &&& next.last_wave() == wave
            &&& wave > state.last_wave()
            &&& next.account(user).shares == state.account(user).shares
            &&& next.account(user).begun() == state.account(user).begun()
            &&& next.last_streak(user).last_active_wave == wave || next.last_streak(
                user,
            ).last_active_wave == state.last_streak(user).last_active_wave
        },
{
    let lapsed = state.lapse(active);
    assert(lapsed.accounts.contains_key(user) == state.accounts.contains_key(user));
    lemma_carry_on(lapsed, active, state.last_wave(), wave, user);
    if let Ok(next) = state.record_wave_activity(wave, active) {
        let carried = lapsed.carry_on(active, state.last_wave(), wave)->Ok_0;
        assert(next.account(user) == carried.account(user));
    }
}

proof fn lemma_wave(state: State, wave: u32, active: Seq<Address>)
    ensures
        state.record_wave_activity(wave, active) matches Ok(next) ==> (state.registered()
            ==> next.registered()) && (state.waves_in_order() ==> next.waves_in_order()),
{
    if let Ok(next) = state.record_wave_activity(wave, active) {
        lemma_wave_of(state, wave, active, state.contract);
        if state.registered() {
            assert forall|user: Address| #[trigger] next.enlisted(user) by {
                assert(state.enlisted(user));
                lemma_wave_of(state, wave, active, user);
            }
        }
        if state.waves_in_order() {
            assert forall|user: Address| (#[trigger] next.last_streak(user)).last_active_wave
                <= next.last_wave() by {
                lemma_wave_of(state, wave, active, user);
                assert(state.last_streak(user).last_active_wave <= state.last_wave());
            }
        }
    }
}

proof fn lemma_manage(state: State, call: ManageCall)
    requires
        state.balanced(),
    ensures
        state.manage_step(call) matches Ok(next) ==> (state.registered() ==> next.registered())
            && (state.waves_in_order() ==> next.waves_in_order()),
{
    reveal(State::manage_step);
    match call {
        ManageCall::Slash { admin_addr, user, amount } => {
            lemma_slash(state, admin_addr, user, amount);
            if let Ok((next, _)) = state.slash(admin_addr, user, amount) {
                lemma_follows(state, next, user);
            }
        },
        ManageCall::RecordWaveActivity { wave_id, active_users } => {
            lemma_wave(state, wave_id, active_users)
        },
        _ => {
            if let Ok(next) = state.manage_step(call) {
                lemma_same(state, next);
            }
        },
    }
}

/// Every call leaves the list of stakers with all users who have shares, nobody twice and no more
/// than were counted, and nobody active in a wave that is still to come.
pub proof fn the_register_is_kept(state: State, call: Call)
    requires
        state.balanced(),
    ensures
        state.step(call) matches Ok(next) ==> (state.registered() ==> next.registered()) && (
        state.waves_in_order() ==> next.waves_in_order()),
{
    match call {
        Call::User(call) => lemma_user(state, call),
        Call::Manage(call) => lemma_manage(state, call),
        Call::Owner(call) => lemma_owner(state, call),
        Call::Mark(call) => lemma_mark(state, call),
        Call::Admin(call) => lemma_admin(state, call),
        Call::Plan(call) => lemma_plan(state, call),
        Call::Setting(call) => lemma_setting(state, call),
    }
    if let Ok(next) = state.step(call) {
        if !(call is User) && !(call is Manage) {
            lemma_same(state, next);
        }
    }
}

} // verus!
