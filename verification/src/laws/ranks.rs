//! Ranks are an order: by the size of the position, and by the address text where two are as
//! large.
use crate::address::Address;
use crate::env::State;
use vstd::prelude::*;

verus! {

proof fn lemma_precedes_not_both(a: Seq<u8>, b: Seq<u8>)
    ensures
        !(crate::address::precedes(a, b) && crate::address::precedes(b, a)),
    decreases a.len(),
{
    if a.len() > 0 && b.len() > 0 && a[0] == b[0] {
        lemma_precedes_not_both(a.skip(1), b.skip(1));
    }
}

proof fn lemma_precedes_chain(a: Seq<u8>, b: Seq<u8>, c: Seq<u8>)
    requires
        crate::address::precedes(a, b),
        crate::address::precedes(b, c),
    ensures
        crate::address::precedes(a, c),
    decreases a.len(),
{
    if a.len() > 0 && b.len() > 0 && c.len() > 0 && a[0] == b[0] && b[0] == c[0] {
        lemma_precedes_chain(a.skip(1), b.skip(1), c.skip(1));
    }
}

/// Of two stakers at most one outranks the other.
pub proof fn ranks_do_not_clash(state: State, one: Address, other: Address)
    ensures
        !(state.outranks(one, other) && state.outranks(other, one)),
{
    lemma_precedes_not_both(one.text(), other.text());
}

/// Who outranks somebody outranks all whom they outrank.
pub proof fn ranks_are_passed_on(state: State, first: Address, second: Address, third: Address)
    requires
        state.outranks(first, second),
        state.outranks(second, third),
    ensures
        state.outranks(first, third),
{
    if state.standing(state.account(first).shares) == state.standing(state.account(second).shares)
        && state.standing(state.account(second).shares) == state.standing(
        state.account(third).shares,
    ) {
        lemma_precedes_chain(first.text(), second.text(), third.text());
        lemma_precedes_not_both(first.text(), third.text());
    }
    if first == third {
        ranks_do_not_clash(state, first, second);
    }
}

proof fn lemma_fewer(
    list: Seq<Address>,
    narrow: spec_fn(Address) -> bool,
    wide: spec_fn(Address) -> bool,
    extra: Address,
)
    requires
        forall|a: Address| narrow(a) ==> #[trigger] wide(a),
        wide(extra),
        !narrow(extra),
    ensures
        list.filter(narrow).len() <= list.filter(wide).len(),
        list.contains(extra) ==> list.filter(narrow).len() < list.filter(wide).len(),
    decreases list.len(),
{
    reveal(Seq::filter);
    if list.len() > 0 {
        let shorter = list.drop_last();
        lemma_fewer(shorter, narrow, wide, extra);
        assert(wide(list.last()) || !narrow(list.last()));
        if list.contains(extra) && list.last() != extra {
            let k = choose|k: int| 0 <= k < list.len() && list[k] == extra;
            assert(shorter[k] == extra);
        }
    }
}

proof fn lemma_better(state: State, one: Address, other: Address)
    requires
        state.outranks(one, other),
        state.stakers.contains(one),
        state.account(other).shares != 0,
        state.stakers.filter(|a: Address| state.outranks(a, other)).len() < u32::MAX,
    ensures
        (state.rank(one), state.rank(other)) matches (Some(better), Some(worse)) && better < worse,
{
    let narrow = |a: Address| state.outranks(a, one);
    let wide = |a: Address| state.outranks(a, other);
    assert forall|a: Address| narrow(a) implies #[trigger] wide(a) by {
        ranks_are_passed_on(state, a, one, other);
    }
    lemma_fewer(state.stakers, narrow, wide, one);
    assert(state.stakers.filter(narrow) == state.stakers.filter(
        |a: Address| state.outranks(a, one),
    ));
    assert(state.stakers.filter(wide) == state.stakers.filter(
        |a: Address| state.outranks(a, other),
    ));
}

/// A staker who outranks another has a better rank.
pub proof fn who_outranks_ranks_higher(state: State, one: Address, other: Address)
    requires
        state.outranks(one, other),
        state.stakers.contains(one),
        state.account(other).shares != 0,
        state.stakers.len() < u32::MAX,
    ensures
        (state.rank(one), state.rank(other)) matches (Some(better), Some(worse)) && better < worse,
{
    state.stakers.lemma_filter_len(|a: Address| state.outranks(a, other));
    lemma_better(state, one, other);
}

/// As many outrank a user as their rank says, and fewer than there are users with shares.
proof fn lemma_outranked_by(state: State, user: Address)
    requires
        state.balanced(),
        state.registered(),
        state.account(user).shares > 0,
    ensures
        state.stakers.filter(|a: Address| state.outranks(a, user)).len() < state.holders().len(),
        state.holders().len() <= u32::MAX,
{
    assert(state.enlisted(user));
    let narrow = |a: Address| state.outranks(a, user);
    let wide = |a: Address| state.account(a).shares > 0;
    assert forall|a: Address| narrow(a) implies #[trigger] wide(a) by {
        crate::laws::books::nobody_holds_more_than_all(state, a);
    }
    lemma_fewer(state.stakers, narrow, wide, user);
    state.stakers.lemma_filter_len(wide);
    assert(state.holders() == state.stakers.filter(wide));
    assert(state.stakers.filter(narrow) == state.stakers.filter(
        |a: Address| state.outranks(a, user),
    ));
}

/// The rank of a user with shares is one of the first numbers, as many as there are such users.
pub proof fn ranks_count_the_stakers(state: State, user: Address)
    requires
        state.balanced(),
        state.registered(),
        state.account(user).shares > 0,
    ensures
        state.rank(user) matches Some(rank) && 1 <= rank <= state.holders().len(),
{
    lemma_outranked_by(state, user);
}

/// No two users with shares whose addresses read differently share a rank.
pub proof fn no_two_share_a_rank(state: State, one: Address, other: Address)
    requires
        state.balanced(),
        state.registered(),
        one.text() != other.text(),
        state.account(one).shares > 0,
        state.account(other).shares > 0,
    ensures
        state.rank(one) != state.rank(other),
{
    assert(state.enlisted(one));
    assert(state.enlisted(other));
    lemma_outranked_by(state, one);
    lemma_outranked_by(state, other);
    lemma_precedes_one_way(one.text(), other.text());
    if state.outranks(one, other) {
        lemma_better(state, one, other);
    } else {
        lemma_better(state, other, one);
    }
}

/// Where the addresses of the users with shares read differently, each of the first numbers, as
/// many as there are such users, is the rank of one of them and of no other.
pub proof fn every_rank_is_taken_once(state: State, rank: u32)
    requires
        state.balanced(),
        state.registered(),
        forall|one: Address, other: Address|
            #![trigger one.text(), other.text()]
            state.account(one).shares > 0 && state.account(other).shares > 0 && one != other
                ==> one.text() != other.text(),
        1 <= rank <= state.holders().len(),
    ensures
        exists|user: Address|
            {
                &&& state.account(user).shares > 0
                &&& #[trigger] state.rank(user) == Some(rank)
                &&& forall|other: Address|
                    #[trigger] state.rank(other) == Some(rank) ==> other == user
            },
{
    let holds = |user: Address| state.account(user).shares > 0;
    let holders = state.holders();
    let ranks = holders.map_values(|user: Address| state.rank(user)->Some_0 as int);
    crate::laws::registry::lemma_kept(state.stakers, holds);
    assert(holders == state.stakers.filter(holds));
    assert forall|k: int| 0 <= k < holders.len() implies {
        &&& state.account(#[trigger] holders[k]).shares > 0
        &&& 1 <= ranks[k] <= holders.len()
        &&& state.rank(holders[k]) == Some(ranks[k] as u32)
    } by {
        assert(holders.contains(holders[k]));
        ranks_count_the_stakers(state, holders[k]);
    }
    assert forall|i: int, j: int| 0 <= i < ranks.len() && 0 <= j < ranks.len() && i != j implies
        ranks[i] != ranks[j] by {
        assert(holders[i] != holders[j]);
        no_two_share_a_rank(state, holders[i], holders[j]);
    }
    let end = holders.len() + 1int;
    let first = vstd::set_lib::set_int_range(1, end);
    vstd::set_lib::lemma_int_range(1, end);
    ranks.unique_seq_to_set();
    vstd::seq_lib::seq_to_set_is_finite(ranks);
    assert forall|n: int| #[trigger] ranks.to_set().contains(n) implies first.contains(n) by {
        let k = choose|k: int| 0 <= k < ranks.len() && ranks[k] == n;
        assert(state.account(holders[k]).shares > 0);
    }
    vstd::set_lib::lemma_subset_equality(ranks.to_set(), first);
    assert(first.contains(rank as int));
    assert(ranks.contains(rank as int));
    let k = choose|k: int| 0 <= k < ranks.len() && ranks[k] == rank;
    let user = holders[k];
    assert(state.account(user).shares > 0);
    assert forall|other: Address| #[trigger] state.rank(other) == Some(rank) implies other
        == user by {
        crate::laws::books::nobody_holds_more_than_all(state, other);
        if other != user {
            assert(other.text() != user.text());
            no_two_share_a_rank(state, other, user);
        }
    }
}

proof fn lemma_precedes_one_way(a: Seq<u8>, b: Seq<u8>)
    requires
        a != b,
    ensures
        crate::address::precedes(a, b) || crate::address::precedes(b, a),
    decreases a.len(),
{
    if a.len() == 0 || b.len() == 0 {
        if a.len() == 0 && b.len() == 0 {
            assert(a =~= b);
        }
    } else if a[0] == b[0] {
        if a.skip(1) == b.skip(1) {
            assert(a =~= seq![a[0]] + a.skip(1));
            assert(b =~= seq![b[0]] + b.skip(1));
        }
        lemma_precedes_one_way(a.skip(1), b.skip(1));
    }
}

/// A staker whom nobody outranks ranks first.
pub proof fn the_largest_ranks_first(state: State, user: Address)
    requires
        state.account(user).shares != 0,
        forall|other: Address| #[trigger]
            state.stakers.contains(other) ==> !state.outranks(other, user),
    ensures
        state.rank(user) == Some(1u32),
{
    let above = |other: Address| state.outranks(other, user);
    lemma_none(state.stakers, above);
}

proof fn lemma_none(list: Seq<Address>, pred: spec_fn(Address) -> bool)
    requires
        forall|a: Address| #[trigger] list.contains(a) ==> !pred(a),
    ensures
        list.filter(pred).len() == 0,
    decreases list.len(),
{
    reveal(Seq::filter);
    if list.len() > 0 {
        let shorter = list.drop_last();
        assert(list.contains(list.last())) by {
            assert(list[list.len() - 1] == list.last());
        }
        assert forall|a: Address| #[trigger] shorter.contains(a) implies !pred(a) by {
            let k = choose|k: int| 0 <= k < shorter.len() && shorter[k] == a;
            assert(list[k] == a);
            assert(list.contains(a));
        }
        lemma_none(shorter, pred);
    }
}

} // verus!
