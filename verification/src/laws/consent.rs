//! Nobody changes what is not theirs to change.
use crate::address::Address;
use crate::calls::{
    AdminCall, ManageCall, MarkCall, OwnerCall, PlanCall, SettingCall, UserCall,
};
use crate::env::State;
use vstd::prelude::*;

verus! {

impl State {
    /// Nothing differs that is the admin's to change.
    pub open spec fn same_settings(self, other: State) -> bool {
        &&& self.settings == other.settings
        &&& self.boost_schedule == other.boost_schedule
        &&& self.rate_history == other.rate_history
        &&& self.reward_rate_history == other.reward_rate_history
        &&& self.changelog == other.changelog
        &&& self.snapshots == other.snapshots
        &&& self.description == other.description
        &&& self.epoch_factors == other.epoch_factors
        &&& self.epoch_stakes == other.epoch_stakes
        &&& self.sequence == other.sequence
        &&& self.contract == other.contract
        &&& self.signers == other.signers
    }

    /// Nothing differs that is stored about anybody but two users.
    pub open spec fn leaves_others(self, other: State, one: Address, two: Address) -> bool {
        &&& forall|user: Address|
            user != one && user != two ==> #[trigger] self.account(user) == other.account(user)
        &&& forall|user: Address|
            user != one && user != two ==> #[trigger] self.votes_of(user) == other.votes_of(user)
        &&& forall|user: Address|
            user != one && user != two ==> #[trigger] self.stake_log_of(user)
                == other.stake_log_of(user)
        &&& forall|user: Address|
            user != one && user != two ==> #[trigger] self.vesting_of(user) == other.vesting_of(
                user,
            )
    }

    /// Nothing differs but what is stored about one user, and the totals.
    pub open spec fn about(self, other: State, user: Address) -> bool {
        self.same_settings(other) && self.leaves_others(other, user, user)
    }
}

/// The user whose account a call can change.
pub open spec fn first_party(call: UserCall) -> Address {
    match call {
        UserCall::Stake { staker, .. } => staker,
        UserCall::StakeFor { beneficiary, .. } => beneficiary,
        UserCall::StakeAndClaim { user, .. } => user,
        UserCall::Unstake { staker, .. } => staker,
        UserCall::UnstakeAll { user } => user,
        UserCall::RequestUnstake { user, .. } => user,
        UserCall::Claim { staker } => staker,
        UserCall::ClaimEpochRewards { user } => user,
        UserCall::TransferPosition { from, .. } => from,
        UserCall::TransferPositionWithRewards { from, .. } => from,
        UserCall::MergePositions { user } => user,
    }
}

/// The other user whose account it can change: the one who gets a position.
pub open spec fn second_party(call: UserCall) -> Address {
    match call {
        UserCall::TransferPosition { to, .. } => to,
        UserCall::TransferPositionWithRewards { to, .. } => to,
        _ => first_party(call),
    }
}

/// The user who has to authorise a call.
pub open spec fn caller(call: UserCall) -> Address {
    match call {
        UserCall::StakeFor { delegate, .. } => delegate,
        _ => first_party(call),
    }
}

/// The user whose call it is, where it is one's.
pub open spec fn owner(call: OwnerCall) -> Option<Address> {
    match call {
        OwnerCall::ExecuteUnstake { user } => Some(user),
        OwnerCall::CheckAutoPause { .. } => None,
        OwnerCall::WithdrawVested { user } => Some(user),
        OwnerCall::WithdrawAllVested { user } => Some(user),
        OwnerCall::ApproveDelegate { user, .. } => Some(user),
        OwnerCall::RevokeDelegate { user, .. } => Some(user),
        OwnerCall::SetAutoRestake { user, .. } => Some(user),
    }
}

proof fn lemma_parts(state: State, user: Address, shares: i128, amount: i128)
    ensures
        state.accrue(user, shares) matches Ok(next) ==> next.about(state, user),
        state.compound(user) matches Ok(next) ==> next.about(state, user),
        state.closed(user).about(state, user),
        state.opened(user, amount).about(state, user),
        state.left(user).about(state, user),
        state.deliver(user, amount) matches Ok(next) ==> next.about(state, user),
        state.booked(user, amount) matches Ok(next) ==> next.about(state, user),
        state.unbond(user, amount) matches Ok(next) ==> next.about(state, user),
        state.check_auto_pause(amount) matches Ok(next) ==> next.about(state, user),
        state.release(user, amount) matches Ok(next) ==> next.about(state, user),
{
}

proof fn lemma_credit(
    state: State,
    payer: Address,
    user: Address,
    amount: i128,
    fresh: bool,
)
    ensures
        state.credit(payer, user, amount, fresh) matches Ok((next, _)) ==> next.about(state, user),
{
}

proof fn lemma_take_out(state: State, user: Address, shares: i128, amount: i128)
    ensures
        state.take_out(user, shares, amount) matches Ok(next) ==> next.about(state, user),
{
}

proof fn lemma_debit(state: State, user: Address, shares: i128)
    ensures
        state.debit(user, shares) matches Ok((next, _)) ==> next.about(state, user),
{
    if let Ok((next, returned)) = state.debit(user, shares) {
        assert(forall|s: State, t: Address| #[trigger]
            s.unstaked(user, shares, t, returned).about(s, user)) by {
            assert forall|s: State, t: Address| #[trigger]
                s.unstaked(user, shares, t, returned).about(s, user) by {
                lemma_parts(s, user, shares, returned);
            }
        }
    }
}

proof fn lemma_stake_inner(state: State, staker: Address, amount: i128)
    ensures
        state.stake_inner(staker, amount) matches Ok((next, _)) ==> next.about(state, staker),
{
    let shares = state.account(staker).shares;
    lemma_parts(state, staker, shares, amount);
    if let Ok(settled) = state.accrue(staker, shares) {
        lemma_parts(settled, staker, shares, amount);
        if let Ok(compounded) = settled.compound(staker) {
            lemma_credit(compounded, staker, staker, amount, shares == 0);
        }
    }
}

proof fn lemma_unstake(state: State, staker: Address, shares: i128)
    ensures
        state.unstake(staker, shares) matches Ok((next, _)) ==> next.about(state, staker),
{
    let held = state.account(staker).shares;
    lemma_parts(state, staker, held, 0);
    if let Ok(settled) = state.accrue(staker, held) {
        lemma_parts(settled, staker, held, 0);
        if let Ok(compounded) = settled.compound(staker) {
            lemma_debit(compounded, staker, shares);
        }
    }
}

proof fn lemma_claim_inner(state: State, staker: Address)
    ensures
        state.claim_inner(staker) matches Ok((next, _)) ==> next.about(state, staker),
{
    let shares = state.account(staker).shares;
    lemma_parts(state, staker, shares, 0);
    if let Ok(settled) = state.accrue(staker, shares) {
        let reward = settled.payable(staker, settled.account(staker).accrued);
        lemma_parts(settled, staker, shares, reward);
        if let Ok(delivered) = settled.deliver(staker, reward) {
            lemma_parts(delivered, staker, shares, reward);
        }
    }
}

proof fn lemma_request(state: State, user: Address, amount: i128)
    ensures
        state.request_unstake(user, amount) matches Ok(next) ==> next.about(state, user),
{
    let shares = state.account(user).shares;
    lemma_parts(state, user, shares, 0);
    if let Some(position) = state.worth(shares) {
        let wanted = crate::math::smaller(amount as int, position as int) as i128;
        let burned = state.shares_for(shares, wanted);
        if let (Ok(settled), Some(removed)) = (state.accrue(user, shares), state.worth(burned)) {
            lemma_take_out(settled, user, burned, removed);
            if let Ok(taken) = settled.take_out(user, burned, removed) {
                lemma_parts(taken, user, shares, removed);
            }
        }
    }
}

proof fn lemma_stake_for(
    state: State,
    delegate: Address,
    user: Address,
    amount: i128,
)
    ensures
        state.stake_for(delegate, user, amount) matches Ok((next, _)) ==> next.about(state, user),
{
    let shares = state.account(user).shares;
    lemma_parts(state, user, shares, amount);
    if let Ok(settled) = state.accrue(user, shares) {
        lemma_credit(settled, delegate, user, amount, shares == 0);
    }
}

proof fn lemma_stake_and_claim(
    state: State,
    user: Address,
    amount: i128,
    balance: i128,
)
    ensures
        state.stake_and_claim(user, amount, balance) matches Ok((next, _))
            ==> next.about(state, user),
{
    lemma_claim_inner(state, user);
    if let Ok((claimed, reward)) = state.claim_inner(user) {
        lemma_parts(claimed, user, 0, balance);
        lemma_stake_inner(claimed, user, amount);
        if let Ok(watched) = claimed.check_auto_pause(balance) {
            lemma_stake_inner(watched, user, amount);
        }
    }
}

proof fn lemma_epoch_claim(state: State, user: Address)
    ensures
        state.claim_epoch_rewards(user) matches Ok((next, _)) ==> next.about(state, user),
{
    let last = state.account(user).last_claimed_epoch;
    if let Some(epoch) = state.settings.current_epoch {
        if let Some(reward) = state.epoch_total(user, last as int, epoch.epoch_number as int) {
            lemma_parts(state, user, 0, reward);
            if let Ok(delivered) = state.deliver(user, reward) {
                lemma_parts(delivered, user, 0, reward);
            }
        }
    }
}

proof fn lemma_transfers(state: State, from: Address, to: Address)
    ensures
        state.transfer_position(from, to) matches Ok(next) ==> next.same_settings(state)
            && next.leaves_others(state, from, to),
        state.transfer_position_with_rewards(from, to) matches Ok(next) ==> next.same_settings(state)
            && next.leaves_others(state, from, to),
{
    lemma_parts(state, from, state.account(from).shares, 0);
}

proof fn lemma_stake_step(state: State, staker: Address, amount: i128)
    ensures
        ({
            let call = UserCall::Stake { staker, amount };
            state.user_step(call) matches Ok(next) ==> next.same_settings(state)
                && next.leaves_others(state, first_party(call), second_party(call))
        }),
        ({
            let call = UserCall::Stake { staker, amount };
            !state.authorized(caller(call)) ==> state.user_step(call) is Err
        }),
{
    reveal(State::user_step);
    lemma_stake_inner(state, staker, amount);
}

proof fn lemma_stake_for_step(state: State, delegate: Address, beneficiary: Address, amount: i128)
    ensures
        ({
            let call = UserCall::StakeFor { delegate, beneficiary, amount };
            state.user_step(call) matches Ok(next) ==> next.same_settings(state)
                && next.leaves_others(state, first_party(call), second_party(call))
        }),
        ({
            let call = UserCall::StakeFor { delegate, beneficiary, amount };
            !state.authorized(caller(call)) ==> state.user_step(call) is Err
        }),
{
    reveal(State::user_step);
    lemma_stake_for(state, delegate, beneficiary, amount);
}

proof fn lemma_stake_and_claim_step(state: State, user: Address, amount: i128, reward_balance: i128)
    ensures
        ({
            let call = UserCall::StakeAndClaim { user, amount, reward_balance };
            state.user_step(call) matches Ok(next) ==> next.same_settings(state)
                && next.leaves_others(state, first_party(call), second_party(call))
        }),
        ({
            let call = UserCall::StakeAndClaim { user, amount, reward_balance };
            !state.authorized(caller(call)) ==> state.user_step(call) is Err
        }),
{
    reveal(State::user_step);
    lemma_stake_and_claim(state, user, amount, reward_balance);
}

proof fn lemma_unstake_step(state: State, staker: Address, shares: i128)
    ensures
        ({
            let call = UserCall::Unstake { staker, shares };
            state.user_step(call) matches Ok(next) ==> next.same_settings(state)
                && next.leaves_others(state, first_party(call), second_party(call))
        }),
        ({
            let call = UserCall::Unstake { staker, shares };
            !state.authorized(caller(call)) ==> state.user_step(call) is Err
        }),
{
    reveal(State::user_step);
    lemma_unstake(state, staker, shares);
}

proof fn lemma_unstake_all_step(state: State, user: Address)
    ensures
        ({
            let call = UserCall::UnstakeAll { user };
            state.user_step(call) matches Ok(next) ==> next.same_settings(state)
                && next.leaves_others(state, first_party(call), second_party(call))
        }),
        ({
            let call = UserCall::UnstakeAll { user };
            !state.authorized(caller(call)) ==> state.user_step(call) is Err
        }),
{
    reveal(State::user_step);
    let held = state.account(user).shares;
    lemma_parts(state, user, held, 0);
    if let Ok(settled) = state.accrue(user, held) {
        lemma_parts(settled, user, held, 0);
        if let Ok(compounded) = settled.compound(user) {
            lemma_debit(compounded, user, compounded.account(user).shares);
        }
    }
}

proof fn lemma_request_unstake_step(state: State, user: Address, amount: i128)
    ensures
        ({
            let call = UserCall::RequestUnstake { user, amount };
            state.user_step(call) matches Ok(next) ==> next.same_settings(state)
                && next.leaves_others(state, first_party(call), second_party(call))
        }),
        ({
            let call = UserCall::RequestUnstake { user, amount };
            !state.authorized(caller(call)) ==> state.user_step(call) is Err
        }),
{
    reveal(State::user_step);
    lemma_request(state, user, amount);
}

proof fn lemma_claim_step(state: State, staker: Address)
    ensures
        ({
            let call = UserCall::Claim { staker };
            state.user_step(call) matches Ok(next) ==> next.same_settings(state)
                && next.leaves_others(state, first_party(call), second_party(call))
        }),
        ({
            let call = UserCall::Claim { staker };
            !state.authorized(caller(call)) ==> state.user_step(call) is Err
        }),
{
    reveal(State::user_step);
    lemma_claim_inner(state, staker);
}

proof fn lemma_claim_epoch_rewards_step(state: State, user: Address)
    ensures
        ({
            let call = UserCall::ClaimEpochRewards { user };
            state.user_step(call) matches Ok(next) ==> next.same_settings(state)
                && next.leaves_others(state, first_party(call), second_party(call))
        }),
        ({
            let call = UserCall::ClaimEpochRewards { user };
            !state.authorized(caller(call)) ==> state.user_step(call) is Err
        }),
{
    reveal(State::user_step);
    lemma_epoch_claim(state, user);
}

proof fn lemma_transfer_position_step(state: State, from: Address, to: Address)
    ensures
        ({
            let call = UserCall::TransferPosition { from, to };
            state.user_step(call) matches Ok(next) ==> next.same_settings(state)
                && next.leaves_others(state, first_party(call), second_party(call))
        }),
        ({
            let call = UserCall::TransferPosition { from, to };
            !state.authorized(caller(call)) ==> state.user_step(call) is Err
        }),
{
    reveal(State::user_step);
    lemma_transfers(state, from, to);
}

proof fn lemma_transfer_position_with_rewards_step(state: State, from: Address, to: Address)
    ensures
        ({
            let call = UserCall::TransferPositionWithRewards { from, to };
            state.user_step(call) matches Ok(next) ==> next.same_settings(state)
                && next.leaves_others(state, first_party(call), second_party(call))
        }),
        ({
            let call = UserCall::TransferPositionWithRewards { from, to };
            !state.authorized(caller(call)) ==> state.user_step(call) is Err
        }),
{
    reveal(State::user_step);
    lemma_transfers(state, from, to);
}

proof fn lemma_merge_positions_step(state: State, user: Address)
    ensures
        ({
            let call = UserCall::MergePositions { user };
            state.user_step(call) matches Ok(next) ==> next.same_settings(state)
                && next.leaves_others(state, first_party(call), second_party(call))
        }),
        ({
            let call = UserCall::MergePositions { user };
            !state.authorized(caller(call)) ==> state.user_step(call) is Err
        }),
{
    reveal(State::user_step);
    lemma_parts(state, user, state.account(user).shares, 0);
}

/// A call of a user changes what is stored about its parties, and the totals: no setting, and
/// nothing that belongs to others. It fails without the authorisation of its caller.
pub proof fn users_change_what_is_theirs(state: State, call: UserCall)
    ensures
        state.user_step(call) matches Ok(next) ==> next.same_settings(state)
            && next.leaves_others(state, first_party(call), second_party(call)),
        !state.authorized(caller(call)) ==> state.user_step(call) is Err,
{
    match call {
        UserCall::Stake { staker, amount } => {
            lemma_stake_step(state, staker, amount);
        },
        UserCall::StakeFor { delegate, beneficiary, amount } => {
            lemma_stake_for_step(state, delegate, beneficiary, amount);
        },
        UserCall::StakeAndClaim { user, amount, reward_balance } => {
            lemma_stake_and_claim_step(state, user, amount, reward_balance);
        },
        UserCall::Unstake { staker, shares } => {
            lemma_unstake_step(state, staker, shares);
        },
        UserCall::UnstakeAll { user } => {
            lemma_unstake_all_step(state, user);
        },
        UserCall::RequestUnstake { user, amount } => {
            lemma_request_unstake_step(state, user, amount);
        },
        UserCall::Claim { staker } => {
            lemma_claim_step(state, staker);
        },
        UserCall::ClaimEpochRewards { user } => {
            lemma_claim_epoch_rewards_step(state, user);
        },
        UserCall::TransferPosition { from, to } => {
            lemma_transfer_position_step(state, from, to);
        },
        UserCall::TransferPositionWithRewards { from, to } => {
            lemma_transfer_position_with_rewards_step(state, from, to);
        },
        UserCall::MergePositions { user } => {
            lemma_merge_positions_step(state, user);
        },
    }
}

/// So does a call that pays out or changes a choice.
pub proof fn owners_change_what_is_theirs(state: State, call: OwnerCall)
    ensures
        state.owner_step(call) matches Ok(next) ==> {
            &&& next.same_settings(state)
            &&& forall|user: Address|
                owner(call) != Some(user) ==> #[trigger] next.account(user) == state.account(user)
        },
        owner(call) matches Some(user) ==> !state.authorized(user) ==> state.owner_step(call) is Err,
{
    reveal(State::owner_step);
}

/// The calls of the admin are the admin's: each one fails without their authorisation. Only
/// `initialize` needs none, and it fails once there is an admin.
pub proof fn only_the_admin_administers(
    state: State,
    manage: ManageCall,
    mark: MarkCall,
    change: AdminCall,
    plan: PlanCall,
    setting: SettingCall,
)
    requires
        state.settings.admin matches Some(admin) ==> !state.authorized(admin),
    ensures
        state.manage_step(manage) is Err,
        state.mark_step(mark) is Err,
        state.plan_step(plan) is Err,
        state.setting_step(setting) is Err,
        !(change is Initialize) ==> state.admin_step(change) is Err,
        state.settings.admin is Some ==> state.admin_step(change) is Err,
{
    lemma_manage_is_the_admins(state, manage);
    lemma_marks_are_the_admins(state, mark);
    lemma_changes_are_the_admins(state, change);
    lemma_plans_are_the_admins(state, plan);
    lemma_settings_are_the_admins(state, setting);
}

proof fn lemma_manage_is_the_admins(state: State, call: ManageCall)
    requires
        state.settings.admin matches Some(admin) ==> !state.authorized(admin),
    ensures
        state.manage_step(call) is Err,
{
    reveal(State::manage_step);
}

proof fn lemma_marks_are_the_admins(state: State, call: MarkCall)
    requires
        state.settings.admin matches Some(admin) ==> !state.authorized(admin),
    ensures
        state.mark_step(call) is Err,
{
    reveal(State::mark_step);
}

proof fn lemma_changes_are_the_admins(state: State, call: AdminCall)
    requires
        state.settings.admin matches Some(admin) ==> !state.authorized(admin),
    ensures
        !(call is Initialize) ==> state.admin_step(call) is Err,
        state.settings.admin is Some ==> state.admin_step(call) is Err,
{
    reveal(State::admin_step);
}

proof fn lemma_plans_are_the_admins(state: State, call: PlanCall)
    requires
        state.settings.admin matches Some(admin) ==> !state.authorized(admin),
    ensures
        state.plan_step(call) is Err,
{
    reveal(State::plan_step);
}

proof fn lemma_settings_are_the_admins(state: State, call: SettingCall)
    requires
        state.settings.admin matches Some(admin) ==> !state.authorized(admin),
    ensures
        state.setting_step(call) is Err,
{
    reveal(State::setting_step);
}

} // verus!
