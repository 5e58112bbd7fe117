use stellar_defi_vault::address::{Address, AddressKind};
use stellar_defi_vault::balance::{amount_to_shares, shares_to_amount};
use stellar_defi_vault::env::{Effect, Env};
use stellar_defi_vault::errors::VaultError;
use stellar_defi_vault::events::{self, ActionDetails, Event};
use stellar_defi_vault::history::append;
use stellar_defi_vault::math::mul_div;
use stellar_defi_vault::storage::AdminAction;
use stellar_defi_vault::table::{Table, UserEpochSnapshotKey};

fn user(n: u128) -> Address {
    Address { kind: AddressKind::Account, hi: 7, lo: n }
}

fn env() -> Env {
    Env::new(Address { kind: AddressKind::Contract, hi: 0, lo: 1 }, 77)
}

fn last(env: &Env) -> &Event {
    match env.effects.last() {
        Some(Effect::Publish(event)) => event,
        _ => panic!("no event"),
    }
}

#[test]
fn tables_keep_the_last_value() {
    let mut table: Table<Address, i128> = Table::new();
    assert!(table.get(user(1)).is_none());
    table.set(user(1), 5);
    table.set(user(2), 6);
    table.set(user(1), 7);
    assert_eq!(table.get(user(1)), Some(&7));
    assert_eq!(table.get(user(2)), Some(&6));
    assert_eq!(table.keys(), vec![user(1), user(2)]);
    let mut epochs: Table<UserEpochSnapshotKey, i128> = Table::new();
    epochs.set(UserEpochSnapshotKey { user: user(1), epoch: 3 }, 9);
    assert_eq!(epochs.get(UserEpochSnapshotKey { user: user(1), epoch: 3 }), Some(&9));
    assert!(epochs.get(UserEpochSnapshotKey { user: user(1), epoch: 4 }).is_none());
}

#[test]
fn accounts_are_told_apart_by_kind() {
    let mut table: Table<Address, i128> = Table::new();
    table.set(Address { kind: AddressKind::Account, hi: 1, lo: 2 }, 5);
    assert!(table.get(Address { kind: AddressKind::Contract, hi: 1, lo: 2 }).is_none());
    assert!(table.get(Address { kind: AddressKind::Account, hi: 2, lo: 1 }).is_none());
}

#[test]
fn appended_lists_are_bounded() {
    let mut list: Vec<u32> = Vec::new();
    for i in 0..5u32 {
        append(&mut list, i, 3);
    }
    assert_eq!(list, vec![2, 3, 4]);
}

#[test]
fn amounts_are_divided_towards_zero() {
    assert_eq!(mul_div(7, 3, 2), Some(10));
    assert_eq!(mul_div(-7, 3, 2), Some(-10));
    assert_eq!(mul_div(7, 3, 0), None);
    assert_eq!(mul_div(i128::MAX, 2, 2), None);
    assert_eq!(mul_div(i128::MIN, 1, -1), None);
}

#[test]
fn shares_and_amounts() {
    assert_eq!(amount_to_shares(0, 0, 10), Some(10));
    assert_eq!(amount_to_shares(0, 5, 10), Some(10));
    assert_eq!(amount_to_shares(100, 150, 10), Some(6));
    assert_eq!(amount_to_shares(i128::MAX, 1, 2), None);
    assert_eq!(shares_to_amount(0, 5, 10), None);
    assert_eq!(shares_to_amount(100, 150, 6), Some(9));
}

#[test]
fn errors_have_their_numbers() {
    assert_eq!(VaultError::NotInitialized.code(), 1);
    assert_eq!(VaultError::ContractStopped.code(), 30);
    assert_eq!(VaultError::EpochModeConflict.code(), 41);
    assert_eq!(VaultError::RelayerNotApproved.code(), 41);
    assert_eq!(VaultError::VestingQueueFull.code(), 42);
    assert_eq!(VaultError::NotYieldSource.code(), 42);
    assert_eq!(VaultError::NothingToWithdraw.code(), 43);
    assert_eq!(VaultError::InvalidRewardAmount.code(), 43);
    assert_eq!(VaultError::EpochNotFinalized.code(), 44);
    assert_eq!(VaultError::NameTooLong.code(), 45);
}

#[test]
fn events_carry_topic_and_subject() {
    let mut env = env();
    events::deposit(&mut env, &user(2), 5, 6, 70);
    assert_eq!(last(&env).topic(), "deposit");
    assert_eq!(last(&env).subject(), Some(user(2)));
    assert!(matches!(
        last(&env),
        Event::Deposit { amount: 5, shares_minted: 6, ledger: 70, .. }
    ));
    events::rate_changed(&mut env, 1, 2);
    assert_eq!(last(&env).topic(), "rate_chg");
    assert_eq!(last(&env).subject(), None);
    assert!(matches!(
        last(&env),
        Event::RateChanged { old_rate_bps: 1, new_rate_bps: 2, ledger: 77 }
    ));
    events::claimed_on_behalf(&mut env, &user(3), &user(2), 9);
    assert_eq!(last(&env).topic(), "claimed");
    assert_eq!(last(&env).subject(), Some(user(2)));
    events::relayer_approved(&mut env, &user(2), &user(3));
    assert_eq!(last(&env).topic(), "rlyr_set");
    events::relayer_revoked(&mut env, &user(2), &user(3));
    assert_eq!(last(&env).topic(), "rlyr_rev");
    events::reward_added(&mut env, &user(4), 8);
    assert_eq!(last(&env).topic(), "rwd_add");
    events::yield_source_added(&mut env, &user(1), &user(4));
    assert_eq!(last(&env).topic(), "ys_add");
    events::yield_source_removed(&mut env, &user(1), &user(4));
    assert_eq!(last(&env).topic(), "ys_rem");
    assert_eq!(last(&env).subject(), Some(user(1)));
    assert_eq!(env.effects.len(), 8);
}

#[test]
fn admin_actions_carry_their_details() {
    let mut env = env();
    events::admin_action_set_reward_rate(&mut env, &user(1), 3, 4);
    assert_eq!(last(&env).topic(), "adm_act");
    assert_eq!(last(&env).subject(), None);
    assert!(matches!(
        last(&env),
        Event::AdminActed {
            action: AdminAction::SetRewardRate,
            ledger: 77,
            details: ActionDetails::Rates { old_rate: 3, new_rate: 4 },
            ..
        }
    ));
    events::admin_action_set_boost_schedule(&mut env, &user(1), 2);
    assert!(matches!(
        last(&env),
        Event::AdminActed {
            action: AdminAction::SetBoostSchedule,
            details: ActionDetails::Number { number: 2 },
            ..
        }
    ));
    events::admin_action_transfer_admin(&mut env, &user(1), &user(5));
    assert!(matches!(
        last(&env),
        Event::AdminActed {
            action: AdminAction::TransferAdmin,
            details: ActionDetails::Whom { address },
            ..
        } if *address == user(5)
    ));
}
