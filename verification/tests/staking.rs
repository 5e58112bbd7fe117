use stellar_defi_vault::address::{Address, AddressKind};
use stellar_defi_vault::env::{Effect, Env};
use stellar_defi_vault::errors::VaultError;
use stellar_defi_vault::events::Event;
use stellar_defi_vault::storage::{StakeAction, StakeHistoryEntry};
use stellar_defi_vault::vault::VaultContract;

fn user(n: u128) -> Address {
    Address { kind: AddressKind::Account, hi: 7, lo: n }
}

fn contract(n: u128) -> Address {
    Address { kind: AddressKind::Contract, hi: 0, lo: n }
}

fn signed(mut env: Env, who: Address) -> Env {
    env.signers = vec![who];
    env
}

fn at(mut env: Env, sequence: u32) -> Env {
    env.sequence = sequence;
    env
}

/// A pool of contract 1 with the token of contract 2 and user 1 as its admin, at ledger 1000.
fn pool(rate_bps: u32) -> Env {
    VaultContract::initialize(Env::new(contract(1), 1000), user(1), contract(2), rate_bps, None, None)
        .unwrap()
}

fn admin(env: Env) -> Env {
    signed(env, user(1))
}

fn staked(env: Env, who: Address, amount: i128) -> Env {
    VaultContract::stake(signed(env, who), who, amount).unwrap().0
}

#[test]
fn first_stake_is_one_for_one() {
    let env = pool(0);
    let (env, shares) = VaultContract::stake(signed(env, user(2)), user(2), 1_000).unwrap();
    assert_eq!(shares, 1_000);
    assert_eq!(VaultContract::shares_of(&env, user(2)), 1_000);
    assert_eq!(VaultContract::vault_state(&env).unwrap(), (1_000, 1_000));
    assert_eq!(env.pool.total_stakers, 1);
    assert_eq!(env.stakers, vec![user(2)]);
    assert_eq!(env.account(user(2)).staked_at, Some(1000));
    assert_eq!(env.account(user(2)).last_claim, 1000);
    assert_eq!(env.account(user(2)).checkpoint, Some(1000));
    assert_eq!(VaultContract::get_last_updated_ledger(&env), 1000);
    assert_eq!(
        VaultContract::stake_history(&env, user(2)),
        vec![StakeHistoryEntry { action: StakeAction::Stake, amount: 1_000, ledger: 1000 }]
    );
}

#[test]
fn stake_has_its_effects_in_order() {
    let env = pool(0);
    let before = env.effects.len();
    let env = staked(env, user(2), 1_000);
    let effects = &env.effects[before..];
    assert_eq!(effects.len(), 3);
    assert!(matches!(
        &effects[0],
        Effect::Transfer { token, from, to, amount: 1_000 }
            if *token == contract(2) && *from == user(2) && *to == contract(1)
    ));
    assert!(matches!(
        &effects[1],
        Effect::Publish(Event::PositionOpened { user: who, amount: 1_000, ledger: 1000 })
            if *who == user(2)
    ));
    assert!(matches!(
        &effects[2],
        Effect::Publish(Event::Deposit { depositor, amount: 1_000, shares_minted: 1_000, ledger: 1000 })
            if *depositor == user(2)
    ));
}

#[test]
fn later_stake_keeps_the_price() {
    let env = staked(pool(0), user(2), 1_000);
    let env = VaultContract::add_yield(admin(env), user(1), 500).unwrap();
    let (env, shares) = VaultContract::deposit(signed(env, user(3)), user(3), 301).unwrap();
    assert_eq!(shares, 200);
    assert_eq!(VaultContract::vault_state(&env).unwrap(), (1_200, 1_801));
    assert_eq!(VaultContract::preview_redeem(&env, 1_000).unwrap(), 1_500);
    assert_eq!(VaultContract::preview_redeem(&env, 200).unwrap(), 300);
}

#[test]
fn top_up_opens_no_second_position() {
    let env = staked(pool(0), user(2), 1_000);
    let env = staked(at(env, 1010), user(2), 500);
    assert_eq!(env.pool.total_stakers, 1);
    assert_eq!(env.stakers.len(), 1);
    assert_eq!(env.account(user(2)).staked_at, Some(1000));
    assert_eq!(env.account(user(2)).shares, 1_500);
}

#[test]
fn stake_without_authorisation_fails() {
    let env = signed(pool(0), user(3));
    assert_eq!(
        VaultContract::stake(env, user(2), 1_000).err(),
        Some(VaultError::Unauthorized)
    );
}

#[test]
fn stake_of_nothing_fails() {
    assert_eq!(
        VaultContract::stake(signed(pool(0), user(2)), user(2), 0).err(),
        Some(VaultError::ZeroAmount)
    );
    assert_eq!(
        VaultContract::stake(signed(pool(0), user(2)), user(2), -5).err(),
        Some(VaultError::ZeroAmount)
    );
}

#[test]
fn stake_into_a_pool_that_is_not_set_up_fails() {
    let env = signed(Env::new(contract(1), 5), user(2));
    assert_eq!(
        VaultContract::stake(env, user(2), 10).err(),
        Some(VaultError::NotInitialized)
    );
}

#[test]
fn stake_into_a_paused_or_stopped_pool_fails() {
    let paused = VaultContract::pause(admin(pool(0))).unwrap();
    assert_eq!(
        VaultContract::stake(signed(paused.clone(), user(2)), user(2), 10).err(),
        Some(VaultError::VaultPaused)
    );
    let stopped = VaultContract::emergency_stop(admin(paused)).unwrap();
    assert_eq!(
        VaultContract::stake(signed(stopped.clone(), user(2)), user(2), 10).err(),
        Some(VaultError::ContractStopped)
    );
    assert_eq!(VaultContract::pause(admin(stopped.clone())).err(), Some(VaultError::ContractStopped));
    assert_eq!(VaultContract::unpause(admin(stopped)).err(), Some(VaultError::ContractStopped));
}

#[test]
fn whitelist_gates_stakes() {
    let env = VaultContract::set_whitelist_enabled(admin(pool(0)), true).unwrap();
    assert_eq!(
        VaultContract::stake(signed(env.clone(), user(2)), user(2), 10).err(),
        Some(VaultError::NotWhitelisted)
    );
    let env = VaultContract::add_to_whitelist(admin(env), user(2)).unwrap();
    assert!(VaultContract::is_whitelisted(&env, user(2)));
    let env = staked(env, user(2), 10);
    let env = VaultContract::remove_from_whitelist(admin(env), user(2)).unwrap();
    assert!(!VaultContract::is_whitelisted(&env, user(2)));
    assert_eq!(
        VaultContract::stake(signed(env.clone(), user(2)), user(2), 10).err(),
        Some(VaultError::NotWhitelisted)
    );
    assert!(VaultContract::unstake(signed(env, user(2)), user(2), 10).is_ok());
}

#[test]
fn kyc_gates_stakes_and_not_exits() {
    let env = staked(pool(0), user(2), 100);
    let env = VaultContract::set_kyc_required(admin(env), true).unwrap();
    assert_eq!(
        VaultContract::stake(signed(env.clone(), user(2)), user(2), 10).err(),
        Some(VaultError::KycNotApproved)
    );
    assert!(VaultContract::unstake(signed(env.clone(), user(2)), user(2), 100).is_ok());
    assert!(VaultContract::claim(signed(env.clone(), user(2)), user(2)).is_ok());
    let env = VaultContract::set_kyc_status(admin(env), user(2), true).unwrap();
    assert!(VaultContract::is_kyc_approved(&env, user(2)));
    let env = staked(env, user(2), 10);
    let env = VaultContract::set_kyc_required(admin(env), false).unwrap();
    assert!(!VaultContract::is_kyc_approved(&env, user(2)));
}

#[test]
fn minimum_counts_the_whole_position() {
    let env = VaultContract::set_min_stake(admin(pool(0)), 100).unwrap();
    assert_eq!(VaultContract::get_min_stake(&env).unwrap(), 100);
    assert_eq!(
        VaultContract::stake(signed(env.clone(), user(2)), user(2), 99).err(),
        Some(VaultError::BelowMinimumStake)
    );
    let env = staked(env, user(2), 100);
    let env = staked(env, user(2), 1);
    assert_eq!(VaultContract::shares_of(&env, user(2)), 101);
    assert_eq!(VaultContract::set_min_stake(admin(env), -1).err(), Some(VaultError::ZeroAmount));
}

#[test]
fn cap_limits_deposits() {
    let env = VaultContract::set_pool_cap(admin(pool(0)), 150).unwrap();
    assert_eq!(VaultContract::get_pool_cap(&env).unwrap(), 150);
    let env = staked(env, user(2), 100);
    assert_eq!(
        VaultContract::stake(signed(env.clone(), user(3)), user(3), 51).err(),
        Some(VaultError::PoolCapReached)
    );
    let env = staked(env, user(3), 50);
    assert_eq!(VaultContract::vault_state(&env).unwrap().1, 150);
}

#[test]
fn one_position_at_most_where_one_is_allowed() {
    let env = VaultContract::set_max_positions_per_user(admin(pool(0)), user(1), 1).unwrap();
    assert_eq!(VaultContract::get_max_positions_per_user(&env), 1);
    let env = staked(env, user(2), 100);
    assert_eq!(
        VaultContract::stake(signed(env.clone(), user(2)), user(2), 1).err(),
        Some(VaultError::MaxPositionsReached)
    );
    let env = VaultContract::set_max_positions_per_user(admin(env), user(1), 2).unwrap();
    let env = staked(env, user(2), 1);
    assert_eq!(
        VaultContract::set_max_positions_per_user(admin(env), user(1), 11).err(),
        Some(VaultError::MaxPositionsTooHigh)
    );
}

#[test]
fn stake_that_overflows_fails() {
    let env = staked(pool(0), user(2), i128::MAX);
    assert_eq!(
        VaultContract::stake(signed(env, user(3)), user(3), 1).err(),
        Some(VaultError::ArithmeticError)
    );
}

#[test]
fn delegate_stakes_for_a_beneficiary() {
    let env = pool(0);
    assert_eq!(
        VaultContract::stake_for(signed(env.clone(), user(3)), user(3), user(2), 10).err(),
        Some(VaultError::NotADelegate)
    );
    let env = VaultContract::approve_delegate(signed(env, user(2)), user(2), user(3)).unwrap();
    assert!(VaultContract::is_delegate(&env, user(2), user(3)));
    assert!(!VaultContract::is_delegate(&env, user(2), user(4)));
    let before = env.effects.len();
    let (env, shares) =
        VaultContract::stake_for(signed(env, user(3)), user(3), user(2), 10).unwrap();
    assert_eq!(shares, 10);
    assert_eq!(VaultContract::shares_of(&env, user(2)), 10);
    assert_eq!(VaultContract::shares_of(&env, user(3)), 0);
    assert!(VaultContract::stake_history(&env, user(2)).is_empty());
    assert!(matches!(
        &env.effects[before],
        Effect::Transfer { from, amount: 10, .. } if *from == user(3)
    ));
    assert_eq!(
        VaultContract::unstake(signed(env.clone(), user(3)), user(2), 10).err(),
        Some(VaultError::Unauthorized)
    );
    assert_eq!(
        VaultContract::revoke_delegate(signed(env.clone(), user(2)), user(2), user(4)).err(),
        Some(VaultError::NotADelegate)
    );
    let env = VaultContract::revoke_delegate(signed(env, user(2)), user(2), user(3)).unwrap();
    assert_eq!(
        VaultContract::stake_for(signed(env, user(3)), user(3), user(2), 10).err(),
        Some(VaultError::NotADelegate)
    );
}

#[test]
fn gates_hold_for_a_beneficiary() {
    let env = VaultContract::approve_delegate(signed(pool(0), user(2)), user(2), user(3)).unwrap();
    let stake_for =
        |env: Env| VaultContract::stake_for(signed(env, user(3)), user(3), user(2), 10);
    let strict = VaultContract::set_kyc_required(admin(env.clone()), true).unwrap();
    assert_eq!(stake_for(strict.clone()).err(), Some(VaultError::KycNotApproved));
    let approved = VaultContract::set_kyc_status(admin(strict), user(2), true).unwrap();
    assert!(stake_for(approved).is_ok());
    let env = VaultContract::set_max_positions_per_user(admin(env), user(1), 1).unwrap();
    let (env, _) = stake_for(env).unwrap();
    assert_eq!(stake_for(env).err(), Some(VaultError::MaxPositionsReached));
}

#[test]
fn delegate_is_refused_by_a_stopped_or_paused_pool() {
    let env = VaultContract::approve_delegate(signed(pool(0), user(2)), user(2), user(3)).unwrap();
    let paused = VaultContract::pause(admin(env.clone())).unwrap();
    assert_eq!(
        VaultContract::stake_for(signed(paused, user(3)), user(3), user(2), 10).err(),
        Some(VaultError::VaultPaused)
    );
    let stopped = VaultContract::emergency_stop(admin(env)).unwrap();
    assert_eq!(
        VaultContract::stake_for(signed(stopped, user(3)), user(3), user(2), 10).err(),
        Some(VaultError::ContractStopped)
    );
}

#[test]
fn receipts_are_minted_for_new_positions() {
    let env = VaultContract::set_nft_contract(admin(pool(0)), contract(9)).unwrap();
    let env = staked(env, user(2), 40);
    assert!(env.effects.iter().any(|e| matches!(
        e,
        Effect::MintReceipt { nft, owner, vault, amount: 40, ledger: 1000 }
            if *nft == contract(9) && *owner == user(2) && *vault == contract(1)
    )));
    let (env, _) = VaultContract::unstake(signed(env, user(2)), user(2), 40).unwrap();
    assert!(env.effects.iter().any(|e| matches!(
        e,
        Effect::BurnReceipt { nft, owner } if *nft == contract(9) && *owner == user(2)
    )));
}

#[test]
fn rewards_compound_on_a_top_up() {
    let env = staked(pool(1_000), user(2), 1_000_000);
    let env = VaultContract::set_auto_restake(signed(env, user(2)), user(2), true);
    assert!(VaultContract::is_auto_restake_enabled(&env, user(2)));
    let env = staked(at(env, 1000 + 6_307_200), user(2), 10);
    assert_eq!(VaultContract::shares_of(&env, user(2)), 1_100_010);
    assert_eq!(env.account(user(2)).accrued, 0);
    assert_eq!(VaultContract::vault_state(&env).unwrap(), (1_100_010, 1_100_010));
    assert!(env.effects.iter().any(|e| matches!(
        e,
        Effect::Publish(Event::AutoRestaked { user: who, amount: 100_000, .. }) if *who == user(2)
    )));
}

#[test]
fn staking_and_unstaking_gains_nothing() {
    let env = staked(pool(0), user(2), 1_000);
    let env = VaultContract::add_yield(admin(env), user(1), 7).unwrap();
    let (env, shares) = VaultContract::stake(signed(env, user(3)), user(3), 100).unwrap();
    assert_eq!(shares, 99);
    let (_, returned) = VaultContract::unstake(signed(env, user(3)), user(3), shares).unwrap();
    assert_eq!(returned, 99);
}
