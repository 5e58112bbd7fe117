use stellar_defi_vault::address::{Address, AddressKind};
use stellar_defi_vault::env::{Effect, Env};
use stellar_defi_vault::errors::VaultError;
use stellar_defi_vault::events::Event;
use stellar_defi_vault::storage::{EpochState, VestingEntry};
use stellar_defi_vault::vault::VaultContract;

fn user(n: u128) -> Address {
    Address { kind: AddressKind::Account, hi: 7, lo: n }
}

fn contract(n: u128) -> Address {
    Address { kind: AddressKind::Contract, hi: 0, lo: n }
}

fn signed(mut env: Env, who: Address) -> Env {
    env.signers = vec![who];
    env
}

fn at(mut env: Env, sequence: u32) -> Env {
    env.sequence = sequence;
    env
}

/// A pool of contract 1 with the token of contract 2 and user 1 as its admin, at ledger 1000.
fn pool(rate_bps: u32) -> Env {
    VaultContract::initialize(Env::new(contract(1), 1000), user(1), contract(2), rate_bps, None, None)
        .unwrap()
}

fn admin(env: Env) -> Env {
    signed(env, user(1))
}

fn staked(env: Env, who: Address, amount: i128) -> Env {
    VaultContract::stake(signed(env, who), who, amount).unwrap().0
}

fn finished_epoch() -> Env {
    let env = VaultContract::set_epoch_mode(admin(pool(0)), user(1), 100, 1_000).unwrap();
    let env = staked(env, user(2), 300);
    let env = staked(env, user(3), 700);
    let env = VaultContract::fund_reward_pool(admin(env), user(1), 5_000).unwrap();
    VaultContract::finalize_epoch(admin(at(env, 1_100)), user(1)).unwrap()
}

#[test]
fn epochs_and_a_rate_exclude_each_other() {
    assert_eq!(
        VaultContract::set_epoch_mode(admin(pool(5)), user(1), 100, 1_000).err(),
        Some(VaultError::EpochModeConflict)
    );
    assert_eq!(
        VaultContract::finalize_epoch(admin(pool(5)), user(1)).err(),
        Some(VaultError::EpochModeConflict)
    );
    assert_eq!(VaultContract::current_epoch(&pool(5)), Err(VaultError::NotInitialized));
}

#[test]
fn epoch_runs_for_its_ledgers() {
    let env = VaultContract::set_epoch_mode(admin(pool(0)), user(1), 100, 1_000).unwrap();
    assert_eq!(
        VaultContract::current_epoch(&env),
        Ok(EpochState { epoch_number: 1, started_at: 1000, reward_pool: 1_000, total_staked_snapshot: 0 })
    );
    assert_eq!(
        VaultContract::finalize_epoch(admin(at(env, 1_099)), user(1)).err(),
        Some(VaultError::EpochNotFinalized)
    );
    let env = finished_epoch();
    assert_eq!(
        VaultContract::current_epoch(&env),
        Ok(EpochState { epoch_number: 2, started_at: 1_100, reward_pool: 1_000, total_staked_snapshot: 0 })
    );
}

#[test]
fn epoch_rewards_are_shared_out_and_claimed_once() {
    let env = finished_epoch();
    assert_eq!(VaultContract::epoch_reward(&env, user(2), 1), 300);
    assert_eq!(VaultContract::epoch_reward(&env, user(3), 1), 700);
    assert_eq!(VaultContract::epoch_reward(&env, user(4), 1), 0);
    assert_eq!(VaultContract::epoch_reward(&env, user(2), 2), 0);
    let (env, reward) = VaultContract::claim_epoch_rewards(signed(env, user(2)), user(2)).unwrap();
    assert_eq!(reward, 300);
    assert_eq!(env.account(user(2)).last_claimed_epoch, 1);
    assert_eq!(VaultContract::get_reward_pool_balance(&env), Ok(4_700));
    assert_eq!(VaultContract::total_rewards_paid(&env), 300);
    assert!(matches!(
        env.effects.last(),
        Some(Effect::Publish(Event::Claimed { reward: 300, ledger: 1_100, .. }))
    ));
    let (env, again) = VaultContract::claim_epoch_rewards(signed(env, user(2)), user(2)).unwrap();
    assert_eq!(again, 0);
    let env = VaultContract::finalize_epoch(admin(at(env, 1_200)), user(1)).unwrap();
    let (_, both) = VaultContract::claim_epoch_rewards(signed(env.clone(), user(3)), user(3)).unwrap();
    assert_eq!(both, 1_400);
    let (_, second) = VaultContract::claim_epoch_rewards(signed(env, user(2)), user(2)).unwrap();
    assert_eq!(second, 300);
}

#[test]
fn epoch_rewards_follow_a_position() {
    let env = VaultContract::set_epoch_mode(admin(pool(0)), user(1), 100, 500).unwrap();
    let env = staked(env, user(2), 300);
    let env = VaultContract::transfer_position(signed(env, user(2)), user(2), user(3)).unwrap();
    let env = VaultContract::finalize_epoch(admin(at(env, 1_100)), user(1)).unwrap();
    assert_eq!(VaultContract::epoch_reward(&env, user(3), 1), 499);
    assert_eq!(VaultContract::epoch_reward(&env, user(2), 1), 0);
}

#[test]
fn epoch_claim_is_refused_for_each_reason() {
    let env = finished_epoch();
    assert_eq!(
        VaultContract::claim_epoch_rewards(signed(env.clone(), user(3)), user(2)).err(),
        Some(VaultError::Unauthorized)
    );
    assert_eq!(
        VaultContract::claim_epoch_rewards(signed(pool(0), user(2)), user(2)).err(),
        Some(VaultError::NotInitialized)
    );
    let mut poor = env;
    poor.pool.reward_pool_balance = 299;
    assert_eq!(
        VaultContract::claim_epoch_rewards(signed(poor, user(2)), user(2)).err(),
        Some(VaultError::InsufficientRewardPool)
    );
}

#[test]
fn epoch_rewards_vest_too() {
    let env = VaultContract::set_vesting_period(admin(finished_epoch()), user(1), 30).unwrap();
    let (env, reward) = VaultContract::claim_epoch_rewards(signed(env, user(2)), user(2)).unwrap();
    assert_eq!(reward, 300);
    assert_eq!(
        VaultContract::vesting_balance(&env, user(2)),
        vec![VestingEntry { amount: 300, claimable_at_ledger: 1_130 }]
    );
}

#[test]
fn epoch_without_stakes_pays_nothing() {
    let env = VaultContract::set_epoch_mode(admin(pool(0)), user(1), 100, 1_000).unwrap();
    let env = VaultContract::finalize_epoch(admin(at(env, 1_100)), user(1)).unwrap();
    assert_eq!(VaultContract::epoch_reward(&env, user(2), 1), 0);
}

#[test]
fn rewards_by_the_ledger_stop_in_epoch_mode() {
    let env = staked(finished_epoch(), user(2), 10);
    assert_eq!(env.account(user(2)).accrued, 0);
    assert_eq!(env.account(user(2)).checkpoint, Some(1_100));
}
