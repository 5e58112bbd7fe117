use stellar_defi_vault::address::{Address, AddressKind};
use stellar_defi_vault::env::{Effect, Env};
use stellar_defi_vault::errors::VaultError;
use stellar_defi_vault::events::{ActionDetails, Event};
use stellar_defi_vault::storage::{
    AdminAction, ChangeType, ChangelogEntry, InterfaceId, PoolConfig, RateHistoryEntry,
    TotalStakedSnapshot,
};
use stellar_defi_vault::vault::VaultContract;

fn user(n: u128) -> Address {
    Address { kind: AddressKind::Account, hi: 7, lo: n }
}

fn contract(n: u128) -> Address {
    Address { kind: AddressKind::Contract, hi: 0, lo: n }
}

fn signed(mut env: Env, who: Address) -> Env {
    env.signers = vec![who];
    env
}

fn at(mut env: Env, sequence: u32) -> Env {
    env.sequence = sequence;
    env
}

/// A pool of contract 1 with the token of contract 2 and user 1 as its admin, at ledger 1000.
fn pool(rate_bps: u32) -> Env {
    VaultContract::initialize(Env::new(contract(1), 1000), user(1), contract(2), rate_bps, None, None)
        .unwrap()
}

fn admin(env: Env) -> Env {
    signed(env, user(1))
}

fn staked(env: Env, who: Address, amount: i128) -> Env {
    VaultContract::stake(signed(env, who), who, amount).unwrap().0
}

#[test]
fn set_up_stores_what_it_is_given() {
    let env = pool(250);
    assert_eq!(VaultContract::get_admin(&env), Ok(user(1)));
    assert_eq!(VaultContract::get_stake_token(&env), Ok(contract(2)));
    assert_eq!(VaultContract::get_reward_rate_bps(&env), Ok(250));
    assert_eq!(VaultContract::current_apr_bps(&env), 250);
    assert_eq!(VaultContract::stake_decimals(&env), 7);
    assert_eq!(VaultContract::reward_decimals(&env), 7);
    assert_eq!(VaultContract::pool_uptime_ledgers(&at(env.clone(), 1_234)), 234);
    assert_eq!(env.settings.slash_treasury, Some(user(1)));
    assert_eq!(
        VaultContract::get_pool_config(&env),
        Ok(PoolConfig {
            admin: user(1),
            stake_token: contract(2),
            reward_token: contract(2),
            reward_rate_bps: 250,
            paused: false,
        })
    );
    assert!(matches!(
        &env.effects[0],
        Effect::Publish(Event::PoolInitialized { admin: a, stake_token, reward_token, reward_rate_bps: 250 })
            if *a == user(1) && *stake_token == contract(2) && *reward_token == contract(2)
    ));
}

#[test]
fn set_up_is_refused_for_each_reason() {
    let fresh = Env::new(contract(1), 1);
    assert_eq!(
        VaultContract::initialize(pool(0), user(1), contract(2), 0, None, None).err(),
        Some(VaultError::AlreadyInitialized)
    );
    assert_eq!(
        VaultContract::initialize(fresh.clone(), contract(1), contract(2), 0, None, None).err(),
        Some(VaultError::InvalidAddress)
    );
    assert_eq!(
        VaultContract::initialize(fresh.clone(), user(1), contract(1), 0, None, None).err(),
        Some(VaultError::InvalidAddress)
    );
    assert_eq!(
        VaultContract::initialize(fresh, user(1), contract(2), 10_001, None, None).err(),
        Some(VaultError::RateTooHigh)
    );
}

#[test]
fn nobody_else_administers() {
    let env = signed(pool(0), user(2));
    assert_eq!(VaultContract::pause(env.clone()).err(), Some(VaultError::Unauthorized));
    assert_eq!(VaultContract::emergency_stop(env.clone()).err(), Some(VaultError::Unauthorized));
    assert_eq!(VaultContract::set_lock_period(env.clone(), 1).err(), Some(VaultError::Unauthorized));
    assert_eq!(VaultContract::take_snapshot(env).err(), Some(VaultError::Unauthorized));
    let fresh = signed(Env::new(contract(1), 1), user(1));
    assert_eq!(VaultContract::pause(fresh).err(), Some(VaultError::NotInitialized));
}

#[test]
fn pause_and_unpause_are_recorded() {
    let env = VaultContract::pause(admin(at(pool(0), 1003))).unwrap();
    assert!(VaultContract::is_paused(&env));
    assert_eq!(VaultContract::get_last_updated_ledger(&env), 1003);
    assert_eq!(VaultContract::get_admin_action_count(&env), Ok(1));
    let n = env.effects.len();
    assert!(matches!(&env.effects[n - 2], Effect::Publish(Event::Paused { ledger: 1003, .. })));
    assert!(matches!(
        &env.effects[n - 1],
        Effect::Publish(Event::AdminActed {
            action: AdminAction::Pause,
            details: ActionDetails::Nothing,
            ledger: 1003,
            ..
        })
    ));
    let env = VaultContract::unpause(admin(env)).unwrap();
    assert!(!VaultContract::is_paused(&env));
    assert_eq!(
        VaultContract::get_changelog(&env),
        vec![
            ChangelogEntry { change_type: ChangeType::Paused, old_value: 0, new_value: 1 },
            ChangelogEntry { change_type: ChangeType::Unpaused, old_value: 1, new_value: 0 },
        ]
    );
    assert_eq!(ChangeType::Paused.as_str(), "paused");
    assert_eq!(ChangeType::Unpaused.as_str(), "unpaused");
    assert_eq!(ChangeType::AdminTransferred.as_str(), "admin_transferred");
    assert_eq!(ChangeType::RateChanged.as_str(), "rate_changed");
}

#[test]
fn changelog_keeps_the_last_ten() {
    let mut env = pool(0);
    for rate in 1..=12u32 {
        env = VaultContract::set_reward_rate_bps(admin(env), rate).unwrap();
    }
    let log = VaultContract::get_changelog(&env);
    assert_eq!(log.len(), 10);
    assert_eq!(
        log[0],
        ChangelogEntry { change_type: ChangeType::RateChanged, old_value: 2, new_value: 3 }
    );
    assert_eq!(log[9].new_value, 12);
}

#[test]
fn rate_histories_are_bounded() {
    let mut env = pool(0);
    for rate in 1..=60u32 {
        env = VaultContract::set_reward_rate_bps(admin(at(env, 1000 + rate)), rate).unwrap();
    }
    let plain = VaultContract::get_rate_history(&env).unwrap();
    assert_eq!(plain.len(), 50);
    assert_eq!(plain[0], (1011, 10));
    assert_eq!(plain[49], (1060, 59));
    let rich = VaultContract::get_reward_rate_history(&env);
    assert_eq!(rich.len(), 20);
    assert_eq!(
        rich[19],
        RateHistoryEntry {
            old_rate_bps: 59,
            new_rate_bps: 60,
            changed_at_ledger: 1060,
            changed_by: user(1),
        }
    );
    assert_eq!(env.settings.last_rate_change_ledger, 1060);
}

#[test]
fn rate_is_checked() {
    assert_eq!(
        VaultContract::set_reward_rate_bps(admin(pool(0)), 10_001).err(),
        Some(VaultError::RateTooHigh)
    );
    let epochs = VaultContract::set_epoch_mode(admin(pool(0)), user(1), 10, 5).unwrap();
    assert_eq!(
        VaultContract::set_reward_rate_bps(admin(epochs.clone()), 1).err(),
        Some(VaultError::EpochModeConflict)
    );
    assert!(VaultContract::set_reward_rate_bps(admin(epochs), 0).is_ok());
}

#[test]
fn yield_and_rewards_come_out_of_a_wallet() {
    let env = VaultContract::add_yield(admin(pool(0)), user(5), 70).unwrap();
    assert_eq!(VaultContract::vault_state(&env), Ok((0, 70)));
    assert!(matches!(
        &env.effects[1],
        Effect::Transfer { from, to, amount: 70, .. } if *from == user(5) && *to == contract(1)
    ));
    let env = VaultContract::fund_reward_pool(admin(env), user(5), 30).unwrap();
    assert_eq!(VaultContract::get_reward_pool_balance(&env), Ok(30));
    assert_eq!(VaultContract::add_yield(admin(env.clone()), user(5), 0).err(), Some(VaultError::ZeroAmount));
    assert_eq!(
        VaultContract::fund_reward_pool(admin(env.clone()), user(5), -1).err(),
        Some(VaultError::ZeroAmount)
    );
    assert_eq!(
        VaultContract::add_yield(admin(env.clone()), user(5), i128::MAX).err(),
        Some(VaultError::ArithmeticError)
    );
    let paused = VaultContract::pause(admin(env)).unwrap();
    assert_eq!(
        VaultContract::add_yield(admin(paused.clone()), user(5), 1).err(),
        Some(VaultError::VaultPaused)
    );
    assert!(VaultContract::fund_reward_pool(admin(paused), user(5), 1).is_ok());
}

#[test]
fn admin_role_is_handed_over() {
    let env = VaultContract::transfer_admin(admin(pool(0)), user(8)).unwrap();
    assert_eq!(VaultContract::get_admin(&env), Ok(user(8)));
    assert_eq!(VaultContract::pause(admin(env.clone())).err(), Some(VaultError::Unauthorized));
    assert!(VaultContract::pause(signed(env, user(8))).is_ok());
}

#[test]
fn only_foreign_tokens_are_rescued() {
    let env = VaultContract::set_reward_token(admin(pool(0)), contract(3)).unwrap();
    assert_eq!(VaultContract::get_reward_token(&env), Ok(contract(3)));
    assert_eq!(VaultContract::get_reward_token(&pool(0)), Err(VaultError::NotInitialized));
    let rescue = |who: Address, token: Address, amount: i128| {
        VaultContract::rescue_token(admin(env.clone()), who, token, amount, user(6))
    };
    assert_eq!(rescue(user(2), contract(4), 5).err(), Some(VaultError::Unauthorized));
    assert_eq!(rescue(user(1), contract(4), 0).err(), Some(VaultError::ZeroAmount));
    assert_eq!(rescue(user(1), contract(2), 5).err(), Some(VaultError::CannotRescueStakeToken));
    assert_eq!(rescue(user(1), contract(3), 5).err(), Some(VaultError::CannotRescueRewardToken));
    let env = rescue(user(1), contract(4), 5).unwrap();
    let n = env.effects.len();
    assert!(matches!(
        &env.effects[n - 3],
        Effect::Transfer { token, to, amount: 5, .. } if *token == contract(4) && *to == user(6)
    ));
    assert!(matches!(&env.effects[n - 2], Effect::Publish(Event::TokenRescued { amount: 5, .. })));
    assert!(matches!(
        &env.effects[n - 1],
        Effect::Publish(Event::AdminActed {
            action: AdminAction::RescueToken,
            details: ActionDetails::Rescue { amount: 5, .. },
            ..
        })
    ));
}

#[test]
fn description_has_a_length() {
    let env = pool(0);
    assert_eq!(VaultContract::get_pool_description(&env), None);
    let text = "\u{e9}".repeat(200);
    let env = VaultContract::set_pool_description(admin(env), user(1), text.clone()).unwrap();
    assert_eq!(VaultContract::get_pool_description(&env), Some(text.clone()));
    assert!(matches!(
        env.effects.last(),
        Some(Effect::Publish(Event::DescriptionUpdated { description, .. })) if *description == text
    ));
    assert_eq!(
        VaultContract::set_pool_description(admin(env), user(1), "x".repeat(201)).err(),
        Some(VaultError::DescriptionTooLong)
    );
}

#[test]
fn snapshots_are_found_by_ledger() {
    let mut env = staked(pool(0), user(2), 10);
    assert_eq!(VaultContract::get_snapshot_at(&env, 5_000), None);
    for i in 1..=55u32 {
        env = VaultContract::take_snapshot(admin(at(env, 1000 + 10 * i))).unwrap();
    }
    let all = VaultContract::get_all_snapshots(&env);
    assert_eq!(all.len(), 50);
    assert_eq!(all[0], TotalStakedSnapshot { total_staked: 10, ledger: 1060 });
    assert_eq!(VaultContract::get_snapshot_at(&env, 1059), None);
    assert_eq!(VaultContract::get_snapshot_at(&env, 1075).unwrap().ledger, 1070);
    assert_eq!(VaultContract::get_snapshot_at(&env, 9_999).unwrap().ledger, 1550);
}

#[test]
fn simple_settings_are_stored() {
    let env = VaultContract::set_inactivity_threshold(admin(pool(0)), user(1), 77).unwrap();
    assert_eq!(env.settings.inactivity_threshold, 77);
    let env = VaultContract::set_slash_treasury(admin(env), user(9)).unwrap();
    assert_eq!(env.settings.slash_treasury, Some(user(9)));
    let env = VaultContract::set_restake_window(admin(env), 12).unwrap();
    assert_eq!(env.settings.restake_window, 12);
    let env = VaultContract::set_vesting_period(admin(env), user(1), 9).unwrap();
    assert_eq!(env.settings.vesting_period, 9);
    assert_eq!(VaultContract::set_pool_cap(admin(env), -1).err(), Some(VaultError::ZeroAmount));
}

#[test]
fn what_the_contract_says_of_itself() {
    let env = pool(0);
    assert_eq!(VaultContract::get_version(&env), "0.1.0");
    let metadata = VaultContract::contract_metadata(&env);
    assert_eq!(metadata.name, "stellar-staking-pool");
    assert_eq!(metadata.version, "0.1.0");
    assert_eq!(metadata.description, "A staking pool contract for Stellar DeFi vault positions.");
    assert!(VaultContract::supports_interface(&env, InterfaceId::Base));
    assert!(VaultContract::supports_interface(&env, InterfaceId::Lockup));
    assert!(VaultContract::supports_interface(&env, InterfaceId::Whitelist));
    assert!(!VaultContract::supports_interface(&env, InterfaceId::Compounding));
    assert!(!VaultContract::supports_interface(&env, InterfaceId::EpochMode));
    assert!(!VaultContract::supports_interface(&env, InterfaceId::VestingSchedule));
}
