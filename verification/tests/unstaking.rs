use stellar_defi_vault::address::{Address, AddressKind};
use stellar_defi_vault::env::{Effect, Env};
use stellar_defi_vault::errors::VaultError;
use stellar_defi_vault::events::Event;
use stellar_defi_vault::storage::{StakeAction, UnbondingPosition, UnstakeCheckResult};
use stellar_defi_vault::vault::VaultContract;

fn user(n: u128) -> Address {
    Address { kind: AddressKind::Account, hi: 7, lo: n }
}

fn contract(n: u128) -> Address {
    Address { kind: AddressKind::Contract, hi: 0, lo: n }
}

fn signed(mut env: Env, who: Address) -> Env {
    env.signers = vec![who];
    env
}

fn at(mut env: Env, sequence: u32) -> Env {
    env.sequence = sequence;
    env
}

/// A pool of contract 1 with the token of contract 2 and user 1 as its admin, at ledger 1000.
fn pool(rate_bps: u32) -> Env {
    VaultContract::initialize(Env::new(contract(1), 1000), user(1), contract(2), rate_bps, None, None)
        .unwrap()
}

fn admin(env: Env) -> Env {
    signed(env, user(1))
}

fn staked(env: Env, who: Address, amount: i128) -> Env {
    VaultContract::stake(signed(env, who), who, amount).unwrap().0
}

#[test]
fn unstake_pays_the_worth_of_the_shares() {
    let env = staked(pool(0), user(2), 1_000);
    let env = VaultContract::add_yield(admin(env), user(1), 500).unwrap();
    assert_eq!(VaultContract::preview_redeem(&env, 400).unwrap(), 600);
    let (env, returned) = VaultContract::withdraw(signed(env, user(2)), user(2), 400).unwrap();
    assert_eq!(returned, 600);
    assert_eq!(VaultContract::vault_state(&env).unwrap(), (600, 900));
    let last = VaultContract::stake_history(&env, user(2)).pop().unwrap();
    assert_eq!(last.action, StakeAction::Unstake);
    assert_eq!(last.amount, 600);
    assert!(env.effects.iter().any(|e| matches!(
        e,
        Effect::Transfer { from, to, amount: 600, .. } if *from == contract(1) && *to == user(2)
    )));
}

#[test]
fn unstake_all_takes_compounded_rewards_along() {
    let env = staked(pool(1_000), user(2), 1_000_000);
    let env = VaultContract::set_auto_restake(signed(env, user(2)), user(2), true);
    let env = signed(at(env, 1000 + 6_307_200), user(2));
    let limited = VaultContract::set_withdrawal_limit(admin(env.clone()), 1_000_000).unwrap();
    let (gone, returned) = VaultContract::unstake_all(signed(limited, user(2)), user(2)).unwrap();
    assert_eq!(returned, 1_100_000);
    assert_eq!(VaultContract::shares_of(&gone, user(2)), 0);
    let limited = VaultContract::set_withdrawal_limit(admin(env.clone()), 999_999).unwrap();
    assert_eq!(
        VaultContract::unstake_all(signed(limited, user(2)), user(2)).err(),
        Some(VaultError::WithdrawalLimitExceeded)
    );
    let (env, returned) = VaultContract::unstake_all(env, user(2)).unwrap();
    assert_eq!(returned, 1_100_000);
    assert_eq!(VaultContract::shares_of(&env, user(2)), 0);
    assert!(!VaultContract::has_position(&env, user(2)));
    assert_eq!(VaultContract::vault_state(&env), Ok((0, 0)));
}

#[test]
fn unstake_all_closes_the_position() {
    let env = staked(pool(0), user(2), 1_000);
    let (env, returned) = VaultContract::unstake_all(signed(at(env, 1005), user(2)), user(2)).unwrap();
    assert_eq!(returned, 1_000);
    assert_eq!(env.pool.total_stakers, 0);
    assert!(env.stakers.is_empty());
    assert!(!VaultContract::has_position(&env, user(2)));
    assert_eq!(env.account(user(2)).last_unstake, Some(1005));
    assert!(env.effects.iter().any(|e| matches!(
        e,
        Effect::Publish(Event::PositionClosed { user: who, ledger: 1005 }) if *who == user(2)
    )));
    assert_eq!(
        VaultContract::unstake_all(signed(env, user(2)), user(2)).err(),
        Some(VaultError::PositionNotFound)
    );
}

#[test]
fn unstake_is_refused_for_each_reason() {
    let env = staked(pool(0), user(2), 1_000);
    assert_eq!(
        VaultContract::unstake(signed(env.clone(), user(3)), user(2), 1).err(),
        Some(VaultError::Unauthorized)
    );
    assert_eq!(
        VaultContract::unstake(signed(env.clone(), user(2)), user(2), 0).err(),
        Some(VaultError::ZeroAmount)
    );
    assert_eq!(
        VaultContract::unstake(signed(env.clone(), user(2)), user(2), 1_001).err(),
        Some(VaultError::InsufficientShares)
    );
    let limited = VaultContract::set_withdrawal_limit(admin(env.clone()), 10).unwrap();
    assert_eq!(VaultContract::get_withdrawal_limit(&limited).unwrap(), 10);
    assert_eq!(
        VaultContract::unstake(signed(limited, user(2)), user(2), 11).err(),
        Some(VaultError::WithdrawalLimitExceeded)
    );
    let cooling = VaultContract::set_cooldown_period(admin(env.clone()), 5).unwrap();
    assert_eq!(
        VaultContract::unstake(signed(cooling, user(2)), user(2), 1).err(),
        Some(VaultError::UseCooldownFlow)
    );
    let paused = VaultContract::pause(admin(env)).unwrap();
    assert_eq!(
        VaultContract::unstake(signed(paused, user(2)), user(2), 1).err(),
        Some(VaultError::VaultPaused)
    );
}

#[test]
fn penalty_and_fee_go_off_one_after_the_other() {
    let env = VaultContract::set_lock_period(admin(pool(0)), 100).unwrap();
    let env = VaultContract::set_early_exit_penalty_bps(admin(env), 1_000).unwrap();
    let env = VaultContract::set_unstake_fee_bps(admin(env), user(1), 500).unwrap();
    assert_eq!(VaultContract::get_lock_config(&env).unwrap(), (100, 1_000));
    assert_eq!(VaultContract::get_unstake_fee_bps(&env), 500);
    let env = staked(env, user(2), 1_000);
    let (env, returned) =
        VaultContract::unstake(signed(at(env, 1099), user(2)), user(2), 1_000).unwrap();
    assert_eq!(returned, 855);
    assert_eq!(env.pool.reward_pool_balance, 45);
    assert_eq!(VaultContract::vault_state(&env).unwrap(), (0, 100));
}

#[test]
fn no_penalty_once_the_lock_up_has_passed() {
    let env = VaultContract::set_lock_period(admin(pool(0)), 100).unwrap();
    let env = VaultContract::set_early_exit_penalty_bps(admin(env), 1_000).unwrap();
    let env = staked(env, user(2), 1_000);
    assert_eq!(VaultContract::minimum_lock_remaining(&env, user(2)).unwrap(), 100);
    let env = at(env, 1100);
    assert_eq!(VaultContract::minimum_lock_remaining(&env, user(2)).unwrap(), 0);
    let (_, returned) = VaultContract::unstake(signed(env, user(2)), user(2), 1_000).unwrap();
    assert_eq!(returned, 1_000);
}

#[test]
fn who_comes_back_in_time_pays_no_penalty() {
    let env = VaultContract::set_lock_period(admin(pool(0)), 100).unwrap();
    let env = VaultContract::set_early_exit_penalty_bps(admin(env), 2_000).unwrap();
    let env = VaultContract::set_restake_window(admin(env), 10).unwrap();
    let env = staked(env, user(2), 1_000);
    let (env, returned) = VaultContract::unstake(signed(env, user(2)), user(2), 1_000).unwrap();
    assert_eq!(returned, 800);
    let back = staked(at(env.clone(), 1010), user(2), 1_000);
    assert!(back.account(user(2)).restaked);
    let (gone, returned) = VaultContract::unstake(signed(back, user(2)), user(2), 1_000).unwrap();
    assert_eq!(returned, 1_200);
    assert!(!gone.account(user(2)).restaked);
    let late = staked(at(env, 1011), user(2), 1_000);
    assert!(!late.account(user(2)).restaked);
}

#[test]
fn limits_of_penalty_and_fee() {
    let env = pool(0);
    assert_eq!(
        VaultContract::set_early_exit_penalty_bps(admin(env.clone()), 2_001).err(),
        Some(VaultError::InvalidPenaltyBps)
    );
    assert!(VaultContract::set_early_exit_penalty_bps(admin(env.clone()), 2_000).is_ok());
    assert_eq!(
        VaultContract::set_unstake_fee_bps(admin(env.clone()), user(1), 501).err(),
        Some(VaultError::UnstakeFeeTooHigh)
    );
    assert!(VaultContract::set_unstake_fee_bps(admin(env.clone()), user(1), 500).is_ok());
    assert_eq!(
        VaultContract::set_withdrawal_limit(admin(env), 0).err(),
        Some(VaultError::ZeroAmount)
    );
}

#[test]
fn rewards_compound_before_an_unstake() {
    let env = staked(pool(1_000), user(2), 1_000_000);
    let env = VaultContract::set_auto_restake(signed(env, user(2)), user(2), true);
    let env = at(env, 1000 + 6_307_200);
    let (env, returned) = VaultContract::unstake(signed(env, user(2)), user(2), 500_000).unwrap();
    assert_eq!(returned, 500_000);
    assert_eq!(VaultContract::shares_of(&env, user(2)), 600_000);
    assert_eq!(VaultContract::vault_state(&env).unwrap(), (600_000, 600_000));
}

#[test]
fn cooldown_is_waited_for() {
    let env = VaultContract::set_cooldown_period(admin(pool(0)), 50).unwrap();
    let env = staked(env, user(2), 1_000);
    let env = VaultContract::request_unstake(signed(env, user(2)), user(2), 300).unwrap();
    assert_eq!(VaultContract::vault_state(&env).unwrap(), (700, 700));
    assert_eq!(
        VaultContract::pending_unbonding(&env, user(2)).unwrap(),
        Some(UnbondingPosition { amount: 300, unbonding_since: 1000 })
    );
    assert_eq!(
        VaultContract::execute_unstake(signed(at(env.clone(), 1049), user(2)), user(2)).err(),
        Some(VaultError::UseCooldownFlow)
    );
    let env = VaultContract::request_unstake(signed(at(env, 1020), user(2)), user(2), 5_000).unwrap();
    assert_eq!(
        VaultContract::pending_unbonding(&env, user(2)).unwrap(),
        Some(UnbondingPosition { amount: 1_000, unbonding_since: 1020 })
    );
    assert_eq!(env.pool.total_stakers, 0);
    let (env, paid) =
        VaultContract::execute_unstake(signed(at(env, 1070), user(2)), user(2)).unwrap();
    assert_eq!(paid, 1_000);
    assert_eq!(
        VaultContract::execute_unstake(signed(env, user(2)), user(2)).err(),
        Some(VaultError::PositionNotFound)
    );
}

#[test]
fn request_without_cooldown_pays_at_once() {
    let env = staked(pool(0), user(2), 1_000);
    let env = VaultContract::request_unstake(signed(env, user(2)), user(2), 300).unwrap();
    assert_eq!(VaultContract::pending_unbonding(&env, user(2)).unwrap(), None);
    assert!(env.effects.iter().any(|e| matches!(
        e,
        Effect::Transfer { to, amount: 300, .. } if *to == user(2)
    )));
    assert_eq!(VaultContract::shares_of(&env, user(2)), 700);
}

#[test]
fn request_is_refused_for_each_reason() {
    let env = staked(pool(0), user(2), 1_000);
    assert_eq!(
        VaultContract::request_unstake(signed(env.clone(), user(3)), user(2), 1).err(),
        Some(VaultError::Unauthorized)
    );
    assert_eq!(
        VaultContract::request_unstake(signed(env.clone(), user(2)), user(2), 0).err(),
        Some(VaultError::ZeroAmount)
    );
    assert_eq!(
        VaultContract::request_unstake(signed(env, user(3)), user(3), 1).err(),
        Some(VaultError::PositionNotFound)
    );
}

#[test]
fn can_unstake_reckons_with_compounding() {
    let env = staked(pool(1_000), user(2), 1_000_000);
    let env = VaultContract::set_auto_restake(signed(env, user(2)), user(2), true);
    let env = at(env, 1000 + 6_307_200);
    assert_eq!(VaultContract::can_unstake(&env, user(2), 1_000_000), UnstakeCheckResult::Ready);
    let (env, returned) =
        VaultContract::unstake(signed(env, user(2)), user(2), 1_000_000).unwrap();
    assert_eq!(returned, 1_000_000);
    assert_eq!(VaultContract::shares_of(&env, user(2)), 100_000);
}

#[test]
fn nothing_that_was_unbonding_is_lost() {
    let env = VaultContract::set_cooldown_period(admin(staked(pool(0), user(2), 200)), 10).unwrap();
    let env = VaultContract::request_unstake(signed(env, user(2)), user(2), 100).unwrap();
    let env = VaultContract::set_cooldown_period(admin(env), 0).unwrap();
    let env = VaultContract::request_unstake(signed(env, user(2)), user(2), 50).unwrap();
    assert_eq!(VaultContract::pending_unbonding(&env, user(2)).unwrap(), None);
    assert!(matches!(
        env.effects.last(),
        Some(Effect::Transfer { to, amount: 150, .. }) if *to == user(2)
    ));
}

#[test]
fn paused_pool_unbonds_nothing() {
    let env = VaultContract::set_cooldown_period(admin(staked(pool(0), user(2), 200)), 10).unwrap();
    let env = VaultContract::request_unstake(signed(env, user(2)), user(2), 100).unwrap();
    let env = VaultContract::pause(admin(at(env, 1_010))).unwrap();
    assert_eq!(
        VaultContract::request_unstake(signed(env.clone(), user(2)), user(2), 50).err(),
        Some(VaultError::VaultPaused)
    );
    assert_eq!(
        VaultContract::execute_unstake(signed(env.clone(), user(2)), user(2)).err(),
        Some(VaultError::VaultPaused)
    );
    let env = VaultContract::unpause(admin(env)).unwrap();
    let (_, paid) = VaultContract::execute_unstake(signed(env, user(2)), user(2)).unwrap();
    assert_eq!(paid, 100);
}

#[test]
fn can_unstake_tells_why_not() {
    let env = staked(pool(0), user(2), 1_000);
    assert_eq!(VaultContract::can_unstake(&env, user(2), 1_000), UnstakeCheckResult::Ready);
    assert_eq!(VaultContract::can_unstake(&env, user(3), 1), UnstakeCheckResult::NoPosition);
    assert_eq!(VaultContract::can_unstake(&env, user(2), 0), UnstakeCheckResult::InsufficientAmount);
    assert_eq!(
        VaultContract::can_unstake(&env, user(2), 1_001),
        UnstakeCheckResult::InsufficientAmount
    );
    let limited = VaultContract::set_withdrawal_limit(admin(env.clone()), 10).unwrap();
    assert_eq!(
        VaultContract::can_unstake(&limited, user(2), 11),
        UnstakeCheckResult::InsufficientAmount
    );
    let locked = VaultContract::set_lock_period(admin(env.clone()), 10).unwrap();
    assert_eq!(VaultContract::can_unstake(&locked, user(2), 10), UnstakeCheckResult::Ready);
    assert!(VaultContract::unstake(signed(locked, user(2)), user(2), 10).is_ok());
    let cooling = VaultContract::set_cooldown_period(admin(env.clone()), 10).unwrap();
    assert_eq!(VaultContract::can_unstake(&cooling, user(2), 10), UnstakeCheckResult::StillLocked);
    assert_eq!(
        VaultContract::unstake(signed(cooling, user(2)), user(2), 10).err(),
        Some(VaultError::UseCooldownFlow)
    );
    let mut full = VaultContract::set_unstake_fee_bps(admin(env.clone()), user(1), 500).unwrap();
    full.pool.reward_pool_balance = i128::MAX;
    assert_eq!(
        VaultContract::can_unstake(&full, user(2), 1_000),
        UnstakeCheckResult::InsufficientAmount
    );
    assert_eq!(
        VaultContract::unstake(signed(full, user(2)), user(2), 1_000).err(),
        Some(VaultError::ArithmeticError)
    );
    let paused = VaultContract::pause(admin(env)).unwrap();
    assert_eq!(VaultContract::can_unstake(&paused, user(2), 10), UnstakeCheckResult::PoolPaused);
}

#[test]
fn small_reserve_pauses_the_pool() {
    let mut env = staked(pool(0), user(2), 1_000);
    assert!(!env.effects.iter().any(|e| matches!(e, Effect::CheckReserve { .. })));
    env.settings.auto_pause_threshold = 700;
    let (env, _) = VaultContract::unstake(signed(env, user(2)), user(2), 400).unwrap();
    assert!(matches!(
        env.effects.last(),
        Some(Effect::CheckReserve { token }) if *token == contract(2)
    ));
    let calm = VaultContract::check_auto_pause(env.clone(), 700).unwrap();
    assert!(!VaultContract::is_paused(&calm));
    let env = VaultContract::check_auto_pause(env, 600).unwrap();
    assert!(VaultContract::is_paused(&env));
    assert!(matches!(
        env.effects.last(),
        Some(Effect::Publish(Event::AutoPaused { reward_balance: 600, threshold: 700, ledger: 1000 }))
    ));
}

#[test]
fn exits_of_a_stopped_pool_stay_open() {
    let env = staked(pool(0), user(2), 1_000);
    let env = VaultContract::emergency_stop(admin(env)).unwrap();
    assert!(VaultContract::is_stopped(&env));
    let (env, returned) = VaultContract::unstake(signed(env, user(2)), user(2), 1_000).unwrap();
    assert_eq!(returned, 1_000);
    assert!(VaultContract::claim(signed(env, user(2)), user(2)).is_ok());
}
