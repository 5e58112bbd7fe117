use stellar_defi_vault::address::{Address, AddressKind};
use stellar_defi_vault::env::{Effect, Env};
use stellar_defi_vault::errors::VaultError;
use stellar_defi_vault::events::Event;
use stellar_defi_vault::storage::{BoostTierProgress, CampaignInfo, ClaimWindow, VestingEntry};
use stellar_defi_vault::vault::VaultContract;

fn user(n: u128) -> Address {
    Address { kind: AddressKind::Account, hi: 7, lo: n }
}

fn contract(n: u128) -> Address {
    Address { kind: AddressKind::Contract, hi: 0, lo: n }
}

fn signed(mut env: Env, who: Address) -> Env {
    env.signers = vec![who];
    env
}

fn at(mut env: Env, sequence: u32) -> Env {
    env.sequence = sequence;
    env
}

/// A pool of contract 1 with the token of contract 2 and user 1 as its admin, at ledger 1000.
fn pool(rate_bps: u32) -> Env {
    VaultContract::initialize(Env::new(contract(1), 1000), user(1), contract(2), rate_bps, None, None)
        .unwrap()
}

fn admin(env: Env) -> Env {
    signed(env, user(1))
}

fn staked(env: Env, who: Address, amount: i128) -> Env {
    VaultContract::stake(signed(env, who), who, amount).unwrap().0
}

fn funded(env: Env, amount: i128) -> Env {
    VaultContract::fund_reward_pool(admin(env), user(1), amount).unwrap()
}

const YEAR: u32 = 6_307_200;

#[test]
fn dust_of_a_small_stake() {
    assert_eq!(VaultContract::reward_dust_for_ledgers(100, 100, 10_000, 300), Ok(3_000_000));
    assert_eq!(VaultContract::reward_dust_for_ledgers(100, 100, 15_000, 300), Ok(4_500_000));
    assert_eq!(VaultContract::reward_dust_for_ledgers(0, 100, 10_000, 300), Ok(0));
    assert_eq!(VaultContract::reward_dust_for_ledgers(100, 100, 10_000, 0), Ok(0));
    assert_eq!(VaultContract::reward_dust_for_ledgers(-100, 100, 10_000, 300), Ok(-3_000_000));
    assert_eq!(
        VaultContract::reward_dust_for_ledgers(i128::MAX, 2, 10_000, 1),
        Err(VaultError::ArithmeticError)
    );
    assert_eq!(
        VaultContract::reward_dust_for_ledgers(i128::MAX, 1, 10_000, 2),
        Err(VaultError::ArithmeticError)
    );
}

#[test]
fn reward_of_a_year() {
    assert_eq!(VaultContract::reward_for_ledgers(1_000_000, 1_000, 10_000, 10_000, YEAR), Ok(100_000));
    assert_eq!(VaultContract::reward_for_ledgers(1_000_000, 1_000, 20_000, 15_000, YEAR), Ok(300_000));
    assert_eq!(VaultContract::reward_for_ledgers(-1_000_000, 1_000, 10_000, 10_000, YEAR), Ok(-100_000));
    assert_eq!(VaultContract::reward_for_ledgers(100, 100, 10_000, 10_000, 300), Ok(0));
    assert_eq!(
        VaultContract::reward_for_ledgers(i128::MAX, 10_000, 10_000, 10_000, YEAR),
        Err(VaultError::ArithmeticError)
    );
}

#[test]
fn campaign_at_a_ledger() {
    let campaign = Some(CampaignInfo { multiplier_bps: 20_000, starts_at_ledger: 10, ends_at_ledger: 20 });
    assert_eq!(VaultContract::campaign_info_at(5, &campaign), (10_000, 10));
    assert_eq!(VaultContract::campaign_info_at(10, &campaign), (20_000, 20));
    assert_eq!(VaultContract::campaign_info_at(19, &campaign), (20_000, 20));
    assert_eq!(VaultContract::campaign_info_at(20, &campaign), (10_000, u32::MAX));
    assert_eq!(VaultContract::campaign_info_at(5, &None), (10_000, u32::MAX));
}

#[test]
fn rate_has_a_limit() {
    assert_eq!(VaultContract::validate_rate_bps(10_000), Ok(()));
    assert_eq!(VaultContract::validate_rate_bps(10_001), Err(VaultError::RateTooHigh));
}

#[test]
fn rewards_accrue_and_are_claimed() {
    let env = funded(staked(pool(1_000), user(2), 1_000_000), 500_000);
    let env = at(env, 1000 + YEAR);
    assert_eq!(VaultContract::calc_pending_reward(&env, user(2)).unwrap(), 100_000);
    let (env, reward) = VaultContract::claim(signed(env, user(2)), user(2)).unwrap();
    assert_eq!(reward, 100_000);
    assert_eq!(VaultContract::get_reward_pool_balance(&env).unwrap(), 400_000);
    assert_eq!(VaultContract::total_rewards_paid(&env), 100_000);
    assert_eq!(env.account(user(2)).last_claim, 1000 + YEAR);
    let n = env.effects.len();
    assert!(matches!(
        &env.effects[n - 2],
        Effect::Transfer { to, amount: 100_000, .. } if *to == user(2)
    ));
    assert!(matches!(
        &env.effects[n - 1],
        Effect::Publish(Event::Claimed { user: who, reward: 100_000, .. }) if *who == user(2)
    ));
    let (_, again) = VaultContract::claim(signed(env, user(2)), user(2)).unwrap();
    assert_eq!(again, 0);
}

#[test]
fn settling_in_between_changes_nothing() {
    let env = funded(staked(pool(777), user(2), 123_457), 1_000_000);
    let env = VaultContract::set_claim_cap(admin(env), user(1), 1, 10_000_000).unwrap();
    let (once, paid) =
        VaultContract::claim(signed(at(env.clone(), 5_001_000), user(2)), user(2)).unwrap();
    assert_eq!(paid, 1);
    let mut often = env;
    for ledger in [1_017u32, 2_000, 251_003, 3_334_333, 5_001_000] {
        often = VaultContract::claim(signed(at(often, ledger), user(2)), user(2)).unwrap().0;
    }
    assert_eq!(often.account(user(2)).accrued, once.account(user(2)).accrued);
    assert_eq!(often.account(user(2)).remainder, once.account(user(2)).remainder);
    let account = once.account(user(2));
    assert_eq!(
        (account.accrued + 1) * 63_072_000_000 + account.remainder,
        123_457 * 777 * 5_000_000
    );
}

#[test]
fn dust_is_carried_from_settlement_to_settlement() {
    let mut env = staked(pool(100), user(2), 100);
    for i in 1..=10u32 {
        env = staked(at(env, 1000 + 300 * i), user(2), 1);
        env = VaultContract::unstake(signed(env, user(2)), user(2), 1).unwrap().0;
    }
    let account = env.account(user(2));
    assert_eq!(account.accrued, 0);
    assert_eq!(account.remainder, 10 * 3_000_000);
}

#[test]
fn tiers_raise_the_rate_from_their_ledger_on() {
    let env = VaultContract::set_boost_schedule(admin(pool(1_000)), vec![(1_000, 15_000), (3_000, 20_000)])
        .unwrap();
    assert_eq!(
        VaultContract::get_boost_schedule(&env).unwrap(),
        vec![(1_000, 15_000), (3_000, 20_000)]
    );
    let env = staked(env, user(2), 1_000_000);
    assert_eq!(VaultContract::get_boost_multiplier(&at(env.clone(), 1999), user(2)).unwrap(), 10_000);
    assert_eq!(VaultContract::get_boost_multiplier(&at(env.clone(), 2000), user(2)).unwrap(), 15_000);
    assert_eq!(VaultContract::get_boost_multiplier(&at(env.clone(), 4000), user(2)).unwrap(), 20_000);
    assert_eq!(VaultContract::get_boost_multiplier(&env, user(3)).unwrap(), 10_000);
    let env = VaultContract::merge_positions(signed(at(env, 5000), user(2)), user(2)).unwrap();
    let account = env.account(user(2));
    let dust = 1_000_000i128 * (1_000 * 1_000 + 1_500 * 2_000 + 2_000 * 1_000);
    assert_eq!(account.accrued * 63_072_000_000 + account.remainder, dust);
}

#[test]
fn campaign_stacks_with_tiers() {
    let env = VaultContract::set_boost_schedule(admin(pool(1_000)), vec![(100, 20_000)]).unwrap();
    let env = staked(env, user(2), 1_000_000);
    let env = VaultContract::start_boost_campaign(admin(at(env, 1050)), 15_000, 100).unwrap();
    assert_eq!(VaultContract::active_campaign(&env).unwrap(), Some((15_000, 1150)));
    assert_eq!(VaultContract::active_campaign(&at(env.clone(), 1150)).unwrap(), None);
    let env = VaultContract::merge_positions(signed(at(env, 1200), user(2)), user(2)).unwrap();
    let account = env.account(user(2));
    let dust = 1_000_000i128 * (1_000 * 50 + 1_500 * 50 + 3_000 * 50 + 2_000 * 50);
    assert_eq!(account.accrued * 63_072_000_000 + account.remainder, dust);
}

#[test]
fn boost_schedule_is_checked() {
    let env = pool(0);
    assert_eq!(
        VaultContract::set_boost_schedule(admin(env.clone()), vec![(1, 10_000); 6]).err(),
        Some(VaultError::TooManyBoostTiers)
    );
    assert_eq!(
        VaultContract::set_boost_schedule(admin(env.clone()), vec![(1, 9_999)]).err(),
        Some(VaultError::InvalidBoostSchedule)
    );
    assert_eq!(
        VaultContract::set_boost_schedule(admin(env.clone()), vec![(5, 10_000), (5, 11_000)]).err(),
        Some(VaultError::InvalidBoostSchedule)
    );
    assert!(VaultContract::set_boost_schedule(admin(env), vec![(0, 10_000), (5, 11_000)]).is_ok());
}

#[test]
fn campaigns_come_one_at_a_time() {
    let env = pool(0);
    assert_eq!(
        VaultContract::start_boost_campaign(admin(env.clone()), 9_999, 10).err(),
        Some(VaultError::InvalidBoostSchedule)
    );
    assert_eq!(
        VaultContract::start_boost_campaign(admin(env.clone()), 10_000, 0).err(),
        Some(VaultError::ZeroAmount)
    );
    assert_eq!(
        VaultContract::end_boost_campaign(admin(env.clone())).err(),
        Some(VaultError::NoCampaignActive)
    );
    let env = VaultContract::start_boost_campaign(admin(env), 12_000, 10).unwrap();
    assert_eq!(
        VaultContract::start_boost_campaign(admin(env.clone()), 12_000, 10).err(),
        Some(VaultError::CampaignAlreadyActive)
    );
    assert!(VaultContract::start_boost_campaign(admin(at(env.clone(), 1010)), 12_000, 10).is_ok());
    assert_eq!(
        VaultContract::end_boost_campaign(admin(at(env.clone(), 1010))).err(),
        Some(VaultError::NoCampaignActive)
    );
    let env = VaultContract::end_boost_campaign(admin(at(env, 1009))).unwrap();
    assert_eq!(VaultContract::active_campaign(&env).unwrap(), None);
}

#[test]
fn tier_progress() {
    let env = VaultContract::set_boost_schedule(admin(pool(0)), vec![(100, 11_000), (200, 12_000)]).unwrap();
    let env = staked(env, user(2), 10);
    assert_eq!(
        VaultContract::get_boost_tier_progress(&at(env.clone(), 1150), user(2)),
        BoostTierProgress {
            current_tier: 1,
            current_multiplier_bps: 11_000,
            next_tier_in_ledgers: Some(50),
            next_multiplier_bps: Some(12_000),
        }
    );
    assert_eq!(
        VaultContract::get_boost_tier_progress(&at(env, 1200), user(2)),
        BoostTierProgress {
            current_tier: 2,
            current_multiplier_bps: 12_000,
            next_tier_in_ledgers: None,
            next_multiplier_bps: None,
        }
    );
}

#[test]
fn claim_is_refused_for_each_reason() {
    let env = at(staked(pool(1_000), user(2), 1_000_000), 1000 + YEAR);
    assert_eq!(
        VaultContract::claim(signed(env.clone(), user(3)), user(2)).err(),
        Some(VaultError::Unauthorized)
    );
    assert_eq!(
        VaultContract::claim(signed(env, user(2)), user(2)).err(),
        Some(VaultError::InsufficientRewardPool)
    );
    let epochs = VaultContract::set_epoch_mode(admin(pool(0)), user(1), 10, 5).unwrap();
    assert_eq!(
        VaultContract::claim(signed(epochs, user(2)), user(2)).err(),
        Some(VaultError::EpochModeConflict)
    );
}

#[test]
fn claim_cap_defers_the_rest() {
    let env = funded(staked(pool(1_000), user(2), 1_000_000), 500_000);
    let env = VaultContract::set_claim_cap(admin(env), user(1), 60_000, 100).unwrap();
    let env = at(env, 1000 + YEAR);
    assert_eq!(VaultContract::get_claim_window(&env, user(2)), None);
    let (env, reward) = VaultContract::claim(signed(env, user(2)), user(2)).unwrap();
    assert_eq!(reward, 60_000);
    assert_eq!(env.account(user(2)).accrued, 40_000);
    assert_eq!(
        VaultContract::get_claim_window(&env, user(2)),
        Some(ClaimWindow { claimed_in_window: 60_000, window_started_at: 1000 + YEAR })
    );
    let (env, reward) = VaultContract::claim(signed(at(env, 1100 + YEAR), user(2)), user(2)).unwrap();
    assert_eq!(reward, 0);
    let (env, reward) = VaultContract::claim(signed(at(env, 1101 + YEAR), user(2)), user(2)).unwrap();
    assert_eq!(reward, 40_001);
    assert_eq!(
        VaultContract::get_claim_window(&env, user(2)),
        Some(ClaimWindow { claimed_in_window: 40_001, window_started_at: 1101 + YEAR })
    );
    let env = VaultContract::set_claim_cap(admin(env), user(1), 0, 0).unwrap();
    assert_eq!(VaultContract::get_claim_window(&env, user(2)), None);
    assert_eq!(
        VaultContract::set_claim_cap(admin(env), user(1), -1, 0).err(),
        Some(VaultError::ZeroAmount)
    );
}

#[test]
fn claim_window_of_no_length_lasts_one_ledger() {
    let env = funded(staked(pool(1_000), user(2), 1_000_000), 500_000);
    let env = VaultContract::set_claim_cap(admin(env), user(1), 10, 0).unwrap();
    let now = 1000 + YEAR;
    let (env, reward) = VaultContract::claim(signed(at(env, now), user(2)), user(2)).unwrap();
    assert_eq!(reward, 10);
    let (env, reward) = VaultContract::claim(signed(env, user(2)), user(2)).unwrap();
    assert_eq!(reward, 0);
    let (_, reward) = VaultContract::claim(signed(at(env, now + 1), user(2)), user(2)).unwrap();
    assert_eq!(reward, 10);
}

#[test]
fn claimed_rewards_vest() {
    let env = funded(staked(pool(1_000), user(2), 1_000_000), 500_000);
    let env = VaultContract::set_vesting_period(admin(env), user(1), 50).unwrap();
    let now = 1000 + YEAR;
    let (env, reward) = VaultContract::claim(signed(at(env, now), user(2)), user(2)).unwrap();
    assert_eq!(reward, 100_000);
    assert_eq!(
        VaultContract::vesting_balance(&env, user(2)),
        vec![VestingEntry { amount: 100_000, claimable_at_ledger: now + 50 }]
    );
    assert_eq!(
        VaultContract::withdraw_vested(signed(env.clone(), user(2)), user(2)).err(),
        Some(VaultError::NothingToWithdraw)
    );
    assert_eq!(
        VaultContract::withdraw_all_vested(signed(env.clone(), user(2)), user(2)).err(),
        Some(VaultError::NothingToWithdraw)
    );
    let env = VaultContract::schedule_vesting(admin(env), user(2), 7, now + 60).unwrap();
    let (env, paid) =
        VaultContract::withdraw_vested(signed(at(env, now + 50), user(2)), user(2)).unwrap();
    assert_eq!(paid, 100_000);
    assert_eq!(
        VaultContract::vesting_balance(&env, user(2)),
        vec![VestingEntry { amount: 7, claimable_at_ledger: now + 60 }]
    );
    let (env, paid) =
        VaultContract::withdraw_all_vested(signed(at(env, now + 60), user(2)), user(2)).unwrap();
    assert_eq!(paid, 7);
    assert!(VaultContract::vesting_balance(&env, user(2)).is_empty());
}

#[test]
fn vesting_queue_has_an_end() {
    let env = funded(staked(pool(1_000), user(2), 1_000_000), 500_000);
    let mut env = VaultContract::set_vesting_period(admin(env), user(1), 50).unwrap();
    for i in 0..10u32 {
        env = VaultContract::schedule_vesting(admin(env), user(2), 1, i).unwrap();
    }
    let env = at(env, 1000 + YEAR);
    assert_eq!(
        VaultContract::claim(signed(env.clone(), user(2)), user(2)).err(),
        Some(VaultError::VestingQueueFull)
    );
    assert_eq!(
        VaultContract::schedule_vesting(admin(env.clone()), user(2), 0, 1).err(),
        Some(VaultError::ZeroAmount)
    );
    assert_eq!(
        VaultContract::schedule_vesting(admin(env.clone()), user(2), 1, 1).err(),
        Some(VaultError::VestingQueueFull)
    );
    let (env, _) = VaultContract::withdraw_vested(signed(env, user(2)), user(2)).unwrap();
    let poor = VaultContract::schedule_vesting(admin(env), user(2), 1_000_000, 1).unwrap();
    assert_eq!(
        VaultContract::withdraw_vested(signed(poor, user(2)), user(2)).err(),
        Some(VaultError::InsufficientRewardPool)
    );
}

#[test]
fn stake_and_claim_does_both() {
    let env = funded(staked(pool(1_000), user(2), 1_000_000), 500_000);
    let env = at(env, 1000 + YEAR);
    let both = VaultContract::stake_and_claim(signed(env.clone(), user(2)), user(2), 50, 0).unwrap();
    assert_eq!(both.1, 100_000);
    let (one, _) = VaultContract::claim(signed(env.clone(), user(2)), user(2)).unwrap();
    let (two, _) = VaultContract::stake(one, user(2), 50).unwrap();
    assert_eq!(both.0.effects.len(), two.effects.len());
    assert_eq!(both.0.account(user(2)).shares, two.account(user(2)).shares);
    assert_eq!(both.0.pool.total_deposited, two.pool.total_deposited);
    assert_eq!(
        VaultContract::stake_and_claim(signed(env.clone(), user(3)), user(2), 50, 0).err(),
        Some(VaultError::Unauthorized)
    );
    let mut watched = env;
    watched.settings.auto_pause_threshold = 1_000;
    assert_eq!(
        VaultContract::stake_and_claim(signed(watched.clone(), user(2)), user(2), 50, 999).err(),
        Some(VaultError::VaultPaused)
    );
    assert!(VaultContract::stake_and_claim(signed(watched, user(2)), user(2), 50, 1_000).is_ok());
}

#[test]
fn pending_reward_in_reward_decimals() {
    let env = VaultContract::initialize(
        Env::new(contract(1), 1000),
        user(1),
        contract(2),
        1_000,
        Some(7),
        Some(9),
    )
    .unwrap();
    assert_eq!(VaultContract::stake_decimals(&env), 7);
    assert_eq!(VaultContract::reward_decimals(&env), 9);
    let mut env = at(staked(env, user(2), 1_000_000), 1000 + YEAR);
    assert_eq!(VaultContract::calc_pending_reward(&env, user(2)).unwrap(), 10_000_000);
    env.settings.reward_decimals = 4;
    assert_eq!(VaultContract::calc_pending_reward(&env, user(2)).unwrap(), 100);
    env.settings.reward_decimals = 7 + 39;
    assert_eq!(
        VaultContract::calc_pending_reward(&env, user(2)),
        Err(VaultError::ArithmeticError)
    );
    env.settings.reward_decimals = 7 + 34;
    assert_eq!(
        VaultContract::calc_pending_reward(&env, user(2)),
        Err(VaultError::ArithmeticError)
    );
}

#[test]
fn targets() {
    let env = staked(pool(1_000), user(2), 1_000_000);
    assert_eq!(VaultContract::ledgers_to_target(&env, user(2), 0).unwrap(), 0);
    assert_eq!(VaultContract::ledgers_to_target(&env, user(2), 100_000).unwrap(), YEAR);
    assert_eq!(VaultContract::ledgers_to_target(&env, user(2), 1).unwrap(), 64);
    assert_eq!(VaultContract::days_to_target(&env, user(2), 100_000).unwrap(), 365);
    assert_eq!(VaultContract::ledgers_to_target(&env, user(3), 1).unwrap(), u32::MAX);
    assert_eq!(VaultContract::days_to_target(&env, user(3), 1).unwrap(), u32::MAX);
    assert_eq!(
        VaultContract::ledgers_to_target(&env, user(2), i128::MAX),
        Err(VaultError::ArithmeticError)
    );
    assert_eq!(
        VaultContract::ledgers_to_target(&Env::new(contract(1), 1), user(2), 1),
        Err(VaultError::NotInitialized)
    );
    let idle = staked(pool(0), user(2), 10);
    assert_eq!(VaultContract::ledgers_to_target(&idle, user(2), 1).unwrap(), u32::MAX);
}

#[test]
fn estimates() {
    let env = staked(pool(1_000), user(2), 1_000_000_000);
    assert_eq!(VaultContract::daily_reward_estimate(&env, user(2)), 273_972);
    assert_eq!(VaultContract::get_estimated_annual_reward(&env, user(2)), 100_000_000);
    assert_eq!(VaultContract::daily_reward_estimate(&env, user(3)), 0);
    assert_eq!(VaultContract::get_estimated_annual_reward(&env, user(3)), 0);
    assert_eq!(
        VaultContract::position_value_in_reward_token(&env, user(2), 2_500).unwrap(),
        250_000_000
    );
    assert_eq!(VaultContract::position_value_in_reward_token(&env, user(3), 0).unwrap(), 0);
    assert_eq!(
        VaultContract::position_value_in_reward_token(&env, user(2), 0),
        Err(VaultError::InvalidRate)
    );
    assert_eq!(VaultContract::reward_per_token_per_ledger(&env), 0);
}

#[test]
fn simulations() {
    let env = VaultContract::set_boost_schedule(admin(pool(1_000)), vec![(YEAR / 2, 20_000)]).unwrap();
    assert_eq!(VaultContract::simulate_stake(&env, 1_000_000, YEAR).unwrap(), 100_000);
    assert_eq!(
        VaultContract::simulate_boost_impact(&env, 1_000_000, YEAR).unwrap(),
        (100_000, 150_000)
    );
    assert_eq!(
        VaultContract::simulate_compound(&env, 1_000_000, YEAR, YEAR / 2).unwrap(),
        102_500
    );
    assert_eq!(VaultContract::simulate_compound(&env, 1_000_000, YEAR, 0).unwrap(), 0);
    assert_eq!(
        VaultContract::simulate_compound(&env, 1_000_000, YEAR + 1, YEAR).unwrap(),
        100_000
    );
    assert_eq!(VaultContract::simulate_stake(&pool(0), 1_000_000, YEAR).unwrap(), 0);
    assert_eq!(VaultContract::simulate_boost_impact(&pool(0), 5, YEAR).unwrap(), (0, 0));
    assert_eq!(
        VaultContract::simulate_stake(&Env::new(contract(1), 0), 1, 1),
        Err(VaultError::NotInitialized)
    );
}

#[test]
fn average_rate_over_a_window() {
    let env = pool(1_000);
    assert_eq!(VaultContract::twap_apr_bps(&at(env.clone(), 1200), 100).unwrap(), 1_000);
    let env = VaultContract::set_reward_rate_bps(admin(at(env, 1100)), 2_000).unwrap();
    assert_eq!(VaultContract::twap_apr_bps(&at(env.clone(), 1200), 200).unwrap(), 1_500);
    assert_eq!(VaultContract::twap_apr_bps(&at(env.clone(), 1200), 100).unwrap(), 2_000);
    assert_eq!(VaultContract::twap_apr_bps(&at(env.clone(), 1200), 0).unwrap(), 2_000);
    let env = VaultContract::set_reward_rate_bps(admin(at(env, 1150)), 0).unwrap();
    assert_eq!(VaultContract::twap_apr_bps(&at(env.clone(), 1200), 200).unwrap(), 1_000);
    assert_eq!(VaultContract::twap_apr_bps(&env, 100).unwrap(), 1_500);
    assert_eq!(VaultContract::get_rate_history(&env).unwrap(), vec![(1100, 1_000), (1150, 2_000)]);
}
