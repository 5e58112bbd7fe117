use stellar_defi_vault::address::{text_precedes, Address, AddressKind};
use stellar_defi_vault::env::{Effect, Env};
use stellar_defi_vault::errors::VaultError;
use stellar_defi_vault::events::Event;
use stellar_defi_vault::example_consumer::ExampleConsumer;
use stellar_defi_vault::interface::IStakingPool;
use stellar_defi_vault::storage::{
    LeaderboardEntry, PoolStats, StakePosition, StakeStreak, StakingEfficiencyScore, UserStats,
};
use stellar_defi_vault::vault::VaultContract;

fn user(n: u128) -> Address {
    Address { kind: AddressKind::Account, hi: 7, lo: n }
}

fn contract(n: u128) -> Address {
    Address { kind: AddressKind::Contract, hi: 0, lo: n }
}

fn signed(mut env: Env, who: Address) -> Env {
    env.signers = vec![who];
    env
}

fn at(mut env: Env, sequence: u32) -> Env {
    env.sequence = sequence;
    env
}

/// A pool of contract 1 with the token of contract 2 and user 1 as its admin, at ledger 1000.
fn pool(rate_bps: u32) -> Env {
    VaultContract::initialize(Env::new(contract(1), 1000), user(1), contract(2), rate_bps, None, None)
        .unwrap()
}

fn admin(env: Env) -> Env {
    signed(env, user(1))
}

fn staked(env: Env, who: Address, amount: i128) -> Env {
    VaultContract::stake(signed(env, who), who, amount).unwrap().0
}

fn line(n: u128, amount: i128) -> LeaderboardEntry {
    LeaderboardEntry { staker: user(n), amount }
}

#[test]
fn address_texts_are_strkeys() {
    let text = |address: Address| String::from_utf8(address.to_text()).unwrap();
    assert_eq!(
        text(contract(0)),
        "CAAAAAAAAAAAAAAAAAAAAAAAAAAAAAAAAAAAAAAAAAAAAAAAAAAABSC4"
    );
    assert_eq!(
        text(Address { kind: AddressKind::Account, hi: 0, lo: 0 }),
        "GAAAAAAAAAAAAAAAAAAAAAAAAAAAAAAAAAAAAAAAAAAAAAAAAAAAAWHF"
    );
    assert!(text(user(1)).starts_with('G'));
    assert_eq!(text(user(1)).len(), 56);
}

#[test]
fn texts_are_ordered_like_words() {
    let word = |s: &str| s.as_bytes().to_vec();
    assert!(text_precedes(&word("abc"), &word("abd")));
    assert!(text_precedes(&word("ab"), &word("abc")));
    assert!(text_precedes(&word(""), &word("a")));
    assert!(!text_precedes(&word("abc"), &word("abc")));
    assert!(!text_precedes(&word("b"), &word("abc")));
    assert!(!text_precedes(&word("a"), &word("")));
}

#[test]
fn positions_are_told() {
    let env = staked(pool(0), user(2), 1_000);
    let env = VaultContract::add_yield(admin(env), user(1), 500).unwrap();
    let position = StakePosition { amount: 1_500, staked_at_ledger: 1000, last_claim_ledger: 1000 };
    assert_eq!(VaultContract::position_of(&env, user(2)), Ok(Some(position)));
    assert_eq!(VaultContract::position_of(&env, user(3)), Ok(None));
    assert!(VaultContract::has_position(&env, user(2)));
    assert_eq!(
        VaultContract::batch_position_query(&env, vec![user(3), user(2)]),
        Ok(vec![None, Some(position)])
    );
    assert_eq!(
        VaultContract::batch_position_query(&env, vec![user(2); 21]),
        Err(VaultError::BatchTooLarge)
    );
    assert_eq!(VaultContract::claimable_since(&env, user(2)), Ok(1000));
    assert_eq!(VaultContract::claimable_since(&env, user(3)), Err(VaultError::PositionNotFound));
    let later = at(env, 1_300);
    assert_eq!(VaultContract::position_age_ledgers(&later, user(2)), Ok(300));
    assert_eq!(VaultContract::time_since_last_claim(&later, user(2)), Ok(300));
    assert_eq!(VaultContract::position_age_ledgers(&later, user(3)), Err(VaultError::PositionNotFound));
    assert_eq!(VaultContract::time_since_last_claim(&later, user(3)), Err(VaultError::PositionNotFound));
    assert_eq!(VaultContract::minimum_lock_remaining(&later, user(3)), Err(VaultError::PositionNotFound));
}

#[test]
fn rewards_accrue_since_the_last_settlement() {
    let env = VaultContract::fund_reward_pool(admin(pool(1_000)), user(1), 1_000).unwrap();
    let env = staked(env, user(2), 1_000_000);
    let env = staked(at(env, 1_100), user(2), 500);
    assert_eq!(VaultContract::claimable_since(&env, user(2)), Ok(1_100));
    assert_eq!(VaultContract::time_since_last_claim(&env, user(2)), Ok(100));
    let (env, _) = VaultContract::unstake(signed(at(env, 1_200), user(2)), user(2), 500).unwrap();
    assert_eq!(VaultContract::claimable_since(&env, user(2)), Ok(1_200));
    let (env, _) = VaultContract::claim(signed(at(env, 1_250), user(2)), user(2)).unwrap();
    assert_eq!(VaultContract::claimable_since(&env, user(2)), Ok(1_250));
    assert_eq!(VaultContract::time_since_last_claim(&env, user(2)), Ok(0));
}

#[test]
fn summary_without_a_stake_is_empty() {
    let env = staked(pool(1_000), user(2), 1_000_000);
    let env = at(env, 1000 + 6_307_200);
    let env = VaultContract::transfer_position(signed(env, user(2)), user(2), user(3)).unwrap();
    let summary = VaultContract::user_summary(&env, user(2)).unwrap();
    assert!(summary.position.is_empty());
    assert_eq!((summary.pending_reward, summary.pool_share_bps), (0, 0));
    assert_eq!(VaultContract::calc_pending_reward(&env, user(2)), Ok(100_000));
}

#[test]
fn claims_are_counted_for_the_score() {
    let env = staked(pool(1_000), user(2), 1_000_000);
    let env = VaultContract::fund_reward_pool(admin(env), user(1), 500_000).unwrap();
    let env = at(env, 1000 + 6_307_200);
    let (env, reward) = VaultContract::claim(signed(env, user(2)), user(2)).unwrap();
    assert_eq!(reward, 100_000);
    assert_eq!(
        VaultContract::staking_efficiency_score(&at(env, 1000 + 2 * 6_307_200), user(2)),
        StakingEfficiencyScore {
            total_claimed: 100_000,
            estimated_if_compounded: 200_000,
            efficiency_bps: 5_000,
        }
    );
}

#[test]
fn positions_are_paged() {
    let mut env = pool(0);
    for n in 2..=6u128 {
        env = staked(env, user(n), n as i128 * 10);
    }
    let env = admin(env);
    let users = |page: u32, size: u32| -> Vec<Address> {
        VaultContract::view_all_positions(&env, page, size).unwrap().iter().map(|p| p.0).collect()
    };
    assert_eq!(users(0, 2), vec![user(2), user(3)]);
    assert_eq!(users(2, 2), vec![user(6)]);
    assert!(users(3, 2).is_empty());
    assert!(users(u32::MAX, 20).is_empty());
    assert_eq!(VaultContract::view_all_positions(&env, 0, 2).unwrap()[1].1.amount, 30);
    assert_eq!(
        VaultContract::view_all_positions(&env, 0, 0).err(),
        Some(VaultError::PageSizeTooLarge)
    );
    assert_eq!(
        VaultContract::view_all_positions(&env, 0, 21).err(),
        Some(VaultError::PageSizeTooLarge)
    );
    assert_eq!(
        VaultContract::view_all_positions(&signed(env.clone(), user(2)), 0, 2).err(),
        Some(VaultError::Unauthorized)
    );
}

#[test]
fn votes_are_kept_by_ledger() {
    let env = staked(pool(0), user(2), 100);
    let env = staked(at(env, 1_010), user(2), 50);
    let env = staked(env, user(2), 25);
    let (env, _) = VaultContract::unstake(signed(at(env, 1_020), user(2)), user(2), 175).unwrap();
    assert_eq!(VaultContract::vote_weight_at(&env, user(2), 999), Ok(0));
    assert_eq!(VaultContract::vote_weight_at(&env, user(2), 1_000), Ok(100));
    assert_eq!(VaultContract::vote_weight_at(&env, user(2), 1_009), Ok(100));
    assert_eq!(VaultContract::vote_weight_at(&env, user(2), 1_010), Ok(175));
    assert_eq!(VaultContract::vote_weight_at(&env, user(2), 1_020), Ok(0));
    assert_eq!(VaultContract::vote_weight_at(&env, user(3), 1_020), Ok(0));
    assert_eq!(VaultContract::current_vote_weight(&env, user(2)), Ok(0));
    assert_eq!(VaultContract::total_vote_weight(&env), Ok(0));
    assert_eq!(VaultContract::total_staked(&env), Ok(0));
}

#[test]
fn vote_history_keeps_the_last_hundred() {
    let mut env = pool(0);
    for i in 1..=105u32 {
        env = staked(at(env, 1000 + i), user(2), 1);
    }
    assert_eq!(VaultContract::vote_weight_at(&env, user(2), 1_005), Ok(0));
    assert_eq!(VaultContract::vote_weight_at(&env, user(2), 1_006), Ok(6));
    assert_eq!(VaultContract::vote_weight_at(&env, user(2), 1_105), Ok(105));
}

#[test]
fn stake_history_keeps_the_last_five() {
    let mut env = pool(0);
    for i in 1..=7i128 {
        env = staked(env, user(2), i);
    }
    let amounts: Vec<i128> =
        VaultContract::stake_history(&env, user(2)).iter().map(|e| e.amount).collect();
    assert_eq!(amounts, vec![3, 4, 5, 6, 7]);
}

#[test]
fn leaderboard_is_in_order() {
    let env = VaultContract::set_leaderboard_size(admin(pool(0)), 3).unwrap();
    let env = staked(env, user(2), 50);
    let env = staked(env, user(3), 70);
    let env = staked(env, user(4), 60);
    assert_eq!(
        VaultContract::get_leaderboard(&env),
        Ok(vec![line(3, 70), line(4, 60), line(2, 50)])
    );
    let env = staked(env, user(5), 50);
    assert_eq!(
        VaultContract::get_leaderboard(&env),
        Ok(vec![line(3, 70), line(4, 60), line(2, 50)])
    );
    let env = staked(env, user(5), 20);
    assert_eq!(
        VaultContract::get_leaderboard(&env),
        Ok(vec![line(3, 70), line(5, 70), line(4, 60)])
    );
    let (env, _) = VaultContract::unstake(signed(env, user(3)), user(3), 70).unwrap();
    assert_eq!(VaultContract::get_leaderboard(&env), Ok(vec![line(5, 70), line(4, 60)]));
    let env = VaultContract::set_leaderboard_size(admin(env), 1).unwrap();
    assert_eq!(VaultContract::get_leaderboard(&env), Ok(vec![line(5, 70)]));
    let env = VaultContract::set_leaderboard_size(admin(env), 0).unwrap();
    assert_eq!(VaultContract::get_leaderboard(&env), Ok(vec![]));
    let env = staked(env, user(4), 500);
    assert_eq!(VaultContract::get_leaderboard(&env), Ok(vec![]));
    assert_eq!(
        VaultContract::set_leaderboard_size(admin(env), 21).err(),
        Some(VaultError::LeaderboardSizeTooLarge)
    );
}

#[test]
fn ranks_follow_size_and_then_text() {
    let env = staked(pool(0), user(2), 50);
    let env = staked(env, user(3), 70);
    let env = staked(env, user(4), 50);
    assert_eq!(VaultContract::get_staker_rank(&env, user(3)), Some(1));
    assert_eq!(VaultContract::get_staker_rank(&env, user(9)), None);
    let first = text_precedes(&user(2).to_text(), &user(4).to_text());
    let (two, four) = if first { (2, 3) } else { (3, 2) };
    assert_eq!(VaultContract::get_staker_rank(&env, user(2)), Some(two));
    assert_eq!(VaultContract::get_staker_rank(&env, user(4)), Some(four));
    assert!(VaultContract::ranks_above(5, &b"B".to_vec(), 4, &b"A".to_vec()));
    assert!(!VaultContract::ranks_above(4, &b"A".to_vec(), 5, &b"B".to_vec()));
    assert!(VaultContract::ranks_above(5, &b"A".to_vec(), 5, &b"B".to_vec()));
    assert!(!VaultContract::ranks_above(5, &b"B".to_vec(), 5, &b"A".to_vec()));
    assert!(!VaultContract::ranks_above(5, &b"A".to_vec(), 5, &b"A".to_vec()));
}

#[test]
fn stakers_are_counted_by_rate() {
    let env = staked(pool(100), user(2), 50);
    let env = VaultContract::set_reward_rate_bps(admin(at(env, 1_010)), 200).unwrap();
    let env = staked(env, user(3), 50);
    let env = staked(at(env, 1_020), user(4), 50);
    assert_eq!(VaultContract::staker_count_at_rate(&env), 2);
}

#[test]
fn figures_about_a_user() {
    let env = staked(pool(1_000), user(2), 1_000_000);
    let env = staked(env, user(3), 3_000_000);
    let env = at(env, 1000 + 6_307_200);
    assert_eq!(
        VaultContract::user_stats(&env, user(2)),
        Ok(UserStats {
            position_amount: 1_000_000,
            pending_reward: 100_000,
            staked_at_ledger: 1000,
            last_claim_ledger: 1000,
        })
    );
    assert_eq!(
        VaultContract::user_stats(&env, user(4)),
        Ok(UserStats {
            position_amount: 0,
            pending_reward: 0,
            staked_at_ledger: 0,
            last_claim_ledger: 0,
        })
    );
    let summary = VaultContract::user_summary(&env, user(2)).unwrap();
    assert_eq!(summary.position.len(), 1);
    assert_eq!(summary.pending_reward, 100_000);
    assert_eq!(summary.pool_share_bps, 2_500);
    assert!(VaultContract::user_summary(&env, user(4)).unwrap().position.is_empty());
    assert_eq!(VaultContract::percentage_of_pool(&env, user(3)), 7_500);
    assert_eq!(VaultContract::percentage_of_pool(&env, user(4)), 0);
    assert_eq!(
        VaultContract::staking_efficiency_score(&env, user(2)),
        StakingEfficiencyScore {
            total_claimed: 0,
            estimated_if_compounded: 100_000,
            efficiency_bps: 0,
        }
    );
    let mut claimed = env;
    let mut account = claimed.account(user(2));
    account.total_claimed = 300_000;
    claimed.set_account(user(2), account);
    assert_eq!(
        VaultContract::staking_efficiency_score(&claimed, user(2)),
        StakingEfficiencyScore {
            total_claimed: 300_000,
            estimated_if_compounded: 400_000,
            efficiency_bps: 7_500,
        }
    );
}

#[test]
fn figures_about_the_pool() {
    let env = staked(pool(1_000), user(2), 1_000);
    assert_eq!(
        VaultContract::pool_stats(&env, 1_234),
        Ok(PoolStats {
            total_staked: 1_000,
            total_stakers: 1,
            reward_rate_bps: 1_000,
            reward_token_balance: 1_234,
            paused: false,
            total_rewards_paid: 0,
        })
    );
    assert_eq!(VaultContract::contract_balance(&env, 5), Ok(5));
    assert_eq!(VaultContract::reward_token_balance(&env, 5), Ok(5));
    let fresh = Env::new(contract(1), 0);
    assert_eq!(VaultContract::contract_balance(&fresh, 5), Err(VaultError::NotInitialized));
    assert_eq!(VaultContract::pool_stats(&fresh, 5), Err(VaultError::NotInitialized));
    assert_eq!(VaultContract::pool_uptime_ledgers(&fresh), 0);
}

#[test]
fn other_contracts_can_ask() {
    let env = staked(pool(1_000), user(2), 1_000_000);
    let env = VaultContract::add_yield(admin(env), user(1), 500_000).unwrap();
    let env = at(env, 1000 + 6_307_200);
    assert_eq!(
        ExampleConsumer::get_pool_info::<VaultContract>(&env, user(2)),
        (1_500_000, 100_000)
    );
    assert_eq!(<VaultContract as IStakingPool>::total_staked(&env), 1_500_000);
    assert!(!<VaultContract as IStakingPool>::is_paused(&env));
    assert_eq!(ExampleConsumer::get_pool_info::<VaultContract>(&env, user(3)), (0, 0));
}

#[test]
fn transfer_moves_a_position() {
    let env = staked(pool(1_000), user(2), 1_000_000);
    let env = at(env, 1000 + 6_307_200);
    assert_eq!(
        VaultContract::transfer_position(signed(env.clone(), user(3)), user(2), user(3)).err(),
        Some(VaultError::Unauthorized)
    );
    assert_eq!(
        VaultContract::transfer_position(signed(env.clone(), user(3)), user(3), user(4)).err(),
        Some(VaultError::PositionNotFound)
    );
    assert_eq!(
        VaultContract::transfer_position(signed(env.clone(), user(2)), user(2), user(2)).err(),
        Some(VaultError::RecipientAlreadyStaking)
    );
    let next = VaultContract::transfer_position(signed(env, user(2)), user(2), user(3)).unwrap();
    assert_eq!(next.account(user(2)).shares, 0);
    assert_eq!(next.account(user(2)).accrued, 100_000);
    assert_eq!(next.account(user(3)).shares, 1_000_000);
    assert_eq!(next.account(user(3)).staked_at, Some(1000));
    assert_eq!(next.account(user(3)).accrued, 0);
    assert_eq!(next.account(user(3)).last_claim, 1000 + 6_307_200);
    assert_eq!(VaultContract::vault_state(&next), Ok((1_000_000, 1_000_000)));
    assert!(matches!(
        next.effects.last(),
        Some(Effect::Publish(Event::PositionTransferred { amount: 1_000_000, .. }))
    ));
}

#[test]
fn transfer_with_rewards_moves_all() {
    let env = staked(pool(1_000), user(2), 1_000_000);
    let env = at(env, 1000 + 6_307_200);
    let next =
        VaultContract::transfer_position_with_rewards(signed(env, user(2)), user(2), user(3)).unwrap();
    assert_eq!(next.account(user(2)).accrued, 0);
    assert_eq!(next.account(user(3)).checkpoint, Some(1000));
    assert_eq!(next.account(user(3)).last_claim, 1000);
    assert_eq!(VaultContract::calc_pending_reward(&next, user(3)), Ok(100_000));
    assert!(matches!(
        next.effects.last(),
        Some(Effect::Publish(Event::PositionTransferredWithRewards {
            amount: 1_000_000,
            pending_reward_estimate: 100_000,
            ..
        }))
    ));
}

#[test]
fn transfer_with_rewards_moves_the_dust() {
    let env = staked(pool(100), user(2), 100);
    let env = staked(at(env, 1_300), user(2), 1);
    assert_eq!(env.account(user(2)).remainder, 3_000_000);
    let next =
        VaultContract::transfer_position_with_rewards(signed(env, user(2)), user(2), user(3)).unwrap();
    assert_eq!(next.account(user(2)).remainder, 0);
    assert_eq!(next.account(user(3)).remainder, 3_000_000);
}

#[test]
fn transfers_keep_the_list_of_stakers() {
    let env = staked(pool(0), user(2), 200);
    let env = staked(env, user(3), 100);
    let env = VaultContract::transfer_position(signed(env, user(2)), user(2), user(4)).unwrap();
    assert_eq!(env.stakers, vec![user(4), user(3)]);
    assert_eq!(VaultContract::get_staker_rank(&env, user(3)), Some(2));
    assert_eq!(VaultContract::get_staker_rank(&env, user(4)), Some(1));
    assert_eq!(VaultContract::get_staker_rank(&env, user(2)), None);
    let env = staked(env, user(2), 300);
    assert_eq!(env.stakers, vec![user(4), user(3), user(2)]);
    assert_eq!(VaultContract::get_staker_rank(&env, user(2)), Some(1));
    assert_eq!(VaultContract::get_staker_rank(&env, user(4)), Some(2));
    assert_eq!(VaultContract::get_staker_rank(&env, user(3)), Some(3));
    let listed: Vec<Address> = VaultContract::view_all_positions(&admin(env), 0, 20)
        .unwrap()
        .iter()
        .map(|p| p.0)
        .collect();
    assert_eq!(listed, vec![user(4), user(3), user(2)]);
}

#[test]
fn stake_that_mints_no_share_is_listed_once() {
    let env = staked(pool(0), user(2), 1);
    let env = VaultContract::add_yield(admin(env), user(1), 99).unwrap();
    let env = staked(env, user(3), 10);
    assert_eq!(VaultContract::shares_of(&env, user(3)), 0);
    assert_eq!(env.stakers, vec![user(2), user(3)]);
    assert_eq!(env.pool.total_stakers, 2);
    assert_eq!(VaultContract::get_staker_rank(&env, user(3)), None);
    let env = staked(env, user(4), 1_000);
    let page = |env: &Env, n: u32| -> Vec<Address> {
        VaultContract::view_all_positions(&admin(env.clone()), n, 1)
            .unwrap()
            .iter()
            .map(|p| p.0)
            .collect()
    };
    assert_eq!(page(&env, 0), vec![user(2)]);
    assert_eq!(page(&env, 1), vec![]);
    assert_eq!(page(&env, 2), vec![user(4)]);
    let env = staked(env, user(3), 10_000);
    assert!(VaultContract::shares_of(&env, user(3)) > VaultContract::shares_of(&env, user(4)));
    assert_eq!(env.stakers, vec![user(2), user(3), user(4)]);
    assert_eq!(VaultContract::get_staker_rank(&env, user(3)), Some(1));
    assert_eq!(VaultContract::get_staker_rank(&env, user(4)), Some(2));
    assert_eq!(VaultContract::get_staker_rank(&env, user(2)), Some(3));
}

#[test]
fn merge_starts_the_lock_up_anew() {
    let env = staked(pool(0), user(2), 10);
    let env = VaultContract::merge_positions(signed(at(env, 1_500), user(2)), user(2)).unwrap();
    assert_eq!(env.account(user(2)).staked_at, Some(1_500));
    assert!(matches!(
        env.effects.last(),
        Some(Effect::Publish(Event::PositionsMerged { count_merged: 1, total_amount: 10, .. }))
    ));
    assert_eq!(
        VaultContract::merge_positions(signed(env, user(3)), user(3)).err(),
        Some(VaultError::PositionNotFound)
    );
}

#[test]
fn slash_takes_stake_and_rewards() {
    let env = staked(pool(1_000), user(2), 1_000_000);
    let env = VaultContract::set_slash_treasury(admin(env), user(9)).unwrap();
    let env = at(env, 1000 + 6_307_200);
    let slash = |env: &Env, who: Address, victim: Address, amount: i128| {
        VaultContract::slash(admin(env.clone()), who, victim, amount)
    };
    assert_eq!(slash(&env, user(2), user(2), 5).err(), Some(VaultError::Unauthorized));
    assert_eq!(slash(&env, user(1), user(2), 0).err(), Some(VaultError::ZeroAmount));
    assert_eq!(slash(&env, user(1), user(3), 5).err(), Some(VaultError::PositionNotFound));
    let (next, taken) = slash(&env, user(1), user(2), 400_000).unwrap();
    assert_eq!(taken, 400_000);
    assert_eq!(VaultContract::vault_state(&next), Ok((600_000, 600_000)));
    assert_eq!(VaultContract::calc_pending_reward(&next, user(2)), Ok(0));
    assert!(next.effects.iter().any(|e| matches!(
        e,
        Effect::Transfer { to, amount: 400_000, .. } if *to == user(9)
    )));
    let (next, taken) = slash(&next, user(1), user(2), 9_000_000).unwrap();
    assert_eq!(taken, 600_000);
    assert!(!VaultContract::has_position(&next, user(2)));
}

#[test]
fn frozen_flag_is_for_information() {
    let env = staked(pool(0), user(2), 10);
    assert_eq!(
        VaultContract::flag_frozen(admin(env.clone()), user(1), user(3)).err(),
        Some(VaultError::PositionNotFound)
    );
    let env = VaultContract::flag_frozen(admin(env), user(1), user(2)).unwrap();
    assert!(VaultContract::is_frozen(&env, user(2)));
    let env = staked(env, user(2), 5);
    assert!(VaultContract::unstake(signed(env.clone(), user(2)), user(2), 15).is_ok());
    let env = VaultContract::unfreeze(admin(env), user(1), user(2)).unwrap();
    assert!(!VaultContract::is_frozen(&env, user(2)));
}

#[test]
fn streaks_grow_and_lapse() {
    let env = staked(pool(0), user(2), 10);
    let env = staked(env, user(3), 10);
    let wave = |env: Env, id: u32, users: Vec<Address>| {
        VaultContract::record_wave_activity(admin(env), user(1), id, users)
    };
    let env = wave(env, 1, vec![user(2), user(3)]).unwrap();
    let env = wave(env, 2, vec![user(2)]).unwrap();
    assert_eq!(
        VaultContract::get_streak(&env, user(2)),
        StakeStreak { current_streak: 2, longest_streak: 2, last_active_wave: 2 }
    );
    assert_eq!(
        VaultContract::get_streak(&env, user(3)),
        StakeStreak { current_streak: 0, longest_streak: 1, last_active_wave: 1 }
    );
    let env = wave(env, 5, vec![user(2), user(3)]).unwrap();
    assert_eq!(VaultContract::get_streak(&env, user(2)).current_streak, 3);
    assert_eq!(VaultContract::get_streak(&env, user(3)).current_streak, 1);
    assert_eq!(VaultContract::get_streak(&env, user(4)).longest_streak, 0);
    assert_eq!(wave(env.clone(), 5, vec![]).err(), Some(VaultError::NonMonotonicWaveId));
    assert_eq!(
        wave(env.clone(), 6, vec![user(2); 51]).err(),
        Some(VaultError::TooManyActiveUsers)
    );
    let env = wave(env, 6, vec![user(2), user(2), user(5)]).unwrap();
    assert_eq!(
        VaultContract::get_streak(&env, user(2)),
        StakeStreak { current_streak: 4, longest_streak: 4, last_active_wave: 6 }
    );
    assert_eq!(VaultContract::get_streak(&env, user(5)).current_streak, 1);
    let env = wave(env, 7, vec![user(2)]).unwrap();
    assert_eq!(
        VaultContract::get_streak(&env, user(5)),
        StakeStreak { current_streak: 0, longest_streak: 1, last_active_wave: 6 }
    );
}
