use andromeda::common::{AssetInfo, ContractError};
use andromeda::math::Decimal;
use andromeda::staking::allocated::{
    AllocationConfig, AllocationInfo, AllocationState,
    calculate_cycle_rewards, compute_allocated_reward, calculate_cycles_elapsed, calculate_init_timestamp_for_cycle, rewards_distributed_for_cycle,
};
use andromeda::staking::contract::{asset_key_string, execute_stake_tokens, execute_unstake_tokens, instantiate, ContractRewardInfo};

const MOCK_STAKING_TOKEN: &str = "staking_token";

fn fresh() -> ContractRewardInfo {
    ContractRewardInfo { index: Decimal { atomics: 0 }, previous_reward_balance: 0 }
}

#[test]
fn staking_test_instantiate() {
    let state = instantiate(
        &MOCK_STAKING_TOKEN.to_string(),
        Some(vec![
            AssetInfo::NativeToken { denom: "uusd".to_string() },
            AssetInfo::Token { contract_addr: "incentive_token".to_string() },
        ]),
    )
    .unwrap();
    assert_eq!(state.total_share, 0);
    assert_eq!(state.additional_reward_info.get(&"native:uusd".to_string()), Some(fresh()));
    assert_eq!(state.additional_reward_info.get(&"cw20:incentive_token".to_string()), Some(fresh()));
    assert_eq!(state.additional_reward_info.entries.len(), 2);
}

#[test]
fn test_stake_tokens() {
    let mut state = instantiate(&MOCK_STAKING_TOKEN.to_string(), None).unwrap();
    assert_eq!(state.total_share, 0);
    assert!(state.additional_reward_info.entries.is_empty());
    let token = MOCK_STAKING_TOKEN.to_string();
    let (staker, a) = execute_stake_tokens(&"sender".to_string(), &mut state, None, &token, &token, 100, 100).unwrap();
    assert_eq!(staker.share, 100);
    let pairs: Vec<(String, String)> = a.into_iter().map(|x| (x.key, x.value)).collect();
    assert_eq!(
        pairs,
        vec![
            ("action".to_string(), "stake_tokens".to_string()),
            ("sender".to_string(), "sender".to_string()),
            ("share".to_string(), "100".to_string()),
            ("amount".to_string(), "100".to_string()),
        ]
    );
    assert_eq!(state.total_share, 100);
}

#[test]
fn stake_of_another_token_is_refused() {
    let mut state = instantiate(&MOCK_STAKING_TOKEN.to_string(), None).unwrap();
    let res = execute_stake_tokens(&"sender".to_string(), &mut state, None, &MOCK_STAKING_TOKEN.to_string(), &"other".to_string(), 100, 100);
    assert_eq!(res.unwrap_err(), ContractError::InvalidFunds { msg: "Deposited cw20 token is not the staking token".to_string() });
}

#[test]
fn shares_follow_the_balance() {
    let mut state = instantiate(&MOCK_STAKING_TOKEN.to_string(), None).unwrap();
    let token = MOCK_STAKING_TOKEN.to_string();
    let (first, _) = execute_stake_tokens(&"sender".to_string(), &mut state, None, &token, &token, 100, 100).unwrap();
    // the pool grew to 200 by rewards; a stake of 100 more gets half the shares
    let (second, a) = execute_stake_tokens(&"sender".to_string(), &mut state, None, &token, &token, 100, 300).unwrap();
    assert_eq!(a[2].value, "50");
    assert_eq!(first.share, 100);
    assert_eq!(second.share, 50);
    assert_eq!(state.total_share, 150);
}

#[test]
fn asset_keys() {
    assert_eq!(asset_key_string(&AssetInfo::NativeToken { denom: "uusd".to_string() }), "native:uusd");
    assert_eq!(asset_key_string(&AssetInfo::Token { contract_addr: "abc".to_string() }), "cw20:abc");
}

#[test]
fn cycles_elapsed_are_capped() {
    assert_eq!(calculate_cycles_elapsed(100, 100, 10, 200), 0);
    // before the start nothing is divided: a zero cycle length gives no cycle
    assert_eq!(calculate_cycles_elapsed(50, 100, 0, 200), 0);
    assert_eq!(calculate_cycles_elapsed(135, 100, 10, 200), 3);
    assert_eq!(calculate_cycles_elapsed(10_000, 100, 10, 200), 10);
    assert_eq!(calculate_init_timestamp_for_cycle(100, 3, 10), 130);
}

#[test]
fn cycle_rewards() {
    let ten_percent = Decimal { atomics: 100_000_000_000_000_000 };
    assert_eq!(calculate_cycle_rewards(1000, ten_percent, false), Some(1100));
    assert_eq!(calculate_cycle_rewards(1000, ten_percent, true), Some(1000));
    let half_per_sec = Decimal { atomics: 500_000_000_000_000_000 };
    assert_eq!(rewards_distributed_for_cycle(half_per_sec, 10, 30), Some(10));
    assert_eq!(rewards_distributed_for_cycle(half_per_sec, 30, 10), Some(0));
}

#[test]
fn staking_token_cannot_be_a_reward() {
    let res = instantiate(
        &MOCK_STAKING_TOKEN.to_string(),
        Some(vec![AssetInfo::Token { contract_addr: MOCK_STAKING_TOKEN.to_string() }]),
    );
    assert_eq!(res.unwrap_err(), ContractError::InvalidAsset { asset: "cw20:staking_token".to_string() });
}

#[test]
fn reward_token_without_schedule_is_refused_by_name() {
    let res = compute_allocated_reward(&"native:uusd".to_string(), 100, None, Decimal { atomics: 0 }, 1000);
    assert_eq!(res.unwrap_err(), ContractError::InvalidAsset { asset: "native:uusd".to_string() });
}

#[test]
fn finished_schedule_leaves_everything_unchanged() {
    let info = AllocationInfo {
        config: AllocationConfig {
            init_timestamp: 100,
            till_timestamp: 200,
            cycle_duration: 0,
            cycle_rewards: 50,
            reward_increase: None,
        },
        state: AllocationState { current_cycle: 3, current_cycle_rewards: 0, last_distributed: 200 },
    };
    let index = Decimal { atomics: 7 };
    let (after, new_index) =
        compute_allocated_reward(&"native:uusd".to_string(), 100, Some(info), index, 1000).unwrap();
    assert_eq!(after, info);
    assert_eq!(new_index, index);
}

#[test]
fn unstaking_more_than_the_stake_is_refused() {
    let mut state = instantiate(&MOCK_STAKING_TOKEN.to_string(), None).unwrap();
    let token = MOCK_STAKING_TOKEN.to_string();
    let sender = "sender".to_string();
    let (staker, _) = execute_stake_tokens(&sender, &mut state, None, &token, &token, 100, 100).unwrap();
    let res = execute_unstake_tokens(&mut state, Some(staker), &sender, &token, Some(200), 100);
    assert_eq!(
        res.unwrap_err(),
        ContractError::InvalidWithdrawal { msg: Some("Desired amount exceeds balance".to_string()) }
    );
}
