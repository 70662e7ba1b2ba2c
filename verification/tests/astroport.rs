use andromeda::astroport::{
    execute_astroport_cw20_msg, execute_astroport_msg, execute_claim_lp_staking_rewards, execute_provide_liquidity,
    get_swap_operations, stake_send, verify_asset_ratio, withdraw_liquidity_amount, withdraw_liquidity_messages,
};
use andromeda::common::{Asset, AssetInfo, Coin, CosmosMsg, ExecAction, SwapOperation};

const MOCK_ASTROPORT_ROUTER_CONTRACT: &str = "astroport_router";
const MOCK_ASTROPORT_PAIR_CONTRACT: &str = "astroport_pair";
const MOCK_LP_TOKEN_CONTRACT: &str = "lp_token";
const MOCK_LP_ASSET1: &str = "lp_asset1";
const MOCK_LP_ASSET2: &str = "lp_asset2";
const CONTRACT: &str = "cosmos2contract";

fn native(denom: &str) -> AssetInfo {
    AssetInfo::NativeToken { denom: denom.to_string() }
}

fn token(addr: &str) -> AssetInfo {
    AssetInfo::Token { contract_addr: addr.to_string() }
}

fn asset(info: AssetInfo, amount: u128) -> Asset {
    Asset { info, amount }
}

fn get_assets(a1: u128, a2: u128) -> Vec<Asset> {
    vec![asset(token("token1"), a1), asset(token("token2"), a2)]
}

fn get_assets_second_native(a1: u128, a2: u128) -> Vec<Asset> {
    vec![asset(token("token1"), a1), asset(native("uusd"), a2)]
}

fn coins(amount: u128, denom: &str) -> Vec<Coin> {
    vec![Coin { denom: denom.to_string(), amount }]
}

fn sender() -> String {
    "sender".to_string()
}

#[test]
fn test_verify_asset_ratio_exact_ratio() {
    let (assets, msgs) = verify_asset_ratio(&get_assets(100, 200), &get_assets(10, 20), &sender()).unwrap();
    assert_eq!(get_assets(10, 20), assets);
    assert!(msgs.is_empty());
}

#[test]
fn test_verify_asset_ratio_too_asset1() {
    let (assets, msgs) = verify_asset_ratio(&get_assets(100, 200), &get_assets(18, 20), &sender()).unwrap();
    assert_eq!(get_assets(10, 20), assets);
    assert!(msgs.is_empty());
}

#[test]
fn test_verify_asset_ratio_order_agnostic() {
    // Here token2 is first and token1 is second in the pool.
    let pooled = vec![asset(token("token2"), 200), asset(token("token1"), 100)];
    let (assets, msgs) = verify_asset_ratio(&pooled, &get_assets(18, 20), &sender()).unwrap();
    assert_eq!(get_assets(10, 20), assets);
    assert!(msgs.is_empty());
}

#[test]
fn test_verify_asset_ratio_too_much_asset2() {
    let (assets, msgs) = verify_asset_ratio(&get_assets(100, 200), &get_assets(10, 40), &sender()).unwrap();
    assert_eq!(get_assets(10, 20), assets);
    assert!(msgs.is_empty());
}

#[test]
fn test_verify_asset_ratio_too_much_both() {
    let (assets, msgs) = verify_asset_ratio(&get_assets(100, 200), &get_assets(18, 21), &sender()).unwrap();
    assert_eq!(get_assets(10, 20), assets);
    assert!(msgs.is_empty());
}

#[test]
fn test_verify_asset_ratio_rounding() {
    let (assets, msgs) = verify_asset_ratio(&get_assets(30, 80), &get_assets(56, 93), &sender()).unwrap();
    assert_eq!(get_assets(34, 90), assets);
    assert!(msgs.is_empty());
}

#[test]
fn test_verify_asset_second_native() {
    let (assets, msgs) =
        verify_asset_ratio(&get_assets_second_native(10, 20), &get_assets_second_native(18, 33), &sender()).unwrap();
    assert_eq!(get_assets_second_native(16, 32), assets);
    assert_eq!(vec![CosmosMsg::BankSend { to_address: "sender".to_string(), amount: coins(1, "uusd") }], msgs);
}

#[test]
fn empty_pool_takes_everything() {
    let (assets, msgs) = verify_asset_ratio(&get_assets(0, 0), &get_assets(18, 33), &sender()).unwrap();
    assert_eq!(get_assets(18, 33), assets);
    assert!(msgs.is_empty());
}

fn router_swap(operations: Vec<SwapOperation>, funds: Vec<Coin>) -> CosmosMsg {
    execute_astroport_msg(
        funds,
        MOCK_ASTROPORT_ROUTER_CONTRACT.to_string(),
        ExecAction::ExecuteSwapOperations { operations, to: sender() },
    )
    .unwrap()
}

#[test]
fn tests_test_native_swap() {
    let operations = get_swap_operations(false, native("uusd"), native("uluna"));
    assert_eq!(
        operations,
        vec![SwapOperation::NativeSwap { offer_denom: "uusd".to_string(), ask_denom: "uluna".to_string() }]
    );
    let msg = router_swap(operations.clone(), coins(100, "uusd"));
    assert_eq!(
        msg,
        CosmosMsg::Execute {
            contract: MOCK_ASTROPORT_ROUTER_CONTRACT.to_string(),
            action: ExecAction::ExecuteSwapOperations { operations, to: sender() },
            funds: coins(100, "uusd"),
        }
    );
}

#[test]
fn tests_test_native_to_token() {
    // the pool of uusd and the token exists
    let operations = get_swap_operations(true, native("uusd"), token("token"));
    assert_eq!(
        operations,
        vec![SwapOperation::AstroSwap { offer_asset_info: native("uusd"), ask_asset_info: token("token") }]
    );
}

#[test]
fn tests_test_native_to_native_to_token() {
    let operations = get_swap_operations(false, native("uluna"), token("token"));
    assert_eq!(
        operations,
        vec![
            SwapOperation::NativeSwap { offer_denom: "uluna".to_string(), ask_denom: "uusd".to_string() },
            SwapOperation::AstroSwap { offer_asset_info: native("uusd"), ask_asset_info: token("token") },
        ]
    );
}

#[test]
fn test_token_to_native() {
    let operations = get_swap_operations(true, token("token_addr"), native("uusd"));
    assert_eq!(
        operations,
        vec![SwapOperation::AstroSwap { offer_asset_info: token("token_addr"), ask_asset_info: native("uusd") }]
    );
    // the 100 received tokens go to the router with the swap as hook
    let msg = execute_astroport_cw20_msg(
        &"token_addr".to_string(),
        100,
        &MOCK_ASTROPORT_ROUTER_CONTRACT.to_string(),
        &"execute_swap_operations".to_string(),
    );
    assert_eq!(
        msg,
        CosmosMsg::Execute {
            contract: "token_addr".to_string(),
            action: ExecAction::Cw20Send {
                contract: MOCK_ASTROPORT_ROUTER_CONTRACT.to_string(),
                amount: 100,
                hook: "execute_swap_operations".to_string(),
            },
            funds: vec![],
        }
    );
}

#[test]
fn test_token_to_native_to_token() {
    let operations = get_swap_operations(false, token("offer_token"), token("ask_token"));
    assert_eq!(
        operations,
        vec![
            SwapOperation::AstroSwap { offer_asset_info: token("offer_token"), ask_asset_info: native("uusd") },
            SwapOperation::AstroSwap { offer_asset_info: native("uusd"), ask_asset_info: token("ask_token") },
        ]
    );
}

fn transfer_from(token: &str, amount: u128) -> CosmosMsg {
    CosmosMsg::Execute {
        contract: token.to_string(),
        action: ExecAction::Cw20TransferFrom { owner: sender(), recipient: CONTRACT.to_string(), amount },
        funds: vec![],
    }
}

fn allowance(token: &str, amount: u128) -> CosmosMsg {
    CosmosMsg::Execute {
        contract: token.to_string(),
        action: ExecAction::Cw20IncreaseAllowance { spender: MOCK_ASTROPORT_PAIR_CONTRACT.to_string(), amount },
        funds: vec![],
    }
}

fn provide(assets: Vec<Asset>, funds: Vec<Coin>) -> CosmosMsg {
    CosmosMsg::Execute {
        contract: MOCK_ASTROPORT_PAIR_CONTRACT.to_string(),
        action: ExecAction::ProvideLiquidity {
            assets,
            slippage_tolerance: None,
            auto_stake: None,
            receiver: CONTRACT.to_string(),
        },
        funds,
    }
}

#[test]
fn test_provide_liquidity_cw20_cw20() {
    // the pool holds the two assets at 1:4
    let pooled = vec![asset(token(MOCK_LP_ASSET1), 10), asset(token(MOCK_LP_ASSET2), 40)];
    let assets = vec![asset(token(MOCK_LP_ASSET1), 100), asset(token(MOCK_LP_ASSET2), 200)];
    let mut ws: Vec<(String, AssetInfo)> = vec![];
    let res = execute_provide_liquidity(
        &mut ws,
        &MOCK_LP_TOKEN_CONTRACT.to_string(),
        true,
        &sender(),
        &CONTRACT.to_string(),
        &MOCK_ASTROPORT_PAIR_CONTRACT.to_string(),
        &pooled,
        &assets,
        None,
        None,
    )
    .unwrap();
    let (msgs, a) = res;
    assert_eq!(a.len(), 1);
    assert_eq!((a[0].key.as_str(), a[0].value.as_str()), ("action", "provide_liquidity"));
    // Only what the ratio allows is pulled in, so no cw20 goes back.
    assert_eq!(
        msgs,
        vec![
            transfer_from(MOCK_LP_ASSET1, 50),
            allowance(MOCK_LP_ASSET1, 50),
            transfer_from(MOCK_LP_ASSET2, 200),
            allowance(MOCK_LP_ASSET2, 200),
            provide(vec![asset(token(MOCK_LP_ASSET1), 50), asset(token(MOCK_LP_ASSET2), 200)], vec![]),
        ]
    );
    // the liquidity token can then be withdrawn
    assert_eq!(ws, vec![(MOCK_LP_TOKEN_CONTRACT.to_string(), token(MOCK_LP_TOKEN_CONTRACT))]);
}

#[test]
fn test_provide_liquidity_native_cw20() {
    let pooled = vec![asset(native("uusd"), 10), asset(token(MOCK_LP_ASSET2), 40)];
    let assets = vec![asset(native("uusd"), 100), asset(token(MOCK_LP_ASSET2), 200)];
    let mut ws: Vec<(String, AssetInfo)> = vec![];
    let res = execute_provide_liquidity(
        &mut ws,
        &MOCK_LP_TOKEN_CONTRACT.to_string(),
        true,
        &sender(),
        &CONTRACT.to_string(),
        &MOCK_ASTROPORT_PAIR_CONTRACT.to_string(),
        &pooled,
        &assets,
        None,
        None,
    )
    .unwrap();
    let (msgs, a) = res;
    assert_eq!(a.len(), 1);
    assert_eq!((a[0].key.as_str(), a[0].value.as_str()), ("action", "provide_liquidity"));
    assert_eq!(
        msgs,
        vec![
            transfer_from(MOCK_LP_ASSET2, 200),
            allowance(MOCK_LP_ASSET2, 200),
            CosmosMsg::BankSend { to_address: "sender".to_string(), amount: coins(50, "uusd") },
            provide(vec![asset(native("uusd"), 50), asset(token(MOCK_LP_ASSET2), 200)], coins(50, "uusd")),
        ]
    );
}

#[test]
fn test_withdraw_liquidity() {
    let amount = withdraw_liquidity_amount(true, None, 10).unwrap();
    assert_eq!(amount, 10);
    // what the pair gives back for 10 liquidity tokens
    let share = vec![asset(token(MOCK_LP_ASSET1), 10), asset(token(MOCK_LP_ASSET2), 20)];
    let (msgs, a) = withdraw_liquidity_messages(
        &MOCK_LP_TOKEN_CONTRACT.to_string(),
        &MOCK_ASTROPORT_PAIR_CONTRACT.to_string(),
        amount,
        &"withdraw_liquidity".to_string(),
        vec![],
        &share,
        &sender(),
    );
    let transfer = |t: &str, amount: u128| CosmosMsg::Execute {
        contract: t.to_string(),
        action: ExecAction::Cw20Transfer { recipient: sender(), amount },
        funds: vec![],
    };
    assert_eq!(
        msgs,
        vec![
            CosmosMsg::Execute {
                contract: MOCK_LP_TOKEN_CONTRACT.to_string(),
                action: ExecAction::Cw20Send {
                    contract: MOCK_ASTROPORT_PAIR_CONTRACT.to_string(),
                    amount: 10,
                    hook: "withdraw_liquidity".to_string(),
                },
                funds: vec![],
            },
            transfer(MOCK_LP_ASSET1, 10),
            transfer(MOCK_LP_ASSET2, 20),
        ]
    );
    assert_eq!(a.len(), 1);
    assert_eq!((a[0].key.as_str(), a[0].value.as_str()), ("action", "withdraw_liquidity"));
    let capped = stake_send(true, &"lp".to_string(), &"pair".to_string(), Some(50), 10, &"h".to_string()).unwrap();
    assert!(matches!(capped, CosmosMsg::Execute { action: ExecAction::Cw20Send { amount: 10, .. }, .. }));
}

#[test]
fn claim_lp_rewards_and_stake_them() {
    let msgs = execute_claim_lp_staking_rewards(
        true,
        &"generator".to_string(),
        &"lp".to_string(),
        Some(true),
        200,
        &"astro".to_string(),
        &"staking".to_string(),
        150,
        &"enter".to_string(),
    )
    .unwrap();
    assert_eq!(
        msgs,
        vec![
            CosmosMsg::Execute {
                contract: "generator".to_string(),
                action: ExecAction::GeneratorWithdraw { lp_token: "lp".to_string(), amount: 0 },
                funds: vec![],
            },
            CosmosMsg::Execute {
                contract: "astro".to_string(),
                action: ExecAction::Cw20Send { contract: "staking".to_string(), amount: 150, hook: "enter".to_string() },
                funds: vec![],
            },
        ]
    );
    let only_withdraw = execute_claim_lp_staking_rewards(
        true,
        &"generator".to_string(),
        &"lp".to_string(),
        None,
        200,
        &"astro".to_string(),
        &"staking".to_string(),
        150,
        &"enter".to_string(),
    )
    .unwrap();
    assert_eq!(only_withdraw.len(), 1);
}

#[test]
fn more_than_one_coin_is_refused_by_the_router_call() {
    let mut funds = coins(1, "uusd");
    funds.extend(coins(1, "uluna"));
    assert!(execute_astroport_msg(funds, "r".to_string(), ExecAction::Call { name: "x".to_string() }).is_err());
}

#[test]
fn unauthorized_provide_is_refused() {
    let pooled = get_assets(1, 1);
    let mut ws: Vec<(String, AssetInfo)> = vec![];
    let res = execute_provide_liquidity(&mut ws, &"lp".to_string(), false, &sender(), &CONTRACT.to_string(), &"p".to_string(), &pooled, &pooled, None, None);
    assert!(res.is_err());
    assert!(ws.is_empty());
}
