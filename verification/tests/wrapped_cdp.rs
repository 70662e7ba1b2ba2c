use andromeda::common::{AssetInfo, ContractError, SwapOperation};
use andromeda::wrapped_cdp::{execute_update_config, get_swap_operations, CdpConfig};

fn native(denom: &str) -> AssetInfo {
    AssetInfo::NativeToken { denom: denom.to_string() }
}

#[test]
fn cdp_test_native_swap() {
    let operations = get_swap_operations(false, native("uusd"), native("uluna"));
    assert_eq!(
        operations,
        vec![SwapOperation::NativeSwap { offer_denom: "uusd".to_string(), ask_denom: "uluna".to_string() }]
    );
}

#[test]
fn cdp_test_native_to_token() {
    let token = AssetInfo::Token { contract_addr: "token".to_string() };
    let operations = get_swap_operations(true, native("uusd"), token.clone());
    assert_eq!(operations, vec![SwapOperation::AstroSwap { offer_asset_info: native("uusd"), ask_asset_info: token }]);
}

#[test]
fn cdp_test_native_to_native_to_token() {
    let token = AssetInfo::Token { contract_addr: "token".to_string() };
    let operations = get_swap_operations(false, native("uluna"), token.clone());
    assert_eq!(
        operations,
        vec![
            SwapOperation::NativeSwap { offer_denom: "uluna".to_string(), ask_denom: "uusd".to_string() },
            SwapOperation::AstroSwap { offer_asset_info: native("uusd"), ask_asset_info: token },
        ]
    );
}

fn config() -> CdpConfig {
    CdpConfig {
        astroport_factory_contract: "factory".to_string(),
        astroport_router_contract: "router".to_string(),
        astroport_staking_contract: "staking".to_string(),
        astroport_vesting_contract: "vesting".to_string(),
        astroport_maker_contract: "maker".to_string(),
    }
}

#[test]
fn update_config_only_by_owner() {
    let res = execute_update_config(false, config(), None, None, None, None, None);
    assert_eq!(res.unwrap_err(), ContractError::Unauthorized);
    let updated = execute_update_config(true, config(), Some("f2".to_string()), None, None, None, None).unwrap();
    assert_eq!(updated, CdpConfig { astroport_factory_contract: "f2".to_string(), ..config() });
}
