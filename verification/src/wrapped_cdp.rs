//! The wrapped Astroport contract: its swap routing and its configuration of
//! the Astroport contracts it forwards to.
use vstd::prelude::*;
use crate::common::{AssetInfo, ContractError, SwapOperation};
use crate::astroport::{info_view, route_denom};

verus! {

/// The Astroport contracts messages are forwarded to.
#[derive(Clone, Debug, PartialEq, Eq)]
pub struct CdpConfig {
    pub astroport_factory_contract: String,
    pub astroport_router_contract: String,
    pub astroport_staking_contract: String,
    pub astroport_vesting_contract: String,
    pub astroport_maker_contract: String,
}

/// `get_swap_operations`: through their pair when there is one, a native swap
/// when both are native, and otherwise two steps through uusd (a native swap
/// first when the offered asset is native), as the Astroport contract routes.
pub fn get_swap_operations(pair_exists: bool, offer: AssetInfo, ask: AssetInfo) -> (r: Vec<SwapOperation>)
    ensures
        pair_exists ==> r@ == seq![SwapOperation::AstroSwap { offer_asset_info: offer, ask_asset_info: ask }],
        !pair_exists && offer is NativeToken && ask is NativeToken ==> {
            &&& r@.len() == 1
            &&& (r@[0] matches SwapOperation::NativeSwap { offer_denom, ask_denom } && offer_denom@ == info_view(offer).1 && ask_denom@ == info_view(ask).1)
        },
        !pair_exists && !(offer is NativeToken && ask is NativeToken) ==> {
            &&& r@.len() == 2
            &&& match offer {
                AssetInfo::NativeToken { denom } => r@[0] matches SwapOperation::NativeSwap { offer_denom, ask_denom } && offer_denom@ == denom@ && ask_denom@ == route_denom(),
                AssetInfo::Token { .. } => r@[0] matches SwapOperation::AstroSwap { offer_asset_info, ask_asset_info } && offer_asset_info == offer
                    && info_view(ask_asset_info) == (true, route_denom()),
            }
            &&& (r@[1] matches SwapOperation::AstroSwap { offer_asset_info, ask_asset_info } && info_view(offer_asset_info) == (true, route_denom())
                    && ask_asset_info == ask)
        },
{
    crate::astroport::get_swap_operations(pair_exists, offer, ask)
}

/// `execute_update_config`: the owner replaces the contracts it names. A new
/// maker contract is recorded in the vesting contract's place.
pub fn execute_update_config(
    is_owner: bool,
    config: CdpConfig,
    factory: Option<String>,
    router: Option<String>,
    staking: Option<String>,
    vesting: Option<String>,
    maker: Option<String>,
) -> (r: Result<CdpConfig, ContractError>)
    ensures
        !is_owner ==> r == Err::<CdpConfig, ContractError>(ContractError::Unauthorized),
        is_owner ==> r == Ok::<CdpConfig, ContractError>(CdpConfig {
            astroport_factory_contract: match factory { Some(a) => a, None => config.astroport_factory_contract },
            astroport_router_contract: match router { Some(a) => a, None => config.astroport_router_contract },
            astroport_staking_contract: match staking { Some(a) => a, None => config.astroport_staking_contract },
            astroport_vesting_contract: match maker {
                Some(a) => a,
                None => match vesting { Some(a) => a, None => config.astroport_vesting_contract },
            },
            astroport_maker_contract: config.astroport_maker_contract,
        }),
{
    if !is_owner {
        return Err(ContractError::Unauthorized);
    }
    let mut config = config;
    if let Some(a) = factory {
        config.astroport_factory_contract = a;
    }
    if let Some(a) = router {
        config.astroport_router_contract = a;
    }
    if let Some(a) = staking {
        config.astroport_staking_contract = a;
    }
    if let Some(a) = vesting {
        config.astroport_vesting_contract = a;
    }
    if let Some(a) = maker {
        config.astroport_vesting_contract = a;
    }
    Ok(config)
}

} // verus!
