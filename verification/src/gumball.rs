//! The gumball machine: the owner refills it with tokens while it is switched
//! off, and while it is on anyone buys a token at its price.
use vstd::prelude::*;
use crate::common::{invalid_funds, is_invalid_funds, attr, attrs_are, coin_string, coin_text, decimal, decimal_string, Attribute, BlockInfo, Coin, ContractError, CosmosMsg, ExecAction, is_nft_transfer};

verus! {

/// The machine's settings.
#[derive(Clone, Debug, PartialEq, Eq)]
pub struct GumballState {
    pub price: Coin,
    pub max_amount_per_wallet: u128,
    pub recipient: String,
    /// On (selling) or off (refilling).
    pub status: bool,
}

/// The only denomination the machine takes.
pub open spec fn gumball_denom() -> Seq<char> {
    "uusd"@
}

/// The attributes of a switch: the price, the most per wallet, the recipient
/// and the status (`true` or `false`).
pub open spec fn switch_attrs(s: GumballState) -> Seq<(Seq<char>, Seq<char>)> {
    seq![
        ("action"@, "switch status"@),
        ("price"@, coin_text(s.price)),
        ("max_amount_per_wallet"@, decimal(s.max_amount_per_wallet as nat)),
        ("recipient"@, s.recipient@),
        ("status"@, if s.status { "true"@ } else { "false"@ }),
    ]
}

/// `execute_switch_state`: the owner sets the price (non-zero, in uusd), the
/// most one wallet may buy (which must be given and non-zero), the recipient
/// and whether the machine sells. Gives the settings and the response's attributes.
pub fn execute_switch_state(
    is_owner: bool,
    price: Coin,
    max_amount_per_wallet: Option<u128>,
    recipient: String,
    status: bool,
) -> (r: Result<(GumballState, Vec<Attribute>), ContractError>)
    ensures
        !is_owner ==> r == Err::<(GumballState, Vec<Attribute>), ContractError>(ContractError::Unauthorized),
        is_owner && price.amount == 0 ==> r == Err::<(GumballState, Vec<Attribute>), ContractError>(ContractError::InvalidZeroAmount),
        is_owner && price.amount > 0 && price.denom@ != gumball_denom() ==> is_invalid_funds(r, "Only uusd is allowed"@),
        is_owner && price.amount > 0 && price.denom@ == gumball_denom() && !(max_amount_per_wallet matches Some(m) && m > 0)
            ==> r == Err::<(GumballState, Vec<Attribute>), ContractError>(ContractError::InvalidZeroAmount),
        is_owner && price.amount > 0 && price.denom@ == gumball_denom() && (max_amount_per_wallet matches Some(m) && m > 0)
            ==> (r matches Ok((st, attrs)) && st == GumballState { price, max_amount_per_wallet: max_amount_per_wallet->0, recipient, status }
                && attrs_are(attrs@, switch_attrs(st))),
{
    if !is_owner {
        return Err(ContractError::Unauthorized);
    }
    if price.amount == 0 {
        return Err(ContractError::InvalidZeroAmount);
    }
    if price.denom != "uusd".to_owned() {
        return Err(invalid_funds("Only uusd is allowed"));
    }
    let max = match max_amount_per_wallet {
        Some(m) => if m > 0 {
            m
        } else {
            return Err(ContractError::InvalidZeroAmount);
        },
        None => return Err(ContractError::InvalidZeroAmount),
    };
    let attrs = vec![
        attr("action", "switch status".to_owned()),
        attr("price", coin_string(&price)),
        attr("max_amount_per_wallet", decimal_string(max)),
        attr("recipient", recipient.clone()),
        attr("status", if status { "true".to_owned() } else { "false".to_owned() }),
    ];
    Ok((GumballState { price, max_amount_per_wallet: max, recipient, status }, attrs))
}

/// Whether `m` mints `token_id` to `owner` on `token_addr`.
pub open spec fn is_mint(m: CosmosMsg, token_addr: Seq<char>, token_id: Seq<char>, owner: Seq<char>) -> bool {
    match m {
        CosmosMsg::Execute { contract, action, funds } => {
            &&& contract@ == token_addr
            &&& funds@.len() == 0
            &&& action matches ExecAction::MintNft { token_id: t, owner: o } && t@ == token_id && o@ == owner
        },
        _ => false,
    }
}

/// `execute_mint`: the owner mints a token while the machine is off. The
/// machine's list of tokens is not changed.
pub fn execute_mint(
    is_owner: bool,
    state: &GumballState,
    token_address: &String,
    token_id: String,
    token_owner: String,
) -> (r: Result<(CosmosMsg, Vec<Attribute>), ContractError>)
    ensures
        !is_owner ==> r == Err::<(CosmosMsg, Vec<Attribute>), ContractError>(ContractError::Unauthorized),
        is_owner && state.status ==> r == Err::<(CosmosMsg, Vec<Attribute>), ContractError>(ContractError::NotInRefillMode),
        is_owner && !state.status ==> (r matches Ok((m, attrs)) && is_mint(m, token_address@, token_id@, token_owner@)
            && attrs_are(attrs@, seq![("action"@, "mint"@)])),
{
    if !is_owner {
        return Err(ContractError::Unauthorized);
    }
    if state.status {
        return Err(ContractError::NotInRefillMode);
    }
    let m = CosmosMsg::Execute {
        contract: token_address.clone(),
        action: ExecAction::MintNft { token_id, owner: token_owner },
        funds: Vec::new(),
    };
    Ok((m, vec![attr("action", "mint".to_owned())]))
}

/// The time (seconds) from which the randomness rounds count.
pub open spec fn genesis_time() -> u64 {
    1595431050
}

/// `execute_buy`: while the machine is on and has tokens, a buyer who sent
/// exactly the price in uusd (and nothing else) gets the first token of the
/// list. The machine's list of tokens is not changed.
pub fn execute_buy(
    list: &Vec<String>,
    funds: &Vec<Coin>,
    state: &GumballState,
    token_address: &String,
    sender: &String,
    block: &BlockInfo,
) -> (r: Result<(CosmosMsg, Vec<Attribute>), ContractError>)
    requires
        funds@.len() > 0,
        state.status && list@.len() > 0 && funds@[0].denom@ == gumball_denom() && funds@.len() == 1
            && funds@[0].amount == state.price.amount ==> block.seconds() >= genesis_time(),
    ensures
        !state.status ==> r == Err::<(CosmosMsg, Vec<Attribute>), ContractError>(ContractError::Refilling),
        state.status && list@.len() == 0 ==> r == Err::<(CosmosMsg, Vec<Attribute>), ContractError>(ContractError::OutOfNFTs),
        state.status && list@.len() > 0 && funds@[0].denom@ != gumball_denom()
            ==> is_invalid_funds(r, "Only uusd is accepted"@),
        state.status && list@.len() > 0 && funds@[0].denom@ == gumball_denom() && funds@.len() != 1
            ==> is_invalid_funds(r, "Only one type of coin is required (uusd)."@),
        state.status && list@.len() > 0 && funds@[0].denom@ == gumball_denom() && funds@.len() == 1 && funds@[0].amount != state.price.amount
            ==> r == Err::<(CosmosMsg, Vec<Attribute>), ContractError>(ContractError::InsufficientFunds),
        state.status && list@.len() > 0 && funds@[0].denom@ == gumball_denom() && funds@.len() == 1 && funds@[0].amount == state.price.amount
            ==> (r matches Ok((m, attrs)) && is_nft_transfer(m, token_address@, list@[0]@, sender@)
                && attrs_are(attrs@, seq![
                    ("action"@, "claim"@),
                    ("token_id"@, list@[0]@),
                    ("token_contract"@, token_address@),
                    ("recipient"@, sender@),
                ])),
{
    let sent = &funds[0];
    if !state.status {
        return Err(ContractError::Refilling);
    }
    if list.len() == 0 {
        return Err(ContractError::OutOfNFTs);
    }
    if sent.denom != "uusd".to_owned() {
        return Err(invalid_funds("Only uusd is accepted"));
    }
    if funds.len() != 1 {
        return Err(invalid_funds("Only one type of coin is required (uusd)."));
    }
    if sent.amount != state.price.amount {
        return Err(ContractError::InsufficientFunds);
    }
    let random_number: usize = 0;
    let m = CosmosMsg::Execute {
        contract: token_address.clone(),
        action: ExecAction::TransferNft { recipient: sender.clone(), token_id: list[random_number].clone() },
        funds: Vec::new(),
    };
    let attrs = vec![
        attr("action", "claim".to_owned()),
        attr("token_id", list[random_number].clone()),
        attr("token_contract", token_address.clone()),
        attr("recipient", sender.clone()),
    ];
    Ok((m, attrs))
}

} // verus!
