//! Liquidity provision and swaps through Astroport: the deposited pair of
//! assets is trimmed to the pool's ratio (the excess of a native asset going
//! back), swaps are routed through a direct pair or through uusd, and LP and
//! ASTRO tokens are staked and unstaked.
use vstd::prelude::*;
use crate::common::{attr, attrs_are, Attribute, invalid_funds, is_invalid_funds, Asset, AssetInfo, Coin, ContractError, CosmosMsg, ExecAction, SwapOperation, is_bank_send_one};
use crate::math::{Decimal, checked_ratio, multiply_ratio};
use crate::ado::{add_withdrawable_token, names_ascending, pays_asset, withdrawable_added};

verus! {

pub open spec fn min_u128(a: u128, b: u128) -> u128 {
    if a < b { a } else { b }
}

/// `modify_ratio`: each amount cut down to what the other allows at the
/// pool's ratio `pooled[0] : pooled[1]` (floored); `None` for an empty side
/// of the pool or an overflow.
pub open spec fn spec_modify_ratio(pooled: (u128, u128), amounts: (u128, u128)) -> Option<(u128, u128)> {
    match (checked_ratio(amounts.0 as int, pooled.1 as int, pooled.0 as int), checked_ratio(amounts.1 as int, pooled.0 as int, pooled.1 as int)) {
        (Some(required_second), Some(required_first)) => Some((min_u128(amounts.0, required_first), min_u128(amounts.1, required_second))),
        _ => None,
    }
}

/// Why `modify_ratio` fails against `pooled`: an empty side of the pool, or
/// else an amount whose counterpart leaves the `u128` range.
pub open spec fn ratio_error(pooled: (u128, u128)) -> ContractError {
    if pooled.0 == 0 || pooled.1 == 0 { ContractError::DivideByZero } else { ContractError::Overflow }
}

/// `modify_ratio`: each amount cut down to what the other allows at the
/// pool's ratio.
pub fn modify_ratio(pooled: (u128, u128), amounts: (u128, u128)) -> (r: Result<(u128, u128), ContractError>)
    ensures
        match spec_modify_ratio(pooled, amounts) {
            None => r == Err::<(u128, u128), ContractError>(ratio_error(pooled)),
            Some(x) => r == Ok::<(u128, u128), ContractError>(x),
        },
        pooled.0 == 0 || pooled.1 == 0 ==> r == Err::<(u128, u128), ContractError>(ContractError::DivideByZero),
{
    if pooled.0 == 0 || pooled.1 == 0 {
        return Err(ContractError::DivideByZero);
    }
    let required_second = match multiply_ratio(amounts.0, pooled.1, pooled.0) {
        Some(x) => x,
        None => return Err(ContractError::Overflow),
    };
    let required_first = match multiply_ratio(amounts.1, pooled.0, pooled.1) {
        Some(x) => x,
        None => return Err(ContractError::Overflow),
    };
    Ok((
        if amounts.0 < required_first { amounts.0 } else { required_first },
        if amounts.1 < required_second { amounts.1 } else { required_second },
    ))
}

/// An asset kind as plain values: whether it is native, and its denomination or address.
pub open spec fn info_view(a: AssetInfo) -> (bool, Seq<char>) {
    match a {
        AssetInfo::NativeToken { denom } => (true, denom@),
        AssetInfo::Token { contract_addr } => (false, contract_addr@),
    }
}

/// The pooled amount of `info`: the first pooled asset of that kind.
pub open spec fn pooled_amount(pooled: Seq<Asset>, info: AssetInfo) -> Option<u128> {
    if pooled.len() > 0 && info_view(pooled[0].info) == info_view(info) {
        Some(pooled[0].amount)
    } else if pooled.len() > 1 && info_view(pooled[1].info) == info_view(info) {
        Some(pooled[1].amount)
    } else {
        None
    }
}

fn asset_info_eq(a: &AssetInfo, b: &AssetInfo) -> (r: bool)
    ensures
        r == (info_view(*a) == info_view(*b)),
{
    match (a, b) {
        (AssetInfo::NativeToken { denom: x }, AssetInfo::NativeToken { denom: y }) => *x == *y,
        (AssetInfo::Token { contract_addr: x }, AssetInfo::Token { contract_addr: y }) => *x == *y,
        _ => false,
    }
}

/// What `verify_asset_ratio` keeps of `sent` against `pooled`: unchanged when
/// the pool is empty, else trimmed twice by `modify_ratio`.
pub open spec fn spec_trimmed(pooled: Seq<Asset>, sent: Seq<Asset>) -> Option<(u128, u128)> {
    if pooled[0].amount == 0 && pooled[1].amount == 0 {
        Some((sent[0].amount, sent[1].amount))
    } else {
        let p = (pooled_amount(pooled, sent[0].info)->0, pooled_amount(pooled, sent[1].info)->0);
        match spec_modify_ratio(p, (sent[0].amount, sent[1].amount)) {
            None => None,
            Some(once) => spec_modify_ratio(p, once),
        }
    }
}

/// `verify_asset_ratio`: trims the two `sent` assets to the ratio of the
/// `pooled` ones (matched by kind, in whatever order the pool lists them) so
/// that the pool takes them without loss; the excess of a native asset goes
/// back to `recipient`, that of a cw20 is simply not pulled in. Gives the
/// trimmed assets and the refunds.
pub fn verify_asset_ratio(pooled: &Vec<Asset>, sent: &Vec<Asset>, recipient: &String) -> (r: Result<(Vec<Asset>, Vec<CosmosMsg>), ContractError>)
    requires
        pooled@.len() == 2,
        sent@.len() == 2,
        !(pooled@[0].amount == 0 && pooled@[1].amount == 0) ==> pooled_amount(pooled@, sent@[0].info) is Some
            && pooled_amount(pooled@, sent@[1].info) is Some,
    ensures
        match spec_trimmed(pooled@, sent@) {
            None => r == Err::<(Vec<Asset>, Vec<CosmosMsg>), ContractError>(ratio_error(
                (pooled_amount(pooled@, sent@[0].info)->0, pooled_amount(pooled@, sent@[1].info)->0))),
            Some(t) => r matches Ok((assets, msgs)) && {
                &&& assets@.len() == 2
                &&& assets@[0] == Asset { info: sent@[0].info, amount: t.0 }
                &&& assets@[1] == Asset { info: sent@[1].info, amount: t.1 }
                &&& t.0 <= sent@[0].amount && t.1 <= sent@[1].amount
                &&& msgs@.len() == refund_count(sent@, t)
                &&& forall|k: int| 0 <= k < msgs@.len() ==> is_refund(#[trigger] msgs@[k], sent@, t, recipient@, k)
            },
        },
{
    if pooled[0].amount == 0 && pooled[1].amount == 0 {
        return Ok((vec![sent[0].copy(), sent[1].copy()], Vec::new()));
    }
    let p0 = if asset_info_eq(&pooled[0].info, &sent[0].info) { pooled[0].amount } else { pooled[1].amount };
    let p1 = if asset_info_eq(&pooled[0].info, &sent[1].info) { pooled[0].amount } else { pooled[1].amount };
    let once = match modify_ratio((p0, p1), (sent[0].amount, sent[1].amount)) {
        Ok(x) => x,
        Err(e) => return Err(e),
    };
    let twice = match modify_ratio((p0, p1), once) {
        Ok(x) => x,
        Err(e) => return Err(e),
    };
    let mut msgs: Vec<CosmosMsg> = Vec::new();
    let d0 = sent[0].amount - twice.0;
    if d0 > 0 {
        if let AssetInfo::NativeToken { denom } = &sent[0].info {
            msgs.push(CosmosMsg::BankSend { to_address: recipient.clone(), amount: vec![Coin { denom: denom.clone(), amount: d0 }] });
        }
    }
    let d1 = sent[1].amount - twice.1;
    if d1 > 0 {
        if let AssetInfo::NativeToken { denom } = &sent[1].info {
            msgs.push(CosmosMsg::BankSend { to_address: recipient.clone(), amount: vec![Coin { denom: denom.clone(), amount: d1 }] });
        }
    }
    let assets = vec![
        Asset { info: sent[0].info.copy(), amount: twice.0 },
        Asset { info: sent[1].info.copy(), amount: twice.1 },
    ];
    Ok((assets, msgs))
}

/// Whether the `i`-th sent asset is native and was trimmed (so its excess is refunded).
pub open spec fn refunds(sent: Seq<Asset>, t: (u128, u128), i: int) -> bool {
    &&& sent[i].info is NativeToken
    &&& sent[i].amount > (if i == 0 { t.0 } else { t.1 })
}

/// How many refunds `verify_asset_ratio` sends.
pub open spec fn refund_count(sent: Seq<Asset>, t: (u128, u128)) -> int {
    (if refunds(sent, t, 0) { 1int } else { 0int }) + (if refunds(sent, t, 1) { 1int } else { 0int })
}

/// Whether the `k`-th refund message sends back the excess it should.
pub open spec fn is_refund(m: CosmosMsg, sent: Seq<Asset>, t: (u128, u128), to: Seq<char>, k: int) -> bool {
    let i = if k == 0 && refunds(sent, t, 0) { 0int } else { 1int };
    let kept = if i == 0 { t.0 } else { t.1 };
    match sent[i].info {
        AssetInfo::NativeToken { denom } => is_bank_send_one(m, to, denom@, (sent[i].amount - kept) as u128),
        _ => false,
    }
}

/// Whether `coins` are the native assets of `assets` as coins, in order: the
/// `i`-th asset, if native, is the coin after the natives before it.
pub open spec fn are_native_coins(coins: Seq<Coin>, assets: Seq<Asset>) -> bool {
    &&& coins.len() == native_count(assets, assets.len() as int)
    &&& forall|i: int| 0 <= i < assets.len() ==> match (#[trigger] assets[i]).info {
        AssetInfo::NativeToken { denom } => coins[native_count(assets, i)].denom@ == denom@ && coins[native_count(assets, i)].amount == assets[i].amount,
        _ => true,
    }
}

/// `get_native_funds_from_assets`: the native assets as coins, in order.
pub fn native_funds(assets: &Vec<Asset>) -> (r: Vec<Coin>)
    ensures
        are_native_coins(r@, assets@),
{
    let mut out: Vec<Coin> = Vec::new();
    let mut i: usize = 0;
    while i < assets.len()
        invariant
            i <= assets@.len(),
            out@.len() == native_count(assets@, i as int),
            forall|j: int| 0 <= j < i ==> match (#[trigger] assets@[j]).info {
                AssetInfo::NativeToken { denom } => out@[native_count(assets@, j)].denom@ == denom@ && out@[native_count(assets@, j)].amount == assets@[j].amount,
                _ => true,
            },
        decreases assets.len() - i,
    {
        let ghost o0 = out@;
        if let AssetInfo::NativeToken { denom } = &assets[i].info {
            out.push(Coin { denom: denom.clone(), amount: assets[i].amount });
        }
        proof {
            assert forall|j: int| 0 <= j < i + 1 implies match (#[trigger] assets@[j]).info {
                AssetInfo::NativeToken { denom } => out@[native_count(assets@, j)].denom@ == denom@ && out@[native_count(assets@, j)].amount == assets@[j].amount,
                _ => true,
            } by {
                if j < i && assets@[j].info is NativeToken {
                    lemma_native_count_mono(assets@, j + 1, i as int);
                    lemma_native_count_mono(assets@, 0, j);
                    assert(native_count(assets@, j + 1) == native_count(assets@, j) + 1);
                    assert(out@[native_count(assets@, j)] == o0[native_count(assets@, j)]);
                }
            }
        }
        i = i + 1;
    }
    out
}

proof fn lemma_native_count_mono(assets: Seq<Asset>, a: int, b: int)
    requires
        0 <= a <= b,
    ensures
        native_count(assets, a) <= native_count(assets, b),
    decreases b - a,
{
    if a < b {
        lemma_native_count_mono(assets, a, b - 1);
    }
}

/// How many of the first `i` assets are native.
pub open spec fn native_count(assets: Seq<Asset>, i: int) -> int
    decreases i,
{
    if i <= 0 {
        0
    } else {
        native_count(assets, i - 1) + if assets[i - 1].info is NativeToken { 1int } else { 0int }
    }
}

/// Whether `m` pulls `amount` of the cw20 `token` from `owner` to `to`.
pub open spec fn is_transfer_from(m: CosmosMsg, token: Seq<char>, owner: Seq<char>, to: Seq<char>, amount: u128) -> bool {
    match m {
        CosmosMsg::Execute { contract, action, funds } => {
            &&& contract@ == token
            &&& funds@.len() == 0
            &&& action matches ExecAction::Cw20TransferFrom { owner: o, recipient: rc, amount: a } && o@ == owner && rc@ == to && a == amount
        },
        _ => false,
    }
}

/// Whether `m` lets `spender` take `amount` of the cw20 `token`.
pub open spec fn is_allowance(m: CosmosMsg, token: Seq<char>, spender: Seq<char>, amount: u128) -> bool {
    match m {
        CosmosMsg::Execute { contract, action, funds } => {
            &&& contract@ == token
            &&& funds@.len() == 0
            &&& action matches ExecAction::Cw20IncreaseAllowance { spender: sp, amount: a } && sp@ == spender && a == amount
        },
        _ => false,
    }
}

/// `execute_provide_liquidity`: the owner or an operator provides the two
/// `assets` to the pair at `pair_contract` whose pool holds `pooled`. The
/// assets are trimmed to the pool's ratio; each cw20 is pulled from the sender
/// and allowed to the pair; the excess native funds go back; then the pair's
/// `ProvideLiquidity` gets the trimmed assets with the native ones attached,
/// the liquidity tokens coming to this contract. Once the assets are trimmed,
/// the pair's `liquidity_token` is recorded among the withdrawable tokens `ws`.
/// Gives the messages in order.
pub fn execute_provide_liquidity(
    ws: &mut Vec<(String, AssetInfo)>,
    liquidity_token: &String,
    authorized: bool,
    sender: &String,
    contract_address: &String,
    pair_contract: &String,
    pooled: &Vec<Asset>,
    assets: &Vec<Asset>,
    slippage_tolerance: Option<Decimal>,
    auto_stake: Option<bool>,
) -> (r: Result<(Vec<CosmosMsg>, Vec<Attribute>), ContractError>)
    requires
        names_ascending(old(ws)@),
        pooled@.len() == 2,
        assets@.len() == 2,
        !(pooled@[0].amount == 0 && pooled@[1].amount == 0) ==> pooled_amount(pooled@, assets@[0].info) is Some
            && pooled_amount(pooled@, assets@[1].info) is Some,
    ensures
        r is Err ==> final(ws)@ == old(ws)@,
        r is Ok ==> withdrawable_added(old(ws)@, final(ws)@, *liquidity_token, AssetInfo::Token { contract_addr: *liquidity_token }),
        !authorized ==> r == Err::<(Vec<CosmosMsg>, Vec<Attribute>), ContractError>(ContractError::Unauthorized),
        authorized ==> match spec_trimmed(pooled@, assets@) {
            None => r == Err::<(Vec<CosmosMsg>, Vec<Attribute>), ContractError>(ratio_error(
                (pooled_amount(pooled@, assets@[0].info)->0, pooled_amount(pooled@, assets@[1].info)->0))),
            Some(t) => r matches Ok((msgs, attrs)) && attrs_are(attrs@, seq![("action"@, "provide_liquidity"@)]) && {
                let n_cw20 = (if assets@[0].info is Token { 2int } else { 0int }) + (if assets@[1].info is Token { 2int } else { 0int });
                let n = n_cw20 + refund_count(assets@, t);
                &&& msgs@.len() == n + 1
                &&& (assets@[0].info matches AssetInfo::Token { contract_addr } ==>
                        is_transfer_from(msgs@[0], contract_addr@, sender@, contract_address@, t.0)
                        && is_allowance(msgs@[1], contract_addr@, pair_contract@, t.0))
                &&& (assets@[1].info matches AssetInfo::Token { contract_addr } ==> {
                        let k = if assets@[0].info is Token { 2int } else { 0int };
                        is_transfer_from(msgs@[k], contract_addr@, sender@, contract_address@, t.1)
                            && is_allowance(msgs@[k + 1], contract_addr@, pair_contract@, t.1)
                    })
                &&& forall|k: int| 0 <= k < refund_count(assets@, t) ==> is_refund(#[trigger] msgs@[n_cw20 + k], assets@, t, sender@, k)
                &&& msgs@[n] matches CosmosMsg::Execute { contract, action: ExecAction::ProvideLiquidity { assets: provided, slippage_tolerance: s, auto_stake: a, receiver }, funds }
                    && contract@ == pair_contract@ && receiver@ == contract_address@ && s == slippage_tolerance && a == auto_stake
                    && provided@ == seq![Asset { info: assets@[0].info, amount: t.0 }, Asset { info: assets@[1].info, amount: t.1 }]
                    && are_native_coins(funds@, provided@)
            },
        },
{
    if !authorized {
        return Err(ContractError::Unauthorized);
    }
    let (trimmed, refunds) = match verify_asset_ratio(pooled, assets, sender) {
        Ok(x) => x,
        Err(e) => return Err(e),
    };
    add_withdrawable_token(ws, liquidity_token, &AssetInfo::Token { contract_addr: liquidity_token.clone() });
    let mut msgs: Vec<CosmosMsg> = Vec::new();
    let mut i: usize = 0;
    while i < 2
        invariant
            i <= 2,
            trimmed@.len() == 2,
            msgs@.len() == (if i > 0 && trimmed@[0].info is Token { 2int } else { 0int }) + (if i > 1 && trimmed@[1].info is Token { 2int } else { 0int }),
            trimmed@[0].info is Token && i > 0 ==> (trimmed@[0].info matches AssetInfo::Token { contract_addr } &&
                is_transfer_from(msgs@[0], contract_addr@, sender@, contract_address@, trimmed@[0].amount)
                && is_allowance(msgs@[1], contract_addr@, pair_contract@, trimmed@[0].amount)),
            trimmed@[1].info is Token && i > 1 ==> (trimmed@[1].info matches AssetInfo::Token { contract_addr } && {
                let k = if trimmed@[0].info is Token { 2int } else { 0int };
                is_transfer_from(msgs@[k], contract_addr@, sender@, contract_address@, trimmed@[1].amount)
                    && is_allowance(msgs@[k + 1], contract_addr@, pair_contract@, trimmed@[1].amount)
            }),
        decreases 2 - i,
    {
        if let AssetInfo::Token { contract_addr } = &trimmed[i].info {
            msgs.push(CosmosMsg::Execute {
                contract: contract_addr.clone(),
                action: ExecAction::Cw20TransferFrom { owner: sender.clone(), recipient: contract_address.clone(), amount: trimmed[i].amount },
                funds: Vec::new(),
            });
            msgs.push(CosmosMsg::Execute {
                contract: contract_addr.clone(),
                action: ExecAction::Cw20IncreaseAllowance { spender: pair_contract.clone(), amount: trimmed[i].amount },
                funds: Vec::new(),
            });
        }
        i = i + 1;
    }
    let ghost before = msgs@;
    let mut refunds = refunds;
    let ghost rf = refunds@;
    msgs.append(&mut refunds);
    let funds = native_funds(&trimmed);
    msgs.push(CosmosMsg::Execute {
        contract: pair_contract.clone(),
        action: ExecAction::ProvideLiquidity {
            assets: trimmed,
            slippage_tolerance,
            auto_stake,
            receiver: contract_address.clone(),
        },
        funds,
    });
    proof {
        assert forall|k: int| 0 <= k < before.len() implies msgs@[k] == before[k] by {}
        assert forall|k: int| 0 <= k < rf.len() implies msgs@[before.len() + k] == rf[k] by {}
    }
    Ok((msgs, vec![attr("action", "provide_liquidity".to_owned())]))
}

/// The denomination swaps are routed through.
pub open spec fn route_denom() -> Seq<char> {
    "uusd"@
}

/// `get_swap_operations`: a swap from `offer` to `ask` goes through their pair
/// when there is one (`pair_exists`), is a native swap when both are native,
/// and otherwise goes through uusd: first to uusd (a native swap for a native
/// offer), then from uusd to `ask` through a pair.
pub fn get_swap_operations(pair_exists: bool, offer: AssetInfo, ask: AssetInfo) -> (r: Vec<SwapOperation>)
    ensures
        pair_exists ==> r@ == seq![SwapOperation::AstroSwap { offer_asset_info: offer, ask_asset_info: ask }],
        !pair_exists && offer is NativeToken && ask is NativeToken ==> {
            &&& r@.len() == 1
            &&& (r@[0] matches SwapOperation::NativeSwap { offer_denom, ask_denom } && offer_denom@ == info_view(offer).1 && ask_denom@ == info_view(ask).1)
        },
        !pair_exists && !(offer is NativeToken && ask is NativeToken) ==> {
            &&& r@.len() == 2
            &&& match offer {
                AssetInfo::NativeToken { denom } => r@[0] matches SwapOperation::NativeSwap { offer_denom, ask_denom } && offer_denom@ == denom@ && ask_denom@ == route_denom(),
                AssetInfo::Token { .. } => r@[0] matches SwapOperation::AstroSwap { offer_asset_info, ask_asset_info } && offer_asset_info == offer
                    && info_view(ask_asset_info) == (true, route_denom()),
            }
            &&& (r@[1] matches SwapOperation::AstroSwap { offer_asset_info, ask_asset_info } && info_view(offer_asset_info) == (true, route_denom()) && ask_asset_info == ask)
        },
{
    if pair_exists {
        return vec![SwapOperation::AstroSwap { offer_asset_info: offer, ask_asset_info: ask }];
    }
    match (offer, ask) {
        (AssetInfo::NativeToken { denom: o }, AssetInfo::NativeToken { denom: a }) => vec![SwapOperation::NativeSwap { offer_denom: o, ask_denom: a }],
        (offer, ask) => {
            let first = match offer {
                AssetInfo::NativeToken { denom } => SwapOperation::NativeSwap { offer_denom: denom, ask_denom: "uusd".to_owned() },
                other => SwapOperation::AstroSwap { offer_asset_info: other, ask_asset_info: AssetInfo::NativeToken { denom: "uusd".to_owned() } },
            };
            vec![first, SwapOperation::AstroSwap { offer_asset_info: AssetInfo::NativeToken { denom: "uusd".to_owned() }, ask_asset_info: ask }]
        },
    }
}

/// `execute_astroport_msg`: a call of an Astroport contract with at most one kind of funds attached.
pub fn execute_astroport_msg(funds: Vec<Coin>, contract: String, action: ExecAction) -> (r: Result<CosmosMsg, ContractError>)
    ensures
        funds@.len() > 1 ==> is_invalid_funds(r, "Astroport expects no funds or a single type of fund to be deposited."@),
        funds@.len() <= 1 ==> r == Ok::<CosmosMsg, ContractError>(CosmosMsg::Execute { contract, action, funds }),
{
    if funds.len() > 1 {
        return Err(invalid_funds("Astroport expects no funds or a single type of fund to be deposited."));
    }
    Ok(CosmosMsg::Execute { contract, action, funds })
}

/// `receive_cw20`: received cw20 tokens must be a non-zero amount.
pub fn check_received_amount(amount: u128) -> (r: Result<(), ContractError>)
    ensures
        amount == 0 ==> is_invalid_funds(r, "Amount must be non-zero"@),
        amount > 0 ==> r is Ok,
{
    if amount == 0 {
        return Err(invalid_funds("Amount must be non-zero"));
    }
    Ok(())
}

/// The amount to stake, unstake or withdraw: what is asked, at most what there is.
pub open spec fn capped_amount(asked: Option<u128>, available: u128) -> u128 {
    match asked {
        Some(a) => min_u128(a, available),
        None => available,
    }
}

/// Whether `m` sends `amount` of the cw20 `token` to `contract` with `hook`.
pub open spec fn is_cw20_send(m: CosmosMsg, token: Seq<char>, contract: Seq<char>, amount: u128, hook: Seq<char>) -> bool {
    match m {
        CosmosMsg::Execute { contract: c, action, funds } => {
            &&& c@ == token
            &&& funds@.len() == 0
            &&& action matches ExecAction::Cw20Send { contract: to, amount: a, hook: h } && to@ == contract && a == amount && h@ == hook
        },
        _ => false,
    }
}

/// A cw20 send of what is asked (at most `balance`) of `token` to `target`
/// with `hook`, by the owner or an operator: staking LP tokens in the
/// generator (`stake_lp`) and ASTRO or xASTRO in the staking contract
/// (`stake_or_unstake_astro`) take this form.
pub fn stake_send(
    authorized: bool,
    token: &String,
    target: &String,
    asked: Option<u128>,
    balance: u128,
    hook: &String,
) -> (r: Result<CosmosMsg, ContractError>)
    ensures
        !authorized ==> r == Err::<CosmosMsg, ContractError>(ContractError::Unauthorized),
        authorized ==> (r matches Ok(m) && is_cw20_send(m, token@, target@, capped_amount(asked, balance), hook@)),
{
    if !authorized {
        return Err(ContractError::Unauthorized);
    }
    let amount = match asked {
        Some(a) => if a < balance { a } else { balance },
        None => balance,
    };
    Ok(CosmosMsg::Execute {
        contract: token.clone(),
        action: ExecAction::Cw20Send { contract: target.clone(), amount, hook: hook.clone() },
        funds: Vec::new(),
    })
}

/// `execute_unstake_lp`: the owner or an operator withdraws what is asked (at
/// most what is staked) of `lp_token` from the generator.
pub fn execute_unstake_lp(
    authorized: bool,
    generator: &String,
    lp_token: &String,
    asked: Option<u128>,
    staked: u128,
) -> (r: Result<CosmosMsg, ContractError>)
    ensures
        !authorized ==> r == Err::<CosmosMsg, ContractError>(ContractError::Unauthorized),
        authorized ==> (r matches Ok(CosmosMsg::Execute { contract, action: ExecAction::GeneratorWithdraw { lp_token: l, amount }, funds })
            && contract@ == generator@ && l@ == lp_token@ && amount == capped_amount(asked, staked) && funds@.len() == 0),
{
    if !authorized {
        return Err(ContractError::Unauthorized);
    }
    let amount = match asked {
        Some(a) => if a < staked { a } else { staked },
        None => staked,
    };
    Ok(CosmosMsg::Execute {
        contract: generator.clone(),
        action: ExecAction::GeneratorWithdraw { lp_token: lp_token.clone(), amount },
        funds: Vec::new(),
    })
}

/// `execute_withdraw_liquidity`: the owner or an operator sends what is asked
/// (at most the contract's `lp_balance`) of the pair's liquidity token back to
/// the pair, and the pair's share for it (`share`, as the pair answers it)
/// goes to the recipient (the sender if none). Gives the withdrawn amount;
/// the messages are the send followed by the payouts of the share.
pub fn withdraw_liquidity_amount(authorized: bool, asked: Option<u128>, lp_balance: u128) -> (r: Result<u128, ContractError>)
    ensures
        !authorized ==> r == Err::<u128, ContractError>(ContractError::Unauthorized),
        authorized ==> r == Ok::<u128, ContractError>(capped_amount(asked, lp_balance)),
{
    if !authorized {
        return Err(ContractError::Unauthorized);
    }
    Ok(match asked {
        Some(a) => if a < lp_balance { a } else { lp_balance },
        None => lp_balance,
    })
}

/// The messages of `WithdrawLiquidity` once the amount of liquidity tokens is
/// fixed: the liquidity tokens are sent to the pair with its withdrawal hook
/// (the call's funds attached), then each asset of `share`, what the pair
/// gives back for them, is paid on to `recipient`, in order. Gives the
/// messages and the response attributes.
pub fn withdraw_liquidity_messages(
    lp_token: &String,
    pair: &String,
    amount: u128,
    hook: &String,
    funds: Vec<Coin>,
    share: &Vec<Asset>,
    recipient: &String,
) -> (r: (Vec<CosmosMsg>, Vec<Attribute>))
    ensures
        r.0@.len() == share@.len() + 1,
        r.0@[0] matches CosmosMsg::Execute { contract, action: ExecAction::Cw20Send { contract: to, amount: a, hook: h }, funds: f }
            && contract@ == lp_token@ && to@ == pair@ && a == amount && h@ == hook@ && f == funds,
        forall|k: int| 0 <= k < share@.len() ==> pays_asset(#[trigger] r.0@[k + 1], share@[k].info, recipient@, share@[k].amount),
        attrs_are(r.1@, seq![("action"@, "withdraw_liquidity"@)]),
{
    let mut msgs: Vec<CosmosMsg> = vec![CosmosMsg::Execute {
        contract: lp_token.clone(),
        action: ExecAction::Cw20Send { contract: pair.clone(), amount, hook: hook.clone() },
        funds,
    }];
    let mut i: usize = 0;
    while i < share.len()
        invariant
            i <= share@.len(),
            msgs@.len() == i + 1,
            msgs@[0] matches CosmosMsg::Execute { contract, action: ExecAction::Cw20Send { contract: to, amount: a, hook: h }, funds: f }
                && contract@ == lp_token@ && to@ == pair@ && a == amount && h@ == hook@ && f == funds,
            forall|k: int| 0 <= k < i ==> pays_asset(#[trigger] msgs@[k + 1], share@[k].info, recipient@, share@[k].amount),
        decreases share.len() - i,
    {
        let a = &share[i];
        let m = match &a.info {
            AssetInfo::NativeToken { denom } => CosmosMsg::BankSend {
                to_address: recipient.clone(),
                amount: vec![Coin { denom: denom.clone(), amount: a.amount }],
            },
            AssetInfo::Token { contract_addr } => CosmosMsg::Execute {
                contract: contract_addr.clone(),
                action: ExecAction::Cw20Transfer { recipient: recipient.clone(), amount: a.amount },
                funds: Vec::new(),
            },
        };
        msgs.push(m);
        i = i + 1;
    }
    (msgs, vec![attr("action", "withdraw_liquidity".to_owned())])
}

/// `execute_claim_lp_staking_rewards`: the owner or an operator withdraws
/// nothing of the liquidity tokens staked in the generator, which pays out
/// their rewards; with `auto_stake` the pending ASTRO reward is then staked
/// (capped at the ASTRO balance) as `execute_stake_astro` does.
pub fn execute_claim_lp_staking_rewards(
    authorized: bool,
    generator: &String,
    lp_token: &String,
    auto_stake: Option<bool>,
    pending_reward: u128,
    astro_token: &String,
    staking: &String,
    astro_balance: u128,
    enter_hook: &String,
) -> (r: Result<Vec<CosmosMsg>, ContractError>)
    ensures
        !authorized ==> r == Err::<Vec<CosmosMsg>, ContractError>(ContractError::Unauthorized),
        authorized ==> (r matches Ok(msgs) && {
            &&& msgs@.len() == if auto_stake == Some(true) { 2int } else { 1int }
            &&& msgs@[0] matches CosmosMsg::Execute { contract, action: ExecAction::GeneratorWithdraw { lp_token: l, amount }, funds }
                && contract@ == generator@ && l@ == lp_token@ && amount == 0 && funds@.len() == 0
            &&& auto_stake == Some(true) ==> is_cw20_send(msgs@[1], astro_token@, staking@,
                capped_amount(Some(pending_reward), astro_balance), enter_hook@)
        }),
{
    if !authorized {
        return Err(ContractError::Unauthorized);
    }
    let mut msgs: Vec<CosmosMsg> = vec![CosmosMsg::Execute {
        contract: generator.clone(),
        action: ExecAction::GeneratorWithdraw { lp_token: lp_token.clone(), amount: 0 },
        funds: Vec::new(),
    }];
    if let Some(true) = auto_stake {
        match stake_send(authorized, astro_token, staking, Some(pending_reward), astro_balance, enter_hook) {
            Ok(m) => msgs.push(m),
            Err(e) => return Err(e),
        }
    }
    Ok(msgs)
}

/// `execute_astroport_cw20_msg`: `amount` of the cw20 at `token` is sent to
/// `contract` with `hook`, no funds attached.
pub fn execute_astroport_cw20_msg(token: &String, amount: u128, contract: &String, hook: &String) -> (r: CosmosMsg)
    ensures
        is_cw20_send(r, token@, contract@, amount, hook@),
{
    CosmosMsg::Execute {
        contract: token.clone(),
        action: ExecAction::Cw20Send { contract: contract.clone(), amount, hook: hook.clone() },
        funds: Vec::new(),
    }
}

} // verus!
