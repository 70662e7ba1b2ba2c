use andromeda::common::{Attribute, BlockInfo, Coin, ContractError, CosmosMsg, Expiration};
use andromeda::crowdfund::{
    end_sale_limit, execute_claim_refund, execute_end_sale, execute_purchase, execute_start_sale, get_tax_amount,
    CrowdfundState, Purchase, PurchaseEntry,
};

const HEIGHT: u64 = 12_345;
const CONTRACT: &str = "cosmos2contract";
const MOCK_RATES_RECIPIENT: &str = "rates_recipient";
const MOCK_TOKEN_FOR_SALE: &str = "token1";

fn block() -> BlockInfo {
    BlockInfo { height: HEIGHT, time_nanos: 1_571_797_419_879_305_533 }
}

fn coin(amount: u128, denom: &str) -> Coin {
    Coin { denom: denom.to_string(), amount }
}

fn coins(amount: u128, denom: &str) -> Vec<Coin> {
    vec![coin(amount, denom)]
}

fn start(expiration: Expiration, max: Option<u128>, is_owner: bool) -> Result<CrowdfundState, ContractError> {
    start_with_attrs(expiration, max, is_owner).map(|(s, _)| s)
}

fn start_with_attrs(expiration: Expiration, max: Option<u128>, is_owner: bool) -> Result<(CrowdfundState, Vec<Attribute>), ContractError> {
    execute_start_sale(is_owner, &block(), expiration, coin(100, "uusd"), 1, max, "recipient".to_string(), false)
}

fn attrs(pairs: &[(&str, &str)]) -> Vec<Attribute> {
    pairs.iter().map(|(k, v)| Attribute { key: k.to_string(), value: v.to_string() }).collect()
}

fn sale(expiration: Expiration, max: u128) -> CrowdfundState {
    CrowdfundState {
        expiration,
        price: coin(100, "uusd"),
        min_tokens_sold: 1,
        max_amount_per_wallet: max,
        amount_sold: 0,
        amount_to_send: 0,
        amount_transferred: 0,
        recipient: "recipient".to_string(),
    }
}

/// What the rates make of a payment of 100uusd: a 10% royalty and a flat tax of 50.
fn get_rates_messages() -> Vec<CosmosMsg> {
    vec![
        CosmosMsg::BankSend { to_address: MOCK_RATES_RECIPIENT.to_string(), amount: coins(10, "uusd") },
        CosmosMsg::BankSend { to_address: MOCK_RATES_RECIPIENT.to_string(), amount: coins(50, "uusd") },
    ]
}

fn rates_transfer() -> Result<(Vec<CosmosMsg>, Coin), ContractError> {
    Ok((get_rates_messages(), coin(90, "uusd")))
}

fn no_rates_transfer() -> Result<(Vec<CosmosMsg>, Coin), ContractError> {
    Ok((vec![], coin(100, "uusd")))
}

fn purchase(
    state: Option<CrowdfundState>,
    token_id: &str,
    owner: Option<&str>,
    funds: &[Coin],
    transfer: Result<(Vec<CosmosMsg>, Coin), ContractError>,
) -> Result<(CrowdfundState, Vec<Purchase>, Vec<Attribute>), ContractError> {
    execute_purchase(
        state,
        &block(),
        &"sender".to_string(),
        &token_id.to_string(),
        &mut vec![],
        owner.map(|o| o.to_string()),
        &CONTRACT.to_string(),
        vec![],
        &funds.to_vec(),
        transfer,
    )
}

#[test]
fn test_start_sale_no_expiration() {
    assert_eq!(ContractError::ExpirationMustNotBeNever, start(Expiration::Never, None, true).unwrap_err());
}

#[test]
fn test_start_sale_expiration_in_past() {
    let res = start(Expiration::AtHeight(HEIGHT - 1), None, true);
    assert_eq!(ContractError::ExpirationInPast, res.unwrap_err());
}

#[test]
fn test_start_sale_unauthorized() {
    let res = start(Expiration::AtHeight(HEIGHT + 1), None, false);
    assert_eq!(ContractError::Unauthorized, res.unwrap_err());
}

#[test]
fn test_start_sale_max_default() {
    let (state, a) = start_with_attrs(Expiration::AtHeight(HEIGHT + 1), None, true).unwrap();
    assert_eq!(state, sale(Expiration::AtHeight(HEIGHT + 1), 1));
    assert_eq!(
        a,
        attrs(&[
            ("action", "start_sale"),
            ("expiration", "expiration height: 12346"),
            ("price", "100uusd"),
            ("min_tokens_sold", "1"),
            ("max_amount_per_wallet", "1"),
        ])
    );
}

#[test]
fn test_start_sale_max_modified() {
    let (state, a) = start_with_attrs(Expiration::AtHeight(HEIGHT + 1), Some(5), true).unwrap();
    assert_eq!(state, sale(Expiration::AtHeight(HEIGHT + 1), 5));
    assert_eq!(
        a,
        attrs(&[
            ("action", "start_sale"),
            ("expiration", "expiration height: 12346"),
            ("price", "100uusd"),
            ("min_tokens_sold", "1"),
            ("max_amount_per_wallet", "5"),
        ])
    );
}

#[test]
fn sale_ending_at_a_time_writes_seconds_and_nanos() {
    let (_, a) = start_with_attrs(Expiration::AtTime(1_571_797_500_000_000_042), None, true).unwrap();
    assert_eq!(a[1].value, "expiration time: 1571797500.000000042");
}

#[test]
fn test_purchase_sale_not_started() {
    let res = purchase(None, "token_id", None, &[], no_rates_transfer());
    assert_eq!(ContractError::NoOngoingSale, res.unwrap_err());
}

#[test]
fn test_purchase_sale_not_ended() {
    let res = purchase(Some(sale(Expiration::AtHeight(HEIGHT - 1), 5)), "token_id", None, &[], no_rates_transfer());
    assert_eq!(ContractError::NoOngoingSale, res.unwrap_err());
}

#[test]
fn test_purchase_existing_token_not_for_sale() {
    let state = Some(sale(Expiration::AtHeight(HEIGHT + 1), 5));
    let res = purchase(state, "token_not_for_sale", Some("owner"), &[], no_rates_transfer());
    assert_eq!(ContractError::TokenNotForSale, res.unwrap_err());
}

#[test]
fn test_purchase_not_existing_token_not_for_sale() {
    let state = Some(sale(Expiration::AtHeight(HEIGHT + 1), 5));
    let res = purchase(state, "non_existing_token", None, &[], no_rates_transfer());
    assert_eq!(ContractError::TokenNotForSale, res.unwrap_err());
}

#[test]
fn test_purchase_no_funds() {
    let state = Some(sale(Expiration::AtHeight(HEIGHT + 1), 5));
    let res = purchase(state, MOCK_TOKEN_FOR_SALE, Some(CONTRACT), &[], no_rates_transfer());
    assert_eq!(ContractError::InsufficientFunds, res.unwrap_err());
}

#[test]
fn test_purchase_wrong_denom() {
    let state = Some(sale(Expiration::AtHeight(HEIGHT + 1), 5));
    let res = purchase(state, MOCK_TOKEN_FOR_SALE, Some(CONTRACT), &coins(100, "uluna"), no_rates_transfer());
    assert_eq!(ContractError::InsufficientFunds, res.unwrap_err());
}

#[test]
fn test_purchase_not_enough_for_price() {
    let state = Some(sale(Expiration::AtHeight(HEIGHT + 1), 5));
    let res = purchase(state, MOCK_TOKEN_FOR_SALE, Some(CONTRACT), &coins(50, "uusd"), rates_transfer());
    assert_eq!(ContractError::InsufficientFunds, res.unwrap_err());
}

#[test]
fn test_purchase_not_enough_for_tax() {
    let state = Some(sale(Expiration::AtHeight(HEIGHT + 1), 5));
    let res = purchase(state, MOCK_TOKEN_FOR_SALE, Some(CONTRACT), &coins(100, "uusd"), rates_transfer());
    assert_eq!(ContractError::InsufficientFunds, res.unwrap_err());
}

#[test]
fn test_multiple_purchases() {
    let mut state = sale(Expiration::AtHeight(HEIGHT + 1), 2);
    let mut unavailable: Vec<String> = vec![];
    let (new_state, purchases, a) = execute_purchase(
        Some(state.clone()),
        &block(),
        &"sender".to_string(),
        &MOCK_TOKEN_FOR_SALE.to_string(),
        &mut unavailable,
        Some(CONTRACT.to_string()),
        &CONTRACT.to_string(),
        vec![],
        &coins(150, "uusd"),
        rates_transfer(),
    )
    .unwrap();
    // the token is no longer for sale
    assert_eq!(unavailable, vec![MOCK_TOKEN_FOR_SALE.to_string()]);
    assert_eq!(a, attrs(&[("action", "purchase"), ("token_id", MOCK_TOKEN_FOR_SALE)]));
    state.amount_to_send += 90;
    state.amount_sold += 1;
    assert_eq!(state, new_state);

    let first_purchase = Purchase {
        token_id: MOCK_TOKEN_FOR_SALE.to_string(),
        purchaser: "sender".to_string(),
        tax_amount: 50,
        msgs: get_rates_messages(),
    };
    assert_eq!(vec![first_purchase], purchases);
}

#[test]
fn purchase_limit_per_wallet() {
    let state = sale(Expiration::AtHeight(HEIGHT + 1), 1);
    let (state, purchases, _) =
        purchase(Some(state), MOCK_TOKEN_FOR_SALE, Some(CONTRACT), &coins(150, "uusd"), rates_transfer()).unwrap();
    let res = execute_purchase(
        Some(state),
        &block(),
        &"sender".to_string(),
        &"token2".to_string(),
        &mut vec![MOCK_TOKEN_FOR_SALE.to_string()],
        Some(CONTRACT.to_string()),
        &CONTRACT.to_string(),
        purchases,
        &coins(150, "uusd"),
        rates_transfer(),
    );
    assert_eq!(ContractError::PurchaseLimitReached, res.unwrap_err());
}

#[test]
fn sold_token_cannot_be_bought_again() {
    let state = sale(Expiration::AtHeight(HEIGHT + 1), 5);
    let res = execute_purchase(
        Some(state),
        &block(),
        &"sender".to_string(),
        &MOCK_TOKEN_FOR_SALE.to_string(),
        &mut vec![MOCK_TOKEN_FOR_SALE.to_string()],
        Some(CONTRACT.to_string()),
        &CONTRACT.to_string(),
        vec![],
        &coins(150, "uusd"),
        rates_transfer(),
    );
    assert_eq!(ContractError::TokenAlreadyPurchased, res.unwrap_err());
}

#[test]
fn tax_is_what_the_rates_pay_beyond_the_royalties() {
    assert_eq!(get_tax_amount(&get_rates_messages(), 100, 90), Ok(50));
    assert_eq!(get_tax_amount(&vec![], 100, 100), Ok(0));
}

#[test]
fn refund_after_a_failed_sale() {
    let mut state = sale(Expiration::AtHeight(HEIGHT - 1), 5);
    state.min_tokens_sold = 3;
    state.amount_sold = 1;
    let purchases = vec![Purchase {
        token_id: MOCK_TOKEN_FOR_SALE.to_string(),
        purchaser: "sender".to_string(),
        tax_amount: 50,
        msgs: get_rates_messages(),
    }];
    let mut stored = Some(purchases);
    let mut unavailable = vec!["other_token".to_string(), MOCK_TOKEN_FOR_SALE.to_string()];
    let (msg, a) = execute_claim_refund(Some(&state), &block(), &mut stored, &mut unavailable).unwrap();
    assert_eq!(msg, Some(CosmosMsg::BankSend { to_address: "sender".to_string(), amount: coins(150, "uusd") }));
    // the purchases are removed and their tokens are available again
    assert_eq!(stored, None);
    assert_eq!(unavailable, vec!["other_token".to_string()]);
    assert_eq!(a, attrs(&[("action", "claim_refund")]));
    // claiming again finds no purchases
    assert_eq!(
        ContractError::NoPurchases,
        execute_claim_refund(Some(&state), &block(), &mut stored, &mut unavailable).unwrap_err()
    );
}

#[test]
fn refund_refused_while_the_sale_runs_or_succeeded() {
    let running = sale(Expiration::AtHeight(HEIGHT + 1), 5);
    assert_eq!(ContractError::SaleNotEnded, execute_claim_refund(Some(&running), &block(), &mut None, &mut vec![]).unwrap_err());
    let mut done = sale(Expiration::AtHeight(HEIGHT - 1), 5);
    done.amount_sold = 1;
    assert_eq!(ContractError::MinSalesExceeded, execute_claim_refund(Some(&done), &block(), &mut None, &mut vec![]).unwrap_err());
    assert_eq!(ContractError::NoOngoingSale, execute_claim_refund(None, &block(), &mut None, &mut vec![]).unwrap_err());
}

#[test]
fn end_sale_limit_must_not_be_zero() {
    assert_eq!(ContractError::LimitMustNotBeZero, end_sale_limit(Some(0)).unwrap_err());
    assert!(end_sale_limit(Some(3)).unwrap() == 3);
}

fn sold(token_id: &str, buyer: &str) -> Purchase {
    Purchase { token_id: token_id.to_string(), tax_amount: 0, msgs: vec![], purchaser: buyer.to_string() }
}

fn nft_to(token_id: &str, buyer: &str) -> CosmosMsg {
    CosmosMsg::Execute {
        contract: "token_contract".to_string(),
        action: andromeda::common::ExecAction::TransferNft { recipient: buyer.to_string(), token_id: token_id.to_string() },
        funds: vec![],
    }
}

#[test]
fn end_sale_hands_out_purchases_batch_by_batch() {
    let mut state = sale(Expiration::AtHeight(HEIGHT - 1), 5);
    state.amount_sold = 3;
    state.amount_to_send = 270;
    let entries = vec![
        PurchaseEntry { purchaser: "a".to_string(), purchases: vec![sold("t1", "a"), sold("t2", "a")] },
        PurchaseEntry { purchaser: "b".to_string(), purchases: vec![sold("t3", "b")] },
    ];
    let token_contract = "token_contract".to_string();

    // first batch: a's two purchases
    let o = execute_end_sale(Some(state), &block(), Some(2), entries, Ok(vec![]), &token_contract).unwrap();
    assert_eq!(o.attributes, attrs(&[("action", "transfer_tokens_and_send_funds")]));
    assert_eq!(o.messages, vec![nft_to("t1", "a"), nft_to("t2", "a")]);
    assert_eq!(o.released_tokens, vec!["t1".to_string(), "t2".to_string()]);
    assert_eq!(o.purchases.len(), 1);
    assert_eq!(o.purchases[0].purchaser, "b");
    let state = o.state.unwrap();
    assert_eq!(state.amount_transferred, 2);

    // second batch: what was left, b's purchase
    let o = execute_end_sale(Some(state), &block(), Some(2), o.purchases, Ok(vec![]), &token_contract).unwrap();
    assert_eq!(o.messages, vec![nft_to("t3", "b")]);
    // the last buyer of a batch keeps an entry, here an empty one
    assert_eq!(o.purchases.len(), 1);
    assert!(o.purchases[0].purchases.is_empty());
    let state = o.state.unwrap();
    assert_eq!(state.amount_transferred, 3);

    // everything is handed out: the recipient is paid and nothing is left to burn
    let o = execute_end_sale(Some(state), &block(), Some(2), vec![], Ok(vec![]), &token_contract).unwrap();
    assert_eq!(
        o.messages,
        vec![CosmosMsg::BankSend { to_address: "recipient".to_string(), amount: coins(270, "uusd") }]
    );
    assert!(o.state.is_none());
}

#[test]
fn end_sale_refunds_when_too_little_sold() {
    let mut state = sale(Expiration::AtHeight(HEIGHT - 1), 5);
    state.min_tokens_sold = 5;
    state.amount_sold = 1;
    let mut p = sold("t1", "a");
    p.tax_amount = 10;
    let entries = vec![PurchaseEntry { purchaser: "a".to_string(), purchases: vec![p] }];
    let o = execute_end_sale(Some(state), &block(), None, entries, Ok(vec![]), &"token_contract".to_string()).unwrap();
    assert_eq!(o.attributes, attrs(&[("action", "issue_refunds_and_burn_tokens")]));
    assert!(o.messages.contains(&CosmosMsg::BankSend { to_address: "a".to_string(), amount: coins(110, "uusd") }));
    assert!(o.purchases.is_empty());
}

#[test]
fn tests_test_instantiate() {
    let (token_address, a) = andromeda::crowdfund::instantiate("token_contract".to_string());
    assert_eq!(token_address, "token_contract");
    assert_eq!(a, attrs(&[("method", "instantiate"), ("type", "crowdfund")]));
}

#[test]
fn batches_of_zero_are_refused() {
    let state = sale(Expiration::AtHeight(HEIGHT - 1), 1);
    let t = "token_contract".to_string();
    let res = andromeda::crowdfund::transfer_tokens_and_send_funds(state.clone(), Some(0), vec![], Ok(vec![]), &t);
    assert!(matches!(res, Err(ContractError::LimitMustNotBeZero)));
    let res = andromeda::crowdfund::issue_refunds_and_burn_tokens(state, Some(0), vec![], Ok(vec![]), &t);
    assert!(matches!(res, Err(ContractError::LimitMustNotBeZero)));
}

#[test]
fn process_refund_removes_purchases_and_frees_tokens() {
    let p = |t: &str| Purchase { token_id: t.to_string(), purchaser: "buyer".to_string(), tax_amount: 5, msgs: vec![] };
    let mut stored = Some(vec![p("t1"), p("t2")]);
    let mut unavailable = vec!["t1".to_string(), "t3".to_string(), "t2".to_string()];
    let msg = andromeda::crowdfund::process_refund(&mut stored, &mut unavailable, &coin(100, "uusd")).unwrap();
    assert_eq!(msg, Some(CosmosMsg::BankSend { to_address: "buyer".to_string(), amount: coins(210, "uusd") }));
    assert_eq!(stored, None);
    assert_eq!(unavailable, vec!["t3".to_string()]);
}
