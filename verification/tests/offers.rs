use andromeda::common::{BlockInfo, Coin, ContractError, CosmosMsg, Expiration};
use andromeda::offers::{execute_accept_offer, execute_cancel_offer, execute_place_offer, Offer};

fn block() -> BlockInfo {
    BlockInfo { height: 12_345, time_nanos: 1_571_797_419_879_305_533 }
}

fn coin(amount: u128, denom: &str) -> Coin {
    Coin { denom: denom.to_string(), amount }
}

fn no_rates() -> Result<(Vec<CosmosMsg>, Coin), ContractError> {
    Ok((vec![], coin(100, "uusd")))
}

fn place(funds: Vec<Coin>, current: Option<Offer>) -> Result<(Offer, Vec<CosmosMsg>), ContractError> {
    execute_place_offer(
        &"token1".to_string(),
        &"purchaser".to_string(),
        &block(),
        100,
        Expiration::AtHeight(20_000),
        current,
        &"owner".to_string(),
        false,
        &funds,
        no_rates(),
    )
    .map(|(o, m, _)| (o, m))
}

fn invalid_funds(msg: &str) -> ContractError {
    ContractError::InvalidFunds { msg: msg.to_string() }
}

#[test]
fn offer_needs_one_coin() {
    let res = place(vec![coin(100, "uusd"), coin(1, "uluna")], None);
    assert_eq!(res.unwrap_err(), invalid_funds("Must send one type of funds"));
    let res = place(vec![], None);
    assert_eq!(res.unwrap_err(), invalid_funds("Must send one type of funds"));
}

#[test]
fn offer_needs_uusd() {
    let res = place(vec![coin(100, "uluna")], None);
    assert_eq!(res.unwrap_err(), invalid_funds("Only offers in uusd are allowed"));
}

#[test]
fn offer_is_placed_and_a_lower_one_refused() {
    let (offer, msgs) = place(vec![coin(100, "uusd")], None).unwrap();
    assert_eq!(offer.purchaser, "purchaser");
    assert_eq!(offer.offer_amount, 100);
    assert_eq!(offer.remaining_amount, 100);
    assert_eq!(offer.tax_amount, 0);
    assert!(msgs.is_empty());
    let standing = Offer { purchaser: "other".to_string(), ..offer };
    let res = place(vec![coin(100, "uusd")], Some(standing));
    assert_eq!(res.unwrap_err(), ContractError::OfferLowerThanCurrent);
}

#[test]
fn placed_offer_attributes() {
    let (_, _, a) = execute_place_offer(
        &"token1".to_string(),
        &"purchaser".to_string(),
        &block(),
        100,
        Expiration::AtHeight(20_000),
        None,
        &"owner".to_string(),
        false,
        &vec![coin(100, "uusd")],
        no_rates(),
    )
    .unwrap();
    let pairs: Vec<(String, String)> = a.into_iter().map(|x| (x.key, x.value)).collect();
    assert_eq!(
        pairs,
        vec![
            ("action".to_string(), "place_offer".to_string()),
            ("purchaser".to_string(), "purchaser".to_string()),
            ("offer_amount".to_string(), "100".to_string()),
            ("token_id".to_string(), "token1".to_string()),
        ]
    );
}

fn standing() -> Offer {
    Offer {
        purchaser: "purchaser".to_string(),
        denom: "uusd".to_string(),
        offer_amount: 100,
        remaining_amount: 90,
        tax_amount: 5,
        expiration: Expiration::AtHeight(20_000),
        msgs: vec![CosmosMsg::BankSend { to_address: "royalty".to_string(), amount: vec![coin(10, "uusd")] }],
    }
}

#[test]
fn cancel_refunds_the_offer_with_its_tax() {
    let offer = standing();
    let (m, a) = execute_cancel_offer(&"token1".to_string(), &"purchaser".to_string(), Some(&offer)).unwrap();
    assert_eq!(m, CosmosMsg::BankSend { to_address: "purchaser".to_string(), amount: vec![coin(105, "uusd")] });
    assert_eq!((a[0].value.as_str(), a[1].value.as_str()), ("cancel_offer", "token1"));
    let res = execute_cancel_offer(&"token1".to_string(), &"other".to_string(), Some(&offer));
    assert_eq!(res.unwrap_err(), ContractError::Unauthorized);
}

#[test]
fn accept_pays_the_rates_then_the_seller() {
    let (msgs, a) = execute_accept_offer(
        &"token1".to_string(),
        &"cw721".to_string(),
        &block(),
        Some(standing()),
        &"cw721".to_string(),
        "seller".to_string(),
    )
    .unwrap();
    assert_eq!(
        msgs,
        vec![
            CosmosMsg::BankSend { to_address: "royalty".to_string(), amount: vec![coin(10, "uusd")] },
            CosmosMsg::BankSend { to_address: "seller".to_string(), amount: vec![coin(90, "uusd")] },
        ]
    );
    assert_eq!((a[0].value.as_str(), a[1].value.as_str()), ("accept_offer", "token1"));
}
