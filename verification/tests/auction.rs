use andromeda::auction;
use andromeda::auction::{
    calculate_additional_fees, calculate_required_payments, execute_place_bid, read_bids, withdraw_message,
    AuctionIdChoice, Bid, Event, EventAttribute, OrderBy, Rate, RateInfo, TokenAuctionState,
};
use andromeda::common::{Attribute, Coin, ContractError, CosmosMsg, ExecAction};

fn attrs(pairs: &[(&str, &str)]) -> Vec<Attribute> {
    pairs.iter().map(|(k, v)| Attribute { key: k.to_string(), value: v.to_string() }).collect()
}

const MOCK_TOKEN_ADDR: &str = "token0001";
const MOCK_TOKEN_OWNER: &str = "owner";
const CONTRACT_ADDR: &str = "cosmos2contract";

fn coins(amount: u128, denom: &str) -> Vec<Coin> {
    vec![Coin { denom: denom.to_string(), amount }]
}

fn coin(amount: u128, denom: &str) -> Coin {
    Coin { denom: denom.to_string(), amount }
}

/// The token owner starts an auction from 100 to 200 at time 0.
fn started() -> TokenAuctionState {
    let owner = MOCK_TOKEN_OWNER.to_string();
    let (_, _, auction, _) = auction::execute_start_auction(&owner, &owner, 100, 200, "uusd".to_string(), None, 0, 0).unwrap();
    auction
}

fn bid(
    auction: TokenAuctionState,
    bids: Vec<Bid>,
    sender: &str,
    amount: u128,
    now: u64,
) -> Result<(TokenAuctionState, Vec<Bid>), ContractError> {
    execute_place_bid(
        &"token_001".to_string(),
        Some(auction),
        bids,
        &sender.to_string(),
        &coins(amount, "uusd"),
        &MOCK_TOKEN_OWNER.to_string(),
        now,
    )
    .map(|(a, b, _)| (a, b))
}

#[test]
fn test_execute_place_bid_non_existing_auction() {
    let res = execute_place_bid(
        &"token_001".to_string(),
        None,
        vec![],
        &MOCK_TOKEN_OWNER.to_string(),
        &vec![],
        &MOCK_TOKEN_OWNER.to_string(),
        1_571_797_419,
    );
    assert_eq!(ContractError::AuctionDoesNotExist, res.unwrap_err());
}

#[test]
fn execute_place_bid_auction_not_started() {
    let res = bid(started(), vec![], "sender", 100, 50);
    assert_eq!(ContractError::AuctionNotStarted, res.unwrap_err());
}

#[test]
fn execute_place_bid_auction_ended() {
    let res = bid(started(), vec![], "sender", 100, 300);
    assert_eq!(ContractError::AuctionEnded, res.unwrap_err());
}

#[test]
fn execute_place_bid_token_owner_cannot_bid() {
    let res = bid(started(), vec![], MOCK_TOKEN_OWNER, 100, 150);
    assert_eq!(ContractError::TokenOwnerCannotBid, res.unwrap_err());
}

#[test]
fn execute_place_bid_highest_bidder_cannot_outbid() {
    let (auction, bids) = bid(started(), vec![], "sender", 100, 150).unwrap();
    let res = bid(auction, bids, "sender", 200, 160);
    assert_eq!(ContractError::HighestBidderCannotOutBid, res.unwrap_err());
}

#[test]
fn execute_place_bid_bid_smaller_than_highest_bid() {
    let (auction, bids) = bid(started(), vec![], "sender", 100, 150).unwrap();
    let res = bid(auction, bids, "other", 50, 160);
    assert_eq!(ContractError::BidSmallerThanHighestBid, res.unwrap_err());
}

#[test]
fn execute_place_bid_update_existing_bid() {
    let (auction, bids, res) = execute_place_bid(
        &"token_001".to_string(),
        Some(started()),
        vec![],
        &"sender".to_string(),
        &coins(100, "uusd"),
        &MOCK_TOKEN_OWNER.to_string(),
        150,
    )
    .unwrap();
    assert_eq!(res, attrs(&[("action", "bid"), ("token_id", "token_001"), ("bider", "sender"), ("amount", "100")]));
    let mut expected = TokenAuctionState {
        start_time: 100,
        end_time: 200,
        high_bidder_addr: "sender".to_string(),
        high_bidder_amount: 100,
        coin_denom: "uusd".to_string(),
        auction_id: 0,
        reward_claimed: false,
    };
    assert_eq!(expected, auction);

    let (auction, bids) = bid(auction, bids, "other", 200, 160).unwrap();
    expected.high_bidder_addr = "other".to_string();
    expected.high_bidder_amount = 200;
    assert_eq!(expected, auction);

    let (auction, _bids) = bid(auction, bids, "sender", 150, 170).unwrap();
    expected.high_bidder_addr = "sender".to_string();
    expected.high_bidder_amount = 250;
    assert_eq!(expected, auction);
}

#[test]
fn execute_start_auction() {
    let owner = MOCK_TOKEN_OWNER.to_string();
    let (choice, next, auction, a) =
        auction::execute_start_auction(&owner, &owner, 100, 200, "uusd".to_string(), None, 0, 0).unwrap();
    assert_eq!(a, attrs(&[("action", "start_auction"), ("start_time", "100"), ("end_time", "200")]));
    assert_eq!(choice, AuctionIdChoice::Fresh(0));
    assert_eq!(next, 1);
    assert_eq!(auction.start_time, 100);
    assert_eq!(auction.end_time, 200);
}

#[test]
fn execute_start_auction_start_time_in_past() {
    let owner = MOCK_TOKEN_OWNER.to_string();
    let res = auction::execute_start_auction(&owner, &owner, 100, 200, "uusd".to_string(), None, 0, 150);
    assert_eq!(ContractError::StartTimeInThePast, res.unwrap_err());
}

#[test]
fn execute_start_auction_start_time_after_end_time() {
    let owner = MOCK_TOKEN_OWNER.to_string();
    let res = auction::execute_start_auction(&owner, &owner, 300, 200, "uusd".to_string(), None, 0, 0);
    assert_eq!(ContractError::StartTimeAfterEndTime, res.unwrap_err());
}

#[test]
fn execute_start_auction_not_token_owner() {
    let res = auction::execute_start_auction(
        &MOCK_TOKEN_OWNER.to_string(),
        &"not_owner".to_string(),
        100,
        200,
        "uusd".to_string(),
        None,
        0,
        0,
    );
    assert_eq!(ContractError::Unauthorized, res.unwrap_err());
}

#[test]
fn execute_start_auction_update_not_started_auction() {
    let owner = MOCK_TOKEN_OWNER.to_string();
    let (_, next, auction, _) =
        auction::execute_start_auction(&owner, &owner, 100, 200, "uusd".to_string(), None, 0, 0).unwrap();
    assert_eq!((100, 200, 0), (auction.start_time, auction.end_time, auction.auction_id));

    let (choice, next, auction, _) =
        auction::execute_start_auction(&owner, &owner, 150, 200, "uusd".to_string(), Some(auction), next, 0).unwrap();
    assert_eq!(choice, AuctionIdChoice::Replace(0));
    assert_eq!(next, 1);
    assert_eq!((150, 200, 0), (auction.start_time, auction.end_time, auction.auction_id));
}

#[test]
fn execute_start_auction_cannot_update_started_auction() {
    let owner = MOCK_TOKEN_OWNER.to_string();
    let (_, next, auction, _) =
        auction::execute_start_auction(&owner, &owner, 100, 200, "uusd".to_string(), None, 0, 0).unwrap();
    let res = auction::execute_start_auction(&owner, &owner, 150, 200, "uusd".to_string(), Some(auction), next, 120);
    assert_eq!(ContractError::AuctionNotEnded, res.unwrap_err());
}

#[test]
fn execute_withdraw_auction_not_started() {
    let auction = started();
    let res = auction::execute_withdraw(&auction, &vec![], &MOCK_TOKEN_OWNER.to_string(), 0);
    assert_eq!(ContractError::AuctionNotStarted, res.unwrap_err());
}

#[test]
fn execute_withdraw_cannot_withdraw_highest_bid() {
    let (auction, bids) = bid(started(), vec![], "sender", 100, 150).unwrap();
    let res = auction::execute_withdraw(&auction, &bids, &"sender".to_string(), 160);
    assert_eq!(ContractError::CannotWithdrawHighestBid, res.unwrap_err());
}

#[test]
fn execute_withdraw() {
    let (auction, bids) = bid(started(), vec![], "sender", 100, 150).unwrap();
    let (auction, bids) = bid(auction, bids, "other", 150, 160).unwrap();
    let sender = "sender".to_string();
    let amount = auction::execute_withdraw(&auction, &bids, &sender, 160).unwrap();
    assert_eq!(amount, 100);
    // a 10% tax is deducted from the refund on the way out
    let (msg, a) = withdraw_message(&auction, &sender, amount, 90);
    assert_eq!(msg, CosmosMsg::BankSend { to_address: "sender".to_string(), amount: coins(90, "uusd") });
    assert_eq!(
        a,
        attrs(&[("action", "withdraw"), ("auction_id", "0"), ("receiver", "sender"), ("withdraw_amount", "100")])
    );
}

#[test]
fn execute_claim_reward() {
    let (auction, _bids) = bid(started(), vec![], "sender", 100, 150).unwrap();
    let (auction, msgs, a) = auction::execute_claim_reward(
        Some(auction),
        &MOCK_TOKEN_ADDR.to_string(),
        &"token_001".to_string(),
        &CONTRACT_ADDR.to_string(),
        90,
        250,
    )
    .unwrap();
    assert!(auction.reward_claimed);
    assert_eq!(
        msgs,
        vec![
            CosmosMsg::Execute {
                contract: MOCK_TOKEN_ADDR.to_string(),
                action: ExecAction::TransferAgreement {
                    token_id: "token_001".to_string(),
                    denom: "uusd".to_string(),
                    purchaser: CONTRACT_ADDR.to_string(),
                    amount: 90,
                },
                funds: vec![],
            },
            CosmosMsg::Execute {
                contract: MOCK_TOKEN_ADDR.to_string(),
                action: ExecAction::TransferNft { recipient: "sender".to_string(), token_id: "token_001".to_string() },
                funds: coins(90, "uusd"),
            },
        ]
    );
    assert_eq!(
        a,
        attrs(&[
            ("action", "claim_reward"),
            ("token_id", "token_001"),
            ("token_contract", MOCK_TOKEN_ADDR),
            ("recipient", "sender"),
            ("winning_bid_amount", "100"),
            ("auction_id", "0"),
        ])
    );
}

#[test]
fn test_auction_instantiate() {
    let (token_addr, next_id, a) = auction::instantiate(MOCK_TOKEN_ADDR.to_string());
    assert_eq!(token_addr, MOCK_TOKEN_ADDR);
    assert_eq!(next_id, 0);
    assert_eq!(a, attrs(&[("method", "instantiate"), ("token_addr", MOCK_TOKEN_ADDR)]));
}

#[test]
fn execute_claim_reward_auction_not_ended() {
    let (auction, _bids) = bid(started(), vec![], "sender", 100, 150).unwrap();
    let res = auction::execute_claim_reward(
        Some(auction),
        &MOCK_TOKEN_ADDR.to_string(),
        &"token_001".to_string(),
        &CONTRACT_ADDR.to_string(),
        90,
        150,
    );
    assert_eq!(ContractError::AuctionNotEnded, res.unwrap_err());
}

#[test]
fn claiming_twice_is_refused() {
    let (auction, _bids) = bid(started(), vec![], "sender", 100, 150).unwrap();
    let addr = MOCK_TOKEN_ADDR.to_string();
    let id = "token_001".to_string();
    let me = CONTRACT_ADDR.to_string();
    let (auction, _, _) = auction::execute_claim_reward(Some(auction), &addr, &id, &me, 90, 250).unwrap();
    let res = auction::execute_claim_reward(Some(auction), &addr, &id, &me, 90, 260);
    assert_eq!(ContractError::AuctionRewardAlreadyClaimed, res.unwrap_err());
}

#[test]
fn more_than_one_coin_is_refused() {
    let funds = vec![coin(1, "uusd"), coin(1, "uluna")];
    let res = execute_place_bid(&"token_001".to_string(), Some(started()), vec![], &"a".to_string(), &funds, &MOCK_TOKEN_OWNER.to_string(), 150);
    assert_eq!(ContractError::MoreThanOneCoinSent, res.unwrap_err());
}

fn get_mock_bids() -> Vec<Bid> {
    (0..5).map(|i| Bid { bidder: i.to_string(), amount: 0 }).collect()
}

fn reversed(bids: &[Bid]) -> Vec<Bid> {
    let mut v = bids.to_vec();
    v.reverse();
    v
}

#[test]
fn read_bids_no_params() {
    assert_eq!(get_mock_bids(), read_bids(&get_mock_bids(), None, None, None));
}

#[test]
fn read_bids_no_params_desc() {
    let bids = read_bids(&get_mock_bids(), None, None, Some(OrderBy::Desc));
    assert_eq!(reversed(&get_mock_bids()), bids);
}

#[test]
fn read_bids_start_after() {
    let bids = read_bids(&get_mock_bids(), Some(2), None, Some(OrderBy::Asc));
    assert_eq!(get_mock_bids()[3..].to_vec(), bids);
    let bids = read_bids(&get_mock_bids(), Some(2), None, Some(OrderBy::Desc));
    assert_eq!(reversed(&get_mock_bids()[0..2]), bids);
}

#[test]
fn read_bids_limit() {
    let bids = read_bids(&get_mock_bids(), None, Some(2), Some(OrderBy::Asc));
    assert_eq!(get_mock_bids()[0..2].to_vec(), bids);
    let bids = read_bids(&get_mock_bids(), None, Some(2), Some(OrderBy::Desc));
    assert_eq!(reversed(&get_mock_bids()[3..]), bids);
}

#[test]
fn read_bids_start_after_limit() {
    let bids = read_bids(&get_mock_bids(), Some(2), Some(1), Some(OrderBy::Asc));
    assert_eq!(get_mock_bids()[3..4].to_vec(), bids);
    let bids = read_bids(&get_mock_bids(), Some(2), Some(1), Some(OrderBy::Desc));
    assert_eq!(reversed(&get_mock_bids()[1..2]), bids);
}

#[test]
fn read_bids_start_after_limit_too_high() {
    let bids = read_bids(&get_mock_bids(), Some(2), Some(100), Some(OrderBy::Asc));
    assert_eq!(get_mock_bids()[3..].to_vec(), bids);
    let bids = read_bids(&get_mock_bids(), Some(2), Some(100), Some(OrderBy::Desc));
    assert_eq!(reversed(&get_mock_bids()[0..2]), bids);
}

#[test]
fn read_bids_start_after_too_high() {
    assert!(read_bids(&get_mock_bids(), Some(100), None, Some(OrderBy::Asc)).is_empty());
    assert!(read_bids(&get_mock_bids(), Some(100), None, Some(OrderBy::Desc)).is_empty());
}

#[test]
fn read_bids_start_after_and_limit_too_high() {
    assert!(read_bids(&get_mock_bids(), Some(100), Some(100), Some(OrderBy::Asc)).is_empty());
    assert!(read_bids(&get_mock_bids(), Some(100), Some(100), Some(OrderBy::Desc)).is_empty());
}

#[test]
fn read_bids_caps_the_page() {
    let many: Vec<Bid> = (0..50).map(|i| Bid { bidder: i.to_string(), amount: i }).collect();
    assert_eq!(read_bids(&many, None, Some(1000), None).len(), 30);
    assert_eq!(read_bids(&many, None, None, None).len(), 10);
}

fn royalty(percent: u128, receivers: &[&str]) -> RateInfo {
    RateInfo {
        rate: Rate::Percent(percent),
        is_additive: false,
        receivers: receivers.iter().map(|r| r.to_string()).collect(),
        description: Some("Some royalty".to_string()),
    }
}

fn tax(percent: u128, receivers: &[&str]) -> RateInfo {
    RateInfo {
        rate: Rate::Percent(percent),
        is_additive: true,
        receivers: receivers.iter().map(|r| r.to_string()).collect(),
        description: Some("Some tax".to_string()),
    }
}

fn ev_attr(key: &str, value: &str) -> EventAttribute {
    EventAttribute::Attr(Attribute { key: key.to_string(), value: value.to_string() })
}

fn ev_payment(receiver: &str, amount: u128) -> EventAttribute {
    EventAttribute::Payment { receiver: receiver.to_string(), amount: coin(amount, "uluna") }
}

fn royalty_event() -> Event {
    Event {
        kind: "royalty".to_string(),
        attributes: vec![ev_attr("description", "Some royalty"), ev_attr("deducted", "1uluna"), ev_payment("recipientone", 1)],
    }
}

fn send(to: &str, amount: u128) -> CosmosMsg {
    CosmosMsg::BankSend { to_address: to.to_string(), amount: coins(amount, "uluna") }
}

#[test]
fn test_calculate_required_payments() {
    let payment = coin(100, "uluna");
    let (events, msgs, left) = calculate_required_payments(&payment, &vec![]).unwrap();
    assert!(events.is_empty());
    assert!(msgs.is_empty());
    assert_eq!(left, coin(100, "uluna"));

    let single_rate = vec![royalty(1, &["recipientone"])];
    let (events, msgs, left) = calculate_required_payments(&payment, &single_rate).unwrap();
    assert_eq!(events, vec![royalty_event()]);
    assert_eq!(msgs, vec![send("recipientone", 1)]);
    assert_eq!(left, coin(99, "uluna"));

    let multi_rate = vec![royalty(1, &["recipientone"]), tax(5, &["recipienttwo"])];
    let (events, msgs, left) = calculate_required_payments(&payment, &multi_rate).unwrap();
    assert_eq!(
        events,
        vec![
            royalty_event(),
            Event { kind: "tax".to_string(), attributes: vec![ev_attr("description", "Some tax"), ev_payment("recipienttwo", 5)] },
        ]
    );
    assert_eq!(msgs, vec![send("recipientone", 1), send("recipienttwo", 5)]);
    assert_eq!(left, coin(99, "uluna"));
}

#[test]
fn test_calculate_additional_fees() {
    let payment = coin(100, "uluna");
    assert_eq!(None, calculate_additional_fees(&payment, &vec![]).unwrap());

    let single_rate = vec![tax(5, &["recipienttwo"])];
    assert_eq!(Some(coin(5, "uluna")), calculate_additional_fees(&payment, &single_rate).unwrap());

    let multi_rate = vec![royalty(1, &["recipientone"]), tax(5, &["recipienttwo", "recipientone"])];
    assert_eq!(Some(coin(10, "uluna")), calculate_additional_fees(&payment, &multi_rate).unwrap());
}

#[test]
fn percentage_above_a_hundred_is_refused() {
    let payment = coin(100, "uluna");
    let res = calculate_additional_fees(&payment, &vec![tax(101, &["a"])]);
    assert_eq!(ContractError::InvalidRate, res.unwrap_err());
}

#[test]
fn flat_royalty_is_paid_in_its_own_coin() {
    let payment = coin(100, "uluna");
    let rates = vec![RateInfo { rate: Rate::Flat(coin(7, "uusd")), is_additive: true, receivers: vec!["a".to_string()], description: None }];
    let (events, msgs, left) = calculate_required_payments(&payment, &rates).unwrap();
    assert_eq!(
        events,
        vec![Event {
            kind: "tax".to_string(),
            attributes: vec![EventAttribute::Payment { receiver: "a".to_string(), amount: coin(7, "uusd") }],
        }]
    );
    assert_eq!(msgs, vec![CosmosMsg::BankSend { to_address: "a".to_string(), amount: coins(7, "uusd") }]);
    assert_eq!(left, coin(100, "uluna"));
}

#[test]
fn bid_attributes_name_the_payment() {
    let (_, bids) = bid(started(), vec![], "sender", 100, 150).unwrap();
    let (_, _, a) = execute_place_bid(
        &"token_001".to_string(),
        Some(bid(started(), vec![], "sender", 100, 150).unwrap().0),
        bids,
        &"sender2".to_string(),
        &coins(120, "uusd"),
        &MOCK_TOKEN_OWNER.to_string(),
        160,
    )
    .unwrap();
    assert_eq!(a, attrs(&[("action", "bid"), ("token_id", "token_001"), ("bider", "sender2"), ("amount", "120")]));
}

#[test]
fn reading_after_the_last_position_gives_nothing() {
    let bids = vec![Bid { bidder: "a".to_string(), amount: 1 }];
    assert!(read_bids(&bids, Some(u64::MAX), None, None).is_empty());
    assert!(read_bids(&bids, Some(u64::MAX), Some(30), Some(OrderBy::Desc)).is_empty());
}

#[test]
fn bid_without_a_coin_of_the_auction_is_refused() {
    let res = execute_place_bid(
        &"token_001".to_string(),
        Some(started()),
        vec![],
        &"sender".to_string(),
        &coins(100, "uluna"),
        &MOCK_TOKEN_OWNER.to_string(),
        150,
    );
    assert_eq!(res.unwrap_err(), ContractError::Std { msg: "No uusd assets are provided to auction".to_string() });
    let res = execute_place_bid(&"token_001".to_string(), Some(started()), vec![], &"sender".to_string(), &vec![], &MOCK_TOKEN_OWNER.to_string(), 150);
    assert_eq!(res.unwrap_err(), ContractError::Std { msg: "No uusd assets are provided to auction".to_string() });
}
