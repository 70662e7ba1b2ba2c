//! The NFT auction: an owner starts an auction for a token; bidders raise the
//! highest bid (a bidder's bid adds to its first earlier bid); after the end the
//! winner receives the token and the owner the winning bid; outbid bidders
//! withdraw. Also the paging of bids and the royalties and taxes on a payment.
use vstd::prelude::*;
use vstd::string::StringExecFns;
use crate::common::{attr, attr_is, attrs_are, coin_string, coin_text, decimal, decimal_string, Attribute, Coin, ContractError, CosmosMsg, ExecAction, is_bank_send_one};
use crate::math::checked_ratio;

verus! {

/// The state of one auction.
#[derive(Clone, Debug, PartialEq, Eq)]
pub struct TokenAuctionState {
    pub start_time: u64,
    pub end_time: u64,
    pub high_bidder_addr: String,
    pub high_bidder_amount: u128,
    pub coin_denom: String,
    pub auction_id: u128,
    pub reward_claimed: bool,
}

#[derive(Clone, Debug, PartialEq, Eq)]
pub struct Bid {
    pub bidder: String,
    pub amount: u128,
}

impl Bid {
    pub fn copy(&self) -> (r: Bid)
        ensures
            r == *self,
    {
        Bid { bidder: self.bidder.clone(), amount: self.amount }
    }
}

/// The position of the first bid of `bidder`, if any.
pub open spec fn first_bid_index(bids: Seq<Bid>, bidder: Seq<char>) -> Option<int>
    decreases bids.len(),
{
    if bids.len() == 0 {
        None
    } else {
        match first_bid_index(bids.drop_last(), bidder) {
            Some(i) => Some(i),
            None => if bids.last().bidder@ == bidder { Some(bids.len() - 1) } else { None },
        }
    }
}

/// The amount of the last bid of `bidder`, or zero.
pub open spec fn last_bid_amount(bids: Seq<Bid>, bidder: Seq<char>) -> u128
    decreases bids.len(),
{
    if bids.len() == 0 {
        0
    } else if bids.last().bidder@ == bidder {
        bids.last().amount
    } else {
        last_bid_amount(bids.drop_last(), bidder)
    }
}

proof fn lemma_first_bid_index(bids: Seq<Bid>, bidder: Seq<char>)
    ensures
        first_bid_index(bids, bidder) matches Some(i) ==> 0 <= i < bids.len() && bids[i].bidder@ == bidder
            && forall|j: int| 0 <= j < i ==> (#[trigger] bids[j]).bidder@ != bidder,
        first_bid_index(bids, bidder) is None ==> forall|j: int| 0 <= j < bids.len() ==> (#[trigger] bids[j]).bidder@ != bidder,
    decreases bids.len(),
{
    if bids.len() > 0 {
        lemma_first_bid_index(bids.drop_last(), bidder);
        assert forall|j: int| 0 <= j < bids.len() - 1 implies bids.drop_last()[j] == bids[j] by {}
    }
}

/// The first bid of `bidder`, as `Bid::iter().find` returns it.
fn find_first_bid(bids: &Vec<Bid>, bidder: &String) -> (r: Option<usize>)
    ensures
        r matches Some(i) ==> first_bid_index(bids@, bidder@) == Some(i as int) && i < bids@.len(),
        r is None ==> first_bid_index(bids@, bidder@) is None,
{
    proof { lemma_first_bid_index(bids@, bidder@); }
    let mut i: usize = 0;
    while i < bids.len()
        invariant
            i <= bids@.len(),
            forall|j: int| 0 <= j < i ==> (#[trigger] bids@[j]).bidder@ != bidder@,
            first_bid_index(bids@, bidder@) matches Some(k) ==> 0 <= k < bids@.len() && bids@[k].bidder@ == bidder@
                && forall|j: int| 0 <= j < k ==> (#[trigger] bids@[j]).bidder@ != bidder@,
            first_bid_index(bids@, bidder@) is None ==> forall|j: int| 0 <= j < bids@.len() ==> (#[trigger] bids@[j]).bidder@ != bidder@,
        decreases bids.len() - i,
    {
        if bids[i].bidder == *bidder {
            proof {
                match first_bid_index(bids@, bidder@) {
                    Some(k) => {
                        if k < i as int {
                            assert(bids@[k].bidder@ != bidder@);
                        }
                        if k > i as int {
                            assert(bids@[i as int].bidder@ != bidder@);
                        }
                    },
                    None => {},
                }
            }
            return Some(i);
        }
        i = i + 1;
    }
    None
}

/// The amount of the last bid of `bidder` (`iter().rfind`), or zero.
fn find_last_bid_amount(bids: &Vec<Bid>, bidder: &String) -> (r: u128)
    ensures
        r == last_bid_amount(bids@, bidder@),
{
    let mut i: usize = bids.len();
    assert(bids@.take(bids@.len() as int) =~= bids@);
    while i > 0
        invariant
            i <= bids@.len(),
            last_bid_amount(bids@, bidder@) == last_bid_amount(bids@.take(i as int), bidder@),
        decreases i,
    {
        let ghost pre = bids@.take(i as int);
        assert(pre.drop_last() =~= bids@.take(i - 1));
        if bids[i - 1].bidder == *bidder {
            return bids[i - 1].amount;
        }
        i = i - 1;
    }
    proof {
        assert(bids@.take(0).len() == 0);
    }
    0
}

/// What a valid bid of `payment` by `sender` raises the bidder's bid to: the
/// first earlier bid of the sender plus the payment.
pub open spec fn spec_new_bid_amount(bids: Seq<Bid>, sender: Seq<char>, payment: u128) -> int {
    match first_bid_index(bids, sender) {
        Some(i) => bids[i].amount + payment,
        None => payment as int,
    }
}

/// The first coin of `funds` in `denom` with a positive amount.
pub open spec fn payment_index(funds: Seq<Coin>, denom: Seq<char>) -> Option<int>
    decreases funds.len(),
{
    if funds.len() == 0 {
        None
    } else {
        match payment_index(funds.drop_last(), denom) {
            Some(i) => Some(i),
            None => if funds.last().denom@ == denom && funds.last().amount > 0 { Some(funds.len() - 1) } else { None },
        }
    }
}

proof fn lemma_payment_index(funds: Seq<Coin>, denom: Seq<char>)
    ensures
        payment_index(funds, denom) matches Some(i) ==> 0 <= i < funds.len() && funds[i].denom@ == denom && funds[i].amount > 0
            && forall|j: int| 0 <= j < i ==> !((#[trigger] funds[j]).denom@ == denom && funds[j].amount > 0),
        payment_index(funds, denom) is None ==> forall|j: int| 0 <= j < funds.len() ==> !((#[trigger] funds[j]).denom@ == denom && funds[j].amount > 0),
    decreases funds.len(),
{
    if funds.len() > 0 {
        lemma_payment_index(funds.drop_last(), denom);
        assert forall|j: int| 0 <= j < funds.len() - 1 implies funds.drop_last()[j] == funds[j] by {}
    }
}

fn find_payment(funds: &Vec<Coin>, denom: &String) -> (r: Option<usize>)
    ensures
        r matches Some(i) ==> payment_index(funds@, denom@) == Some(i as int) && i < funds@.len(),
        r is None ==> payment_index(funds@, denom@) is None,
{
    proof { lemma_payment_index(funds@, denom@); }
    let mut i: usize = 0;
    while i < funds.len()
        invariant
            i <= funds@.len(),
            forall|j: int| 0 <= j < i ==> !((#[trigger] funds@[j]).denom@ == denom@ && funds@[j].amount > 0),
            payment_index(funds@, denom@) matches Some(k) ==> 0 <= k < funds@.len() && funds@[k].denom@ == denom@ && funds@[k].amount > 0
                && forall|j: int| 0 <= j < k ==> !((#[trigger] funds@[j]).denom@ == denom@ && funds@[j].amount > 0),
            payment_index(funds@, denom@) is None ==> forall|j: int| 0 <= j < funds@.len() ==> !((#[trigger] funds@[j]).denom@ == denom@ && funds@[j].amount > 0),
        decreases funds.len() - i,
    {
        if funds[i].denom == *denom && funds[i].amount > 0 {
            proof {
                match payment_index(funds@, denom@) {
                    Some(k) => {
                        if k < i as int {
                            assert(!(funds@[k].denom@ == denom@ && funds@[k].amount > 0));
                        }
                        if k > i as int {
                            assert(!(funds@[i as int].denom@ == denom@ && funds@[i as int].amount > 0));
                        }
                    },
                    None => {},
                }
            }
            return Some(i);
        }
        i = i + 1;
    }
    None
}

/// The message of a bid that pays nothing in the auction's denomination.
pub open spec fn no_payment_msg(denom: Seq<char>) -> Seq<char> {
    "No "@ + denom + " assets are provided to auction"@
}

/// `PlaceBid` on the latest auction of a token. `auction` is that auction (if
/// any), `bids` its bids, `token_owner` the token's current owner.
pub fn execute_place_bid(
    token_id: &String,
    auction: Option<TokenAuctionState>,
    bids: Vec<Bid>,
    sender: &String,
    funds: &Vec<Coin>,
    token_owner: &String,
    now: u64,
) -> (r: Result<(TokenAuctionState, Vec<Bid>, Vec<Attribute>), ContractError>)
    ensures
        funds@.len() > 1 ==> r == Err::<(TokenAuctionState, Vec<Bid>, Vec<Attribute>), ContractError>(ContractError::MoreThanOneCoinSent),
        funds@.len() <= 1 && auction is None ==> r == Err::<(TokenAuctionState, Vec<Bid>, Vec<Attribute>), ContractError>(ContractError::AuctionDoesNotExist),
        funds@.len() <= 1 ==> (auction matches Some(a) ==> {
            if a.high_bidder_addr@ == sender@ {
                r == Err::<(TokenAuctionState, Vec<Bid>, Vec<Attribute>), ContractError>(ContractError::HighestBidderCannotOutBid)
            } else if now < a.start_time {
                r == Err::<(TokenAuctionState, Vec<Bid>, Vec<Attribute>), ContractError>(ContractError::AuctionNotStarted)
            } else if now >= a.end_time {
                r == Err::<(TokenAuctionState, Vec<Bid>, Vec<Attribute>), ContractError>(ContractError::AuctionEnded)
            } else {
                match payment_index(funds@, a.coin_denom@) {
                    None => r matches Err(ContractError::Std { msg }) && msg@ == no_payment_msg(a.coin_denom@),
                    Some(p) => {
                        let amount = spec_new_bid_amount(bids@, sender@, funds@[p].amount);
                        if amount > u128::MAX {
                            r == Err::<(TokenAuctionState, Vec<Bid>, Vec<Attribute>), ContractError>(ContractError::Overflow)
                        } else if a.high_bidder_amount >= amount {
                            r == Err::<(TokenAuctionState, Vec<Bid>, Vec<Attribute>), ContractError>(ContractError::BidSmallerThanHighestBid)
                        } else if token_owner@ == sender@ {
                            r == Err::<(TokenAuctionState, Vec<Bid>, Vec<Attribute>), ContractError>(ContractError::TokenOwnerCannotBid)
                        } else {
                            r matches Ok((a2, bids2, attrs)) && {
                                &&& a2.high_bidder_addr@ == sender@
                                &&& a2.high_bidder_amount == amount
                                &&& a2.start_time == a.start_time && a2.end_time == a.end_time
                                &&& a2.coin_denom == a.coin_denom && a2.auction_id == a.auction_id
                                &&& a2.reward_claimed == a.reward_claimed
                                &&& bids2@.len() == bids@.len() + 1
                                &&& bids2@.drop_last() == bids@
                                &&& bids2@.last().bidder@ == sender@ && bids2@.last().amount == amount
                                &&& attrs_are(attrs@, seq![
                                    ("action"@, "bid"@),
                                    ("token_id"@, token_id@),
                                    ("bider"@, sender@),
                                    ("amount"@, decimal(funds@[p].amount as nat)),
                                ])
                            }
                        }
                    },
                }
            }
        }),
        r matches Ok((a2, _, _)) ==> (auction matches Some(a) && a2.high_bidder_amount > a.high_bidder_amount),
{
    if funds.len() > 1 {
        return Err(ContractError::MoreThanOneCoinSent);
    }
    let mut a = match auction {
        Some(a) => a,
        None => return Err(ContractError::AuctionDoesNotExist),
    };
    if a.high_bidder_addr == *sender {
        return Err(ContractError::HighestBidderCannotOutBid);
    }
    if now < a.start_time {
        return Err(ContractError::AuctionNotStarted);
    }
    if now >= a.end_time {
        return Err(ContractError::AuctionEnded);
    }
    let p = match find_payment(funds, &a.coin_denom) {
        Some(p) => p,
        None => {
            let mut msg = String::from_str("No ");
            msg.append(a.coin_denom.as_str());
            msg.append(" assets are provided to auction");
            return Err(ContractError::Std { msg });
        },
    };
    let payment = funds[p].amount;
    let existing: u128 = match find_first_bid(&bids, sender) {
        Some(i) => bids[i].amount,
        None => 0,
    };
    let amount = match existing.checked_add(payment) {
        Some(v) => v,
        None => return Err(ContractError::Overflow),
    };
    if a.high_bidder_amount >= amount {
        return Err(ContractError::BidSmallerThanHighestBid);
    }
    if *token_owner == *sender {
        return Err(ContractError::TokenOwnerCannotBid);
    }
    a.high_bidder_addr = sender.clone();
    a.high_bidder_amount = amount;
    let mut bids = bids;
    let ghost b0 = bids@;
    bids.push(Bid { bidder: sender.clone(), amount });
    proof {
        assert(bids@.drop_last() =~= b0);
    }
    let attrs = vec![
        attr("action", "bid".to_owned()),
        attr("token_id", token_id.clone()),
        attr("bider", sender.clone()),
        attr("amount", decimal_string(payment)),
    ];
    Ok((a, bids, attrs))
}

/// The attributes of a claimed reward.
pub open spec fn claim_reward_attrs(a: TokenAuctionState, token_id: Seq<char>, token_addr: Seq<char>) -> Seq<(Seq<char>, Seq<char>)> {
    seq![
        ("action"@, "claim_reward"@),
        ("token_id"@, token_id),
        ("token_contract"@, token_addr),
        ("recipient"@, a.high_bidder_addr@),
        ("winning_bid_amount"@, decimal(a.high_bidder_amount as nat)),
        ("auction_id"@, decimal(a.auction_id as nat)),
    ]
}

/// `ClaimReward`: after the end, hands the token to the winner and the winning
/// bid (after tax: `net_amount`) to the token contract's transfer agreement.
/// Returns the auction marked claimed and the two messages: the transfer
/// agreement with this contract (`contract_address`) as purchaser, then the
/// transfer to the winner carrying the funds.
pub fn execute_claim_reward(
    auction: Option<TokenAuctionState>,
    token_addr: &String,
    token_id: &String,
    contract_address: &String,
    net_amount: u128,
    now: u64,
) -> (r: Result<(TokenAuctionState, Vec<CosmosMsg>, Vec<Attribute>), ContractError>)
    ensures
        auction is None ==> r == Err::<(TokenAuctionState, Vec<CosmosMsg>, Vec<Attribute>), ContractError>(ContractError::AuctionDoesNotExist),
        auction matches Some(a) ==> {
            if a.reward_claimed {
                r == Err::<(TokenAuctionState, Vec<CosmosMsg>, Vec<Attribute>), ContractError>(ContractError::AuctionRewardAlreadyClaimed)
            } else if now <= a.end_time {
                r == Err::<(TokenAuctionState, Vec<CosmosMsg>, Vec<Attribute>), ContractError>(ContractError::AuctionNotEnded)
            } else {
                r matches Ok((a2, msgs, attrs)) && {
                    &&& a2 == TokenAuctionState { reward_claimed: true, ..a }
                    &&& msgs@.len() == 2
                    &&& msgs@[0] matches CosmosMsg::Execute { contract, action: ExecAction::TransferAgreement { token_id: t, denom, purchaser, amount }, funds }
                        && contract@ == token_addr@ && t@ == token_id@ && denom@ == a.coin_denom@
                        && purchaser@ == contract_address@ && amount == net_amount && funds@.len() == 0
                    &&& msgs@[1] matches CosmosMsg::Execute { contract, action: ExecAction::TransferNft { recipient, token_id: t }, funds }
                        && contract@ == token_addr@ && recipient@ == a.high_bidder_addr@ && t@ == token_id@
                        && funds@.len() == 1 && funds@[0].denom@ == a.coin_denom@ && funds@[0].amount == net_amount
                    &&& attrs_are(attrs@, claim_reward_attrs(a, token_id@, token_addr@))
                }
            }
        },
{
    let mut a = match auction {
        Some(a) => a,
        None => return Err(ContractError::AuctionDoesNotExist),
    };
    if a.reward_claimed {
        return Err(ContractError::AuctionRewardAlreadyClaimed);
    }
    if now <= a.end_time {
        return Err(ContractError::AuctionNotEnded);
    }
    let agreement = CosmosMsg::Execute {
        contract: token_addr.clone(),
        action: ExecAction::TransferAgreement {
            token_id: token_id.clone(),
            denom: a.coin_denom.clone(),
            purchaser: contract_address.clone(),
            amount: net_amount,
        },
        funds: Vec::new(),
    };
    let transfer = CosmosMsg::Execute {
        contract: token_addr.clone(),
        action: ExecAction::TransferNft { recipient: a.high_bidder_addr.clone(), token_id: token_id.clone() },
        funds: vec![Coin { denom: a.coin_denom.clone(), amount: net_amount }],
    };
    let attrs = vec![
        attr("action", "claim_reward".to_owned()),
        attr("token_id", token_id.clone()),
        attr("token_contract", token_addr.clone()),
        attr("recipient", a.high_bidder_addr.clone()),
        attr("winning_bid_amount", decimal_string(a.high_bidder_amount)),
        attr("auction_id", decimal_string(a.auction_id)),
    ];
    a.reward_claimed = true;
    Ok((a, vec![agreement, transfer], attrs))
}

/// Which auction id a new auction of a token takes.
#[derive(Clone, Copy, Debug, PartialEq, Eq, Structural)]
pub enum AuctionIdChoice {
    /// The latest auction has not started yet and is replaced.
    Replace(u128),
    /// A fresh id, taken from the counter.
    Fresh(u128),
}

/// `StartAuction`: the token's owner schedules an auction from `start_time` to
/// `end_time` in `coin_denom`. `latest` is the token's latest auction, if any;
/// `next_auction_id` the id counter. A latest auction that has not started yet
/// is replaced; otherwise its reward must have been claimed and a fresh id is
/// taken. Returns the id choice, the new counter and the new auction (with no bids).
pub fn execute_start_auction(
    token_owner: &String,
    sender: &String,
    start_time: u64,
    end_time: u64,
    coin_denom: String,
    latest: Option<TokenAuctionState>,
    next_auction_id: u128,
    now: u64,
) -> (r: Result<(AuctionIdChoice, u128, TokenAuctionState, Vec<Attribute>), ContractError>)
    ensures
        token_owner@ != sender@ ==> r == Err::<(AuctionIdChoice, u128, TokenAuctionState, Vec<Attribute>), ContractError>(ContractError::Unauthorized),
        token_owner@ == sender@ && start_time >= end_time
            ==> r == Err::<(AuctionIdChoice, u128, TokenAuctionState, Vec<Attribute>), ContractError>(ContractError::StartTimeAfterEndTime),
        token_owner@ == sender@ && start_time < end_time && start_time <= now
            ==> r == Err::<(AuctionIdChoice, u128, TokenAuctionState, Vec<Attribute>), ContractError>(ContractError::StartTimeInThePast),
        token_owner@ == sender@ && start_time < end_time && start_time > now ==> {
            let fresh = latest is None || (latest matches Some(l) && now >= l.start_time);
            if latest matches Some(l) && now >= l.start_time && !l.reward_claimed {
                r == Err::<(AuctionIdChoice, u128, TokenAuctionState, Vec<Attribute>), ContractError>(ContractError::AuctionNotEnded)
            } else if fresh && next_auction_id == u128::MAX {
                r == Err::<(AuctionIdChoice, u128, TokenAuctionState, Vec<Attribute>), ContractError>(ContractError::Overflow)
            } else {
                let id = if fresh { next_auction_id } else { latest->0.auction_id };
                r matches Ok((choice, next, a, attrs)) && {
                    &&& choice == (if fresh { AuctionIdChoice::Fresh(id) } else { AuctionIdChoice::Replace(id) })
                    &&& next == (if fresh { (next_auction_id + 1) as u128 } else { next_auction_id })
                    &&& a == TokenAuctionState {
                        start_time,
                        end_time,
                        high_bidder_addr: a.high_bidder_addr,
                        high_bidder_amount: 0,
                        coin_denom,
                        auction_id: id,
                        reward_claimed: false,
                    }
                    &&& a.high_bidder_addr@ == Seq::<char>::empty()
                    &&& attrs_are(attrs@, seq![
                        ("action"@, "start_auction"@),
                        ("start_time"@, decimal(start_time as nat)),
                        ("end_time"@, decimal(end_time as nat)),
                    ])
                }
            }
        },
{
    if *token_owner != *sender {
        return Err(ContractError::Unauthorized);
    }
    if start_time >= end_time {
        return Err(ContractError::StartTimeAfterEndTime);
    }
    if start_time <= now {
        return Err(ContractError::StartTimeInThePast);
    }
    let choice = match latest {
        Some(l) => {
            if now < l.start_time {
                AuctionIdChoice::Replace(l.auction_id)
            } else {
                if !l.reward_claimed {
                    return Err(ContractError::AuctionNotEnded);
                }
                AuctionIdChoice::Fresh(next_auction_id)
            }
        },
        None => AuctionIdChoice::Fresh(next_auction_id),
    };
    let (id, next) = match choice {
        AuctionIdChoice::Replace(id) => (id, next_auction_id),
        AuctionIdChoice::Fresh(id) => {
            if next_auction_id == u128::MAX {
                return Err(ContractError::Overflow);
            }
            (id, next_auction_id + 1)
        },
    };
    let a = TokenAuctionState {
        start_time,
        end_time,
        high_bidder_addr: String::new(),
        high_bidder_amount: 0,
        coin_denom,
        auction_id: id,
        reward_claimed: false,
    };
    let attrs = vec![
        attr("action", "start_auction".to_owned()),
        attr("start_time", decimal_string(start_time as u128)),
        attr("end_time", decimal_string(end_time as u128)),
    ];
    Ok((choice, next, a, attrs))
}

/// `Withdraw`: after the start, a bidder that is not the highest bidder gets
/// its last bid back (after tax: `net_amount`). The bids are left as they are.
pub fn execute_withdraw(
    auction: &TokenAuctionState,
    bids: &Vec<Bid>,
    sender: &String,
    now: u64,
) -> (r: Result<u128, ContractError>)
    ensures
        now <= auction.start_time ==> r == Err::<u128, ContractError>(ContractError::AuctionNotStarted),
        now > auction.start_time && sender@ == auction.high_bidder_addr@
            ==> r == Err::<u128, ContractError>(ContractError::CannotWithdrawHighestBid),
        now > auction.start_time && sender@ != auction.high_bidder_addr@ ==> {
            if last_bid_amount(bids@, sender@) == 0 {
                r == Err::<u128, ContractError>(ContractError::WithdrawalIsEmpty)
            } else {
                r == Ok::<u128, ContractError>(last_bid_amount(bids@, sender@))
            }
        },
{
    if now <= auction.start_time {
        return Err(ContractError::AuctionNotStarted);
    }
    if *sender == auction.high_bidder_addr {
        return Err(ContractError::CannotWithdrawHighestBid);
    }
    let amount = find_last_bid_amount(bids, sender);
    if amount == 0 {
        return Err(ContractError::WithdrawalIsEmpty);
    }
    Ok(amount)
}

/// The message refunding a withdrawal of `withdraw_amount`: the amount after
/// tax (`net_amount`), in the auction's denomination; with the response's
/// attributes.
pub fn withdraw_message(auction: &TokenAuctionState, sender: &String, withdraw_amount: u128, net_amount: u128) -> (r: (CosmosMsg, Vec<Attribute>))
    ensures
        r.0 matches CosmosMsg::BankSend { to_address, amount } && to_address@ == sender@ && amount@.len() == 1
            && amount@[0].denom@ == auction.coin_denom@ && amount@[0].amount == net_amount,
        attrs_are(r.1@, seq![
            ("action"@, "withdraw"@),
            ("auction_id"@, decimal(auction.auction_id as nat)),
            ("receiver"@, sender@),
            ("withdraw_amount"@, decimal(withdraw_amount as nat)),
        ]),
{
    let msg = CosmosMsg::BankSend {
        to_address: sender.clone(),
        amount: vec![Coin { denom: auction.coin_denom.clone(), amount: net_amount }],
    };
    let attrs = vec![
        attr("action", "withdraw".to_owned()),
        attr("auction_id", decimal_string(auction.auction_id)),
        attr("receiver", sender.clone()),
        attr("withdraw_amount", decimal_string(withdraw_amount)),
    ];
    (msg, attrs)
}

/// `instantiate`: the auction keeps the token contract's address and starts
/// its auction ids at zero; gives them with the response's attributes.
pub fn instantiate(token_addr: String) -> (r: (String, u128, Vec<Attribute>))
    ensures
        r.0 == token_addr,
        r.1 == 0,
        attrs_are(r.2@, seq![("method"@, "instantiate"@), ("token_addr"@, token_addr@)]),
{
    let attrs = vec![attr("method", "instantiate".to_owned()), attr("token_addr", token_addr.clone())];
    (token_addr, 0, attrs)
}

/// The order in which bids are listed.
#[derive(Clone, Copy, Debug, PartialEq, Eq, Structural)]
pub enum OrderBy {
    Asc,
    Desc,
}

pub const DEFAULT_LIMIT: u64 = 10;
pub const MAX_LIMIT: u64 = 30;

pub open spec fn min_int(a: int, b: int) -> int {
    if a <= b { a } else { b }
}

/// The page of bids after position `start_after` (from the start for `None`):
/// at most `limit` bids (10 by default, at most 30), in order, or counted from
/// the end and reversed for `Desc`.
pub open spec fn spec_read_bids(bids: Seq<Bid>, start_after: Option<u64>, limit: Option<u64>, order_by: Option<OrderBy>) -> Seq<Bid> {
    let lim = min_int(match limit { Some(l) => l as int, None => 10 }, 30);
    let start = match start_after { Some(x) => x + 1, None => 0 };
    let n = bids.len() as int;
    match order_by {
        Some(OrderBy::Desc) => bids.subrange(n - min_int(n, start + lim), n - min_int(start, n)).reverse(),
        _ => bids.subrange(min_int(n, start), min_int(start + lim, n)),
    }
}

/// `read_bids`: a page of an auction's bids.
pub fn read_bids(bids: &Vec<Bid>, start_after: Option<u64>, limit: Option<u64>, order_by: Option<OrderBy>) -> (r: Vec<Bid>)
    ensures
        r@ == spec_read_bids(bids@, start_after, limit, order_by),
        r@.len() <= MAX_LIMIT,
{
    let lim: u64 = match limit {
        Some(l) => if l < MAX_LIMIT { l } else { MAX_LIMIT },
        None => DEFAULT_LIMIT,
    };
    let start: u128 = match start_after {
        Some(x) => x as u128 + 1,
        None => 0,
    };
    let n = bids.len();
    let desc = match order_by {
        Some(OrderBy::Desc) => true,
        _ => false,
    };
    // start is inclusive, end exclusive
    let (lo, hi): (usize, usize) = if desc {
        let a: usize = if start + (lim as u128) < n as u128 { n - ((start + lim as u128) as usize) } else { 0 };
        let b: usize = if start < n as u128 { n - (start as usize) } else { 0 };
        (a, b)
    } else {
        let a: usize = if start < n as u128 { start as usize } else { n };
        let b: usize = if start + (lim as u128) < n as u128 { (start + lim as u128) as usize } else { n };
        (a, b)
    };
    let mut out: Vec<Bid> = Vec::new();
    if desc {
        let mut i: usize = hi;
        while i > lo
            invariant
                lo <= i <= hi <= n,
                n == bids@.len(),
                out@ == bids@.subrange(i as int, hi as int).reverse(),
            decreases i,
        {
            out.push(bids[i - 1].copy());
            proof {
                assert(bids@.subrange(i - 1, hi as int).reverse() =~= bids@.subrange(i as int, hi as int).reverse().push(bids@[i - 1]));
            }
            i = i - 1;
        }
    } else {
        let mut i: usize = lo;
        while i < hi
            invariant
                lo <= i <= hi <= n,
                n == bids@.len(),
                out@ == bids@.subrange(lo as int, i as int),
            decreases hi - i,
        {
            out.push(bids[i].copy());
            proof {
                assert(bids@.subrange(lo as int, i + 1) =~= bids@.subrange(lo as int, i as int).push(bids@[i as int]));
            }
            i = i + 1;
        }
    }
    out
}

/// How a royalty or tax is computed.
#[derive(Clone, Debug, PartialEq, Eq)]
pub enum Rate {
    /// A flat coin.
    Flat(Coin),
    /// A percentage (0 to 100) of the payment, floored.
    Percent(u128),
}

/// A royalty (deducted from the payment) or a tax (added on top: `is_additive`),
/// paid to each of the receivers.
#[derive(Clone, Debug, PartialEq, Eq)]
pub struct RateInfo {
    pub rate: Rate,
    pub is_additive: bool,
    pub receivers: Vec<String>,
    /// What the rate is for, shown in its event.
    pub description: Option<String>,
}

/// An attribute of a rate's event.
#[derive(Clone, Debug, PartialEq, Eq)]
pub enum EventAttribute {
    /// A plain attribute.
    Attr(Attribute),
    /// The payment of `amount` to `receiver`; its text is that of the rates
    /// module's payment attribute.
    Payment { receiver: String, amount: Coin },
}

/// The event of one rate applied to a payment: `royalty` or `tax`.
#[derive(Clone, Debug, PartialEq, Eq)]
pub struct Event {
    pub kind: String,
    pub attributes: Vec<EventAttribute>,
}

/// The fee a rate takes from `payment`, as a coin (see `spec_fee`).
pub open spec fn spec_fee_coin(rate: Rate, payment: Coin) -> Coin {
    match rate {
        Rate::Flat(c) => c,
        Rate::Percent(p) => Coin { denom: payment.denom, amount: (payment.amount * p / 100) as u128 },
    }
}

/// Whether `attrs` are the attributes of the event of `info` charging `fee`,
/// up to its first `j` receivers: the description if any, then for each
/// receiver the deducted fee (royalties only) and the payment to it.
pub open spec fn rate_event_attrs(attrs: Seq<EventAttribute>, info: RateInfo, fee: Coin, j: int) -> bool {
    let d: int = if info.description is Some { 1 } else { 0 };
    &&& attrs.len() == d + (if info.is_additive { 1int } else { 2int }) * j
    &&& (info.description matches Some(desc) ==> (attrs[0] matches EventAttribute::Attr(a) && attr_is(a, "description"@, desc@)))
    &&& forall|r: int| #![trigger info.receivers@[r]] 0 <= r < j ==> {
        &&& info.is_additive ==> attrs[d + r] == EventAttribute::Payment { receiver: info.receivers@[r], amount: fee }
        &&& !info.is_additive ==> (attrs[d + 2 * r] matches EventAttribute::Attr(a) && attr_is(a, "deducted"@, coin_text(fee)))
            && attrs[d + 2 * r + 1] == EventAttribute::Payment { receiver: info.receivers@[r], amount: fee }
    }
}

/// Whether `ev` is the event of `info` charging `fee`: of kind `tax` for an
/// additive rate, else `royalty`, with the attributes of `rate_event_attrs`
/// for all its receivers.
pub open spec fn is_rate_event(ev: Event, info: RateInfo, fee: Coin) -> bool {
    &&& ev.kind@ == (if info.is_additive { "tax"@ } else { "royalty"@ })
    &&& rate_event_attrs(ev.attributes@, info, fee, info.receivers@.len() as int)
}

/// The fee a rate takes from `payment`: the flat coin, or `percent`% of the
/// payment in its denomination. A percentage above 100 is refused.
pub open spec fn spec_fee(rate: Rate, payment: Coin) -> Result<(Seq<char>, u128), ContractError> {
    match rate {
        Rate::Flat(c) => Ok((c.denom@, c.amount)),
        Rate::Percent(p) => if p > 100 {
            Err(ContractError::InvalidRate)
        } else {
            Ok((payment.denom@, (payment.amount * p / 100) as u128))
        },
    }
}

/// `calculate_fee`.
pub fn calculate_fee(rate: &Rate, payment: &Coin) -> (r: Result<Coin, ContractError>)
    ensures
        match spec_fee(*rate, *payment) {
            Err(e) => r == Err::<Coin, ContractError>(e),
            Ok((d, a)) => r matches Ok(c) && c.denom@ == d && c.amount == a && c == spec_fee_coin(*rate, *payment),
        },
{
    match rate {
        Rate::Flat(c) => Ok(c.copy()),
        Rate::Percent(p) => {
            if *p > 100 {
                return Err(ContractError::InvalidRate);
            }
            proof {
                assert(payment.amount * *p / 100 <= payment.amount) by (nonlinear_arith)
                    requires *p <= 100;
            }
            match checked_ratio_fee(payment.amount, *p) {
                Some(a) => Ok(Coin { denom: payment.denom.clone(), amount: a }),
                None => {
                    proof { assert(false); }
                    Err(ContractError::Overflow)
                },
            }
        },
    }
}

fn checked_ratio_fee(amount: u128, percent: u128) -> (r: Option<u128>)
    ensures
        r == checked_ratio(amount as int, percent as int, 100),
{
    crate::math::multiply_ratio(amount, percent, 100)
}

/// The sum of the additive fees on `payment` (each charged once per receiver):
/// `None` when it is zero.
pub open spec fn spec_additional_fees(payment: Coin, rates: Seq<RateInfo>, i: int) -> Result<u128, ContractError>
    decreases i,
{
    if i <= 0 {
        Ok(0u128)
    } else {
        match spec_additional_fees(payment, rates, i - 1) {
            Err(e) => Err(e),
            Ok(acc) => if !rates[i - 1].is_additive {
                Ok(acc)
            } else {
                match spec_fee(rates[i - 1].rate, payment) {
                    Err(e) => Err(e),
                    Ok((_, fee)) => if fee * rates[i - 1].receivers@.len() > u128::MAX
                        || acc + fee * rates[i - 1].receivers@.len() > u128::MAX {
                        Err(ContractError::Overflow)
                    } else {
                        Ok((acc + fee * rates[i - 1].receivers@.len()) as u128)
                    },
                }
            },
        }
    }
}

proof fn lemma_additional_fees_err(payment: Coin, rates: Seq<RateInfo>, i: int, n: int)
    requires
        0 <= i <= n,
        spec_additional_fees(payment, rates, i) is Err,
    ensures
        spec_additional_fees(payment, rates, n) == spec_additional_fees(payment, rates, i),
    decreases n - i,
{
    if i < n {
        lemma_additional_fees_err(payment, rates, i + 1, n);
    }
}

/// `calculate_additional_fees`: the taxes a payment is charged on top, in the
/// payment's denomination; `None` when there are none.
pub fn calculate_additional_fees(payment: &Coin, rates: &Vec<RateInfo>) -> (r: Result<Option<Coin>, ContractError>)
    ensures
        match spec_additional_fees(*payment, rates@, rates@.len() as int) {
            Err(e) => r == Err::<Option<Coin>, ContractError>(e),
            Ok(total) => if total == 0 {
                r == Ok::<Option<Coin>, ContractError>(None)
            } else {
                r matches Ok(Some(c)) && c.denom@ == payment.denom@ && c.amount == total
            },
        },
{
    let mut total: u128 = 0;
    let mut i: usize = 0;
    while i < rates.len()
        invariant
            i <= rates@.len(),
            spec_additional_fees(*payment, rates@, i as int) == Ok::<u128, ContractError>(total),
        decreases rates.len() - i,
    {
        let info = &rates[i];
        if info.is_additive {
            let fee = match calculate_fee(&info.rate, payment) {
                Ok(f) => f,
                Err(e) => {
                    proof { lemma_additional_fees_err(*payment, rates@, i + 1, rates@.len() as int); }
                    return Err(e);
                },
            };
            let n_receivers = info.receivers.len() as u128;
            let charge = match fee.amount.checked_mul(n_receivers) {
                Some(c) => c,
                None => {
                    proof { lemma_additional_fees_err(*payment, rates@, i + 1, rates@.len() as int); }
                    return Err(ContractError::Overflow);
                },
            };
            total = match total.checked_add(charge) {
                Some(t) => t,
                None => {
                    proof { lemma_additional_fees_err(*payment, rates@, i + 1, rates@.len() as int); }
                    return Err(ContractError::Overflow);
                },
            };
        }
        i = i + 1;
    }
    if total == 0 {
        Ok(None)
    } else {
        Ok(Some(Coin { denom: payment.denom.clone(), amount: total }))
    }
}

/// The leftover of `payment` after the royalties of the first `i` rates: each
/// royalty (non-additive rate) is deducted once per receiver and must be in the
/// payment's denomination and covered by what is left; taxes are not deducted.
pub open spec fn spec_leftover(payment: Coin, rates: Seq<RateInfo>, i: int) -> Result<u128, ContractError>
    decreases i,
{
    if i <= 0 {
        Ok(payment.amount)
    } else {
        match spec_leftover(payment, rates, i - 1) {
            Err(e) => Err(e),
            Ok(left) => match spec_fee(rates[i - 1].rate, payment) {
                Err(e) => Err(e),
                Ok((denom, fee)) => if rates[i - 1].is_additive || rates[i - 1].receivers@.len() == 0 {
                    Ok(left)
                } else if denom != payment.denom@ || fee * rates[i - 1].receivers@.len() > left {
                    Err(ContractError::InsufficientFunds)
                } else {
                    Ok((left - fee * rates[i - 1].receivers@.len()) as u128)
                },
            },
        }
    }
}

/// The payments (receiver, denomination, amount) of the first `i` rates: each
/// receiver of a rate is paid that rate's fee.
pub open spec fn spec_payments(payment: Coin, rates: Seq<RateInfo>, i: int) -> Seq<(Seq<char>, Seq<char>, u128)>
    decreases i,
{
    if i <= 0 {
        Seq::empty()
    } else {
        let fee = match spec_fee(rates[i - 1].rate, payment) { Ok(f) => f, Err(_) => (Seq::empty(), 0u128) };
        spec_payments(payment, rates, i - 1) + rates[i - 1].receivers@.map_values(|r: String| (r@, fee.0, fee.1))
    }
}

proof fn lemma_leftover_err(payment: Coin, rates: Seq<RateInfo>, i: int, n: int)
    requires
        0 <= i <= n,
        spec_leftover(payment, rates, i) is Err,
    ensures
        spec_leftover(payment, rates, n) == spec_leftover(payment, rates, i),
    decreases n - i,
{
    if i < n {
        lemma_leftover_err(payment, rates, i + 1, n);
    }
}

pub open spec fn pays(m: CosmosMsg, p: (Seq<char>, Seq<char>, u128)) -> bool {
    is_bank_send_one(m, p.0, p.1, p.2)
}

/// `calculate_required_payments`: pays every receiver of every rate its fee on
/// `payment` and deducts the royalties from it. Returns the payment messages, in
/// order, and what is left of the payment, after one event per rate.
pub fn calculate_required_payments(payment: &Coin, rates: &Vec<RateInfo>) -> (r: Result<(Vec<Event>, Vec<CosmosMsg>, Coin), ContractError>)
    ensures
        match spec_leftover(*payment, rates@, rates@.len() as int) {
            Err(e) => r == Err::<(Vec<Event>, Vec<CosmosMsg>, Coin), ContractError>(e),
            Ok(left) => r matches Ok((events, msgs, c)) && {
                let ps = spec_payments(*payment, rates@, rates@.len() as int);
                &&& events@.len() == rates@.len()
                &&& forall|k: int| 0 <= k < rates@.len() ==> is_rate_event(#[trigger] events@[k], rates@[k], spec_fee_coin(rates@[k].rate, *payment))
                &&& c.denom@ == payment.denom@
                &&& c.amount == left
                &&& msgs@.len() == ps.len()
                &&& forall|j: int| 0 <= j < msgs@.len() ==> pays(#[trigger] msgs@[j], ps[j])
            },
        },
{
    let mut events: Vec<Event> = Vec::new();
    let mut msgs: Vec<CosmosMsg> = Vec::new();
    let mut left: u128 = payment.amount;
    let mut i: usize = 0;
    while i < rates.len()
        invariant
            i <= rates@.len(),
            spec_leftover(*payment, rates@, i as int) == Ok::<u128, ContractError>(left),
            events@.len() == i,
            forall|k: int| 0 <= k < i ==> is_rate_event(#[trigger] events@[k], rates@[k], spec_fee_coin(rates@[k].rate, *payment)),
            msgs@.len() == spec_payments(*payment, rates@, i as int).len(),
            forall|j: int| 0 <= j < msgs@.len() ==> pays(#[trigger] msgs@[j], spec_payments(*payment, rates@, i as int)[j]),
        decreases rates.len() - i,
    {
        let info = &rates[i];
        let fee = match calculate_fee(&info.rate, payment) {
            Ok(f) => f,
            Err(e) => {
                proof { lemma_leftover_err(*payment, rates@, i + 1, rates@.len() as int); }
                return Err(e);
            },
        };
        let ghost before = msgs@;
        let ghost left0 = left;
        let ghost ps_i = spec_payments(*payment, rates@, i as int);
        let n = info.receivers.len();
        let mut attrs: Vec<EventAttribute> = Vec::new();
        if let Some(desc) = &info.description {
            attrs.push(EventAttribute::Attr(attr("description", desc.clone())));
        }
        let ghost d: int = if info.description is Some { 1 } else { 0 };
        let mut j: usize = 0;
        while j < n
            invariant
                j <= n,
                n == info.receivers@.len(),
                info == rates@[i as int],
                i < rates@.len(),
                fee.denom@ == spec_fee(info.rate, *payment)->Ok_0.0,
                fee.amount == spec_fee(info.rate, *payment)->Ok_0.1,
                spec_fee(info.rate, *payment) is Ok,
                fee == spec_fee_coin(info.rate, *payment),
                d == (if info.description is Some { 1int } else { 0int }),
                rate_event_attrs(attrs@, *info, fee, j as int),
                spec_leftover(*payment, rates@, i as int) == Ok::<u128, ContractError>(left0),
                info.is_additive ==> left == left0,
                !info.is_additive ==> left == left0 - fee.amount * j,
                !info.is_additive && j > 0 ==> fee.denom@ == payment.denom@,
                msgs@.len() == before.len() + j,
                forall|k: int| 0 <= k < before.len() ==> msgs@[k] == before[k],
                forall|k: int| 0 <= k < j ==> pays(#[trigger] msgs@[before.len() + k], (info.receivers@[k]@, fee.denom@, fee.amount)),
            decreases n - j,
        {
            if !info.is_additive {
                if fee.denom != payment.denom || left < fee.amount {
                    proof {
                        assert(spec_leftover(*payment, rates@, i + 1) == Err::<u128, ContractError>(ContractError::InsufficientFunds)) by {
                            assert(n > 0);
                            if fee.denom@ == payment.denom@ {
                                assert(left0 - fee.amount * j < fee.amount);
                                assert(fee.amount * n >= fee.amount * j + fee.amount) by (nonlinear_arith)
                                    requires n >= j + 1;
                                assert(fee.amount * n > left0);
                            }
                        }
                        lemma_leftover_err(*payment, rates@, i + 1, rates@.len() as int);
                    }
                    return Err(ContractError::InsufficientFunds);
                }
                proof {
                    assert(fee.amount * (j + 1) == fee.amount * j + fee.amount) by (nonlinear_arith);
                }
                left = left - fee.amount;
            }
            msgs.push(CosmosMsg::BankSend {
                to_address: info.receivers[j].clone(),
                amount: vec![Coin { denom: fee.denom.clone(), amount: fee.amount }],
            });
            let ghost a0 = attrs@;
            if !info.is_additive {
                attrs.push(EventAttribute::Attr(attr("deducted", coin_string(&fee))));
            }
            attrs.push(EventAttribute::Payment { receiver: info.receivers[j].clone(), amount: fee.copy() });
            proof {
                assert forall|r: int| #![trigger info.receivers@[r]] 0 <= r < j + 1 implies {
                    &&& info.is_additive ==> attrs@[d + r] == EventAttribute::Payment { receiver: info.receivers@[r], amount: fee }
                    &&& !info.is_additive ==> (attrs@[d + 2 * r] matches EventAttribute::Attr(a) && attr_is(a, "deducted"@, coin_text(fee)))
                        && attrs@[d + 2 * r + 1] == EventAttribute::Payment { receiver: info.receivers@[r], amount: fee }
                } by {
                    if r < j {
                        if info.is_additive {
                            assert(attrs@[d + r] == a0[d + r]);
                        } else {
                            assert(attrs@[d + 2 * r] == a0[d + 2 * r]);
                            assert(attrs@[d + 2 * r + 1] == a0[d + 2 * r + 1]);
                        }
                    }
                }
                if info.description is Some {
                    assert(attrs@[0] == a0[0]);
                }
            }
            j = j + 1;
        }
        proof {
            let ps = spec_payments(*payment, rates@, i + 1);
            let add = info.receivers@.map_values(|r: String| (r@, fee.denom@, fee.amount));
            assert(ps == ps_i + add);
            assert forall|k: int| 0 <= k < msgs@.len() implies pays(#[trigger] msgs@[k], ps[k]) by {
                if k < before.len() {
                    assert(msgs@[k] == before[k]);
                } else {
                    assert(pays(msgs@[before.len() + (k - before.len())], (info.receivers@[k - before.len()]@, fee.denom@, fee.amount)));
                }
            }
            if !info.is_additive && n > 0 {
                assert(fee.denom@ == payment.denom@);
            }
        }
        let kind = if info.is_additive { "tax".to_owned() } else { "royalty".to_owned() };
        let ghost e0 = events@;
        events.push(Event { kind, attributes: attrs });
        proof {
            assert forall|k: int| 0 <= k < i + 1 implies is_rate_event(#[trigger] events@[k], rates@[k], spec_fee_coin(rates@[k].rate, *payment)) by {
                if k < i {
                    assert(events@[k] == e0[k]);
                }
            }
        }
        i = i + 1;
    }
    Ok((events, msgs, Coin { denom: payment.denom.clone(), amount: left }))
}

} // verus!
