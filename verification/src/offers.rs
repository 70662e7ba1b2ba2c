//! Offers on tokens of a cw721 contract: a buyer escrows an offer (plus the
//! taxes on it) for a token; a higher offer, or any offer once the standing
//! one expired, replaces it and refunds it; the buyer may cancel, and the token
//! contract accepts an offer when the owner sells.
use vstd::prelude::*;
use crate::common::{attr, attrs_are, decimal, decimal_string, Attribute, invalid_funds, is_invalid_funds, BlockInfo, Coin, ContractError, CosmosMsg, Expiration, spec_has_coins, has_coins, is_bank_send_one};
use crate::crowdfund::{bank_sends_nonempty, spec_tax_amount, get_tax_amount};

verus! {

/// A standing offer on a token.
#[derive(Clone, Debug)]
pub struct Offer {
    pub purchaser: String,
    pub denom: String,
    /// The amount offered.
    pub offer_amount: u128,
    /// What the seller gets after royalties.
    pub remaining_amount: u128,
    /// The tax paid on top of the offer.
    pub tax_amount: u128,
    pub expiration: Expiration,
    /// The rate payments made when the offer is accepted.
    pub msgs: Vec<CosmosMsg>,
}

/// The only denomination offers are made in.
pub open spec fn offer_denom() -> Seq<char> {
    "uusd"@
}

/// `Offer::get_full_amount`: the offer with its tax, `None` where that overflows.
pub open spec fn spec_full_amount(offer: Offer) -> Option<u128> {
    if offer.offer_amount + offer.tax_amount > u128::MAX {
        None
    } else {
        Some((offer.offer_amount + offer.tax_amount) as u128)
    }
}

impl Offer {
    /// What the buyer escrowed: the offer with its tax.
    pub fn get_full_amount(&self) -> (r: Result<Coin, ContractError>)
        ensures
            match spec_full_amount(*self) {
                None => r == Err::<Coin, ContractError>(ContractError::Overflow),
                Some(a) => r matches Ok(c) && c.denom@ == self.denom@ && c.amount == a,
            },
    {
        match self.offer_amount.checked_add(self.tax_amount) {
            None => Err(ContractError::Overflow),
            Some(a) => Ok(Coin { denom: self.denom.clone(), amount: a }),
        }
    }
}

/// The first error `execute_place_offer` meets before it looks at the funds, if any.
pub open spec fn spec_offer_precheck(
    sender: Seq<char>,
    block: BlockInfo,
    expiration: Expiration,
    token_owner: Seq<char>,
    token_archived: bool,
) -> Option<ContractError> {
    if sender == token_owner {
        Some(ContractError::TokenOwnerCannotBid)
    } else if expiration.spec_is_expired(block) {
        Some(ContractError::Expired)
    } else if token_archived {
        Some(ContractError::TokenIsArchived)
    } else {
        None
    }
}

/// The first error `execute_place_offer` meets once the funds are one coin
/// of uusd, if any.
pub open spec fn spec_offer_postcheck(
    sender: Seq<char>,
    block: BlockInfo,
    offer_amount: u128,
    current_offer: Option<Offer>,
    funds: Seq<Coin>,
    transfer: Result<(Vec<CosmosMsg>, Coin), ContractError>,
) -> Option<ContractError> {
    if current_offer matches Some(c) && c.purchaser@ == sender {
        Some(ContractError::OfferAlreadyPlaced)
    } else if current_offer matches Some(c) && !c.expiration.spec_is_expired(block) && c.offer_amount >= offer_amount {
        Some(ContractError::OfferLowerThanCurrent)
    } else if current_offer matches Some(c) && spec_full_amount(c) is None {
        Some(ContractError::Overflow)
    } else {
        match transfer {
            Err(e) => Some(e),
            Ok((msgs, remainder)) => match spec_tax_amount(msgs@, offer_amount, remainder.amount) {
                Err(e) => Some(e),
                Ok(tax) => if offer_amount + tax > u128::MAX {
                    Some(ContractError::Overflow)
                } else if !spec_has_coins(funds, Coin { denom: funds[0].denom, amount: (offer_amount + tax) as u128 }) {
                    Some(ContractError::InsufficientFunds)
                } else {
                    None
                },
            },
        }
    }
}

/// `execute_place_offer`: `sender` offers `offer_amount` for a token until
/// `expiration`. `current_offer` is the standing offer, `token_owner` and
/// `token_archived` what the token contract answered about the token, and
/// `transfer` what the token's rates make of a payment of the offer (their
/// payments and what is left). Gives the offer to store and the refund of the
/// offer it replaces, if any.
pub fn execute_place_offer(
    token_id: &String,
    sender: &String,
    block: &BlockInfo,
    offer_amount: u128,
    expiration: Expiration,
    current_offer: Option<Offer>,
    token_owner: &String,
    token_archived: bool,
    funds: &Vec<Coin>,
    transfer: Result<(Vec<CosmosMsg>, Coin), ContractError>,
) -> (r: Result<(Offer, Vec<CosmosMsg>, Vec<Attribute>), ContractError>)
    requires
        transfer matches Ok((msgs, _)) ==> bank_sends_nonempty(msgs@),
    ensures
        match spec_offer_precheck(sender@, *block, expiration, token_owner@, token_archived) {
            Some(e) => r == Err::<(Offer, Vec<CosmosMsg>, Vec<Attribute>), ContractError>(e),
            None => if funds@.len() != 1 {
                is_invalid_funds(r, "Must send one type of funds"@)
            } else if funds@[0].denom@ != offer_denom() {
                is_invalid_funds(r, "Only offers in uusd are allowed"@)
            } else {
              match spec_offer_postcheck(sender@, *block, offer_amount, current_offer, funds@, transfer) {
              Some(e) => r == Err::<(Offer, Vec<CosmosMsg>, Vec<Attribute>), ContractError>(e),
              None => r matches Ok((offer, msgs, attrs)) && {
                let remainder = transfer->Ok_0.1;
                let rate_msgs = transfer->Ok_0.0;
                &&& offer.purchaser@ == sender@
                &&& offer.denom@ == funds[0].denom@
                &&& offer.offer_amount == offer_amount
                &&& offer.remaining_amount == remainder.amount
                &&& offer.tax_amount == spec_tax_amount(rate_msgs@, offer_amount, remainder.amount)->Ok_0
                &&& offer.expiration == expiration
                &&& offer.msgs == rate_msgs
                &&& attrs_are(attrs@, seq![
                    ("action"@, "place_offer"@),
                    ("purchaser"@, sender@),
                    ("offer_amount"@, decimal(offer_amount as nat)),
                    ("token_id"@, token_id@),
                ])
                &&& match current_offer {
                    None => msgs@.len() == 0,
                    Some(c) => msgs@.len() == 1 && is_bank_send_one(msgs@[0], c.purchaser@, c.denom@, spec_full_amount(c)->0),
                }
              },
              }
            },
        },
{
    if *sender == *token_owner {
        return Err(ContractError::TokenOwnerCannotBid);
    }
    if expiration.is_expired(block) {
        return Err(ContractError::Expired);
    }
    if token_archived {
        return Err(ContractError::TokenIsArchived);
    }
    if funds.len() != 1 {
        return Err(invalid_funds("Must send one type of funds"));
    }
    let denom = funds[0].denom.clone();
    if denom != "uusd".to_owned() {
        return Err(invalid_funds("Only offers in uusd are allowed"));
    }
    let mut msgs: Vec<CosmosMsg> = Vec::new();
    if let Some(current) = &current_offer {
        if current.purchaser == *sender {
            return Err(ContractError::OfferAlreadyPlaced);
        }
        if !(current.expiration.is_expired(block) || current.offer_amount < offer_amount) {
            return Err(ContractError::OfferLowerThanCurrent);
        }
        let refund = match current.get_full_amount() {
            Ok(c) => c,
            Err(e) => return Err(e),
        };
        msgs.push(CosmosMsg::BankSend { to_address: current.purchaser.clone(), amount: vec![refund] });
    }
    let (rate_msgs, remainder) = match transfer {
        Err(e) => return Err(e),
        Ok(t) => t,
    };
    let tax_amount = match get_tax_amount(&rate_msgs, offer_amount, remainder.amount) {
        Ok(t) => t,
        Err(e) => return Err(e),
    };
    let full = match offer_amount.checked_add(tax_amount) {
        Some(a) => a,
        None => return Err(ContractError::Overflow),
    };
    if !has_coins(funds, &Coin { denom: denom.clone(), amount: full }) {
        return Err(ContractError::InsufficientFunds);
    }
    let offer = Offer {
        purchaser: sender.clone(),
        denom,
        offer_amount,
        remaining_amount: remainder.amount,
        tax_amount,
        expiration,
        msgs: rate_msgs,
    };
    let attrs = vec![
        attr("action", "place_offer".to_owned()),
        attr("purchaser", sender.clone()),
        attr("offer_amount", decimal_string(offer_amount)),
        attr("token_id", token_id.clone()),
    ];
    Ok((offer, msgs, attrs))
}

/// `execute_cancel_offer`: the buyer withdraws their offer and gets back what
/// they escrowed.
pub fn execute_cancel_offer(token_id: &String, sender: &String, offer: Option<&Offer>) -> (r: Result<(CosmosMsg, Vec<Attribute>), ContractError>)
    ensures
        match offer {
            None => r == Err::<(CosmosMsg, Vec<Attribute>), ContractError>(ContractError::NotFound),
            Some(o) => if sender@ != o.purchaser@ {
                r == Err::<(CosmosMsg, Vec<Attribute>), ContractError>(ContractError::Unauthorized)
            } else {
                match spec_full_amount(*o) {
                    None => r == Err::<(CosmosMsg, Vec<Attribute>), ContractError>(ContractError::Overflow),
                    Some(a) => r matches Ok((m, attrs)) && is_bank_send_one(m, sender@, o.denom@, a)
                        && attrs_are(attrs@, seq![("action"@, "cancel_offer"@), ("token_id"@, token_id@)]),
                }
            },
        },
{
    let o = match offer {
        None => return Err(ContractError::NotFound),
        Some(o) => o,
    };
    if *sender != o.purchaser {
        return Err(ContractError::Unauthorized);
    }
    let full = match o.get_full_amount() {
        Ok(c) => c,
        Err(e) => return Err(e),
    };
    let attrs = vec![attr("action", "cancel_offer".to_owned()), attr("token_id", token_id.clone())];
    Ok((CosmosMsg::BankSend { to_address: sender.clone(), amount: vec![full] }, attrs))
}

/// `execute_accept_offer`: the token contract accepts the standing offer for
/// `token_owner`'s token: the rate payments go out, then the seller is paid
/// what is left of the offer.
pub fn execute_accept_offer(
    token_id: &String,
    sender: &String,
    block: &BlockInfo,
    offer: Option<Offer>,
    cw721_contract: &String,
    token_owner: String,
) -> (r: Result<(Vec<CosmosMsg>, Vec<Attribute>), ContractError>)
    ensures
        match offer {
            None => r == Err::<(Vec<CosmosMsg>, Vec<Attribute>), ContractError>(ContractError::NotFound),
            Some(o) => if o.expiration.spec_is_expired(*block) {
                r == Err::<(Vec<CosmosMsg>, Vec<Attribute>), ContractError>(ContractError::Expired)
            } else if sender@ != cw721_contract@ {
                r == Err::<(Vec<CosmosMsg>, Vec<Attribute>), ContractError>(ContractError::Unauthorized)
            } else {
                r matches Ok((msgs, attrs)) && attrs_are(attrs@, seq![("action"@, "accept_offer"@), ("token_id"@, token_id@)])
                    && msgs@.len() == o.msgs@.len() + 1
                    && msgs@.take(o.msgs@.len() as int) == o.msgs@
                    && is_bank_send_one(msgs@[o.msgs@.len() as int], token_owner@, o.denom@, o.remaining_amount)
            },
        },
{
    let o = match offer {
        None => return Err(ContractError::NotFound),
        Some(o) => o,
    };
    if o.expiration.is_expired(block) {
        return Err(ContractError::Expired);
    }
    if *sender != *cw721_contract {
        return Err(ContractError::Unauthorized);
    }
    let Offer { denom, remaining_amount, msgs, .. } = o;
    let ghost m0 = msgs@;
    let mut out = msgs;
    out.push(CosmosMsg::BankSend { to_address: token_owner, amount: vec![Coin { denom, amount: remaining_amount }] });
    proof { assert(out@.take(m0.len() as int) =~= m0); }
    let attrs = vec![attr("action", "accept_offer".to_owned()), attr("token_id", token_id.clone())];
    Ok((out, attrs))
}

} // verus!
