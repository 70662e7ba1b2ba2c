//! The Andromeda NFT contract's own rules on top of cw721: archived tokens are
//! frozen, a token may carry a transfer agreement (a price and a buyer, who may
//! then take the token by paying the price with its taxes), and only the owner
//! edits a token.
use vstd::prelude::*;
use crate::common::{attr, attrs_are, Attribute, BlockInfo, Coin, ContractError, CosmosMsg, Expiration, spec_has_coins, has_coins, is_bank_send_one};
use crate::auction::Event;
use crate::crowdfund::{bank_sends_nonempty, spec_tax_amount, get_tax_amount};

verus! {

/// A sale agreed by the owner: the buyer takes the token by paying `amount`.
#[derive(Clone, Debug, PartialEq, Eq)]
pub struct TransferAgreement {
    pub amount: Coin,
    pub purchaser: String,
}

/// The Andromeda part of a token.
#[derive(Clone, Debug, PartialEq, Eq)]
pub struct TokenExtension {
    pub archived: bool,
    pub transfer_agreement: Option<TransferAgreement>,
    pub pricing: Option<Coin>,
}

/// Someone allowed to send a token, until an expiration.
#[derive(Clone, Debug, PartialEq, Eq)]
pub struct Approval {
    pub spender: String,
    pub expires: Expiration,
}

/// A token.
#[derive(Clone, Debug, PartialEq, Eq)]
pub struct NftToken {
    pub owner: String,
    pub approvals: Vec<Approval>,
    pub token_uri: Option<String>,
    pub extension: TokenExtension,
}

/// `is_token_archived`: the token must exist and not be archived.
pub fn is_token_archived(token: Option<&NftToken>) -> (r: Result<(), ContractError>)
    ensures
        match token {
            None => r == Err::<(), ContractError>(ContractError::NotFound),
            Some(t) => if t.extension.archived {
                r == Err::<(), ContractError>(ContractError::TokenIsArchived)
            } else {
                r is Ok
            },
        },
{
    match token {
        None => Err(ContractError::NotFound),
        Some(t) => if t.extension.archived {
            Err(ContractError::TokenIsArchived)
        } else {
            Ok(())
        },
    }
}

/// Some approval of `spender` has not expired.
pub open spec fn has_live_approval(approvals: Seq<Approval>, spender: Seq<char>, block: BlockInfo) -> bool {
    exists|i: int| 0 <= i < approvals.len() && (#[trigger] approvals[i]).spender@ == spender && !approvals[i].expires.spec_is_expired(block)
}

/// The outcome of `check_can_send`.
pub open spec fn spec_can_send(
    token: NftToken,
    sender: Seq<char>,
    funds: Seq<Coin>,
    block: BlockInfo,
    tax_amount: u128,
    operator: Option<Expiration>,
) -> Result<(), ContractError> {
    if token.extension.archived {
        Err(ContractError::TokenIsArchived)
    } else if token.owner@ == sender {
        Ok(())
    } else {
        let agreement_check: Option<Result<(), ContractError>> = match token.extension.transfer_agreement {
            None => None,
            Some(a) => if a.amount.amount + tax_amount > u128::MAX {
                Some(Err(ContractError::Overflow))
            } else if !spec_has_coins(funds, Coin { denom: a.amount.denom, amount: (a.amount.amount + tax_amount) as u128 }) {
                Some(Err(ContractError::InsufficientFunds))
            } else if a.purchaser@ == sender {
                Some(Ok(()))
            } else {
                None
            },
        };
        match agreement_check {
            Some(res) => res,
            None => if has_live_approval(token.approvals@, sender, block) {
                Ok(())
            } else {
                match operator {
                    Some(ex) => if ex.spec_is_expired(block) { Err(ContractError::Unauthorized) } else { Ok(()) },
                    None => Err(ContractError::Unauthorized),
                }
            },
        }
    }
}

/// `check_can_send`: who may move a token: its owner; its agreed buyer, who
/// must have sent the agreed price plus `tax_amount`; a holder of an unexpired
/// approval; or an unexpired operator of the owner (`operator`).
pub fn check_can_send(
    token: &NftToken,
    sender: &String,
    funds: &Vec<Coin>,
    block: &BlockInfo,
    tax_amount: u128,
    operator: Option<Expiration>,
) -> (r: Result<(), ContractError>)
    ensures
        r == spec_can_send(*token, sender@, funds@, *block, tax_amount, operator),
{
    if token.extension.archived {
        return Err(ContractError::TokenIsArchived);
    }
    if token.owner == *sender {
        return Ok(());
    }
    if let Some(agreement) = &token.extension.transfer_agreement {
        let required = match agreement.amount.amount.checked_add(tax_amount) {
            Some(a) => a,
            None => return Err(ContractError::Overflow),
        };
        if !has_coins(funds, &Coin { denom: agreement.amount.denom.clone(), amount: required }) {
            return Err(ContractError::InsufficientFunds);
        }
        if agreement.purchaser == *sender {
            return Ok(());
        }
    }
    let mut i: usize = 0;
    while i < token.approvals.len()
        invariant
            i <= token.approvals@.len(),
            spec_can_send(*token, sender@, funds@, *block, tax_amount, operator) == if has_live_approval(token.approvals@, sender@, *block) {
                Ok::<(), ContractError>(())
            } else {
                match operator {
                    Some(ex) => if ex.spec_is_expired(*block) { Err::<(), ContractError>(ContractError::Unauthorized) } else { Ok::<(), ContractError>(()) },
                    None => Err::<(), ContractError>(ContractError::Unauthorized),
                }
            },
            forall|j: int| 0 <= j < i ==> !((#[trigger] token.approvals@[j]).spender@ == sender@
                && !token.approvals@[j].expires.spec_is_expired(*block)),
        decreases token.approvals.len() - i,
    {
        if token.approvals[i].spender == *sender && !token.approvals[i].expires.is_expired(block) {
            proof { assert(has_live_approval(token.approvals@, sender@, *block)); }
            return Ok(());
        }
        i = i + 1;
    }
    match operator {
        Some(ex) => if ex.is_expired(block) {
            Err(ContractError::Unauthorized)
        } else {
            Ok(())
        },
        None => Err(ContractError::Unauthorized),
    }
}

/// The first error `execute_transfer` meets, if any, and the tax of the agreement.
pub open spec fn spec_transfer_check(
    token: Option<NftToken>,
    sender: Seq<char>,
    funds: Seq<Coin>,
    block: BlockInfo,
    payment: Result<(Vec<CosmosMsg>, Vec<Event>, Coin), ContractError>,
    operator: Option<Expiration>,
) -> Result<u128, ContractError> {
    match token {
        None => Err(ContractError::NotFound),
        Some(t) => if t.extension.archived {
            Err(ContractError::TokenIsArchived)
        } else {
            let tax: Result<u128, ContractError> = match t.extension.transfer_agreement {
                None => Ok(0),
                Some(a) => match payment {
                    Err(e) => Err(e),
                    Ok((msgs, _, remainder)) => spec_tax_amount(msgs@, a.amount.amount, remainder.amount),
                },
            };
            match tax {
                Err(e) => Err(e),
                Ok(tax) => match spec_can_send(t, sender, funds, block, tax, operator) {
                    Err(e) => Err(e),
                    Ok(()) => Ok(tax),
                },
            }
        },
    }
}

/// What `execute_transfer` gives: the error of the checks, or the token
/// handed to `recipient` with its agreement paid out.
pub open spec fn transfer_result(
    token: Option<NftToken>,
    sender: String,
    funds: Vec<Coin>,
    block: BlockInfo,
    recipient: String,
    payment: Result<(Vec<CosmosMsg>, Vec<Event>, Coin), ContractError>,
    operator: Option<Expiration>,
    r: Result<(NftToken, Vec<CosmosMsg>, Vec<Event>, Vec<Attribute>), ContractError>,
) -> bool {
    match spec_transfer_check(token, sender@, funds@, block, payment, operator) {
        Err(e) => r == Err::<(NftToken, Vec<CosmosMsg>, Vec<Event>, Vec<Attribute>), ContractError>(e),
        Ok(_) => r matches Ok((t2, msgs, events, a)) && {
            let t = token->0;
            &&& attrs_are(a@, seq![("action"@, "transfer"@), ("recipient"@, recipient@)])
            &&& t2.owner == recipient
            &&& t2.approvals@.len() == 0
            &&& t2.extension.transfer_agreement is None
            &&& t2.extension.pricing is None
            &&& t2.extension.archived == t.extension.archived
            &&& t2.token_uri == t.token_uri
            &&& match t.extension.transfer_agreement {
                None => msgs@.len() == 0 && events@.len() == 0,
                Some(a) => {
                    let rate_msgs = payment->Ok_0.0;
                    let remainder = payment->Ok_0.2;
                    &&& events == payment->Ok_0.1
                    &&& msgs@.len() == rate_msgs@.len() + 1
                    &&& msgs@.take(rate_msgs@.len() as int) == rate_msgs@
                    &&& is_bank_send_one(msgs@[rate_msgs@.len() as int], t.owner@, remainder.denom@, remainder.amount)
                },
            }
        },
    }
}

/// `execute_transfer`: moves a token to `recipient`. With a transfer agreement,
/// `payment` is what the token's rates make of a payment of the agreed amount
/// (their payments, their events and what is left): the payments go out, the
/// events are passed on and the owner is paid what is left. `operator` is the
/// owner's operator approval of the sender, if any. Gives the token to store,
/// the messages, the events and the response attributes.
pub fn execute_transfer(
    token: Option<NftToken>,
    sender: &String,
    funds: &Vec<Coin>,
    block: &BlockInfo,
    recipient: String,
    payment: Result<(Vec<CosmosMsg>, Vec<Event>, Coin), ContractError>,
    operator: Option<Expiration>,
) -> (r: Result<(NftToken, Vec<CosmosMsg>, Vec<Event>, Vec<Attribute>), ContractError>)
    requires
        payment matches Ok((msgs, _, _)) ==> bank_sends_nonempty(msgs@),
    ensures
        transfer_result(token, *sender, *funds, *block, recipient, payment, operator, r),
{
    let mut t = match token {
        None => return Err(ContractError::NotFound),
        Some(t) => t,
    };
    if t.extension.archived {
        return Err(ContractError::TokenIsArchived);
    }
    let mut msgs: Vec<CosmosMsg> = Vec::new();
    let mut events: Vec<Event> = Vec::new();
    let tax_amount: u128 = if let Some(agreement) = &t.extension.transfer_agreement {
        let (rate_msgs, rate_events, remainder) = match payment {
            Err(e) => return Err(e),
            Ok(p) => p,
        };
        let tax = match get_tax_amount(&rate_msgs, agreement.amount.amount, remainder.amount) {
            Ok(x) => x,
            Err(e) => return Err(e),
        };
        let ghost rm = rate_msgs@;
        msgs = rate_msgs;
        events = rate_events;
        msgs.push(CosmosMsg::BankSend { to_address: t.owner.clone(), amount: vec![remainder] });
        proof { assert(msgs@.take(rm.len() as int) =~= rm); }
        tax
    } else {
        0
    };
    match check_can_send(&t, sender, funds, block, tax_amount, operator) {
        Err(e) => return Err(e),
        Ok(()) => {},
    }
    let attrs = vec![attr("action", "transfer".to_owned()), attr("recipient", recipient.clone())];
    t.owner = recipient;
    t.approvals = Vec::new();
    t.extension.transfer_agreement = None;
    t.extension.pricing = None;
    Ok((t, msgs, events, attrs))
}

/// `execute_update_transfer_agreement`: the owner of an unarchived token sets or
/// clears its transfer agreement.
pub fn execute_update_transfer_agreement(
    token: Option<NftToken>,
    sender: &String,
    agreement: Option<TransferAgreement>,
) -> (r: Result<NftToken, ContractError>)
    ensures
        match token {
            None => r == Err::<NftToken, ContractError>(ContractError::NotFound),
            Some(t) => if t.owner@ != sender@ {
                r == Err::<NftToken, ContractError>(ContractError::Unauthorized)
            } else if t.extension.archived {
                r == Err::<NftToken, ContractError>(ContractError::TokenIsArchived)
            } else {
                r == Ok::<NftToken, ContractError>(NftToken { extension: TokenExtension { transfer_agreement: agreement, ..t.extension }, ..t })
            },
        },
{
    let mut t = match token {
        None => return Err(ContractError::NotFound),
        Some(t) => t,
    };
    if t.owner != *sender {
        return Err(ContractError::Unauthorized);
    }
    if t.extension.archived {
        return Err(ContractError::TokenIsArchived);
    }
    t.extension.transfer_agreement = agreement;
    Ok(t)
}

/// `execute_update_pricing`: the owner of an unarchived token sets or clears its price.
pub fn execute_update_pricing(token: Option<NftToken>, sender: &String, pricing: Option<Coin>) -> (r: Result<NftToken, ContractError>)
    ensures
        match token {
            None => r == Err::<NftToken, ContractError>(ContractError::NotFound),
            Some(t) => if t.owner@ != sender@ {
                r == Err::<NftToken, ContractError>(ContractError::Unauthorized)
            } else if t.extension.archived {
                r == Err::<NftToken, ContractError>(ContractError::TokenIsArchived)
            } else {
                r == Ok::<NftToken, ContractError>(NftToken { extension: TokenExtension { pricing, ..t.extension }, ..t })
            },
        },
{
    let mut t = match token {
        None => return Err(ContractError::NotFound),
        Some(t) => t,
    };
    if t.owner != *sender {
        return Err(ContractError::Unauthorized);
    }
    if t.extension.archived {
        return Err(ContractError::TokenIsArchived);
    }
    t.extension.pricing = pricing;
    Ok(t)
}

/// `execute_archive`: the owner archives a token, which freezes it.
pub fn execute_archive(token: Option<NftToken>, sender: &String) -> (r: Result<NftToken, ContractError>)
    ensures
        match token {
            None => r == Err::<NftToken, ContractError>(ContractError::NotFound),
            Some(t) => if t.owner@ != sender@ {
                r == Err::<NftToken, ContractError>(ContractError::Unauthorized)
            } else {
                r == Ok::<NftToken, ContractError>(NftToken { extension: TokenExtension { archived: true, ..t.extension }, ..t })
            },
        },
{
    let mut t = match token {
        None => return Err(ContractError::NotFound),
        Some(t) => t,
    };
    if t.owner != *sender {
        return Err(ContractError::Unauthorized);
    }
    t.extension.archived = true;
    Ok(t)
}

/// The response attributes of a burn.
pub open spec fn burn_attrs(token_id: Seq<char>, sender: Seq<char>) -> Seq<(Seq<char>, Seq<char>)> {
    seq![("action"@, "burn"@), ("token_id"@, token_id), ("sender"@, sender)]
}

/// `execute_burn`: the owner burns the unarchived token `token_id`; gives the
/// new token count and the response attributes.
pub fn execute_burn(token: Option<&NftToken>, sender: &String, token_id: &String, token_count: u64) -> (r: Result<(u64, Vec<Attribute>), ContractError>)
    ensures
        match token {
            None => r == Err::<(u64, Vec<Attribute>), ContractError>(ContractError::NotFound),
            Some(t) => if t.owner@ != sender@ {
                r == Err::<(u64, Vec<Attribute>), ContractError>(ContractError::Unauthorized)
            } else if t.extension.archived {
                r == Err::<(u64, Vec<Attribute>), ContractError>(ContractError::TokenIsArchived)
            } else if token_count == 0 {
                r == Err::<(u64, Vec<Attribute>), ContractError>(ContractError::Overflow)
            } else {
                r matches Ok((c, a)) && c == token_count - 1 && attrs_are(a@, burn_attrs(token_id@, sender@))
            },
        },
{
    let t = match token {
        None => return Err(ContractError::NotFound),
        Some(t) => t,
    };
    if t.owner != *sender {
        return Err(ContractError::Unauthorized);
    }
    if t.extension.archived {
        return Err(ContractError::TokenIsArchived);
    }
    if token_count == 0 {
        return Err(ContractError::Overflow);
    }
    let attrs = vec![attr("action", "burn".to_owned()), attr("token_id", token_id.clone()), attr("sender", sender.clone())];
    Ok((token_count - 1, attrs))
}

/// A message to the token contract, as far as this contract decides it.
#[derive(Clone, Debug, PartialEq, Eq)]
pub enum Cw721Msg {
    TransferNft { recipient: String },
    /// Handled by the base cw721 contract once its token is found unarchived.
    SendNft,
    /// Handled by the base cw721 contract once its token is found unarchived.
    Approve,
    Burn { token_id: String },
    Archive,
    TransferAgreement { agreement: Option<TransferAgreement> },
    UpdatePricing { price: Option<Coin> },
    /// Any message that names no token to check (minting, operator
    /// approvals, module changes, ...): handled elsewhere.
    Other,
}

/// What an executed message leaves.
#[derive(Clone, Debug, PartialEq, Eq)]
pub enum Cw721Outcome {
    /// The token to store, the messages to send, the events and the response
    /// attributes.
    Token { token: NftToken, messages: Vec<CosmosMsg>, events: Vec<Event>, attributes: Vec<Attribute> },
    /// The token was burnt; the new token count and the response attributes.
    Burnt { token_count: u64, attributes: Vec<Attribute> },
    /// Passed on to the base cw721 contract.
    Base,
}

/// Whether the message may change its token, which must then exist and not be archived.
pub open spec fn names_live_token(msg: Cw721Msg) -> bool {
    !(msg is Other)
}

/// The token, messages, events and attributes of an outcome, as `execute_transfer` gives them.
pub open spec fn as_transfer(r: Result<Cw721Outcome, ContractError>) -> Option<Result<(NftToken, Vec<CosmosMsg>, Vec<Event>, Vec<Attribute>), ContractError>> {
    match r {
        Err(e) => Some(Err(e)),
        Ok(Cw721Outcome::Token { token, messages, events, attributes }) => Some(Ok((token, messages, events, attributes))),
        Ok(_) => None,
    }
}

/// Whether `r` is the result `e` of a handler that edits the token and sends
/// nothing, with no events or response attributes.
pub open spec fn is_edit(r: Result<Cw721Outcome, ContractError>, e: Result<NftToken, ContractError>) -> bool {
    match e {
        Err(err) => r == Err::<Cw721Outcome, ContractError>(err),
        Ok(t) => r matches Ok(Cw721Outcome::Token { token, messages, events, attributes })
            && token == t && messages@.len() == 0 && events@.len() == 0 && attributes@.len() == 0,
    }
}

/// `execute`: the module hook runs first and its error stops the message;
/// then a message that may change its token needs the token to exist and not
/// be archived; then the message's handler decides. `payment` and `operator`
/// are read by a transfer only (see `execute_transfer`), `token_count` by a burn.
pub fn execute(
    msg: Cw721Msg,
    token: Option<NftToken>,
    sender: &String,
    funds: &Vec<Coin>,
    block: &BlockInfo,
    payment: Result<(Vec<CosmosMsg>, Vec<Event>, Coin), ContractError>,
    operator: Option<Expiration>,
    token_count: u64,
    hook: Result<(), ContractError>,
) -> (r: Result<Cw721Outcome, ContractError>)
    requires
        payment matches Ok((msgs, _, _)) ==> bank_sends_nonempty(msgs@),
    ensures
        hook matches Err(e) ==> r == Err::<Cw721Outcome, ContractError>(e),
        hook is Ok && names_live_token(msg) && token is None ==> r == Err::<Cw721Outcome, ContractError>(ContractError::NotFound),
        hook is Ok && names_live_token(msg) && (token matches Some(t) && t.extension.archived)
            ==> r == Err::<Cw721Outcome, ContractError>(ContractError::TokenIsArchived),
        hook is Ok && !(names_live_token(msg) && (token is None || token->0.extension.archived)) ==> match msg {
            Cw721Msg::TransferNft { recipient } => as_transfer(r) matches Some(tr)
                && transfer_result(token, *sender, *funds, *block, recipient, payment, operator, tr),
            Cw721Msg::TransferAgreement { agreement } => is_edit(r, if token->0.owner@ != sender@ {
                    Err(ContractError::Unauthorized)
                } else {
                    Ok(NftToken { extension: TokenExtension { transfer_agreement: agreement, ..token->0.extension }, ..token->0 })
                }),
            Cw721Msg::UpdatePricing { price } => is_edit(r, if token->0.owner@ != sender@ {
                    Err(ContractError::Unauthorized)
                } else {
                    Ok(NftToken { extension: TokenExtension { pricing: price, ..token->0.extension }, ..token->0 })
                }),
            Cw721Msg::Archive => is_edit(r, if token->0.owner@ != sender@ {
                    Err(ContractError::Unauthorized)
                } else {
                    Ok(NftToken { extension: TokenExtension { archived: true, ..token->0.extension }, ..token->0 })
                }),
            Cw721Msg::Burn { token_id } => if token->0.owner@ != sender@ {
                    r == Err::<Cw721Outcome, ContractError>(ContractError::Unauthorized)
                } else if token_count == 0 {
                    r == Err::<Cw721Outcome, ContractError>(ContractError::Overflow)
                } else {
                    r matches Ok(Cw721Outcome::Burnt { token_count: c, attributes })
                        && c == token_count - 1 && attrs_are(attributes@, burn_attrs(token_id@, sender@))
                },
            _ => r == Ok::<Cw721Outcome, ContractError>(Cw721Outcome::Base),
        },
{
    if let Err(e) = hook {
        return Err(e);
    }
    if !matches!(msg, Cw721Msg::Other) {
        if let Err(e) = is_token_archived(token.as_ref()) {
            return Err(e);
        }
    }
    match msg {
        Cw721Msg::TransferNft { recipient } => match execute_transfer(token, sender, funds, block, recipient, payment, operator) {
            Err(e) => Err(e),
            Ok((t, messages, events, attributes)) => Ok(Cw721Outcome::Token { token: t, messages, events, attributes }),
        },
        Cw721Msg::TransferAgreement { agreement } => match execute_update_transfer_agreement(token, sender, agreement) {
            Err(e) => Err(e),
            Ok(t) => Ok(Cw721Outcome::Token { token: t, messages: Vec::new(), events: Vec::new(), attributes: Vec::new() }),
        },
        Cw721Msg::UpdatePricing { price } => match execute_update_pricing(token, sender, price) {
            Err(e) => Err(e),
            Ok(t) => Ok(Cw721Outcome::Token { token: t, messages: Vec::new(), events: Vec::new(), attributes: Vec::new() }),
        },
        Cw721Msg::Archive => match execute_archive(token, sender) {
            Err(e) => Err(e),
            Ok(t) => Ok(Cw721Outcome::Token { token: t, messages: Vec::new(), events: Vec::new(), attributes: Vec::new() }),
        },
        Cw721Msg::Burn { token_id } => match execute_burn(token.as_ref(), sender, &token_id, token_count) {
            Err(e) => Err(e),
            Ok((c, attributes)) => Ok(Cw721Outcome::Burnt { token_count: c, attributes }),
        },
        _ => Ok(Cw721Outcome::Base),
    }
}

/// An archived token is frozen: nobody, not even its owner, can move it, and
/// a transfer of it fails before any payment is looked at.
pub proof fn archived_token_is_frozen(
    token: NftToken,
    sender: Seq<char>,
    funds: Seq<Coin>,
    block: BlockInfo,
    tax_amount: u128,
    operator: Option<Expiration>,
    payment: Result<(Vec<CosmosMsg>, Vec<Event>, Coin), ContractError>,
)
    requires
        token.extension.archived,
    ensures
        spec_can_send(token, sender, funds, block, tax_amount, operator) == Err::<(), ContractError>(ContractError::TokenIsArchived),
        spec_transfer_check(Some(token), sender, funds, block, payment, operator) == Err::<u128, ContractError>(ContractError::TokenIsArchived),
{
}

/// Only the owner, the agreed purchaser, a spender whose approval is live or
/// an operator whose approval is live may move a token: anybody else is
/// refused, and with no transfer agreement the refusal is `Unauthorized`.
/// An operator whose approval is live may move a token that carries no
/// agreement.
pub proof fn only_authorised_senders_move_a_token(
    token: NftToken,
    sender: Seq<char>,
    funds: Seq<Coin>,
    block: BlockInfo,
    tax_amount: u128,
    operator: Option<Expiration>,
)
    ensures
        ({
            &&& token.owner@ != sender
            &&& !(token.extension.transfer_agreement matches Some(a) && a.purchaser@ == sender)
            &&& !(exists|i: int| 0 <= i < token.approvals@.len() && (#[trigger] token.approvals@[i]).spender@ == sender
                    && !(match token.approvals@[i].expires {
                        Expiration::AtHeight(h) => block.height >= h,
                        Expiration::AtTime(t) => block.time_nanos >= t,
                        Expiration::Never => false,
                    }))
            &&& !(operator matches Some(ex) && !(match ex {
                    Expiration::AtHeight(h) => block.height >= h,
                    Expiration::AtTime(t) => block.time_nanos >= t,
                    Expiration::Never => false,
                }))
        }) ==> {
            &&& spec_can_send(token, sender, funds, block, tax_amount, operator) is Err
            &&& token.extension.transfer_agreement is None && !token.extension.archived
                ==> spec_can_send(token, sender, funds, block, tax_amount, operator) == Err::<(), ContractError>(ContractError::Unauthorized)
        },
        (!token.extension.archived && token.extension.transfer_agreement is None && (operator matches Some(ex) && !(match ex {
            Expiration::AtHeight(h) => block.height >= h,
            Expiration::AtTime(t) => block.time_nanos >= t,
            Expiration::Never => false,
        }))) ==> spec_can_send(token, sender, funds, block, tax_amount, operator) is Ok,
{
}

/// Under a transfer agreement a sender other than the owner must send the
/// agreed price plus the tax: short of it the transfer is refused with
/// `InsufficientFunds`; with it, the agreed purchaser may move the token.
/// Without an agreement, a spender whose approval is live may move it.
pub proof fn agreed_purchaser_pays_price_and_tax(
    token: NftToken,
    sender: Seq<char>,
    funds: Seq<Coin>,
    block: BlockInfo,
    tax_amount: u128,
    operator: Option<Expiration>,
    agreement: TransferAgreement,
)
    requires
        !token.extension.archived,
        token.owner@ != sender,
    ensures
        token.extension.transfer_agreement == Some(agreement) && agreement.amount.amount + tax_amount <= u128::MAX ==> {
            let price = Coin { denom: agreement.amount.denom, amount: (agreement.amount.amount + tax_amount) as u128 };
            &&& !spec_has_coins(funds, price)
                ==> spec_can_send(token, sender, funds, block, tax_amount, operator) == Err::<(), ContractError>(ContractError::InsufficientFunds)
            &&& spec_has_coins(funds, price) && agreement.purchaser@ == sender
                ==> spec_can_send(token, sender, funds, block, tax_amount, operator) is Ok
        },
        token.extension.transfer_agreement is None && (exists|i: int| 0 <= i < token.approvals@.len()
            && (#[trigger] token.approvals@[i]).spender@ == sender && !token.approvals@[i].expires.spec_is_expired(block))
            ==> spec_can_send(token, sender, funds, block, tax_amount, operator) is Ok,
{
}

/// The owner can always move an unarchived token without an agreement.
pub proof fn owner_can_send(token: NftToken, funds: Seq<Coin>, block: BlockInfo, tax_amount: u128, operator: Option<Expiration>)
    requires
        !token.extension.archived,
    ensures
        spec_can_send(token, token.owner@, funds, block, tax_amount, operator) is Ok,
{
}

} // verus!
