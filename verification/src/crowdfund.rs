//! The crowdfund: the owner puts tokens on sale at a price until an
//! expiration; buyers pay the price plus taxes per token; once the sale has
//! expired it either went through (enough tokens sold: tokens go to their
//! buyers, the proceeds to the recipient, unsold tokens are burnt) or it failed
//! (every buyer is refunded, all tokens are burnt). Ending is done in batches.
use vstd::prelude::*;
use crate::kv::{contains_string, seq_has_string};
use crate::common::{attr, attrs_are, coin_string, coin_text, decimal, decimal_string, expiration_string, expiration_text, Attribute, BlockInfo, Coin, ContractError, CosmosMsg, ExecAction, Expiration, spec_has_coins, has_coins, is_bank_send_one, is_nft_transfer};

verus! {

/// One purchased token.
#[derive(Clone, Debug, PartialEq, Eq)]
pub struct Purchase {
    /// The token bought.
    pub token_id: String,
    /// The tax paid on top of the price.
    pub tax_amount: u128,
    /// The payments of the rates on the price, sent when the sale goes through.
    pub msgs: Vec<CosmosMsg>,
    /// The buyer.
    pub purchaser: String,
}

/// The state of an ongoing (or ending) sale.
#[derive(Clone, Debug, PartialEq, Eq)]
pub struct CrowdfundState {
    pub expiration: Expiration,
    /// The price of each token.
    pub price: Coin,
    /// The least number of tokens sold for the sale to go through.
    pub min_tokens_sold: u128,
    /// The most tokens one wallet may buy.
    pub max_amount_per_wallet: u128,
    /// Tokens sold.
    pub amount_sold: u128,
    /// What the recipient gets if the sale goes through, after royalties and taxes.
    pub amount_to_send: u128,
    /// Tokens handed to their buyers so far.
    pub amount_transferred: u128,
    /// The recipient of the proceeds.
    pub recipient: String,
}

/// The purchases of one buyer, as stored under the buyer's address.
#[derive(Debug)]
pub struct PurchaseEntry {
    pub purchaser: String,
    pub purchases: Vec<Purchase>,
}

/// `instantiate`: the crowdfund keeps the address of the token contract whose
/// tokens it sells; gives it with the response's attributes.
pub fn instantiate(token_address: String) -> (r: (String, Vec<Attribute>))
    ensures
        r.0 == token_address,
        attrs_are(r.1@, seq![("method"@, "instantiate"@), ("type"@, "crowdfund"@)]),
{
    let attrs = vec![attr("method", "instantiate".to_owned()), attr("type", "crowdfund".to_owned())];
    (token_address, attrs)
}

/// The attributes of a started sale.
pub open spec fn start_sale_attrs(s: CrowdfundState) -> Seq<(Seq<char>, Seq<char>)> {
    seq![
        ("action"@, "start_sale"@),
        ("expiration"@, expiration_text(s.expiration)),
        ("price"@, coin_text(s.price)),
        ("min_tokens_sold"@, decimal(s.min_tokens_sold as nat)),
        ("max_amount_per_wallet"@, decimal(s.max_amount_per_wallet as nat)),
    ]
}

/// `execute_start_sale`: only the owner starts a sale, with an expiration that
/// is neither `Never` nor already reached, and only if none is under way.
/// Gives the sale and the response's attributes.
pub fn execute_start_sale(
    is_owner: bool,
    block: &BlockInfo,
    expiration: Expiration,
    price: Coin,
    min_tokens_sold: u128,
    max_amount_per_wallet: Option<u128>,
    recipient: String,
    sale_exists: bool,
) -> (r: Result<(CrowdfundState, Vec<Attribute>), ContractError>)
    ensures
        !is_owner ==> r == Err::<(CrowdfundState, Vec<Attribute>), ContractError>(ContractError::Unauthorized),
        is_owner && expiration == Expiration::Never ==> r == Err::<(CrowdfundState, Vec<Attribute>), ContractError>(ContractError::ExpirationMustNotBeNever),
        is_owner && expiration != Expiration::Never && expiration.spec_is_expired(*block)
            ==> r == Err::<(CrowdfundState, Vec<Attribute>), ContractError>(ContractError::ExpirationInPast),
        is_owner && expiration != Expiration::Never && !expiration.spec_is_expired(*block) && sale_exists
            ==> r == Err::<(CrowdfundState, Vec<Attribute>), ContractError>(ContractError::SaleStarted),
        is_owner && expiration != Expiration::Never && !expiration.spec_is_expired(*block) && !sale_exists ==> (r matches Ok((s, attrs)) && {
            &&& s.expiration == expiration
            &&& s.price == price
            &&& s.min_tokens_sold == min_tokens_sold
            &&& s.max_amount_per_wallet == (match max_amount_per_wallet { Some(m) => m, None => 1u128 })
            &&& s.amount_sold == 0 && s.amount_to_send == 0 && s.amount_transferred == 0
            &&& s.recipient == recipient
            &&& attrs_are(attrs@, start_sale_attrs(s))
        }),
{
    if !is_owner {
        return Err(ContractError::Unauthorized);
    }
    if let Expiration::Never = expiration {
        return Err(ContractError::ExpirationMustNotBeNever);
    }
    if expiration.is_expired(block) {
        return Err(ContractError::ExpirationInPast);
    }
    if sale_exists {
        return Err(ContractError::SaleStarted);
    }
    let max_amount_per_wallet = match max_amount_per_wallet {
        Some(m) => m,
        None => 1,
    };
    let attrs = vec![
        attr("action", "start_sale".to_owned()),
        attr("expiration", expiration_string(&expiration)),
        attr("price", coin_string(&price)),
        attr("min_tokens_sold", decimal_string(min_tokens_sold)),
        attr("max_amount_per_wallet", decimal_string(max_amount_per_wallet)),
    ];
    let s = CrowdfundState {
        expiration,
        price,
        min_tokens_sold,
        max_amount_per_wallet,
        amount_sold: 0,
        amount_to_send: 0,
        amount_transferred: 0,
        recipient,
    };
    Ok((s, attrs))
}

/// Every bank send in `msgs` carries at least one coin.
pub open spec fn bank_sends_nonempty(msgs: Seq<CosmosMsg>) -> bool {
    forall|i: int| 0 <= i < msgs.len() ==> (#[trigger] msgs[i] matches CosmosMsg::BankSend { amount, .. } ==> amount@.len() > 0)
}

/// What `m` pays out in its first coin if it is a bank send, else nothing.
pub open spec fn bank_first_amount(m: CosmosMsg) -> int {
    match m {
        CosmosMsg::BankSend { amount, .. } => if amount@.len() > 0 { amount@[0].amount as int } else { 0 },
        _ => 0,
    }
}

/// The total that the bank sends of `msgs` pay out.
pub open spec fn bank_total(msgs: Seq<CosmosMsg>) -> int
    decreases msgs.len(),
{
    if msgs.len() == 0 {
        0
    } else {
        bank_total(msgs.drop_last()) + bank_first_amount(msgs.last())
    }
}

proof fn lemma_bank_total_nonneg(msgs: Seq<CosmosMsg>)
    ensures
        bank_total(msgs) >= 0,
    decreases msgs.len(),
{
    if msgs.len() > 0 {
        lemma_bank_total_nonneg(msgs.drop_last());
    }
}

proof fn lemma_bank_total_prefix(msgs: Seq<CosmosMsg>, k1: int, k2: int)
    requires
        0 <= k1 <= k2 <= msgs.len(),
    ensures
        bank_total(msgs.take(k1)) <= bank_total(msgs.take(k2)),
    decreases k2 - k1,
{
    if k1 < k2 {
        lemma_bank_total_prefix(msgs, k1, k2 - 1);
        assert(msgs.take(k2).drop_last() =~= msgs.take(k2 - 1));
        assert(bank_first_amount(msgs.take(k2).last()) >= 0);
    }
}

/// The tax in a payment of `base` whose rate payments are `msgs` and of which
/// `remaining` was left after royalties: all that the payments pay out, less
/// the royalties deducted from `base`.
pub open spec fn spec_tax_amount(msgs: Seq<CosmosMsg>, base: u128, remaining: u128) -> Result<u128, ContractError> {
    if remaining > base || bank_total(msgs) > u128::MAX || bank_total(msgs) < base - remaining {
        Err(ContractError::Overflow)
    } else {
        Ok((bank_total(msgs) - (base - remaining)) as u128)
    }
}

/// `get_tax_amount`: the tax in a payment of `base` whose rate payments are
/// `msgs` and of which `remaining` was left after royalties.
pub fn get_tax_amount(msgs: &Vec<CosmosMsg>, base: u128, remaining: u128) -> (r: Result<u128, ContractError>)
    requires
        bank_sends_nonempty(msgs@),
    ensures
        r == spec_tax_amount(msgs@, base, remaining),
{
    if remaining > base {
        return Err(ContractError::Overflow);
    }
    let deducted = base - remaining;
    let mut total: u128 = 0;
    let mut i: usize = 0;
    while i < msgs.len()
        invariant
            i <= msgs@.len(),
            bank_sends_nonempty(msgs@),
            total == bank_total(msgs@.take(i as int)),
        decreases msgs.len() - i,
    {
        proof {
            assert(msgs@.take(i + 1).drop_last() =~= msgs@.take(i as int));
            assert(msgs@.take(i + 1).last() == msgs@[i as int]);
        }
        let add: u128 = match &msgs[i] {
            CosmosMsg::BankSend { amount, .. } => amount[0].amount,
            _ => 0,
        };
        total = match total.checked_add(add) {
            Some(t) => t,
            None => {
                proof {
                    lemma_bank_total_prefix(msgs@, i + 1, msgs@.len() as int);
                    assert(msgs@.take(msgs@.len() as int) =~= msgs@);
                }
                return Err(ContractError::Overflow);
            },
        };
        i = i + 1;
    }
    proof { assert(msgs@.take(msgs@.len() as int) =~= msgs@); }
    if total < deducted {
        return Err(ContractError::Overflow);
    }
    Ok(total - deducted)
}

/// The first error `execute_purchase` meets, if any.
pub open spec fn spec_purchase_error(
    state: Option<CrowdfundState>,
    block: BlockInfo,
    token_available: bool,
    token_owner: Option<String>,
    contract_address: Seq<char>,
    n_purchases: nat,
    funds: Seq<Coin>,
    transfer: Result<(Vec<CosmosMsg>, Coin), ContractError>,
) -> Option<ContractError> {
    match state {
        None => Some(ContractError::NoOngoingSale),
        Some(s) => if s.expiration.spec_is_expired(block) {
            Some(ContractError::NoOngoingSale)
        } else if !token_available {
            Some(ContractError::TokenAlreadyPurchased)
        } else if !(token_owner matches Some(o) && o@ == contract_address) {
            Some(ContractError::TokenNotForSale)
        } else if n_purchases >= s.max_amount_per_wallet {
            Some(ContractError::PurchaseLimitReached)
        } else if !spec_has_coins(funds, s.price) {
            Some(ContractError::InsufficientFunds)
        } else {
            match transfer {
                Err(e) => Some(e),
                Ok((msgs, remainder)) => if s.amount_to_send + remainder.amount > u128::MAX {
                    Some(ContractError::Overflow)
                } else {
                    match spec_tax_amount(msgs@, s.price.amount, remainder.amount) {
                        Err(e) => Some(e),
                        Ok(tax) => if s.price.amount + tax > u128::MAX {
                            Some(ContractError::Overflow)
                        } else if !spec_has_coins(funds, Coin { denom: s.price.denom, amount: (s.price.amount + tax) as u128 }) {
                            Some(ContractError::InsufficientFunds)
                        } else if s.amount_sold + 1 > u128::MAX {
                            Some(ContractError::Overflow)
                        } else {
                            None
                        },
                    }
                },
            }
        },
    }
}

/// `execute_purchase`: `sender` buys `token_id` at the sale's price plus taxes.
/// `unavailable` holds the tokens already bought (the token must not be among
/// them, and is added once bought), `token_owner` is
/// the token contract's answer to who owns it (`None` if the query failed),
/// `purchases` are the sender's purchases so far, and `transfer` is what the
/// rates make of a payment of the price (their payments and what is left).
/// Gives the new sale state and the sender's purchases with the new one last.
pub fn execute_purchase(
    state: Option<CrowdfundState>,
    block: &BlockInfo,
    sender: &String,
    token_id: &String,
    unavailable: &mut Vec<String>,
    token_owner: Option<String>,
    contract_address: &String,
    purchases: Vec<Purchase>,
    funds: &Vec<Coin>,
    transfer: Result<(Vec<CosmosMsg>, Coin), ContractError>,
) -> (r: Result<(CrowdfundState, Vec<Purchase>, Vec<Attribute>), ContractError>)
    requires
        transfer matches Ok((msgs, _)) ==> bank_sends_nonempty(msgs@),
    ensures
        r is Err ==> final(unavailable)@ == old(unavailable)@,
        r is Ok ==> final(unavailable)@ == old(unavailable)@.push(*token_id),
        match spec_purchase_error(state, *block, !seq_has_string(old(unavailable)@, token_id@), token_owner, contract_address@, purchases@.len(), funds@, transfer) {
            Some(e) => r == Err::<(CrowdfundState, Vec<Purchase>, Vec<Attribute>), ContractError>(e),
            None => r matches Ok((s2, ps, attrs)) && {
                let s = state->0;
                let msgs = transfer->Ok_0.0;
                let remainder = transfer->Ok_0.1;
                let tax = spec_tax_amount(msgs@, s.price.amount, remainder.amount)->Ok_0;
                &&& s2 == CrowdfundState {
                    amount_to_send: (s.amount_to_send + remainder.amount) as u128,
                    amount_sold: (s.amount_sold + 1) as u128,
                    ..s
                }
                &&& ps@ == purchases@.push(Purchase { token_id: *token_id, tax_amount: tax, msgs, purchaser: *sender })
                &&& attrs_are(attrs@, seq![("action"@, "purchase"@), ("token_id"@, token_id@)])
            },
        },
        r matches Ok((_, ps, _)) ==> ((forall|i: int| 0 <= i < purchases@.len() ==> (#[trigger] purchases@[i]).purchaser@ == sender@)
            ==> forall|i: int| 0 <= i < ps@.len() ==> (#[trigger] ps@[i]).purchaser@ == sender@),
{
    let mut s = match state {
        None => return Err(ContractError::NoOngoingSale),
        Some(s) => s,
    };
    if s.expiration.is_expired(block) {
        return Err(ContractError::NoOngoingSale);
    }
    if contains_string(unavailable, token_id) {
        return Err(ContractError::TokenAlreadyPurchased);
    }
    let owned = match &token_owner {
        Some(o) => *o == *contract_address,
        None => false,
    };
    if !owned {
        return Err(ContractError::TokenNotForSale);
    }
    if purchases.len() as u128 >= s.max_amount_per_wallet {
        return Err(ContractError::PurchaseLimitReached);
    }
    if !has_coins(funds, &s.price) {
        return Err(ContractError::InsufficientFunds);
    }
    let (msgs, remainder) = match transfer {
        Err(e) => return Err(e),
        Ok(t) => t,
    };
    s.amount_to_send = match s.amount_to_send.checked_add(remainder.amount) {
        Some(a) => a,
        None => return Err(ContractError::Overflow),
    };
    let tax_amount = match get_tax_amount(&msgs, s.price.amount, remainder.amount) {
        Ok(t) => t,
        Err(e) => return Err(e),
    };
    let required = match s.price.amount.checked_add(tax_amount) {
        Some(a) => a,
        None => return Err(ContractError::Overflow),
    };
    if !has_coins(funds, &Coin { denom: s.price.denom.clone(), amount: required }) {
        return Err(ContractError::InsufficientFunds);
    }
    s.amount_sold = match s.amount_sold.checked_add(1) {
        Some(a) => a,
        None => return Err(ContractError::Overflow),
    };
    let mut purchases = purchases;
    purchases.push(Purchase { token_id: token_id.clone(), tax_amount, msgs, purchaser: sender.clone() });
    unavailable.push(token_id.clone());
    let attrs = vec![attr("action", "purchase".to_owned()), attr("token_id", token_id.clone())];
    Ok((s, purchases, attrs))
}

/// What refunding `purchases` at `price` pays back: each price with its tax.
pub open spec fn refund_total(purchases: Seq<Purchase>, price: u128) -> int
    decreases purchases.len(),
{
    if purchases.len() == 0 {
        0
    } else {
        refund_total(purchases.drop_last(), price) + purchases.last().tax_amount + price
    }
}

proof fn lemma_refund_total_prefix(purchases: Seq<Purchase>, price: u128, k1: int, k2: int)
    requires
        0 <= k1 <= k2 <= purchases.len(),
    ensures
        refund_total(purchases.take(k1), price) <= refund_total(purchases.take(k2), price),
        refund_total(purchases.take(k1), price) >= 0,
    decreases k2 - k1,
{
    if k1 < k2 {
        lemma_refund_total_prefix(purchases, price, k1, k2 - 1);
        assert(purchases.take(k2).drop_last() =~= purchases.take(k2 - 1));
    } else {
        lemma_refund_total_nonneg(purchases.take(k1), price);
    }
}

proof fn lemma_refund_total_nonneg(purchases: Seq<Purchase>, price: u128)
    ensures
        refund_total(purchases, price) >= 0,
    decreases purchases.len(),
{
    if purchases.len() > 0 {
        lemma_refund_total_nonneg(purchases.drop_last(), price);
    }
}

/// The refund of `purchases` (all of one buyer): one bank send to the buyer of
/// everything they paid; `None` when that is nothing.
pub fn refund_message(purchases: &Vec<Purchase>, price: &Coin) -> (r: Result<Option<CosmosMsg>, ContractError>)
    requires
        purchases@.len() > 0,
    ensures
        refund_total(purchases@, price.amount) > u128::MAX ==> r == Err::<Option<CosmosMsg>, ContractError>(ContractError::Overflow),
        refund_total(purchases@, price.amount) == 0 ==> r == Ok::<Option<CosmosMsg>, ContractError>(None),
        0 < refund_total(purchases@, price.amount) <= u128::MAX ==> (r matches Ok(Some(m))
            && is_bank_send_one(m, purchases@[0].purchaser@, price.denom@, refund_total(purchases@, price.amount) as u128)),
{
    let mut amount: u128 = 0;
    let mut i: usize = 0;
    while i < purchases.len()
        invariant
            i <= purchases@.len(),
            amount == refund_total(purchases@.take(i as int), price.amount),
        decreases purchases.len() - i,
    {
        proof {
            assert(purchases@.take(i + 1).drop_last() =~= purchases@.take(i as int));
            lemma_refund_total_prefix(purchases@, price.amount, i + 1, purchases@.len() as int);
            assert(purchases@.take(purchases@.len() as int) =~= purchases@);
        }
        let item = match purchases[i].tax_amount.checked_add(price.amount) {
            Some(x) => x,
            None => return Err(ContractError::Overflow),
        };
        amount = match amount.checked_add(item) {
            Some(a) => a,
            None => return Err(ContractError::Overflow),
        };
        i = i + 1;
    }
    proof { assert(purchases@.take(purchases@.len() as int) =~= purchases@); }
    if amount > 0 {
        Ok(Some(CosmosMsg::BankSend {
            to_address: purchases[0].purchaser.clone(),
            amount: vec![Coin { denom: price.denom.clone(), amount }],
        }))
    } else {
        Ok(None)
    }
}

/// Whether `t` is the token of one of `purchases`.
fn is_purchased_token(purchases: &Vec<Purchase>, t: &String) -> (r: bool)
    ensures
        r == token_ids(purchases@).contains(t@),
{
    let mut i: usize = 0;
    while i < purchases.len()
        invariant
            i <= purchases@.len(),
            forall|k: int| 0 <= k < i ==> (#[trigger] purchases@[k]).token_id@ != t@,
        decreases purchases.len() - i,
    {
        if purchases[i].token_id == *t {
            proof { assert(token_ids(purchases@)[i as int] == t@); }
            return true;
        }
        i = i + 1;
    }
    proof {
        assert forall|k: int| 0 <= k < token_ids(purchases@).len() implies token_ids(purchases@)[k] != t@ by {
            assert(token_ids(purchases@)[k] == purchases@[k].token_id@);
        }
    }
    false
}

/// Whether one of the first `n` of `v` reads `t`.
pub open spec fn has_string_before(v: Seq<String>, t: Seq<char>, n: int) -> bool {
    exists|k: int| 0 <= k < n && (#[trigger] v[k])@ == t
}

/// Takes the tokens of `purchases` out of the unavailable tokens: they can be
/// bought again.
fn free_tokens(unavailable: &mut Vec<String>, purchases: &Vec<Purchase>)
    ensures
        forall|t: Seq<char>| #[trigger] seq_has_string(final(unavailable)@, t)
            == (seq_has_string(old(unavailable)@, t) && !token_ids(purchases@).contains(t)),
{
    let ghost v = unavailable@;
    let mut out: Vec<String> = Vec::new();
    let mut i: usize = 0;
    while i < unavailable.len()
        invariant
            unavailable@ == v,
            i <= v.len(),
            forall|t: Seq<char>| #[trigger] seq_has_string(out@, t)
                == (has_string_before(v, t, i as int) && !token_ids(purchases@).contains(t)),
        decreases unavailable.len() - i,
    {
        let ghost o0 = out@;
        let keep = !is_purchased_token(purchases, &unavailable[i]);
        if keep {
            out.push(unavailable[i].clone());
        }
        proof {
            assert forall|t: Seq<char>| #[trigger] seq_has_string(out@, t)
                == (has_string_before(v, t, i + 1) && !token_ids(purchases@).contains(t)) by {
                if seq_has_string(out@, t) {
                    let k = choose|k: int| 0 <= k < out@.len() && (#[trigger] out@[k])@ == t;
                    if k < o0.len() {
                        assert(o0[k] == out@[k]);
                        assert(seq_has_string(o0, t));
                        let k2 = choose|k2: int| 0 <= k2 < i && (#[trigger] v[k2])@ == t;
                        assert(v[k2]@ == t);
                    } else {
                        assert(v[i as int]@ == t);
                    }
                }
                if has_string_before(v, t, i + 1) && !token_ids(purchases@).contains(t) {
                    let k = choose|k: int| 0 <= k < i + 1 && (#[trigger] v[k])@ == t;
                    if k < i {
                        assert(has_string_before(v, t, i as int));
                        assert(seq_has_string(o0, t));
                        let k2 = choose|k2: int| 0 <= k2 < o0.len() && (#[trigger] o0[k2])@ == t;
                        assert(out@[k2] == o0[k2]);
                    } else {
                        assert(out@[o0.len() as int] == v[i as int]);
                    }
                }
            }
        }
        i = i + 1;
    }
    proof {
        assert forall|t: Seq<char>| has_string_before(v, t, v.len() as int) == #[trigger] seq_has_string(v, t) by {}
    }
    *unavailable = out;
}

/// `process_refund`: refunds the buyer whose purchases are `stored` (all of
/// one buyer) everything they paid, in one bank send (`None` when that is
/// nothing); their purchases are removed and their tokens taken out of the
/// `unavailable` ones.
pub fn process_refund(stored: &mut Option<Vec<Purchase>>, unavailable: &mut Vec<String>, price: &Coin) -> (r: Result<Option<CosmosMsg>, ContractError>)
    requires
        *old(stored) matches Some(p) && p@.len() > 0,
    ensures
        ({
            let p = old(stored)->0;
            let total = refund_total(p@, price.amount);
            &&& total > u128::MAX ==> r == Err::<Option<CosmosMsg>, ContractError>(ContractError::Overflow)
                && *final(stored) == *old(stored) && final(unavailable)@ == old(unavailable)@
            &&& total <= u128::MAX ==> (r matches Ok(m) && {
                &&& total == 0 ==> m is None
                &&& total > 0 ==> (m matches Some(msg) && is_bank_send_one(msg, p@[0].purchaser@, price.denom@, total as u128))
                &&& *final(stored) == None::<Vec<Purchase>>
                &&& forall|t: Seq<char>| #[trigger] seq_has_string(final(unavailable)@, t)
                    == (seq_has_string(old(unavailable)@, t) && !token_ids(p@).contains(t))
            })
        }),
{
    let p = match stored.take() {
        Some(p) => p,
        None => return Err(ContractError::NoPurchases),
    };
    proof { lemma_refund_total_nonneg(p@, price.amount); }
    let m = match refund_message(&p, price) {
        Ok(m) => m,
        Err(e) => {
            *stored = Some(p);
            return Err(e);
        },
    };
    free_tokens(unavailable, &p);
    Ok(m)
}

/// `execute_claim_refund`: after a sale that failed (expired with fewer tokens
/// sold than its minimum), a buyer gets back what they paid. `purchases` are
/// the caller's stored purchases, `None` if they have none; the refund is
/// `process_refund`'s. Gives the refund message (none when nothing was paid)
/// and the response's attributes.
pub fn execute_claim_refund(
    state: Option<&CrowdfundState>,
    block: &BlockInfo,
    purchases: &mut Option<Vec<Purchase>>,
    unavailable: &mut Vec<String>,
) -> (r: Result<(Option<CosmosMsg>, Vec<Attribute>), ContractError>)
    requires
        *old(purchases) matches Some(p) ==> p@.len() > 0,
    ensures
        r is Err ==> *final(purchases) == *old(purchases) && final(unavailable)@ == old(unavailable)@,
        state is None ==> r == Err::<(Option<CosmosMsg>, Vec<Attribute>), ContractError>(ContractError::NoOngoingSale),
        state matches Some(s) ==> {
            if !s.expiration.spec_is_expired(*block) {
                r == Err::<(Option<CosmosMsg>, Vec<Attribute>), ContractError>(ContractError::SaleNotEnded)
            } else if s.amount_sold >= s.min_tokens_sold {
                r == Err::<(Option<CosmosMsg>, Vec<Attribute>), ContractError>(ContractError::MinSalesExceeded)
            } else {
                match *old(purchases) {
                    None => r == Err::<(Option<CosmosMsg>, Vec<Attribute>), ContractError>(ContractError::NoPurchases),
                    Some(p) => {
                        let total = refund_total(p@, s.price.amount);
                        &&& total > u128::MAX ==> r == Err::<(Option<CosmosMsg>, Vec<Attribute>), ContractError>(ContractError::Overflow)
                        &&& total <= u128::MAX ==> (r matches Ok((m, attrs)) && {
                            &&& *final(purchases) == None::<Vec<Purchase>>
                            &&& forall|t: Seq<char>| #[trigger] seq_has_string(final(unavailable)@, t)
                                == (seq_has_string(old(unavailable)@, t) && !token_ids(p@).contains(t))
                            &&& attrs_are(attrs@, seq![("action"@, "claim_refund"@)])
                            &&& total == 0 ==> m is None
                            &&& total > 0 ==> (m matches Some(msg)
                                && is_bank_send_one(msg, p@[0].purchaser@, s.price.denom@, total as u128))
                        })
                    },
                }
            }
        },
{
    let s = match state {
        None => return Err(ContractError::NoOngoingSale),
        Some(s) => s,
    };
    if !s.expiration.is_expired(block) {
        return Err(ContractError::SaleNotEnded);
    }
    if s.amount_sold >= s.min_tokens_sold {
        return Err(ContractError::MinSalesExceeded);
    }
    if purchases.is_none() {
        return Err(ContractError::NoPurchases);
    }
    let m = match process_refund(purchases, unavailable, &s.price) {
        Ok(m) => m,
        Err(e) => return Err(e),
    };
    let attrs = vec![attr("action", "claim_refund".to_owned())];
    Ok((m, attrs))
}

/// The batch size of `EndSale`: the limit asked for (50 if none), at most 100.
pub open spec fn spec_end_limit(limit: Option<u32>) -> int {
    let l = match limit { Some(l) => l as int, None => 50 };
    if l < 100 { l } else { 100 }
}

/// The batch size of `EndSale`, which may not be zero.
pub fn end_sale_limit(limit: Option<u32>) -> (r: Result<usize, ContractError>)
    ensures
        spec_end_limit(limit) == 0 ==> r == Err::<usize, ContractError>(ContractError::LimitMustNotBeZero),
        spec_end_limit(limit) > 0 ==> r == Ok::<usize, ContractError>(spec_end_limit(limit) as usize),
{
    let l: u32 = match limit {
        Some(l) => l,
        None => 50,
    };
    let l: u32 = if l < 100 { l } else { 100 };
    if l == 0 {
        return Err(ContractError::LimitMustNotBeZero);
    }
    Ok(l as usize)
}

/// Whether `m` burns `token_id` of `token_addr`.
pub open spec fn is_burn(m: CosmosMsg, token_addr: Seq<char>, token_id: Seq<char>) -> bool {
    match m {
        CosmosMsg::Execute { contract, action, funds } => {
            &&& contract@ == token_addr
            &&& funds@.len() == 0
            &&& action matches ExecAction::BurnNft { token_id: t } && t@ == token_id
        },
        _ => false,
    }
}

/// `get_burn_messages`: a burn of each of `tokens` on the token contract.
pub fn burn_messages(token_address: &String, tokens: &Vec<String>) -> (r: Vec<CosmosMsg>)
    ensures
        r@.len() == tokens@.len(),
        forall|i: int| 0 <= i < tokens@.len() ==> is_burn(#[trigger] r@[i], token_address@, tokens@[i]@),
{
    let mut out: Vec<CosmosMsg> = Vec::new();
    let mut i: usize = 0;
    while i < tokens.len()
        invariant
            i <= tokens@.len(),
            out@.len() == i,
            forall|k: int| 0 <= k < i ==> is_burn(#[trigger] out@[k], token_address@, tokens@[k]@),
        decreases tokens.len() - i,
    {
        out.push(CosmosMsg::Execute {
            contract: token_address.clone(),
            action: ExecAction::BurnNft { token_id: tokens[i].clone() },
            funds: Vec::new(),
        });
        i = i + 1;
    }
    out
}

/// A stored entry as plain values: the buyer and their purchases.
pub open spec fn entries_view(s: Seq<PurchaseEntry>) -> Seq<(Seq<char>, Seq<Purchase>)> {
    s.map_values(|e: PurchaseEntry| (e.purchaser@, e.purchases@))
}

/// All purchases, buyer after buyer in storage order.
pub open spec fn flat(s: Seq<(Seq<char>, Seq<Purchase>)>) -> Seq<Purchase>
    decreases s.len(),
{
    if s.len() == 0 {
        Seq::empty()
    } else {
        s[0].1 + flat(s.drop_first())
    }
}

/// The rate payments of `ps`, purchase after purchase.
pub open spec fn msgs_of(ps: Seq<Purchase>) -> Seq<CosmosMsg>
    decreases ps.len(),
{
    if ps.len() == 0 {
        Seq::empty()
    } else {
        msgs_of(ps.drop_last()) + ps.last().msgs@
    }
}

pub open spec fn min_int(a: int, b: int) -> int {
    if a < b { a } else { b }
}

/// How many purchases a batch of `limit` hands out.
pub open spec fn batch_len(fl: Seq<Purchase>, limit: int) -> int {
    min_int(limit, fl.len() as int)
}

/// The buyer whose purchases may be split across batches: the buyer of the
/// second to last of the first `limit + 1` purchases, or of the only one.
pub open spec fn last_purchaser(fl: Seq<Purchase>, limit: int) -> Seq<char> {
    let m = min_int(limit + 1, fl.len() as int);
    if m == 1 { fl[0].purchaser@ } else { fl[m - 2].purchaser@ }
}

/// Whether that buyer keeps an entry: the purchase after the batch (or the
/// batch's last, if nothing follows) is theirs too.
pub open spec fn keeps_last(fl: Seq<Purchase>, limit: int) -> bool {
    let m = min_int(limit + 1, fl.len() as int);
    fl[m - 1].purchaser@ == last_purchaser(fl, limit)
}

/// The stored purchases after handing out the first `done` of them: buyers
/// whose purchases were handed out are removed, except `last`, who keeps the
/// rest of theirs when `keep_last` holds.
pub open spec fn after_transfer(s: Seq<(Seq<char>, Seq<Purchase>)>, done: int, last: Seq<char>, keep_last: bool) -> Seq<(Seq<char>, Seq<Purchase>)>
    decreases s.len(),
{
    if s.len() == 0 {
        Seq::empty()
    } else {
        let e = s[0];
        let c = min_int(done, e.1.len() as int);
        let rest = after_transfer(s.drop_first(), done - c, last, keep_last);
        if c <= 0 {
            seq![e] + rest
        } else if e.0 == last && keep_last {
            seq![(e.0, e.1.skip(c))] + rest
        } else {
            rest
        }
    }
}

/// What ending a sale does to the stored data, and the messages it sends.
#[derive(Debug)]
pub struct EndSaleOutcome {
    /// The sale state to store; `None` once the sale is over.
    pub state: Option<CrowdfundState>,
    /// The stored purchases afterwards, in storage order.
    pub purchases: Vec<PurchaseEntry>,
    /// Tokens that are no longer reserved for a buyer.
    pub released_tokens: Vec<String>,
    /// The messages, in order.
    pub messages: Vec<CosmosMsg>,
    /// The response's attributes.
    pub attributes: Vec<Attribute>,
}

proof fn lemma_flat_skip(s: Seq<(Seq<char>, Seq<Purchase>)>, i: int)
    requires
        0 <= i < s.len(),
    ensures
        flat(s.skip(i)) == s[i].1 + flat(s.skip(i + 1)),
{
    assert(s.skip(i).drop_first() =~= s.skip(i + 1));
    assert(s.skip(i)[0] == s[i]);
}

proof fn lemma_after_transfer_skip(s: Seq<(Seq<char>, Seq<Purchase>)>, i: int, done: int, last: Seq<char>, keep_last: bool)
    requires
        0 <= i < s.len(),
    ensures
        ({
            let e = s[i];
            let c = min_int(done, e.1.len() as int);
            let rest = after_transfer(s.skip(i + 1), done - c, last, keep_last);
            after_transfer(s.skip(i), done, last, keep_last) == if c <= 0 {
                seq![e] + rest
            } else if e.0 == last && keep_last {
                seq![(e.0, e.1.skip(c))] + rest
            } else {
                rest
            }
        }),
{
    assert(s.skip(i).drop_first() =~= s.skip(i + 1));
    assert(s.skip(i)[0] == s[i]);
}

/// The buyers of the first `n` purchases (fewer if there are fewer).
fn first_purchasers(entries: &Vec<PurchaseEntry>, n: usize) -> (names: Vec<String>)
    ensures
        names@.len() == min_int(n as int, flat(entries_view(entries@)).len() as int),
        forall|k: int| 0 <= k < names@.len() ==> (#[trigger] names@[k])@ == flat(entries_view(entries@))[k].purchaser@,
{
    let ghost ev = entries_view(entries@);
    let ghost mut seen: Seq<Purchase> = Seq::empty();
    let mut names: Vec<String> = Vec::new();
    let mut i: usize = 0;
    proof { assert(ev.skip(0) =~= ev); }
    while i < entries.len() && names.len() < n
        invariant
            ev == entries_view(entries@),
            i <= entries@.len(),
            names@.len() == seen.len(),
            seen.len() <= n,
            seen.len() <= flat(ev).len(),
            seen == flat(ev).take(seen.len() as int),
            seen.len() < n ==> flat(ev) == seen + flat(ev.skip(i as int)),
            forall|k: int| 0 <= k < names@.len() ==> (#[trigger] names@[k])@ == seen[k].purchaser@,
        decreases entries.len() - i,
    {
        let ps = &entries[i].purchases;
        proof {
            lemma_flat_skip(ev, i as int);
            assert(ev[i as int].1 == ps@);
        }
        let mut j: usize = 0;
        proof { assert(ps@.skip(0) =~= ps@); }
        while j < ps.len() && names.len() < n
            invariant
                ev == entries_view(entries@),
                i < entries@.len(),
                ps@ == ev[i as int].1,
                j <= ps@.len(),
                names@.len() == seen.len(),
                seen.len() <= n,
                seen.len() <= flat(ev).len(),
                seen == flat(ev).take(seen.len() as int),
                seen.len() < n ==> flat(ev) == seen + ps@.skip(j as int) + flat(ev.skip(i + 1)),
                forall|k: int| 0 <= k < names@.len() ==> (#[trigger] names@[k])@ == seen[k].purchaser@,
            decreases ps.len() - j,
        {
            let ghost p = ps@[j as int];
            proof {
                let rest = flat(ev.skip(i + 1));
                assert(ps@.skip(j as int) =~= seq![p] + ps@.skip(j + 1));
                assert(flat(ev) =~= seen.push(p) + ps@.skip(j + 1) + rest);
                assert(flat(ev).take(seen.len() + 1 as int) =~= seen.push(p));
                seen = seen.push(p);
            }
            names.push(ps[j].purchaser.clone());
            j = j + 1;
        }
        proof {
            if seen.len() < n {
                assert(j == ps@.len());
                assert(ps@.skip(j as int) =~= Seq::<Purchase>::empty());
                assert(flat(ev) =~= seen + flat(ev.skip(i + 1)));
            }
        }
        i = i + 1;
    }
    proof {
        if seen.len() < n {
            assert(ev.skip(i as int) =~= Seq::<(Seq<char>, Seq<Purchase>)>::empty());
            assert(flat(ev) =~= seen);
        }
    }
    names
}

/// Hands out the first `np` stored purchases: a token transfer to its buyer for
/// each, their rate payments, and the stored purchases that remain.
fn hand_out(
    entries: Vec<PurchaseEntry>,
    np: usize,
    last: &String,
    keep_last: bool,
    token_address: &String,
) -> (r: (Vec<PurchaseEntry>, Vec<CosmosMsg>, Vec<CosmosMsg>, Vec<String>))
    requires
        np <= flat(entries_view(entries@)).len(),
    ensures
        ({
            let ev = entries_view(entries@);
            let batch = flat(ev).take(np as int);
            &&& entries_view(r.0@) == after_transfer(ev, np as int, last@, keep_last)
            &&& r.1@.len() == np
            &&& forall|k: int| 0 <= k < np ==> is_nft_transfer(#[trigger] r.1@[k], token_address@, batch[k].token_id@, batch[k].purchaser@)
            &&& r.2@ == msgs_of(batch)
            &&& r.3@.len() == np
            &&& forall|k: int| 0 <= k < np ==> (#[trigger] r.3@[k])@ == batch[k].token_id@
        }),
{
    let ghost ev = entries_view(entries@);
    let mut entries = entries;
    let mut rem: usize = np;
    let mut kept: Vec<PurchaseEntry> = Vec::new();
    let mut transfers: Vec<CosmosMsg> = Vec::new();
    let mut rates: Vec<CosmosMsg> = Vec::new();
    let mut released: Vec<String> = Vec::new();
    let ghost mut cons: Seq<Purchase> = Seq::empty();
    let ghost mut k: int = 0;
    proof {
        assert(ev.skip(0) =~= ev);
        assert(entries_view(kept@) =~= Seq::<(Seq<char>, Seq<Purchase>)>::empty());
        assert(flat(ev) =~= cons + flat(ev.skip(0)));
    }
    while entries.len() > 0
        invariant
            0 <= k <= ev.len(),
            entries_view(entries@) == ev.skip(k),
            cons.len() + rem == np,
            cons.len() <= flat(ev).len(),
            cons == flat(ev).take(cons.len() as int),
            rem > 0 ==> flat(ev) == cons + flat(ev.skip(k)),
            entries_view(kept@) + after_transfer(ev.skip(k), rem as int, last@, keep_last) == after_transfer(ev, np as int, last@, keep_last),
            transfers@.len() == cons.len(),
            forall|t: int| 0 <= t < cons.len() ==> is_nft_transfer(#[trigger] transfers@[t], token_address@, cons[t].token_id@, cons[t].purchaser@),
            rates@ == msgs_of(cons),
            released@.len() == cons.len(),
            forall|t: int| 0 <= t < cons.len() ==> (#[trigger] released@[t])@ == cons[t].token_id@,
        decreases entries.len(),
    {
        let ghost before = entries@;
        let e = entries.remove(0);
        proof {
            assert(ev.skip(k).len() > 0);
            assert(ev[k] == ev.skip(k)[0]);
            assert(entries_view(before)[0] == (e.purchaser@, e.purchases@));
            assert(entries@ =~= before.drop_first());
            assert forall|j: int| 0 <= j < entries@.len() implies #[trigger] entries_view(entries@)[j] == ev.skip(k + 1)[j] by {
                assert(entries@[j] == before[j + 1]);
                assert(entries_view(before)[j + 1] == ev.skip(k)[j + 1]);
            }
            assert(entries_view(entries@) =~= ev.skip(k + 1));
            lemma_flat_skip(ev, k);
            lemma_after_transfer_skip(ev, k, rem as int, last@, keep_last);
        }
        let PurchaseEntry { purchaser, purchases } = e;
        let mut ps = purchases;
        let ghost all = ps@;
        let c: usize = if rem < ps.len() { rem } else { ps.len() };
        let rest = ps.split_off(c);
        let ghost cons0 = cons;
        let ghost t0 = transfers@;
        let ghost rel0 = released@;
        let mut q: usize = 0;
        while ps.len() > 0
            invariant
                q <= c,
                c <= all.len(),
                ps@ == all.subrange(q as int, c as int),
                cons == cons0 + all.take(q as int),
                transfers@.len() == cons.len(),
                released@.len() == cons.len(),
                forall|t: int| 0 <= t < cons.len() ==> is_nft_transfer(#[trigger] transfers@[t], token_address@, cons[t].token_id@, cons[t].purchaser@),
                forall|t: int| 0 <= t < cons.len() ==> (#[trigger] released@[t])@ == cons[t].token_id@,
                rates@ == msgs_of(cons),
            decreases ps.len(),
        {
            let mut p = ps.remove(0);
            let ghost p0 = p;
            proof {
                assert(p0 == all[q as int]);
                assert(all.take(q + 1) =~= all.take(q as int).push(p0));
                assert(cons.push(p0).drop_last() =~= cons);
            }
            transfers.push(CosmosMsg::Execute {
                contract: token_address.clone(),
                action: ExecAction::TransferNft { recipient: p.purchaser.clone(), token_id: p.token_id.clone() },
                funds: Vec::new(),
            });
            released.push(p.token_id.clone());
            rates.append(&mut p.msgs);
            proof {
                cons = cons.push(p0);
            }
            q = q + 1;
        }
        proof {
            assert(all.take(c as int) =~= all.take(q as int));
            if rem > 0 {
                assert(flat(ev) =~= cons0 + all + flat(ev.skip(k + 1)));
                assert(flat(ev).take(cons.len() as int) =~= cons);
                if rem - c > 0 {
                    assert(all.take(c as int) =~= all);
                    assert(flat(ev) =~= cons + flat(ev.skip(k + 1)));
                }
            } else {
                assert(cons =~= cons0);
            }
            assert(rest@ == all.skip(c as int));
        }
        rem = rem - c;
        if c == 0 {
            kept.push(PurchaseEntry { purchaser, purchases: rest });
        } else if purchaser == *last && keep_last {
            kept.push(PurchaseEntry { purchaser, purchases: rest });
        }
        proof {
            assert(all.skip(0) =~= all);
            k = k + 1;
        }
    }
    proof {
        assert(after_transfer(ev.skip(k), rem as int, last@, keep_last) =~= Seq::<(Seq<char>, Seq<Purchase>)>::empty());
        if rem > 0 {
            assert(flat(ev.skip(k)) =~= Seq::<Purchase>::empty());
        }
        assert(cons =~= flat(ev).take(np as int));
    }
    (kept, transfers, rates, released)
}

/// The token ids of `ps`, in order.
pub open spec fn token_ids(ps: Seq<Purchase>) -> Seq<Seq<char>> {
    ps.map_values(|p: Purchase| p.token_id@)
}

/// The views of `v`.
pub open spec fn string_views(v: Seq<String>) -> Seq<Seq<char>> {
    v.map_values(|t: String| t@)
}

/// What ending a sale that went through does, in a batch of `limit`.
/// `tokens` is the token contract's answer to which tokens the sale still
/// holds (at most `limit`), asked only once every sold token is handed out.
pub open spec fn transfer_outcome(
    state: CrowdfundState,
    limit: int,
    ev: Seq<(Seq<char>, Seq<Purchase>)>,
    tokens: Result<Vec<String>, ContractError>,
    token_address: Seq<char>,
    r: Result<EndSaleOutcome, ContractError>,
) -> bool {
    if state.amount_transferred == state.amount_sold {
        match tokens {
            Err(e) => r == Err::<EndSaleOutcome, ContractError>(e),
            Ok(ts) => r matches Ok(o) && {
                let pay: int = if state.amount_to_send > 0 { 1 } else { 0 };
                &&& o.state == (if ts@.len() == 0 { None } else { Some(CrowdfundState { amount_to_send: 0, ..state }) })
                &&& entries_view(o.purchases@) == ev
                &&& o.released_tokens@.len() == 0
                &&& attrs_are(o.attributes@, seq![("action"@, "transfer_tokens_and_send_funds"@)])
                &&& o.messages@.len() == pay + ts@.len()
                &&& pay == 1 ==> is_bank_send_one(o.messages@[0], state.recipient@, state.price.denom@, state.amount_to_send)
                &&& forall|i: int| 0 <= i < ts@.len() ==> is_burn(#[trigger] o.messages@[pay + i], token_address, ts@[i]@)
            },
        }
    } else {
        let fl = flat(ev);
        let np = batch_len(fl, limit);
        let batch = fl.take(np);
        if state.amount_transferred + np > u128::MAX {
            r == Err::<EndSaleOutcome, ContractError>(ContractError::Overflow)
        } else {
            r matches Ok(o) && {
                &&& o.state == Some(CrowdfundState { amount_transferred: (state.amount_transferred + np) as u128, ..state })
                &&& entries_view(o.purchases@) == after_transfer(ev, np, last_purchaser(fl, limit), keeps_last(fl, limit))
                &&& o.messages@.len() == np + msgs_of(batch).len()
                &&& attrs_are(o.attributes@, seq![("action"@, "transfer_tokens_and_send_funds"@)])
                &&& forall|k: int| 0 <= k < np ==> is_nft_transfer(#[trigger] o.messages@[k], token_address, batch[k].token_id@, batch[k].purchaser@)
                &&& o.messages@.skip(np) == msgs_of(batch)
                &&& string_views(o.released_tokens@) == token_ids(batch)
            }
        }
    }
}

/// `transfer_tokens_and_send_funds`: once every sold token is handed out, pay
/// the recipient and burn a batch of unsold tokens (the sale is over when none
/// is left); before that, hand out a batch of sold tokens with their rate
/// payments.
pub fn transfer_tokens_and_send_funds(
    state: CrowdfundState,
    batch_limit: Option<u32>,
    entries: Vec<PurchaseEntry>,
    tokens: Result<Vec<String>, ContractError>,
    token_address: &String,
) -> (r: Result<EndSaleOutcome, ContractError>)
    requires
        spec_end_limit(batch_limit) > 0 && state.amount_transferred != state.amount_sold ==> flat(entries_view(entries@)).len() > 0,
    ensures
        spec_end_limit(batch_limit) == 0 ==> r == Err::<EndSaleOutcome, ContractError>(ContractError::LimitMustNotBeZero),
        spec_end_limit(batch_limit) > 0 ==> transfer_outcome(state, spec_end_limit(batch_limit), entries_view(entries@), tokens, token_address@, r),
{
    let limit = match end_sale_limit(batch_limit) {
        Ok(l) => l,
        Err(e) => return Err(e),
    };
    let ghost ev = entries_view(entries@);
    let mut state = state;
    if state.amount_transferred == state.amount_sold {
        let mut messages: Vec<CosmosMsg> = Vec::new();
        let ghost pay: int = if state.amount_to_send > 0 { 1 } else { 0 };
        if state.amount_to_send > 0 {
            messages.push(CosmosMsg::BankSend {
                to_address: state.recipient.clone(),
                amount: vec![Coin { denom: state.price.denom.clone(), amount: state.amount_to_send }],
            });
            state.amount_to_send = 0;
        }
        let ts = match tokens {
            Err(e) => return Err(e),
            Ok(ts) => ts,
        };
        let burns = burn_messages(token_address, &ts);
        let ghost before = messages@;
        let mut burns = burns;
        let ghost b0 = burns@;
        let n_burns = burns.len();
        messages.append(&mut burns);
        proof {
            assert(before.len() == pay);
            assert forall|i: int| 0 <= i < ts@.len() implies is_burn(#[trigger] messages@[pay + i], token_address@, ts@[i]@) by {
                assert(messages@[pay + i] == b0[i]);
            }
        }
        let new_state = if n_burns == 0 { None } else { Some(state) };
        let attributes = vec![attr("action", "transfer_tokens_and_send_funds".to_owned())];
        return Ok(EndSaleOutcome { state: new_state, purchases: entries, released_tokens: Vec::new(), messages, attributes });
    }
    let names = first_purchasers(&entries, limit + 1);
    let m = names.len();
    let last: String = if m == 1 { names[0].clone() } else { names[m - 2].clone() };
    let keep_last = names[m - 1] == last;
    let np: usize = if m == limit + 1 { limit } else { m };
    let transferred = match state.amount_transferred.checked_add(np as u128) {
        Some(t) => t,
        None => return Err(ContractError::Overflow),
    };
    let (kept, transfers, rates, released) = hand_out(entries, np, &last, keep_last, token_address);
    state.amount_transferred = transferred;
    let mut messages = transfers;
    let ghost t0 = messages@;
    let mut rates = rates;
    messages.append(&mut rates);
    proof {
        assert(messages@.skip(np as int) =~= msgs_of(flat(ev).take(np as int)));
        assert forall|k: int| 0 <= k < np implies messages@[k] == t0[k] by {}
        assert(string_views(released@) =~= token_ids(flat(ev).take(np as int)));
    }
    let attributes = vec![attr("action", "transfer_tokens_and_send_funds".to_owned())];
    Ok(EndSaleOutcome { state: Some(state), purchases: kept, released_tokens: released, messages, attributes })
}

/// The refunds of the entries `s` at `price`: (buyer, amount) for each entry
/// that paid anything; `None` if some refund overflows.
pub open spec fn spec_refunds(s: Seq<(Seq<char>, Seq<Purchase>)>, price: u128) -> Option<Seq<(Seq<char>, u128)>>
    decreases s.len(),
{
    if s.len() == 0 {
        Some(Seq::empty())
    } else {
        match spec_refunds(s.drop_last(), price) {
            None => None,
            Some(acc) => {
                let t = refund_total(s.last().1, price);
                if t > u128::MAX {
                    None
                } else if t == 0 {
                    Some(acc)
                } else {
                    Some(acc.push((s.last().1[0].purchaser@, t as u128)))
                }
            },
        }
    }
}

proof fn lemma_refunds_none(s: Seq<(Seq<char>, Seq<Purchase>)>, price: u128, i: int, n: int)
    requires
        0 <= i <= n <= s.len(),
        spec_refunds(s.take(i), price) is None,
    ensures
        spec_refunds(s.take(n), price) is None,
    decreases n - i,
{
    if i < n {
        assert(s.take(i + 1).drop_last() =~= s.take(i));
        lemma_refunds_none(s, price, i + 1, n);
    }
}

proof fn lemma_flat_take(s: Seq<(Seq<char>, Seq<Purchase>)>, i: int)
    requires
        0 <= i < s.len(),
    ensures
        flat(s.take(i + 1)) == flat(s.take(i)) + s[i].1,
    decreases i,
{
    if i == 0 {
        assert(s.take(1).drop_first() =~= Seq::<(Seq<char>, Seq<Purchase>)>::empty());
        assert(s.take(0) =~= Seq::<(Seq<char>, Seq<Purchase>)>::empty());
        assert(flat(s.take(1)) =~= s[0].1);
    } else {
        lemma_flat_take(s.drop_first(), i - 1);
        assert(s.take(i + 1).drop_first() =~= s.drop_first().take(i));
        assert(s.take(i).drop_first() =~= s.drop_first().take(i - 1));
        assert(flat(s.take(i + 1)) =~= s[0].1 + flat(s.drop_first().take(i)));
        assert(flat(s.take(i)) =~= s[0].1 + flat(s.drop_first().take(i - 1)));
    }
}

/// What ending a failed sale does, in a batch of `limit` buyers: refunds for
/// the first `limit` buyers, burns of the tokens in `tokens`; the sale is over
/// once there is neither.
pub open spec fn refund_outcome(
    state: CrowdfundState,
    limit: int,
    ev: Seq<(Seq<char>, Seq<Purchase>)>,
    tokens: Result<Vec<String>, ContractError>,
    token_address: Seq<char>,
    r: Result<EndSaleOutcome, ContractError>,
) -> bool {
    let n = min_int(limit, ev.len() as int);
    let taken = ev.take(n);
    match spec_refunds(taken, state.price.amount) {
        None => r == Err::<EndSaleOutcome, ContractError>(ContractError::Overflow),
        Some(refunds) => match tokens {
            Err(e) => r == Err::<EndSaleOutcome, ContractError>(e),
            Ok(ts) => r matches Ok(o) && {
                &&& o.state == (if ts@.len() == 0 && n == 0 { None } else { Some(state) })
                &&& entries_view(o.purchases@) == ev.skip(n)
                &&& string_views(o.released_tokens@) == token_ids(flat(taken))
                &&& attrs_are(o.attributes@, seq![("action"@, "issue_refunds_and_burn_tokens"@)])
                &&& o.messages@.len() == refunds.len() + ts@.len()
                &&& forall|k: int| 0 <= k < refunds.len() ==> is_bank_send_one(#[trigger] o.messages@[k], refunds[k].0, state.price.denom@, refunds[k].1)
                &&& forall|i: int| 0 <= i < ts@.len() ==> is_burn(#[trigger] o.messages@[refunds.len() + i], token_address, ts@[i]@)
            },
        },
    }
}

/// `issue_refunds_and_burn_tokens`: refunds the first `limit` buyers of a
/// failed sale and burns the tokens in `tokens`.
pub fn issue_refunds_and_burn_tokens(
    state: CrowdfundState,
    batch_limit: Option<u32>,
    entries: Vec<PurchaseEntry>,
    tokens: Result<Vec<String>, ContractError>,
    token_address: &String,
) -> (r: Result<EndSaleOutcome, ContractError>)
    requires
        forall|i: int| 0 <= i < min_int(spec_end_limit(batch_limit), entries@.len() as int) ==> (#[trigger] entries@[i]).purchases@.len() > 0,
    ensures
        spec_end_limit(batch_limit) == 0 ==> r == Err::<EndSaleOutcome, ContractError>(ContractError::LimitMustNotBeZero),
        spec_end_limit(batch_limit) > 0 ==> refund_outcome(state, spec_end_limit(batch_limit), entries_view(entries@), tokens, token_address@, r),
{
    let limit = match end_sale_limit(batch_limit) {
        Ok(l) => l,
        Err(e) => return Err(e),
    };
    let ghost ev = entries_view(entries@);
    let n: usize = if limit < entries.len() { limit } else { entries.len() };
    let mut messages: Vec<CosmosMsg> = Vec::new();
    let mut released: Vec<String> = Vec::new();
    let ghost mut refunds: Seq<(Seq<char>, u128)> = Seq::empty();
    let mut i: usize = 0;
    proof { assert(ev.take(0) =~= Seq::<(Seq<char>, Seq<Purchase>)>::empty()); }
    while i < n
        invariant
            n == min_int(limit as int, entries@.len() as int),
            limit as int == spec_end_limit(batch_limit),
            ev == entries_view(entries@),
            i <= n,
            forall|j: int| 0 <= j < n ==> (#[trigger] entries@[j]).purchases@.len() > 0,
            spec_refunds(ev.take(i as int), state.price.amount) == Some(refunds),
            messages@.len() == refunds.len(),
            forall|k: int| 0 <= k < refunds.len() ==> is_bank_send_one(#[trigger] messages@[k], refunds[k].0, state.price.denom@, refunds[k].1),
            string_views(released@) == token_ids(flat(ev.take(i as int))),
        decreases n - i,
    {
        let ps = &entries[i].purchases;
        proof {
            assert(ev.take(i + 1).drop_last() =~= ev.take(i as int));
            assert(ev.take(i + 1).last() == ev[i as int]);
            assert(ev[i as int].1 == ps@);
            lemma_flat_take(ev, i as int);
            lemma_refund_total_nonneg(ps@, state.price.amount);
        }
        let refund = match refund_message(ps, &state.price) {
            Ok(m) => m,
            Err(e) => {
                proof { lemma_refunds_none(ev, state.price.amount, i + 1, n as int); }
                return Err(e);
            },
        };
        match refund {
            Some(m) => {
                proof { refunds = refunds.push((ps@[0].purchaser@, refund_total(ps@, state.price.amount) as u128)); }
                messages.push(m);
            },
            None => {},
        }
        let ghost r0 = released@;
        let mut j: usize = 0;
        while j < ps.len()
            invariant
                j <= ps@.len(),
                string_views(released@) == string_views(r0) + token_ids(ps@.take(j as int)),
            decreases ps.len() - j,
        {
            let ghost rj = released@;
            released.push(ps[j].token_id.clone());
            proof {
                assert(string_views(released@) =~= string_views(rj).push(ps@[j as int].token_id@));
                assert(ps@.take(j + 1) =~= ps@.take(j as int).push(ps@[j as int]));
                assert(token_ids(ps@.take(j + 1)) =~= token_ids(ps@.take(j as int)).push(ps@[j as int].token_id@));
                assert(string_views(released@) =~= string_views(r0) + token_ids(ps@.take(j + 1)));
            }
            j = j + 1;
        }
        proof {
            assert(ps@.take(ps@.len() as int) =~= ps@);
            assert(token_ids(flat(ev.take(i + 1))) =~= token_ids(flat(ev.take(i as int))) + token_ids(ps@));
        }
        i = i + 1;
    }
    let ts = match tokens {
        Err(e) => return Err(e),
        Ok(ts) => ts,
    };
    let burns = burn_messages(token_address, &ts);
    let ghost before = messages@;
    let mut burns = burns;
    let ghost b0 = burns@;
    let n_burns = burns.len();
    messages.append(&mut burns);
    proof {
        assert forall|k: int| 0 <= k < refunds.len() implies is_bank_send_one(#[trigger] messages@[k], refunds[k].0, state.price.denom@, refunds[k].1) by {
            assert(messages@[k] == before[k]);
        }
        assert forall|x: int| 0 <= x < ts@.len() implies is_burn(#[trigger] messages@[refunds.len() + x], token_address@, ts@[x]@) by {
            assert(messages@[refunds.len() + x] == b0[x]);
        }
    }
    let mut entries = entries;
    let rest = entries.split_off(n);
    proof {
        assert forall|j: int| 0 <= j < rest@.len() implies #[trigger] entries_view(rest@)[j] == ev.skip(n as int)[j] by {}
        assert(entries_view(rest@) =~= ev.skip(n as int));
    }
    let new_state = if n_burns == 0 && n == 0 { None } else { Some(state) };
    let attributes = vec![attr("action", "issue_refunds_and_burn_tokens".to_owned())];
    Ok(EndSaleOutcome { state: new_state, purchases: rest, released_tokens: released, messages, attributes })
}

/// `execute_end_sale`: ends an expired sale in batches of `limit`; a sale that
/// sold fewer tokens than its minimum is refunded, any other goes through.
/// `entries` are the stored purchases in storage order, `tokens` the token
/// contract's answer to which tokens the sale holds (at most the batch size).
pub fn execute_end_sale(
    state: Option<CrowdfundState>,
    block: &BlockInfo,
    limit: Option<u32>,
    entries: Vec<PurchaseEntry>,
    tokens: Result<Vec<String>, ContractError>,
    token_address: &String,
) -> (r: Result<EndSaleOutcome, ContractError>)
    requires
        state matches Some(s) && s.amount_sold < s.min_tokens_sold ==> forall|i: int|
            0 <= i < min_int(spec_end_limit(limit), entries@.len() as int) ==> (#[trigger] entries@[i]).purchases@.len() > 0,
        state matches Some(s) && s.amount_sold >= s.min_tokens_sold && s.amount_transferred != s.amount_sold
            ==> flat(entries_view(entries@)).len() > 0,
    ensures
        match state {
            None => r == Err::<EndSaleOutcome, ContractError>(ContractError::NoOngoingSale),
            Some(s) => if !s.expiration.spec_is_expired(*block) {
                r == Err::<EndSaleOutcome, ContractError>(ContractError::SaleNotEnded)
            } else if spec_end_limit(limit) == 0 {
                r == Err::<EndSaleOutcome, ContractError>(ContractError::LimitMustNotBeZero)
            } else if s.amount_sold < s.min_tokens_sold {
                refund_outcome(s, spec_end_limit(limit), entries_view(entries@), tokens, token_address@, r)
            } else {
                transfer_outcome(s, spec_end_limit(limit), entries_view(entries@), tokens, token_address@, r)
            },
        },
{
    let s = match state {
        None => return Err(ContractError::NoOngoingSale),
        Some(s) => s,
    };
    if !s.expiration.is_expired(block) {
        return Err(ContractError::SaleNotEnded);
    }
    if s.amount_sold < s.min_tokens_sold {
        issue_refunds_and_burn_tokens(s, limit, entries, tokens, token_address)
    } else {
        transfer_tokens_and_send_funds(s, limit, entries, tokens, token_address)
    }
}

/// Each stored purchase is stored under its own buyer.
pub open spec fn stored_under_buyer(s: Seq<(Seq<char>, Seq<Purchase>)>) -> bool {
    forall|i: int, k: int| 0 <= i < s.len() && 0 <= k < s[i].1.len() ==> (#[trigger] s[i].1[k]).purchaser@ == s[i].0
}

/// A batch that stops inside a buyer's purchases stops inside those of the
/// buyer it keeps.
pub open spec fn stops_at_kept_buyer(fl: Seq<Purchase>, done: int, last: Seq<char>, keep_last: bool) -> bool {
    0 < done < fl.len() && fl[done - 1].purchaser@ == fl[done].purchaser@ ==> fl[done].purchaser@ == last && keep_last
}

proof fn lemma_after_transfer_none(s: Seq<(Seq<char>, Seq<Purchase>)>, last: Seq<char>, keep_last: bool)
    ensures
        after_transfer(s, 0, last, keep_last) == s,
    decreases s.len(),
{
    if s.len() > 0 {
        lemma_after_transfer_none(s.drop_first(), last, keep_last);
        assert(s =~= seq![s[0]] + s.drop_first());
    }
}

proof fn lemma_after_transfer_flat(s: Seq<(Seq<char>, Seq<Purchase>)>, done: int, last: Seq<char>, keep_last: bool)
    requires
        stored_under_buyer(s),
        0 <= done <= flat(s).len(),
        stops_at_kept_buyer(flat(s), done, last, keep_last),
    ensures
        flat(after_transfer(s, done, last, keep_last)) == flat(s).skip(done),
    decreases s.len(),
{
    if s.len() == 0 {
        assert(flat(s).skip(done) =~= Seq::<Purchase>::empty());
    } else if done == 0 {
        lemma_after_transfer_none(s, last, keep_last);
        assert(flat(s).skip(0) =~= flat(s));
    } else {
        let e = s[0];
        let rest = s.drop_first();
        let fr = flat(rest);
        assert(flat(s) == e.1 + fr);
        assert(stored_under_buyer(rest)) by {
            assert forall|i: int, k: int| 0 <= i < rest.len() && 0 <= k < rest[i].1.len() implies (#[trigger] rest[i].1[k]).purchaser@ == rest[i].0 by {
                assert(rest[i] == s[i + 1]);
            }
        }
        let c = min_int(done, e.1.len() as int);
        if e.1.len() == 0 {
            assert(flat(s) =~= fr);
            lemma_after_transfer_flat(rest, done, last, keep_last);
            assert(flat(seq![e] + after_transfer(rest, done, last, keep_last)) =~= e.1 + flat(after_transfer(rest, done, last, keep_last))) by {
                let x = seq![e] + after_transfer(rest, done, last, keep_last);
                assert(x.drop_first() =~= after_transfer(rest, done, last, keep_last));
            }
        } else if done < e.1.len() {
            assert(flat(s)[done - 1] == e.1[done - 1]);
            assert(flat(s)[done] == e.1[done]);
            assert(e.1[done - 1].purchaser@ == e.0 && e.1[done].purchaser@ == e.0) by {
                assert(s[0].1[done - 1] == e.1[done - 1]);
                assert(s[0].1[done] == e.1[done]);
            }
            lemma_after_transfer_none(rest, last, keep_last);
            let kept = seq![(e.0, e.1.skip(done))] + rest;
            assert(kept.drop_first() =~= rest);
            assert(flat(kept) =~= e.1.skip(done) + fr);
            assert(flat(s).skip(done) =~= e.1.skip(done) + fr);
        } else {
            let d = done - e.1.len();
            assert(stops_at_kept_buyer(fr, d, last, keep_last)) by {
                if 0 < d < fr.len() {
                    assert(fr[d - 1] == flat(s)[done - 1]);
                    assert(fr[d] == flat(s)[done]);
                }
            }
            lemma_after_transfer_flat(rest, d, last, keep_last);
            assert(fr.skip(d) =~= flat(s).skip(done));
            if e.0 == last && keep_last {
                let kept = seq![(e.0, e.1.skip(c))] + after_transfer(rest, d, last, keep_last);
                assert(kept.drop_first() =~= after_transfer(rest, d, last, keep_last));
                assert(e.1.skip(c) =~= Seq::<Purchase>::empty());
                assert(flat(kept) =~= flat(after_transfer(rest, d, last, keep_last)));
            }
        }
    }
}

/// Ending a sale that went through hands out purchases batch by batch, each
/// exactly once and in order: what remains stored after a batch is exactly
/// what follows the purchases the batch hands out.
pub proof fn batch_leaves_the_rest(ev: Seq<(Seq<char>, Seq<Purchase>)>, limit: int)
    requires
        stored_under_buyer(ev),
        limit > 0,
        flat(ev).len() > 0,
    ensures
        ({
            let fl = flat(ev);
            let np = batch_len(fl, limit);
            flat(after_transfer(ev, np, last_purchaser(fl, limit), keeps_last(fl, limit))) == fl.skip(np)
        }),
{
    let fl = flat(ev);
    let np = batch_len(fl, limit);
    let last = last_purchaser(fl, limit);
    let keep = keeps_last(fl, limit);
    assert(stops_at_kept_buyer(fl, np, last, keep));
    lemma_after_transfer_flat(ev, np, last, keep);
}

} // verus!
