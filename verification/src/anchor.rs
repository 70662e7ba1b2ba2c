//! Anchor positions: uusd deposited for a recipient is lent to Anchor and
//! tracked as the aUST it minted; a position is withdrawn as uusd (redeemed)
//! or as aUST; bLuna collateral is posted and withdrawn, and stable coins are
//! borrowed against it up to a loan-to-value ratio.
use vstd::prelude::*;
use crate::common::{attr, attrs_are, decimal, decimal_string, Attribute, invalid_funds, is_invalid_funds, Coin, ContractError, CosmosMsg, ExecAction, is_bank_send_one};
use crate::ado::{Withdrawal, spec_get_amount, get_amount};
use crate::math::{decimal_text, Decimal, DECIMAL_FRACTIONAL, checked_ratio, fractional, mul_dec, spec_mul_dec, checked_multiply_ratio};

verus! {

/// Who gets funds: an address, or an Andromeda contract that receives them
/// with its `AndrReceive` message.
#[derive(Clone, Debug, PartialEq, Eq)]
pub enum Recipient {
    Addr(String),
    Ado { address: String },
}

impl Recipient {
    /// `get_addr`: the recipient's address.
    pub open spec fn addr(self) -> Seq<char> {
        match self {
            Recipient::Addr(a) => a@,
            Recipient::Ado { address } => address@,
        }
    }

    pub fn get_addr(&self) -> (r: String)
        ensures
            r@ == self.addr(),
    {
        match self {
            Recipient::Addr(a) => a.clone(),
            Recipient::Ado { address } => address.clone(),
        }
    }
}

/// Whether `m` pays `amount` of the cw20 `token` to `recipient` (a transfer to
/// an address, a send to a contract).
pub open spec fn pays_cw20(m: CosmosMsg, recipient: Recipient, token: Seq<char>, amount: u128) -> bool {
    match m {
        CosmosMsg::Execute { contract, action, funds } => {
            &&& contract@ == token
            &&& funds@.len() == 0
            &&& match recipient {
                Recipient::Addr(a) => action matches ExecAction::Cw20Transfer { recipient: rc, amount: x } && rc@ == a@ && x == amount,
                Recipient::Ado { address } => action matches ExecAction::Cw20Send { contract: c, amount: x, .. } && c@ == address@ && x == amount,
            }
        },
        _ => false,
    }
}

/// `Recipient::generate_msg_cw20`: pays `amount` of the cw20 `token` to the recipient.
pub fn generate_msg_cw20(recipient: &Recipient, token: &String, amount: u128) -> (r: CosmosMsg)
    ensures
        pays_cw20(r, *recipient, token@, amount),
{
    let action = match recipient {
        Recipient::Addr(a) => ExecAction::Cw20Transfer { recipient: a.clone(), amount },
        Recipient::Ado { address } => ExecAction::Cw20Send { contract: address.clone(), amount, hook: "andr_receive".to_owned() },
    };
    CosmosMsg::Execute { contract: token.clone(), action, funds: Vec::new() }
}

/// Whether `m` pays `amount` uusd to `recipient` (a bank send to an address,
/// an `AndrReceive` with the funds to a contract).
pub open spec fn pays_uusd(m: CosmosMsg, recipient: Recipient, amount: u128) -> bool {
    match recipient {
        Recipient::Addr(a) => is_bank_send_one(m, a@, "uusd"@, amount),
        Recipient::Ado { address } => m matches CosmosMsg::Execute { contract, action: ExecAction::Call { name }, funds }
            && contract@ == address@ && funds@.len() == 1 && funds@[0].denom@ == "uusd"@ && funds@[0].amount == amount,
    }
}

/// `Recipient::generate_msg_native`: pays `amount` uusd to the recipient.
pub fn generate_msg_uusd(recipient: &Recipient, amount: u128) -> (r: CosmosMsg)
    ensures
        pays_uusd(r, *recipient, amount),
{
    let coins = vec![Coin { denom: "uusd".to_owned(), amount }];
    match recipient {
        Recipient::Addr(a) => CosmosMsg::BankSend { to_address: a.clone(), amount: coins },
        Recipient::Ado { address } => CosmosMsg::Execute {
            contract: address.clone(),
            action: ExecAction::Call { name: "andr_receive".to_owned() },
            funds: coins,
        },
    }
}

/// A recipient's position: who it pays out to and the aUST it holds.
#[derive(Clone, Debug, PartialEq, Eq)]
pub struct Position {
    pub recipient: Recipient,
    pub aust_amount: u128,
}

/// `str::to_lowercase` of a text.
pub uninterp spec fn lowercase(s: Seq<char>) -> Seq<char>;

/// `str::to_lowercase`. The contract names the result: lower-casing is a
/// function of the text alone.
#[verifier::external_body]
fn to_lowercase(s: &String) -> (r: String)
    ensures
        r@ == lowercase(s@),
{
    s.to_lowercase()
}

/// Whether a withdrawal names uusd.
pub open spec fn names_uusd(w: Withdrawal) -> bool {
    lowercase(w.token@) == "uusd"@
}

/// Whether a withdrawal names aUST (by name or by its token's address).
pub open spec fn names_aust(w: Withdrawal, aust_address: Seq<char>) -> bool {
    lowercase(w.token@) == "aust"@ || lowercase(w.token@) == aust_address
}

/// The first withdrawal of `ws` that names uusd.
pub open spec fn first_uusd(ws: Seq<Withdrawal>) -> Option<int>
    decreases ws.len(),
{
    if ws.len() == 0 {
        None
    } else if names_uusd(ws[0]) {
        Some(0)
    } else {
        match first_uusd(ws.drop_first()) { None => None, Some(i) => Some(i + 1) }
    }
}

/// The first withdrawal of `ws` that names aUST.
pub open spec fn first_aust(ws: Seq<Withdrawal>, aust_address: Seq<char>) -> Option<int>
    decreases ws.len(),
{
    if ws.len() == 0 {
        None
    } else if names_aust(ws[0], aust_address) {
        Some(0)
    } else {
        match first_aust(ws.drop_first(), aust_address) { None => None, Some(i) => Some(i + 1) }
    }
}

proof fn lemma_first_uusd(ws: Seq<Withdrawal>, i: int)
    requires
        0 <= i <= ws.len(),
        forall|j: int| 0 <= j < i ==> !names_uusd(#[trigger] ws[j]),
    ensures
        i < ws.len() && names_uusd(ws[i]) ==> first_uusd(ws) == Some(i),
        i == ws.len() ==> first_uusd(ws) is None,
    decreases i,
{
    if i > 0 {
        assert forall|j: int| 0 <= j < i - 1 implies !names_uusd(#[trigger] ws.drop_first()[j]) by {
            assert(ws.drop_first()[j] == ws[j + 1]);
        }
        lemma_first_uusd(ws.drop_first(), i - 1);
        if i < ws.len() {
            assert(ws.drop_first()[i - 1] == ws[i]);
        }
    }
}

proof fn lemma_first_aust(ws: Seq<Withdrawal>, a: Seq<char>, i: int)
    requires
        0 <= i <= ws.len(),
        forall|j: int| 0 <= j < i ==> !names_aust(#[trigger] ws[j], a),
    ensures
        i < ws.len() && names_aust(ws[i], a) ==> first_aust(ws, a) == Some(i),
        i == ws.len() ==> first_aust(ws, a) is None,
    decreases i,
{
    if i > 0 {
        assert forall|j: int| 0 <= j < i - 1 implies !names_aust(#[trigger] ws.drop_first()[j], a) by {
            assert(ws.drop_first()[j] == ws[j + 1]);
        }
        lemma_first_aust(ws.drop_first(), a, i - 1);
        if i < ws.len() {
            assert(ws.drop_first()[i - 1] == ws[i]);
        }
    }
}

fn find_uusd(ws: &Vec<Withdrawal>) -> (r: Option<usize>)
    ensures
        match first_uusd(ws@) { None => r is None, Some(i) => r matches Some(k) && k as int == i },
        r matches Some(i) ==> i < ws@.len(),
{
    let mut i: usize = 0;
    while i < ws.len()
        invariant
            i <= ws@.len(),
            forall|j: int| 0 <= j < i ==> !names_uusd(#[trigger] ws@[j]),
        decreases ws.len() - i,
    {
        let t = to_lowercase(&ws[i].token);
        if t == "uusd".to_owned() {
            proof { lemma_first_uusd(ws@, i as int); }
            return Some(i);
        }
        i = i + 1;
    }
    proof { lemma_first_uusd(ws@, i as int); }
    None
}

fn find_aust(ws: &Vec<Withdrawal>, aust_address: &String) -> (r: Option<usize>)
    ensures
        match first_aust(ws@, aust_address@) { None => r is None, Some(i) => r matches Some(k) && k as int == i },
        r matches Some(i) ==> i < ws@.len(),
{
    let mut i: usize = 0;
    while i < ws.len()
        invariant
            i <= ws@.len(),
            forall|j: int| 0 <= j < i ==> !names_aust(#[trigger] ws@[j], aust_address@),
        decreases ws.len() - i,
    {
        let t = to_lowercase(&ws[i].token);
        if t == "aust".to_owned() || t == *aust_address {
            proof { lemma_first_aust(ws@, aust_address@, i as int); }
            return Some(i);
        }
        i = i + 1;
    }
    proof { lemma_first_aust(ws@, aust_address@, i as int); }
    None
}

/// How a position is withdrawn: as uusd or as aUST, by the given withdrawal.
#[derive(Clone, Debug)]
pub enum WithdrawChoice {
    Uusd(Withdrawal),
    Aust(Withdrawal),
}

/// `handle_withdraw`: a position is withdrawn by its owner (the recipient's
/// address) or by the contract's owner or an operator (`authorized`); the
/// recipient must be an address, and the withdrawals must name exactly one of
/// uusd and aUST (the first of each kind counts). Gives the position's
/// address and how it is withdrawn.
pub fn handle_withdraw(
    sender: &String,
    authorized: bool,
    recipient: Option<Recipient>,
    tokens_to_withdraw: Option<Vec<Withdrawal>>,
    aust_address: &String,
) -> (r: Result<(String, WithdrawChoice), ContractError>)
    ensures
        ({
            let rec = match recipient { Some(x) => x, None => Recipient::Addr(*sender) };
            if !(rec.addr() == sender@ || authorized) {
                r == Err::<(String, WithdrawChoice), ContractError>(ContractError::Unauthorized)
            } else if !(rec is Addr) {
                r == Err::<(String, WithdrawChoice), ContractError>(ContractError::InvalidRecipientType)
            } else {
                match tokens_to_withdraw {
                    None => r == Err::<(String, WithdrawChoice), ContractError>(ContractError::InvalidTokensToWithdraw),
                    Some(ws) => match (first_uusd(ws@), first_aust(ws@, aust_address@)) {
                        (Some(i), None) => r matches Ok((a, WithdrawChoice::Uusd(w))) && a@ == rec.addr() && w == ws@[i],
                        (None, Some(i)) => r matches Ok((a, WithdrawChoice::Aust(w))) && a@ == rec.addr() && w == ws@[i],
                        _ => r == Err::<(String, WithdrawChoice), ContractError>(ContractError::InvalidTokensToWithdraw),
                    },
                }
            }
        }),
{
    let rec = match recipient {
        Some(x) => x,
        None => Recipient::Addr(sender.clone()),
    };
    let recipient_addr = rec.get_addr();
    if !(recipient_addr == *sender || authorized) {
        return Err(ContractError::Unauthorized);
    }
    if let Recipient::Ado { .. } = rec {
        return Err(ContractError::InvalidRecipientType);
    }
    let ws = match tokens_to_withdraw {
        None => return Err(ContractError::InvalidTokensToWithdraw),
        Some(ws) => ws,
    };
    let u = find_uusd(&ws);
    let a = find_aust(&ws, aust_address);
    match (u, a) {
        (Some(i), None) => Ok((recipient_addr, WithdrawChoice::Uusd(ws[i].copy()))),
        (None, Some(i)) => Ok((recipient_addr, WithdrawChoice::Aust(ws[i].copy()))),
        _ => Err(ContractError::InvalidTokensToWithdraw),
    }
}

/// The position after a withdrawal and the aUST it takes: the position's
/// owner, or the contract's owner or an operator (`authorized`), withdraws
/// what `withdrawal` takes of the position's aUST.
pub fn withdraw_from_position(
    position: Option<Position>,
    sender: &String,
    position_addr: &String,
    authorized: bool,
    withdrawal: &Withdrawal,
) -> (r: Result<(Position, u128), ContractError>)
    ensures
        match position {
            None => r == Err::<(Position, u128), ContractError>(ContractError::NotFound),
            Some(p) => if !(position_addr@ == sender@ || authorized) {
                r == Err::<(Position, u128), ContractError>(ContractError::Unauthorized)
            } else {
                match spec_get_amount(withdrawal.withdrawal_type, p.aust_amount) {
                    Err(e) => r == Err::<(Position, u128), ContractError>(e),
                    Ok(a) => r == Ok::<(Position, u128), ContractError>((Position { aust_amount: (p.aust_amount - a) as u128, ..p }, a)),
                }
            },
        },
{
    let mut p = match position {
        None => return Err(ContractError::NotFound),
        Some(p) => p,
    };
    if !(*position_addr == *sender || authorized) {
        return Err(ContractError::Unauthorized);
    }
    let amount = match get_amount(withdrawal.withdrawal_type, p.aust_amount) {
        Ok(a) => a,
        Err(e) => return Err(e),
    };
    p.aust_amount = p.aust_amount - amount;
    Ok((p, amount))
}

/// `withdraw_uusd`: redeems the withdrawn aUST at the market (the uusd it
/// yields is paid out on the reply). Gives the position, the redemption and
/// the response attributes.
pub fn withdraw_uusd(
    position: Option<Position>,
    sender: &String,
    position_addr: &String,
    authorized: bool,
    withdrawal: &Withdrawal,
    aust_token: &String,
    market: &String,
) -> (r: Result<(Position, CosmosMsg, Vec<Attribute>), ContractError>)
    ensures
        match position {
            None => r == Err::<(Position, CosmosMsg, Vec<Attribute>), ContractError>(ContractError::NotFound),
            Some(p) => if !(position_addr@ == sender@ || authorized) {
                r == Err::<(Position, CosmosMsg, Vec<Attribute>), ContractError>(ContractError::Unauthorized)
            } else {
                match spec_get_amount(withdrawal.withdrawal_type, p.aust_amount) {
                    Err(e) => r == Err::<(Position, CosmosMsg, Vec<Attribute>), ContractError>(e),
                    Ok(a) => r matches Ok((p2, m, attrs)) && p2 == Position { aust_amount: (p.aust_amount - a) as u128, ..p }
                        && (m matches CosmosMsg::Execute { contract, action: ExecAction::Cw20Send { contract: to, amount, hook }, funds }
                        && contract@ == aust_token@ && to@ == market@ && amount == a && hook@ == "redeem_stable"@ && funds@.len() == 0)
                        && attrs_are(attrs@, seq![("action"@, "withdraw"@), ("recipient_addr"@, position_addr@)]),
                }
            },
        },
{
    let (p, amount) = match withdraw_from_position(position, sender, position_addr, authorized, withdrawal) {
        Ok(x) => x,
        Err(e) => return Err(e),
    };
    let m = CosmosMsg::Execute {
        contract: aust_token.clone(),
        action: ExecAction::Cw20Send { contract: market.clone(), amount, hook: "redeem_stable".to_owned() },
        funds: Vec::new(),
    };
    let attrs = vec![attr("action", "withdraw".to_owned()), attr("recipient_addr", position_addr.clone())];
    Ok((p, m, attrs))
}

/// `withdraw_aust`: pays the withdrawn aUST to the position's recipient.
/// Gives the position, the payment and the response attributes.
pub fn withdraw_aust(
    position: Option<Position>,
    sender: &String,
    position_addr: &String,
    authorized: bool,
    withdrawal: &Withdrawal,
    aust_token: &String,
) -> (r: Result<(Position, CosmosMsg, Vec<Attribute>), ContractError>)
    ensures
        match position {
            None => r == Err::<(Position, CosmosMsg, Vec<Attribute>), ContractError>(ContractError::NotFound),
            Some(p) => if !(position_addr@ == sender@ || authorized) {
                r == Err::<(Position, CosmosMsg, Vec<Attribute>), ContractError>(ContractError::Unauthorized)
            } else {
                match spec_get_amount(withdrawal.withdrawal_type, p.aust_amount) {
                    Err(e) => r == Err::<(Position, CosmosMsg, Vec<Attribute>), ContractError>(e),
                    Ok(a) => r matches Ok((p2, m, attrs)) && p2 == Position { aust_amount: (p.aust_amount - a) as u128, ..p }
                        && pays_cw20(m, p.recipient, aust_token@, a)
                        && attrs_are(attrs@, seq![("action"@, "withdraw_aust"@), ("recipient_addr"@, position_addr@)]),
                }
            },
        },
{
    let (p, amount) = match withdraw_from_position(position, sender, position_addr, authorized, withdrawal) {
        Ok(x) => x,
        Err(e) => return Err(e),
    };
    let m = generate_msg_cw20(&p.recipient, aust_token, amount);
    let attrs = vec![attr("action", "withdraw_aust".to_owned()), attr("recipient_addr", position_addr.clone())];
    Ok((p, m, attrs))
}

/// `execute_deposit`: exactly one coin, a non-zero amount of uusd, is lent to
/// the market for `recipient` (the sender if none). Gives the recipient's
/// address, the position to create when it has none yet (`has_position`),
/// the deposit message, whose reply books the minted aUST, and the response
/// attributes.
pub fn execute_deposit(
    funds: &Vec<Coin>,
    sender: &String,
    recipient: Option<Recipient>,
    has_position: bool,
    market: &String,
) -> (r: Result<(String, Option<Position>, CosmosMsg, Vec<Attribute>), ContractError>)
    ensures
        funds@.len() != 1 ==> is_invalid_funds(r, "Must deposit exactly 1 type of native coin."@),
        funds@.len() == 1 && !(funds@[0].denom@ == "uusd"@ && funds@[0].amount > 0)
            ==> is_invalid_funds(r, "Must deposit a non-zero quantity of uusd"@),
        funds@.len() == 1 && funds@[0].denom@ == "uusd"@ && funds@[0].amount > 0 ==> ({
            let rec = match recipient { Some(x) => x, None => Recipient::Addr(*sender) };
            r matches Ok((a, p, m, attrs)) && a@ == rec.addr()
                && attrs_are(attrs@, seq![("action"@, "deposit"@), ("deposit_amount"@, decimal(funds@[0].amount as nat))])
                && (if has_position { p is None } else { p == Some(Position { recipient: rec, aust_amount: 0 }) })
                && (m matches CosmosMsg::Execute { contract, action: ExecAction::Call { name }, funds: f }
                && contract@ == market@ && name@ == "deposit_stable"@ && f@ == funds@)
        }),
{
    if funds.len() != 1 {
        return Err(invalid_funds("Must deposit exactly 1 type of native coin."));
    }
    let rec = match recipient {
        Some(x) => x,
        None => Recipient::Addr(sender.clone()),
    };
    let payment = funds[0].copy();
    if !(payment.denom == "uusd".to_owned() && payment.amount > 0) {
        return Err(invalid_funds("Must deposit a non-zero quantity of uusd"));
    }
    let addr = rec.get_addr();
    let position = if has_position { None } else { Some(Position { recipient: rec, aust_amount: 0 }) };
    let m = CosmosMsg::Execute {
        contract: market.clone(),
        action: ExecAction::Call { name: "deposit_stable".to_owned() },
        funds: vec![payment],
    };
    proof { assert(m->Execute_funds@ =~= funds@); }
    let attrs = vec![attr("action", "deposit".to_owned()), attr("deposit_amount", decimal_string(funds[0].amount))];
    Ok((addr, position, m, attrs))
}

/// `reply_update_position`: the aUST minted by a deposit (the balance now less
/// the balance before) is booked to the position; a deposit that minted none
/// is refused. Gives the position and the response attributes, which name the
/// position by its recipient's address.
pub fn reply_update_position(aust_balance: u128, prev_aust_balance: u128, position: Option<Position>) -> (r: Result<(Position, Vec<Attribute>), ContractError>)
    ensures
        aust_balance < prev_aust_balance ==> r == Err::<(Position, Vec<Attribute>), ContractError>(ContractError::Overflow),
        aust_balance == prev_aust_balance ==> is_invalid_funds(r, "No aUST tokens minted"@),
        aust_balance > prev_aust_balance ==> match position {
            None => r == Err::<(Position, Vec<Attribute>), ContractError>(ContractError::NotFound),
            Some(p) => if p.aust_amount + (aust_balance - prev_aust_balance) > u128::MAX {
                r == Err::<(Position, Vec<Attribute>), ContractError>(ContractError::Overflow)
            } else {
                r matches Ok((p2, attrs))
                    && p2 == Position { aust_amount: (p.aust_amount + (aust_balance - prev_aust_balance)) as u128, ..p }
                    && attrs_are(attrs@, seq![
                        ("action"@, "reply_update_position"@),
                        ("recipient_addr"@, p.recipient.addr()),
                        ("aust_amount"@, decimal((aust_balance - prev_aust_balance) as nat)),
                    ])
            },
        },
{
    if aust_balance < prev_aust_balance {
        return Err(ContractError::Overflow);
    }
    let minted = aust_balance - prev_aust_balance;
    if minted == 0 {
        return Err(invalid_funds("No aUST tokens minted"));
    }
    let mut p = match position {
        None => return Err(ContractError::NotFound),
        Some(p) => p,
    };
    p.aust_amount = match p.aust_amount.checked_add(minted) {
        Some(a) => a,
        None => return Err(ContractError::Overflow),
    };
    let attrs = vec![
        attr("action", "reply_update_position".to_owned()),
        attr("recipient_addr", p.recipient.get_addr()),
        attr("aust_amount", decimal_string(minted)),
    ];
    Ok((p, attrs))
}

/// `reply_withdraw_ust`: the uusd a redemption yielded (the balance now less
/// the balance before) goes to the position's recipient, if there is any.
/// Gives the payment and the response attributes.
pub fn reply_withdraw_ust(current_balance: u128, prev_balance: u128, recipient: &Recipient) -> (r: Result<(Option<CosmosMsg>, Vec<Attribute>), ContractError>)
    ensures
        current_balance < prev_balance ==> r == Err::<(Option<CosmosMsg>, Vec<Attribute>), ContractError>(ContractError::Overflow),
        current_balance >= prev_balance ==> (r matches Ok((m, attrs)) && {
            &&& current_balance == prev_balance ==> m is None
            &&& current_balance > prev_balance ==> (m matches Some(msg) && pays_uusd(msg, *recipient, (current_balance - prev_balance) as u128))
            &&& attrs_are(attrs@, seq![
                ("action"@, "reply_withdraw_ust"@),
                ("recipient"@, recipient.addr()),
                ("amount"@, decimal((current_balance - prev_balance) as nat)),
            ])
        }),
{
    if current_balance < prev_balance {
        return Err(ContractError::Overflow);
    }
    let amount = current_balance - prev_balance;
    let attrs = vec![
        attr("action", "reply_withdraw_ust".to_owned()),
        attr("recipient", recipient.get_addr()),
        attr("amount", decimal_string(amount)),
    ];
    if amount == 0 {
        return Ok((None, attrs));
    }
    Ok((Some(generate_msg_uusd(recipient, amount)), attrs))
}

/// `reply`: replies are told apart by their id.
pub fn reply_kind(id: u64) -> (r: Result<bool, ContractError>)
    ensures
        id == 1 ==> r == Ok::<bool, ContractError>(true),
        id == 2 ==> r == Ok::<bool, ContractError>(false),
        id != 1 && id != 2 ==> r == Err::<bool, ContractError>(ContractError::InvalidReplyId),
{
    if id == 1 {
        Ok(true)
    } else if id == 2 {
        Ok(false)
    } else {
        Err(ContractError::InvalidReplyId)
    }
}

/// `execute_deposit_collateral`: the owner or an operator bonds exactly one
/// coin of uluna into bLuna, which this contract then posts as collateral.
/// Gives the messages and the response attributes.
pub fn execute_deposit_collateral(
    authorized: bool,
    funds: Vec<Coin>,
    bluna_hub: &String,
    contract_address: &String,
    bluna_token: &String,
) -> (r: Result<(Vec<CosmosMsg>, Vec<Attribute>), ContractError>)
    ensures
        !authorized ==> r == Err::<(Vec<CosmosMsg>, Vec<Attribute>), ContractError>(ContractError::Unauthorized),
        authorized && funds@.len() != 1 ==> is_invalid_funds(r, "Must deposit exactly 1 type of native coin."@),
        authorized && funds@.len() == 1 && funds@[0].denom@ != "uluna"@ ==> is_invalid_funds(r, "Only accept uluna as collateral"@),
        authorized && funds@.len() == 1 && funds@[0].denom@ == "uluna"@ ==> (r matches Ok((msgs, attrs)) && msgs@.len() == 2
            && attrs_are(attrs@, seq![("action"@, "deposit_collateral"@)])
            && (msgs@[0] matches CosmosMsg::Execute { contract, action: ExecAction::Call { name }, funds: f }
                && contract@ == bluna_hub@ && name@ == "bond"@ && f@ == funds@)
            && (msgs@[1] matches CosmosMsg::Execute { contract, action: ExecAction::DepositCollateralToAnchor { collateral_addr }, funds: f }
                && contract@ == contract_address@ && collateral_addr@ == bluna_token@ && f@.len() == 0)),
{
    if !authorized {
        return Err(ContractError::Unauthorized);
    }
    if funds.len() != 1 {
        return Err(invalid_funds("Must deposit exactly 1 type of native coin."));
    }
    if funds[0].denom != "uluna".to_owned() {
        return Err(invalid_funds("Only accept uluna as collateral"));
    }
    let ghost fv = funds@;
    let bond = CosmosMsg::Execute { contract: bluna_hub.clone(), action: ExecAction::Call { name: "bond".to_owned() }, funds };
    let post = CosmosMsg::Execute {
        contract: contract_address.clone(),
        action: ExecAction::DepositCollateralToAnchor { collateral_addr: bluna_token.clone() },
        funds: Vec::new(),
    };
    Ok((vec![bond, post], vec![attr("action", "deposit_collateral".to_owned())]))
}

/// `execute_deposit_collateral_to_anchor`: bLuna (only) is sent to the custody
/// contract and locked as collateral at the overseer, by the owner, an
/// operator or this contract itself (`authorized`). Gives the messages and the
/// response attributes.
pub fn execute_deposit_collateral_to_anchor(
    authorized: bool,
    token: &String,
    bluna_token: &String,
    custody: &String,
    overseer: &String,
    amount: u128,
) -> (r: Result<(Vec<CosmosMsg>, Vec<Attribute>), ContractError>)
    ensures
        !authorized ==> r == Err::<(Vec<CosmosMsg>, Vec<Attribute>), ContractError>(ContractError::Unauthorized),
        authorized && token@ != bluna_token@ ==> is_invalid_funds(r, "Only bLuna collateral supported"@),
        authorized && token@ == bluna_token@ ==> (r matches Ok((msgs, attrs)) && msgs@.len() == 2
            && attrs_are(attrs@, seq![("action"@, "deposit_collateral_to_anchor"@)])
            && (msgs@[0] matches CosmosMsg::Execute { contract, action: ExecAction::Cw20Send { contract: to, amount: a, hook }, funds }
                && contract@ == token@ && to@ == custody@ && a == amount && hook@ == "deposit_collateral"@ && funds@.len() == 0)
            && (msgs@[1] matches CosmosMsg::Execute { contract, action: ExecAction::LockCollateral { token: t, amount: a }, funds }
                && contract@ == overseer@ && t@ == bluna_token@ && a == amount && funds@.len() == 0)),
{
    if !authorized {
        return Err(ContractError::Unauthorized);
    }
    if *token != *bluna_token {
        return Err(invalid_funds("Only bLuna collateral supported"));
    }
    let msgs = vec![
        CosmosMsg::Execute {
            contract: token.clone(),
            action: ExecAction::Cw20Send { contract: custody.clone(), amount, hook: "deposit_collateral".to_owned() },
            funds: Vec::new(),
        },
        CosmosMsg::Execute {
            contract: overseer.clone(),
            action: ExecAction::LockCollateral { token: bluna_token.clone(), amount },
            funds: Vec::new(),
        },
    ];
    Ok((msgs, vec![attr("action", "deposit_collateral_to_anchor".to_owned())]))
}

/// The amount of `token` among the posted `collaterals` (the first entry for it).
pub open spec fn collateral_amount(collaterals: Seq<(String, u128)>, token: Seq<char>) -> Option<u128>
    decreases collaterals.len(),
{
    if collaterals.len() == 0 {
        None
    } else if collaterals[0].0@ == token {
        Some(collaterals[0].1)
    } else {
        collateral_amount(collaterals.drop_first(), token)
    }
}

fn find_collateral(collaterals: &Vec<(String, u128)>, token: &String) -> (r: Option<u128>)
    ensures
        r == collateral_amount(collaterals@, token@),
{
    let mut i: usize = 0;
    proof { assert(collaterals@.skip(0) =~= collaterals@); }
    while i < collaterals.len()
        invariant
            i <= collaterals@.len(),
            collateral_amount(collaterals@, token@) == collateral_amount(collaterals@.skip(i as int), token@),
        decreases collaterals.len() - i,
    {
        proof {
            let s = collaterals@.skip(i as int);
            assert(s.drop_first() =~= collaterals@.skip(i + 1));
            assert(s[0] == collaterals@[i as int]);
        }
        if collaterals[i].0 == *token {
            return Some(collaterals[i].1);
        }
        i = i + 1;
    }
    proof { assert(collaterals@.skip(i as int) =~= Seq::<(String, u128)>::empty()); }
    None
}

/// `execute_withdraw_collateral`: the owner or an operator unlocks and takes
/// bLuna collateral back (all that is posted when no amount is given; the
/// overseer's `collaterals` tell how much), then either unbonds it at the hub
/// or pays it to the recipient (the sender if none).
pub fn execute_withdraw_collateral(
    authorized: bool,
    sender: &String,
    collateral_addr: &String,
    bluna_token: &String,
    custody: &String,
    hub: &String,
    overseer: &String,
    amount: Option<u128>,
    collaterals: &Vec<(String, u128)>,
    unbond: Option<bool>,
    recipient: Option<Recipient>,
) -> (r: Result<(Vec<CosmosMsg>, Vec<Attribute>), ContractError>)
    ensures
        !authorized ==> r == Err::<(Vec<CosmosMsg>, Vec<Attribute>), ContractError>(ContractError::Unauthorized),
        authorized && collateral_addr@ != bluna_token@ ==> is_invalid_funds(r, "Only bluna collateral supported"@),
        authorized && collateral_addr@ == bluna_token@ ==> match (match amount { Some(a) => Some(a), None => collateral_amount(collaterals@, collateral_addr@) }) {
            None => r == Err::<(Vec<CosmosMsg>, Vec<Attribute>), ContractError>(ContractError::InvalidAddress),
            Some(a) => r matches Ok((msgs, attrs)) && attrs_are(attrs@, seq![("action"@, "withdraw_collateral"@)]) && msgs@.len() == 3
                && (msgs@[0] matches CosmosMsg::Execute { contract, action: ExecAction::UnlockCollateral { token, amount: x }, funds }
                    && contract@ == overseer@ && token@ == collateral_addr@ && x == a && funds@.len() == 0)
                && (msgs@[1] matches CosmosMsg::Execute { contract, action: ExecAction::WithdrawCollateral { amount: x }, funds }
                    && contract@ == custody@ && x == a && funds@.len() == 0)
                && (if unbond == Some(true) {
                    msgs@[2] matches CosmosMsg::Execute { contract, action: ExecAction::Cw20Send { contract: to, amount: x, hook }, funds }
                        && contract@ == collateral_addr@ && to@ == hub@ && x == a && hook@ == "unbond"@ && funds@.len() == 0
                } else {
                    pays_cw20(msgs@[2], match recipient { Some(x) => x, None => Recipient::Addr(*sender) }, collateral_addr@, a)
                }),
        },
{
    if !authorized {
        return Err(ContractError::Unauthorized);
    }
    if *collateral_addr != *bluna_token {
        return Err(invalid_funds("Only bluna collateral supported"));
    }
    let a = match amount {
        Some(a) => a,
        None => match find_collateral(collaterals, collateral_addr) {
            Some(a) => a,
            None => return Err(ContractError::InvalidAddress),
        },
    };
    let unbonding = match unbond {
        Some(b) => b,
        None => false,
    };
    let last = if unbonding {
        CosmosMsg::Execute {
            contract: collateral_addr.clone(),
            action: ExecAction::Cw20Send { contract: hub.clone(), amount: a, hook: "unbond".to_owned() },
            funds: Vec::new(),
        }
    } else {
        let rec = match recipient {
            Some(x) => x,
            None => Recipient::Addr(sender.clone()),
        };
        generate_msg_cw20(&rec, collateral_addr, a)
    };
    let msgs = vec![
        CosmosMsg::Execute {
            contract: overseer.clone(),
            action: ExecAction::UnlockCollateral { token: collateral_addr.clone(), amount: a },
            funds: Vec::new(),
        },
        CosmosMsg::Execute { contract: custody.clone(), action: ExecAction::WithdrawCollateral { amount: a }, funds: Vec::new() },
        last,
    ];
    Ok((msgs, vec![attr("action", "withdraw_collateral".to_owned())]))
}

/// The value of the first `i` collaterals, each its amount times its price
/// (floored); `None` on overflow.
pub open spec fn collateral_value(collaterals: Seq<(u128, Decimal)>, i: int) -> Option<u128>
    decreases i,
{
    if i <= 0 {
        Some(0)
    } else {
        match collateral_value(collaterals, i - 1) {
            None => None,
            Some(v) => match spec_mul_dec(collaterals[i - 1].0 as int, collaterals[i - 1].1) {
                None => None,
                Some(x) => if v + x > u128::MAX { None } else { Some((v + x) as u128) },
            },
        }
    }
}

proof fn lemma_collateral_value_none(collaterals: Seq<(u128, Decimal)>, i: int, n: int)
    requires
        0 <= i <= n,
        collateral_value(collaterals, i) is None,
    ensures
        collateral_value(collaterals, n) is None,
    decreases n - i,
{
    if i < n {
        lemma_collateral_value_none(collaterals, i + 1, n);
    }
}

/// What `execute_borrow` borrows: with the collateral worth `total`, the loan
/// at a ratio `loan / total` of it is raised to `desired` of it, the increase
/// being `total * (desired - current)` (floored).
pub open spec fn spec_borrow(desired: Decimal, total: u128, loan: u128) -> Result<u128, ContractError> {
    if total == 0 {
        Err(ContractError::DivideByZero)
    } else {
        match checked_ratio(loan as int, fractional(), total as int) {
            None => Err(ContractError::Overflow),
            Some(current) => if desired.atomics <= current {
                Err(ContractError::InvalidLtvRatio)
            } else {
                match spec_mul_dec(total as int, Decimal { atomics: (desired.atomics - current) as u128 }) {
                    None => Err(ContractError::Overflow),
                    Some(b) => Ok(b),
                }
            },
        }
    }
}

/// `execute_borrow`: the owner or an operator borrows uusd so that the loan
/// reaches `desired` (below one) of the collateral's value, and the borrowed
/// uusd goes to the recipient (the sender if none). `collaterals` are the
/// posted amounts with their uusd prices, `loan` the current loan. Gives the
/// borrowed amount, the messages and the response attributes.
pub fn execute_borrow(
    authorized: bool,
    sender: &String,
    desired: Decimal,
    collaterals: &Vec<(u128, Decimal)>,
    loan: u128,
    market: &String,
    contract_address: &String,
    recipient: Option<Recipient>,
) -> (r: Result<(u128, Vec<CosmosMsg>, Vec<Attribute>), ContractError>)
    ensures
        !authorized ==> r == Err::<(u128, Vec<CosmosMsg>, Vec<Attribute>), ContractError>(ContractError::Unauthorized),
        authorized && desired.atomics >= DECIMAL_FRACTIONAL
            ==> r == Err::<(u128, Vec<CosmosMsg>, Vec<Attribute>), ContractError>(ContractError::InvalidLtvRatio),
        authorized && desired.atomics < DECIMAL_FRACTIONAL ==> match collateral_value(collaterals@, collaterals@.len() as int) {
            None => r == Err::<(u128, Vec<CosmosMsg>, Vec<Attribute>), ContractError>(ContractError::Overflow),
            Some(total) => match spec_borrow(desired, total, loan) {
                Err(e) => r == Err::<(u128, Vec<CosmosMsg>, Vec<Attribute>), ContractError>(e),
                Ok(b) => r matches Ok((x, msgs, attrs)) && x == b && msgs@.len() == 2
                    && attrs_are(attrs@, seq![("action"@, "borrow"@), ("desired_ltv_ratio"@, decimal_text(desired))])
                    && (msgs@[0] matches CosmosMsg::Execute { contract, action: ExecAction::BorrowStable { amount, to }, funds }
                        && contract@ == market@ && amount == b && to@ == contract_address@ && funds@.len() == 0)
                    && pays_uusd(msgs@[1], match recipient { Some(x) => x, None => Recipient::Addr(*sender) }, b),
            },
        },
{
    let rec = match recipient {
        Some(x) => x,
        None => Recipient::Addr(sender.clone()),
    };
    if !authorized {
        return Err(ContractError::Unauthorized);
    }
    if desired.atomics >= DECIMAL_FRACTIONAL {
        return Err(ContractError::InvalidLtvRatio);
    }
    let mut total: u128 = 0;
    let mut i: usize = 0;
    while i < collaterals.len()
        invariant
            i <= collaterals@.len(),
            authorized,
            desired.atomics < DECIMAL_FRACTIONAL,
            collateral_value(collaterals@, i as int) == Some(total),
        decreases collaterals.len() - i,
    {
        let value = match mul_dec(collaterals[i].0, collaterals[i].1) {
            Some(v) => v,
            None => {
                proof { lemma_collateral_value_none(collaterals@, i + 1, collaterals@.len() as int); }
                return Err(ContractError::Overflow);
            },
        };
        total = match total.checked_add(value) {
            Some(t) => t,
            None => {
                proof { lemma_collateral_value_none(collaterals@, i + 1, collaterals@.len() as int); }
                return Err(ContractError::Overflow);
            },
        };
        i = i + 1;
    }
    if total == 0 {
        return Err(ContractError::DivideByZero);
    }
    let current = match checked_multiply_ratio(loan, DECIMAL_FRACTIONAL, total) {
        Some(c) => c,
        None => return Err(ContractError::Overflow),
    };
    if desired.atomics <= current {
        return Err(ContractError::InvalidLtvRatio);
    }
    let borrow = match mul_dec(total, Decimal { atomics: desired.atomics - current }) {
        Some(b) => b,
        None => return Err(ContractError::Overflow),
    };
    let msgs = vec![
        CosmosMsg::Execute {
            contract: market.clone(),
            action: ExecAction::BorrowStable { amount: borrow, to: contract_address.clone() },
            funds: Vec::new(),
        },
        generate_msg_uusd(&rec, borrow),
    ];
    let attrs = vec![attr("action", "borrow".to_owned()), attr("desired_ltv_ratio", desired.to_text())];
    Ok((borrow, msgs, attrs))
}

/// `execute_repay_loan`: the owner repays the loan with the funds sent. Gives
/// the repayment and the response attributes.
pub fn execute_repay_loan(is_owner: bool, funds: Vec<Coin>, market: &String) -> (r: Result<(CosmosMsg, Vec<Attribute>), ContractError>)
    ensures
        !is_owner ==> r == Err::<(CosmosMsg, Vec<Attribute>), ContractError>(ContractError::Unauthorized),
        is_owner ==> (r matches Ok((CosmosMsg::Execute { contract, action: ExecAction::Call { name }, funds: f }, attrs))
            && contract@ == market@ && name@ == "repay_stable"@ && f@ == funds@
            && attrs_are(attrs@, seq![("action"@, "repay_loan"@)])),
{
    if !is_owner {
        return Err(ContractError::Unauthorized);
    }
    let m = CosmosMsg::Execute { contract: market.clone(), action: ExecAction::Call { name: "repay_stable".to_owned() }, funds };
    Ok((m, vec![attr("action", "repay_loan".to_owned())]))
}

} // verus!
