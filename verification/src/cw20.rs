//! The Andromeda cw20 token's transfer: the token's rates are paid first (the
//! rate payments in this token are booked directly between balances, other
//! payments are sent), then the recipient gets what is left of the amount.
use vstd::prelude::*;
use crate::common::{attr, attrs_are, decimal, decimal_string, Attribute, ContractError, CosmosMsg, ExecAction};
use crate::kv::KeyedVec;
use crate::ado::Funds;

verus! {

/// The balance of `a` (zero if it has none).
pub open spec fn balance_in(m: Map<Seq<char>, u128>, a: Seq<char>) -> u128 {
    if m.dom().contains(a) { m[a] } else { 0 }
}

/// The balances after moving `amount` from `from` to `to`; `None` if `from`
/// has less or `to` would overflow.
pub open spec fn spec_move(m: Map<Seq<char>, u128>, from: Seq<char>, to: Seq<char>, amount: u128) -> Option<Map<Seq<char>, u128>> {
    if balance_in(m, from) < amount {
        None
    } else {
        let m1 = m.insert(from, (balance_in(m, from) - amount) as u128);
        if balance_in(m1, to) + amount > u128::MAX {
            None
        } else {
            Some(m1.insert(to, (balance_in(m1, to) + amount) as u128))
        }
    }
}

/// The balance of `addr`.
pub fn balance_of(balances: &KeyedVec<u128>, addr: &String) -> (r: u128)
    requires
        balances.wf(),
    ensures
        r == balance_in(balances.view(), addr@),
{
    match balances.get(addr) {
        Some(b) => b,
        None => 0,
    }
}

/// `transfer_tokens`: moves `amount` from `from` to `to`; refused (and
/// nothing moves) if `from` has less or `to`'s balance would overflow.
pub fn transfer_tokens(balances: &mut KeyedVec<u128>, from: &String, to: &String, amount: u128) -> (r: Result<(), ContractError>)
    requires
        old(balances).wf(),
    ensures
        final(balances).wf(),
        match spec_move(old(balances).view(), from@, to@, amount) {
            None => r == Err::<(), ContractError>(ContractError::Overflow) && final(balances).view() == old(balances).view(),
            Some(m) => r is Ok && final(balances).view() == m,
        },
{
    let from_balance = balance_of(balances, from);
    if from_balance < amount {
        return Err(ContractError::Overflow);
    }
    let to_balance_after = if *from == *to { from_balance - amount } else { balance_of(balances, to) };
    let ghost m = balances.view();
    let ghost m1 = m.insert(from@, (from_balance - amount) as u128);
    proof {
        if from@ == to@ {
            assert(balance_in(m1, to@) == from_balance - amount);
        } else {
            assert(balance_in(m1, to@) == balance_in(m, to@));
        }
    }
    let new_to = match to_balance_after.checked_add(amount) {
        Some(b) => b,
        None => return Err(ContractError::Overflow),
    };
    balances.insert(from, from_balance - amount);
    balances.insert(to, new_to);
    Ok(())
}

/// Whether a rate payment is sent on: every message but a cw20 transfer,
/// which is booked in the balances instead.
pub open spec fn is_forwarded(m: CosmosMsg) -> bool {
    !(m matches CosmosMsg::Execute { action: ExecAction::Cw20Transfer { .. }, .. })
}

/// The balances after booking the cw20 transfers among the first `i`
/// payments from `sender`; `None` if one of them cannot be made.
pub open spec fn spec_book(m: Map<Seq<char>, u128>, sender: Seq<char>, payments: Seq<CosmosMsg>, i: int) -> Option<Map<Seq<char>, u128>>
    decreases i,
{
    if i <= 0 {
        Some(m)
    } else {
        match spec_book(m, sender, payments, i - 1) {
            None => None,
            Some(m2) => match payments[i - 1] {
                CosmosMsg::Execute { action: ExecAction::Cw20Transfer { recipient, amount }, .. } => spec_move(m2, sender, recipient@, amount),
                _ => Some(m2),
            },
        }
    }
}

proof fn lemma_book_none(m: Map<Seq<char>, u128>, sender: Seq<char>, payments: Seq<CosmosMsg>, i: int, n: int)
    requires
        0 <= i <= n,
        spec_book(m, sender, payments, i) is None,
    ensures
        spec_book(m, sender, payments, n) is None,
    decreases n - i,
{
    if i < n {
        lemma_book_none(m, sender, payments, i + 1, n);
    }
}

/// The payments that are sent on, in order.
pub open spec fn forwarded(payments: Seq<CosmosMsg>) -> Seq<CosmosMsg>
    decreases payments.len(),
{
    if payments.len() == 0 {
        Seq::empty()
    } else if is_forwarded(payments.last()) {
        forwarded(payments.drop_last()).push(payments.last())
    } else {
        forwarded(payments.drop_last())
    }
}

/// `execute_transfer`: `sender` transfers `amount` to `recipient`.
/// `payments` and `remainder` are what the token's rates make of the amount:
/// the cw20 transfers among the payments are booked from the sender, all
/// other payments are returned to be sent, in order, and the recipient gets
/// the remainder (the whole amount if the rates left native funds). A zero
/// remainder is refused. Gives the messages and the response attributes,
/// which name the transfer of the remainder.
pub fn execute_transfer(
    balances: &mut KeyedVec<u128>,
    sender: &String,
    recipient: &String,
    amount: u128,
    payments: Vec<CosmosMsg>,
    remainder: Funds,
) -> (r: Result<(Vec<CosmosMsg>, Vec<Attribute>), ContractError>)
    requires
        old(balances).wf(),
    ensures
        final(balances).wf(),
        ({
            let remaining = match remainder { Funds::Native(_) => amount, Funds::Cw20 { amount: a, .. } => a };
            match spec_book(old(balances).view(), sender@, payments@, payments@.len() as int) {
                None => r == Err::<(Vec<CosmosMsg>, Vec<Attribute>), ContractError>(ContractError::Overflow),
                Some(m) => if remaining == 0 {
                    r == Err::<(Vec<CosmosMsg>, Vec<Attribute>), ContractError>(ContractError::InvalidZeroAmount)
                } else {
                    match spec_move(m, sender@, recipient@, remaining) {
                        None => r == Err::<(Vec<CosmosMsg>, Vec<Attribute>), ContractError>(ContractError::Overflow),
                        Some(m2) => r matches Ok((msgs, a)) && msgs@ == forwarded(payments@) && final(balances).view() == m2
                            && attrs_are(a@, seq![
                                ("action"@, "transfer"@),
                                ("from"@, sender@),
                                ("to"@, recipient@),
                                ("amount"@, decimal(remaining as nat)),
                            ]),
                    }
                },
            }
        }),
{
    let remaining: u128 = match &remainder {
        Funds::Native(_) => amount,
        Funds::Cw20 { amount: a, .. } => *a,
    };
    let ghost ps = payments@;
    let ghost m0 = balances.view();
    let mut pending = payments;
    let mut msgs: Vec<CosmosMsg> = Vec::new();
    let mut i: usize = 0;
    let n = pending.len();
    while pending.len() > 0
        invariant
            n == ps.len(),
            ps == payments@,
            m0 == old(balances).view(),
            i + pending@.len() == n,
            pending@ == ps.skip(i as int),
            balances.wf(),
            spec_book(m0, sender@, ps, i as int) == Some(balances.view()),
            msgs@ == forwarded(ps.take(i as int)),
        decreases pending.len(),
    {
        let m = pending.remove(0);
        proof {
            assert(m == ps[i as int]);
            assert(pending@ =~= ps.skip(i + 1));
            assert(ps.take(i + 1).drop_last() =~= ps.take(i as int));
            assert(ps.take(i + 1).last() == ps[i as int]);
        }
        match m {
            CosmosMsg::Execute { contract: _, action: ExecAction::Cw20Transfer { recipient: to, amount: a }, funds: _ } => {
                match transfer_tokens(balances, sender, &to, a) {
                    Ok(()) => {},
                    Err(e) => {
                        proof { lemma_book_none(m0, sender@, ps, i + 1, n as int); }
                        return Err(e);
                    },
                }
            },
            other => {
                msgs.push(other);
            },
        }
        i = i + 1;
    }
    proof { assert(ps.take(n as int) =~= ps); }
    if remaining == 0 {
        return Err(ContractError::InvalidZeroAmount);
    }
    match transfer_tokens(balances, sender, recipient, remaining) {
        Ok(()) => {},
        Err(e) => return Err(e),
    }
    let attrs = vec![
        attr("action", "transfer".to_owned()),
        attr("from", sender.clone()),
        attr("to", recipient.clone()),
        attr("amount", decimal_string(remaining)),
    ];
    Ok((msgs, attrs))
}

/// A transfer between two balances neither creates nor destroys tokens: the
/// two balances together stay the same and every other balance is untouched.
pub proof fn transfer_conserves(m: Map<Seq<char>, u128>, from: Seq<char>, to: Seq<char>, amount: u128, other: Seq<char>)
    requires
        spec_move(m, from, to, amount) is Some,
        other != from,
        other != to,
    ensures
        ({
            let m2 = spec_move(m, from, to, amount)->0;
            &&& from != to ==> balance_in(m2, from) + balance_in(m2, to) == balance_in(m, from) + balance_in(m, to)
            &&& from == to ==> balance_in(m2, from) == balance_in(m, from)
            &&& balance_in(m2, other) == balance_in(m, other)
        }),
{
}

/// `execute_send`: a transfer of `amount` to `contract` as `execute_transfer`
/// books it, after which `contract` is told by a `Receive` message what it
/// received from `sender`, with `msg` for it. Gives the messages and the
/// response attributes.
pub fn execute_send(
    balances: &mut KeyedVec<u128>,
    sender: &String,
    contract: &String,
    amount: u128,
    msg: String,
    payments: Vec<CosmosMsg>,
    remainder: Funds,
) -> (r: Result<(Vec<CosmosMsg>, Vec<Attribute>), ContractError>)
    requires
        old(balances).wf(),
    ensures
        final(balances).wf(),
        ({
            let remaining = match remainder { Funds::Native(_) => amount, Funds::Cw20 { amount: a, .. } => a };
            match spec_book(old(balances).view(), sender@, payments@, payments@.len() as int) {
                None => r == Err::<(Vec<CosmosMsg>, Vec<Attribute>), ContractError>(ContractError::Overflow),
                Some(m) => if remaining == 0 {
                    r == Err::<(Vec<CosmosMsg>, Vec<Attribute>), ContractError>(ContractError::InvalidZeroAmount)
                } else {
                    match spec_move(m, sender@, contract@, remaining) {
                        None => r == Err::<(Vec<CosmosMsg>, Vec<Attribute>), ContractError>(ContractError::Overflow),
                        Some(m2) => r matches Ok((msgs, a)) && {
                            &&& attrs_are(a@, seq![
                                ("action"@, "send"@),
                                ("from"@, sender@),
                                ("to"@, contract@),
                                ("amount"@, decimal(remaining as nat)),
                            ])
                            &&& final(balances).view() == m2
                            &&& msgs@.len() == forwarded(payments@).len() + 1
                            &&& msgs@.drop_last() == forwarded(payments@)
                            &&& msgs@.last() matches CosmosMsg::Execute {
                                contract: c,
                                action: ExecAction::Receive { sender: s, amount: a, msg: hm },
                                funds,
                            } && c@ == contract@ && s@ == sender@ && a == remaining && hm == msg && funds@.len() == 0
                        },
                    }
                },
            }
        }),
{
    let remaining: u128 = match &remainder {
        Funds::Native(_) => amount,
        Funds::Cw20 { amount: a, .. } => *a,
    };
    let mut msgs = match execute_transfer(balances, sender, contract, amount, payments, remainder) {
        Ok((m, _)) => m,
        Err(e) => return Err(e),
    };
    let ghost before = msgs@;
    msgs.push(CosmosMsg::Execute {
        contract: contract.clone(),
        action: ExecAction::Receive { sender: sender.clone(), amount: remaining, msg },
        funds: Vec::new(),
    });
    proof { assert(msgs@.drop_last() =~= before); }
    let attrs = vec![
        attr("action", "send".to_owned()),
        attr("from", sender.clone()),
        attr("to", contract.clone()),
        attr("amount", decimal_string(remaining)),
    ];
    Ok((msgs, attrs))
}

} // verus!
