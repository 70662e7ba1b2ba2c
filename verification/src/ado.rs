//! What every Andromeda contract shares: an owner and operators who may
//! administer it, withdrawals of the tokens it holds, and a registry of
//! modules whose hooks see every payment.
use vstd::prelude::*;
use vstd::string::StrSliceExecFns;
use vstd::string::StringExecFns;
use crate::common::{attr, attrs_are, Attribute, invalid_funds, is_invalid_funds, AssetInfo, Coin, ContractError, CosmosMsg, ExecAction, is_bank_send_one};
use crate::kv::{chars_lt, lemma_chars_lt_total, lemma_chars_lt_transitive, seq_has_string, contains_string, string_lt};
use crate::math::{Decimal, DECIMAL_FRACTIONAL, fractional, spec_mul_dec, mul_dec};

verus! {

/// `is_contract_owner`: whether `addr` is the owner.
pub fn is_contract_owner(owner: &String, addr: &String) -> (r: bool)
    ensures
        r == (owner@ == addr@),
{
    *owner == *addr
}

/// `is_operator`: whether `addr` is an operator.
pub fn is_operator(operators: &Vec<String>, addr: &String) -> (r: bool)
    ensures
        r == seq_has_string(operators@, addr@),
{
    contains_string(operators, addr)
}

/// No address occurs twice.
pub open spec fn strings_distinct(v: Seq<String>) -> bool {
    forall|i: int, j: int| 0 <= i < v.len() && 0 <= j < v.len() && i != j ==> (#[trigger] v[i])@ != (#[trigger] v[j])@
}

/// `initialize_operators`: records each of `new` as an operator.
pub fn initialize_operators(operators: &mut Vec<String>, new: &Vec<String>)
    requires
        strings_distinct(old(operators)@),
    ensures
        strings_distinct(final(operators)@),
        forall|s: Seq<char>| #[trigger] seq_has_string(final(operators)@, s) <==> seq_has_string(old(operators)@, s) || seq_has_string(new@, s),
{
    let ghost o = operators@;
    let mut i: usize = 0;
    while i < new.len()
        invariant
            i <= new@.len(),
            strings_distinct(operators@),
            forall|s: Seq<char>| #[trigger] seq_has_string(operators@, s) <==> seq_has_string(o, s) || seq_has_string(new@.take(i as int), s),
        decreases new.len() - i,
    {
        let ghost before = operators@;
        if !contains_string(operators, &new[i]) {
            operators.push(new[i].clone());
            proof {
                assert forall|a: int, b: int| 0 <= a < operators@.len() && 0 <= b < operators@.len() && a != b
                    implies (#[trigger] operators@[a])@ != (#[trigger] operators@[b])@ by {
                    if a < before.len() && b < before.len() {
                        assert(operators@[a] == before[a] && operators@[b] == before[b]);
                    } else if a < before.len() {
                        assert(operators@[a] == before[a]);
                    } else {
                        assert(operators@[b] == before[b]);
                    }
                }
            }
        }
        proof {
            assert(new@.take(i + 1) =~= new@.take(i as int).push(new@[i as int]));
            assert forall|s: Seq<char>| #[trigger] seq_has_string(operators@, s) <==> seq_has_string(o, s) || seq_has_string(new@.take(i + 1), s) by {
                if seq_has_string(new@.take(i + 1), s) && !seq_has_string(new@.take(i as int), s) {
                    let k = choose|k: int| 0 <= k < new@.take(i + 1).len() && (#[trigger] new@.take(i + 1)[k])@ == s;
                    if k < i {
                        assert(new@.take(i as int)[k] == new@.take(i + 1)[k]);
                    }
                    assert(new@[i as int]@ == s);
                    if operators@.len() > before.len() {
                        assert(operators@[before.len() as int]@ == s);
                    }
                }
                if seq_has_string(new@.take(i as int), s) {
                    let k = choose|k: int| 0 <= k < new@.take(i as int).len() && (#[trigger] new@.take(i as int)[k])@ == s;
                    assert(new@.take(i + 1)[k] == new@.take(i as int)[k]);
                }
                if seq_has_string(operators@, s) && !seq_has_string(before, s) {
                    let k = choose|k: int| 0 <= k < operators@.len() && (#[trigger] operators@[k])@ == s;
                    if k < before.len() {
                        assert(operators@[k] == before[k]);
                    }
                    assert(new@.take(i + 1)[i as int] == new@[i as int]);
                }
                if seq_has_string(before, s) {
                    let k = choose|k: int| 0 <= k < before.len() && (#[trigger] before[k])@ == s;
                    assert(operators@[k] == before[k]);
                }
            }
        }
        i = i + 1;
    }
    proof { assert(new@.take(new@.len() as int) =~= new@); }
}

/// How much of a balance a withdrawal takes.
#[derive(Clone, Copy, Debug, PartialEq, Eq)]
pub enum WithdrawalType {
    /// At most this amount.
    Amount(u128),
    /// This share of the balance, at most one.
    Percentage(Decimal),
}

/// A withdrawal of one withdrawable token: its name and how much of it.
#[derive(Clone, Debug)]
pub struct Withdrawal {
    pub token: String,
    pub withdrawal_type: Option<WithdrawalType>,
}

impl Withdrawal {
    pub fn copy(&self) -> (r: Withdrawal)
        ensures
            r == *self,
    {
        Withdrawal { token: self.token.clone(), withdrawal_type: self.withdrawal_type }
    }
}

/// `Withdrawal::get_amount`: what a withdrawal takes of `balance`.
pub open spec fn spec_get_amount(t: Option<WithdrawalType>, balance: u128) -> Result<u128, ContractError> {
    match t {
        None => Ok(balance),
        Some(WithdrawalType::Amount(a)) => Ok(if a < balance { a } else { balance }),
        Some(WithdrawalType::Percentage(p)) => if p.atomics > DECIMAL_FRACTIONAL {
            Err(ContractError::InvalidRate)
        } else {
            Ok(spec_mul_dec(balance as int, p)->0)
        },
    }
}

/// What a withdrawal of type `t` takes of `balance`: all of it, at most a given
/// amount, or a share of it (a share above one is refused).
pub fn get_amount(t: Option<WithdrawalType>, balance: u128) -> (r: Result<u128, ContractError>)
    ensures
        r == spec_get_amount(t, balance),
        r matches Ok(a) ==> a <= balance,
{
    match t {
        None => Ok(balance),
        Some(WithdrawalType::Amount(a)) => Ok(if a < balance { a } else { balance }),
        Some(WithdrawalType::Percentage(p)) => {
            if p.atomics > DECIMAL_FRACTIONAL {
                return Err(ContractError::InvalidRate);
            }
            proof {
                let b = balance as int;
                let q = p.atomics as int;
                assert(b * q <= b * fractional()) by (nonlinear_arith)
                    requires 0 <= q <= fractional(), b >= 0;
                assert(b * q / fractional() <= b) by (nonlinear_arith)
                    requires b * q <= b * fractional(), b >= 0, q >= 0;
            }
            match mul_dec(balance, p) {
                Some(a) => Ok(a),
                None => Err(ContractError::Overflow),
            }
        },
    }
}

/// The position of the withdrawable token named `name`, if any.
pub open spec fn asset_index(ws: Seq<(String, AssetInfo)>, name: Seq<char>) -> Option<int>
    decreases ws.len(),
{
    if ws.len() == 0 {
        None
    } else if ws[0].0@ == name {
        Some(0)
    } else {
        match asset_index(ws.drop_first(), name) {
            None => None,
            Some(i) => Some(i + 1),
        }
    }
}

proof fn lemma_asset_index(ws: Seq<(String, AssetInfo)>, name: Seq<char>)
    ensures
        asset_index(ws, name) matches Some(i) ==> 0 <= i < ws.len() && ws[i].0@ == name,
        asset_index(ws, name) is None <==> forall|j: int| 0 <= j < ws.len() ==> (#[trigger] ws[j]).0@ != name,
    decreases ws.len(),
{
    if ws.len() > 0 {
        lemma_asset_index(ws.drop_first(), name);
        assert forall|j: int| 1 <= j < ws.len() implies ws.drop_first()[j - 1] == #[trigger] ws[j] by {}
    }
}

/// `withdrawable_tokens.load`: the withdrawable token named `name`.
pub fn find_asset(ws: &Vec<(String, AssetInfo)>, name: &String) -> (r: Option<usize>)
    ensures
        r matches Some(i) ==> asset_index(ws@, name@) == Some(i as int),
        r is None ==> asset_index(ws@, name@) is None,
{
    proof { lemma_asset_index(ws@, name@); }
    let mut i: usize = 0;
    while i < ws.len()
        invariant
            i <= ws@.len(),
            forall|j: int| 0 <= j < i ==> (#[trigger] ws@[j]).0@ != name@,
        decreases ws.len() - i,
    {
        if ws[i].0 == *name {
            proof { lemma_asset_index_first(ws@, name@, i as int); }
            return Some(i);
        }
        i = i + 1;
    }
    None
}

proof fn lemma_asset_index_first(ws: Seq<(String, AssetInfo)>, name: Seq<char>, i: int)
    requires
        0 <= i < ws.len(),
        ws[i].0@ == name,
        forall|j: int| 0 <= j < i ==> (#[trigger] ws[j]).0@ != name,
    ensures
        asset_index(ws, name) == Some(i),
    decreases i,
{
    if i > 0 {
        assert forall|j: int| 0 <= j < i - 1 implies (#[trigger] ws.drop_first()[j]).0@ != name by {
            assert(ws.drop_first()[j] == ws[j + 1]);
        }
        lemma_asset_index_first(ws.drop_first(), name, i - 1);
    }
}

/// The withdrawable tokens are kept in ascending order of their names, the
/// order in which the store lists its keys.
pub open spec fn names_ascending(ws: Seq<(String, AssetInfo)>) -> bool {
    forall|i: int, j: int| 0 <= i < j < ws.len() ==> chars_lt(#[trigger] ws[i].0@, #[trigger] ws[j].0@)
}

/// `after` is `before` with `name` recorded as withdrawable (as `asset`) unless
/// it already was, in its place among the names.
pub open spec fn withdrawable_added(before: Seq<(String, AssetInfo)>, after: Seq<(String, AssetInfo)>, name: String, asset: AssetInfo) -> bool {
    &&& names_ascending(after)
    &&& asset_index(before, name@) is Some ==> after == before
    &&& asset_index(before, name@) is None ==> exists|p: int| 0 <= p <= before.len() && after == before.insert(p, (name, asset))
}

/// `add_withdrawable_token`: records `name` as withdrawable unless it already
/// is, in its place among the names.
pub fn add_withdrawable_token(ws: &mut Vec<(String, AssetInfo)>, name: &String, asset: &AssetInfo)
    requires
        names_ascending(old(ws)@),
    ensures
        withdrawable_added(old(ws)@, final(ws)@, *name, *asset),
{
    if find_asset(ws, name).is_some() {
        return;
    }
    let ghost w = ws@;
    proof { lemma_asset_index(w, name@); }
    let mut p: usize = 0;
    while p < ws.len()
        invariant
            ws@ == w,
            p <= w.len(),
            forall|k: int| 0 <= k < p ==> chars_lt(#[trigger] w[k].0@, name@),
        ensures
            ws@ == w,
            p <= w.len(),
            forall|k: int| 0 <= k < p ==> chars_lt(#[trigger] w[k].0@, name@),
            p < w.len() ==> !chars_lt(w[p as int].0@, name@),
        decreases ws.len() - p,
    {
        if !string_lt(&ws[p].0, name) {
            break;
        }
        p = p + 1;
    }
    let e = (name.clone(), asset.copy());
    ws.insert(p, e);
    proof {
        let n = ws@;
        assert(n == w.insert(p as int, e));
        if p < w.len() {
            assert(w[p as int].0@ != name@);
            lemma_chars_lt_total(w[p as int].0@, name@);
        }
        assert forall|i: int, j: int| 0 <= i < j < n.len() implies chars_lt(#[trigger] n[i].0@, #[trigger] n[j].0@) by {
            if j < p {
                assert(n[i] == w[i] && n[j] == w[j]);
            } else if j == p {
                assert(n[i] == w[i]);
            } else if i < p {
                assert(n[i] == w[i] && n[j] == w[j - 1]);
            } else if i == p {
                assert(n[j] == w[j - 1]);
                if j - 1 > p {
                    lemma_chars_lt_transitive(name@, w[p as int].0@, w[j - 1].0@);
                }
            } else {
                assert(n[i] == w[i - 1] && n[j] == w[j - 1]);
            }
        }
    }
}

/// Withdrawing everything takes the withdrawable tokens in ascending order
/// of their names.
pub proof fn full_withdrawal_in_name_order(ws: Seq<(String, AssetInfo)>)
    requires
        names_ascending(ws),
    ensures
        forall|i: int, j: int| 0 <= i < j < ws.len() ==>
            chars_lt(#[trigger] spec_withdrawals(None, ws)[i].token@, #[trigger] spec_withdrawals(None, ws)[j].token@),
{
    assert forall|i: int, j: int| 0 <= i < j < ws.len() implies
        chars_lt(#[trigger] spec_withdrawals(None, ws)[i].token@, #[trigger] spec_withdrawals(None, ws)[j].token@) by {
        assert(chars_lt(ws[i].0@, ws[j].0@));
    }
}

/// The withdrawals to make: those asked for, or else every withdrawable token in full.
pub open spec fn spec_withdrawals(tokens_to_withdraw: Option<Seq<Withdrawal>>, ws: Seq<(String, AssetInfo)>) -> Seq<Withdrawal> {
    match tokens_to_withdraw {
        Some(t) => t,
        None => ws.map_values(|e: (String, AssetInfo)| Withdrawal { token: e.0, withdrawal_type: None }),
    }
}

/// The withdrawals to make: those asked for, or else every withdrawable token in full.
pub fn withdrawals_to_process(tokens_to_withdraw: Option<Vec<Withdrawal>>, ws: &Vec<(String, AssetInfo)>) -> (r: Vec<Withdrawal>)
    ensures
        r@ == spec_withdrawals(match tokens_to_withdraw { Some(t) => Some(t@), None => None }, ws@),
{
    match tokens_to_withdraw {
        Some(t) => t,
        None => {
            let mut out: Vec<Withdrawal> = Vec::new();
            let mut i: usize = 0;
            while i < ws.len()
                invariant
                    i <= ws@.len(),
                    out@ == ws@.take(i as int).map_values(|e: (String, AssetInfo)| Withdrawal { token: e.0, withdrawal_type: None }),
                decreases ws.len() - i,
            {
                out.push(Withdrawal { token: ws[i].0.clone(), withdrawal_type: None });
                proof {
                    assert(ws@.take(i + 1) =~= ws@.take(i as int).push(ws@[i as int]));
                    assert(out@ =~= ws@.take(i + 1).map_values(|e: (String, AssetInfo)| Withdrawal { token: e.0, withdrawal_type: None }));
                }
                i = i + 1;
            }
            proof { assert(ws@.take(ws@.len() as int) =~= ws@); }
            out
        },
    }
}

/// The payments of the first `i` withdrawals: for each token with a non-zero
/// balance, its asset and the amount the withdrawal takes; the first failing
/// lookup, balance or amount gives the error.
pub open spec fn spec_withdraw_plan(
    withdrawals: Seq<Withdrawal>,
    ws: Seq<(String, AssetInfo)>,
    balances: Seq<Result<u128, ContractError>>,
    i: int,
) -> Result<Seq<(AssetInfo, u128)>, ContractError>
    decreases i,
{
    if i <= 0 {
        Ok(Seq::empty())
    } else {
        match spec_withdraw_plan(withdrawals, ws, balances, i - 1) {
            Err(e) => Err(e),
            Ok(plan) => match asset_index(ws, withdrawals[i - 1].token@) {
                None => Err(ContractError::NotFound),
                Some(k) => match balances[i - 1] {
                    Err(e) => Err(e),
                    Ok(b) => if b == 0 {
                        Ok(plan)
                    } else {
                        match spec_get_amount(withdrawals[i - 1].withdrawal_type, b) {
                            Err(e) => Err(e),
                            Ok(a) => Ok(plan.push((ws[k].1, a))),
                        }
                    },
                },
            },
        }
    }
}

/// Whether `m` pays `amount` of `asset` to `recipient`.
pub open spec fn pays_asset(m: CosmosMsg, asset: AssetInfo, recipient: Seq<char>, amount: u128) -> bool {
    match asset {
        AssetInfo::NativeToken { denom } => is_bank_send_one(m, recipient, denom@, amount),
        AssetInfo::Token { contract_addr } => match m {
            CosmosMsg::Execute { contract, action, funds } => {
                &&& contract@ == contract_addr@
                &&& funds@.len() == 0
                &&& action matches ExecAction::Cw20Transfer { recipient: rc, amount: a } && rc@ == recipient && a == amount
            },
            _ => false,
        },
    }
}

proof fn lemma_withdraw_plan_err(withdrawals: Seq<Withdrawal>, ws: Seq<(String, AssetInfo)>, balances: Seq<Result<u128, ContractError>>, i: int, n: int)
    requires
        0 <= i <= n,
        spec_withdraw_plan(withdrawals, ws, balances, i) is Err,
    ensures
        spec_withdraw_plan(withdrawals, ws, balances, n) == spec_withdraw_plan(withdrawals, ws, balances, i),
    decreases n - i,
{
    if i < n {
        lemma_withdraw_plan_err(withdrawals, ws, balances, i + 1, n);
    }
}

/// What std's `Debug` writes for a string: the string in double quotes, with
/// the characters that need it escaped.
pub uninterp spec fn debug_text(s: Seq<char>) -> Seq<char>;

/// `format!("{:?}", s)`, std's `Debug` of a string. The contract names the
/// result and does not write out the escaping rules.
#[verifier::external_body]
fn debug_string(s: &str) -> (r: String)
    ensures
        r@ == debug_text(s@),
{
    format!("{:?}", s)
}

/// The text form of an address recipient, as its derived `Debug` writes it.
pub open spec fn recipient_text(addr: Seq<char>) -> Seq<char> {
    "Addr("@ + debug_text(addr) + ")"@
}

/// `execute_withdraw`: the owner or an operator withdraws tokens to `recipient`
/// (the sender if none). `withdrawals` are those `withdrawals_to_process`
/// gives; `balances[i]` is the contract's balance of the asset of
/// `withdrawals[i]` (an error if it could not be queried). Tokens with a zero
/// balance are skipped; there must be something to withdraw. Returns the
/// transfers and the response attributes, which name the recipient in its
/// text form.
pub fn execute_withdraw(
    sender: &String,
    owner: &String,
    operators: &Vec<String>,
    recipient: Option<String>,
    withdrawals: &Vec<Withdrawal>,
    ws: &Vec<(String, AssetInfo)>,
    balances: Vec<Result<u128, ContractError>>,
) -> (r: Result<(Vec<CosmosMsg>, Vec<Attribute>), ContractError>)
    requires
        balances@.len() == withdrawals@.len(),
    ensures
        !(owner@ == sender@ || seq_has_string(operators@, sender@))
            ==> r == Err::<(Vec<CosmosMsg>, Vec<Attribute>), ContractError>(ContractError::Unauthorized),
        (owner@ == sender@ || seq_has_string(operators@, sender@)) ==> {
            let to = match recipient { Some(a) => a@, None => sender@ };
            match spec_withdraw_plan(withdrawals@, ws@, balances@, withdrawals@.len() as int) {
                Err(e) => r == Err::<(Vec<CosmosMsg>, Vec<Attribute>), ContractError>(e),
                Ok(plan) => if plan.len() == 0 {
                    is_invalid_funds(r, "No funds to withdraw"@)
                } else {
                    r matches Ok((msgs, a)) && {
                        &&& msgs@.len() == plan.len()
                        &&& forall|k: int| 0 <= k < plan.len() ==> pays_asset(#[trigger] msgs@[k], plan[k].0, to, plan[k].1)
                        &&& attrs_are(a@, seq![("action"@, "withdraw"@), ("recipient"@, recipient_text(to))])
                    }
                },
            }
        },
{
    if !(is_contract_owner(owner, sender) || is_operator(operators, sender)) {
        return Err(ContractError::Unauthorized);
    }
    let ghost to_view = match &recipient { Some(a) => a@, None => sender@ };
    let to: String = match recipient {
        Some(a) => a,
        None => sender.clone(),
    };
    let ghost bs = balances@;
    let mut pending = balances;
    let mut msgs: Vec<CosmosMsg> = Vec::new();
    let mut i: usize = 0;
    while i < withdrawals.len()
        invariant
            i <= withdrawals@.len(),
            bs.len() == withdrawals@.len(),
            pending@ == bs.skip(i as int),
            bs == balances@,
            owner@ == sender@ || seq_has_string(operators@, sender@),
            to@ == to_view,
            spec_withdraw_plan(withdrawals@, ws@, bs, i as int) matches Ok(plan) && msgs@.len() == plan.len()
                && forall|k: int| 0 <= k < plan.len() ==> pays_asset(#[trigger] msgs@[k], plan[k].0, to@, plan[k].1),
        decreases withdrawals.len() - i,
    {
        let w = &withdrawals[i];
        let k = match find_asset(ws, &w.token) {
            Some(k) => k,
            None => {
                proof { lemma_withdraw_plan_err(withdrawals@, ws@, bs, i + 1, withdrawals@.len() as int); }
                return Err(ContractError::NotFound);
            },
        };
        proof { lemma_asset_index(ws@, w.token@); }
        let b = pending.remove(0);
        proof {
            assert(b == bs[i as int]);
            assert(pending@ =~= bs.skip(i + 1));
        }
        let balance = match b {
            Ok(b) => b,
            Err(e) => {
                proof { lemma_withdraw_plan_err(withdrawals@, ws@, bs, i + 1, withdrawals@.len() as int); }
                return Err(e);
            },
        };
        if balance != 0 {
            let amount = match get_amount(w.withdrawal_type, balance) {
                Ok(a) => a,
                Err(e) => {
                    proof { lemma_withdraw_plan_err(withdrawals@, ws@, bs, i + 1, withdrawals@.len() as int); }
                    return Err(e);
                },
            };
            let ghost plan = spec_withdraw_plan(withdrawals@, ws@, bs, i as int)->Ok_0;
            let ghost m0 = msgs@;
            let m = match &ws[k].1 {
                AssetInfo::NativeToken { denom } => CosmosMsg::BankSend {
                    to_address: to.clone(),
                    amount: vec![Coin { denom: denom.clone(), amount }],
                },
                AssetInfo::Token { contract_addr } => CosmosMsg::Execute {
                    contract: contract_addr.clone(),
                    action: ExecAction::Cw20Transfer { recipient: to.clone(), amount },
                    funds: Vec::new(),
                },
            };
            msgs.push(m);
            proof {
                let plan2 = plan.push((ws@[k as int].1, amount));
                assert forall|x: int| 0 <= x < plan2.len() implies pays_asset(#[trigger] msgs@[x], plan2[x].0, to@, plan2[x].1) by {
                    if x < plan.len() {
                        assert(msgs@[x] == m0[x]);
                    }
                }
            }
        }
        i = i + 1;
    }
    if msgs.len() == 0 {
        return Err(invalid_funds("No funds to withdraw"));
    }
    let mut text = String::from_str("Addr(");
    text.append(debug_string(to.as_str()).as_str());
    text.append(")");
    let attrs = vec![attr("action", "withdraw".to_owned()), attr("recipient", text)];
    Ok((msgs, attrs))
}

/// The kinds of modules a contract may register.
#[derive(Clone, Copy, Debug, PartialEq, Eq, Structural)]
pub enum ModuleType {
    Rates,
    Offers,
    AddressList,
    Auction,
    Receipt,
}

/// How a module comes to be: instantiated from a message, or an existing address.
#[derive(Clone, Debug)]
pub enum InstantiateType {
    New(Vec<u8>),
    Address(String),
}

/// A registered module.
#[derive(Clone, Debug)]
pub struct Module {
    pub module_type: ModuleType,
    pub instantiate: InstantiateType,
    pub is_mutable: bool,
}

/// A module with the address it runs at.
#[derive(Clone, Debug)]
pub struct ModuleInfoWithAddress {
    pub module: Module,
    pub address: String,
}

/// Where a newly registered module goes.
#[derive(Clone, Debug, PartialEq, Eq)]
pub struct Registration {
    /// The module's index (the id of its instantiation's reply).
    pub idx: u64,
    /// The index the next module gets.
    pub next_idx: u64,
    /// The module's address to record, when it was given one.
    pub address: Option<String>,
}

/// The address a module was given, if it was given one.
pub open spec fn given_address(m: Module) -> Option<Seq<char>> {
    match m.instantiate {
        InstantiateType::Address(a) => Some(a@),
        InstantiateType::New(_) => None,
    }
}

/// `register_module`: the module gets the next index (1 if none was given
/// yet), and its address is recorded if it has one.
pub fn register_module(next_idx: Option<u64>, module: &Module) -> (r: Result<Registration, ContractError>)
    ensures
        ({
            let idx = match next_idx { Some(i) => i, None => 1u64 };
            if idx == u64::MAX {
                r == Err::<Registration, ContractError>(ContractError::Overflow)
            } else {
                r matches Ok(reg) && reg.idx == idx && reg.next_idx == idx + 1
                    && match given_address(*module) {
                        None => reg.address is None,
                        Some(a) => reg.address matches Some(x) && x@ == a,
                    }
            }
        }),
{
    let idx: u64 = match next_idx {
        Some(i) => i,
        None => 1,
    };
    if idx == u64::MAX {
        return Err(ContractError::Overflow);
    }
    let address = match &module.instantiate {
        InstantiateType::Address(a) => Some(a.clone()),
        InstantiateType::New(_) => None,
    };
    Ok(Registration { idx, next_idx: idx + 1, address })
}

/// `execute_register_module`: only the owner or an operator registers modules.
pub fn execute_register_module(
    sender: &String,
    owner: &String,
    operators: &Vec<String>,
    next_idx: Option<u64>,
    module: &Module,
) -> (r: Result<Registration, ContractError>)
    ensures
        !(owner@ == sender@ || seq_has_string(operators@, sender@)) ==> r == Err::<Registration, ContractError>(ContractError::Unauthorized),
        (owner@ == sender@ || seq_has_string(operators@, sender@)) ==> ({
            let idx = match next_idx { Some(i) => i, None => 1u64 };
            if idx == u64::MAX {
                r == Err::<Registration, ContractError>(ContractError::Overflow)
            } else {
                r matches Ok(reg) && reg.idx == idx && reg.next_idx == idx + 1
                    && match given_address(*module) {
                        None => reg.address is None,
                        Some(a) => reg.address matches Some(x) && x@ == a,
                    }
            }
        }),
{
    if !(is_contract_owner(owner, sender) || is_operator(operators, sender)) {
        return Err(ContractError::Unauthorized);
    }
    register_module(next_idx, module)
}

/// `check_module_mutability`: the module at an index must exist and be mutable.
pub fn check_module_mutability(existing: Option<&Module>) -> (r: Result<(), ContractError>)
    ensures
        match existing {
            None => r == Err::<(), ContractError>(ContractError::ModuleDoesNotExist),
            Some(m) => if !m.is_mutable {
                r == Err::<(), ContractError>(ContractError::ModuleImmutable)
            } else {
                r is Ok
            },
        },
{
    match existing {
        None => Err(ContractError::ModuleDoesNotExist),
        Some(m) => if !m.is_mutable {
            Err(ContractError::ModuleImmutable)
        } else {
            Ok(())
        },
    }
}

/// `execute_alter_module`: the owner or an operator replaces a mutable module;
/// gives the new module's address to record, if it has one.
pub fn execute_alter_module(
    sender: &String,
    owner: &String,
    operators: &Vec<String>,
    existing: Option<&Module>,
    module: &Module,
) -> (r: Result<Option<String>, ContractError>)
    ensures
        !(owner@ == sender@ || seq_has_string(operators@, sender@)) ==> r == Err::<Option<String>, ContractError>(ContractError::Unauthorized),
        (owner@ == sender@ || seq_has_string(operators@, sender@)) ==> match existing {
            None => r == Err::<Option<String>, ContractError>(ContractError::ModuleDoesNotExist),
            Some(m) => if !m.is_mutable {
                r == Err::<Option<String>, ContractError>(ContractError::ModuleImmutable)
            } else {
                r matches Ok(a) && match given_address(*module) {
                    None => a is None,
                    Some(g) => a matches Some(x) && x@ == g,
                }
            },
        },
{
    if !(is_contract_owner(owner, sender) || is_operator(operators, sender)) {
        return Err(ContractError::Unauthorized);
    }
    match check_module_mutability(existing) {
        Err(e) => Err(e),
        Ok(()) => Ok(match &module.instantiate {
            InstantiateType::Address(a) => Some(a.clone()),
            InstantiateType::New(_) => None,
        }),
    }
}

/// `execute_deregister_module`: the owner or an operator removes a mutable module.
pub fn execute_deregister_module(
    sender: &String,
    owner: &String,
    operators: &Vec<String>,
    existing: Option<&Module>,
) -> (r: Result<(), ContractError>)
    ensures
        !(owner@ == sender@ || seq_has_string(operators@, sender@)) ==> r == Err::<(), ContractError>(ContractError::Unauthorized),
        (owner@ == sender@ || seq_has_string(operators@, sender@)) ==> match existing {
            None => r == Err::<(), ContractError>(ContractError::ModuleDoesNotExist),
            Some(m) => if !m.is_mutable {
                r == Err::<(), ContractError>(ContractError::ModuleImmutable)
            } else {
                r is Ok
            },
        },
{
    if !(is_contract_owner(owner, sender) || is_operator(operators, sender)) {
        return Err(ContractError::Unauthorized);
    }
    check_module_mutability(existing)
}

/// `load_modules`: of the stored modules (in storage order), at most as many as
/// the next index says.
pub fn load_modules(stored: Vec<Module>, next_idx: Option<u64>) -> (r: Vec<Module>)
    ensures
        ({
            let n = match next_idx { Some(i) => i as int, None => 1 };
            r@ == stored@.take(if n < stored@.len() { n } else { stored@.len() as int })
        }),
{
    let n: u64 = match next_idx {
        Some(i) => i,
        None => 1,
    };
    let mut stored = stored;
    if (n as u128) < (stored.len() as u128) {
        stored.truncate(n as usize);
    }
    proof { assert(stored@ =~= stored@.take(stored@.len() as int)); }
    stored
}

/// `load_modules_with_address`: modules and recorded addresses paired by
/// position, as far as both go.
pub fn modules_with_addresses(modules: Vec<Module>, addresses: Vec<String>) -> (r: Vec<ModuleInfoWithAddress>)
    ensures
        r@.len() == if modules@.len() < addresses@.len() { modules@.len() } else { addresses@.len() },
        forall|i: int| 0 <= i < r@.len() ==> (#[trigger] r@[i]).module == modules@[i] && r@[i].address == addresses@[i],
{
    let ghost ms = modules@;
    let ghost ads = addresses@;
    let mut modules = modules;
    let mut addresses = addresses;
    let mut out: Vec<ModuleInfoWithAddress> = Vec::new();
    while modules.len() > 0 && addresses.len() > 0
        invariant
            out@.len() <= ms.len() && out@.len() <= ads.len(),
            modules@ == ms.skip(out@.len() as int),
            addresses@ == ads.skip(out@.len() as int),
            forall|i: int| 0 <= i < out@.len() ==> (#[trigger] out@[i]).module == ms[i] && out@[i].address == ads[i],
        decreases modules.len(),
    {
        let ghost k = out@.len() as int;
        let m = modules.remove(0);
        let a = addresses.remove(0);
        proof {
            assert(m == ms[k] && a == ads[k]);
            assert(modules@ =~= ms.skip(k + 1));
            assert(addresses@ =~= ads.skip(k + 1));
        }
        out.push(ModuleInfoWithAddress { module: m, address: a });
    }
    out
}

/// The addresses the payment hook goes to: every module that is not a receipt,
/// in order, and then the last receipt module, if any.
pub open spec fn spec_hook_targets(ms: Seq<ModuleInfoWithAddress>) -> (Seq<Seq<char>>, Option<Seq<char>>)
    decreases ms.len(),
{
    if ms.len() == 0 {
        (Seq::empty(), None)
    } else {
        let (t, rc) = spec_hook_targets(ms.drop_last());
        if ms.last().module.module_type == ModuleType::Receipt {
            (t, Some(ms.last().address@))
        } else {
            (t.push(ms.last().address@), rc)
        }
    }
}

/// The addresses `on_funds_transfer` asks, in the order it asks them.
pub fn hook_targets(ms: &Vec<ModuleInfoWithAddress>) -> (r: (Vec<String>, Option<String>))
    ensures
        r.0@.map_values(|s: String| s@) == spec_hook_targets(ms@).0,
        match (r.1, spec_hook_targets(ms@).1) {
            (None, None) => true,
            (Some(a), Some(b)) => a@ == b,
            _ => false,
        },
{
    let mut targets: Vec<String> = Vec::new();
    let mut receipt: Option<String> = None;
    let mut i: usize = 0;
    while i < ms.len()
        invariant
            i <= ms@.len(),
            targets@.map_values(|s: String| s@) == spec_hook_targets(ms@.take(i as int)).0,
            match (receipt, spec_hook_targets(ms@.take(i as int)).1) {
                (None, None) => true,
                (Some(a), Some(b)) => a@ == b,
                _ => false,
            },
        decreases ms.len() - i,
    {
        proof {
            assert(ms@.take(i + 1).drop_last() =~= ms@.take(i as int));
            assert(ms@.take(i + 1).last() == ms@[i as int]);
        }
        if ms[i].module.module_type == ModuleType::Receipt {
            receipt = Some(ms[i].address.clone());
        } else {
            let ghost t0 = targets@;
            targets.push(ms[i].address.clone());
            proof { assert(targets@.map_values(|s: String| s@) =~= t0.map_values(|s: String| s@).push(ms@[i as int].address@)); }
        }
        i = i + 1;
    }
    proof { assert(ms@.take(ms@.len() as int) =~= ms@); }
    (targets, receipt)
}

/// Funds a payment carries: native coins or cw20 tokens.
#[derive(Clone, Debug, PartialEq, Eq)]
pub enum Funds {
    Native(Coin),
    Cw20 { address: String, amount: u128 },
}

/// A module's answer to the payment hook: its payments and what it leaves.
#[derive(Clone, Debug)]
pub struct OnFundsTransferResponse {
    pub msgs: Vec<CosmosMsg>,
    pub leftover_funds: Funds,
}

/// One step of `on_funds_transfer`: a module's answer (if it supports the hook)
/// adds its payments; what it leaves becomes the remainder, except for the
/// receipt module, whose leftover is ignored.
pub fn apply_hook_response(msgs: &mut Vec<CosmosMsg>, remainder: &mut Funds, response: Option<OnFundsTransferResponse>, is_receipt: bool)
    ensures
        match response {
            None => final(msgs)@ == old(msgs)@ && *final(remainder) == *old(remainder),
            Some(resp) => {
                &&& final(msgs)@ == old(msgs)@ + resp.msgs@
                &&& *final(remainder) == if is_receipt { *old(remainder) } else { resp.leftover_funds }
            },
        },
{
    match response {
        None => {},
        Some(resp) => {
            let OnFundsTransferResponse { msgs: m, leftover_funds } = resp;
            let mut m = m;
            msgs.append(&mut m);
            if !is_receipt {
                *remainder = leftover_funds;
            }
        },
    }
}

/// Why a query of a module failed.
#[derive(Clone, Debug)]
pub enum QueryError {
    /// A generic error, with its message.
    Generic { msg: String },
    /// Any other error.
    Other(ContractError),
}

/// Whether `needle` occurs in `hay` as a contiguous part.
pub open spec fn contains_sub(hay: Seq<char>, needle: Seq<char>) -> bool {
    exists|i: int| 0 <= i && i + needle.len() <= hay.len() && #[trigger] hay.subrange(i, i + needle.len()) == needle
}

fn chars_of(s: &String) -> (r: Vec<char>)
    ensures
        r@ == s@,
{
    let n = s.as_str().unicode_len();
    let mut out: Vec<char> = Vec::new();
    let mut i: usize = 0;
    while i < n
        invariant
            n == s@.len(),
            i <= n,
            out@ == s@.take(i as int),
        decreases n - i,
    {
        out.push(s.as_str().get_char(i));
        proof { assert(out@ =~= s@.take(i + 1)); }
        i = i + 1;
    }
    proof { assert(s@.take(n as int) =~= s@); }
    out
}

/// Whether the text `hay` contains the text `needle`.
pub fn str_contains(hay: &String, needle: &String) -> (r: bool)
    ensures
        r == contains_sub(hay@, needle@),
{
    let h = chars_of(hay);
    let nd = chars_of(needle);
    if nd.len() > h.len() {
        proof {
            assert forall|i: int| 0 <= i && i + nd@.len() <= h@.len() implies #[trigger] h@.subrange(i, i + nd@.len()) != nd@ by {}
        }
        return false;
    }
    let mut i: usize = 0;
    let last: usize = h.len() - nd.len();
    while i <= last
        invariant
            h@ == hay@,
            nd@ == needle@,
            nd@.len() <= h@.len(),
            last == h@.len() - nd@.len(),
            i <= last + 1,
            forall|k: int| 0 <= k < i ==> #[trigger] h@.subrange(k, k + nd@.len()) != nd@,
        decreases h.len() - i,
    {
        let mut j: usize = 0;
        let mut same = true;
        while j < nd.len()
            invariant
                i <= last,
                last == h@.len() - nd@.len(),
                h@.len() <= usize::MAX,
                j <= nd@.len(),
                same == (forall|t: int| 0 <= t < j ==> h@[i + t] == nd@[t]),
            decreases nd.len() - j,
        {
            if h[i + j] != nd[j] {
                same = false;
            }
            j = j + 1;
        }
        if same {
            proof {
                assert(h@.subrange(i as int, i + nd@.len()) =~= nd@);
            }
            return true;
        }
        proof {
            let t = choose|t: int| 0 <= t < nd@.len() && h@[i + t] != nd@[t];
            assert(h@.subrange(i as int, i + nd@.len())[t] != nd@[t]);
        }
        i = i + 1;
    }
    false
}

/// `process_module_response`: a module that answers a generic error naming
/// `UnsupportedOperation` does not support the hook (`None`); any other error
/// is passed on.
pub fn process_module_response<T>(resp: Result<T, QueryError>) -> (r: Result<Option<T>, ContractError>)
    ensures
        match resp {
            Ok(v) => r == Ok::<Option<T>, ContractError>(Some(v)),
            Err(QueryError::Generic { msg }) => if contains_sub(msg@, "UnsupportedOperation"@) {
                r == Ok::<Option<T>, ContractError>(None)
            } else {
                r == Err::<Option<T>, ContractError>(ContractError::Std { msg })
            },
            Err(QueryError::Other(e)) => r == Err::<Option<T>, ContractError>(e),
        },
{
    match resp {
        Ok(v) => Ok(Some(v)),
        Err(QueryError::Generic { msg }) => {
            let marker = "UnsupportedOperation".to_owned();
            if str_contains(&msg, &marker) {
                Ok(None)
            } else {
                Err(ContractError::Std { msg })
            }
        },
        Err(QueryError::Other(e)) => Err(e),
    }
}

} // verus!
