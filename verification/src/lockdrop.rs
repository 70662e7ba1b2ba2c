//! The lockdrop: users lock a native coin during a deposit window, may take
//! part of it back during a withdrawal window (all of it while deposits are
//! open, half in the first half of the withdrawal window, then a share falling
//! linearly to nothing), and afterwards claim incentive tokens in proportion to
//! what they locked, unless they delegated them to a bootstrap contract.
use vstd::prelude::*;
use crate::common::{
    attr, attrs_are, decimal, decimal_string, invalid_funds, invalid_withdrawal, is_invalid_funds, is_invalid_withdrawal,
    Attribute, Coin, ContractError, CosmosMsg, ExecAction,
};
use vstd::string::StringExecFns;
use crate::math::{Decimal, checked_ratio, fractional, spec_mul_dec, mul_dec};

verus! {

#[derive(Clone, Debug, PartialEq, Eq)]
pub struct LockdropConfig {
    /// The contract that may enable claims and receives delegations, if any.
    pub bootstrap_contract_address: Option<String>,
    /// When deposits open (seconds).
    pub init_timestamp: u64,
    /// Length of the deposit window (seconds).
    pub deposit_window: u64,
    /// Length of the withdrawal window that follows it (seconds).
    pub withdrawal_window: u64,
    /// Incentive tokens to distribute.
    pub lockdrop_incentives: u128,
    /// The cw20 incentive token.
    pub incentive_token: String,
    /// The native denomination that is locked.
    pub native_denom: String,
}

#[derive(Clone, Copy, Debug, PartialEq, Eq, Structural)]
pub struct LockdropState {
    /// Native coins locked by all users.
    pub total_native_locked: u128,
    /// Incentives delegated to the bootstrap contract by all users.
    pub total_delegated: u128,
    /// Whether users may claim their incentives.
    pub are_claims_allowed: bool,
}

#[derive(Clone, Copy, Debug, PartialEq, Eq, Structural)]
pub struct UserInfo {
    /// Native coins locked by the user.
    pub total_native_locked: u128,
    /// Incentives the user delegated to the bootstrap contract.
    pub delegated_incentives: u128,
    /// Whether the user claimed the incentives.
    pub lockdrop_claimed: bool,
    /// Whether the user withdrew after the deposit window.
    pub withdrawal_flag: bool,
}

impl LockdropConfig {
    /// The window arithmetic of the contract stays within `u64`.
    pub open spec fn wf(&self) -> bool {
        &&& self.init_timestamp + self.deposit_window + self.withdrawal_window <= u64::MAX
        &&& 100 * self.withdrawal_window <= u64::MAX
    }

    pub open spec fn deposit_end(&self) -> int {
        self.init_timestamp + self.deposit_window
    }

    pub open spec fn withdrawal_end(&self) -> int {
        self.init_timestamp + self.deposit_window + self.withdrawal_window
    }
}

pub open spec fn default_user() -> UserInfo {
    UserInfo { total_native_locked: 0, delegated_incentives: 0, lockdrop_claimed: false, withdrawal_flag: false }
}

pub open spec fn user_or_default(u: Option<UserInfo>) -> UserInfo {
    match u {
        Some(u) => u,
        None => default_user(),
    }
}

/// `InstantiateMsg` validation: the start may not lie in the past and both
/// windows must be non-empty with the withdrawal window shorter than the
/// deposit window. Returns the configuration, the empty state and the
/// response attributes.
pub fn instantiate(
    bootstrap_contract: Option<String>,
    init_timestamp: u64,
    deposit_window: u64,
    withdrawal_window: u64,
    incentive_token: String,
    native_denom: String,
    now: u64,
) -> (r: Result<(LockdropConfig, LockdropState, Vec<Attribute>), ContractError>)
    ensures
        init_timestamp < now ==> r == Err::<(LockdropConfig, LockdropState, Vec<Attribute>), ContractError>(ContractError::StartTimeInThePast),
        init_timestamp >= now && (deposit_window == 0 || withdrawal_window == 0 || deposit_window <= withdrawal_window)
            ==> r == Err::<(LockdropConfig, LockdropState, Vec<Attribute>), ContractError>(ContractError::InvalidWindow),
        init_timestamp >= now && deposit_window > withdrawal_window && withdrawal_window > 0 ==> (r matches Ok((c, s, a)) && {
            &&& c == LockdropConfig {
                bootstrap_contract_address: bootstrap_contract,
                init_timestamp,
                deposit_window,
                withdrawal_window,
                lockdrop_incentives: 0,
                incentive_token,
                native_denom,
            }
            &&& s == LockdropState { total_native_locked: 0, total_delegated: 0, are_claims_allowed: false }
            &&& attrs_are(a@, seq![("method"@, "instantiate"@), ("type"@, "lockdrop"@)])
        }),
{
    if init_timestamp < now {
        return Err(ContractError::StartTimeInThePast);
    }
    if deposit_window == 0 || withdrawal_window == 0 || deposit_window <= withdrawal_window {
        return Err(ContractError::InvalidWindow);
    }
    let config = LockdropConfig {
        bootstrap_contract_address: bootstrap_contract,
        init_timestamp,
        deposit_window,
        withdrawal_window,
        lockdrop_incentives: 0,
        incentive_token,
        native_denom,
    };
    let attrs = vec![attr("method", "instantiate".to_owned()), attr("type", "lockdrop".to_owned())];
    Ok((config, LockdropState { total_native_locked: 0, total_delegated: 0, are_claims_allowed: false }, attrs))
}

/// Deposits are open from the start through the end of the deposit window.
pub fn is_deposit_open(current_timestamp: u64, config: &LockdropConfig) -> (r: bool)
    requires
        config.wf(),
    ensures
        r == (current_timestamp >= config.init_timestamp && current_timestamp <= config.deposit_end()),
{
    let deposits_opened_till = config.init_timestamp + config.deposit_window;
    current_timestamp >= config.init_timestamp && deposits_opened_till >= current_timestamp
}

/// Withdrawals are open from the start through the end of the withdrawal window.
pub fn is_withdraw_open(current_timestamp: u64, config: &LockdropConfig) -> (r: bool)
    requires
        config.wf(),
    ensures
        r == (current_timestamp >= config.init_timestamp && current_timestamp <= config.withdrawal_end()),
{
    let withdrawals_opened_till = config.init_timestamp + config.deposit_window + config.withdrawal_window;
    current_timestamp >= config.init_timestamp && withdrawals_opened_till >= current_timestamp
}

/// The share of a deposit that may still be withdrawn at `t`, as decimal atomics.
pub open spec fn spec_withdrawal_percent(t: u64, config: LockdropConfig) -> u128 {
    let c1 = config.init_timestamp + config.deposit_window;
    let c2 = c1 + config.withdrawal_window / 2;
    let fin = c1 + config.withdrawal_window;
    if t < c1 {
        1_000_000_000_000_000_000u128
    } else if t <= c2 {
        500_000_000_000_000_000u128
    } else if t < fin {
        ((50 * (fin - t) * fractional()) / (100 * (fin - c2))) as u128
    } else {
        0u128
    }
}

/// The maximum share of a user's deposit that may be withdrawn at
/// `current_timestamp`: 100% before the deposit window closes, 50% in the first
/// half of the withdrawal window, then falling linearly to 0% at its end.
pub fn allowed_withdrawal_percent(current_timestamp: u64, config: &LockdropConfig) -> (r: Decimal)
    requires
        config.wf(),
    ensures
        r.atomics == spec_withdrawal_percent(current_timestamp, *config),
        r.atomics <= fractional(),
{
    let withdrawal_cutoff_init_point = config.init_timestamp + config.deposit_window;
    if current_timestamp < withdrawal_cutoff_init_point {
        return Decimal::one();
    }
    let withdrawal_cutoff_second_point = withdrawal_cutoff_init_point + config.withdrawal_window / 2;
    if current_timestamp <= withdrawal_cutoff_second_point {
        return Decimal { atomics: 500_000_000_000_000_000u128 };
    }
    let withdrawal_cutoff_final = withdrawal_cutoff_init_point + config.withdrawal_window;
    if current_timestamp < withdrawal_cutoff_final {
        let time_left: u64 = withdrawal_cutoff_final - current_timestamp;
        let span: u64 = withdrawal_cutoff_final - withdrawal_cutoff_second_point;
        proof {
            assert(time_left <= config.withdrawal_window);
            assert(span <= config.withdrawal_window);
            assert(span > 0);
            assert(time_left < span) by {
                assert(config.withdrawal_window - config.withdrawal_window / 2 == span);
            }
        }
        let numerator: u64 = 50 * time_left;
        let denominator: u64 = 100 * span;
        proof {
            assert(numerator as int * fractional() / denominator as int <= fractional()) by (nonlinear_arith)
                requires numerator as int == 50 * time_left, denominator as int == 100 * span, time_left < span, span > 0,
                    fractional() > 0;
            assert(numerator as int * fractional() / denominator as int == 50 * (withdrawal_cutoff_final - current_timestamp) * fractional() / (100 * (withdrawal_cutoff_final - withdrawal_cutoff_second_point)));
        }
        match Decimal::checked_from_ratio(numerator as u128, denominator as u128) {
            Some(d) => d,
            None => {
                proof { assert(false); }
                Decimal::zero()
            },
        }
    } else {
        Decimal::zero()
    }
}

/// The incentives earned by a user who locked `user_locked` out of `total_locked`.
pub open spec fn spec_user_incentives(incentives: u128, user_locked: u128, total_locked: u128) -> Option<u128> {
    match checked_ratio(user_locked as int, fractional(), total_locked as int) {
        None => None,
        Some(share) => spec_mul_dec(incentives as int, Decimal { atomics: share }),
    }
}

/// `lockdrop_incentives * (user_locked / total_locked)`, floored.
pub fn calculate_user_incentives(incentives: u128, user_locked: u128, total_locked: u128) -> (r: Option<u128>)
    ensures
        r == spec_user_incentives(incentives, user_locked, total_locked),
{
    match Decimal::checked_from_ratio(user_locked, total_locked) {
        None => None,
        Some(share) => mul_dec(incentives, share),
    }
}

/// `Receive` of incentive tokens (`IncreaseIncentives`): adds `amount` to the
/// incentives while the withdrawal window has not ended. `token_address` is the
/// cw20 contract that sent the tokens. Returns the response attributes.
pub fn handle_increase_incentives(config: &mut LockdropConfig, token_address: &String, amount: u128, now: u64) -> (r: Result<Vec<Attribute>, ContractError>)
    requires
        old(config).wf(),
    ensures
        amount == 0 ==> is_invalid_funds(r, "Number of tokens should be > 0"@),
        amount != 0 && token_address@ != old(config).incentive_token@ ==> is_invalid_funds(r, "Only incentive tokens are valid"@),
        amount != 0 && token_address@ == old(config).incentive_token@ && now >= old(config).withdrawal_end()
            ==> r == Err::<Vec<Attribute>, ContractError>(ContractError::TokenAlreadyBeingDistributed),
        amount != 0 && token_address@ == old(config).incentive_token@ && now < old(config).withdrawal_end() ==> {
            if old(config).lockdrop_incentives + amount > u128::MAX {
                r == Err::<Vec<Attribute>, ContractError>(ContractError::Overflow)
            } else {
                &&& r matches Ok(a) && attrs_are(a@, seq![("action"@, "incentives_increased"@), ("amount"@, decimal(amount as nat))])
                &&& *final(config) == LockdropConfig { lockdrop_incentives: (old(config).lockdrop_incentives + amount) as u128, ..*old(config) }
            }
        },
        r is Err ==> *final(config) == *old(config),
{
    if amount == 0 {
        return Err(invalid_funds("Number of tokens should be > 0"));
    }
    if *token_address != config.incentive_token {
        return Err(invalid_funds("Only incentive tokens are valid"));
    }
    if now >= config.init_timestamp + config.deposit_window + config.withdrawal_window {
        return Err(ContractError::TokenAlreadyBeingDistributed);
    }
    config.lockdrop_incentives = match config.lockdrop_incentives.checked_add(amount) {
        Some(v) => v,
        None => return Err(ContractError::Overflow),
    };
    Ok(vec![attr("action", "incentives_increased".to_owned()), attr("amount", decimal_string(amount))])
}

/// Why a deposit or a withdrawal of native coins is refused.
pub enum Refusal {
    DepositWindowClosed,
    NotSingleFund,
    WrongDenom,
    ZeroAmount,
    Overflow,
    WithdrawalsNotAvailable,
    NoLockup,
    ExceedsWithdrawalLimit { max: u128 },
    MaxOneWithdrawal,
}

/// Whether `e` is the error the contract answers the refusal `f` with, for a
/// lockdrop of `native_denom`.
pub open spec fn refused_with(e: ContractError, f: Refusal, native_denom: Seq<char>) -> bool {
    match f {
        Refusal::DepositWindowClosed => e == ContractError::DepositWindowClosed,
        Refusal::NotSingleFund => e matches ContractError::InvalidFunds { msg } && msg@ == "Must deposit a single fund"@,
        Refusal::WrongDenom => e matches ContractError::InvalidFunds { msg } && msg@ == "Only "@ + native_denom + " accepted"@,
        Refusal::ZeroAmount => e matches ContractError::InvalidFunds { msg } && msg@ == "Amount must be greater than 0"@,
        Refusal::Overflow => e == ContractError::Overflow,
        Refusal::WithdrawalsNotAvailable => is_invalid_withdrawal(e, "Withdrawals not available"@),
        Refusal::NoLockup => e == ContractError::NoLockup,
        Refusal::ExceedsWithdrawalLimit { max } =>
            is_invalid_withdrawal(e, "Amount exceeds max allowed withdrawal limit of "@ + decimal(max as nat)),
        Refusal::MaxOneWithdrawal => is_invalid_withdrawal(e, "Max 1 withdrawal allowed"@),
    }
}

/// What `DepositNative` gives: the state and the user's record after locking
/// the single coin of `funds`, or why it is refused.
pub open spec fn spec_deposit_native(
    config: LockdropConfig,
    state: LockdropState,
    user: Option<UserInfo>,
    funds: Seq<Coin>,
    now: u64,
) -> Result<(LockdropState, UserInfo), Refusal> {
    let u = user_or_default(user);
    if !(now >= config.init_timestamp && now <= config.deposit_end()) {
        Err(Refusal::DepositWindowClosed)
    } else if funds.len() != 1 {
        Err(Refusal::NotSingleFund)
    } else if funds[0].denom@ != config.native_denom@ {
        Err(Refusal::WrongDenom)
    } else if funds[0].amount == 0 {
        Err(Refusal::ZeroAmount)
    } else if u.total_native_locked + funds[0].amount > u128::MAX
        || state.total_native_locked + funds[0].amount > u128::MAX {
        Err(Refusal::Overflow)
    } else {
        Ok((
            LockdropState { total_native_locked: (state.total_native_locked + funds[0].amount) as u128, ..state },
            UserInfo { total_native_locked: (u.total_native_locked + funds[0].amount) as u128, ..u },
        ))
    }
}

/// `DepositNative`: `sender` locks the single native coin sent, of the
/// configured denomination, while deposits are open.
pub fn execute_deposit_native(
    config: &LockdropConfig,
    state: LockdropState,
    user: Option<UserInfo>,
    sender: &String,
    funds: &Vec<Coin>,
    now: u64,
) -> (r: Result<(LockdropState, UserInfo, Vec<Attribute>), ContractError>)
    requires
        config.wf(),
    ensures
        match spec_deposit_native(*config, state, user, funds@, now) {
            Err(f) => r matches Err(e) && refused_with(e, f, config.native_denom@),
            Ok((s2, u2)) => r matches Ok((s3, u3, a)) && {
                &&& s3 == s2
                &&& u3 == u2
                &&& attrs_are(a@, seq![
                    ("action"@, "lock_native"@),
                    ("user"@, sender@),
                    ("ust_deposited"@, decimal(funds@[0].amount as nat)),
                ])
            },
        },
{
    if !is_deposit_open(now, config) {
        return Err(ContractError::DepositWindowClosed);
    }
    if funds.len() != 1 {
        return Err(invalid_funds("Must deposit a single fund"));
    }
    let coin = &funds[0];
    if coin.denom != config.native_denom {
        let mut msg = String::from_str("Only ");
        msg.append(config.native_denom.as_str());
        msg.append(" accepted");
        return Err(ContractError::InvalidFunds { msg });
    }
    if coin.amount == 0 {
        return Err(invalid_funds("Amount must be greater than 0"));
    }
    let mut u = match user {
        Some(u) => u,
        None => UserInfo { total_native_locked: 0, delegated_incentives: 0, lockdrop_claimed: false, withdrawal_flag: false },
    };
    let mut state = state;
    u.total_native_locked = match u.total_native_locked.checked_add(coin.amount) {
        Some(v) => v,
        None => return Err(ContractError::Overflow),
    };
    state.total_native_locked = match state.total_native_locked.checked_add(coin.amount) {
        Some(v) => v,
        None => return Err(ContractError::Overflow),
    };
    let attrs = vec![
        attr("action", "lock_native".to_owned()),
        attr("user", sender.clone()),
        attr("ust_deposited", decimal_string(coin.amount)),
    ];
    Ok((state, u, attrs))
}

pub open spec fn is_bank_send(m: CosmosMsg, to: Seq<char>, denom: Seq<char>, amount: u128) -> bool {
    match m {
        CosmosMsg::BankSend { to_address, amount: coins } => {
            &&& to_address@ == to
            &&& coins@.len() == 1
            &&& coins@[0].denom@ == denom
            &&& coins@[0].amount == amount
        },
        _ => false,
    }
}

/// What `WithdrawNative` gives: the state, the user's record and the amount
/// paid back, or why it is refused.
pub open spec fn spec_withdraw_native(
    config: LockdropConfig,
    state: LockdropState,
    user: Option<UserInfo>,
    amount: Option<u128>,
    now: u64,
) -> Result<(LockdropState, UserInfo, u128), Refusal> {
    let u = user_or_default(user);
    let max = spec_mul_dec(u.total_native_locked as int, Decimal { atomics: spec_withdrawal_percent(now, config) });
    if !(now >= config.init_timestamp && now <= config.withdrawal_end()) {
        Err(Refusal::WithdrawalsNotAvailable)
    } else if u.total_native_locked == 0 {
        Err(Refusal::NoLockup)
    } else {
        match max {
            None => Err(Refusal::Overflow),
            Some(m) => {
                let w = match amount { Some(a) => a, None => m };
                if w > m {
                    Err(Refusal::ExceedsWithdrawalLimit { max: m })
                } else if now >= config.deposit_end() && u.withdrawal_flag {
                    Err(Refusal::MaxOneWithdrawal)
                } else if state.total_native_locked < w {
                    Err(Refusal::Overflow)
                } else {
                    Ok((
                        LockdropState { total_native_locked: (state.total_native_locked - w) as u128, ..state },
                        UserInfo {
                            total_native_locked: (u.total_native_locked - w) as u128,
                            withdrawal_flag: u.withdrawal_flag || now >= config.deposit_end(),
                            ..u
                        },
                        w,
                    ))
                }
            },
        }
    }
}

/// `WithdrawNative`: while withdrawals are open, pays `sender` back `amount`
/// (the most allowed at `now` when `None`) of its locked coins. After the
/// deposit window only one withdrawal is allowed.
pub fn execute_withdraw_native(
    config: &LockdropConfig,
    state: LockdropState,
    user: Option<UserInfo>,
    sender: &String,
    amount: Option<u128>,
    now: u64,
) -> (r: Result<(LockdropState, UserInfo, CosmosMsg, Vec<Attribute>), ContractError>)
    requires
        config.wf(),
    ensures
        match spec_withdraw_native(*config, state, user, amount, now) {
            Err(f) => r matches Err(e) && refused_with(e, f, config.native_denom@),
            Ok((s2, u2, w)) => r matches Ok((s3, u3, msg, a)) && {
                &&& s3 == s2
                &&& u3 == u2
                &&& is_bank_send(msg, sender@, config.native_denom@, w)
                &&& attrs_are(a@, seq![("action"@, "withdraw_native"@), ("user"@, sender@), ("amount"@, decimal(w as nat))])
            },
        },
{
    if !is_withdraw_open(now, config) {
        return Err(invalid_withdrawal(String::from_str("Withdrawals not available")));
    }
    let mut u = match user {
        Some(u) => u,
        None => UserInfo { total_native_locked: 0, delegated_incentives: 0, lockdrop_claimed: false, withdrawal_flag: false },
    };
    if u.total_native_locked == 0 {
        return Err(ContractError::NoLockup);
    }
    let pct = allowed_withdrawal_percent(now, config);
    let max_allowed = match mul_dec(u.total_native_locked, pct) {
        Some(m) => m,
        None => return Err(ContractError::Overflow),
    };
    let withdraw_amount = match amount {
        Some(a) => a,
        None => max_allowed,
    };
    if withdraw_amount > max_allowed {
        let mut msg = String::from_str("Amount exceeds max allowed withdrawal limit of ");
        msg.append(decimal_string(max_allowed).as_str());
        return Err(invalid_withdrawal(msg));
    }
    if now >= config.init_timestamp + config.deposit_window {
        if u.withdrawal_flag {
            return Err(invalid_withdrawal(String::from_str("Max 1 withdrawal allowed")));
        }
        u.withdrawal_flag = true;
    }
    proof {
        // the limit is a fraction of the user's deposit
        assert(max_allowed <= u.total_native_locked) by (nonlinear_arith)
            requires max_allowed as int == u.total_native_locked as int * pct.atomics as int / fractional(),
                pct.atomics <= fractional(), fractional() > 0;
    }
    u.total_native_locked = u.total_native_locked - withdraw_amount;
    let mut state = state;
    if state.total_native_locked < withdraw_amount {
        return Err(ContractError::Overflow);
    }
    state.total_native_locked = state.total_native_locked - withdraw_amount;
    let msg = CosmosMsg::BankSend {
        to_address: sender.clone(),
        amount: vec![Coin { denom: config.native_denom.clone(), amount: withdraw_amount }],
    };
    let attrs = vec![
        attr("action", "withdraw_native".to_owned()),
        attr("user", sender.clone()),
        attr("amount", decimal_string(withdraw_amount)),
    ];
    Ok((state, u, msg, attrs))
}

/// `WithdrawProceeds`: after the withdrawal window the owner sends the
/// contract's whole native balance to `recipient` (the owner when `None`).
/// Returns the transfer and the response attributes.
pub fn execute_withdraw_proceeds(
    config: &LockdropConfig,
    sender_is_owner: bool,
    sender: &String,
    recipient: Option<String>,
    balance: u128,
    now: u64,
) -> (r: Result<(CosmosMsg, Vec<Attribute>), ContractError>)
    requires
        config.wf(),
    ensures
        !sender_is_owner ==> r == Err::<(CosmosMsg, Vec<Attribute>), ContractError>(ContractError::Unauthorized),
        sender_is_owner && (now < config.init_timestamp || now <= config.withdrawal_end())
            ==> (r matches Err(e) && is_invalid_withdrawal(e, "Lockdrop withdrawals haven't concluded yet"@)),
        sender_is_owner && !(now < config.init_timestamp || now <= config.withdrawal_end()) && balance == 0
            ==> (r matches Err(e) && is_invalid_withdrawal(e, "Already withdrew funds"@)),
        sender_is_owner && !(now < config.init_timestamp || now <= config.withdrawal_end()) && balance != 0
            ==> (r matches Ok((msg, a)) && {
                &&& is_bank_send(msg, match recipient { Some(x) => x@, None => sender@ }, config.native_denom@, balance)
                &&& attrs_are(a@, seq![
                    ("action"@, "withdraw_proceeds"@),
                    ("amount"@, decimal(balance as nat)),
                    ("timestamp"@, decimal(now as nat)),
                ])
            }),
{
    if !sender_is_owner {
        return Err(ContractError::Unauthorized);
    }
    if now < config.init_timestamp || is_withdraw_open(now, config) {
        return Err(invalid_withdrawal(String::from_str("Lockdrop withdrawals haven't concluded yet")));
    }
    if balance == 0 {
        return Err(invalid_withdrawal(String::from_str("Already withdrew funds")));
    }
    let to = match recipient {
        Some(a) => a,
        None => sender.clone(),
    };
    let msg = CosmosMsg::BankSend { to_address: to, amount: vec![Coin { denom: config.native_denom.clone(), amount: balance }] };
    let attrs = vec![
        attr("action", "withdraw_proceeds".to_owned()),
        attr("amount", decimal_string(balance)),
        attr("timestamp", decimal_string(now as u128)),
    ];
    Ok((msg, attrs))
}

/// `EnableClaims`: after the withdrawal window, the bootstrap contract (anyone
/// when none is configured) allows claims, once.
pub fn execute_enable_claims(config: &LockdropConfig, state: LockdropState, sender: &String, now: u64) -> (r: Result<(LockdropState, Vec<Attribute>), ContractError>)
    requires
        config.wf(),
    ensures
        (config.bootstrap_contract_address matches Some(b) && b@ != sender@)
            ==> r == Err::<(LockdropState, Vec<Attribute>), ContractError>(ContractError::Unauthorized),
        !(config.bootstrap_contract_address matches Some(b) && b@ != sender@) ==> {
            if now >= config.init_timestamp && now <= config.withdrawal_end() {
                r == Err::<(LockdropState, Vec<Attribute>), ContractError>(ContractError::PhaseOngoing)
            } else if state.are_claims_allowed {
                r == Err::<(LockdropState, Vec<Attribute>), ContractError>(ContractError::ClaimsAlreadyAllowed)
            } else {
                r matches Ok((s2, a)) && s2 == LockdropState { are_claims_allowed: true, ..state }
                    && attrs_are(a@, seq![("action"@, "enable_claims"@)])
            }
        },
{
    match &config.bootstrap_contract_address {
        Some(b) => {
            if *b != *sender {
                return Err(ContractError::Unauthorized);
            }
        },
        None => {},
    }
    if is_withdraw_open(now, config) {
        return Err(ContractError::PhaseOngoing);
    }
    if state.are_claims_allowed {
        return Err(ContractError::ClaimsAlreadyAllowed);
    }
    Ok((LockdropState { are_claims_allowed: true, ..state }, vec![attr("action", "enable_claims".to_owned())]))
}

pub open spec fn is_cw20_transfer_msg(m: CosmosMsg, token: Seq<char>, recipient: Seq<char>, amount: u128) -> bool {
    match m {
        CosmosMsg::Execute { contract, action, funds } => {
            &&& contract@ == token
            &&& funds@.len() == 0
            &&& match action {
                ExecAction::Cw20Transfer { recipient: to, amount: a } => to@ == recipient && a == amount,
                _ => false,
            }
        },
        _ => false,
    }
}

/// `ClaimRewards`: once claims are allowed, sends the user the incentives it
/// earned and did not delegate, marking them claimed. Returns the user's
/// record, the transfer if there is anything to send, and the response
/// attributes.
pub fn execute_claim_rewards(
    config: &LockdropConfig,
    state: &LockdropState,
    user: Option<UserInfo>,
    sender: &String,
) -> (r: Result<(UserInfo, Option<CosmosMsg>, Vec<Attribute>), ContractError>)
    ensures
        ({
            let u = user_or_default(user);
            if u.total_native_locked == 0 {
                r == Err::<(UserInfo, Option<CosmosMsg>, Vec<Attribute>), ContractError>(ContractError::NoLockup)
            } else if !state.are_claims_allowed {
                r == Err::<(UserInfo, Option<CosmosMsg>, Vec<Attribute>), ContractError>(ContractError::ClaimsNotAllowed)
            } else if u.lockdrop_claimed {
                r == Err::<(UserInfo, Option<CosmosMsg>, Vec<Attribute>), ContractError>(ContractError::LockdropAlreadyClaimed)
            } else {
                match spec_user_incentives(config.lockdrop_incentives, u.total_native_locked, state.total_native_locked) {
                    None => r == Err::<(UserInfo, Option<CosmosMsg>, Vec<Attribute>), ContractError>(ContractError::Overflow),
                    Some(total) => if total < u.delegated_incentives {
                        r == Err::<(UserInfo, Option<CosmosMsg>, Vec<Attribute>), ContractError>(ContractError::Overflow)
                    } else if total - u.delegated_incentives == 0 {
                        r matches Ok((u2, None, a)) && u2 == u && attrs_are(a@, seq![("action"@, "claim_rewards"@)])
                    } else {
                        r matches Ok((u2, Some(msg), a)) && {
                            &&& u2 == UserInfo { lockdrop_claimed: true, ..u }
                            &&& is_cw20_transfer_msg(msg, config.incentive_token@, sender@, (total - u.delegated_incentives) as u128)
                            &&& attrs_are(a@, seq![
                                ("action"@, "claim_rewards"@),
                                ("amount"@, decimal((total - u.delegated_incentives) as nat)),
                            ])
                        }
                    },
                }
            }
        }),
        r matches Ok((u2, Some(msg), _)) ==> (spec_user_incentives(config.lockdrop_incentives, u2.total_native_locked, state.total_native_locked) matches Some(t)
            && is_cw20_transfer_msg(msg, config.incentive_token@, sender@, (t - u2.delegated_incentives) as u128)),
{
    let mut u = match user {
        Some(u) => u,
        None => UserInfo { total_native_locked: 0, delegated_incentives: 0, lockdrop_claimed: false, withdrawal_flag: false },
    };
    if u.total_native_locked == 0 {
        return Err(ContractError::NoLockup);
    }
    if !state.are_claims_allowed {
        return Err(ContractError::ClaimsNotAllowed);
    }
    if u.lockdrop_claimed {
        return Err(ContractError::LockdropAlreadyClaimed);
    }
    let total = match calculate_user_incentives(config.lockdrop_incentives, u.total_native_locked, state.total_native_locked) {
        Some(t) => t,
        None => return Err(ContractError::Overflow),
    };
    if total < u.delegated_incentives {
        return Err(ContractError::Overflow);
    }
    let to_transfer = total - u.delegated_incentives;
    if to_transfer == 0 {
        return Ok((u, None, vec![attr("action", "claim_rewards".to_owned())]));
    }
    u.lockdrop_claimed = true;
    let msg = CosmosMsg::Execute {
        contract: config.incentive_token.clone(),
        action: ExecAction::Cw20Transfer { recipient: sender.clone(), amount: to_transfer },
        funds: Vec::new(),
    };
    let attrs = vec![attr("action", "claim_rewards".to_owned()), attr("amount", decimal_string(to_transfer))];
    Ok((u, Some(msg), attrs))
}

/// The refusal of a delegation larger than what the user may still delegate.
pub open spec fn exceeds_unclaimed_text(requested: u128, max: u128) -> Seq<char> {
    "Amount cannot exceed user's unclaimed token balance. Tokens to delegate = "@ + decimal(requested as nat)
        + ", Max delegatable tokens = "@ + decimal(max as nat)
}

/// `DepositToBootstrap`: after the withdrawal window and before claims open,
/// `sender` delegates `amount` of its unclaimed incentives to the bootstrap
/// contract.
pub fn execute_deposit_to_bootstrap(
    config: &LockdropConfig,
    state: LockdropState,
    user: Option<UserInfo>,
    sender: &String,
    amount: u128,
    now: u64,
) -> (r: Result<(LockdropState, UserInfo, Vec<Attribute>), ContractError>)
    requires
        config.wf(),
    ensures
        ({
            let u = user_or_default(user);
            if now < config.withdrawal_end() {
                r == Err::<(LockdropState, UserInfo, Vec<Attribute>), ContractError>(ContractError::PhaseOngoing)
            } else if state.are_claims_allowed {
                r == Err::<(LockdropState, UserInfo, Vec<Attribute>), ContractError>(ContractError::ClaimsAlreadyAllowed)
            } else if config.bootstrap_contract_address is None {
                r == Err::<(LockdropState, UserInfo, Vec<Attribute>), ContractError>(ContractError::NoSavedBootstrapContract)
            } else if u.total_native_locked == 0 {
                r == Err::<(LockdropState, UserInfo, Vec<Attribute>), ContractError>(ContractError::NoLockup)
            } else {
                match spec_user_incentives(config.lockdrop_incentives, u.total_native_locked, state.total_native_locked) {
                    None => r == Err::<(LockdropState, UserInfo, Vec<Attribute>), ContractError>(ContractError::Overflow),
                    Some(total) => if total < u.delegated_incentives {
                        r == Err::<(LockdropState, UserInfo, Vec<Attribute>), ContractError>(ContractError::Overflow)
                    } else if amount > total - u.delegated_incentives {
                        is_invalid_funds(r, exceeds_unclaimed_text(amount, (total - u.delegated_incentives) as u128))
                    } else if state.total_delegated + amount > u128::MAX {
                        r == Err::<(LockdropState, UserInfo, Vec<Attribute>), ContractError>(ContractError::Overflow)
                    } else {
                        r matches Ok((s2, u2, a)) && {
                            &&& s2 == LockdropState { total_delegated: (state.total_delegated + amount) as u128, ..state }
                            &&& u2 == UserInfo { delegated_incentives: (u.delegated_incentives + amount) as u128, ..u }
                            &&& attrs_are(a@, seq![
                                ("action"@, "deposit_to_bootstrap"@),
                                ("user_address"@, sender@),
                                ("delegated_amount"@, decimal(amount as nat)),
                            ])
                        }
                    },
                }
            }
        }),
        r matches Ok((_, u2, _)) ==> (spec_user_incentives(config.lockdrop_incentives, u2.total_native_locked, state.total_native_locked) matches Some(t)
            && u2.delegated_incentives <= t),
{
    if now < config.init_timestamp + config.deposit_window + config.withdrawal_window {
        return Err(ContractError::PhaseOngoing);
    }
    if state.are_claims_allowed {
        return Err(ContractError::ClaimsAlreadyAllowed);
    }
    if config.bootstrap_contract_address.is_none() {
        return Err(ContractError::NoSavedBootstrapContract);
    }
    let mut u = match user {
        Some(u) => u,
        None => UserInfo { total_native_locked: 0, delegated_incentives: 0, lockdrop_claimed: false, withdrawal_flag: false },
    };
    if u.total_native_locked == 0 {
        return Err(ContractError::NoLockup);
    }
    let total = match calculate_user_incentives(config.lockdrop_incentives, u.total_native_locked, state.total_native_locked) {
        Some(t) => t,
        None => return Err(ContractError::Overflow),
    };
    if total < u.delegated_incentives {
        return Err(ContractError::Overflow);
    }
    let max = total - u.delegated_incentives;
    if amount > max {
        let mut msg = String::from_str("Amount cannot exceed user's unclaimed token balance. Tokens to delegate = ");
        msg.append(decimal_string(amount).as_str());
        msg.append(", Max delegatable tokens = ");
        msg.append(decimal_string(max).as_str());
        return Err(ContractError::InvalidFunds { msg });
    }
    let mut state = state;
    state.total_delegated = match state.total_delegated.checked_add(amount) {
        Some(v) => v,
        None => return Err(ContractError::Overflow),
    };
    u.delegated_incentives = u.delegated_incentives + amount;
    let attrs = vec![
        attr("action", "deposit_to_bootstrap".to_owned()),
        attr("user_address", sender.clone()),
        attr("delegated_amount", decimal_string(amount)),
    ];
    Ok((state, u, attrs))
}

/// `UserInfo` query: the user's record and the incentives it has earned
/// (zero when nothing is locked at all).
pub fn query_user_info(config: &LockdropConfig, state: &LockdropState, user: Option<UserInfo>) -> (r: Result<(UserInfo, u128), ContractError>)
    ensures
        ({
            let u = user_or_default(user);
            if state.total_native_locked == 0 {
                r == Ok::<(UserInfo, u128), ContractError>((u, 0u128))
            } else {
                match spec_user_incentives(config.lockdrop_incentives, u.total_native_locked, state.total_native_locked) {
                    None => r == Err::<(UserInfo, u128), ContractError>(ContractError::Overflow),
                    Some(t) => r == Ok::<(UserInfo, u128), ContractError>((u, t)),
                }
            }
        }),
{
    let u = match user {
        Some(u) => u,
        None => UserInfo { total_native_locked: 0, delegated_incentives: 0, lockdrop_claimed: false, withdrawal_flag: false },
    };
    if state.total_native_locked == 0 {
        return Ok((u, 0u128));
    }
    match calculate_user_incentives(config.lockdrop_incentives, u.total_native_locked, state.total_native_locked) {
        Some(t) => Ok((u, t)),
        None => Err(ContractError::Overflow),
    }
}

/// `WithdrawalPercentAllowed` query: the allowed share at `timestamp`, or now.
pub fn query_max_withdrawable_percent(config: &LockdropConfig, timestamp: Option<u64>, now: u64) -> (r: Decimal)
    requires
        config.wf(),
    ensures
        r.atomics == spec_withdrawal_percent(match timestamp { Some(t) => t, None => now }, *config),
{
    match timestamp {
        Some(t) => allowed_withdrawal_percent(t, config),
        None => allowed_withdrawal_percent(now, config),
    }
}

/// The share of a deposit that may be withdrawn never exceeds the whole
/// deposit, and it never grows as time passes.
pub proof fn withdrawal_percent_falls(config: LockdropConfig, t1: u64, t2: u64)
    requires
        config.wf(),
        t1 <= t2,
    ensures
        spec_withdrawal_percent(t1, config) <= fractional(),
        spec_withdrawal_percent(t2, config) <= spec_withdrawal_percent(t1, config),
{
    let c1 = config.init_timestamp + config.deposit_window;
    let c2 = c1 + config.withdrawal_window / 2;
    let fin = c1 + config.withdrawal_window;
    let half = 500_000_000_000_000_000int;
    assert(fin - c2 > 0 || fin <= c2);
    if c2 < t1 && t1 < fin {
        let d = 100 * (fin - c2);
        assert(d > 0);
        assert(50 * (fin - t1) * fractional() / d <= half) by (nonlinear_arith)
            requires fin - t1 < fin - c2, fin - t1 > 0, d == 100 * (fin - c2), fractional() == 1_000_000_000_000_000_000int,
                half == 500_000_000_000_000_000int;
        if t2 < fin {
            assert(50 * (fin - t2) * fractional() / d <= 50 * (fin - t1) * fractional() / d) by (nonlinear_arith)
                requires fin - t2 <= fin - t1, fin - t2 > 0, d > 0, fractional() > 0;
            assert(50 * (fin - t2) * fractional() / d >= 0) by (nonlinear_arith)
                requires fin - t2 > 0, d > 0, fractional() > 0;
        }
        assert(50 * (fin - t1) * fractional() / d >= 0) by (nonlinear_arith)
            requires fin - t1 > 0, d > 0, fractional() > 0;
    }
    if c2 < t2 && t2 < fin {
        let d = 100 * (fin - c2);
        assert(50 * (fin - t2) * fractional() / d <= half) by (nonlinear_arith)
            requires fin - t2 < fin - c2, fin - t2 > 0, d == 100 * (fin - c2), fractional() == 1_000_000_000_000_000_000int,
                half == 500_000_000_000_000_000int;
    }
}

/// A deposit taken back whole, before the deposit window closes, leaves the
/// lockdrop and the user exactly as they were, and pays back the deposit.
pub proof fn deposit_then_withdraw_restores(
    config: LockdropConfig,
    state: LockdropState,
    user: Option<UserInfo>,
    funds: Seq<Coin>,
    now: u64,
)
    requires
        config.wf(),
        now < config.deposit_end(),
        spec_deposit_native(config, state, user, funds, now) is Ok,
    ensures
        ({
            let (s1, u1) = spec_deposit_native(config, state, user, funds, now)->Ok_0;
            spec_withdraw_native(config, s1, Some(u1), Some(funds[0].amount), now)
                == Ok::<(LockdropState, UserInfo, u128), Refusal>((state, user_or_default(user), funds[0].amount))
        }),
{
    let (s1, u1) = spec_deposit_native(config, state, user, funds, now)->Ok_0;
    let l = u1.total_native_locked as int;
    assert(l * fractional() / fractional() == l) by (nonlinear_arith)
        requires fractional() > 0;
    assert(spec_withdrawal_percent(now, config) == fractional());
}

} // verus!
