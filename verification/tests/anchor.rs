use andromeda::ado::{execute_withdraw, withdrawals_to_process, Withdrawal, WithdrawalType};
use andromeda::anchor::{
    execute_borrow, execute_deposit, execute_deposit_collateral, execute_deposit_collateral_to_anchor,
    execute_repay_loan, execute_withdraw_collateral, handle_withdraw, reply_kind, reply_update_position,
    reply_withdraw_ust, withdraw_aust, withdraw_uusd, Position, Recipient, WithdrawChoice,
};
use andromeda::common::{AssetInfo, Attribute, Coin, ContractError, CosmosMsg, ExecAction};
use andromeda::math::Decimal;

const MARKET: &str = "anchor_market";
const AUST: &str = "aust_token";
const CONTRACT: &str = "cosmos2contract";
const MOCK_ANC_TOKEN: &str = "anc_token";
const MOCK_BLUNA_TOKEN: &str = "bluna_token";
const MOCK_BLUNA_HUB_CONTRACT: &str = "bluna_hub";
const MOCK_CUSTODY_CONTRACT: &str = "custody";
const MOCK_OVERSEER_CONTRACT: &str = "overseer";
const MOCK_MARKET_CONTRACT: &str = "market";

fn coins(amount: u128, denom: &str) -> Vec<Coin> {
    vec![Coin { denom: denom.to_string(), amount }]
}

fn s(x: &str) -> String {
    x.to_string()
}

fn attrs(pairs: &[(&str, &str)]) -> Vec<Attribute> {
    pairs.iter().map(|(k, v)| Attribute { key: k.to_string(), value: v.to_string() }).collect()
}

fn redeem_stable_msg(amount: u128) -> CosmosMsg {
    CosmosMsg::Execute {
        contract: s(AUST),
        action: ExecAction::Cw20Send { contract: s(MARKET), amount, hook: s("redeem_stable") },
        funds: vec![],
    }
}

fn uusd_withdrawal(t: Option<WithdrawalType>) -> Withdrawal {
    Withdrawal { token: s("uusd"), withdrawal_type: t }
}

fn percent(p: u128) -> Decimal {
    Decimal { atomics: p * 10_000_000_000_000_000 }
}

#[test]
fn test_deposit_and_withdraw() {
    let amount: u128 = 1_000_000;
    let sender = s("addr0000");
    let (addr, position, msg, res) = execute_deposit(&coins(amount, "uusd"), &sender, None, false, &s(MARKET)).unwrap();
    assert_eq!(res, attrs(&[("action", "deposit"), ("deposit_amount", &amount.to_string())]));
    assert_eq!(addr, "addr0000");
    assert_eq!(
        msg,
        CosmosMsg::Execute { contract: s(MARKET), action: ExecAction::Call { name: s("deposit_stable") }, funds: coins(amount, "uusd") }
    );
    assert_eq!(position, Some(Position { recipient: Recipient::Addr(s("addr0000")), aust_amount: 0 }));

    // Suppose the exchange rate is 1 uusd = 0.5 aUST.
    let aust_amount = amount / 2;
    assert_eq!(reply_kind(1), Ok(true));
    let (position, res) = reply_update_position(aust_amount, 0, position).unwrap();
    assert_eq!(
        res,
        attrs(&[
            ("action", "reply_update_position"),
            ("recipient_addr", "addr0000"),
            ("aust_amount", &aust_amount.to_string()),
        ])
    );
    assert_eq!(position.aust_amount, aust_amount);

    let (addr, choice) = handle_withdraw(&sender, false, None, Some(vec![uusd_withdrawal(None)]), &s(AUST)).unwrap();
    assert_eq!(addr, "addr0000");
    let withdrawal = match choice {
        WithdrawChoice::Uusd(w) => w,
        WithdrawChoice::Aust(_) => panic!("uusd was asked for"),
    };
    let (position, msg, res) =
        withdraw_uusd(Some(position), &sender, &addr, false, &withdrawal, &s(AUST), &s(MARKET)).unwrap();
    assert_eq!(msg, redeem_stable_msg(aust_amount));
    assert_eq!(res, attrs(&[("action", "withdraw"), ("recipient_addr", "addr0000")]));
    assert_eq!(position.aust_amount, 0);

    // aUST has been redeemed back to uusd.
    assert_eq!(reply_kind(2), Ok(false));
    let (msg, res) = reply_withdraw_ust(amount, 0, &position.recipient).unwrap();
    assert_eq!(msg, Some(CosmosMsg::BankSend { to_address: s("addr0000"), amount: coins(amount, "uusd") }));
    assert_eq!(
        res,
        attrs(&[("action", "reply_withdraw_ust"), ("recipient", "addr0000"), ("amount", &amount.to_string())])
    );
}

#[test]
fn test_deposit_existing_position() {
    let amount: u128 = 1_000_000;
    let sender = s("addr0000");
    let (_, position, _, _) = execute_deposit(&coins(amount, "uusd"), &sender, None, false, &s(MARKET)).unwrap();
    let aust_amount = amount / 2;
    let (position, _) = reply_update_position(aust_amount, 0, position).unwrap();
    assert_eq!(position.aust_amount, aust_amount);

    // Deposit again: the position exists already.
    let (_, fresh, _, _) = execute_deposit(&coins(amount, "uusd"), &sender, None, true, &s(MARKET)).unwrap();
    assert_eq!(fresh, None);
    // The amount of aUST has now doubled.
    let (position, _) = reply_update_position(aust_amount * 2, aust_amount, Some(position)).unwrap();
    assert_eq!(position.aust_amount, 2 * aust_amount);
}

#[test]
fn test_deposit_other_recipient() {
    let amount: u128 = 1_000_000;
    let (addr, position, _, _) = execute_deposit(
        &coins(amount, "uusd"),
        &s("addr0000"),
        Some(Recipient::Addr(s("recipient"))),
        false,
        &s(MARKET),
    )
    .unwrap();
    assert_eq!(addr, "recipient");
    let (position, res) = reply_update_position(amount / 2, 0, position).unwrap();
    assert_eq!(
        res,
        attrs(&[
            ("action", "reply_update_position"),
            ("recipient_addr", "recipient"),
            ("aust_amount", &(amount / 2).to_string()),
        ])
    );
    assert_eq!(position, Position { recipient: Recipient::Addr(s("recipient")), aust_amount: amount / 2 });
}

#[test]
fn test_withdraw_percent() {
    let amount: u128 = 1_000_000;
    let position = Position { recipient: Recipient::Addr(s("recipient")), aust_amount: amount };
    // the owner withdraws half of the recipient's position
    let withdrawal = uusd_withdrawal(Some(WithdrawalType::Percentage(percent(50))));
    let (position, msg, res) =
        withdraw_uusd(Some(position), &s("addr0000"), &s("recipient"), true, &withdrawal, &s(AUST), &s(MARKET)).unwrap();
    assert_eq!(msg, redeem_stable_msg(amount / 2));
    assert_eq!(res, attrs(&[("action", "withdraw"), ("recipient_addr", "recipient")]));
    assert_eq!(position.aust_amount, amount / 2);
}

#[test]
fn test_withdraw_recipient_sender() {
    let amount: u128 = 1_000_000;
    let position = Position { recipient: Recipient::Addr(s("recipient")), aust_amount: amount };
    // The sender is the recipient, NOT the owner of the contract.
    let (_, msg, res) =
        withdraw_uusd(Some(position), &s("recipient"), &s("recipient"), false, &uusd_withdrawal(None), &s(AUST), &s(MARKET))
            .unwrap();
    assert_eq!(msg, redeem_stable_msg(amount));
    assert_eq!(res, attrs(&[("action", "withdraw"), ("recipient_addr", "recipient")]));
}

#[test]
fn withdraw_by_a_stranger_is_refused() {
    let position = Position { recipient: Recipient::Addr(s("recipient")), aust_amount: 10 };
    let res = withdraw_uusd(Some(position), &s("anyone"), &s("recipient"), false, &uusd_withdrawal(None), &s(AUST), &s(MARKET));
    assert_eq!(res.unwrap_err(), ContractError::Unauthorized);
    let res = handle_withdraw(&s("anyone"), false, Some(Recipient::Addr(s("other"))), None, &s(AUST));
    assert_eq!(res.unwrap_err(), ContractError::Unauthorized);
    let res = handle_withdraw(&s("a"), false, None, None, &s(AUST));
    assert_eq!(res.unwrap_err(), ContractError::InvalidTokensToWithdraw);
}

#[test]
fn withdraw_as_aust() {
    let position = Position { recipient: Recipient::Addr(s("recipient")), aust_amount: 10 };
    let w = Withdrawal { token: s("aust"), withdrawal_type: Some(WithdrawalType::Amount(4)) };
    let (position, msg, res) = withdraw_aust(Some(position), &s("recipient"), &s("recipient"), false, &w, &s(AUST)).unwrap();
    assert_eq!(res, attrs(&[("action", "withdraw_aust"), ("recipient_addr", "recipient")]));
    assert_eq!(position.aust_amount, 6);
    assert_eq!(
        msg,
        CosmosMsg::Execute {
            contract: s(AUST),
            action: ExecAction::Cw20Transfer { recipient: s("recipient"), amount: 4 },
            funds: vec![],
        }
    );
}

#[test]
fn deposit_needs_exactly_one_uusd_coin() {
    let res = execute_deposit(&coins(5, "uluna"), &s("a"), None, false, &s(MARKET));
    assert_eq!(res.unwrap_err(), ContractError::InvalidFunds { msg: "Must deposit a non-zero quantity of uusd".to_string() });
    let res = execute_deposit(&vec![], &s("a"), None, false, &s(MARKET));
    assert_eq!(res.unwrap_err(), ContractError::InvalidFunds { msg: "Must deposit exactly 1 type of native coin.".to_string() });
    assert_eq!(reply_kind(3), Err(ContractError::InvalidReplyId));
}

#[test]
fn test_withdraw_tokens_none() {
    let ws = vec![(s(MOCK_ANC_TOKEN), AssetInfo::Token { contract_addr: s(MOCK_ANC_TOKEN) })];
    let withdrawals = withdrawals_to_process(None, &ws);
    let (msgs, attrs) =
        execute_withdraw(&s("owner"), &s("owner"), &vec![], Some(s("recipient")), &withdrawals, &ws, vec![Ok(100)])
            .unwrap();
    let pairs: Vec<(String, String)> = attrs.into_iter().map(|a| (a.key, a.value)).collect();
    assert_eq!(pairs, vec![(s("action"), s("withdraw")), (s("recipient"), s("Addr(\"recipient\")"))]);
    assert_eq!(
        msgs,
        vec![CosmosMsg::Execute {
            contract: s(MOCK_ANC_TOKEN),
            action: ExecAction::Cw20Transfer { recipient: s("recipient"), amount: 100 },
            funds: vec![],
        }]
    );
}

#[test]
fn test_withdraw_tokens_empty() {
    let ws = vec![(s(MOCK_ANC_TOKEN), AssetInfo::Token { contract_addr: s(MOCK_ANC_TOKEN) })];
    let withdrawals = withdrawals_to_process(Some(vec![]), &ws);
    let res = execute_withdraw(&s("owner"), &s("owner"), &vec![], Some(s("recipient")), &withdrawals, &ws, vec![]);
    assert_eq!(res.unwrap_err(), ContractError::InvalidFunds { msg: "No funds to withdraw".to_string() });
}

#[test]
fn test_deposit_collateral() {
    let (msgs, res) = execute_deposit_collateral(
        true,
        coins(100, "uluna"),
        &s(MOCK_BLUNA_HUB_CONTRACT),
        &s(CONTRACT),
        &s(MOCK_BLUNA_TOKEN),
    )
    .unwrap();
    assert_eq!(res, attrs(&[("action", "deposit_collateral")]));
    assert_eq!(
        msgs,
        vec![
            // Convert luna to bluna
            CosmosMsg::Execute {
                contract: s(MOCK_BLUNA_HUB_CONTRACT),
                action: ExecAction::Call { name: s("bond") },
                funds: coins(100, "uluna"),
            },
            CosmosMsg::Execute {
                contract: s(CONTRACT),
                action: ExecAction::DepositCollateralToAnchor { collateral_addr: s(MOCK_BLUNA_TOKEN) },
                funds: vec![],
            },
        ]
    );
}

#[test]
fn test_deposit_collateral_unauthorized() {
    let res = execute_deposit_collateral(
        false,
        coins(100, "uluna"),
        &s(MOCK_BLUNA_HUB_CONTRACT),
        &s(CONTRACT),
        &s(MOCK_BLUNA_TOKEN),
    );
    assert_eq!(ContractError::Unauthorized, res.unwrap_err());
}

fn collateral_to_anchor(authorized: bool, token: &str) -> Result<(Vec<CosmosMsg>, Vec<Attribute>), ContractError> {
    execute_deposit_collateral_to_anchor(
        authorized,
        &s(token),
        &s(MOCK_BLUNA_TOKEN),
        &s(MOCK_CUSTODY_CONTRACT),
        &s(MOCK_OVERSEER_CONTRACT),
        100,
    )
}

fn expected_collateral_msgs() -> (Vec<CosmosMsg>, Vec<Attribute>) {
    let msgs = vec![
        // Provide collateral
        CosmosMsg::Execute {
            contract: s(MOCK_BLUNA_TOKEN),
            action: ExecAction::Cw20Send { contract: s(MOCK_CUSTODY_CONTRACT), amount: 100, hook: s("deposit_collateral") },
            funds: vec![],
        },
        // Lock collateral
        CosmosMsg::Execute {
            contract: s(MOCK_OVERSEER_CONTRACT),
            action: ExecAction::LockCollateral { token: s(MOCK_BLUNA_TOKEN), amount: 100 },
            funds: vec![],
        },
    ];
    (msgs, attrs(&[("action", "deposit_collateral_to_anchor")]))
}

#[test]
fn test_deposit_collateral_to_anchor() {
    assert_eq!(collateral_to_anchor(true, MOCK_BLUNA_TOKEN).unwrap(), expected_collateral_msgs());
}

#[test]
fn test_deposit_collateral_to_anchor_unauthorized() {
    assert_eq!(collateral_to_anchor(false, MOCK_BLUNA_TOKEN).unwrap_err(), ContractError::Unauthorized);
}

#[test]
fn test_deposit_collateral_cw20() {
    // bLuna sent in by the owner
    assert_eq!(collateral_to_anchor(true, MOCK_BLUNA_TOKEN).unwrap(), expected_collateral_msgs());
}

#[test]
fn test_deposit_collateral_cw20_invalid_collateral() {
    assert_eq!(collateral_to_anchor(true, "invalid_collateral").unwrap_err(), ContractError::InvalidFunds { msg: "Only bLuna collateral supported".to_string() });
}

#[test]
fn test_deposit_collateral_cw20_unauthorized() {
    assert_eq!(collateral_to_anchor(false, MOCK_BLUNA_TOKEN).unwrap_err(), ContractError::Unauthorized);
}

/// The contract's collateral: 100 bLuna at a price of 1 uusd.
fn collaterals() -> Vec<(u128, Decimal)> {
    vec![(100, Decimal { atomics: 1_000_000_000_000_000_000 })]
}

fn borrow(authorized: bool, desired: Decimal, loan: u128) -> Result<(u128, Vec<CosmosMsg>, Vec<Attribute>), ContractError> {
    execute_borrow(authorized, &s("owner"), desired, &collaterals(), loan, &s(MOCK_MARKET_CONTRACT), &s(CONTRACT), None)
}

fn borrow_msgs(amount: u128) -> Vec<CosmosMsg> {
    vec![
        CosmosMsg::Execute {
            contract: s(MOCK_MARKET_CONTRACT),
            action: ExecAction::BorrowStable { amount, to: s(CONTRACT) },
            funds: vec![],
        },
        CosmosMsg::BankSend { to_address: s("owner"), amount: coins(amount, "uusd") },
    ]
}

#[test]
fn test_borrow_new_loan() {
    // The current collateral is worth 100
    assert_eq!(
        borrow(true, percent(50), 0).unwrap(),
        (50, borrow_msgs(50), attrs(&[("action", "borrow"), ("desired_ltv_ratio", "0.5")]))
    );
}

#[test]
fn test_borrow_existing_loan() {
    // The current ratio is 0.5, so another 25 gets it to 0.75.
    assert_eq!(
        borrow(true, percent(75), 50).unwrap(),
        (25, borrow_msgs(25), attrs(&[("action", "borrow"), ("desired_ltv_ratio", "0.75")]))
    );
}

#[test]
fn test_borrow_existing_loan_lower_ltv() {
    assert_eq!(borrow(true, percent(20), 50).unwrap_err(), ContractError::InvalidLtvRatio);
}

#[test]
fn test_borrow_ltv_too_high() {
    assert_eq!(borrow(true, Decimal { atomics: 1_000_000_000_000_000_000 }, 0).unwrap_err(), ContractError::InvalidLtvRatio);
}

#[test]
fn test_borrow_unauthorized() {
    assert_eq!(borrow(false, percent(50), 0).unwrap_err(), ContractError::Unauthorized);
}

#[test]
fn test_repay_loan() {
    let (msg, res) = execute_repay_loan(true, coins(100, "uusd"), &s(MOCK_MARKET_CONTRACT)).unwrap();
    assert_eq!(res, attrs(&[("action", "repay_loan")]));
    assert_eq!(
        msg,
        CosmosMsg::Execute {
            contract: s(MOCK_MARKET_CONTRACT),
            action: ExecAction::Call { name: s("repay_stable") },
            funds: coins(100, "uusd"),
        }
    );
}

#[test]
fn test_repay_loan_unauthorized() {
    let res = execute_repay_loan(false, coins(100, "uusd"), &s(MOCK_MARKET_CONTRACT));
    assert_eq!(res.unwrap_err(), ContractError::Unauthorized);
}

fn withdraw_collateral(authorized: bool, unbond: Option<bool>) -> Result<Vec<CosmosMsg>, ContractError> {
    execute_withdraw_collateral(
        authorized,
        &s("owner"),
        &s(MOCK_BLUNA_TOKEN),
        &s(MOCK_BLUNA_TOKEN),
        &s(MOCK_CUSTODY_CONTRACT),
        &s(MOCK_BLUNA_HUB_CONTRACT),
        &s(MOCK_OVERSEER_CONTRACT),
        None,
        &vec![(s(MOCK_BLUNA_TOKEN), 100)],
        unbond,
        None,
    )
    .map(|(msgs, attrs)| {
        assert_eq!((attrs[0].key.as_str(), attrs[0].value.as_str()), ("action", "withdraw_collateral"));
        msgs
    })
}

fn unlock_and_withdraw() -> Vec<CosmosMsg> {
    vec![
        // Unlock collateral
        CosmosMsg::Execute {
            contract: s(MOCK_OVERSEER_CONTRACT),
            action: ExecAction::UnlockCollateral { token: s(MOCK_BLUNA_TOKEN), amount: 100 },
            funds: vec![],
        },
        // Withdraw collateral
        CosmosMsg::Execute {
            contract: s(MOCK_CUSTODY_CONTRACT),
            action: ExecAction::WithdrawCollateral { amount: 100 },
            funds: vec![],
        },
    ]
}

#[test]
fn test_withdraw_collateral() {
    let mut expected = unlock_and_withdraw();
    expected.push(CosmosMsg::Execute {
        contract: s(MOCK_BLUNA_TOKEN),
        action: ExecAction::Cw20Transfer { recipient: s("owner"), amount: 100 },
        funds: vec![],
    });
    assert_eq!(withdraw_collateral(true, None).unwrap(), expected);
}

#[test]
fn test_withdraw_collateral_unbond() {
    let mut expected = unlock_and_withdraw();
    expected.push(CosmosMsg::Execute {
        contract: s(MOCK_BLUNA_TOKEN),
        action: ExecAction::Cw20Send { contract: s(MOCK_BLUNA_HUB_CONTRACT), amount: 100, hook: s("unbond") },
        funds: vec![],
    });
    assert_eq!(withdraw_collateral(true, Some(true)).unwrap(), expected);
}

#[test]
fn test_withdraw_collateral_unauthorized() {
    assert_eq!(withdraw_collateral(false, None).unwrap_err(), ContractError::Unauthorized);
}

#[test]
fn nothing_redeemed_still_answers_the_reply() {
    let (msg, res) = reply_withdraw_ust(5, 5, &Recipient::Addr(s("r"))).unwrap();
    assert_eq!(msg, None);
    assert_eq!(res, attrs(&[("action", "reply_withdraw_ust"), ("recipient", "r"), ("amount", "0")]));
}

#[test]
fn decimals_are_written_without_trailing_zeros() {
    assert_eq!(Decimal { atomics: 1_500_000_000_000_000_000 }.to_text(), "1.5");
    assert_eq!(Decimal { atomics: 2_000_000_000_000_000_000 }.to_text(), "2");
    assert_eq!(Decimal { atomics: 0 }.to_text(), "0");
    assert_eq!(Decimal { atomics: 1 }.to_text(), "0.000000000000000001");
    assert_eq!(Decimal { atomics: 10_000_000_000_000_000 }.to_text(), "0.01");
}
