use andromeda::ado::{process_module_response, register_module, InstantiateType, Module, ModuleType, QueryError};
use andromeda::auction::Event;
use andromeda::common::{BlockInfo, Coin, ContractError, CosmosMsg, ExecAction, Expiration};
use andromeda::cw721::{
    check_can_send, execute_archive, execute_burn, execute_transfer, execute_update_pricing,
    execute, execute_update_transfer_agreement, is_token_archived, Approval, Cw721Msg, Cw721Outcome, NftToken, TokenExtension,
    TransferAgreement,
};

const MOCK_RATES_RECIPIENT: &str = "rates_recipient";
const MOCK_RECEIPT_CONTRACT: &str = "receipt_contract";

fn block() -> BlockInfo {
    BlockInfo { height: 12_345, time_nanos: 1_571_797_419_879_305_533 }
}

fn coin(amount: u128, denom: &str) -> Coin {
    Coin { denom: denom.to_string(), amount }
}

fn minted(owner: &str, agreement: Option<TransferAgreement>, archived: bool) -> NftToken {
    NftToken {
        owner: owner.to_string(),
        approvals: vec![],
        token_uri: None,
        extension: TokenExtension { archived, transfer_agreement: agreement, pricing: None },
    }
}

fn no_payment() -> Result<(Vec<CosmosMsg>, Vec<Event>, Coin), ContractError> {
    Ok((vec![], vec![], coin(0, "uusd")))
}

#[test]
fn test_instantiate_modules() {
    let modules = [ModuleType::Receipt, ModuleType::Rates, ModuleType::AddressList];
    let mut next = None;
    for (i, module_type) in modules.iter().enumerate() {
        let module = Module { module_type: *module_type, instantiate: InstantiateType::New(vec![]), is_mutable: false };
        let reg = register_module(next, &module).unwrap();
        // each new module is instantiated under the reply id of its index
        assert_eq!(reg.idx, i as u64 + 1);
        assert_eq!(reg.address, None);
        next = Some(reg.next_idx);
    }
    assert_eq!(next, Some(4));
}

#[test]
fn test_transfer_nft() {
    let token = minted("creator", None, false);
    let res = execute_transfer(
        Some(token.clone()),
        &"anyone".to_string(),
        &vec![],
        &block(),
        "recipient".to_string(),
        no_payment(),
        None,
    );
    assert_eq!(res.unwrap_err(), ContractError::Unauthorized);

    let (token, msgs, _, _) =
        execute_transfer(Some(token), &"creator".to_string(), &vec![], &block(), "recipient".to_string(), no_payment(), None)
            .unwrap();
    assert!(msgs.is_empty());
    assert_eq!(token.owner, "recipient".to_string());
}

#[test]
fn test_agreed_transfer_nft() {
    let agreed_amount = coin(100, "uluna");
    let agreement = TransferAgreement { amount: agreed_amount.clone(), purchaser: "purchaser".to_string() };
    let token = minted("creator", Some(agreement), false);
    let payment = || Ok((vec![], vec![], agreed_amount.clone()));
    let purchaser = "purchaser".to_string();

    let res = execute_transfer(Some(token.clone()), &purchaser, &vec![], &block(), "recipient".to_string(), payment(), None);
    assert_eq!(res.unwrap_err(), ContractError::InsufficientFunds);

    let (token, msgs, _, _) = execute_transfer(
        Some(token),
        &purchaser,
        &vec![agreed_amount.clone()],
        &block(),
        "recipient".to_string(),
        payment(),
        None,
    )
    .unwrap();
    assert_eq!(token.owner, "recipient".to_string());
    assert_eq!(msgs, vec![CosmosMsg::BankSend { to_address: "creator".to_string(), amount: vec![agreed_amount] }]);
}

#[test]
fn test_archive() {
    let token = minted("creator", None, false);
    assert_eq!(execute_archive(Some(token.clone()), &"anyone".to_string()).unwrap_err(), ContractError::Unauthorized);
    let token = execute_archive(Some(token), &"creator".to_string()).unwrap();
    assert!(token.extension.archived);
}

#[test]
fn test_burn() {
    let token = minted("creator", None, false);
    let token_id = "token_id".to_string();
    assert_eq!(execute_burn(Some(&token), &"anyone".to_string(), &token_id, 1).unwrap_err(), ContractError::Unauthorized);
    let (count, a) = execute_burn(Some(&token), &"creator".to_string(), &token_id, 1).unwrap();
    let pairs: Vec<(&str, &str)> = a.iter().map(|x| (x.key.as_str(), x.value.as_str())).collect();
    assert_eq!(pairs, vec![("action", "burn"), ("token_id", "token_id"), ("sender", "creator")]);
    assert_eq!(0, count);
}

#[test]
fn test_archived_check() {
    let token = minted("creator", None, true);
    assert_eq!(execute_burn(Some(&token), &"creator".to_string(), &"token_id".to_string(), 1).unwrap_err(), ContractError::TokenIsArchived);
    assert_eq!(is_token_archived(Some(&token)).unwrap_err(), ContractError::TokenIsArchived);
}

#[test]
fn test_transfer_agreement() {
    let agreement = TransferAgreement { purchaser: "purchaser".to_string(), amount: coin(100, "uluna") };
    let token = minted("creator", None, false);
    let res = execute_update_transfer_agreement(Some(token.clone()), &"anyone".to_string(), Some(agreement.clone()));
    assert_eq!(res.unwrap_err(), ContractError::Unauthorized);
    let token = execute_update_transfer_agreement(Some(token), &"creator".to_string(), Some(agreement.clone())).unwrap();
    assert_eq!(token.extension.transfer_agreement, Some(agreement));
}

#[test]
fn test_update_pricing() {
    let price = coin(100, "uluna");
    let token = minted("creator", None, false);
    let res = execute_update_pricing(Some(token.clone()), &"anyone".to_string(), Some(price.clone()));
    assert_eq!(res.unwrap_err(), ContractError::Unauthorized);
    let token = execute_update_pricing(Some(token), &"creator".to_string(), Some(price.clone())).unwrap();
    assert_eq!(token.extension.pricing, Some(price));
}

#[test]
fn test_modules() {
    // The address list module refuses a sender that is not whitelisted.
    let refused: Result<(), QueryError> =
        Err(QueryError::Generic { msg: "Querier contract error: InvalidAddress".to_string() });
    assert_eq!(
        process_module_response(refused).unwrap_err(),
        ContractError::Std { msg: "Querier contract error: InvalidAddress".to_string() }
    );

    let agreement = TransferAgreement { purchaser: "purchaser".to_string(), amount: coin(100, "uusd") };
    let token = minted("creator", None, false);
    let token = execute_update_transfer_agreement(Some(token), &"creator".to_string(), Some(agreement)).unwrap();

    // A 10% royalty and a tax of 10 on the price, then the receipt.
    let receipt_msg = CosmosMsg::Execute {
        contract: MOCK_RECEIPT_CONTRACT.to_string(),
        action: ExecAction::Call { name: "store_receipt".to_string() },
        funds: vec![],
    };
    let rate_msgs = vec![
        CosmosMsg::BankSend { to_address: MOCK_RATES_RECIPIENT.to_string(), amount: vec![coin(10, "uusd")] },
        CosmosMsg::BankSend { to_address: MOCK_RATES_RECIPIENT.to_string(), amount: vec![coin(10, "uusd")] },
        receipt_msg.clone(),
    ];
    let events = vec![
        Event { kind: "Royalty".to_string(), attributes: vec![] },
        Event { kind: "Tax".to_string(), attributes: vec![] },
    ];
    let payment = || Ok((rate_msgs.clone(), events.clone(), coin(90, "uusd")));
    let purchaser = "purchaser".to_string();

    // Tax not added by the sender.
    let res = execute_transfer(
        Some(token.clone()),
        &purchaser,
        &vec![coin(100, "uusd")],
        &block(),
        "purchaser".to_string(),
        payment(),
        None,
    );
    assert_eq!(ContractError::InsufficientFunds, res.unwrap_err());

    // Add 10 for tax.
    let (token, msgs, evs, a) = execute_transfer(
        Some(token),
        &purchaser,
        &vec![coin(110, "uusd")],
        &block(),
        "purchaser".to_string(),
        payment(),
        None,
    )
    .unwrap();
    let pairs: Vec<(&str, &str)> = a.iter().map(|x| (x.key.as_str(), x.value.as_str())).collect();
    assert_eq!(pairs, vec![("action", "transfer"), ("recipient", "purchaser")]);
    assert_eq!(evs, events);
    assert_eq!(token.owner, "purchaser".to_string());
    let mut expected = rate_msgs.clone();
    expected.push(CosmosMsg::BankSend { to_address: "creator".to_string(), amount: vec![coin(90, "uusd")] });
    assert_eq!(msgs, expected);
}

#[test]
fn approved_spender_can_send_until_expiry() {
    let mut token = minted("creator", None, false);
    token.approvals = vec![Approval { spender: "spender".to_string(), expires: Expiration::AtHeight(12_346) }];
    let spender = "spender".to_string();
    assert_eq!(check_can_send(&token, &spender, &vec![], &block(), 0, None), Ok(()));
    let later = BlockInfo { height: 12_346, time_nanos: 0 };
    assert_eq!(check_can_send(&token, &spender, &vec![], &later, 0, None), Err(ContractError::Unauthorized));
    // an operator of the owner may send too
    assert_eq!(check_can_send(&token, &"op".to_string(), &vec![], &later, 0, Some(Expiration::Never)), Ok(()));
}

#[test]
fn transfer_clears_approvals_and_agreement() {
    let mut token = minted("creator", None, false);
    token.approvals = vec![Approval { spender: "spender".to_string(), expires: Expiration::Never }];
    token.extension.pricing = Some(coin(5, "uusd"));
    let (token, _, _, _) =
        execute_transfer(Some(token), &"creator".to_string(), &vec![], &block(), "new".to_string(), no_payment(), None)
            .unwrap();
    assert!(token.approvals.is_empty());
    assert_eq!(token.extension.pricing, None);
    assert_eq!(token.extension.transfer_agreement, None);
}

#[test]
fn archived_token_cannot_be_transferred() {
    let token = minted("creator", None, true);
    let res =
        execute_transfer(Some(token), &"creator".to_string(), &vec![], &block(), "new".to_string(), no_payment(), None);
    assert_eq!(res.unwrap_err(), ContractError::TokenIsArchived);
}

fn run(msg: Cw721Msg, token: Option<NftToken>, sender: &str, hook: Result<(), ContractError>) -> Result<Cw721Outcome, ContractError> {
    execute(msg, token, &sender.to_string(), &vec![], &block(), no_payment(), None, 1, hook)
}

#[test]
fn hook_error_comes_first() {
    let hook = Err(ContractError::Std { msg: "hook".to_string() });
    let res = run(Cw721Msg::Archive, Some(minted("owner", None, true)), "owner", hook);
    assert_eq!(res, Err(ContractError::Std { msg: "hook".to_string() }));
}

#[test]
fn archived_tokens_are_refused_before_their_handler() {
    for msg in [
        Cw721Msg::Archive,
        Cw721Msg::Burn { token_id: "t".to_string() },
        Cw721Msg::SendNft,
        Cw721Msg::Approve,
        Cw721Msg::UpdatePricing { price: None },
        Cw721Msg::TransferAgreement { agreement: None },
        Cw721Msg::TransferNft { recipient: "r".to_string() },
    ] {
        // the archive check answers before the owner check
        let res = run(msg.clone(), Some(minted("owner", None, true)), "anyone", Ok(()));
        assert_eq!(res, Err(ContractError::TokenIsArchived));
        let res = run(msg, None, "owner", Ok(()));
        assert_eq!(res, Err(ContractError::NotFound));
    }
    assert_eq!(run(Cw721Msg::Other, None, "anyone", Ok(())), Ok(Cw721Outcome::Base));
}

#[test]
fn dispatched_archive_and_burn() {
    let res = run(Cw721Msg::Archive, Some(minted("owner", None, false)), "owner", Ok(()));
    assert_eq!(
        res,
        Ok(Cw721Outcome::Token { token: minted("owner", None, true), messages: vec![], events: vec![], attributes: vec![] })
    );
    let res = run(Cw721Msg::Burn { token_id: "t".to_string() }, Some(minted("owner", None, false)), "owner", Ok(()));
    match res {
        Ok(Cw721Outcome::Burnt { token_count, attributes }) => {
            assert_eq!(token_count, 0);
            assert_eq!(attributes.len(), 3);
            assert_eq!(attributes[1].value, "t");
        }
        other => panic!("unexpected {:?}", other),
    }
    let res = run(Cw721Msg::Archive, Some(minted("owner", None, false)), "anyone", Ok(()));
    assert_eq!(res, Err(ContractError::Unauthorized));
}
