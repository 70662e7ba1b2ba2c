use andromeda::common::{Attribute, ContractError};
use andromeda::factory::{create, instantiate, is_creator, reply, update_address, update_code_id, Config, ModuleDefinition, REPLY_CREATE_TOKEN};

const TOKEN_NAME: &str = "test";
const TOKEN_SYMBOL: &str = "TT";

fn std_err(msg: &str) -> ContractError {
    ContractError::Std { msg: msg.to_string() }
}

fn attrs(pairs: &[(&str, &str)]) -> Vec<Attribute> {
    pairs.iter().map(|(k, v)| Attribute { key: k.to_string(), value: v.to_string() }).collect()
}

#[test]
fn contract_test_create() {
    let config = Config { token_code_id: 0, receipt_code_id: 1, address_list_code_id: 2 };
    let creator = "creator".to_string();
    let (t, a) = create(&config, false, &creator, TOKEN_NAME.to_string(), TOKEN_SYMBOL.to_string(), vec![]).unwrap();
    assert_eq!(a, attrs(&[("action", "create"), ("name", TOKEN_NAME), ("symbol", TOKEN_SYMBOL)]));
    assert_eq!(t.code_id, 0);
    assert_eq!(t.admin, "creator");
    assert_eq!(t.minter, "creator");
    assert_eq!(t.name, TOKEN_NAME);
    assert_eq!(t.symbol, TOKEN_SYMBOL);
    assert_eq!(t.label, "Address list instantiation");
    assert!(t.modules.is_empty());
    // the instantiation replies under the create-token id
    assert_eq!(reply(REPLY_CREATE_TOKEN, Ok(())), Ok(()));
}

#[test]
fn tests_test_create() {
    let config = Config { token_code_id: 0, receipt_code_id: 2, address_list_code_id: 1 };
    let modules = vec![
        ModuleDefinition::Whitelist {
            moderators: Some(vec!["whitelist_moderator1".to_string()]),
            address: None,
            code_id: Some(1),
        },
        ModuleDefinition::Other { definition: b"taxable".to_vec() },
        ModuleDefinition::Other { definition: b"royalties".to_vec() },
    ];
    let creator = "creator".to_string();
    let (t, a) = create(&config, false, &creator, TOKEN_NAME.to_string(), TOKEN_SYMBOL.to_string(), modules.clone()).unwrap();
    assert_eq!(a, attrs(&[("action", "create"), ("name", TOKEN_NAME), ("symbol", TOKEN_SYMBOL)]));
    assert_eq!(t.code_id, 0);
    assert_eq!(t.admin, "creator");
    assert_eq!(t.minter, "creator");
    assert_eq!(t.label, "Address list instantiation");
    assert_eq!(t.modules, modules);
}

#[test]
fn test_update_address() {
    let creator = "creator".to_string();
    let owner = "owner".to_string();
    // the symbol's address as stored before the update
    let mut sym_address = "factory_address".to_string();
    // no creator is recorded for the symbol; the creator lookup of the
    // deployment answers for the sender: "anyone" did not create it,
    // "creator" did
    let res = update_address(false, &owner, &"anyone".to_string(), "new".to_string());
    assert_eq!(res.unwrap_err(), std_err("Cannot update address for ADO that you did not create"));
    assert_eq!(sym_address, "factory_address");
    let new_address = update_address(true, &owner, &creator, "new".to_string()).unwrap();
    sym_address = new_address;
    assert_eq!(sym_address, "new");
}

#[test]
fn owner_updates_address_without_being_creator() {
    let owner = "owner".to_string();
    assert_eq!(update_address(false, &owner, &owner, "x".to_string()), Ok("x".to_string()));
}

#[test]
fn stored_creator_lookup() {
    let creator = "creator".to_string();
    assert!(is_creator(Some(&creator), &creator));
    assert!(!is_creator(Some(&creator), &"anyone".to_string()));
    assert!(!is_creator(None, &creator));
}

#[test]
fn test_update_code_id() {
    let owner = "owner".to_string();
    let config = Config { address_list_code_id: 2, receipt_code_id: 1, token_code_id: 0 };
    let res = update_code_id(config, &owner, &owner, None, None, None);
    assert_eq!(
        res.unwrap_err(),
        std_err("Must provide one of the following: \"receipt_code_id\", \"token_code_id\", \"address_list_code_id\"")
    );
    let res = update_code_id(config, &owner, &"anyone".to_string(), Some(4), None, None);
    assert_eq!(res.unwrap_err(), std_err("Can only be used by the contract owner"));
    let (new_config, a) = update_code_id(config, &owner, &owner, Some(4), None, None).unwrap();
    assert_eq!(new_config, Config { receipt_code_id: 4, address_list_code_id: 2, token_code_id: 0 });
    assert_eq!(
        a,
        attrs(&[("action", "update_code_id"), ("receipt_code_id", "4"), ("token_code_id", "0"), ("address_list_code_id", "2")])
    );
}

#[test]
fn symbol_in_use_is_refused() {
    let config = Config { token_code_id: 0, receipt_code_id: 1, address_list_code_id: 2 };
    let res = create(&config, true, &"c".to_string(), "n".to_string(), "S".to_string(), vec![]);
    assert_eq!(res.unwrap_err(), std_err("Symbol is in use"));
}

#[test]
fn code_ids_are_assigned_to_modules() {
    let config = Config { token_code_id: 7, receipt_code_id: 8, address_list_code_id: 9 };
    let modules = vec![
        ModuleDefinition::Blacklist { address: None, moderators: None, code_id: None },
        ModuleDefinition::Receipt { address: None, moderators: None, code_id: Some(1) },
    ];
    let (t, _) = create(&config, false, &"c".to_string(), "n".to_string(), "S".to_string(), modules).unwrap();
    assert_eq!(
        t.modules,
        vec![
            ModuleDefinition::Blacklist { address: None, moderators: None, code_id: Some(9) },
            ModuleDefinition::Receipt { address: None, moderators: None, code_id: Some(8) },
        ]
    );
}

#[test]
fn reply_with_unknown_id_or_error() {
    assert_eq!(reply(1, Err("boom".to_string())), Err(std_err("boom")));
    assert!(matches!(reply(99, Ok(())), Err(ContractError::Std { .. })));
}

#[test]
fn code_ids_are_written_in_decimal() {
    let owner = "owner".to_string();
    let config = Config { address_list_code_id: 0, receipt_code_id: 0, token_code_id: 0 };
    let (_, a) = update_code_id(config, &owner, &owner, Some(1234567890), Some(10), Some(u64::MAX)).unwrap();
    assert_eq!(a[1].value, "1234567890");
    assert_eq!(a[2].value, u64::MAX.to_string());
    assert_eq!(a[3].value, "10");
}

#[test]
fn contract_proper_initialization() {
    let (config, owner, a) = instantiate(0, 1, 2, &"creator".to_string());
    assert_eq!(config, Config { token_code_id: 0, receipt_code_id: 1, address_list_code_id: 2 });
    assert_eq!(owner, "creator");
    assert_eq!(a, attrs(&[("action", "instantiate"), ("type", "factory")]));
}

#[test]
fn tests_proper_initialization() {
    let (config, owner, _) = instantiate(0, 2, 1, &"creator".to_string());
    assert_eq!(config, Config { token_code_id: 0, receipt_code_id: 2, address_list_code_id: 1 });
    assert_eq!(owner, "creator");
}
