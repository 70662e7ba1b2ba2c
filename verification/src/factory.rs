//! The token factory: creates token contracts by symbol, assigning the code
//! ids of the modules it instantiates for them, and keeps the address of each
//! symbol's token.
use vstd::prelude::*;
use crate::common::{attr, attrs_are, decimal, decimal_string, Attribute, ContractError};

verus! {

/// The code ids the factory instantiates.
#[derive(Clone, Copy, Debug, PartialEq, Eq, Structural)]
pub struct Config {
    pub token_code_id: u64,
    pub receipt_code_id: u64,
    pub address_list_code_id: u64,
}

/// A module a new token should have.
#[derive(Clone, Debug, PartialEq, Eq)]
pub enum ModuleDefinition {
    Whitelist { address: Option<String>, moderators: Option<Vec<String>>, code_id: Option<u64> },
    Blacklist { address: Option<String>, moderators: Option<Vec<String>>, code_id: Option<u64> },
    Receipt { address: Option<String>, moderators: Option<Vec<String>>, code_id: Option<u64> },
    /// Any other module, carried as its serialized definition.
    Other { definition: Vec<u8> },
}

/// The token instantiation the factory asks for.
#[derive(Clone, Debug, PartialEq, Eq)]
pub struct TokenInstantiation {
    pub code_id: u64,
    pub admin: String,
    pub label: String,
    pub name: String,
    pub symbol: String,
    pub minter: String,
    pub modules: Vec<ModuleDefinition>,
}

/// The reply id of a token instantiation.
pub const REPLY_CREATE_TOKEN: u64 = 1;

/// `instantiate`: the factory keeps the code ids it is given and the sender as
/// its owner; gives them with the response's attributes.
pub fn instantiate(
    token_code_id: u64,
    receipt_code_id: u64,
    address_list_code_id: u64,
    sender: &String,
) -> (r: (Config, String, Vec<Attribute>))
    ensures
        r.0 == (Config { token_code_id, receipt_code_id, address_list_code_id }),
        r.1@ == sender@,
        attrs_are(r.2@, seq![("action"@, "instantiate"@), ("type"@, "factory"@)]),
{
    let attrs = vec![attr("action", "instantiate".to_owned()), attr("type", "factory".to_owned())];
    (Config { token_code_id, receipt_code_id, address_list_code_id }, sender.clone(), attrs)
}

/// A module with the factory's code id assigned: address lists (white and
/// black) get the address list code id, receipts the receipt code id; other
/// modules are unchanged.
pub open spec fn with_code_id(m: ModuleDefinition, config: Config) -> ModuleDefinition {
    match m {
        ModuleDefinition::Whitelist { address, moderators, .. } =>
            ModuleDefinition::Whitelist { address, moderators, code_id: Some(config.address_list_code_id) },
        ModuleDefinition::Blacklist { address, moderators, .. } =>
            ModuleDefinition::Blacklist { address, moderators, code_id: Some(config.address_list_code_id) },
        ModuleDefinition::Receipt { address, moderators, .. } =>
            ModuleDefinition::Receipt { address, moderators, code_id: Some(config.receipt_code_id) },
        ModuleDefinition::Other { definition } => ModuleDefinition::Other { definition },
    }
}

/// Assigns the factory's code ids to `modules`, in order.
pub fn assign_code_ids(modules: Vec<ModuleDefinition>, config: &Config) -> (r: Vec<ModuleDefinition>)
    ensures
        r@.len() == modules@.len(),
        forall|i: int| 0 <= i < modules@.len() ==> #[trigger] r@[i] == with_code_id(modules@[i], *config),
{
    let ghost ms = modules@;
    let mut modules = modules;
    let mut out: Vec<ModuleDefinition> = Vec::new();
    while modules.len() > 0
        invariant
            out@.len() <= ms.len(),
            modules@ == ms.skip(out@.len() as int),
            forall|i: int| 0 <= i < out@.len() ==> #[trigger] out@[i] == with_code_id(ms[i], *config),
        decreases modules.len(),
    {
        let ghost k = out@.len() as int;
        let m = modules.remove(0);
        proof {
            assert(m == ms[k]);
            assert(modules@ =~= ms.skip(k + 1));
        }
        let updated = match m {
            ModuleDefinition::Whitelist { address, moderators, .. } =>
                ModuleDefinition::Whitelist { address, moderators, code_id: Some(config.address_list_code_id) },
            ModuleDefinition::Blacklist { address, moderators, .. } =>
                ModuleDefinition::Blacklist { address, moderators, code_id: Some(config.address_list_code_id) },
            ModuleDefinition::Receipt { address, moderators, .. } =>
                ModuleDefinition::Receipt { address, moderators, code_id: Some(config.receipt_code_id) },
            ModuleDefinition::Other { definition } => ModuleDefinition::Other { definition },
        };
        out.push(updated);
    }
    out
}

/// The message of a refused symbol.
pub open spec fn symbol_in_use_msg() -> Seq<char> {
    "Symbol is in use"@
}

/// The attributes of a created token's response.
pub open spec fn create_attrs(name: Seq<char>, symbol: Seq<char>) -> Seq<(Seq<char>, Seq<char>)> {
    seq![("action"@, "create"@), ("name"@, name), ("symbol"@, symbol)]
}

/// `create`: instantiates a token named `name` with `symbol`, minted by the
/// sender, with `modules` given the factory's code ids; a symbol that already
/// has a token is refused. Gives the instantiation (replied to under
/// `REPLY_CREATE_TOKEN`) and the response's attributes.
pub fn create(
    config: &Config,
    symbol_in_use: bool,
    sender: &String,
    name: String,
    symbol: String,
    modules: Vec<ModuleDefinition>,
) -> (r: Result<(TokenInstantiation, Vec<Attribute>), ContractError>)
    ensures
        symbol_in_use ==> (r matches Err(ContractError::Std { msg }) && msg@ == symbol_in_use_msg()),
        !symbol_in_use ==> (r matches Ok((t, attrs)) && {
            &&& t.code_id == config.token_code_id
            &&& t.admin@ == sender@
            &&& t.minter@ == sender@
            &&& t.name == name
            &&& t.symbol == symbol
            &&& t.label@ == "Address list instantiation"@
            &&& t.modules@.len() == modules@.len()
            &&& forall|i: int| 0 <= i < modules@.len() ==> #[trigger] t.modules@[i] == with_code_id(modules@[i], *config)
            &&& attrs_are(attrs@, create_attrs(name@, symbol@))
        }),
{
    if symbol_in_use {
        return Err(ContractError::Std { msg: "Symbol is in use".to_owned() });
    }
    let updated = assign_code_ids(modules, config);
    let attrs = vec![attr("action", "create".to_owned()), attr("name", name.clone()), attr("symbol", symbol.clone())];
    let t = TokenInstantiation {
        code_id: config.token_code_id,
        admin: sender.clone(),
        label: "Address list instantiation".to_owned(),
        name,
        symbol,
        minter: sender.clone(),
        modules: updated,
    };
    Ok((t, attrs))
}

/// `is_creator`: whether `address` created the symbol's token.
pub fn is_creator(creator: Option<&String>, address: &String) -> (r: bool)
    ensures
        r == (creator matches Some(c) && c@ == address@),
{
    match creator {
        Some(c) => *c == *address,
        None => false,
    }
}

/// The message of a refused address update.
pub open spec fn not_creator_msg() -> Seq<char> {
    "Cannot update address for ADO that you did not create"@
}

/// `update_address`: only the symbol's creator or the owner may change the
/// address recorded for a symbol; gives the address to record.
/// `sender_is_creator` is what the deployment's creator lookup answered for
/// the symbol and the sender: the entry point asks it through the chain's
/// querier (see `is_creator` for the lookup over a stored creator).
pub fn update_address(
    sender_is_creator: bool,
    owner: &String,
    sender: &String,
    new_address: String,
) -> (r: Result<String, ContractError>)
    ensures
        (sender_is_creator || owner@ == sender@) ==> r == Ok::<String, ContractError>(new_address),
        !(sender_is_creator || owner@ == sender@) ==> (r matches Err(ContractError::Std { msg }) && msg@ == not_creator_msg()),
{
    if sender_is_creator || *owner == *sender {
        Ok(new_address)
    } else {
        Err(ContractError::Std { msg: "Cannot update address for ADO that you did not create".to_owned() })
    }
}

/// The message of an update that names no code id.
pub open spec fn no_code_id_msg() -> Seq<char> {
    "Must provide one of the following: \"receipt_code_id\", \"token_code_id\", \"address_list_code_id\""@
}

/// The message of an update by someone other than the owner.
pub open spec fn not_owner_msg() -> Seq<char> {
    "Can only be used by the contract owner"@
}

/// The attributes of a code id update that left `c`.
pub open spec fn code_id_attrs(c: Config) -> Seq<(Seq<char>, Seq<char>)> {
    seq![
        ("action"@, "update_code_id"@),
        ("receipt_code_id"@, decimal(c.receipt_code_id as nat)),
        ("token_code_id"@, decimal(c.token_code_id as nat)),
        ("address_list_code_id"@, decimal(c.address_list_code_id as nat)),
    ]
}

/// `update_code_id`: the owner replaces the code ids it names (at least one);
/// gives the new code ids and the response's attributes.
pub fn update_code_id(
    config: Config,
    owner: &String,
    sender: &String,
    receipt_code_id: Option<u64>,
    address_list_code_id: Option<u64>,
    token_code_id: Option<u64>,
) -> (r: Result<(Config, Vec<Attribute>), ContractError>)
    ensures
        receipt_code_id is None && address_list_code_id is None && token_code_id is None
            ==> (r matches Err(ContractError::Std { msg }) && msg@ == no_code_id_msg()),
        !(receipt_code_id is None && address_list_code_id is None && token_code_id is None) && owner@ != sender@
            ==> (r matches Err(ContractError::Std { msg }) && msg@ == not_owner_msg()),
        !(receipt_code_id is None && address_list_code_id is None && token_code_id is None) && owner@ == sender@
            ==> (r matches Ok((c, attrs)) && c == Config {
                receipt_code_id: match receipt_code_id { Some(c) => c, None => config.receipt_code_id },
                address_list_code_id: match address_list_code_id { Some(c) => c, None => config.address_list_code_id },
                token_code_id: match token_code_id { Some(c) => c, None => config.token_code_id },
            } && attrs_are(attrs@, code_id_attrs(c))),
{
    if receipt_code_id.is_none() && address_list_code_id.is_none() && token_code_id.is_none() {
        return Err(ContractError::Std {
            msg: "Must provide one of the following: \"receipt_code_id\", \"token_code_id\", \"address_list_code_id\"".to_owned(),
        });
    }
    if *owner != *sender {
        return Err(ContractError::Std { msg: "Can only be used by the contract owner".to_owned() });
    }
    let mut config = config;
    if let Some(c) = receipt_code_id {
        config.receipt_code_id = c;
    }
    if let Some(c) = address_list_code_id {
        config.address_list_code_id = c;
    }
    if let Some(c) = token_code_id {
        config.token_code_id = c;
    }
    let attrs = vec![
        attr("action", "update_code_id".to_owned()),
        attr("receipt_code_id", decimal_string(config.receipt_code_id as u128)),
        attr("token_code_id", decimal_string(config.token_code_id as u128)),
        attr("address_list_code_id", decimal_string(config.address_list_code_id as u128)),
    ];
    Ok((config, attrs))
}

/// The message of a reply with an unknown id.
pub open spec fn invalid_reply_msg() -> Seq<char> {
    "reply id is invalid"@
}

/// `reply`: a failed submessage passes its error on; only the token
/// instantiation's reply is handled (its address is then recorded).
pub fn reply(id: u64, result: Result<(), String>) -> (r: Result<(), ContractError>)
    ensures
        match result {
            Err(e) => r == Err::<(), ContractError>(ContractError::Std { msg: e }),
            Ok(()) => if id == REPLY_CREATE_TOKEN {
                r is Ok
            } else {
                r matches Err(ContractError::Std { msg }) && msg@ == invalid_reply_msg()
            },
        },
{
    match result {
        Err(e) => Err(ContractError::Std { msg: e }),
        Ok(()) => if id == REPLY_CREATE_TOKEN {
            Ok(())
        } else {
            Err(ContractError::Std { msg: "reply id is invalid".to_owned() })
        },
    }
}

} // verus!
