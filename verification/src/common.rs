//! Plain values shared by the contracts: coins, block info, expirations,
//! the messages a contract asks the chain to run, and the error type.
use vstd::prelude::*;
use crate::math::Decimal;
use vstd::string::{StrSliceExecFns, StringExecFns};

verus! {

/// A native coin: a denomination and an amount.
#[derive(Clone, Debug, PartialEq, Eq)]
pub struct Coin {
    pub denom: String,
    pub amount: u128,
}

impl Coin {
    pub fn new(amount: u128, denom: &String) -> (r: Coin)
        ensures
            r.amount == amount,
            r.denom@ == denom@,
    {
        Coin { denom: denom.clone(), amount }
    }

    pub fn copy(&self) -> (r: Coin)
        ensures
            r == *self,
    {
        Coin { denom: self.denom.clone(), amount: self.amount }
    }
}

/// The block a message runs in: its height and its time in nanoseconds.
#[derive(Clone, Copy, Debug, PartialEq, Eq, Structural)]
pub struct BlockInfo {
    pub height: u64,
    pub time_nanos: u64,
}

impl BlockInfo {
    pub open spec fn seconds(self) -> u64 {
        self.time_nanos / 1_000_000_000
    }

    /// The block time in whole seconds.
    pub fn time_seconds(&self) -> (r: u64)
        ensures
            r == self.seconds(),
    {
        self.time_nanos / 1_000_000_000
    }
}

/// When something expires: at a block height, at a time (nanoseconds), or never.
#[derive(Clone, Copy, Debug, PartialEq, Eq, Structural)]
pub enum Expiration {
    AtHeight(u64),
    AtTime(u64),
    Never,
}

impl Expiration {
    pub open spec fn spec_is_expired(self, block: BlockInfo) -> bool {
        match self {
            Expiration::AtHeight(h) => block.height >= h,
            Expiration::AtTime(t) => block.time_nanos >= t,
            Expiration::Never => false,
        }
    }

    /// Whether the expiration has been reached in `block`.
    pub fn is_expired(&self, block: &BlockInfo) -> (r: bool)
        ensures
            r == self.spec_is_expired(*block),
    {
        match self {
            Expiration::AtHeight(h) => block.height >= *h,
            Expiration::AtTime(t) => block.time_nanos >= *t,
            Expiration::Never => false,
        }
    }
}

/// Whether some coin in `funds` has the denomination of `required` and at least its amount.
pub open spec fn spec_has_coins(funds: Seq<Coin>, required: Coin) -> bool {
    exists|i: int|
        0 <= i < funds.len() && (#[trigger] funds[i]).denom@ == required.denom@
            && funds[i].amount >= required.amount
}

/// `has_coins`: some coin of `funds` matches the denomination of `required`
/// with at least its amount.
pub fn has_coins(funds: &Vec<Coin>, required: &Coin) -> (r: bool)
    ensures
        r == spec_has_coins(funds@, *required),
{
    let mut i: usize = 0;
    while i < funds.len()
        invariant
            i <= funds.len(),
            forall|j: int|
                0 <= j < i ==> !((#[trigger] funds@[j]).denom@ == required.denom@
                    && funds@[j].amount >= required.amount),
        decreases funds.len() - i,
    {
        if funds[i].denom == required.denom && funds[i].amount >= required.amount {
            return true;
        }
        i = i + 1;
    }
    false
}

/// A token the contract holds: a native denomination or a cw20 contract.
#[derive(Clone, Debug, PartialEq, Eq)]
pub enum AssetInfo {
    NativeToken { denom: String },
    Token { contract_addr: String },
}

impl AssetInfo {
    pub fn copy(&self) -> (r: AssetInfo)
        ensures
            r == *self,
    {
        match self {
            AssetInfo::NativeToken { denom } => AssetInfo::NativeToken { denom: denom.clone() },
            AssetInfo::Token { contract_addr } => AssetInfo::Token { contract_addr: contract_addr.clone() },
        }
    }
}

/// An amount of an asset.
#[derive(Clone, Debug, PartialEq, Eq)]
pub struct Asset {
    pub info: AssetInfo,
    pub amount: u128,
}

impl Asset {
    pub fn copy(&self) -> (r: Asset)
        ensures
            r == *self,
    {
        Asset { info: self.info.copy(), amount: self.amount }
    }
}

/// One step of a swap route: a native swap between two denominations, or a
/// swap through an Astroport pair.
#[derive(Clone, Debug, PartialEq, Eq)]
pub enum SwapOperation {
    NativeSwap { offer_denom: String, ask_denom: String },
    AstroSwap { offer_asset_info: AssetInfo, ask_asset_info: AssetInfo },
}

/// What a contract asks another contract to do.
#[derive(Clone, Debug, PartialEq, Eq)]
pub enum ExecAction {
    /// A cw721 `TransferNft`.
    TransferNft { recipient: String, token_id: String },
    /// A cw721 `Burn`.
    BurnNft { token_id: String },
    /// A cw721 `Mint` of `token_id` to `owner`.
    MintNft { token_id: String, owner: String },
    /// A cw20 `Transfer`.
    Cw20Transfer { recipient: String, amount: u128 },
    /// A cw20 `Send` of `amount` to `contract`, carrying a hook for it.
    Cw20Send { contract: String, amount: u128, hook: String },
    /// A cw20 `Receive` hook: `sender` sent the contract `amount`, with `msg`.
    Receive { sender: String, amount: u128, msg: String },
    /// A token contract's `TransferAgreement` for `token_id`.
    TransferAgreement { token_id: String, denom: String, purchaser: String, amount: u128 },
    /// A cw20 `TransferFrom` of `owner`'s tokens.
    Cw20TransferFrom { owner: String, recipient: String, amount: u128 },
    /// A cw20 `IncreaseAllowance` for `spender`.
    Cw20IncreaseAllowance { spender: String, amount: u128 },
    /// A pair's `ProvideLiquidity` of `assets`, the liquidity tokens going to `receiver`.
    ProvideLiquidity { assets: Vec<Asset>, slippage_tolerance: Option<Decimal>, auto_stake: Option<bool>, receiver: String },
    /// A generator's `Withdraw` of `amount` staked `lp_token`.
    GeneratorWithdraw { lp_token: String, amount: u128 },
    /// A router's `ExecuteSwapOperations`, the proceeds going to `to`.
    ExecuteSwapOperations { operations: Vec<SwapOperation>, to: String },
    /// An overseer's `LockCollateral` of `amount` of `token`.
    LockCollateral { token: String, amount: u128 },
    /// An overseer's `UnlockCollateral` of `amount` of `token`.
    UnlockCollateral { token: String, amount: u128 },
    /// A custody's `WithdrawCollateral` of `amount`.
    WithdrawCollateral { amount: u128 },
    /// A money market's `BorrowStable` of `amount`, paid to `to`.
    BorrowStable { amount: u128, to: String },
    /// This contract's own `DepositCollateralToAnchor` of the cw20 `collateral_addr`.
    DepositCollateralToAnchor { collateral_addr: String },
    /// Any other call, named, with no parameters.
    Call { name: String },
}

/// A message the contract returns for the chain to run.
#[derive(Clone, Debug, PartialEq, Eq)]
pub enum CosmosMsg {
    /// Send native coins to an address.
    BankSend { to_address: String, amount: Vec<Coin> },
    /// Execute a contract, attaching `funds`.
    Execute { contract: String, action: ExecAction, funds: Vec<Coin> },
    /// Transfer `amount` of an asset named in its `native:<denom>` / `cw20:<address>` form.
    TransferAsset { asset: String, recipient: String, amount: u128 },
}

/// Whether `m` sends exactly one coin of `amount` `denom` to `to`.
pub open spec fn is_bank_send_one(m: CosmosMsg, to: Seq<char>, denom: Seq<char>, amount: u128) -> bool {
    match m {
        CosmosMsg::BankSend { to_address, amount: coins } => {
            &&& to_address@ == to
            &&& coins@.len() == 1
            &&& coins@[0].denom@ == denom
            &&& coins@[0].amount == amount
        },
        _ => false,
    }
}


/// Whether `m` moves `token_id` of `token_addr` to `recipient`.
pub open spec fn is_nft_transfer(m: CosmosMsg, token_addr: Seq<char>, token_id: Seq<char>, recipient: Seq<char>) -> bool {
    match m {
        CosmosMsg::Execute { contract, action, funds } => {
            &&& contract@ == token_addr
            &&& funds@.len() == 0
            &&& action matches ExecAction::TransferNft { recipient: rc, token_id: t } && rc@ == recipient && t@ == token_id
        },
        _ => false,
    }
}

/// A response attribute: a key and its value.
#[derive(Clone, Debug, PartialEq, Eq)]
pub struct Attribute {
    pub key: String,
    pub value: String,
}

/// Whether `a` is the attribute `key` = `value`.
pub open spec fn attr_is(a: Attribute, key: Seq<char>, value: Seq<char>) -> bool {
    a.key@ == key && a.value@ == value
}

/// Whether `attrs` are exactly the pairs `expected`, in order.
pub open spec fn attrs_are(attrs: Seq<Attribute>, expected: Seq<(Seq<char>, Seq<char>)>) -> bool {
    &&& attrs.len() == expected.len()
    &&& forall|i: int| 0 <= i < attrs.len() ==> attr_is(#[trigger] attrs[i], expected[i].0, expected[i].1)
}

/// The attribute `key` = `value`.
pub fn attr(key: &str, value: String) -> (r: Attribute)
    ensures
        r.key@ == key@,
        r.value@ == value@,
{
    Attribute { key: key.to_owned(), value }
}

/// The character of a decimal digit.
pub open spec fn digit_char(d: nat) -> char {
    if d == 0 { '0' } else if d == 1 { '1' } else if d == 2 { '2' } else if d == 3 { '3' }
    else if d == 4 { '4' } else if d == 5 { '5' } else if d == 6 { '6' } else if d == 7 { '7' }
    else if d == 8 { '8' } else { '9' }
}

/// The decimal form of `n`, without leading zeros.
pub open spec fn decimal(n: nat) -> Seq<char>
    decreases n,
{
    if n < 10 {
        seq![digit_char(n)]
    } else {
        decimal(n / 10).push(digit_char(n % 10))
    }
}

fn digit_str(d: u128) -> (r: &'static str)
    requires
        d < 10,
    ensures
        r@ == seq![digit_char(d as nat)],
{
    proof {
        reveal_strlit("0");
        reveal_strlit("1");
        reveal_strlit("2");
        reveal_strlit("3");
        reveal_strlit("4");
        reveal_strlit("5");
        reveal_strlit("6");
        reveal_strlit("7");
        reveal_strlit("8");
        reveal_strlit("9");
    }
    if d == 0 { "0" } else if d == 1 { "1" } else if d == 2 { "2" } else if d == 3 { "3" }
    else if d == 4 { "4" } else if d == 5 { "5" } else if d == 6 { "6" } else if d == 7 { "7" }
    else if d == 8 { "8" } else { "9" }
}

/// `n` written in decimal, as `to_string` writes an unsigned integer.
pub fn decimal_string(n: u128) -> (r: String)
    ensures
        r@ == decimal(n as nat),
    decreases n,
{
    if n < 10 {
        String::from_str(digit_str(n))
    } else {
        let mut s = decimal_string(n / 10);
        s.append(digit_str(n % 10));
        s
    }
}

/// `k` zeros.
pub open spec fn zeros(k: nat) -> Seq<char>
    decreases k,
{
    if k == 0 { Seq::empty() } else { zeros((k - 1) as nat).push('0') }
}

/// `n` in decimal, padded with zeros on the left to nine digits.
pub open spec fn padded9(n: nat) -> Seq<char> {
    let d = decimal(n);
    if d.len() < 9 { zeros((9 - d.len()) as nat) + d } else { d }
}

/// `n` in decimal, padded to nine digits, as `{:09}` writes it.
pub fn padded9_string(n: u128) -> (r: String)
    ensures
        r@ == padded9(n as nat),
{
    let d = decimal_string(n);
    let len = d.as_str().unicode_len();
    let mut out = String::new();
    let mut k: usize = 0;
    proof { reveal_strlit("0"); }
    if len < 9 {
        while k < 9 - len
            invariant
                len < 9,
                k <= 9 - len,
                out@ == zeros(k as nat),
            decreases 9 - len - k,
        {
            let ghost before = out@;
            out.append("0");
            proof {
                reveal_strlit("0");
                assert("0"@ =~= seq!['0']);
                assert(out@ =~= before.push('0'));
            }
            k = k + 1;
        }
    }
    out.append(d.as_str());
    proof {
        if len >= 9 { assert(out@ =~= d@); }
    }
    out
}

/// `n` in decimal, padded with zeros on the left to `w` digits.
pub open spec fn padded(n: nat, w: nat) -> Seq<char> {
    let d = decimal(n);
    if d.len() < w { zeros((w - d.len()) as nat) + d } else { d }
}

/// `n` in decimal, padded to `w` digits, as `{:0>w$}` writes it.
pub fn padded_string(n: u128, w: usize) -> (r: String)
    ensures
        r@ == padded(n as nat, w as nat),
{
    let d = decimal_string(n);
    let len = d.as_str().unicode_len();
    let mut out = String::new();
    let mut k: usize = 0;
    if len < w {
        while k < w - len
            invariant
                len < w,
                k <= w - len,
                out@ == zeros(k as nat),
            decreases w - len - k,
        {
            let ghost before = out@;
            out.append("0");
            proof {
                reveal_strlit("0");
                assert(out@ =~= before.push('0'));
            }
            k = k + 1;
        }
    }
    out.append(d.as_str());
    proof {
        if len >= w { assert(out@ =~= d@); }
    }
    out
}

/// `s` without the zeros at its end.
pub open spec fn trim_trailing_zeros(s: Seq<char>) -> Seq<char>
    decreases s.len(),
{
    if s.len() > 0 && s.last() == '0' { trim_trailing_zeros(s.drop_last()) } else { s }
}

/// `s.trim_end_matches('0')`.
pub fn trim_trailing_zeros_string(s: &str) -> (r: String)
    ensures
        r@ == trim_trailing_zeros(s@),
{
    let n = s.unicode_len();
    let mut k: usize = n;
    proof { assert(s@.subrange(0, n as int) =~= s@); }
    loop
        invariant
            k <= n,
            n == s@.len(),
            trim_trailing_zeros(s@) == trim_trailing_zeros(s@.subrange(0, k as int)),
        ensures
            k <= n,
            trim_trailing_zeros(s@) == s@.subrange(0, k as int),
        decreases k,
    {
        if k == 0 {
            break;
        }
        if s.get_char(k - 1) != '0' {
            break;
        }
        proof { assert(s@.subrange(0, k as int).drop_last() =~= s@.subrange(0, k - 1)); }
        k = k - 1;
    }
    String::from_str(s.substring_char(0, k))
}

/// The text of an expiration, as its `Display` writes it (a time is written
/// in seconds with nine decimals).
pub open spec fn expiration_text(e: Expiration) -> Seq<char> {
    match e {
        Expiration::AtHeight(h) => "expiration height: "@ + decimal(h as nat),
        Expiration::AtTime(t) => "expiration time: "@ + decimal((t / 1_000_000_000) as nat) + "."@
            + padded9((t % 1_000_000_000) as nat),
        Expiration::Never => "expiration: never"@,
    }
}

/// The text of an expiration.
pub fn expiration_string(e: &Expiration) -> (r: String)
    ensures
        r@ == expiration_text(*e),
{
    match e {
        Expiration::AtHeight(h) => {
            let mut s = String::from_str("expiration height: ");
            s.append(decimal_string(*h as u128).as_str());
            s
        },
        Expiration::AtTime(t) => {
            let mut s = String::from_str("expiration time: ");
            s.append(decimal_string((*t / 1_000_000_000) as u128).as_str());
            s.append(".");
            s.append(padded9_string((*t % 1_000_000_000) as u128).as_str());
            s
        },
        Expiration::Never => String::from_str("expiration: never"),
    }
}

/// The text of a coin, as its `Display` writes it: the amount, then the denomination.
pub open spec fn coin_text(c: Coin) -> Seq<char> {
    decimal(c.amount as nat) + c.denom@
}

/// The text of a coin.
pub fn coin_string(c: &Coin) -> (r: String)
    ensures
        r@ == coin_text(*c),
{
    let mut s = decimal_string(c.amount);
    s.append(c.denom.as_str());
    s
}

/// Whether `r` is the `InvalidFunds` error with message `m`.
pub open spec fn is_invalid_funds<T>(r: Result<T, ContractError>, m: Seq<char>) -> bool {
    r matches Err(ContractError::InvalidFunds { msg }) && msg@ == m
}

/// The `InvalidFunds` error with message `msg`.
pub fn invalid_funds(msg: &str) -> (r: ContractError)
    ensures
        r matches ContractError::InvalidFunds { msg: m } && m@ == msg@,
{
    ContractError::InvalidFunds { msg: msg.to_owned() }
}

/// Whether `e` is the `InvalidWithdrawal` error with reason `m`.
pub open spec fn is_invalid_withdrawal(e: ContractError, m: Seq<char>) -> bool {
    e matches ContractError::InvalidWithdrawal { msg: Some(text) } && text@ == m
}

/// The `InvalidWithdrawal` error with reason `msg`.
pub fn invalid_withdrawal(msg: String) -> (r: ContractError)
    ensures
        is_invalid_withdrawal(r, msg@),
{
    ContractError::InvalidWithdrawal { msg: Some(msg) }
}

/// Errors of the contracts.
#[derive(Clone, Debug, PartialEq, Eq)]
pub enum ContractError {
    Unauthorized,
    Overflow,
    DivideByZero,
    /// Funds that are not what the message needs, with what was wrong.
    InvalidFunds { msg: String },
    InsufficientFunds,
    WithdrawalIsEmpty,
    /// An asset that is not accepted here, named by its text form.
    InvalidAsset { asset: String },
    /// A withdrawal that is not allowed, with the reason where there is one.
    InvalidWithdrawal { msg: Option<String> },
    NotFound,
    // auction
    MoreThanOneCoinSent,
    HighestBidderCannotOutBid,
    AuctionNotStarted,
    AuctionEnded,
    AuctionNotEnded,
    AuctionDoesNotExist,
    AuctionRewardAlreadyClaimed,
    BidSmallerThanHighestBid,
    TokenOwnerCannotBid,
    StartTimeAfterEndTime,
    StartTimeInThePast,
    CannotWithdrawHighestBid,
    // lockdrop
    InvalidWindow,
    TokenAlreadyBeingDistributed,
    DepositWindowClosed,
    NoLockup,
    PhaseOngoing,
    ClaimsAlreadyAllowed,
    ClaimsNotAllowed,
    LockdropAlreadyClaimed,
    NoSavedBootstrapContract,
    // ics721
    NoSuchChannel { id: String },
    InvalidIbcVersion { version: String },
    OnlyOrderedChannel,
    CannotMigrate { previous_contract: String },
    // crowdfund
    ExpirationMustNotBeNever,
    ExpirationInPast,
    SaleStarted,
    NoOngoingSale,
    TokenAlreadyPurchased,
    TokenNotForSale,
    PurchaseLimitReached,
    SaleNotEnded,
    MinSalesExceeded,
    NoPurchases,
    LimitMustNotBeZero,
    // offers and tokens
    Expired,
    TokenIsArchived,
    OfferAlreadyPlaced,
    OfferLowerThanCurrent,
    // ado base
    InvalidRate,
    ModuleDoesNotExist,
    ModuleImmutable,
    /// A generic error raised by a queried contract, with its message.
    Std { msg: String },
    // gumball and address lists
    InvalidZeroAmount,
    NotInRefillMode,
    Refilling,
    OutOfNFTs,
    InvalidAddress,
    /// An error with a message of its own.
    CustomError { msg: String },
    // anchor
    InvalidRecipientType,
    InvalidTokensToWithdraw,
    InvalidLtvRatio,
    InvalidReplyId,
}

} // verus!
