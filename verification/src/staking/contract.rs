//! Staking of a cw20 token for shares, with reward indices per reward token.
//!
//! Shares: a deposit of `amount` when the contract holds `balance` (before the
//! deposit) and `total_share` shares are out mints `amount * total_share / balance`
//! shares (or `amount` when either is zero). Rewards: each reward token has a
//! global index (rewards per share); a staker's pending rewards grow by
//! `(global index - staker index) * share` whenever the staker is touched.
use vstd::prelude::*;
use crate::common::{attr, attrs_are, decimal, decimal_string, Attribute, invalid_funds, is_invalid_funds, invalid_withdrawal, is_invalid_withdrawal, AssetInfo, ContractError, CosmosMsg, ExecAction};
use vstd::string::StringExecFns;
use crate::kv::{KeyedVec, keys_distinct, entries_map};
use crate::math::{Decimal, checked_ratio, fractional, spec_mul_dec, mul_dec, multiply_ratio, DECIMAL_FRACTIONAL};

verus! {

/// The contract's record of one reward token.
#[derive(Clone, Copy, Debug, PartialEq, Eq, Structural)]
pub struct ContractRewardInfo {
    /// Rewards per share accrued so far.
    pub index: Decimal,
    /// The reward balance when the index was last raised.
    pub previous_reward_balance: u128,
}

/// A staker's record of one reward token.
#[derive(Clone, Copy, Debug, PartialEq, Eq, Structural)]
pub struct StakerRewardInfo {
    /// The global index when this staker's rewards were last accrued.
    pub index: Decimal,
    /// Rewards accrued and not yet claimed.
    pub pending_rewards: Decimal,
}

/// The contract state: total shares and the reward tokens, keyed by their
/// `native:<denom>` / `cw20:<address>` form.
#[derive(Clone, Debug)]
pub struct StakingState {
    pub total_share: u128,
    pub additional_reward_info: KeyedVec<ContractRewardInfo>,
}

/// A staker: its shares and its reward records.
#[derive(Clone, Debug)]
pub struct Staker {
    pub share: u128,
    pub reward_info: KeyedVec<StakerRewardInfo>,
}

impl StakingState {
    pub open spec fn wf(&self) -> bool {
        self.additional_reward_info.wf()
    }
}

impl Staker {
    pub open spec fn wf(&self) -> bool {
        self.reward_info.wf()
    }

    /// A staker with no shares and no reward records.
    pub fn default() -> (r: Staker)
        ensures
            r.wf(),
            r.share == 0,
            r.reward_info.view() == Map::<Seq<char>, StakerRewardInfo>::empty(),
    {
        Staker { share: 0, reward_info: KeyedVec::new() }
    }
}

/// The key under which the rewards of an asset are kept: `native:<denom>`
/// for a native coin, `cw20:<address>` for a cw20 token.
pub open spec fn asset_key(a: AssetInfo) -> Seq<char> {
    match a {
        AssetInfo::NativeToken { denom } => "native:"@ + denom@,
        AssetInfo::Token { contract_addr } => "cw20:"@ + contract_addr@,
    }
}

/// The text form of an asset, as its reward key.
pub fn asset_key_string(a: &AssetInfo) -> (r: String)
    ensures
        r@ == asset_key(*a),
{
    match a {
        AssetInfo::NativeToken { denom } => String::from_str("native:").concat(denom.as_str()),
        AssetInfo::Token { contract_addr } => String::from_str("cw20:").concat(contract_addr.as_str()),
    }
}

/// The reward record of a token nothing was distributed of yet.
pub open spec fn fresh_reward_info() -> ContractRewardInfo {
    ContractRewardInfo { index: Decimal { atomics: 0 }, previous_reward_balance: 0 }
}

/// The reward records after `instantiate`: a fresh one under the key of each
/// of the first `n` additional reward tokens.
pub open spec fn initial_reward_info(tokens: Seq<AssetInfo>, n: int) -> Map<Seq<char>, ContractRewardInfo> {
    Map::new(
        |k: Seq<char>| exists|j: int| 0 <= j < n && #[trigger] asset_key(tokens[j]) == k,
        |k: Seq<char>| fresh_reward_info(),
    )
}

/// Whether `a` is the cw20 token at `addr`.
pub open spec fn is_cw20_at(a: AssetInfo, addr: Seq<char>) -> bool {
    a matches AssetInfo::Token { contract_addr } && contract_addr@ == addr
}

/// Whether `tokens` names the cw20 `staking_token`, which may not be a reward token.
pub open spec fn names_staking_token(tokens: Seq<AssetInfo>, staking_token: Seq<char>) -> bool {
    exists|j: int| 0 <= j < tokens.len() && is_cw20_at(#[trigger] tokens[j], staking_token)
}

/// `instantiate`: no shares are staked yet, and each additional reward token
/// (none when `None`) gets a fresh reward record under its key. The staking
/// token itself cannot be a reward token (`InvalidAsset`).
pub fn instantiate(staking_token: &String, additional_rewards: Option<Vec<AssetInfo>>) -> (r: Result<StakingState, ContractError>)
    ensures
        ({
            let tokens = match additional_rewards { Some(v) => v@, None => Seq::empty() };
            if names_staking_token(tokens, staking_token@) {
                r matches Err(ContractError::InvalidAsset { asset }) && asset@ == "cw20:"@ + staking_token@
            } else {
                r matches Ok(state) && {
                    &&& state.wf()
                    &&& state.total_share == 0
                    &&& state.additional_reward_info.view() == initial_reward_info(tokens, tokens.len() as int)
                }
            }
        }),
{
    let ghost given = match &additional_rewards { Some(v) => v@, None => Seq::<AssetInfo>::empty() };
    let tokens: Vec<AssetInfo> = match additional_rewards {
        Some(v) => v,
        None => Vec::new(),
    };
    let mut info: KeyedVec<ContractRewardInfo> = KeyedVec::new();
    proof { assert(info.view() =~= initial_reward_info(tokens@, 0)); }
    let mut i: usize = 0;
    while i < tokens.len()
        invariant
            tokens@ == given,
            given == match additional_rewards { Some(v) => v@, None => Seq::<AssetInfo>::empty() },
            i <= tokens@.len(),
            info.wf(),
            info.view() == initial_reward_info(tokens@, i as int),
            forall|j: int| 0 <= j < i ==> !is_cw20_at(#[trigger] tokens@[j], staking_token@),
        decreases tokens.len() - i,
    {
        if let AssetInfo::Token { contract_addr } = &tokens[i] {
            if *contract_addr == *staking_token {
                proof {
                    assert(is_cw20_at(given[i as int], staking_token@));
                    assert(names_staking_token(given, staking_token@));
                }
                return Err(ContractError::InvalidAsset { asset: asset_key_string(&tokens[i]) });
            }
        }
        let key = asset_key_string(&tokens[i]);
        let fresh = ContractRewardInfo { index: Decimal { atomics: 0 }, previous_reward_balance: 0 };
        let ghost before = info.view();
        info.insert(&key, fresh);
        proof {
            assert forall|k: Seq<char>| #[trigger] info.view().dom().contains(k)
                == initial_reward_info(tokens@, i + 1).dom().contains(k) by {
                if k == key@ {
                    assert(asset_key(tokens@[i as int]) == k);
                } else if before.dom().contains(k) {
                    let j = choose|j: int| 0 <= j < i && #[trigger] asset_key(tokens@[j]) == k;
                    assert(0 <= j < i + 1 && asset_key(tokens@[j]) == k);
                } else if initial_reward_info(tokens@, i + 1).dom().contains(k) {
                    let j = choose|j: int| 0 <= j < i + 1 && #[trigger] asset_key(tokens@[j]) == k;
                    assert(j != i);
                    assert(before.dom().contains(k));
                }
            }
            assert(info.view() =~= initial_reward_info(tokens@, i + 1));
        }
        i = i + 1;
    }
    Ok(StakingState { total_share: 0, additional_reward_info: info })
}

pub open spec fn zero_staker_info() -> StakerRewardInfo {
    StakerRewardInfo { index: Decimal { atomics: 0 }, pending_rewards: Decimal { atomics: 0 } }
}

/// A staker's record for a token, or the empty record.
pub open spec fn staker_info_or_default(m: Map<Seq<char>, StakerRewardInfo>, k: Seq<char>) -> StakerRewardInfo {
    if m.dom().contains(k) { m[k] } else { zero_staker_info() }
}

/// Accrues one reward token for a staker holding `share`: the new record, or
/// `None` when the staker's index is above the global one or on overflow.
pub open spec fn spec_accrue(global: ContractRewardInfo, old: StakerRewardInfo, share: u128) -> Option<StakerRewardInfo> {
    if global.index.atomics < old.index.atomics {
        None
    } else {
        match spec_mul_dec(share as int, Decimal { atomics: (global.index.atomics - old.index.atomics) as u128 }) {
            None => None,
            Some(rewards) => if old.pending_rewards.atomics + rewards * fractional() > u128::MAX {
                None
            } else {
                Some(StakerRewardInfo {
                    index: global.index,
                    pending_rewards: Decimal { atomics: (old.pending_rewards.atomics + rewards * fractional()) as u128 },
                })
            },
        }
    }
}

/// Every reward token of the contract can be accrued for this staker.
pub open spec fn accrual_ok(global: Map<Seq<char>, ContractRewardInfo>, staker: Map<Seq<char>, StakerRewardInfo>, share: u128) -> bool {
    forall|k: Seq<char>| global.dom().contains(k) ==> (#[trigger] spec_accrue(global[k], staker_info_or_default(staker, k), share)) is Some
}

/// The staker's records after accruing every reward token of the contract.
pub open spec fn spec_accrued(global: Map<Seq<char>, ContractRewardInfo>, staker: Map<Seq<char>, StakerRewardInfo>, share: u128) -> Map<Seq<char>, StakerRewardInfo> {
    Map::new(
        |k: Seq<char>| global.dom().contains(k) || staker.dom().contains(k),
        |k: Seq<char>| if global.dom().contains(k) {
            spec_accrue(global[k], staker_info_or_default(staker, k), share)->0
        } else {
            staker[k]
        },
    )
}

/// Accrues one record (`update_rewards` for one token).
fn accrue(global: ContractRewardInfo, old: StakerRewardInfo, share: u128) -> (r: Option<StakerRewardInfo>)
    ensures
        r == spec_accrue(global, old, share),
{
    if global.index.atomics < old.index.atomics {
        return None;
    }
    let diff = Decimal { atomics: global.index.atomics - old.index.atomics };
    let rewards = match mul_dec(share, diff) {
        Some(r) => r,
        None => return None,
    };
    let scaled = match rewards.checked_mul(DECIMAL_FRACTIONAL) {
        Some(s) => s,
        None => {
            proof {
                assert(rewards * fractional() <= old.pending_rewards.atomics + rewards * fractional());
            }
            return None;
        },
    };
    match old.pending_rewards.atomics.checked_add(scaled) {
        Some(p) => Some(StakerRewardInfo { index: global.index, pending_rewards: Decimal { atomics: p } }),
        None => None,
    }
}

/// The keys of the first `i` entries.
pub open spec fn prefix_keys<V>(es: Seq<(String, V)>, i: int) -> Set<Seq<char>> {
    Set::new(|k: Seq<char>| exists|j: int| 0 <= j < i && (#[trigger] es[j]).0@ == k)
}

proof fn lemma_prefix_keys_step<V>(es: Seq<(String, V)>, i: int)
    requires
        0 <= i < es.len(),
    ensures
        prefix_keys(es, i + 1) == prefix_keys(es, i).insert(es[i].0@),
{
    assert forall|k: Seq<char>| prefix_keys(es, i + 1).contains(k) == prefix_keys(es, i).insert(es[i].0@).contains(k) by {
        if prefix_keys(es, i + 1).contains(k) {
            let j = choose|j: int| 0 <= j < i + 1 && (#[trigger] es[j]).0@ == k;
            if j < i {
                assert(prefix_keys(es, i).contains(k));
            }
        }
        if prefix_keys(es, i).contains(k) {
            let j = choose|j: int| 0 <= j < i && (#[trigger] es[j]).0@ == k;
            assert(0 <= j < i + 1 && es[j].0@ == k);
        }
        if k == es[i].0@ {
            assert(0 <= i < i + 1 && es[i].0@ == k);
        }
    }
    assert(prefix_keys(es, i + 1) =~= prefix_keys(es, i).insert(es[i].0@));
}

/// `update_rewards`: accrues every reward token of the contract for the staker;
/// tokens the staker had no record of start from the empty record.
pub fn update_rewards(state: &StakingState, staker: &mut Staker) -> (r: Result<(), ContractError>)
    requires
        state.wf(),
        old(staker).wf(),
    ensures
        final(staker).wf(),
        final(staker).share == old(staker).share,
        r is Ok <==> accrual_ok(state.additional_reward_info.view(), old(staker).reward_info.view(), old(staker).share),
        r is Err ==> r == Err::<(), ContractError>(ContractError::Overflow),
        r is Ok ==> final(staker).reward_info.view() == spec_accrued(state.additional_reward_info.view(), old(staker).reward_info.view(), old(staker).share),
{
    let ghost m0 = staker.reward_info.view();
    let ghost g = state.additional_reward_info.view();
    let ghost es = state.additional_reward_info.entries@;
    let share = staker.share;
    let n = state.additional_reward_info.entries.len();
    let mut i: usize = 0;
    proof {
        assert(prefix_keys(es, 0) =~= Set::<Seq<char>>::empty());
        assert(m0.dom().union(prefix_keys(es, 0)) =~= m0.dom());
    }
    while i < n
        invariant
            state.wf(),
            n == es.len(),
            es == state.additional_reward_info.entries@,
            g == state.additional_reward_info.view(),
            i <= n,
            staker.wf(),
            staker.share == share,
            share == old(staker).share,
            m0 == old(staker).reward_info.view(),
            forall|j: int| 0 <= j < i ==> (#[trigger] spec_accrue(g[es[j].0@], staker_info_or_default(m0, es[j].0@), share)) is Some,
            staker.reward_info.view().dom() == m0.dom().union(prefix_keys(es, i as int)),
            forall|k: Seq<char>| #[trigger] staker.reward_info.view().dom().contains(k) ==>
                staker.reward_info.view()[k] == (if prefix_keys(es, i as int).contains(k) {
                    spec_accrue(g[k], staker_info_or_default(m0, k), share)->0
                } else {
                    m0[k]
                }),
        decreases n - i,
    {
        let key = &state.additional_reward_info.entries[i].0;
        let global = state.additional_reward_info.entries[i].1;
        proof {
            assert(es[i as int].0@ == key@);
            assert(crate::kv::has_key(es, key@));
            let ki = crate::kv::key_index(es, key@);
            assert(es[ki].0@ == key@);
            assert(ki == i as int);
            assert(g[key@] == global);
            assert(!prefix_keys(es, i as int).contains(key@)) by {
                if prefix_keys(es, i as int).contains(key@) {
                    let j = choose|j: int| 0 <= j < i && (#[trigger] es[j]).0@ == key@;
                    assert(es[j].0@ != es[i as int].0@);
                }
            }
        }
        let old_info = match staker.reward_info.get(key) {
            Some(info) => info,
            None => StakerRewardInfo { index: Decimal::zero(), pending_rewards: Decimal::zero() },
        };
        proof {
            if staker.reward_info.view().dom().contains(key@) {
                assert(m0.dom().contains(key@));
            } else {
                assert(!m0.dom().contains(key@));
            }
            assert(old_info == staker_info_or_default(m0, key@));
        }
        let updated = match accrue(global, old_info, share) {
            Some(u) => u,
            None => {
                proof {
                    assert(g.dom().contains(key@));
                    assert(!accrual_ok(g, m0, share));
                }
                return Err(ContractError::Overflow);
            },
        };
        let ghost before = staker.reward_info.view();
        staker.reward_info.insert(key, updated);
        proof {
            lemma_prefix_keys_step(es, i as int);
            assert(staker.reward_info.view().dom() =~= m0.dom().union(prefix_keys(es, i + 1)));
            assert forall|k: Seq<char>| #[trigger] staker.reward_info.view().dom().contains(k) implies
                staker.reward_info.view()[k] == (if prefix_keys(es, i + 1).contains(k) {
                    spec_accrue(g[k], staker_info_or_default(m0, k), share)->0
                } else {
                    m0[k]
                }) by {
                if k != key@ {
                    assert(before.dom().contains(k));
                }
            }
        }
        i = i + 1;
    }
    proof {
        assert forall|k: Seq<char>| g.dom().contains(k) implies prefix_keys(es, n as int).contains(k) by {
            let j = crate::kv::key_index(es, k);
            assert(es[j].0@ == k);
        }
        assert forall|k: Seq<char>| g.dom().contains(k) implies (#[trigger] spec_accrue(g[k], staker_info_or_default(m0, k), share)) is Some by {
            let j = crate::kv::key_index(es, k);
            assert(es[j].0@ == k);
            assert(spec_accrue(g[es[j].0@], staker_info_or_default(m0, es[j].0@), share) is Some);
        }
        assert forall|k: Seq<char>| prefix_keys(es, n as int).contains(k) implies g.dom().contains(k) by {
            let j = choose|j: int| 0 <= j < n && (#[trigger] es[j]).0@ == k;
            assert(crate::kv::has_key(es, k));
        }
        assert(staker.reward_info.view() =~= spec_accrued(g, m0, share));
    }
    Ok(())
}

/// Shares minted for a deposit of `amount` when the contract held `balance`
/// before it and `total_share` shares were out; `None` on overflow.
pub open spec fn spec_stake_share(amount: u128, total_share: u128, balance: u128) -> Option<u128> {
    if balance == 0 || total_share == 0 {
        Some(amount)
    } else {
        checked_ratio(amount as int, total_share as int, balance as int)
    }
}

/// Whether a stake of `amount` goes through, given the staker's records after accrual.
pub open spec fn stake_ok(state_share: u128, staker_share: u128, amount: u128, contract_balance: u128) -> bool {
    &&& contract_balance >= amount
    &&& spec_stake_share(amount, state_share, (contract_balance - amount) as u128) matches Some(share)
        && staker_share + share <= u128::MAX && state_share + share <= u128::MAX
}

/// `StakeTokens` (a cw20 `Receive` from the staking token): accrues the
/// staker's rewards, then mints shares for `amount`. `contract_balance` is the
/// contract's balance of the staking token, which already includes `amount`.
/// Fails with `InvalidFunds` ("Deposited cw20 token is not the staking token") when the tokens are not the staking token and with
/// `Overflow` when the balance is below `amount` or a sum overflows.
pub fn execute_stake_tokens(
    sender: &String,
    state: &mut StakingState,
    staker: Option<Staker>,
    staking_token_address: &String,
    token_address: &String,
    amount: u128,
    contract_balance: u128,
) -> (r: Result<(Staker, Vec<Attribute>), ContractError>)
    requires
        old(state).wf(),
        staker matches Some(s) ==> s.wf(),
    ensures
        ({
            let s0 = match staker { Some(s) => s.share, None => 0u128 };
            let m0 = match staker { Some(s) => s.reward_info.view(), None => Map::<Seq<char>, StakerRewardInfo>::empty() };
            let g = old(state).additional_reward_info.view();
            &&& token_address@ != staking_token_address@ ==> is_invalid_funds(r, "Deposited cw20 token is not the staking token"@)
            &&& token_address@ == staking_token_address@ ==> (r is Ok <==> (accrual_ok(g, m0, s0)
                && stake_ok(old(state).total_share, s0, amount, contract_balance)))
            &&& r is Err && token_address@ == staking_token_address@ ==> r == Err::<(Staker, Vec<Attribute>), ContractError>(ContractError::Overflow)
            &&& r matches Ok((new_staker, attrs)) ==> {
                let share = spec_stake_share(amount, old(state).total_share, (contract_balance - amount) as u128)->0;
                &&& attrs_are(attrs@, seq![
                    ("action"@, "stake_tokens"@),
                    ("sender"@, sender@),
                    ("share"@, decimal(share as nat)),
                    ("amount"@, decimal(amount as nat)),
                ])
                &&& new_staker.wf()
                &&& new_staker.share == s0 + share
                &&& new_staker.reward_info.view() == spec_accrued(g, m0, s0)
                &&& final(state).total_share == old(state).total_share + share
                &&& final(state).additional_reward_info == old(state).additional_reward_info
                &&& final(state).total_share - new_staker.share == old(state).total_share - s0
            }
        }),
{
    if *token_address != *staking_token_address {
        return Err(invalid_funds("Deposited cw20 token is not the staking token"));
    }
    let mut staker = match staker {
        Some(s) => s,
        None => Staker::default(),
    };
    match update_rewards(state, &mut staker) {
        Ok(()) => {},
        Err(e) => return Err(e),
    }
    let total_balance = match contract_balance.checked_sub(amount) {
        Some(b) => b,
        None => return Err(ContractError::Overflow),
    };
    let share = if total_balance == 0 || state.total_share == 0 {
        amount
    } else {
        match multiply_ratio(amount, state.total_share, total_balance) {
            Some(v) => v,
            None => return Err(ContractError::Overflow),
        }
    };
    staker.share = match staker.share.checked_add(share) {
        Some(v) => v,
        None => return Err(ContractError::Overflow),
    };
    state.total_share = match state.total_share.checked_add(share) {
        Some(v) => v,
        None => return Err(ContractError::Overflow),
    };
    let attrs = vec![
        attr("action", "stake_tokens".to_owned()),
        attr("sender", sender.clone()),
        attr("share", decimal_string(share)),
        attr("amount", decimal_string(amount)),
    ];
    Ok((staker, attrs))
}

/// The shares an unstake of `amount` burns (all the staker's shares for `None`):
/// `Err` on a zero balance, on overflow or when it exceeds the staker's shares.
pub open spec fn spec_withdraw_share(amount: Option<u128>, staker_share: u128, total_share: u128, total_balance: u128) -> Result<u128, ContractError> {
    match amount {
        None => Ok(staker_share),
        Some(v) => if total_balance == 0 {
            Err(ContractError::DivideByZero)
        } else {
            match checked_ratio(v as int, total_share as int, total_balance as int) {
                None => Err(ContractError::Overflow),
                Some(w) => Ok(if w >= 1 { w } else { 1u128 }),
            }
        },
    }
}

/// The staking tokens paid out for an unstake: `amount` when given, else the
/// share's part of the balance computed against the shares left afterwards.
pub open spec fn spec_withdraw_amount(amount: Option<u128>, withdraw_share: u128, total_balance: u128, remaining_total: u128) -> Result<u128, ContractError> {
    match amount {
        Some(v) => Ok(v),
        None => if withdraw_share * total_balance > u128::MAX {
            Err(ContractError::Overflow)
        } else if remaining_total == 0 {
            Err(ContractError::DivideByZero)
        } else {
            Ok(((withdraw_share * total_balance) / remaining_total as int) as u128)
        },
    }
}

pub open spec fn is_cw20_transfer(m: CosmosMsg, token: Seq<char>, recipient: Seq<char>, amount: u128) -> bool {
    match m {
        CosmosMsg::Execute { contract, action, funds } => {
            &&& contract@ == token
            &&& funds@.len() == 0
            &&& match action {
                ExecAction::Cw20Transfer { recipient: to, amount: a } => to@ == recipient && a == amount,
                _ => false,
            }
        },
        _ => false,
    }
}

/// `UnstakeTokens`: accrues the staker's rewards, burns the shares for
/// `amount` (at least one share; all of them for `None`) and sends the tokens.
/// `total_balance` is the contract's balance of the staking token.
pub fn execute_unstake_tokens(
    state: &mut StakingState,
    staker: Option<Staker>,
    sender: &String,
    staking_token_address: &String,
    amount: Option<u128>,
    total_balance: u128,
) -> (r: Result<(Staker, CosmosMsg), ContractError>)
    requires
        old(state).wf(),
        staker matches Some(s) ==> s.wf(),
    ensures
        staker is None ==> r == Err::<(Staker, CosmosMsg), ContractError>(ContractError::WithdrawalIsEmpty),
        staker matches Some(s) ==> ({
            let g = old(state).additional_reward_info.view();
            let ws = spec_withdraw_share(amount, s.share, old(state).total_share, total_balance);
            &&& !accrual_ok(g, s.reward_info.view(), s.share) ==> r == Err::<(Staker, CosmosMsg), ContractError>(ContractError::Overflow)
            &&& accrual_ok(g, s.reward_info.view(), s.share) ==> match ws {
                Err(e) => r == Err::<(Staker, CosmosMsg), ContractError>(e),
                Ok(w) => if w > s.share {
                    r matches Err(e) && is_invalid_withdrawal(e, "Desired amount exceeds balance"@)
                } else if w > old(state).total_share {
                    r == Err::<(Staker, CosmosMsg), ContractError>(ContractError::Overflow)
                } else {
                    match spec_withdraw_amount(amount, w, total_balance, (old(state).total_share - w) as u128) {
                        Err(e) => r == Err::<(Staker, CosmosMsg), ContractError>(e),
                        Ok(out) => (r matches Ok((new_staker, msg)) && {
                            &&& new_staker.wf()
                            &&& new_staker.share == s.share - w
                            &&& new_staker.reward_info.view() == spec_accrued(g, s.reward_info.view(), s.share)
                            &&& final(state).total_share == old(state).total_share - w
                            &&& final(state).additional_reward_info == old(state).additional_reward_info
                            &&& final(state).total_share - new_staker.share == old(state).total_share - s.share
                            &&& is_cw20_transfer(msg, staking_token_address@, sender@, out)
                        }),
                    }
                },
            }
        }),
{
    let mut staker = match staker {
        Some(s) => s,
        None => return Err(ContractError::WithdrawalIsEmpty),
    };
    match update_rewards(state, &mut staker) {
        Ok(()) => {},
        Err(e) => return Err(e),
    }
    let withdraw_share = match amount {
        None => staker.share,
        Some(v) => {
            if total_balance == 0 {
                return Err(ContractError::DivideByZero);
            }
            match multiply_ratio(v, state.total_share, total_balance) {
                Some(w) => if w >= 1 { w } else { 1u128 },
                None => return Err(ContractError::Overflow),
            }
        },
    };
    if withdraw_share > staker.share {
        return Err(invalid_withdrawal(String::from_str("Desired amount exceeds balance")));
    }
    if withdraw_share > state.total_share {
        return Err(ContractError::Overflow);
    }
    staker.share = staker.share - withdraw_share;
    state.total_share = state.total_share - withdraw_share;
    let withdraw_amount = match amount {
        Some(v) => v,
        None => {
            let product = match withdraw_share.checked_mul(total_balance) {
                Some(p) => p,
                None => return Err(ContractError::Overflow),
            };
            if state.total_share == 0 {
                return Err(ContractError::DivideByZero);
            }
            product / state.total_share
        },
    };
    let msg = CosmosMsg::Execute {
        contract: staking_token_address.clone(),
        action: ExecAction::Cw20Transfer { recipient: sender.clone(), amount: withdraw_amount },
        funds: Vec::new(),
    };
    Ok((staker, msg))
}

/// The whole reward tokens a record can pay out.
pub open spec fn claimable(info: StakerRewardInfo) -> u128 {
    (info.pending_rewards.atomics as int / fractional()) as u128
}

/// A record after paying out its whole tokens: the fraction stays pending.
pub open spec fn after_claim(info: StakerRewardInfo) -> StakerRewardInfo {
    StakerRewardInfo {
        index: info.index,
        pending_rewards: Decimal { atomics: (info.pending_rewards.atomics as int % fractional()) as u128 },
    }
}

/// The keys of the entries, in order.
pub open spec fn entry_keys<V>(es: Seq<(String, V)>) -> Seq<Seq<char>> {
    Seq::new(es.len(), |j: int| es[j].0@)
}

/// The payouts (token, amount) for the first `i` keys, skipping empty ones.
pub open spec fn claim_pairs(keys: Seq<Seq<char>>, m: Map<Seq<char>, StakerRewardInfo>, i: int) -> Seq<(Seq<char>, u128)>
    decreases i,
{
    if i <= 0 {
        Seq::empty()
    } else {
        let prev = claim_pairs(keys, m, i - 1);
        let a = claimable(m[keys[i - 1]]);
        if a > 0 { prev.push((keys[i - 1], a)) } else { prev }
    }
}

/// The contract's reward records after the payouts of the first `i` keys:
/// each payout is taken from the token's reward balance. `NotFound` for a
/// token the contract has no record of, `Overflow` when the balance is short.
pub open spec fn claim_state(keys: Seq<Seq<char>>, m: Map<Seq<char>, StakerRewardInfo>, g: Map<Seq<char>, ContractRewardInfo>, i: int) -> Result<Map<Seq<char>, ContractRewardInfo>, ContractError>
    decreases i,
{
    if i <= 0 {
        Ok(g)
    } else {
        match claim_state(keys, m, g, i - 1) {
            Err(e) => Err(e),
            Ok(cur) => {
                let k = keys[i - 1];
                let a = claimable(m[k]);
                if a == 0 {
                    Ok(cur)
                } else if !cur.dom().contains(k) {
                    Err(ContractError::NotFound)
                } else if cur[k].previous_reward_balance < a {
                    Err(ContractError::Overflow)
                } else {
                    Ok(cur.insert(k, ContractRewardInfo {
                        index: cur[k].index,
                        previous_reward_balance: (cur[k].previous_reward_balance - a) as u128,
                    }))
                }
            },
        }
    }
}

pub open spec fn is_asset_transfer(m: CosmosMsg, asset: Seq<char>, recipient: Seq<char>, amount: u128) -> bool {
    match m {
        CosmosMsg::TransferAsset { asset: a, recipient: to, amount: n } => a@ == asset && to@ == recipient && n == amount,
        _ => false,
    }
}

/// The messages pay out exactly the pairs, in order, to `recipient`.
pub open spec fn msgs_pay(msgs: Seq<CosmosMsg>, pairs: Seq<(Seq<char>, u128)>, recipient: Seq<char>) -> bool {
    &&& msgs.len() == pairs.len()
    &&& forall|j: int| 0 <= j < msgs.len() ==> is_asset_transfer(#[trigger] msgs[j], pairs[j].0, recipient, pairs[j].1)
}

/// Pays out the whole tokens of every reward record of the staker, in the
/// order of its records, charging each token's reward balance.
pub fn claim_pending(state: &mut StakingState, staker: &mut Staker, sender: &String) -> (r: Result<Vec<CosmosMsg>, ContractError>)
    requires
        old(state).wf(),
        old(staker).wf(),
    ensures
        ({
            let keys = entry_keys(old(staker).reward_info.entries@);
            let m = old(staker).reward_info.view();
            let n = keys.len() as int;
            match claim_state(keys, m, old(state).additional_reward_info.view(), n) {
                Err(e) => r == Err::<Vec<CosmosMsg>, ContractError>(e),
                Ok(g2) => r matches Ok(msgs) && {
                    &&& msgs_pay(msgs@, claim_pairs(keys, m, n), sender@)
                    &&& final(state).wf()
                    &&& final(state).total_share == old(state).total_share
                    &&& final(state).additional_reward_info.view() == g2
                    &&& final(staker).wf()
                    &&& final(staker).share == old(staker).share
                    &&& entry_keys(final(staker).reward_info.entries@) == keys
                    &&& final(staker).reward_info.view() == Map::new(|k: Seq<char>| m.dom().contains(k), |k: Seq<char>| after_claim(m[k]))
                },
            }
        }),
{
    let ghost keys = entry_keys(staker.reward_info.entries@);
    let ghost m = staker.reward_info.view();
    let ghost es0 = staker.reward_info.entries@;
    let ghost g0 = state.additional_reward_info.view();
    let n = staker.reward_info.entries.len();
    let mut msgs: Vec<CosmosMsg> = Vec::new();
    let mut i: usize = 0;
    while i < n
        invariant
            n == keys.len(),
            i <= n,
            state.wf(),
            staker.wf(),
            staker.share == old(staker).share,
            state.total_share == old(state).total_share,
            keys == entry_keys(es0),
            m == entries_map(es0),
            crate::kv::keys_distinct(es0),
            g0 == old(state).additional_reward_info.view(),
            keys == entry_keys(old(staker).reward_info.entries@),
            m == old(staker).reward_info.view(),
            staker.reward_info.entries@.len() == n,
            forall|j: int| 0 <= j < n ==> (#[trigger] staker.reward_info.entries@[j]).0@ == keys[j],
            forall|j: int| i <= j < n ==> #[trigger] staker.reward_info.entries@[j] == es0[j],
            claim_state(keys, m, g0, i as int) == Ok::<Map<Seq<char>, ContractRewardInfo>, ContractError>(state.additional_reward_info.view()),
            msgs_pay(msgs@, claim_pairs(keys, m, i as int), sender@),
            staker.reward_info.view() == Map::new(|k: Seq<char>| m.dom().contains(k),
                |k: Seq<char>| if crate::staking::contract::prefix_keys(es0, i as int).contains(k) { after_claim(m[k]) } else { m[k] }),
        decreases n - i,
    {
        let key = staker.reward_info.entries[i].0.clone();
        let info = staker.reward_info.entries[i].1;
        proof {
            assert(es0[i as int] == staker.reward_info.entries@[i as int]);
            assert(keys[i as int] == es0[i as int].0@);
            assert(crate::kv::has_key(es0, key@));
            let ki = crate::kv::key_index(es0, key@);
            assert(es0[ki].0@ == key@);
            assert(ki == i as int);
            assert(m[key@] == info);
            assert(!prefix_keys(es0, i as int).contains(key@)) by {
                if prefix_keys(es0, i as int).contains(key@) {
                    let j = choose|j: int| 0 <= j < i && (#[trigger] es0[j]).0@ == key@;
                    assert(es0[j].0@ != es0[i as int].0@);
                }
            }
            lemma_prefix_keys_step(es0, i as int);
        }
        let rewards: u128 = info.pending_rewards.atomics / DECIMAL_FRACTIONAL;
        let ghost before_staker = staker.reward_info.view();
        let ghost before_entries = staker.reward_info.entries@;
        if rewards != 0 {
            let cri = match state.additional_reward_info.get(&key) {
                Some(c) => c,
                None => {
                    proof {
                        assert(claim_state(keys, m, g0, i + 1) == Err::<Map<Seq<char>, ContractRewardInfo>, ContractError>(ContractError::NotFound));
                        lemma_claim_state_err_sticks(keys, m, g0, i + 1, n as int);
                    }
                    return Err(ContractError::NotFound);
                },
            };
            if cri.previous_reward_balance < rewards {
                proof {
                    lemma_claim_state_err_sticks(keys, m, g0, i + 1, n as int);
                }
                return Err(ContractError::Overflow);
            }
            let new_cri = ContractRewardInfo { index: cri.index, previous_reward_balance: cri.previous_reward_balance - rewards };
            state.additional_reward_info.insert(&key, new_cri);
            let new_info = StakerRewardInfo {
                index: info.index,
                pending_rewards: Decimal { atomics: info.pending_rewards.atomics % DECIMAL_FRACTIONAL },
            };
            staker.reward_info.insert(&key, new_info);
            let ghost before_msgs = msgs@;
            msgs.push(CosmosMsg::TransferAsset { asset: key.clone(), recipient: sender.clone(), amount: rewards });
            proof {
                assert(msgs@ == before_msgs.push(msgs@.last()));
                assert(claim_pairs(keys, m, i + 1) == claim_pairs(keys, m, i as int).push((keys[i as int], rewards)));
                assert forall|j: int| 0 <= j < msgs@.len() implies is_asset_transfer(#[trigger] msgs@[j], claim_pairs(keys, m, i + 1)[j].0, sender@, claim_pairs(keys, m, i + 1)[j].1) by {
                    if j < before_msgs.len() {
                        assert(msgs@[j] == before_msgs[j]);
                    }
                }
            }
        } else {
            proof {
                assert(info.pending_rewards.atomics as int % fractional() == info.pending_rewards.atomics);
                assert(after_claim(info) == info);
            }
        }
        proof {
            assert forall|j: int| i + 1 <= j < n implies #[trigger] staker.reward_info.entries@[j] == es0[j] by {
                assert(before_entries[j] == es0[j]);
                assert(es0[j].0@ != es0[i as int].0@);
            }
            assert forall|j: int| 0 <= j < n implies (#[trigger] staker.reward_info.entries@[j]).0@ == keys[j] by {
                assert(before_entries[j].0@ == keys[j]);
            }
            assert(staker.reward_info.view() =~= Map::new(|k: Seq<char>| m.dom().contains(k),
                |k: Seq<char>| if prefix_keys(es0, i + 1).contains(k) { after_claim(m[k]) } else { m[k] }));
        }
        i = i + 1;
    }
    proof {
        assert forall|k: Seq<char>| m.dom().contains(k) implies prefix_keys(es0, n as int).contains(k) by {
            let j = crate::kv::key_index(es0, k);
            assert(es0[j].0@ == k);
        }
        assert(staker.reward_info.view() =~= Map::new(|k: Seq<char>| m.dom().contains(k), |k: Seq<char>| after_claim(m[k])));
        assert(entry_keys(staker.reward_info.entries@) =~= keys);
    }
    Ok(msgs)
}

/// Once the payouts fail at some prefix, they fail with the same error at every longer prefix.
proof fn lemma_claim_state_err_sticks(keys: Seq<Seq<char>>, m: Map<Seq<char>, StakerRewardInfo>, g: Map<Seq<char>, ContractRewardInfo>, i: int, n: int)
    requires
        0 <= i <= n,
        claim_state(keys, m, g, i) is Err,
    ensures
        claim_state(keys, m, g, n) == claim_state(keys, m, g, i),
    decreases n - i,
{
    if i < n {
        lemma_claim_state_err_sticks(keys, m, g, i + 1, n);
    }
}

/// What `ClaimRewards` yields for a staker whose records, after accrual, are
/// `m` stored in the key order `keys`.
pub open spec fn claim_outcome(
    keys: Seq<Seq<char>>,
    m: Map<Seq<char>, StakerRewardInfo>,
    g: Map<Seq<char>, ContractRewardInfo>,
    sender: Seq<char>,
    share: u128,
    r: Result<(Staker, Vec<CosmosMsg>), ContractError>,
    final_total_share: u128,
    old_total_share: u128,
    final_g: Map<Seq<char>, ContractRewardInfo>,
) -> bool {
    let n = keys.len() as int;
    match claim_state(keys, m, g, n) {
        Err(e) => r == Err::<(Staker, Vec<CosmosMsg>), ContractError>(e),
        Ok(g2) => if claim_pairs(keys, m, n).len() == 0 {
            r == Err::<(Staker, Vec<CosmosMsg>), ContractError>(ContractError::WithdrawalIsEmpty)
        } else {
            r matches Ok((st, msgs)) && {
                &&& msgs_pay(msgs@, claim_pairs(keys, m, n), sender)
                &&& final_total_share == old_total_share
                &&& final_g == g2
                &&& st.wf()
                &&& st.share == share
                &&& entry_keys(st.reward_info.entries@) == keys
                &&& st.reward_info.view() == Map::new(|k: Seq<char>| m.dom().contains(k), |k: Seq<char>| after_claim(m[k]))
            }
        },
    }
}

/// `ClaimRewards`: accrues the staker's rewards and pays out the whole tokens
/// of each reward record (one message per token with something to pay, in the
/// ascending order of the tokens' keys); fails with `WithdrawalIsEmpty` for an
/// unknown staker or when nothing can be paid.
pub fn execute_claim_rewards(state: &mut StakingState, staker: Option<Staker>, sender: &String) -> (r: Result<(Staker, Vec<CosmosMsg>), ContractError>)
    requires
        old(state).wf(),
        staker matches Some(s) ==> s.wf(),
    ensures
        staker is None ==> r == Err::<(Staker, Vec<CosmosMsg>), ContractError>(ContractError::WithdrawalIsEmpty),
        staker matches Some(s) ==> ({
            let g = old(state).additional_reward_info.view();
            &&& !accrual_ok(g, s.reward_info.view(), s.share) ==> r == Err::<(Staker, Vec<CosmosMsg>), ContractError>(ContractError::Overflow)
            &&& accrual_ok(g, s.reward_info.view(), s.share) ==> exists|es: Seq<(String, StakerRewardInfo)>|
                crate::kv::keys_distinct(es) && crate::kv::keys_ascending(es)
                && #[trigger] entries_map(es) == spec_accrued(g, s.reward_info.view(), s.share)
                && claim_outcome(entry_keys(es), entries_map(es), g, sender@, s.share, r,
                    final(state).total_share, old(state).total_share, final(state).additional_reward_info.view())
        }),
{
    let mut staker = match staker {
        Some(s) => s,
        None => return Err(ContractError::WithdrawalIsEmpty),
    };
    match update_rewards(state, &mut staker) {
        Ok(()) => {},
        Err(e) => return Err(e),
    }
    let ghost es = staker.reward_info.entries@;
    let ghost keys = entry_keys(es);
    let ghost m = staker.reward_info.view();
    let ghost g = state.additional_reward_info.view();
    let ghost ts = state.total_share;
    let ghost sh = staker.share;
    let result = claim_pending(state, &mut staker, sender);
    let r = match result {
        Err(e) => Err(e),
        Ok(msgs) => if msgs.len() == 0 { Err(ContractError::WithdrawalIsEmpty) } else { Ok((staker, msgs)) },
    };
    proof {
        assert(entries_map(es) == m);
        assert(claim_outcome(entry_keys(es), entries_map(es), g, sender@, sh, r, state.total_share, ts, state.additional_reward_info.view()));
    }
    r
}

/// One token of `UpdateGlobalIndex`: the new reward balance `balance` raises
/// the token's index by `(balance - previous balance) / total_share`.
pub open spec fn index_step(
    m: Map<Seq<char>, ContractRewardInfo>,
    token_name: String,
    balance: u128,
    total_share: u128,
    allowed: Seq<String>,
) -> Result<Map<Seq<char>, ContractRewardInfo>, ContractError> {
    let token = token_name@;
    if !crate::kv::seq_has_string(allowed, token) {
        Err(ContractError::InvalidAsset { asset: token_name })
    } else {
        let cri = if m.dom().contains(token) {
            m[token]
        } else {
            ContractRewardInfo { index: Decimal { atomics: 0 }, previous_reward_balance: 0 }
        };
        if balance < cri.previous_reward_balance {
            Err(ContractError::Overflow)
        } else if total_share == 0 {
            Err(ContractError::DivideByZero)
        } else {
            match checked_ratio((balance - cri.previous_reward_balance) as int, fractional(), total_share as int) {
                None => Err(ContractError::Overflow),
                Some(inc) => if cri.index.atomics + inc > u128::MAX {
                    Err(ContractError::Overflow)
                } else {
                    Ok(m.insert(token, ContractRewardInfo {
                        index: Decimal { atomics: (cri.index.atomics + inc) as u128 },
                        previous_reward_balance: balance,
                    }))
                },
            }
        }
    }
}

/// `UpdateGlobalIndex` over the first `i` tokens, in order.
pub open spec fn index_fold(
    m: Map<Seq<char>, ContractRewardInfo>,
    tokens: Seq<String>,
    balances: Seq<u128>,
    total_share: u128,
    allowed: Seq<String>,
    i: int,
) -> Result<Map<Seq<char>, ContractRewardInfo>, ContractError>
    decreases i,
{
    if i <= 0 {
        Ok(m)
    } else {
        match index_fold(m, tokens, balances, total_share, allowed, i - 1) {
            Err(e) => Err(e),
            Ok(cur) => index_step(cur, tokens[i - 1], balances[i - 1], total_share, allowed),
        }
    }
}

proof fn lemma_index_fold_err_sticks(m: Map<Seq<char>, ContractRewardInfo>, tokens: Seq<String>, balances: Seq<u128>, ts: u128, allowed: Seq<String>, i: int, n: int)
    requires
        0 <= i <= n,
        index_fold(m, tokens, balances, ts, allowed, i) is Err,
    ensures
        index_fold(m, tokens, balances, ts, allowed, n) == index_fold(m, tokens, balances, ts, allowed, i),
    decreases n - i,
{
    if i < n {
        lemma_index_fold_err_sticks(m, tokens, balances, ts, allowed, i + 1, n);
    }
}

/// `UpdateGlobalIndex`: for each token of `asset_infos` (all configured reward
/// tokens for `None`), with `balances[i]` the contract's current balance of the
/// i-th token, raises the token's index by the newly arrived rewards per share.
/// Only the owner or an operator may call it.
pub fn execute_update_global_index(
    state: &mut StakingState,
    sender_is_owner_or_operator: bool,
    additional_reward_tokens: &Vec<String>,
    asset_infos: Option<Vec<String>>,
    balances: &Vec<u128>,
) -> (r: Result<(), ContractError>)
    requires
        old(state).wf(),
        balances@.len() == (match asset_infos { Some(v) => v@.len(), None => additional_reward_tokens@.len() }),
    ensures
        !sender_is_owner_or_operator ==> r == Err::<(), ContractError>(ContractError::Unauthorized),
        sender_is_owner_or_operator ==> ({
            let tokens = match asset_infos { Some(v) => v@, None => additional_reward_tokens@ };
            match index_fold(old(state).additional_reward_info.view(), tokens, balances@, old(state).total_share,
                additional_reward_tokens@, tokens.len() as int) {
                Err(e) => r == Err::<(), ContractError>(e),
                Ok(m) => r is Ok && final(state).wf() && final(state).additional_reward_info.view() == m
                    && final(state).total_share == old(state).total_share,
            }
        }),
{
    if !sender_is_owner_or_operator {
        return Err(ContractError::Unauthorized);
    }
    let ghost tk = match &asset_infos { Some(v) => v@, None => additional_reward_tokens@ };
    let tokens: Vec<String> = match asset_infos {
        Some(v) => v,
        None => additional_reward_tokens.clone(),
    };
    let ghost m0 = state.additional_reward_info.view();
    let n = tokens.len();
    let mut i: usize = 0;
    while i < n
        invariant
            sender_is_owner_or_operator,
            tokens@ == tk,
            tk == (match asset_infos { Some(v) => v@, None => additional_reward_tokens@ }),
            n == tokens@.len(),
            n == balances@.len(),
            i <= n,
            state.wf(),
            state.total_share == old(state).total_share,
            m0 == old(state).additional_reward_info.view(),
            index_fold(m0, tokens@, balances@, state.total_share, additional_reward_tokens@, i as int)
                == Ok::<Map<Seq<char>, ContractRewardInfo>, ContractError>(state.additional_reward_info.view()),
        decreases n - i,
    {
        let token = &tokens[i];
        let balance = balances[i];
        let ghost cur = state.additional_reward_info.view();
        proof {
            assert(index_fold(m0, tokens@, balances@, state.total_share, additional_reward_tokens@, i + 1)
                == index_step(cur, tokens@[i as int], balance, state.total_share, additional_reward_tokens@));
        }
        if !crate::kv::contains_string(additional_reward_tokens, token) {
            proof {
                assert(index_step(cur, tokens@[i as int], balance, state.total_share, additional_reward_tokens@) == Err::<Map<Seq<char>, ContractRewardInfo>, ContractError>(ContractError::InvalidAsset { asset: tokens@[i as int] }));
                lemma_index_fold_err_sticks(m0, tokens@, balances@, state.total_share, additional_reward_tokens@, i + 1, n as int);
                assert(index_fold(m0, tokens@, balances@, state.total_share, additional_reward_tokens@, n as int) == Err::<Map<Seq<char>, ContractRewardInfo>, ContractError>(ContractError::InvalidAsset { asset: tokens@[i as int] }));
                assert(tokens@ == tk);
                assert(tokens@.len() == n);
            }
            return Err(ContractError::InvalidAsset { asset: token.clone() });
        }
        let cri = match state.additional_reward_info.get(token) {
            Some(c) => c,
            None => ContractRewardInfo { index: Decimal::zero(), previous_reward_balance: 0 },
        };
        if balance < cri.previous_reward_balance {
            proof { lemma_index_fold_err_sticks(m0, tokens@, balances@, state.total_share, additional_reward_tokens@, i + 1, n as int); }
            return Err(ContractError::Overflow);
        }
        if state.total_share == 0 {
            proof { lemma_index_fold_err_sticks(m0, tokens@, balances@, state.total_share, additional_reward_tokens@, i + 1, n as int); }
            return Err(ContractError::DivideByZero);
        }
        let inc = match Decimal::checked_from_ratio(balance - cri.previous_reward_balance, state.total_share) {
            Some(d) => d,
            None => {
                proof { lemma_index_fold_err_sticks(m0, tokens@, balances@, state.total_share, additional_reward_tokens@, i + 1, n as int); }
                return Err(ContractError::Overflow);
            },
        };
        let new_index = match cri.index.checked_add(inc) {
            Some(d) => d,
            None => {
                proof { lemma_index_fold_err_sticks(m0, tokens@, balances@, state.total_share, additional_reward_tokens@, i + 1, n as int); }
                return Err(ContractError::Overflow);
            },
        };
        state.additional_reward_info.insert(token, ContractRewardInfo { index: new_index, previous_reward_balance: balance });
        i = i + 1;
    }
    Ok(())
}

/// Accruing adds to what is pending: the staker's record takes the global
/// index, and its pending rewards grow by the whole tokens its share earned
/// since its own index, `floor(share * (global index - own index))`, so they
/// never fall.
pub proof fn accrual_adds_to_pending(global: ContractRewardInfo, old: StakerRewardInfo, share: u128)
    ensures
        spec_accrue(global, old, share) matches Some(n) ==> {
            &&& n.index == global.index
            &&& global.index.atomics >= old.index.atomics
            &&& n.pending_rewards.atomics == old.pending_rewards.atomics
                + (share * (global.index.atomics - old.index.atomics) / fractional()) * fractional()
            &&& n.pending_rewards.atomics >= old.pending_rewards.atomics
        },
{
    if global.index.atomics >= old.index.atomics {
        let diff = global.index.atomics - old.index.atomics;
        assert(share * diff / fractional() >= 0) by (nonlinear_arith)
            requires share >= 0, diff >= 0, fractional() > 0;
        assert((share * diff / fractional()) * fractional() >= 0) by (nonlinear_arith)
            requires share * diff / fractional() >= 0, fractional() > 0;
    }
}

/// `update_rewards` adds, for every reward token of the contract, what the
/// staker's share earned since its own index to what it had pending (a token
/// it had no record of starting from nothing pending), and keeps its other
/// records as they were.
pub proof fn staker_rewards_accumulate(
    global: Map<Seq<char>, ContractRewardInfo>,
    staker: Map<Seq<char>, StakerRewardInfo>,
    share: u128,
    k: Seq<char>,
)
    requires
        accrual_ok(global, staker, share),
    ensures
        global.dom().contains(k) ==> ({
            let before = staker_info_or_default(staker, k);
            let after = spec_accrued(global, staker, share)[k];
            &&& spec_accrued(global, staker, share).dom().contains(k)
            &&& after.index == global[k].index
            &&& after.pending_rewards.atomics == before.pending_rewards.atomics
                + (share * (global[k].index.atomics - before.index.atomics) / fractional()) * fractional()
        }),
        !global.dom().contains(k) ==> (spec_accrued(global, staker, share).dom().contains(k) == staker.dom().contains(k)
            && (staker.dom().contains(k) ==> spec_accrued(global, staker, share)[k] == staker[k])),
{
    if global.dom().contains(k) {
        let before = staker_info_or_default(staker, k);
        assert(spec_accrue(global[k], before, share) is Some);
        accrual_adds_to_pending(global[k], before, share);
    }
}

/// Unstaking an amount burns shares in proportion to the pool: the amount's
/// part of the balance, taken of the total share (floored, at least one
/// share), and pays exactly the amount asked. So while the balance is at least
/// the total share, no more shares are burnt than tokens are asked for.
/// Unstaking with no amount burns the whole stake.
pub proof fn unstake_burns_shares_in_proportion(v: u128, staker_share: u128, total_share: u128, total_balance: u128)
    requires
        total_balance > 0,
    ensures
        spec_withdraw_share(Some(v), staker_share, total_share, total_balance) matches Ok(w) ==> {
            &&& w == (if v * total_share / (total_balance as int) >= 1 { v * total_share / (total_balance as int) } else { 1 })
            &&& w * total_balance <= v * total_share || w == 1
            &&& (w + 1) * total_balance > v * total_share
            &&& total_balance >= total_share ==> w <= v || w == 1
        },
        v * total_share / (total_balance as int) <= u128::MAX ==> spec_withdraw_share(Some(v), staker_share, total_share, total_balance) is Ok,
        spec_withdraw_share(None, staker_share, total_share, total_balance) == Ok::<u128, ContractError>(staker_share),
        forall|w: u128, remaining: u128| #[trigger] spec_withdraw_amount(Some(v), w, total_balance, remaining) == Ok::<u128, ContractError>(v),
{
    let q = v * total_share / (total_balance as int);
    assert(q * total_balance <= v * total_share && (q + 1) * total_balance > v * total_share) by (nonlinear_arith)
        requires q == v * total_share / (total_balance as int), total_balance > 0, v >= 0, total_share >= 0;
    if q < 1 {
        assert(q == 0) by (nonlinear_arith) requires q == v * total_share / (total_balance as int), total_balance > 0, v >= 0, total_share >= 0, q < 1;
        assert((0int + 1) * total_balance > v * total_share);
        assert((1int + 1) * total_balance > v * total_share) by (nonlinear_arith)
            requires (0int + 1) * total_balance > v * total_share, total_balance > 0;
    }
    if total_balance >= total_share {
        assert(q <= v) by (nonlinear_arith)
            requires q == v * total_share / (total_balance as int), total_balance > 0, v >= 0, total_share >= 0, total_balance >= total_share;
    }
}

/// A claim pays out the whole tokens pending and keeps only the fraction
/// below one token: what is paid, in tokens, plus what stays pending is
/// exactly what was pending, and the record's index is unchanged.
pub proof fn claim_splits_pending(info: StakerRewardInfo)
    ensures
        claimable(info) as int * fractional() + after_claim(info).pending_rewards.atomics == info.pending_rewards.atomics,
        after_claim(info).pending_rewards.atomics < fractional(),
        after_claim(info).index == info.index,
{
    let p = info.pending_rewards.atomics as int;
    assert(p == (p / fractional()) * fractional() + p % fractional() && 0 <= p % fractional() < fractional()
        && p / fractional() <= p) by (nonlinear_arith)
        requires p >= 0, fractional() > 0;
}

} // verus!
