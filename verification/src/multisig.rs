//! A fixed multisig: members propose messages, vote with their weight, and a
//! proposal that passes its threshold may be executed by anyone; an expired
//! one that did not pass may be closed. Whether an open proposal has passed or
//! failed is decided by cw3's `Proposal::current_status`.
use vstd::prelude::*;
use crate::common::{attr, attrs_are, decimal, decimal_string, Attribute, BlockInfo, ContractError, CosmosMsg, Expiration};
use crate::ics721::{spec_plus_seconds, plus_seconds};
use crate::math::{Decimal, DECIMAL_FRACTIONAL};
use cosmwasm_std::{Addr, BlockInfo as CwBlock, Decimal as CwDecimal, Timestamp};
use cw3::{Proposal as CwProposal, Status as CwStatus, Votes as CwVotes};
use cw_utils::{Expiration as CwExpiration, Threshold as CwThreshold};

verus! {

/// What passes a proposal.
#[derive(Clone, Copy, Debug, PartialEq, Eq, Structural)]
pub enum Threshold {
    /// This much yes weight.
    AbsoluteCount { weight: u64 },
    /// This share of the weight that did not abstain.
    AbsolutePercentage { percentage: Decimal },
    /// This share of the votes, once a quorum of the total weight voted.
    ThresholdQuorum { threshold: Decimal, quorum: Decimal },
}

/// The weight cast for each option.
#[derive(Clone, Copy, Debug, PartialEq, Eq, Structural)]
pub struct Votes {
    pub yes: u64,
    pub no: u64,
    pub abstain: u64,
    pub veto: u64,
}

/// A vote.
#[derive(Clone, Copy, Debug, PartialEq, Eq, Structural)]
pub enum Vote {
    Yes,
    No,
    Abstain,
    Veto,
}

/// Where a proposal stands.
#[derive(Clone, Copy, Debug, PartialEq, Eq, Structural)]
pub enum ProposalStatus {
    Pending,
    Open,
    Rejected,
    Passed,
    Executed,
}

/// A length of voting: in blocks or in seconds.
#[derive(Clone, Copy, Debug, PartialEq, Eq, Structural)]
pub enum Duration {
    Height(u64),
    Time(u64),
}

/// The multisig's settings.
#[derive(Clone, Copy, Debug, PartialEq, Eq, Structural)]
pub struct MultisigConfig {
    pub threshold: Threshold,
    /// The weight of all members together.
    pub total_weight: u64,
    pub max_voting_period: Duration,
}

/// A proposal.
#[derive(Debug)]
pub struct Proposal {
    pub title: String,
    pub description: String,
    pub start_height: u64,
    pub expires: Expiration,
    pub msgs: Vec<CosmosMsg>,
    pub status: ProposalStatus,
    pub threshold: Threshold,
    pub total_weight: u64,
    pub votes: Votes,
    pub proposer: String,
}

/// A member's recorded vote.
#[derive(Clone, Copy, Debug, PartialEq, Eq, Structural)]
pub struct Ballot {
    pub weight: u64,
    pub vote: Vote,
}

/// All the weight voted.
pub open spec fn votes_total(v: Votes) -> int {
    v.yes + v.no + v.abstain + v.veto
}

/// A threshold that can be reached and whose shares are at most one: the
/// thresholds the multisig is set up with.
pub open spec fn threshold_wf(t: Threshold, total_weight: u64) -> bool {
    match t {
        Threshold::AbsoluteCount { weight } => weight <= total_weight,
        Threshold::AbsolutePercentage { percentage } => percentage.atomics <= DECIMAL_FRACTIONAL,
        Threshold::ThresholdQuorum { threshold, quorum } => threshold.atomics <= DECIMAL_FRACTIONAL && quorum.atomics <= DECIMAL_FRACTIONAL,
    }
}

/// The weight that makes up share `p` of `weight`, rounded up at a billionth
/// of a vote as cw3's `votes_needed` computes it: `p * (10^9 * weight)`
/// floored, then divided by `10^9` rounding up.
/// A share is given by its atomics, in units of `10^-18`.
pub open spec fn votes_needed(weight: int, share: int) -> int {
    ((1_000_000_000 * weight * share) / (DECIMAL_FRACTIONAL as int) + 1_000_000_000 - 1) / 1_000_000_000
}

/// The atomics of the share one minus `p`.
pub open spec fn complement(p: Decimal) -> int {
    DECIMAL_FRACTIONAL - p.atomics
}

/// Whether cw3's `Proposal::is_passed` holds of a proposal with this
/// threshold, total weight and votes, expired or not: enough yes votes for an
/// absolute count; for a percentage, enough of the weight that did not
/// abstain; for a threshold with a quorum, the quorum of all weight must have
/// voted, and then enough yes votes among the votes cast (once expired) or
/// among all weight that did not abstain (before).
pub open spec fn cw3_is_passed(threshold: Threshold, total_weight: u64, votes: Votes, expired: bool) -> bool {
    match threshold {
        Threshold::AbsoluteCount { weight } => votes.yes >= weight,
        Threshold::AbsolutePercentage { percentage } => votes.yes >= votes_needed(total_weight - votes.abstain, percentage.atomics as int),
        Threshold::ThresholdQuorum { threshold, quorum } => {
            if votes_total(votes) < votes_needed(total_weight as int, quorum.atomics as int) {
                false
            } else if expired {
                votes.yes >= votes_needed(votes_total(votes) - votes.abstain, threshold.atomics as int)
            } else {
                votes.yes >= votes_needed(total_weight - votes.abstain, threshold.atomics as int)
            }
        },
    }
}

/// Whether cw3's `Proposal::is_rejected` holds of a proposal with this
/// threshold, total weight and votes, expired or not: more no votes than can
/// be spared for an absolute count; for a percentage, more than the share
/// that may vote no of the weight that did not abstain; for a threshold, the
/// same over the votes cast (once expired) or over all weight that did not
/// abstain (before).
pub open spec fn cw3_is_rejected(threshold: Threshold, total_weight: u64, votes: Votes, expired: bool) -> bool {
    match threshold {
        Threshold::AbsoluteCount { weight } => votes.no > total_weight - weight,
        Threshold::AbsolutePercentage { percentage } =>
            votes.no > votes_needed(total_weight - votes.abstain, complement(percentage)),
        Threshold::ThresholdQuorum { threshold, .. } => if expired {
            votes.no > votes_needed(votes_total(votes) - votes.abstain, complement(threshold))
        } else {
            votes.no > votes_needed(total_weight - votes.abstain, complement(threshold))
        },
    }
}

/// `cw3::Proposal::is_passed`: whether the proposal is sure to pass, as
/// `cw3_is_passed` states it. It reads the expiration only through whether it
/// has passed, which `expired` gives. `requires` keeps out what makes the cw3 code
/// panic: votes above the total weight, an unreachable count, a share above one.
#[verifier::external_body]
fn is_passed(threshold: Threshold, total_weight: u64, votes: Votes, expired: bool) -> (r: bool)
    requires
        votes_total(votes) <= total_weight,
        threshold_wf(threshold, total_weight),
    ensures
        r == cw3_is_passed(threshold, total_weight, votes, expired),
{
    let threshold = match threshold {
        Threshold::AbsoluteCount { weight } => CwThreshold::AbsoluteCount { weight },
        Threshold::AbsolutePercentage { percentage } => CwThreshold::AbsolutePercentage { percentage: CwDecimal::raw(percentage.atomics) },
        Threshold::ThresholdQuorum { threshold, quorum } => CwThreshold::ThresholdQuorum { threshold: CwDecimal::raw(threshold.atomics), quorum: CwDecimal::raw(quorum.atomics) },
    };
    CwProposal { title: String::new(), description: String::new(), start_height: 0, expires: CwExpiration::AtHeight(1), msgs: vec![], status: CwStatus::Open, threshold, total_weight,
        votes: CwVotes { yes: votes.yes, no: votes.no, abstain: votes.abstain, veto: votes.veto }, proposer: Addr::unchecked(""), deposit: None }
        .is_passed(&CwBlock { height: expired as u64, time: Timestamp::from_nanos(0), chain_id: String::new() })
}

/// `cw3::Proposal::is_rejected`: whether the proposal is sure to be rejected.
/// It reads the expiration only through whether it has passed, which
/// `expired` gives; the contract states the result as `cw3_is_rejected` does. `requires` keeps out what
/// makes the cw3 code panic, as for `is_passed`.
#[verifier::external_body]
fn is_rejected(threshold: Threshold, total_weight: u64, votes: Votes, expired: bool) -> (r: bool)
    requires
        votes_total(votes) <= total_weight,
        threshold_wf(threshold, total_weight),
    ensures
        r == cw3_is_rejected(threshold, total_weight, votes, expired),
{
    let threshold = match threshold {
        Threshold::AbsoluteCount { weight } => CwThreshold::AbsoluteCount { weight },
        Threshold::AbsolutePercentage { percentage } => CwThreshold::AbsolutePercentage { percentage: CwDecimal::raw(percentage.atomics) },
        Threshold::ThresholdQuorum { threshold, quorum } => CwThreshold::ThresholdQuorum { threshold: CwDecimal::raw(threshold.atomics), quorum: CwDecimal::raw(quorum.atomics) },
    };
    CwProposal { title: String::new(), description: String::new(), start_height: 0, expires: CwExpiration::AtHeight(1), msgs: vec![], status: CwStatus::Open, threshold, total_weight,
        votes: CwVotes { yes: votes.yes, no: votes.no, abstain: votes.abstain, veto: votes.veto }, proposer: Addr::unchecked(""), deposit: None }
        .is_rejected(&CwBlock { height: expired as u64, time: Timestamp::from_nanos(0), chain_id: String::new() })
}

/// The status of a proposal with status `status` given whether it is sure to
/// pass, whether it is sure to be rejected and whether it has expired: an open
/// proposal that is sure to pass has passed; one that is sure to be rejected,
/// or has expired, is rejected; any other status stays.
pub open spec fn spec_status_from(status: ProposalStatus, passed: bool, rejected: bool, expired: bool) -> ProposalStatus {
    if status != ProposalStatus::Open {
        status
    } else if passed {
        ProposalStatus::Passed
    } else if rejected || expired {
        ProposalStatus::Rejected
    } else {
        ProposalStatus::Open
    }
}

/// The decision of `Proposal::current_status` once the cw3 answers are in.
pub fn status_from(status: ProposalStatus, passed: bool, rejected: bool, expired: bool) -> (r: ProposalStatus)
    ensures
        r == spec_status_from(status, passed, rejected, expired),
{
    if status != ProposalStatus::Open {
        status
    } else if passed {
        ProposalStatus::Passed
    } else if rejected || expired {
        ProposalStatus::Rejected
    } else {
        ProposalStatus::Open
    }
}

/// `Proposal::current_status`: the status given by `spec_status_from` with
/// cw3's answers for the proposal's votes.
pub open spec fn spec_current_status(status: ProposalStatus, threshold: Threshold, total_weight: u64, votes: Votes, expires: Expiration, block: BlockInfo) -> ProposalStatus {
    let expired = expires.spec_is_expired(block);
    spec_status_from(status, cw3_is_passed(threshold, total_weight, votes, expired),
        cw3_is_rejected(threshold, total_weight, votes, expired), expired)
}

fn current_status(status: ProposalStatus, threshold: Threshold, total_weight: u64, votes: Votes, expires: &Expiration, block: &BlockInfo) -> (r: ProposalStatus)
    requires
        votes_total(votes) <= total_weight,
        threshold_wf(threshold, total_weight),
    ensures
        r == spec_current_status(status, threshold, total_weight, votes, *expires, *block),
{
    let expired = expires.is_expired(block);
    if status != ProposalStatus::Open {
        return status;
    }
    let passed = is_passed(threshold, total_weight, votes, expired);
    let rejected = if passed { false } else { is_rejected(threshold, total_weight, votes, expired) };
    status_from(status, passed, rejected, expired)
}

/// `Duration::after`: the expiration a duration after `block`; `None` where it overflows.
pub open spec fn spec_after(d: Duration, block: BlockInfo) -> Option<Expiration> {
    match d {
        Duration::Height(h) => if block.height + h > u64::MAX { None } else { Some(Expiration::AtHeight((block.height + h) as u64)) },
        Duration::Time(t) => match spec_plus_seconds(block.time_nanos, t) {
            None => None,
            Some(x) => Some(Expiration::AtTime(x)),
        },
    }
}

fn after(d: Duration, block: &BlockInfo) -> (r: Option<Expiration>)
    ensures
        r == spec_after(d, *block),
{
    match d {
        Duration::Height(h) => match block.height.checked_add(h) {
            None => None,
            Some(x) => Some(Expiration::AtHeight(x)),
        },
        Duration::Time(t) => match plus_seconds(block.time_nanos, t) {
            None => None,
            Some(x) => Some(Expiration::AtTime(x)),
        },
    }
}

/// How two expirations compare, as `Expiration::partial_cmp` orders them:
/// `-1`, `0`, `1`, or `None` for heights against times.
pub open spec fn spec_expiration_order(a: Expiration, b: Expiration) -> Option<int> {
    match (a, b) {
        (Expiration::AtHeight(x), Expiration::AtHeight(y)) => Some(if x < y { -1 } else if x == y { 0 } else { 1 }),
        (Expiration::AtTime(x), Expiration::AtTime(y)) => Some(if x < y { -1 } else if x == y { 0 } else { 1 }),
        (Expiration::Never, Expiration::Never) => Some(0),
        (Expiration::Never, _) => Some(1),
        (_, Expiration::Never) => Some(-1),
        _ => None,
    }
}

fn expiration_order(a: &Expiration, b: &Expiration) -> (r: Option<i8>)
    ensures
        match spec_expiration_order(*a, *b) {
            None => r is None,
            Some(o) => r == Some(o as i8),
        },
{
    match (a, b) {
        (Expiration::AtHeight(x), Expiration::AtHeight(y)) => Some(if *x < *y { -1 } else if *x == *y { 0 } else { 1 }),
        (Expiration::AtTime(x), Expiration::AtTime(y)) => Some(if *x < *y { -1 } else if *x == *y { 0 } else { 1 }),
        (Expiration::Never, Expiration::Never) => Some(0),
        (Expiration::Never, _) => Some(1),
        (_, Expiration::Never) => Some(-1),
        _ => None,
    }
}

/// The expiration of a new proposal: the one asked for, but no later than
/// the longest voting period allows; `None` for an overflowing period,
/// `Some(None)` for an expiration that cannot be compared with it.
pub open spec fn spec_proposal_expiry(latest: Option<Expiration>, period: Duration, block: BlockInfo) -> Option<Option<Expiration>> {
    match spec_after(period, block) {
        None => None,
        Some(max) => {
            let e = match latest { Some(l) => l, None => max };
            match spec_expiration_order(e, max) {
                None => Some(None),
                Some(o) => Some(Some(if o > 0 { max } else { e })),
            }
        },
    }
}

/// Whether `e` is a custom error with message `msg`.
pub open spec fn is_custom_error(e: ContractError, msg: Seq<char>) -> bool {
    e matches ContractError::CustomError { msg: m } && m@ == msg
}

/// The text of a status, as its `Debug` writes it.
pub open spec fn status_text(s: ProposalStatus) -> Seq<char> {
    match s {
        ProposalStatus::Pending => "Pending"@,
        ProposalStatus::Open => "Open"@,
        ProposalStatus::Rejected => "Rejected"@,
        ProposalStatus::Passed => "Passed"@,
        ProposalStatus::Executed => "Executed"@,
    }
}

/// The text of a status.
pub fn status_string(s: ProposalStatus) -> (r: String)
    ensures
        r@ == status_text(s),
{
    match s {
        ProposalStatus::Pending => "Pending".to_owned(),
        ProposalStatus::Open => "Open".to_owned(),
        ProposalStatus::Rejected => "Rejected".to_owned(),
        ProposalStatus::Passed => "Passed".to_owned(),
        ProposalStatus::Executed => "Executed".to_owned(),
    }
}

/// The attributes of a proposal or a vote: the action, the sender, the
/// proposal's id and its status afterwards.
pub open spec fn ballot_attrs(action: Seq<char>, sender: Seq<char>, proposal_id: u64, status: ProposalStatus) -> Seq<(Seq<char>, Seq<char>)> {
    seq![("action"@, action), ("sender"@, sender), ("proposal_id"@, decimal(proposal_id as nat)), ("status"@, status_text(status))]
}

/// `execute_propose`: a member (`voter_power` is their weight, `None` for a
/// non-member) proposes `msgs`, voting yes with their weight; the store gives
/// it the id `proposal_id`. Gives the proposal, the proposer's ballot and the
/// response's attributes.
pub fn execute_propose(
    voter_power: Option<u64>,
    config: &MultisigConfig,
    block: &BlockInfo,
    sender: &String,
    title: String,
    description: String,
    msgs: Vec<CosmosMsg>,
    latest: Option<Expiration>,
    proposal_id: u64,
) -> (r: Result<(Proposal, Ballot, Vec<Attribute>), ContractError>)
    requires
        threshold_wf(config.threshold, config.total_weight),
        voter_power matches Some(p) ==> p <= config.total_weight,
    ensures
        voter_power is None ==> r == Err::<(Proposal, Ballot, Vec<Attribute>), ContractError>(ContractError::Unauthorized),
        voter_power matches Some(power) ==> match spec_proposal_expiry(latest, config.max_voting_period, *block) {
            None => r == Err::<(Proposal, Ballot, Vec<Attribute>), ContractError>(ContractError::Overflow),
            Some(None) => r matches Err(e) && is_custom_error(e, "Wrong expiration"@),
            Some(Some(expires)) => r matches Ok((p, b, attrs)) && {
                let votes = Votes { yes: power, no: 0, abstain: 0, veto: 0 };
                &&& p.title == title && p.description == description && p.msgs == msgs
                &&& p.start_height == block.height
                &&& p.expires == expires
                &&& p.threshold == config.threshold && p.total_weight == config.total_weight
                &&& p.votes == votes
                &&& p.proposer@ == sender@
                &&& p.status == spec_current_status(ProposalStatus::Open, config.threshold, config.total_weight, votes, expires, *block)
                &&& b == Ballot { weight: power, vote: Vote::Yes }
                &&& attrs_are(attrs@, ballot_attrs("propose"@, sender@, proposal_id, p.status))
            },
        },
{
    let power = match voter_power {
        None => return Err(ContractError::Unauthorized),
        Some(p) => p,
    };
    let max_expires = match after(config.max_voting_period, block) {
        None => return Err(ContractError::Overflow),
        Some(m) => m,
    };
    let mut expires = match latest {
        Some(l) => l,
        None => max_expires,
    };
    match expiration_order(&expires, &max_expires) {
        None => return Err(ContractError::CustomError { msg: "Wrong expiration".to_owned() }),
        Some(o) => if o > 0 {
            expires = max_expires;
        },
    }
    let votes = Votes { yes: power, no: 0, abstain: 0, veto: 0 };
    let status = current_status(ProposalStatus::Open, config.threshold, config.total_weight, votes, &expires, block);
    let prop = Proposal {
        title,
        description,
        start_height: block.height,
        expires,
        msgs,
        status,
        threshold: config.threshold,
        total_weight: config.total_weight,
        votes,
        proposer: sender.clone(),
    };
    let attrs = vec![
        attr("action", "propose".to_owned()),
        attr("sender", sender.clone()),
        attr("proposal_id", decimal_string(proposal_id as u128)),
        attr("status", status_string(status)),
    ];
    Ok((prop, Ballot { weight: power, vote: Vote::Yes }, attrs))
}

/// `Votes::add_vote`: `weight` more for `vote`; `None` where a count overflows.
pub open spec fn spec_add_vote(v: Votes, vote: Vote, weight: u64) -> Option<Votes> {
    match vote {
        Vote::Yes => if v.yes + weight > u64::MAX { None } else { Some(Votes { yes: (v.yes + weight) as u64, ..v }) },
        Vote::No => if v.no + weight > u64::MAX { None } else { Some(Votes { no: (v.no + weight) as u64, ..v }) },
        Vote::Abstain => if v.abstain + weight > u64::MAX { None } else { Some(Votes { abstain: (v.abstain + weight) as u64, ..v }) },
        Vote::Veto => if v.veto + weight > u64::MAX { None } else { Some(Votes { veto: (v.veto + weight) as u64, ..v }) },
    }
}

/// `Votes::add_vote`: `weight` more for `vote`; `None` where a count overflows.
pub fn add_vote(v: Votes, vote: Vote, weight: u64) -> (r: Option<Votes>)
    ensures
        r == spec_add_vote(v, vote, weight),
        r matches Some(n) ==> votes_total(n) == votes_total(v) + weight,
{
    match vote {
        Vote::Yes => match v.yes.checked_add(weight) { None => None, Some(x) => Some(Votes { yes: x, ..v }) },
        Vote::No => match v.no.checked_add(weight) { None => None, Some(x) => Some(Votes { no: x, ..v }) },
        Vote::Abstain => match v.abstain.checked_add(weight) { None => None, Some(x) => Some(Votes { abstain: x, ..v }) },
        Vote::Veto => match v.veto.checked_add(weight) { None => None, Some(x) => Some(Votes { veto: x, ..v }) },
    }
}

/// `execute_vote`: a member with weight casts their one vote on a proposal
/// that is open, passed or rejected and has not expired. `already_voted`
/// tells whether they voted on it before. Gives the proposal with the vote
/// counted and its status brought up to date, and the ballot.
pub fn execute_vote(
    voter_power: Option<u64>,
    proposal: Option<Proposal>,
    already_voted: bool,
    vote: Vote,
    block: &BlockInfo,
    sender: &String,
    proposal_id: u64,
) -> (r: Result<(Proposal, Ballot, Vec<Attribute>), ContractError>)
    requires
        match (proposal, voter_power) {
            (Some(p), Some(w)) => !already_voted ==> votes_total(p.votes) + w <= p.total_weight && threshold_wf(p.threshold, p.total_weight),
            _ => true,
        },
    ensures
        !(voter_power matches Some(w) && w >= 1) ==> r == Err::<(Proposal, Ballot, Vec<Attribute>), ContractError>(ContractError::Unauthorized),
        match voter_power { None => true, Some(w) => w >= 1 ==> match proposal {
            None => r == Err::<(Proposal, Ballot, Vec<Attribute>), ContractError>(ContractError::NotFound),
            Some(p) => if !(p.status == ProposalStatus::Open || p.status == ProposalStatus::Passed || p.status == ProposalStatus::Rejected) {
                r matches Err(e) && is_custom_error(e, "Not open"@)
            } else if p.expires.spec_is_expired(*block) {
                r == Err::<(Proposal, Ballot, Vec<Attribute>), ContractError>(ContractError::Expired)
            } else if already_voted {
                r matches Err(e) && is_custom_error(e, "Already voted"@)
            } else {
                r matches Ok((p2, b, attrs)) && {
                    let votes = spec_add_vote(p.votes, vote, w)->0;
                    &&& p2.votes == votes
                    &&& p2.status == spec_current_status(p.status, p.threshold, p.total_weight, votes, p.expires, *block)
                    &&& p2.title == p.title && p2.description == p.description && p2.msgs == p.msgs
                    &&& p2.start_height == p.start_height && p2.expires == p.expires && p2.threshold == p.threshold
                    &&& p2.total_weight == p.total_weight && p2.proposer == p.proposer
                    &&& b == Ballot { weight: w, vote }
                    &&& attrs_are(attrs@, ballot_attrs("vote"@, sender@, proposal_id, p2.status))
                }
            },
        } },
{
    let power = match voter_power {
        Some(w) => if w >= 1 {
            w
        } else {
            return Err(ContractError::Unauthorized);
        },
        None => return Err(ContractError::Unauthorized),
    };
    let mut p = match proposal {
        None => return Err(ContractError::NotFound),
        Some(p) => p,
    };
    if !(p.status == ProposalStatus::Open || p.status == ProposalStatus::Passed || p.status == ProposalStatus::Rejected) {
        return Err(ContractError::CustomError { msg: "Not open".to_owned() });
    }
    if p.expires.is_expired(block) {
        return Err(ContractError::Expired);
    }
    if already_voted {
        return Err(ContractError::CustomError { msg: "Already voted".to_owned() });
    }
    let votes = match add_vote(p.votes, vote, power) {
        Some(v) => v,
        None => return Err(ContractError::Overflow),
    };
    p.votes = votes;
    p.status = current_status(p.status, p.threshold, p.total_weight, votes, &p.expires, block);
    let attrs = vec![
        attr("action", "vote".to_owned()),
        attr("sender", sender.clone()),
        attr("proposal_id", decimal_string(proposal_id as u128)),
        attr("status", status_string(p.status)),
    ];
    Ok((p, Ballot { weight: power, vote }, attrs))
}

/// The attributes of an executed or closed proposal: the action, the sender
/// and the proposal's id.
pub open spec fn response_attrs(action: Seq<char>, sender: Seq<char>, proposal_id: u64) -> Seq<(Seq<char>, Seq<char>)> {
    seq![("action"@, action), ("sender"@, sender), ("proposal_id"@, decimal(proposal_id as nat))]
}

/// `execute_execute`: anyone executes a proposal whose status, brought up to
/// date, is passed; it becomes executed, and its messages are then sent.
pub fn execute_execute(proposal: Option<Proposal>, block: &BlockInfo, sender: &String, proposal_id: u64) -> (r: Result<(Proposal, Vec<Attribute>), ContractError>)
    requires
        proposal matches Some(p) ==> votes_total(p.votes) <= p.total_weight && threshold_wf(p.threshold, p.total_weight),
    ensures
        match proposal {
            None => r == Err::<(Proposal, Vec<Attribute>), ContractError>(ContractError::NotFound),
            Some(p) => if spec_current_status(p.status, p.threshold, p.total_weight, p.votes, p.expires, *block) != ProposalStatus::Passed {
                r matches Err(e) && is_custom_error(e, "Wrong execute status"@)
            } else {
                r matches Ok((p2, attrs)) && attrs_are(attrs@, response_attrs("execute"@, sender@, proposal_id)) && p2 == Proposal { status: ProposalStatus::Executed, ..p }
            },
        },
{
    let mut p = match proposal {
        None => return Err(ContractError::NotFound),
        Some(p) => p,
    };
    let status = current_status(p.status, p.threshold, p.total_weight, p.votes, &p.expires, block);
    if status != ProposalStatus::Passed {
        return Err(ContractError::CustomError { msg: "Wrong execute status".to_owned() });
    }
    p.status = ProposalStatus::Executed;
    let attrs = vec![attr("action", "execute".to_owned()), attr("sender", sender.clone()), attr("proposal_id", decimal_string(proposal_id as u128))];
    Ok((p, attrs))
}

/// `execute_close`: anyone closes an expired proposal that did not pass; it
/// becomes rejected.
pub fn execute_close(proposal: Option<Proposal>, block: &BlockInfo, sender: &String, proposal_id: u64) -> (r: Result<(Proposal, Vec<Attribute>), ContractError>)
    requires
        proposal matches Some(p) ==> votes_total(p.votes) <= p.total_weight && threshold_wf(p.threshold, p.total_weight),
    ensures
        match proposal {
            None => r == Err::<(Proposal, Vec<Attribute>), ContractError>(ContractError::NotFound),
            Some(p) => if p.status == ProposalStatus::Executed || p.status == ProposalStatus::Rejected || p.status == ProposalStatus::Passed
                || spec_current_status(p.status, p.threshold, p.total_weight, p.votes, p.expires, *block) == ProposalStatus::Passed {
                r matches Err(e) && is_custom_error(e, "Wrong close status"@)
            } else if !p.expires.spec_is_expired(*block) {
                r matches Err(e) && is_custom_error(e, "Not expired"@)
            } else {
                r matches Ok((p2, attrs)) && attrs_are(attrs@, response_attrs("close"@, sender@, proposal_id)) && p2 == Proposal { status: ProposalStatus::Rejected, ..p }
            },
        },
{
    let mut p = match proposal {
        None => return Err(ContractError::NotFound),
        Some(p) => p,
    };
    if p.status == ProposalStatus::Executed || p.status == ProposalStatus::Rejected || p.status == ProposalStatus::Passed {
        return Err(ContractError::CustomError { msg: "Wrong close status".to_owned() });
    }
    if current_status(p.status, p.threshold, p.total_weight, p.votes, &p.expires, block) == ProposalStatus::Passed {
        return Err(ContractError::CustomError { msg: "Wrong close status".to_owned() });
    }
    if !p.expires.is_expired(block) {
        return Err(ContractError::CustomError { msg: "Not expired".to_owned() });
    }
    p.status = ProposalStatus::Rejected;
    let attrs = vec![attr("action", "close".to_owned()), attr("sender", sender.clone()), attr("proposal_id", decimal_string(proposal_id as u128))];
    Ok((p, attrs))
}

/// A proposal runs at most once: once executed (or closed as rejected) its
/// status stays, so executing it again fails.
pub proof fn settled_proposal_stays(status: ProposalStatus, threshold: Threshold, total_weight: u64, votes: Votes, expires: Expiration, block: BlockInfo)
    requires
        status == ProposalStatus::Executed || status == ProposalStatus::Rejected || status == ProposalStatus::Passed,
    ensures
        spec_current_status(status, threshold, total_weight, votes, expires, block) == status,
        status != ProposalStatus::Passed ==> spec_current_status(status, threshold, total_weight, votes, expires, block) != ProposalStatus::Passed,
{
}

/// The count a tally keeps for one option.
pub open spec fn tally_of(v: Votes, option: Vote) -> u64 {
    match option {
        Vote::Yes => v.yes,
        Vote::No => v.no,
        Vote::Abstain => v.abstain,
        Vote::Veto => v.veto,
    }
}

/// A vote counts for the option voted and for no other: that option's count
/// grows by the voter's weight, every other count stays; it fails exactly when
/// that one count would overflow.
pub proof fn vote_counts_for_its_option(v: Votes, vote: Vote, weight: u64)
    ensures
        spec_add_vote(v, vote, weight) is None <==> tally_of(v, vote) + weight > u64::MAX,
        spec_add_vote(v, vote, weight) matches Some(n) ==> {
            &&& tally_of(n, vote) == tally_of(v, vote) + weight
            &&& forall|other: Vote| other != vote ==> #[trigger] tally_of(n, other) == tally_of(v, other)
        },
{
}

/// Adding a vote adds its weight to the votes cast.
pub proof fn vote_adds_weight(v: Votes, vote: Vote, weight: u64)
    requires
        spec_add_vote(v, vote, weight) is Some,
    ensures
        votes_total(spec_add_vote(v, vote, weight)->0) == votes_total(v) + weight,
{
}

} // verus!
