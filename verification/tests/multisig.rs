use andromeda::common::{BlockInfo, Coin, ContractError, CosmosMsg, Expiration};
use andromeda::math::Decimal;
use andromeda::multisig::{
    add_vote, execute_close, execute_execute, execute_propose, execute_vote, Ballot, Duration, MultisigConfig,
    Proposal, ProposalStatus, Threshold, Vote, Votes,
};

const OWNER: &str = "admin0001";
const VOTER1: &str = "voter0001";
const VOTER2: &str = "voter0002";
const VOTER3: &str = "voter0003";
const VOTER4: &str = "voter0004";
const VOTER5: &str = "voter0005";
const VOTER6: &str = "voter0006";
const NOWEIGHT_VOTER: &str = "voterxxxx";
const SOMEBODY: &str = "somebody";

fn mock_block() -> BlockInfo {
    BlockInfo { height: 12_345, time_nanos: 1_571_797_419_879_305_533 }
}

fn block_time(delta_seconds: u64) -> BlockInfo {
    let b = mock_block();
    BlockInfo { height: b.height, time_nanos: b.time_nanos + delta_seconds * 1_000_000_000 }
}

fn block_height(delta: u64) -> BlockInfo {
    let b = mock_block();
    BlockInfo { height: b.height + delta, time_nanos: b.time_nanos }
}

/// The voters of the test case and their weights.
fn weight_of(addr: &str) -> Option<u64> {
    match addr {
        OWNER => Some(1),
        VOTER1 => Some(1),
        VOTER2 => Some(2),
        VOTER3 => Some(3),
        VOTER4 => Some(4),
        VOTER5 => Some(5),
        VOTER6 => Some(1),
        NOWEIGHT_VOTER => Some(0),
        _ => None,
    }
}

const TOTAL_WEIGHT: u64 = 17;

fn config(threshold: Threshold, max_voting_period: Duration) -> MultisigConfig {
    MultisigConfig { threshold, total_weight: TOTAL_WEIGHT, max_voting_period }
}

fn pay_somebody() -> Vec<CosmosMsg> {
    vec![CosmosMsg::BankSend { to_address: SOMEBODY.to_string(), amount: vec![Coin { denom: "BTC".to_string(), amount: 1 }] }]
}

fn propose(
    config: &MultisigConfig,
    sender: &str,
    latest: Option<Expiration>,
) -> Result<(Proposal, Ballot), ContractError> {
    execute_propose(
        weight_of(sender),
        config,
        &mock_block(),
        &sender.to_string(),
        "Pay somebody".to_string(),
        "Do I pay her?".to_string(),
        pay_somebody(),
        latest,
        1,
    )
    .map(|(p, b, _)| (p, b))
}

/// A proposal and the voters who voted on it.
struct Open {
    proposal: Proposal,
    voted: Vec<String>,
}

impl Open {
    fn new(config: &MultisigConfig, proposer: &str, latest: Option<Expiration>) -> Open {
        let (proposal, _) = propose(config, proposer, latest).unwrap();
        Open { proposal, voted: vec![proposer.to_string()] }
    }

    fn vote(self, voter: &str, vote: Vote, block: &BlockInfo) -> (Open, Option<ContractError>) {
        let already = self.voted.iter().any(|v| v == voter);
        let Open { proposal, mut voted } = self;
        let copy = clone_proposal(&proposal);
        match execute_vote(weight_of(voter), Some(proposal), already, vote, block, &voter.to_string(), 1) {
            Ok((p, _, _)) => {
                voted.push(voter.to_string());
                (Open { proposal: p, voted }, None)
            },
            Err(e) => (Open { proposal: copy, voted }, Some(e)),
        }
    }
}

fn clone_proposal(p: &Proposal) -> Proposal {
    Proposal {
        title: p.title.clone(),
        description: p.description.clone(),
        start_height: p.start_height,
        expires: p.expires,
        msgs: p.msgs.clone(),
        status: p.status,
        threshold: p.threshold,
        total_weight: p.total_weight,
        votes: p.votes,
        proposer: p.proposer.clone(),
    }
}

fn custom(msg: &str) -> ContractError {
    ContractError::CustomError { msg: msg.to_string() }
}

fn percent(p: u128) -> Decimal {
    Decimal { atomics: p * 10_000_000_000_000_000 }
}

#[test]
fn zero_weight_member_cant_vote() {
    let config = config(Threshold::AbsoluteCount { weight: 4 }, Duration::Time(2_000_000));
    // A voter without voting power can still create a proposal
    let t = Open::new(&config, NOWEIGHT_VOTER, None);
    let (_, err) = Open { proposal: t.proposal, voted: vec![] }.vote(NOWEIGHT_VOTER, Vote::No, &mock_block());
    assert_eq!(err, Some(ContractError::Unauthorized));
}

#[test]
fn test_propose_works() {
    let config = config(Threshold::AbsoluteCount { weight: 4 }, Duration::Time(2_000_000));
    // Only voters can propose
    assert_eq!(propose(&config, SOMEBODY, None).unwrap_err(), ContractError::Unauthorized);
    // A wrong expiration option fails
    assert_eq!(propose(&config, OWNER, Some(Expiration::AtHeight(123_456))).unwrap_err(), custom("Wrong expiration"));
    // A proposal from a voter works
    let (p, ballot) = propose(&config, VOTER3, None).unwrap();
    assert_eq!(p.status, ProposalStatus::Open);
    assert_eq!(ballot, Ballot { weight: 3, vote: Vote::Yes });
    assert_eq!(p.expires, Expiration::AtTime(mock_block().time_nanos + 2_000_000 * 1_000_000_000));
    // A proposal from a voter with enough power passes at once
    let (p, _) = propose(&config, VOTER4, None).unwrap();
    assert_eq!(p.status, ProposalStatus::Passed);
}

#[test]
fn test_vote_works() {
    let config = config(Threshold::AbsoluteCount { weight: 3 }, Duration::Time(2_000_000));
    let now = mock_block();
    let t = Open::new(&config, OWNER, None);

    // The owner cannot vote (again)
    let (t, err) = t.vote(OWNER, Vote::Yes, &now);
    assert_eq!(err, Some(custom("Already voted")));
    // Only voters can vote
    let (t, err) = t.vote(SOMEBODY, Vote::Yes, &now);
    assert_eq!(err, Some(ContractError::Unauthorized));
    // But voter1 can
    let (t, err) = t.vote(VOTER1, Vote::Yes, &now);
    assert_eq!(err, None);

    // No and Veto votes have no effect on the tally
    let tally = t.proposal.votes.yes;
    let (t, _) = t.vote(VOTER2, Vote::No, &now);
    let (t, _) = t.vote(VOTER3, Vote::Veto, &now);
    assert_eq!(tally, t.proposal.votes.yes);

    // Once voted, votes cannot be changed
    let (t, err) = t.vote(VOTER3, Vote::Yes, &now);
    assert_eq!(err, Some(custom("Already voted")));
    assert_eq!(tally, t.proposal.votes.yes);

    // Expired proposals cannot be voted
    let (t, err) = t.vote(VOTER3, Vote::No, &block_time(2_000_000 + 1));
    assert_eq!(err, Some(ContractError::Expired));

    // Vote it again, so it passes
    let (t, err) = t.vote(VOTER4, Vote::Yes, &now);
    assert_eq!(err, None);
    assert_eq!(t.proposal.status, ProposalStatus::Passed);
    // Passed proposals can still be voted (while they are not expired or executed)
    let (_, err) = t.vote(VOTER5, Vote::Yes, &now);
    assert_eq!(err, None);

    // A new proposal that the no votes reject
    let t = Open::new(&config, OWNER, None);
    let (t, _) = t.vote(VOTER1, Vote::No, &now);
    let (t, _) = t.vote(VOTER4, Vote::No, &now);
    let (t, _) = t.vote(VOTER3, Vote::No, &now);
    let (t, _) = t.vote(VOTER5, Vote::No, &now);
    let (t, err) = t.vote(VOTER2, Vote::No, &now);
    assert_eq!(err, None);
    assert_eq!(t.proposal.status, ProposalStatus::Rejected);
    // Rejected proposals can still be voted (while they are not expired)
    let (_, err) = t.vote(VOTER6, Vote::Yes, &now);
    assert_eq!(err, None);
}

#[test]
fn test_execute_works() {
    let config = config(Threshold::AbsoluteCount { weight: 3 }, Duration::Time(2_000_000));
    let now = mock_block();
    let t = Open::new(&config, OWNER, None);

    // Only Passed can be executed
    let err = execute_execute(Some(clone_proposal(&t.proposal)), &now, &SOMEBODY.to_string(), 1).unwrap_err();
    assert_eq!(err, custom("Wrong execute status"));

    // Vote it, so it passes
    let (t, _) = t.vote(VOTER3, Vote::Yes, &now);
    // In passing: closing a Passed proposal fails
    let err = execute_close(Some(clone_proposal(&t.proposal)), &now, &SOMEBODY.to_string(), 1).unwrap_err();
    assert_eq!(err, custom("Wrong close status"));

    // Execute works. Anybody can execute Passed proposals
    let (executed, a) = execute_execute(Some(t.proposal), &now, &SOMEBODY.to_string(), 1).unwrap();
    assert_eq!(executed.status, ProposalStatus::Executed);
    let pairs: Vec<(String, String)> = a.into_iter().map(|x| (x.key, x.value)).collect();
    assert_eq!(
        pairs,
        vec![
            ("action".to_string(), "execute".to_string()),
            ("sender".to_string(), SOMEBODY.to_string()),
            ("proposal_id".to_string(), "1".to_string()),
        ]
    );

    // In passing: closing an Executed proposal fails
    let err = execute_close(Some(executed), &now, &SOMEBODY.to_string(), 1).unwrap_err();
    assert_eq!(err, custom("Wrong close status"));
}

#[test]
fn proposal_pass_on_expiration() {
    let threshold = Threshold::ThresholdQuorum { threshold: percent(51), quorum: percent(1) };
    let config = config(threshold, Duration::Time(2_000_000));
    let t = Open::new(&config, OWNER, None);
    // Vote it, so it passes after the voting period is over
    let (t, err) = t.vote(VOTER3, Vote::Yes, &mock_block());
    assert_eq!(err, None);

    let later = block_time(2_000_000 + 1);
    // Closing should NOT be possible
    let err = execute_close(Some(clone_proposal(&t.proposal)), &later, &SOMEBODY.to_string(), 1).unwrap_err();
    assert_eq!(err, custom("Wrong close status"));
    // Execution should now be possible
    let (executed, a) = execute_execute(Some(t.proposal), &later, &SOMEBODY.to_string(), 1).unwrap();
    assert_eq!(executed.status, ProposalStatus::Executed);
    let pairs: Vec<(&str, &str)> = a.iter().map(|x| (x.key.as_str(), x.value.as_str())).collect();
    assert_eq!(pairs, vec![("action", "execute"), ("sender", SOMEBODY), ("proposal_id", "1")]);
}

#[test]
fn test_close_works() {
    let config = config(Threshold::AbsoluteCount { weight: 3 }, Duration::Height(2_000_000));
    let t = Open::new(&config, OWNER, None);
    // Non-expired proposals cannot be closed
    let err = execute_close(Some(t.proposal), &mock_block(), &SOMEBODY.to_string(), 1).unwrap_err();
    assert_eq!(err, custom("Not expired"));

    // Expired proposals can be closed
    let t = Open::new(&config, OWNER, Some(Expiration::AtHeight(123_456)));
    let (closed, a) = execute_close(Some(t.proposal), &block_height(1_234_567), &SOMEBODY.to_string(), 1).unwrap();
    assert_eq!(closed.status, ProposalStatus::Rejected);
    assert_eq!(a[0].value, "close");
    assert_eq!(a[1].value, SOMEBODY);

    // Trying to close it again fails
    let err = execute_close(Some(closed), &mock_block(), &SOMEBODY.to_string(), 1).unwrap_err();
    assert_eq!(err, custom("Wrong close status"));
}

#[test]
fn votes_add_to_their_option() {
    let v = Votes { yes: 1, no: 2, abstain: 3, veto: 4 };
    assert_eq!(add_vote(v, Vote::Yes, 5), Some(Votes { yes: 6, ..v }));
    assert_eq!(add_vote(v, Vote::Veto, 5), Some(Votes { veto: 9, ..v }));
    assert_eq!(add_vote(v, Vote::No, u64::MAX), None);
}

#[test]
fn status_decision_from_cw3_answers() {
    assert_eq!(andromeda::multisig::status_from(ProposalStatus::Open, true, false, false), ProposalStatus::Passed);
    assert_eq!(andromeda::multisig::status_from(ProposalStatus::Open, false, true, false), ProposalStatus::Rejected);
    assert_eq!(andromeda::multisig::status_from(ProposalStatus::Open, false, false, true), ProposalStatus::Rejected);
    assert_eq!(andromeda::multisig::status_from(ProposalStatus::Open, false, false, false), ProposalStatus::Open);
    assert_eq!(andromeda::multisig::status_from(ProposalStatus::Executed, true, false, true), ProposalStatus::Executed);
}

#[test]
fn propose_and_vote_attributes() {
    let config = config(Threshold::AbsoluteCount { weight: 3 }, Duration::Time(2_000_000));
    let (p, _, a) = execute_propose(
        weight_of(OWNER),
        &config,
        &mock_block(),
        &OWNER.to_string(),
        "Pay somebody".to_string(),
        "Do I pay her?".to_string(),
        pay_somebody(),
        None,
        7,
    )
    .unwrap();
    let pairs: Vec<(String, String)> = a.into_iter().map(|x| (x.key, x.value)).collect();
    assert_eq!(
        pairs,
        vec![
            ("action".to_string(), "propose".to_string()),
            ("sender".to_string(), OWNER.to_string()),
            ("proposal_id".to_string(), "7".to_string()),
            ("status".to_string(), "Open".to_string()),
        ]
    );
    let (_, _, a) = execute_vote(weight_of(VOTER3), Some(p), false, Vote::Yes, &mock_block(), &VOTER3.to_string(), 7).unwrap();
    assert_eq!(a[0].value, "vote");
    assert_eq!(a[3].value, "Passed");
}
