use quadratic_funding::error::ContractError;
use quadratic_funding::period::{BlockInfo, Expiration};
use quadratic_funding::round::{
    execute, execute_create_proposal, execute_trigger_distribution, execute_vote_proposal,
    extract_budget_coin, instantiate, query, query_all_proposals, query_proposal_id, BankSend,
    Coin, ExecuteMsg, ExecuteResponse, FundingRound, InstantiateMsg, MessageInfo,
    QuadraticFundingAlgorithm, QueryMsg, QueryResponse,
};

const DENOM: &str = "ucore";

fn coin(amount: u128, denom: &str) -> Coin {
    Coin { denom: denom.to_string(), amount }
}

fn info(sender: &str, funds: Vec<Coin>) -> MessageInfo {
    MessageInfo { sender: sender.to_string(), funds }
}

// Proposals until height 100, votes until height 200.
fn msg(budget: u128) -> InstantiateMsg {
    InstantiateMsg {
        admin: "admin".to_string(),
        leftover_addr: "leftover".to_string(),
        create_proposal_whitelist: None,
        vote_proposal_whitelist: None,
        voting_period: Expiration::AtHeight(200),
        proposal_period: Expiration::AtHeight(100),
        budget: coin(budget, DENOM),
        algorithm: QuadraticFundingAlgorithm::CapitalConstrainedLiberalRadicalism,
    }
}

fn at(height: u64) -> BlockInfo {
    BlockInfo { height, time: 0 }
}

fn new_round(budget: u128) -> FundingRound {
    instantiate(&info("creator", vec![coin(budget, DENOM)]), msg(budget), true).unwrap()
}

fn propose(round: &mut FundingRound, fund_address: &str) -> u64 {
    execute_create_proposal(
        round,
        &at(10),
        &"creator".to_string(),
        "title".to_string(),
        "description".to_string(),
        None,
        fund_address.to_string(),
        true,
    )
    .unwrap()
}

fn vote(round: &mut FundingRound, voter: &str, id: u64, amount: u128) -> Result<u128, ContractError> {
    execute_vote_proposal(round, &at(150), &info(voter, vec![coin(amount, DENOM)]), id)
}

fn sends_of(sends: &[BankSend]) -> Vec<(String, u128)> {
    sends.iter().map(|s| (s.to_address.clone(), s.amount.amount)).collect()
}

#[test]
fn instantiate_accepts_matching_budget() {
    let round = new_round(1000);
    assert_eq!(round.config.budget.amount, 1000);
    assert!(round.proposals.is_empty());
    assert!(!round.distributed);
}

#[test]
fn instantiate_rejects_zero_budget() {
    let r = instantiate(&info("creator", vec![coin(0, DENOM)]), msg(0), true);
    assert!(matches!(r, Err(ContractError::ZeroAmount)));
}

#[test]
fn instantiate_rejects_budget_mismatch() {
    let r = instantiate(&info("creator", vec![coin(999, DENOM)]), msg(1000), true);
    assert!(matches!(r, Err(ContractError::BudgetMismatch)));
    let r = instantiate(&info("creator", vec![coin(1000, "other")]), msg(1000), true);
    assert!(matches!(r, Err(ContractError::BudgetMismatch)));
    let r = instantiate(&info("creator", vec![]), msg(1000), true);
    assert!(matches!(r, Err(ContractError::BudgetMismatch)));
}

#[test]
fn instantiate_rejects_invalid_whitelist_address() {
    let r = instantiate(&info("creator", vec![coin(1000, DENOM)]), msg(1000), false);
    assert!(matches!(r, Err(ContractError::InvalidAddress)));
}

#[test]
fn proposal_ids_are_dense_from_one() {
    let mut round = new_round(1000);
    assert_eq!(propose(&mut round, "fund1"), 1);
    assert_eq!(propose(&mut round, "fund2"), 2);
    assert_eq!(propose(&mut round, "fund3"), 3);
    let all = query_all_proposals(&round);
    let ids: Vec<u64> = all.proposals.iter().map(|p| p.id).collect();
    assert_eq!(ids, vec![1, 2, 3]);
    assert_eq!(all.proposals[1].fund_address, "fund2");
    assert_eq!(all.proposals[1].collected_funds, 0);
}

#[test]
fn create_proposal_after_period_fails() {
    let mut round = new_round(1000);
    let r = execute_create_proposal(
        &mut round,
        &at(100),
        &"creator".to_string(),
        "t".to_string(),
        "d".to_string(),
        None,
        "fund".to_string(),
        true,
    );
    assert!(matches!(r, Err(ContractError::ProposalPeriodExpired)));
    assert!(round.proposals.is_empty());
}

#[test]
fn create_proposal_whitelist_and_address() {
    let mut m = msg(1000);
    m.create_proposal_whitelist = Some(vec!["alice".to_string()]);
    let mut round = instantiate(&info("creator", vec![coin(1000, DENOM)]), m, true).unwrap();
    let create = |round: &mut FundingRound, who: &str, valid: bool| {
        execute_create_proposal(
            round,
            &at(5),
            &who.to_string(),
            "t".to_string(),
            "d".to_string(),
            Some(vec![1, 2, 3]),
            "fund".to_string(),
            valid,
        )
    };
    assert!(matches!(create(&mut round, "bob", true), Err(ContractError::Unauthorized)));
    assert!(matches!(create(&mut round, "alice", false), Err(ContractError::InvalidAddress)));
    assert_eq!(create(&mut round, "alice", true).unwrap(), 1);
    assert_eq!(round.proposals[0].metadata, Some(vec![1, 2, 3]));
}

#[test]
fn vote_accumulates_collected_funds() {
    let mut round = new_round(1000);
    let id = propose(&mut round, "fund");
    assert_eq!(vote(&mut round, "a", id, 10).unwrap(), 10);
    assert_eq!(vote(&mut round, "b", id, 25).unwrap(), 35);
    assert_eq!(vote(&mut round, "c", id, 7).unwrap(), 42);
    assert_eq!(query_proposal_id(&round, id).unwrap().collected_funds, 42);
}

#[test]
fn second_vote_from_same_address_fails() {
    let mut round = new_round(1000);
    let id = propose(&mut round, "fund");
    vote(&mut round, "a", id, 10).unwrap();
    assert!(matches!(vote(&mut round, "a", id, 10), Err(ContractError::DuplicateContribution)));
    assert!(matches!(vote(&mut round, "a", id, 500), Err(ContractError::DuplicateContribution)));
    assert!(matches!(vote(&mut round, "a", id, 1), Err(ContractError::DuplicateContribution)));
    let r = execute_vote_proposal(&mut round, &at(150), &info("a", vec![]), id);
    assert!(matches!(r, Err(ContractError::ZeroAmount)));
    assert_eq!(query_proposal_id(&round, id).unwrap().collected_funds, 10);
}

#[test]
fn same_address_may_vote_on_two_proposals() {
    let mut round = new_round(1000);
    let first = propose(&mut round, "f1");
    let second = propose(&mut round, "f2");
    assert_eq!(vote(&mut round, "a", first, 10).unwrap(), 10);
    assert_eq!(vote(&mut round, "a", second, 20).unwrap(), 20);
}

#[test]
fn vote_errors() {
    let mut round = new_round(1000);
    let id = propose(&mut round, "fund");
    let r = execute_vote_proposal(&mut round, &at(200), &info("a", vec![coin(5, DENOM)]), id);
    assert!(matches!(r, Err(ContractError::VotingPeriodExpired)));
    assert!(matches!(vote(&mut round, "a", 2, 5), Err(ContractError::ProposalNotFound)));
    assert!(matches!(vote(&mut round, "a", 0, 5), Err(ContractError::ProposalNotFound)));
    let r = execute_vote_proposal(&mut round, &at(150), &info("a", vec![coin(5, "other")]), id);
    assert!(matches!(r, Err(ContractError::WrongDenomination)));
    let two = vec![coin(5, DENOM), coin(5, DENOM)];
    let r = execute_vote_proposal(&mut round, &at(150), &info("a", two), id);
    assert!(matches!(r, Err(ContractError::WrongDenomination)));
    assert!(matches!(vote(&mut round, "a", id, 0), Err(ContractError::ZeroAmount)));
    assert!(matches!(vote(&mut round, "a", 9, 0), Err(ContractError::ZeroAmount)));
    let r = execute_vote_proposal(&mut round, &at(150), &info("a", vec![coin(5, "other")]), 9);
    assert!(matches!(r, Err(ContractError::WrongDenomination)));
    assert_eq!(round.votes[0].len(), 0);
}

#[test]
fn vote_whitelist() {
    let mut m = msg(1000);
    m.vote_proposal_whitelist = Some(vec!["alice".to_string()]);
    let mut round = instantiate(&info("creator", vec![coin(1000, DENOM)]), m, true).unwrap();
    let id = propose(&mut round, "fund");
    assert!(matches!(vote(&mut round, "bob", id, 5), Err(ContractError::Unauthorized)));
    assert_eq!(vote(&mut round, "alice", id, 5).unwrap(), 5);
}

#[test]
fn vote_total_overflow() {
    let mut round = new_round(1000);
    let id = propose(&mut round, "fund");
    vote(&mut round, "a", id, u128::MAX).unwrap();
    assert!(matches!(vote(&mut round, "b", id, 1), Err(ContractError::Overflow)));
}

#[test]
fn extract_budget_coin_cases() {
    let denom = DENOM.to_string();
    assert_eq!(extract_budget_coin(&vec![coin(3, DENOM)], &denom).unwrap().amount, 3);
    assert!(matches!(extract_budget_coin(&vec![], &denom), Err(ContractError::ZeroAmount)));
    assert!(matches!(
        extract_budget_coin(&vec![coin(3, "x")], &denom),
        Err(ContractError::WrongDenomination)
    ));
}

#[test]
fn single_contributor_no_matching_distribution() {
    let mut round = new_round(1000);
    let id = propose(&mut round, "fund");
    vote(&mut round, "a", id, 100).unwrap();
    let sends = execute_trigger_distribution(&mut round, &at(200), &"admin".to_string()).unwrap();
    assert_eq!(
        sends_of(&sends),
        vec![("fund".to_string(), 100), ("leftover".to_string(), 1000)]
    );
    assert!(sends.iter().all(|s| s.amount.denom == DENOM));
}

#[test]
fn two_equal_contributors_distribution() {
    let mut round = new_round(50);
    let id = propose(&mut round, "fund");
    vote(&mut round, "a", id, 25).unwrap();
    vote(&mut round, "b", id, 25).unwrap();
    let sends = execute_trigger_distribution(&mut round, &at(300), &"admin".to_string()).unwrap();
    assert_eq!(sends_of(&sends), vec![("fund".to_string(), 100), ("leftover".to_string(), 0)]);
}

#[test]
fn capital_constrained_distribution() {
    let mut round = new_round(60);
    let first = propose(&mut round, "f1");
    let second = propose(&mut round, "f2");
    vote(&mut round, "a", first, 16).unwrap();
    vote(&mut round, "b", first, 100).unwrap();
    vote(&mut round, "a", second, 16).unwrap();
    vote(&mut round, "b", second, 25).unwrap();
    let sends = execute_trigger_distribution(&mut round, &at(200), &"admin".to_string()).unwrap();
    assert_eq!(
        sends_of(&sends),
        vec![
            ("f1".to_string(), 40 + 116),
            ("f2".to_string(), 20 + 41),
            ("leftover".to_string(), 0)
        ]
    );
}

#[test]
fn distribution_skips_empty_payouts() {
    let mut round = new_round(10);
    propose(&mut round, "empty");
    let id = propose(&mut round, "funded");
    vote(&mut round, "a", id, 4).unwrap();
    let sends = execute_trigger_distribution(&mut round, &at(200), &"admin".to_string()).unwrap();
    assert_eq!(sends_of(&sends), vec![("funded".to_string(), 4), ("leftover".to_string(), 10)]);
}

#[test]
fn distribution_with_no_proposals() {
    let mut round = new_round(10);
    let sends = execute_trigger_distribution(&mut round, &at(200), &"admin".to_string()).unwrap();
    assert_eq!(sends_of(&sends), vec![("leftover".to_string(), 10)]);
}

#[test]
fn distribution_gating_and_single_shot() {
    let mut round = new_round(10);
    let admin = "admin".to_string();
    let r = execute_trigger_distribution(&mut round, &at(199), &admin);
    assert!(matches!(r, Err(ContractError::VotingPeriodNotExpired)));
    let r = execute_trigger_distribution(&mut round, &at(199), &"someone".to_string());
    assert!(matches!(r, Err(ContractError::Unauthorized)));
    let r = execute_trigger_distribution(&mut round, &at(200), &"someone".to_string());
    assert!(matches!(r, Err(ContractError::Unauthorized)));
    assert!(!round.distributed);
    assert!(execute_trigger_distribution(&mut round, &at(200), &admin).is_ok());
    let r = execute_trigger_distribution(&mut round, &at(201), &admin);
    assert!(matches!(r, Err(ContractError::AlreadyDistributed)));
}

#[test]
fn authorization_comes_before_period() {
    let mut m = msg(10);
    m.create_proposal_whitelist = Some(vec!["alice".to_string()]);
    m.vote_proposal_whitelist = Some(vec!["alice".to_string()]);
    let mut round = instantiate(&info("creator", vec![coin(10, DENOM)]), m, true).unwrap();
    let create = |round: &mut FundingRound, who: &str| {
        execute_create_proposal(
            round,
            &at(150),
            &who.to_string(),
            "t".to_string(),
            "d".to_string(),
            None,
            "f".to_string(),
            false,
        )
    };
    assert!(matches!(create(&mut round, "stranger"), Err(ContractError::Unauthorized)));
    assert!(matches!(create(&mut round, "alice"), Err(ContractError::ProposalPeriodExpired)));
    let r = execute_vote_proposal(&mut round, &at(250), &info("stranger", vec![]), 9);
    assert!(matches!(r, Err(ContractError::Unauthorized)));
    let r = execute_vote_proposal(&mut round, &at(250), &info("alice", vec![]), 9);
    assert!(matches!(r, Err(ContractError::VotingPeriodExpired)));
    let r = execute_trigger_distribution(&mut round, &at(5), &"stranger".to_string());
    assert!(matches!(r, Err(ContractError::Unauthorized)));
    let r = execute_trigger_distribution(&mut round, &at(5), &"admin".to_string());
    assert!(matches!(r, Err(ContractError::VotingPeriodNotExpired)));
}

#[test]
fn time_based_periods() {
    let mut m = msg(10);
    m.proposal_period = Expiration::AtTime(1_000);
    m.voting_period = Expiration::Never;
    let mut round = instantiate(&info("creator", vec![coin(10, DENOM)]), m, true).unwrap();
    let early = BlockInfo { height: 1_000_000, time: 999 };
    let late = BlockInfo { height: 0, time: 1_000 };
    let make = |round: &mut FundingRound, block: &BlockInfo| {
        execute_create_proposal(
            round,
            block,
            &"c".to_string(),
            "t".to_string(),
            "d".to_string(),
            None,
            "f".to_string(),
            true,
        )
    };
    assert_eq!(make(&mut round, &early).unwrap(), 1);
    assert!(matches!(make(&mut round, &late), Err(ContractError::ProposalPeriodExpired)));
    let r = execute_trigger_distribution(&mut round, &late, &"admin".to_string());
    assert!(matches!(r, Err(ContractError::VotingPeriodNotExpired)));
}

#[test]
fn repeated_queries_agree() {
    let mut round = new_round(10);
    let id = propose(&mut round, "fund");
    vote(&mut round, "a", id, 3).unwrap();
    let first = query_proposal_id(&round, id).unwrap();
    let second = query_proposal_id(&round, id).unwrap();
    assert_eq!(first.id, second.id);
    assert_eq!(first.title, second.title);
    assert_eq!(first.description, second.description);
    assert_eq!(first.metadata, second.metadata);
    assert_eq!(first.fund_address, second.fund_address);
    assert_eq!(first.collected_funds, second.collected_funds);
    assert!(matches!(query_proposal_id(&round, 2), Err(ContractError::ProposalNotFound)));
}

#[test]
fn query_and_execute_dispatch() {
    let mut round = new_round(50);
    let creator = info("creator", vec![]);
    let create = ExecuteMsg::CreateProposal {
        title: "t".to_string(),
        description: "d".to_string(),
        metadata: None,
        fund_address: "fund".to_string(),
    };
    let r = execute(&mut round, &at(1), &creator, create, true).unwrap();
    assert!(matches!(r, ExecuteResponse::ProposalCreated { proposal_id: 1 }));
    for voter in ["a", "b"] {
        let r = execute(
            &mut round,
            &at(150),
            &info(voter, vec![coin(25, DENOM)]),
            ExecuteMsg::VoteProposal { proposal_id: 1 },
            true,
        );
        assert!(r.is_ok());
    }
    match query(&round, QueryMsg::ProposalByID { id: 1 }).unwrap() {
        QueryResponse::Proposal(p) => assert_eq!(p.collected_funds, 50),
        QueryResponse::AllProposals(_) => panic!("wrong answer"),
    }
    match query(&round, QueryMsg::AllProposals).unwrap() {
        QueryResponse::AllProposals(a) => assert_eq!(a.proposals.len(), 1),
        QueryResponse::Proposal(_) => panic!("wrong answer"),
    }
    assert!(matches!(
        query(&round, QueryMsg::ProposalByID { id: 7 }),
        Err(ContractError::ProposalNotFound)
    ));
    let admin = info("admin", vec![]);
    match execute(&mut round, &at(200), &admin, ExecuteMsg::TriggerDistribution, true).unwrap() {
        ExecuteResponse::Distributed { sends } => {
            assert_eq!(sends_of(&sends), vec![("fund".to_string(), 100), ("leftover".to_string(), 0)])
        },
        _ => panic!("wrong response"),
    }
}

#[test]
fn distribution_sends_budget_plus_collected() {
    let mut round = new_round(77);
    let first = propose(&mut round, "f1");
    let second = propose(&mut round, "f2");
    let third = propose(&mut round, "f3");
    for (voter, id, amount) in [("a", first, 9), ("b", first, 4), ("c", first, 1), ("a", second, 49), ("d", second, 2), ("e", third, 3)] {
        vote(&mut round, voter, id, amount).unwrap();
    }
    let collected: u128 = round.proposals.iter().map(|p| p.collected_funds).sum();
    assert_eq!(collected, 68);
    let sends = execute_trigger_distribution(&mut round, &at(200), &"admin".to_string()).unwrap();
    let sent: u128 = sends.iter().map(|s| s.amount.amount).sum();
    assert_eq!(sent, 77 + collected);
}

#[test]
fn well_formedness_check() {
    let mut round = new_round(10);
    assert!(round.is_well_formed());
    let id = propose(&mut round, "fund");
    vote(&mut round, "a", id, 3).unwrap();
    vote(&mut round, "b", id, 4).unwrap();
    assert!(round.is_well_formed());
    round.proposals[0].collected_funds = 8;
    assert!(!round.is_well_formed());
    round.proposals[0].collected_funds = 7;
    round.votes[0][1].voter = "a".to_string();
    assert!(!round.is_well_formed());
    round.votes[0][1].voter = "b".to_string();
    round.proposal_seq = 2;
    assert!(!round.is_well_formed());
}

#[test]
fn payout_overflow_fails_distribution() {
    let mut round = new_round(1000);
    let id = propose(&mut round, "fund");
    let half = u128::MAX / 2;
    vote(&mut round, "a", id, half).unwrap();
    vote(&mut round, "b", id, half).unwrap();
    let r = execute_trigger_distribution(&mut round, &at(200), &"admin".to_string());
    assert!(matches!(r, Err(ContractError::Overflow)));
    assert!(!round.distributed);
}
