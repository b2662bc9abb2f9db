//! Properties that hold across calls on a funding round.
use vstd::prelude::*;
use crate::error::ContractError;
use crate::matching::{sum_amounts, sum_matched};
use crate::period::BlockInfo;
use crate::round::{allowed, fund_check, sum_transferred, vote_amounts, Coin, FundingRound, Vote};

verus! {

/// A voter who voted on a proposal cannot vote on it again: while the
/// voting period lasts, a second vote by the same address on the same
/// proposal fails with `DuplicateContribution`, whatever amount its coin
/// of the budget's denomination carries.
pub proof fn lemma_no_double_contribution(
    first: FundingRound,
    second: FundingRound,
    block: BlockInfo,
    later: BlockInfo,
    vote: Vote,
    total: u128,
    funds: Seq<Coin>,
)
    requires
        first.wf(),
        first.vote_check(block, vote.voter@, seq![vote.fund], vote.proposal_id) == Ok::<
            u128,
            ContractError,
        >(total),
        first.vote_recorded(second, vote.proposal_id, vote, total),
        !second.config.voting_period.expired_at(later),
        fund_check(funds, second.config.budget.denom@) is Ok,
    ensures
        second.vote_check(later, vote.voter@, funds, vote.proposal_id) == Err::<
            u128,
            ContractError,
        >(ContractError::DuplicateContribution),
{
    let i = vote.proposal_id - 1;
    assert(second.proposals.len() == first.proposals.len());
    assert(second.votes[i]@.last() == vote);
    assert(second.votes[i]@[second.votes[i]@.len() - 1].voter@ == vote.voter@);
}

/// A successful vote adds exactly its amount to the proposal's collected
/// total, which stays the sum of the amounts of the proposal's votes: after
/// votes of a₁..aₙ on a fresh proposal, it holds Σaᵢ.
pub proof fn lemma_collected_tracks_votes(
    before: FundingRound,
    after: FundingRound,
    block: BlockInfo,
    vote: Vote,
    total: u128,
)
    requires
        before.wf(),
        after.wf(),
        before.vote_check(block, vote.voter@, seq![vote.fund], vote.proposal_id) == Ok::<
            u128,
            ContractError,
        >(total),
        before.vote_recorded(after, vote.proposal_id, vote, total),
    ensures
        ({
            let i = vote.proposal_id - 1;
            &&& vote_amounts(after.votes[i]@) == vote_amounts(before.votes[i]@).push(vote.fund.amount)
            &&& after.proposals[i].collected_funds == before.proposals[i].collected_funds
                + vote.fund.amount
            &&& after.proposals[i].collected_funds == sum_amounts(vote_amounts(after.votes[i]@))
        }),
{
    let i = vote.proposal_id - 1;
    assert(vote_amounts(after.votes[i]@) =~= vote_amounts(before.votes[i]@).push(vote.fund.amount));
    assert(vote_amounts(after.votes[i]@).drop_last() =~= vote_amounts(before.votes[i]@));
}

/// Each phase is gated by its period for every authorized caller: creating
/// a proposal after the proposal period fails with `ProposalPeriodExpired`,
/// voting after the voting period fails with `VotingPeriodExpired`, and
/// distributing before its end fails with `VotingPeriodNotExpired`.
pub proof fn lemma_period_gating(
    round: FundingRound,
    block: BlockInfo,
    sender: Seq<char>,
    funds: Seq<Coin>,
    pid: u64,
    fund_address_valid: bool,
)
    ensures
        allowed(round.config.create_proposal_whitelist, sender)
            && round.config.proposal_period.expired_at(block) ==> round.create_check(
            block,
            sender,
            fund_address_valid,
        ) == Err::<u64, ContractError>(ContractError::ProposalPeriodExpired),
        allowed(round.config.vote_proposal_whitelist, sender)
            && round.config.voting_period.expired_at(block) ==> round.vote_check(block, sender, funds, pid)
            == Err::<u128, ContractError>(ContractError::VotingPeriodExpired),
        sender == round.config.admin@ && !round.config.voting_period.expired_at(block)
            ==> round.distribution_check(block, sender)
            == Err::<(), ContractError>(ContractError::VotingPeriodNotExpired),
{
}

proof fn lemma_transfers_sum(round: FundingRound, n: nat)
    requires
        n <= round.proposals.len(),
    ensures
        sum_transferred(round.transfers(n)) == sum_matched(
            round.round_funds(),
            round.config.budget.amount as int,
            n,
        ) + round.collected_total(n),
    decreases n,
{
    if n > 0 {
        let m = (n - 1) as nat;
        lemma_transfers_sum(round, m);
        let prev = round.transfers(m);
        if round.payout(m as int) > 0 {
            assert(prev.push((round.proposals[m as int].fund_address@, round.payout(m as int))).drop_last()
                =~= prev);
        }
    }
}

/// Distribution moves no more and no less than it holds: the transfers of
/// a distribution, the leftover included, add up to the budget plus all
/// the funds the proposals collected.
pub proof fn lemma_distribution_conserves_funds(round: FundingRound)
    ensures
        sum_transferred(
            round.transfers(round.proposals.len() as nat).push(
                (round.config.leftover_addr@, round.leftover()),
            ),
        ) == round.config.budget.amount + round.collected_total(round.proposals.len() as nat),
{
    let n = round.proposals.len() as nat;
    lemma_transfers_sum(round, n);
    let t = round.transfers(n);
    assert(t.push((round.config.leftover_addr@, round.leftover())).drop_last() =~= t);
}

} // verus!
