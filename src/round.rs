//! A funding round: its configuration, the proposals and their funded
//! votes, and the one-time distribution of the matching budget.
use vstd::prelude::*;
use crate::error::ContractError;
use crate::matching::{
    calculate_clr, funds_of, lemma_sum_amounts_prefix, matched, sum_amounts, sum_matched,
    sums_fit, RawGrant,
};
use crate::period::{BlockInfo, Expiration};

verus! {

/// An amount of one denomination.
pub struct Coin {
    pub denom: String,
    pub amount: u128,
}

/// Who sent a call and the funds attached to it.
pub struct MessageInfo {
    pub sender: String,
    pub funds: Vec<Coin>,
}

/// The matching rule a round applies at distribution.
#[derive(Clone, Copy, Debug, PartialEq, Eq, Structural)]
pub enum QuadraticFundingAlgorithm {
    CapitalConstrainedLiberalRadicalism,
}

/// The parameters a round is created with.
pub struct InstantiateMsg {
    pub admin: String,
    pub leftover_addr: String,
    pub create_proposal_whitelist: Option<Vec<String>>,
    pub vote_proposal_whitelist: Option<Vec<String>>,
    pub voting_period: Expiration,
    pub proposal_period: Expiration,
    pub budget: Coin,
    pub algorithm: QuadraticFundingAlgorithm,
}

/// The settings of a round, fixed at creation.
pub struct Config {
    pub admin: String,
    pub leftover_addr: String,
    pub create_proposal_whitelist: Option<Vec<String>>,
    pub vote_proposal_whitelist: Option<Vec<String>>,
    pub voting_period: Expiration,
    pub proposal_period: Expiration,
    pub algorithm: QuadraticFundingAlgorithm,
    pub budget: Coin,
}

/// A proposal and the funds its voters put in so far.
pub struct Proposal {
    pub id: u64,
    pub title: String,
    pub description: String,
    pub metadata: Option<Vec<u8>>,
    pub fund_address: String,
    pub collected_funds: u128,
}

/// The content of a proposal, as plain values.
pub struct ProposalView {
    pub id: u64,
    pub title: Seq<char>,
    pub description: Seq<char>,
    pub metadata: Option<Seq<u8>>,
    pub fund_address: Seq<char>,
    pub collected_funds: u128,
}

impl View for Proposal {
    type V = ProposalView;

    open spec fn view(&self) -> ProposalView {
        ProposalView {
            id: self.id,
            title: self.title@,
            description: self.description@,
            metadata: match self.metadata {
                Some(m) => Some(m@),
                None => None,
            },
            fund_address: self.fund_address@,
            collected_funds: self.collected_funds,
        }
    }
}

/// A transfer that the round asks the bank to make.
pub struct BankSend {
    pub to_address: String,
    pub amount: Coin,
}

/// The recipients and amounts of the transfers `s`, in order.
pub open spec fn sends_view(s: Seq<BankSend>) -> Seq<(Seq<char>, int)> {
    s.map_values(|b: BankSend| (b.to_address@, b.amount.amount as int))
}

/// The amounts of the transfers `s`, added up.
pub open spec fn sum_transferred(s: Seq<(Seq<char>, int)>) -> int
    decreases s.len(),
{
    if s.len() == 0 {
        0
    } else {
        sum_transferred(s.drop_last()) + s.last().1
    }
}

/// One voter's contribution to one proposal.
pub struct Vote {
    pub proposal_id: u64,
    pub voter: String,
    pub fund: Coin,
}

/// The state of a round. Proposal `i + 1` sits at index `i` of
/// `proposals`, and its votes at index `i` of `votes`.
pub struct FundingRound {
    pub config: Config,
    pub proposal_seq: u64,
    pub proposals: Vec<Proposal>,
    pub votes: Vec<Vec<Vote>>,
    pub distributed: bool,
}

/// The calls that change a round.
pub enum ExecuteMsg {
    CreateProposal {
        title: String,
        description: String,
        metadata: Option<Vec<u8>>,
        fund_address: String,
    },
    VoteProposal { proposal_id: u64 },
    TriggerDistribution,
}

/// What a successful call to `execute` produced.
pub enum ExecuteResponse {
    ProposalCreated { proposal_id: u64 },
    Voted { collected_funds: u128 },
    Distributed { sends: Vec<BankSend> },
}

/// The reads a round answers.
pub enum QueryMsg {
    ProposalByID { id: u64 },
    AllProposals,
}

/// Every proposal, in id order.
pub struct AllProposalsResponse {
    pub proposals: Vec<Proposal>,
}

/// The answer to a `QueryMsg`.
pub enum QueryResponse {
    Proposal(Proposal),
    AllProposals(AllProposalsResponse),
}

/// The amounts of the votes `vs`, in order.
pub open spec fn vote_amounts(vs: Seq<Vote>) -> Seq<u128> {
    vs.map_values(|v: Vote| v.fund.amount)
}

/// Whether someone with address `who` has a vote among `vs`.
pub open spec fn has_voted(vs: Seq<Vote>, who: Seq<char>) -> bool {
    exists|j: int| 0 <= j < vs.len() && (#[trigger] vs[j]).voter@ == who
}

/// Whether the address `who` is among `v`.
pub open spec fn lists(v: Seq<String>, who: Seq<char>) -> bool {
    exists|j: int| 0 <= j < v.len() && (#[trigger] v[j])@ == who
}

/// Whether `who` passes the allow-list `wl`; no list lets everyone pass.
pub open spec fn allowed(wl: Option<Vec<String>>, who: Seq<char>) -> bool {
    match wl {
        None => true,
        Some(v) => lists(v@, who),
    }
}

/// The amount that `funds` carries for a call: a single coin of `denom`
/// with a positive amount.
pub open spec fn fund_check(funds: Seq<Coin>, denom: Seq<char>) -> Result<u128, ContractError> {
    if funds.len() == 0 {
        Err(ContractError::ZeroAmount)
    } else if funds.len() > 1 || funds[0].denom@ != denom {
        Err(ContractError::WrongDenomination)
    } else if funds[0].amount == 0 {
        Err(ContractError::ZeroAmount)
    } else {
        Ok(funds[0].amount)
    }
}

impl FundingRound {
    /// The round's bookkeeping is consistent: ids are dense from 1, each
    /// proposal's collected funds are the sum of its votes, a voter has at
    /// most one vote per proposal, and every vote is in the budget's
    /// denomination with a positive amount.
    pub open spec fn wf(&self) -> bool {
        &&& self.proposal_seq == self.proposals.len()
        &&& self.votes.len() == self.proposals.len()
        &&& forall|i: int| 0 <= i < self.proposals.len() ==> (#[trigger] self.proposals[i]).id == i + 1
        &&& forall|i: int|
            0 <= i < self.proposals.len() ==> (#[trigger] self.proposals[i]).collected_funds
                == sum_amounts(vote_amounts(self.votes[i]@))
        &&& forall|i: int, j: int, k: int|
            0 <= i < self.votes.len() && 0 <= j < self.votes[i].len() && 0 <= k
                < self.votes[i].len() && j != k ==> (#[trigger] self.votes[i][j]).voter@
                != (#[trigger] self.votes[i][k]).voter@
        &&& forall|i: int, j: int|
            0 <= i < self.votes.len() && 0 <= j < self.votes[i].len() ==> {
                &&& (#[trigger] self.votes[i][j]).proposal_id == i + 1
                &&& self.votes[i][j].fund.amount > 0
            }
    }

    /// The outcome of creating a proposal: the new id, or the error.
    pub open spec fn create_check(
        &self,
        block: BlockInfo,
        sender: Seq<char>,
        fund_address_valid: bool,
    ) -> Result<u64, ContractError> {
        if !allowed(self.config.create_proposal_whitelist, sender) {
            Err(ContractError::Unauthorized)
        } else if self.config.proposal_period.expired_at(block) {
            Err(ContractError::ProposalPeriodExpired)
        } else if !fund_address_valid {
            Err(ContractError::InvalidAddress)
        } else if self.proposal_seq == u64::MAX {
            Err(ContractError::Overflow)
        } else {
            Ok((self.proposal_seq + 1) as u64)
        }
    }

    /// The outcome of a vote of `funds` by `sender` on proposal `pid`:
    /// the proposal's new collected total, or the error.
    pub open spec fn vote_check(
        &self,
        block: BlockInfo,
        sender: Seq<char>,
        funds: Seq<Coin>,
        pid: u64,
    ) -> Result<u128, ContractError> {
        if !allowed(self.config.vote_proposal_whitelist, sender) {
            Err(ContractError::Unauthorized)
        } else if self.config.voting_period.expired_at(block) {
            Err(ContractError::VotingPeriodExpired)
        } else {
            match fund_check(funds, self.config.budget.denom@) {
                Err(e) => Err(e),
                Ok(a) => {
                    if !(1 <= pid <= self.proposals.len()) {
                        Err(ContractError::ProposalNotFound)
                    } else if has_voted(self.votes[pid - 1]@, sender) {
                        Err(ContractError::DuplicateContribution)
                    } else if self.proposals[pid - 1].collected_funds + a > u128::MAX {
                        Err(ContractError::Overflow)
                    } else {
                        Ok((self.proposals[pid - 1].collected_funds + a) as u128)
                    }
                },
            }
        }
    }

    /// The vote amounts of each proposal, in id order.
    pub open spec fn round_funds(&self) -> Seq<Seq<u128>> {
        Seq::new(self.votes.len() as nat, |i: int| vote_amounts(self.votes[i]@))
    }

    /// Whether `sender` may distribute at `block`, or why not.
    pub open spec fn distribution_check(&self, block: BlockInfo, sender: Seq<char>) -> Result<
        (),
        ContractError,
    > {
        if sender != self.config.admin@ {
            Err(ContractError::Unauthorized)
        } else if !self.config.voting_period.expired_at(block) {
            Err(ContractError::VotingPeriodNotExpired)
        } else if self.distributed {
            Err(ContractError::AlreadyDistributed)
        } else {
            Ok(())
        }
    }

    /// The matched amount of proposal index `i`.
    pub open spec fn match_of(&self, i: int) -> int {
        matched(self.round_funds(), self.config.budget.amount as int, i)
    }

    /// What proposal index `i` is paid: its match and its collected funds.
    pub open spec fn payout(&self, i: int) -> int {
        self.match_of(i) + self.proposals[i].collected_funds
    }

    /// The part of the budget that no proposal is matched.
    pub open spec fn leftover(&self) -> int {
        self.config.budget.amount - sum_matched(
            self.round_funds(),
            self.config.budget.amount as int,
            self.proposals.len() as nat,
        )
    }

    /// Every payout fits in a `u128`.
    pub open spec fn payouts_fit(&self) -> bool {
        forall|i: int| 0 <= i < self.proposals.len() ==> #[trigger] self.payout(i) <= u128::MAX
    }

    /// The transfers to the first `n` proposals: one for each positive payout.
    pub open spec fn transfers(&self, n: nat) -> Seq<(Seq<char>, int)>
        decreases n,
    {
        if n == 0 {
            Seq::empty()
        } else {
            let prev = self.transfers((n - 1) as nat);
            if self.payout(n - 1) > 0 {
                prev.push((self.proposals[n - 1].fund_address@, self.payout(n - 1)))
            } else {
                prev
            }
        }
    }

    /// `next` is this round with `vote` recorded on proposal `pid`, whose
    /// collected total became `total`; nothing else changed.
    pub open spec fn vote_recorded(&self, next: FundingRound, pid: u64, vote: Vote, total: u128) -> bool {
        let i = pid - 1;
        let p = self.proposals[i];
        &&& next.config == self.config
        &&& next.proposal_seq == self.proposal_seq
        &&& next.distributed == self.distributed
        &&& next.proposals@ == self.proposals@.update(
            i,
            Proposal {
                id: p.id,
                title: p.title,
                description: p.description,
                metadata: p.metadata,
                fund_address: p.fund_address,
                collected_funds: total,
            },
        )
        &&& next.votes.len() == self.votes.len()
        &&& forall|j: int| 0 <= j < self.votes.len() && j != i ==> #[trigger] next.votes[j] == self.votes[j]
        &&& next.votes[i]@ == self.votes[i]@.push(vote)
    }

    /// The collected funds of the first `n` proposals, added up.
    pub open spec fn collected_total(&self, n: nat) -> int
        decreases n,
    {
        if n == 0 {
            0
        } else {
            self.collected_total((n - 1) as nat) + self.proposals[n - 1].collected_funds
        }
    }

    /// The proposal with id `id`, or `ProposalNotFound`.
    pub open spec fn proposal_at(&self, id: u64) -> Result<ProposalView, ContractError> {
        if 1 <= id <= self.proposals.len() {
            Ok(self.proposals[id - 1]@)
        } else {
            Err(ContractError::ProposalNotFound)
        }
    }
}

fn copy_bytes(b: &Vec<u8>) -> (r: Vec<u8>)
    ensures
        r@ == b@,
{
    let mut r: Vec<u8> = Vec::new();
    let mut i: usize = 0;
    while i < b.len()
        invariant
            i <= b.len(),
            r@ == b@.take(i as int),
        decreases b.len() - i,
    {
        r.push(b[i]);
        i = i + 1;
        assert(r@ =~= b@.take(i as int));
    }
    assert(b@.take(b.len() as int) =~= b@);
    r
}

fn copy_proposal(p: &Proposal) -> (r: Proposal)
    ensures
        r@ == p@,
{
    let metadata = match &p.metadata {
        Some(m) => Some(copy_bytes(m)),
        None => None,
    };
    Proposal {
        id: p.id,
        title: p.title.clone(),
        description: p.description.clone(),
        metadata,
        fund_address: p.fund_address.clone(),
        collected_funds: p.collected_funds,
    }
}

/// Whether `who` passes the allow-list `wl`.
pub fn is_allowed(wl: &Option<Vec<String>>, who: &String) -> (r: bool)
    ensures
        r == allowed(*wl, who@),
{
    match wl {
        None => true,
        Some(v) => {
            let mut j: usize = 0;
            while j < v.len()
                invariant
                    *wl == Some(*v),
                    j <= v.len(),
                    forall|k: int| 0 <= k < j ==> (#[trigger] v@[k])@ != who@,
                decreases v.len() - j,
            {
                if v[j] == *who {
                    assert(v@[j as int]@ == who@);
                    assert(lists(v@, who@));
                    return true;
                }
                j = j + 1;
            }
            false
        },
    }
}

/// Creates a round from `msg`. The funds attached in `info` must be the
/// declared budget exactly, and the budget positive; `addresses_valid`
/// reports whether every allow-listed address parses.
pub fn instantiate(info: &MessageInfo, msg: InstantiateMsg, addresses_valid: bool) -> (r: Result<
    FundingRound,
    ContractError,
>)
    ensures
        msg.budget.amount == 0 ==> r == Err::<FundingRound, ContractError>(ContractError::ZeroAmount),
        msg.budget.amount > 0 && !(info.funds.len() == 1 && info.funds[0].denom@ == msg.budget.denom@
            && info.funds[0].amount == msg.budget.amount) ==> r == Err::<
            FundingRound,
            ContractError,
        >(ContractError::BudgetMismatch),
        msg.budget.amount > 0 && info.funds.len() == 1 && info.funds[0].denom@ == msg.budget.denom@
            && info.funds[0].amount == msg.budget.amount && !addresses_valid ==> r == Err::<
            FundingRound,
            ContractError,
        >(ContractError::InvalidAddress),
        r.is_ok() <==> msg.budget.amount > 0 && info.funds.len() == 1 && info.funds[0].denom@
            == msg.budget.denom@ && info.funds[0].amount == msg.budget.amount && addresses_valid,
        r matches Ok(round) ==> {
            &&& round.wf()
            &&& round.proposals.len() == 0
            &&& !round.distributed
            &&& round.config.admin == msg.admin
            &&& round.config.leftover_addr == msg.leftover_addr
            &&& round.config.create_proposal_whitelist == msg.create_proposal_whitelist
            &&& round.config.vote_proposal_whitelist == msg.vote_proposal_whitelist
            &&& round.config.voting_period == msg.voting_period
            &&& round.config.proposal_period == msg.proposal_period
            &&& round.config.algorithm == msg.algorithm
            &&& round.config.budget == msg.budget
        },
{
    if msg.budget.amount == 0 {
        return Err(ContractError::ZeroAmount);
    }
    if info.funds.len() != 1 || info.funds[0].denom != msg.budget.denom || info.funds[0].amount
        != msg.budget.amount {
        return Err(ContractError::BudgetMismatch);
    }
    if !addresses_valid {
        return Err(ContractError::InvalidAddress);
    }
    let config = Config {
        admin: msg.admin,
        leftover_addr: msg.leftover_addr,
        create_proposal_whitelist: msg.create_proposal_whitelist,
        vote_proposal_whitelist: msg.vote_proposal_whitelist,
        voting_period: msg.voting_period,
        proposal_period: msg.proposal_period,
        algorithm: msg.algorithm,
        budget: msg.budget,
    };
    Ok(FundingRound {
        config,
        proposal_seq: 0,
        proposals: Vec::new(),
        votes: Vec::new(),
        distributed: false,
    })
}

/// Adds a proposal and returns its id, the next one in sequence.
/// `fund_address_valid` reports whether `fund_address` parses.
pub fn execute_create_proposal(
    round: &mut FundingRound,
    block: &BlockInfo,
    sender: &String,
    title: String,
    description: String,
    metadata: Option<Vec<u8>>,
    fund_address: String,
    fund_address_valid: bool,
) -> (r: Result<u64, ContractError>)
    requires
        old(round).wf(),
    ensures
        final(round).wf(),
        r == old(round).create_check(*block, sender@, fund_address_valid),
        r.is_err() ==> *final(round) == *old(round),
        r matches Ok(id) ==> {
            &&& final(round).config == old(round).config
            &&& final(round).distributed == old(round).distributed
            &&& final(round).proposals@ == old(round).proposals@.push(
                Proposal {
                    id,
                    title,
                    description,
                    metadata,
                    fund_address,
                    collected_funds: 0,
                },
            )
            &&& final(round).votes.len() == old(round).votes.len() + 1
            &&& final(round).votes@.drop_last() == old(round).votes@
            &&& final(round).votes@.last()@.len() == 0
        },
{
    if !is_allowed(&round.config.create_proposal_whitelist, sender) {
        return Err(ContractError::Unauthorized);
    }
    if round.config.proposal_period.is_expired(block) {
        return Err(ContractError::ProposalPeriodExpired);
    }
    if !fund_address_valid {
        return Err(ContractError::InvalidAddress);
    }
    if round.proposal_seq == u64::MAX {
        return Err(ContractError::Overflow);
    }
    let id = round.proposal_seq + 1;
    round.proposal_seq = id;
    round.proposals.push(
        Proposal { id, title, description, metadata, fund_address, collected_funds: 0 },
    );
    round.votes.push(Vec::new());
    Ok(id)
}

/// The single coin of `denom` attached in `funds`, with a positive amount.
pub fn extract_budget_coin(funds: &Vec<Coin>, denom: &String) -> (r: Result<Coin, ContractError>)
    ensures
        r.is_ok() <==> fund_check(funds@, denom@).is_ok(),
        r matches Err(e) ==> fund_check(funds@, denom@) == Err::<u128, ContractError>(e),
        r matches Ok(c) ==> {
            &&& fund_check(funds@, denom@) == Ok::<u128, ContractError>(c.amount)
            &&& c.denom == funds[0].denom
        },
{
    if funds.len() == 0 {
        return Err(ContractError::ZeroAmount);
    }
    if funds.len() > 1 || funds[0].denom != *denom {
        return Err(ContractError::WrongDenomination);
    }
    if funds[0].amount == 0 {
        return Err(ContractError::ZeroAmount);
    }
    Ok(Coin { denom: funds[0].denom.clone(), amount: funds[0].amount })
}

/// Whether `who` already has a vote among `vs`.
fn has_vote(vs: &Vec<Vote>, who: &String) -> (r: bool)
    ensures
        r == has_voted(vs@, who@),
{
    let mut j: usize = 0;
    while j < vs.len()
        invariant
            j <= vs.len(),
            forall|k: int| 0 <= k < j ==> (#[trigger] vs@[k]).voter@ != who@,
        decreases vs.len() - j,
    {
        if vs[j].voter == *who {
            assert(vs@[j as int].voter@ == who@);
            return true;
        }
        j = j + 1;
    }
    false
}

/// Records the funds attached in `info` as the sender's vote on proposal
/// `proposal_id` and returns the proposal's new collected total.
pub fn execute_vote_proposal(
    round: &mut FundingRound,
    block: &BlockInfo,
    info: &MessageInfo,
    proposal_id: u64,
) -> (r: Result<u128, ContractError>)
    requires
        old(round).wf(),
    ensures
        final(round).wf(),
        r == old(round).vote_check(*block, info.sender@, info.funds@, proposal_id),
        r.is_err() ==> *final(round) == *old(round),
        r matches Ok(total) ==> old(round).vote_recorded(
            *final(round),
            proposal_id,
            Vote {
                proposal_id,
                voter: info.sender,
                fund: Coin { denom: info.funds[0].denom, amount: info.funds[0].amount },
            },
            total,
        ),
{
    if !is_allowed(&round.config.vote_proposal_whitelist, &info.sender) {
        return Err(ContractError::Unauthorized);
    }
    if round.config.voting_period.is_expired(block) {
        return Err(ContractError::VotingPeriodExpired);
    }
    let fund = match extract_budget_coin(&info.funds, &round.config.budget.denom) {
        Err(e) => {
            return Err(e);
        },
        Ok(c) => c,
    };
    if proposal_id == 0 || proposal_id > round.proposal_seq {
        return Err(ContractError::ProposalNotFound);
    }
    let i = (proposal_id - 1) as usize;
    if has_vote(&round.votes[i], &info.sender) {
        return Err(ContractError::DuplicateContribution);
    }
    let total = match round.proposals[i].collected_funds.checked_add(fund.amount) {
        None => {
            return Err(ContractError::Overflow);
        },
        Some(t) => t,
    };
    let ghost old_votes = round.votes[i as int]@;
    round.proposals[i].collected_funds = total;
    let vote = Vote { proposal_id, voter: info.sender.clone(), fund };
    round.votes[i].push(vote);
    proof {
        assert(vote_amounts(round.votes[i as int]@).drop_last() =~= vote_amounts(old_votes));
    }
    Ok(total)
}

fn amounts_of(vs: &Vec<Vote>) -> (r: Vec<u128>)
    ensures
        r@ == vote_amounts(vs@),
{
    let mut r: Vec<u128> = Vec::new();
    let mut j: usize = 0;
    while j < vs.len()
        invariant
            j <= vs.len(),
            r@ == vote_amounts(vs@.take(j as int)),
        decreases vs.len() - j,
    {
        r.push(vs[j].fund.amount);
        j = j + 1;
        assert(r@ =~= vote_amounts(vs@.take(j as int)));
    }
    assert(vs@.take(vs.len() as int) =~= vs@);
    r
}

/// Closes the round: matches the budget over all proposals, then asks for
/// one transfer per proposal whose match plus collected funds is positive,
/// in id order, and a last one of the leftover to the leftover address.
/// Succeeds at most once.
pub fn execute_trigger_distribution(
    round: &mut FundingRound,
    block: &BlockInfo,
    sender: &String,
) -> (r: Result<Vec<BankSend>, ContractError>)
    requires
        old(round).wf(),
    ensures
        final(round).wf(),
        old(round).distribution_check(*block, sender@) matches Err(e) ==> r == Err::<
            Vec<BankSend>,
            ContractError,
        >(e),
        old(round).distribution_check(*block, sender@) is Ok ==> (r.is_ok()
            <==> old(round).payouts_fit()),
        r matches Err(e) ==> old(round).distribution_check(*block, sender@) == Err::<
            (),
            ContractError,
        >(e) || e == ContractError::Overflow,
        r.is_err() ==> *final(round) == *old(round),
        r matches Ok(sends) ==> {
            &&& sends_view(sends@) == old(round).transfers(old(round).proposals.len() as nat).push(
                (old(round).config.leftover_addr@, old(round).leftover()),
            )
            &&& forall|k: int|
                0 <= k < sends.len() ==> (#[trigger] sends[k]).amount.denom
                    == old(round).config.budget.denom
            &&& final(round).distributed
            &&& final(round).config == old(round).config
            &&& final(round).proposal_seq == old(round).proposal_seq
            &&& final(round).proposals == old(round).proposals
            &&& final(round).votes == old(round).votes
        },
{
    if round.config.admin != *sender {
        return Err(ContractError::Unauthorized);
    }
    if !round.config.voting_period.is_expired(block) {
        return Err(ContractError::VotingPeriodNotExpired);
    }
    if round.distributed {
        return Err(ContractError::AlreadyDistributed);
    }
    let ghost fs = round.round_funds();
    let ghost budget = round.config.budget.amount as int;
    let n = round.proposals.len();
    let mut grants: Vec<RawGrant> = Vec::new();
    let mut i: usize = 0;
    while i < n
        invariant
            *round == *old(round),
            round.distribution_check(*block, sender@) is Ok,
            n == round.proposals.len(),
            round.wf(),
            fs == round.round_funds(),
            i <= n,
            grants.len() == i,
            funds_of(grants@) =~= fs.take(i as int),
            forall|j: int|
                0 <= j < i ==> {
                    &&& (#[trigger] grants[j]).addr@ == round.proposals[j].fund_address@
                    &&& grants[j].collected_vote_funds == round.proposals[j].collected_funds
                },
        decreases n - i,
    {
        let funds = amounts_of(&round.votes[i]);
        grants.push(
            RawGrant {
                addr: round.proposals[i].fund_address.clone(),
                funds,
                collected_vote_funds: round.proposals[i].collected_funds,
            },
        );
        i = i + 1;
        assert(funds_of(grants@) =~= fs.take(i as int));
    }
    assert(fs.take(n as int) =~= fs);
    let matching = match round.config.algorithm {
        QuadraticFundingAlgorithm::CapitalConstrainedLiberalRadicalism => calculate_clr(
            &grants,
            round.config.budget.amount,
        ),
    };
    let (out, leftover) = match matching {
        Err(e) => {
            proof {
                assert forall|j: int| 0 <= j < fs.len() implies #[trigger] sum_amounts(fs[j])
                    <= u128::MAX by {
                    assert(round.proposals[j].collected_funds == sum_amounts(
                        vote_amounts(round.votes[j]@),
                    ));
                }
                assert(sums_fit(fs));
            }
            return Err(e);
        },
        Ok(res) => res,
    };
    let mut sends: Vec<BankSend> = Vec::new();
    let mut k: usize = 0;
    while k < n
        invariant
            *round == *old(round),
            round.distribution_check(*block, sender@) is Ok,
            n == round.proposals.len(),
            round.wf(),
            !round.distributed,
            fs == round.round_funds(),
            budget == round.config.budget.amount,
            k <= n,
            out.len() == n,
            grants.len() == n,
            forall|j: int|
                0 <= j < n ==> {
                    &&& (#[trigger] out[j]).addr@ == grants[j].addr@
                    &&& out[j].collected_vote_funds == grants[j].collected_vote_funds
                    &&& out[j].grant == matched(fs, budget, j)
                },
            forall|j: int|
                0 <= j < n ==> {
                    &&& (#[trigger] grants[j]).addr@ == round.proposals[j].fund_address@
                    &&& grants[j].collected_vote_funds == round.proposals[j].collected_funds
                },
            forall|j: int| 0 <= j < k ==> #[trigger] round.payout(j) <= u128::MAX,
            sends_view(sends@) == round.transfers(k as nat),
            forall|j: int|
                0 <= j < sends.len() ==> (#[trigger] sends[j]).amount.denom
                    == round.config.budget.denom,
        decreases n - k,
    {
        let amount = match out[k].grant.checked_add(out[k].collected_vote_funds) {
            None => {
                assert(round.payout(k as int) > u128::MAX);
                return Err(ContractError::Overflow);
            },
            Some(a) => a,
        };
        if amount > 0 {
            let ghost before = sends@;
            sends.push(
                BankSend {
                    to_address: out[k].addr.clone(),
                    amount: Coin { denom: round.config.budget.denom.clone(), amount },
                },
            );
            assert(sends_view(sends@) =~= sends_view(before).push(
                (round.proposals[k as int].fund_address@, amount as int),
            ));
        }
        k = k + 1;
    }
    let ghost before = sends@;
    sends.push(
        BankSend {
            to_address: round.config.leftover_addr.clone(),
            amount: Coin { denom: round.config.budget.denom.clone(), amount: leftover },
        },
    );
    assert(sends_view(sends@) =~= sends_view(before).push(
        (round.config.leftover_addr@, leftover as int),
    ));
    round.distributed = true;
    Ok(sends)
}

/// Whether the votes `vs` of proposal `id` are in order: one per voter,
/// each for `id` with a positive amount, adding up to `collected`.
fn votes_consistent(vs: &Vec<Vote>, id: u64, collected: u128) -> (r: bool)
    ensures
        r == ({
            &&& collected == sum_amounts(vote_amounts(vs@))
            &&& forall|j: int, k: int|
                0 <= j < vs.len() && 0 <= k < vs.len() && j != k ==> (#[trigger] vs@[j]).voter@
                    != (#[trigger] vs@[k]).voter@
            &&& forall|j: int|
                0 <= j < vs.len() ==> (#[trigger] vs@[j]).proposal_id == id && vs@[j].fund.amount
                    > 0
        }),
{
    let mut sum: u128 = 0;
    let mut j: usize = 0;
    while j < vs.len()
        invariant
            j <= vs.len(),
            sum == sum_amounts(vote_amounts(vs@.take(j as int))),
            forall|a: int, b: int|
                0 <= a < j && 0 <= b < j && a != b ==> (#[trigger] vs@[a]).voter@
                    != (#[trigger] vs@[b]).voter@,
            forall|a: int| 0 <= a < j ==> (#[trigger] vs@[a]).proposal_id == id && vs@[a].fund.amount > 0,
        decreases vs.len() - j,
    {
        if vs[j].proposal_id != id || vs[j].fund.amount == 0 {
            return false;
        }
        let mut k: usize = 0;
        while k < j
            invariant
                j < vs.len(),
                k <= j,
                forall|b: int| 0 <= b < k ==> (#[trigger] vs@[b]).voter@ != vs@[j as int].voter@,
            decreases j - k,
        {
            if vs[k].voter == vs[j].voter {
                assert(vs@[k as int].voter@ == vs@[j as int].voter@);
                return false;
            }
            k = k + 1;
        }
        proof {
            assert(vote_amounts(vs@.take(j + 1)).drop_last() =~= vote_amounts(vs@.take(j as int)));
            assert(vote_amounts(vs@.take(j + 1)) =~= vote_amounts(vs@).take(j + 1));
            lemma_sum_amounts_prefix(vote_amounts(vs@), j + 1);
        }
        match sum.checked_add(vs[j].fund.amount) {
            None => {
                return false;
            },
            Some(t) => {
                sum = t;
            },
        }
        j = j + 1;
    }
    assert(vs@.take(vs.len() as int) =~= vs@);
    sum == collected
}

impl FundingRound {
    /// Whether the round's bookkeeping is consistent, as `wf` states it.
    pub fn is_well_formed(&self) -> (r: bool)
        ensures
            r == self.wf(),
    {
        let n = self.proposals.len();
        if n as u64 != self.proposal_seq || self.votes.len() != n {
            return false;
        }
        let mut i: usize = 0;
        while i < n
            invariant
                n == self.proposals.len(),
                n == self.votes.len(),
                n == self.proposal_seq,
                i <= n,
                forall|a: int| 0 <= a < i ==> (#[trigger] self.proposals[a]).id == a + 1,
                forall|a: int|
                    0 <= a < i ==> (#[trigger] self.proposals[a]).collected_funds == sum_amounts(
                        vote_amounts(self.votes[a]@),
                    ),
                forall|a: int, j: int, k: int|
                    0 <= a < i && 0 <= j < self.votes[a].len() && 0 <= k < self.votes[a].len()
                        && j != k ==> (#[trigger] self.votes[a][j]).voter@
                        != (#[trigger] self.votes[a][k]).voter@,
                forall|a: int, j: int|
                    0 <= a < i && 0 <= j < self.votes[a].len() ==> {
                        &&& (#[trigger] self.votes[a][j]).proposal_id == a + 1
                        &&& self.votes[a][j].fund.amount > 0
                    },
            decreases n - i,
        {
            let id = i as u64 + 1;
            if self.proposals[i].id != id {
                return false;
            }
            if !votes_consistent(&self.votes[i], id, self.proposals[i].collected_funds) {
                return false;
            }
            i = i + 1;
        }
        true
    }
}

/// The proposal with id `id`; reading leaves the round as it was.
pub fn query_proposal_id(round: &FundingRound, id: u64) -> (r: Result<Proposal, ContractError>)
    requires
        round.wf(),
    ensures
        r.is_ok() <==> round.proposal_at(id).is_ok(),
        r.is_err() ==> r == Err::<Proposal, ContractError>(ContractError::ProposalNotFound),
        r matches Ok(p) ==> round.proposal_at(id) == Ok::<ProposalView, ContractError>(p@),
{
    if id >= 1 && id <= round.proposal_seq {
        Ok(copy_proposal(&round.proposals[(id - 1) as usize]))
    } else {
        Err(ContractError::ProposalNotFound)
    }
}

/// Every proposal of the round, in id order.
pub fn query_all_proposals(round: &FundingRound) -> (r: AllProposalsResponse)
    ensures
        r.proposals.len() == round.proposals.len(),
        forall|i: int|
            0 <= i < r.proposals.len() ==> (#[trigger] r.proposals[i])@ == round.proposals[i]@,
{
    let mut proposals: Vec<Proposal> = Vec::new();
    let mut i: usize = 0;
    while i < round.proposals.len()
        invariant
            i <= round.proposals.len(),
            proposals.len() == i,
            forall|j: int| 0 <= j < i ==> (#[trigger] proposals[j])@ == round.proposals[j]@,
        decreases round.proposals.len() - i,
    {
        proposals.push(copy_proposal(&round.proposals[i]));
        i = i + 1;
    }
    AllProposalsResponse { proposals }
}

/// Answers `msg`; reading leaves the round as it was.
pub fn query(round: &FundingRound, msg: QueryMsg) -> (r: Result<QueryResponse, ContractError>)
    requires
        round.wf(),
    ensures
        match msg {
            QueryMsg::ProposalByID { id } => match round.proposal_at(id) {
                Ok(v) => r matches Ok(QueryResponse::Proposal(p)) && p@ == v,
                Err(e) => r == Err::<QueryResponse, ContractError>(e),
            },
            QueryMsg::AllProposals => r matches Ok(QueryResponse::AllProposals(a)) && {
                &&& a.proposals.len() == round.proposals.len()
                &&& forall|i: int|
                    0 <= i < a.proposals.len() ==> (#[trigger] a.proposals[i])@
                        == round.proposals[i]@
            },
        },
{
    match msg {
        QueryMsg::ProposalByID { id } => match query_proposal_id(round, id) {
            Ok(p) => Ok(QueryResponse::Proposal(p)),
            Err(e) => Err(e),
        },
        QueryMsg::AllProposals => Ok(QueryResponse::AllProposals(query_all_proposals(round))),
    }
}

/// Runs `msg` on the round for the call described by `block` and `info`.
/// `fund_address_valid` reports whether a proposal's fund address parses.
pub fn execute(
    round: &mut FundingRound,
    block: &BlockInfo,
    info: &MessageInfo,
    msg: ExecuteMsg,
    fund_address_valid: bool,
) -> (r: Result<ExecuteResponse, ContractError>)
    requires
        old(round).wf(),
    ensures
        final(round).wf(),
        r.is_err() ==> *final(round) == *old(round),
        match msg {
            ExecuteMsg::CreateProposal { .. } => match old(round).create_check(
                *block,
                info.sender@,
                fund_address_valid,
            ) {
                Ok(id) => r matches Ok(ExecuteResponse::ProposalCreated { proposal_id }) && proposal_id == id,
                Err(e) => r == Err::<ExecuteResponse, ContractError>(e),
            },
            ExecuteMsg::VoteProposal { proposal_id } => match old(round).vote_check(
                *block,
                info.sender@,
                info.funds@,
                proposal_id,
            ) {
                Ok(t) => r matches Ok(ExecuteResponse::Voted { collected_funds }) && collected_funds == t,
                Err(e) => r == Err::<ExecuteResponse, ContractError>(e),
            },
            ExecuteMsg::TriggerDistribution => match old(round).distribution_check(
                *block,
                info.sender@,
            ) {
                Ok(_) => if old(round).payouts_fit() {
                    r matches Ok(ExecuteResponse::Distributed { sends }) && sends_view(sends@)
                        == old(round).transfers(old(round).proposals.len() as nat).push(
                        (old(round).config.leftover_addr@, old(round).leftover()),
                    )
                } else {
                    r == Err::<ExecuteResponse, ContractError>(ContractError::Overflow)
                },
                Err(e) => r == Err::<ExecuteResponse, ContractError>(e),
            },
        },
{
    match msg {
        ExecuteMsg::CreateProposal { title, description, metadata, fund_address } => {
            match execute_create_proposal(
                round,
                block,
                &info.sender,
                title,
                description,
                metadata,
                fund_address,
                fund_address_valid,
            ) {
                Ok(id) => Ok(ExecuteResponse::ProposalCreated { proposal_id: id }),
                Err(e) => Err(e),
            }
        },
        ExecuteMsg::VoteProposal { proposal_id } => {
            match execute_vote_proposal(round, block, info, proposal_id) {
                Ok(t) => Ok(ExecuteResponse::Voted { collected_funds: t }),
                Err(e) => Err(e),
            }
        },
        ExecuteMsg::TriggerDistribution => {
            match execute_trigger_distribution(round, block, &info.sender) {
                Ok(sends) => Ok(ExecuteResponse::Distributed { sends }),
                Err(e) => Err(e),
            }
        },
    }
}

} // verus!
