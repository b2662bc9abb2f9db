//! Why an operation on a funding round was refused.
use vstd::prelude::*;

verus! {

/// Every failure aborts the whole operation: nothing is written.
#[derive(Clone, Copy, Debug, PartialEq, Eq, Structural)]
pub enum ContractError {
    /// The caller is not the admin, or not on the allow-list in force.
    Unauthorized,
    /// Proposals can no longer be created.
    ProposalPeriodExpired,
    /// Contributions can no longer be made.
    VotingPeriodExpired,
    /// Distribution waits for the voting period to end.
    VotingPeriodNotExpired,
    /// An address does not parse.
    InvalidAddress,
    /// The attached funds are not a single coin of the budget's denomination.
    WrongDenomination,
    /// The attached amount is zero.
    ZeroAmount,
    /// The funds attached at creation differ from the declared budget.
    BudgetMismatch,
    /// No proposal has the given id.
    ProposalNotFound,
    /// The caller already contributed to this proposal.
    DuplicateContribution,
    /// A sum, square or product left the range of `u128`.
    Overflow,
    /// The budget was already distributed.
    AlreadyDistributed,
}

} // verus!
