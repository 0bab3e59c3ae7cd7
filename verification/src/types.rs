//! The records of the ballot: voters, proposals, and the error kinds that
//! the public operations report.

use vstd::prelude::*;

verus! {

/// Why a ballot operation was refused. Every failure aborts the whole call
/// and leaves the ballot unchanged.
#[derive(Clone, Copy, Debug, PartialEq, Eq, Structural)]
pub enum VoteError {
    /// Construction was attempted while a ballot state already exists.
    AlreadyInitialized,
    /// Only the chairperson may grant voting rights.
    Unauthorized,
    /// The account has already committed its vote (directly or by delegation).
    AlreadyVoted,
    /// The sender holds no voting weight.
    NoVotingRight,
    /// An account may not delegate to itself.
    SelfDelegation,
    /// The delegation chain comes back to the sender.
    DelegationCycle,
    /// The terminal delegate holds no voting weight.
    DelegateHasNoRight,
    /// The proposal index lies outside the proposal list.
    InvalidProposalIndex,
}

/// One account's voting record.
///
/// `weight == 0` means the account holds no voting right. Once `voted` is
/// true, exactly one of `delegate` (the terminal delegate the weight went to)
/// and `vote` (the proposal index chosen directly) is set.
#[derive(Clone, Debug, PartialEq, Eq)]
pub struct Voter {
    /// Voting weight; accumulated by incoming delegations.
    pub weight: u64,
    /// True once the account has cast a direct vote or completed a delegation.
    pub voted: bool,
    /// The terminal delegate chosen when this voter delegated.
    pub delegate: Option<String>,
    /// The proposal index chosen when this voter voted directly.
    pub vote: Option<u64>,
}

impl Voter {
    /// A voter record is well formed against a proposal list of length
    /// `proposal_count` when its weight is positive (records exist only for
    /// granted accounts), an unvoted record carries neither a delegate nor a
    /// vote, and a voted record carries exactly one of the two, with any
    /// direct vote pointing inside the proposal list.
    pub open spec fn wf(self, proposal_count: int) -> bool {
        &&& self.weight >= 1
        &&& !self.voted ==> self.delegate is None && self.vote is None
        &&& self.voted ==> (self.delegate is Some <==> self.vote is None)
        &&& self.vote is Some ==> 0 <= self.vote.unwrap() < proposal_count
    }
}

/// The record a fresh grant of voting rights produces: weight one, nothing
/// committed yet.
pub open spec fn granted_voter() -> Voter {
    Voter { weight: 1, voted: false, delegate: None, vote: None }
}

/// One candidate choice: a fixed name and the tally accumulated so far.
#[derive(Clone, Debug, PartialEq, Eq)]
pub struct Proposal {
    /// Display label, fixed at construction.
    pub name: String,
    /// Accumulated voting weight; never decreases.
    pub vote_count: u64,
}

} // verus!
