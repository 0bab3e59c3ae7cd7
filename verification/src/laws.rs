//! Laws of the ballot that relate whole operations, stated over the
//! transition predicates the operations ensure.

use vstd::prelude::*;

use crate::contract::{
    delegate_allowed, delegate_error, delegate_post, delegate_sender_ok, grant_allowed,
    grant_error, grant_post, vote_allowed, vote_post, Contract,
};
use crate::resolve::{chain_reaches, lemma_chain_back_to_sender_is_cycle};
use crate::sums::{sum_pending_weight, sum_vote_counts};
use crate::types::{granted_voter, VoteError};

verus! {

/// A grant attempted by anyone but the chairperson is refused as
/// unauthorized, whatever the target.
pub proof fn lemma_grant_by_non_chair_fails(pre: Contract, caller: Seq<char>, target: Seq<char>)
    requires
        caller != pre.chair_person@,
    ensures
        !grant_allowed(pre, caller, target),
        grant_error(pre, caller) == VoteError::Unauthorized,
{
}

/// Granting a right twice to an ungranted, unvoted account is idempotent:
/// the second grant goes through as well and changes nothing beyond the
/// first.
pub proof fn lemma_grant_idempotent(
    c0: Contract,
    c1: Contract,
    c2: Contract,
    caller: Seq<char>,
    target: Seq<char>,
)
    requires
        grant_allowed(c0, caller, target),
        grant_post(c0, c1, target),
        grant_post(c1, c2, target),
    ensures
        grant_allowed(c1, caller, target),
        c2.voters_map() == c1.voters_map(),
        c2.chair_person@ == c1.chair_person@,
        c2.proposals@ == c1.proposals@,
{
    assert(c1.voters_map()[target] == granted_voter());
    assert(c2.voters_map() =~= c1.voters_map());
}

/// Delegating to oneself is refused as self-delegation.
pub proof fn lemma_self_delegation_fails(pre: Contract, caller: Seq<char>)
    requires
        delegate_sender_ok(pre, caller),
    ensures
        !delegate_allowed(pre, caller, caller),
        delegate_error(pre, caller, caller) == VoteError::SelfDelegation,
{
}

/// A delegation whose chain comes back to the sender — after any number of
/// hops — is refused as a cycle.
pub proof fn lemma_delegation_back_to_sender_fails(
    pre: Contract,
    caller: Seq<char>,
    target: Seq<char>,
    k: nat,
)
    requires
        delegate_sender_ok(pre, caller),
        target != caller,
        chain_reaches(pre.voters_map(), target, caller, k),
    ensures
        !delegate_allowed(pre, caller, target),
        delegate_error(pre, caller, target) == VoteError::DelegationCycle,
{
    lemma_chain_back_to_sender_is_cycle(
        pre.voters_map(),
        caller,
        target,
        k,
        pre.voters@.len() as nat,
    );
}

/// A direct vote moves exactly the sender's weight from the pending side to
/// the recorded tally: the tally grows by that weight and the total of
/// tally plus pending weight is conserved.
pub proof fn lemma_vote_commits_weight(
    pre: Contract,
    post: Contract,
    caller: Seq<char>,
    index: u64,
)
    requires
        vote_allowed(pre, caller, index),
        vote_post(pre, post, caller, index),
    ensures
        sum_vote_counts(post.proposals@) - sum_vote_counts(pre.proposals@)
            == pre.voters_map()[caller].weight,
        sum_vote_counts(post.proposals@) + sum_pending_weight(post.voters@) == sum_vote_counts(
            pre.proposals@,
        ) + sum_pending_weight(pre.voters@),
{
}

/// A delegation conserves the total of recorded tally plus pending weight;
/// the tally itself grows exactly by the sender's weight when the terminal
/// delegate has already voted, and is untouched otherwise.
pub proof fn lemma_delegate_conserves_weight(
    pre: Contract,
    post: Contract,
    caller: Seq<char>,
    target: Seq<char>,
)
    requires
        delegate_allowed(pre, caller, target),
        delegate_post(pre, post, caller, target),
    ensures
        sum_vote_counts(post.proposals@) + sum_pending_weight(post.voters@) == sum_vote_counts(
            pre.proposals@,
        ) + sum_pending_weight(pre.voters@),
        pre.voters_map()[crate::contract::delegate_resolution(pre, caller, target).unwrap()].voted
            ==> sum_vote_counts(post.proposals@) - sum_vote_counts(pre.proposals@)
            == pre.voters_map()[caller].weight,
        !pre.voters_map()[crate::contract::delegate_resolution(pre, caller, target).unwrap()].voted
            ==> sum_vote_counts(post.proposals@) == sum_vote_counts(pre.proposals@),
{
}

} // verus!

