//! Summations over the ballot state: the total tally recorded on the
//! proposals and the total weight still pending with unvoted voters.
//!
//! The conservation facts proved here carry the accounting argument of the
//! ballot: casting or delegating moves weight between the two sums without
//! changing their total, and the total never exceeds the number of voter
//! records, which keeps every tally addition inside `u64`.

use vstd::prelude::*;

use crate::types::{Proposal, Voter};

verus! {

/// The sum of the vote counts of all proposals.
pub open spec fn sum_vote_counts(s: Seq<Proposal>) -> int
    decreases s.len(),
{
    if s.len() == 0 {
        0
    } else {
        sum_vote_counts(s.drop_last()) + s.last().vote_count
    }
}

/// The weight an entry contributes to the pending sum: its full weight while
/// the voter has not voted, nothing afterwards.
pub open spec fn pending_weight_of(e: (String, Voter)) -> int {
    if e.1.voted {
        0
    } else {
        e.1.weight as int
    }
}

/// The total weight held by voters who have not yet voted.
pub open spec fn sum_pending_weight(s: Seq<(String, Voter)>) -> int
    decreases s.len(),
{
    if s.len() == 0 {
        0
    } else {
        sum_pending_weight(s.drop_last()) + pending_weight_of(s.last())
    }
}

pub proof fn lemma_sum_vote_counts_update(s: Seq<Proposal>, i: int, p: Proposal)
    requires
        0 <= i < s.len(),
    ensures
        sum_vote_counts(s.update(i, p)) == sum_vote_counts(s) - s[i].vote_count + p.vote_count,
    decreases s.len(),
{
    let t = s.update(i, p);
    assert(t.len() == s.len());
    if i == s.len() - 1 {
        assert(t.drop_last() =~= s.drop_last());
        assert(t.last() == p);
    } else {
        assert(t.drop_last() =~= s.drop_last().update(i, p));
        assert(t.last() == s.last());
        lemma_sum_vote_counts_update(s.drop_last(), i, p);
    }
}

pub proof fn lemma_sum_vote_counts_push(s: Seq<Proposal>, p: Proposal)
    ensures
        sum_vote_counts(s.push(p)) == sum_vote_counts(s) + p.vote_count,
{
    assert(s.push(p).drop_last() =~= s);
    assert(s.push(p).last() == p);
}

/// Every single vote count is bounded by the total, and the total is
/// non-negative.
pub proof fn lemma_sum_vote_counts_bound(s: Seq<Proposal>, i: int)
    requires
        0 <= i < s.len(),
    ensures
        s[i].vote_count <= sum_vote_counts(s),
        sum_vote_counts(s) >= 0,
    decreases s.len(),
{
    lemma_sum_vote_counts_nonneg(s);
    if i == s.len() - 1 {
        lemma_sum_vote_counts_nonneg(s.drop_last());
    } else {
        assert(s.drop_last()[i] == s[i]);
        lemma_sum_vote_counts_bound(s.drop_last(), i);
    }
}

pub proof fn lemma_sum_vote_counts_nonneg(s: Seq<Proposal>)
    ensures
        sum_vote_counts(s) >= 0,
    decreases s.len(),
{
    if s.len() > 0 {
        lemma_sum_vote_counts_nonneg(s.drop_last());
    }
}

pub proof fn lemma_sum_pending_weight_update(s: Seq<(String, Voter)>, i: int, e: (String, Voter))
    requires
        0 <= i < s.len(),
    ensures
        sum_pending_weight(s.update(i, e)) == sum_pending_weight(s) - pending_weight_of(s[i])
            + pending_weight_of(e),
    decreases s.len(),
{
    let t = s.update(i, e);
    assert(t.len() == s.len());
    if i == s.len() - 1 {
        assert(t.drop_last() =~= s.drop_last());
        assert(t.last() == e);
    } else {
        assert(t.drop_last() =~= s.drop_last().update(i, e));
        assert(t.last() == s.last());
        lemma_sum_pending_weight_update(s.drop_last(), i, e);
    }
}

pub proof fn lemma_sum_pending_weight_push(s: Seq<(String, Voter)>, e: (String, Voter))
    ensures
        sum_pending_weight(s.push(e)) == sum_pending_weight(s) + pending_weight_of(e),
{
    assert(s.push(e).drop_last() =~= s);
    assert(s.push(e).last() == e);
}

pub proof fn lemma_sum_pending_weight_nonneg(s: Seq<(String, Voter)>)
    ensures
        sum_pending_weight(s) >= 0,
    decreases s.len(),
{
    if s.len() > 0 {
        lemma_sum_pending_weight_nonneg(s.drop_last());
    }
}

/// Every single pending weight is bounded by the pending total.
pub proof fn lemma_sum_pending_weight_bound(s: Seq<(String, Voter)>, i: int)
    requires
        0 <= i < s.len(),
    ensures
        pending_weight_of(s[i]) <= sum_pending_weight(s),
        sum_pending_weight(s) >= 0,
    decreases s.len(),
{
    lemma_sum_pending_weight_nonneg(s);
    if i == s.len() - 1 {
        lemma_sum_pending_weight_nonneg(s.drop_last());
    } else {
        assert(s.drop_last()[i] == s[i]);
        lemma_sum_pending_weight_bound(s.drop_last(), i);
    }
}

/// Two distinct pending weights are together bounded by the pending total.
pub proof fn lemma_sum_pending_weight_pair_bound(s: Seq<(String, Voter)>, i: int, j: int)
    requires
        0 <= i < s.len(),
        0 <= j < s.len(),
        i != j,
    ensures
        pending_weight_of(s[i]) + pending_weight_of(s[j]) <= sum_pending_weight(s),
    decreases s.len(),
{
    if i == s.len() - 1 {
        assert(s.drop_last()[j] == s[j]);
        lemma_sum_pending_weight_bound(s.drop_last(), j);
    } else if j == s.len() - 1 {
        assert(s.drop_last()[i] == s[i]);
        lemma_sum_pending_weight_bound(s.drop_last(), i);
    } else {
        assert(s.drop_last()[i] == s[i]);
        assert(s.drop_last()[j] == s[j]);
        lemma_sum_pending_weight_pair_bound(s.drop_last(), i, j);
        assert(pending_weight_of(s.last()) >= 0);
    }
}

} // verus!
