//! The ballot state and its public operations.
//!
//! Every operation is all-or-nothing: on any failure it returns the specific
//! error kind and leaves the ballot exactly as it was. Caller identity is an
//! explicit argument; the host that runs the ballot supplies it per call.

use vstd::prelude::*;
use vstd::string::StringExecFns;

use crate::resolve::{forwards, resolve_delegate};
use crate::roster::{
    find_index, keys_distinct, lemma_roster_map_domain, lemma_roster_map_index,
    lemma_roster_map_push, lemma_roster_map_update, roster_map,
};
use crate::sums::{
    lemma_sum_pending_weight_bound, lemma_sum_pending_weight_pair_bound,
    lemma_sum_pending_weight_push, lemma_sum_pending_weight_update, lemma_sum_vote_counts_bound,
    lemma_sum_vote_counts_nonneg, lemma_sum_vote_counts_push, lemma_sum_vote_counts_update,
    sum_pending_weight, sum_vote_counts,
};
use crate::types::{granted_voter, Proposal, VoteError, Voter};

verus! {

/// The singleton ballot state: the chairperson, the voter roster, and the
/// ordered, fixed-length proposal list.
pub struct Contract {
    /// The account that constructed the ballot; only it may grant rights.
    pub chair_person: String,
    /// The voter roster; keys are pairwise distinct account identifiers.
    pub voters: Vec<(String, Voter)>,
    /// The proposals, in construction order; only their tallies change.
    pub proposals: Vec<Proposal>,
}

impl Contract {
    /// The roster as a map from account identifier to voter record.
    pub open spec fn voters_map(self) -> Map<Seq<char>, Voter> {
        roster_map(self.voters@)
    }

    /// Well-formedness: roster keys are distinct, every record is well formed
    /// against the proposal list, and the recorded tally plus the weight
    /// still pending with unvoted voters never exceeds the roster size.
    /// The last bound is what keeps every tally addition inside `u64`.
    pub open spec fn wf(self) -> bool {
        &&& keys_distinct(self.voters@)
        &&& forall|i: int|
            0 <= i < self.voters@.len() ==> (#[trigger] self.voters@[i]).1.wf(
                self.proposals@.len() as int,
            )
        &&& sum_vote_counts(self.proposals@) + sum_pending_weight(self.voters@)
            <= self.voters@.len()
    }
}

/// What a successful construction produces: the chairperson holds the only
/// record, with weight one and nothing committed, and every proposal carries
/// its given name and an empty tally.
pub open spec fn fresh_ballot(c: Contract, chair: Seq<char>, names: Seq<String>) -> bool {
    &&& c.wf()
    &&& c.chair_person@ == chair
    &&& c.voters@.len() == 1
    &&& c.voters_map() == Map::<Seq<char>, Voter>::empty().insert(chair, granted_voter())
    &&& c.proposals@.len() == names.len()
    &&& forall|i: int|
        0 <= i < names.len() ==> (#[trigger] c.proposals@[i]).name@ == names[i]@
            && c.proposals@[i].vote_count == 0
    &&& sum_vote_counts(c.proposals@) == 0
    &&& sum_pending_weight(c.voters@) == 1
}

/// When a grant of voting rights goes through: the caller is the chairperson
/// and the target has not committed a vote.
pub open spec fn grant_allowed(pre: Contract, caller: Seq<char>, target: Seq<char>) -> bool {
    &&& caller == pre.chair_person@
    &&& pre.voters_map().contains_key(target) ==> !pre.voters_map()[target].voted
}

/// The error a refused grant reports.
pub open spec fn grant_error(pre: Contract, caller: Seq<char>) -> VoteError {
    if caller != pre.chair_person@ {
        VoteError::Unauthorized
    } else {
        VoteError::AlreadyVoted
    }
}

/// The state a successful grant leaves: the target's record is a fresh
/// grant, everything else is untouched.
pub open spec fn grant_post(pre: Contract, post: Contract, target: Seq<char>) -> bool {
    &&& post.wf()
    &&& post.chair_person@ == pre.chair_person@
    &&& post.proposals@ == pre.proposals@
    &&& post.voters_map() == pre.voters_map().insert(target, granted_voter())
}

/// When a direct vote goes through: the sender holds weight, has not voted,
/// and names an existing proposal.
pub open spec fn vote_allowed(pre: Contract, caller: Seq<char>, index: u64) -> bool {
    &&& pre.voters_map().contains_key(caller)
    &&& pre.voters_map()[caller].weight != 0
    &&& !pre.voters_map()[caller].voted
    &&& (index as int) < pre.proposals@.len()
}

/// The error a refused direct vote reports, checked in this order: right,
/// prior vote, proposal index.
pub open spec fn vote_error(pre: Contract, caller: Seq<char>) -> VoteError {
    if !pre.voters_map().contains_key(caller) || pre.voters_map()[caller].weight == 0 {
        VoteError::NoVotingRight
    } else if pre.voters_map()[caller].voted {
        VoteError::AlreadyVoted
    } else {
        VoteError::InvalidProposalIndex
    }
}

/// The record of a voter that has just cast a direct vote.
pub open spec fn direct_voter(weight: u64, index: u64) -> Voter {
    Voter { weight, voted: true, delegate: None, vote: Some(index) }
}

/// The state a successful direct vote leaves: the sender's record commits to
/// the proposal, whose tally grows by the sender's weight; the committed
/// tally plus the pending weight is conserved.
pub open spec fn vote_post(pre: Contract, post: Contract, caller: Seq<char>, index: u64) -> bool {
    let w = pre.voters_map()[caller].weight;
    &&& post.wf()
    &&& post.chair_person@ == pre.chair_person@
    &&& post.voters_map() == pre.voters_map().insert(caller, direct_voter(w, index))
    &&& post.proposals@.len() == pre.proposals@.len()
    &&& forall|j: int|
        0 <= j < pre.proposals@.len() && j != index ==> post.proposals@[j]
            == pre.proposals@[j]
    &&& post.proposals@[index as int].name == pre.proposals@[index as int].name
    &&& post.proposals@[index as int].vote_count == pre.proposals@[index as int].vote_count + w
    &&& sum_vote_counts(post.proposals@) == sum_vote_counts(pre.proposals@) + w
    &&& sum_vote_counts(post.proposals@) + sum_pending_weight(post.voters@) == sum_vote_counts(
        pre.proposals@,
    ) + sum_pending_weight(pre.voters@)
}

/// When the sender may delegate at all: it holds weight and has not voted.
pub open spec fn delegate_sender_ok(pre: Contract, caller: Seq<char>) -> bool {
    &&& pre.voters_map().contains_key(caller)
    &&& pre.voters_map()[caller].weight != 0
    &&& !pre.voters_map()[caller].voted
}

/// The terminal delegate of the chain that starts at `target`, with the walk
/// bounded by the roster size; `None` is a cycle.
pub open spec fn delegate_resolution(pre: Contract, caller: Seq<char>, target: Seq<char>) -> Option<
    Seq<char>,
> {
    resolve_delegate(pre.voters_map(), caller, target, pre.voters@.len() as nat)
}

/// The terminal delegate must itself hold a voting right.
pub open spec fn terminal_has_right(pre: Contract, t: Seq<char>) -> bool {
    pre.voters_map().contains_key(t) && pre.voters_map()[t].weight != 0
}

/// When a delegation goes through: the sender may delegate, does not name
/// itself, the chain resolves without a cycle, and its terminal holds a
/// voting right.
pub open spec fn delegate_allowed(pre: Contract, caller: Seq<char>, target: Seq<char>) -> bool {
    &&& delegate_sender_ok(pre, caller)
    &&& target != caller
    &&& delegate_resolution(pre, caller, target) is Some
    &&& terminal_has_right(pre, delegate_resolution(pre, caller, target).unwrap())
}

/// The error a refused delegation reports, checked in this order: right,
/// prior vote, self-delegation, cycle, terminal's right.
pub open spec fn delegate_error(pre: Contract, caller: Seq<char>, target: Seq<char>) -> VoteError {
    if !pre.voters_map().contains_key(caller) || pre.voters_map()[caller].weight == 0 {
        VoteError::NoVotingRight
    } else if pre.voters_map()[caller].voted {
        VoteError::AlreadyVoted
    } else if target == caller {
        VoteError::SelfDelegation
    } else if delegate_resolution(pre, caller, target) is None {
        VoteError::DelegationCycle
    } else {
        VoteError::DelegateHasNoRight
    }
}

/// The state a successful delegation leaves. The sender's record commits to
/// the terminal delegate `t` and keeps its weight; if `t` has already voted
/// directly, the sender's weight goes straight onto `t`'s chosen proposal,
/// otherwise it accumulates on `t`'s record. Nothing else changes, and the
/// committed tally plus the pending weight is conserved.
pub open spec fn delegate_post(pre: Contract, post: Contract, caller: Seq<char>, target: Seq<
    char,
>) -> bool {
    let m = pre.voters_map();
    let m2 = post.voters_map();
    let t = delegate_resolution(pre, caller, target).unwrap();
    let w = m[caller].weight;
    &&& post.wf()
    &&& post.chair_person@ == pre.chair_person@
    &&& m2.dom() == m.dom()
    &&& forall|k: Seq<char>|
        m.contains_key(k) && k != caller && k != t ==> #[trigger] m2[k] == m[k]
    &&& m2[caller].weight == w
    &&& m2[caller].voted
    &&& m2[caller].delegate is Some
    &&& m2[caller].delegate.unwrap()@ == t
    &&& m2[caller].vote is None
    &&& (if m[t].voted {
        let idx = m[t].vote.unwrap() as int;
        &&& m2[t] == m[t]
        &&& post.proposals@.len() == pre.proposals@.len()
        &&& (forall|j: int|
            0 <= j < pre.proposals@.len() && j != idx ==> post.proposals@[j]
                == pre.proposals@[j])
        &&& post.proposals@[idx].name == pre.proposals@[idx].name
        &&& post.proposals@[idx].vote_count == pre.proposals@[idx].vote_count + w
        &&& sum_vote_counts(post.proposals@) == sum_vote_counts(pre.proposals@) + w
    } else {
        &&& post.proposals@ == pre.proposals@
        &&& m2[t].weight == m[t].weight + w
        &&& m2[t].voted == m[t].voted
        &&& m2[t].delegate == m[t].delegate
        &&& m2[t].vote == m[t].vote
    })
    &&& sum_vote_counts(post.proposals@) + sum_pending_weight(post.voters@) == sum_vote_counts(
        pre.proposals@,
    ) + sum_pending_weight(pre.voters@)
}

/// The first index holding the strictly largest, non-zero tally.
pub open spec fn is_winning_index(s: Seq<Proposal>, i: int) -> bool {
    &&& 0 <= i < s.len()
    &&& s[i].vote_count > 0
    &&& forall|j: int| 0 <= j < i ==> (#[trigger] s[j]).vote_count < s[i].vote_count
    &&& forall|j: int| 0 <= j < s.len() ==> (#[trigger] s[j]).vote_count <= s[i].vote_count
}

impl Contract {
    /// Builds the ballot: the constructing caller becomes chairperson with a
    /// fresh voting record, and one proposal with an empty tally is created
    /// per name. The host runs this exactly once per ballot lifetime.
    pub fn new(chair_person: String, proposal_names: &Vec<String>) -> (c: Contract)
        ensures
            fresh_ballot(c, chair_person@, proposal_names@),
    {
        let key = chair_person.clone();
        let mut voters: Vec<(String, Voter)> = Vec::new();
        voters.push((key, Voter { weight: 1, voted: false, delegate: None, vote: None }));

        let mut proposals: Vec<Proposal> = Vec::new();
        let n: usize = proposal_names.len();
        let mut i: usize = 0;
        while i < n
            invariant
                n == proposal_names@.len(),
                i <= n,
                proposals@.len() == i,
                forall|j: int|
                    0 <= j < i ==> (#[trigger] proposals@[j]).name@ == proposal_names@[j]@
                        && proposals@[j].vote_count == 0,
                sum_vote_counts(proposals@) == 0,
            decreases n - i,
        {
            let name = proposal_names[i].clone();
            let p = Proposal { name, vote_count: 0 };
            proof {
                lemma_sum_vote_counts_push(proposals@, p);
            }
            proposals.push(p);
            i = i + 1;
        }

        let c = Contract { chair_person, voters, proposals };
        proof {
            assert(c.voters@.drop_last() =~= Seq::<(String, Voter)>::empty());
            assert(roster_map(c.voters@.drop_last()) =~= Map::<Seq<char>, Voter>::empty());
            assert(c.voters@.last().0@ == c.chair_person@);
            assert(c.voters@.last().1 == granted_voter());
            assert(sum_pending_weight(c.voters@.drop_last()) == 0);
            assert(sum_pending_weight(c.voters@) == 1);
            assert(c.voters_map() =~= Map::<Seq<char>, Voter>::empty().insert(
                c.chair_person@,
                granted_voter(),
            ));
        }
        c
    }

    /// The construction facade: refuses to build a second ballot. The host
    /// reports through `state_exists` whether a ballot state is already
    /// stored.
    pub fn construct(state_exists: bool, chair_person: String, proposal_names: &Vec<String>) -> (r:
        Result<Contract, VoteError>)
        ensures
            r is Err <==> state_exists,
            r is Err ==> r == Result::<Contract, VoteError>::Err(VoteError::AlreadyInitialized),
            r is Ok ==> fresh_ballot(r.unwrap(), chair_person@, proposal_names@),
    {
        if state_exists {
            return Err(VoteError::AlreadyInitialized);
        }
        Ok(Contract::new(chair_person, proposal_names))
    }

    /// Grants `voter` the right to vote. Only the chairperson may call this,
    /// and not for an account that has already committed its vote; granting
    /// again to an ungranted, unvoted account is harmless.
    pub fn give_right_to_vote(&mut self, caller: &String, voter: &String) -> (r: Result<
        (),
        VoteError,
    >)
        requires
            old(self).wf(),
        ensures
            final(self).wf(),
            r is Ok <==> grant_allowed(*old(self), caller@, voter@),
            r is Ok ==> grant_post(*old(self), *final(self), voter@),
            r is Err ==> *final(self) == *old(self) && r == Result::<(), VoteError>::Err(
                grant_error(*old(self), caller@),
            ),
    {
        if !(*caller == self.chair_person) {
            return Err(VoteError::Unauthorized);
        }
        let ghost pre = *self;
        match find_index(&self.voters, voter) {
            Some(i) => {
                proof {
                    lemma_roster_map_index(self.voters@, i as int);
                }
                if self.voters[i].1.voted {
                    return Err(VoteError::AlreadyVoted);
                }
                self.voters[i].1 = Voter { weight: 1, voted: false, delegate: None, vote: None };
                proof {
                    let e = (pre.voters@[i as int].0, granted_voter());
                    assert(self.voters@ =~= pre.voters@.update(i as int, e));
                    lemma_roster_map_update(pre.voters@, i as int, e);
                    lemma_sum_pending_weight_update(pre.voters@, i as int, e);
                    assert forall|j: int| 0 <= j < self.voters@.len() implies (
                    #[trigger] self.voters@[j]).1.wf(self.proposals@.len() as int) by {
                        if j != i as int {
                            assert(self.voters@[j] == pre.voters@[j]);
                        }
                    }
                }
                Ok(())
            },
            None => {
                proof {
                    lemma_roster_map_domain(self.voters@, voter@);
                }
                let key = voter.clone();
                let rec = Voter { weight: 1, voted: false, delegate: None, vote: None };
                proof {
                    lemma_roster_map_push(pre.voters@, (key, rec));
                    lemma_sum_pending_weight_push(pre.voters@, (key, rec));
                }
                self.voters.push((key, rec));
                proof {
                    assert forall|j: int| 0 <= j < self.voters@.len() implies (
                    #[trigger] self.voters@[j]).1.wf(self.proposals@.len() as int) by {
                        if j != self.voters@.len() - 1 {
                            assert(self.voters@[j] == pre.voters@[j]);
                        }
                    }
                }
                Ok(())
            },
        }
    }

    /// Casts the sender's full weight (including weight delegated to it) for
    /// the proposal at `proposals_index`.
    pub fn vote(&mut self, caller: &String, proposals_index: u64) -> (r: Result<(), VoteError>)
        requires
            old(self).wf(),
        ensures
            final(self).wf(),
            r is Ok <==> vote_allowed(*old(self), caller@, proposals_index),
            r is Ok ==> vote_post(*old(self), *final(self), caller@, proposals_index),
            r is Err ==> *final(self) == *old(self) && r == Result::<(), VoteError>::Err(
                vote_error(*old(self), caller@),
            ),
    {
        let nv: usize = self.voters.len();
        let si = match find_index(&self.voters, caller) {
            Some(i) => i,
            None => {
                proof {
                    lemma_roster_map_domain(self.voters@, caller@);
                }
                return Err(VoteError::NoVotingRight);
            },
        };
        proof {
            lemma_roster_map_index(self.voters@, si as int);
        }
        let w = self.voters[si].1.weight;
        if w == 0 {
            return Err(VoteError::NoVotingRight);
        }
        if self.voters[si].1.voted {
            return Err(VoteError::AlreadyVoted);
        }
        let np: usize = self.proposals.len();
        if proposals_index >= np as u64 {
            return Err(VoteError::InvalidProposalIndex);
        }
        let idx: usize = proposals_index as usize;

        let ghost pre = *self;
        proof {
            lemma_sum_vote_counts_bound(pre.proposals@, idx as int);
            lemma_sum_pending_weight_bound(pre.voters@, si as int);
        }
        let rec = Voter { weight: w, voted: true, delegate: None, vote: Some(proposals_index) };
        self.voters[si].1 = rec;
        let c = self.proposals[idx].vote_count;
        self.proposals[idx].vote_count = c + w;
        proof {
            let e = (pre.voters@[si as int].0, direct_voter(w, proposals_index));
            assert(self.voters@ =~= pre.voters@.update(si as int, e));
            lemma_roster_map_update(pre.voters@, si as int, e);
            lemma_sum_pending_weight_update(pre.voters@, si as int, e);
            let p = self.proposals@[idx as int];
            assert(self.proposals@ =~= pre.proposals@.update(idx as int, p));
            lemma_sum_vote_counts_update(pre.proposals@, idx as int, p);
            assert forall|j: int| 0 <= j < self.voters@.len() implies (
            #[trigger] self.voters@[j]).1.wf(self.proposals@.len() as int) by {
                if j != si as int {
                    assert(self.voters@[j] == pre.voters@[j]);
                }
            }
        }
        Ok(())
    }

    /// Delegates the sender's vote: the chain starting at `to` is walked to
    /// its terminal delegate, bounded by the roster size; the sender's
    /// weight then accumulates on the terminal's record, or directly on the
    /// proposal the terminal already voted for.
    pub fn delegate(&mut self, caller: &String, to: &String) -> (r: Result<(), VoteError>)
        requires
            old(self).wf(),
        ensures
            final(self).wf(),
            r is Ok <==> delegate_allowed(*old(self), caller@, to@),
            r is Ok ==> delegate_post(*old(self), *final(self), caller@, to@),
            r is Err ==> *final(self) == *old(self) && r == Result::<(), VoteError>::Err(
                delegate_error(*old(self), caller@, to@),
            ),
    {
        let ghost m = self.voters_map();
        let nv: usize = self.voters.len();
        let si = match find_index(&self.voters, caller) {
            Some(i) => i,
            None => {
                proof {
                    lemma_roster_map_domain(self.voters@, caller@);
                }
                return Err(VoteError::NoVotingRight);
            },
        };
        proof {
            lemma_roster_map_index(self.voters@, si as int);
        }
        let w = self.voters[si].1.weight;
        if w == 0 {
            return Err(VoteError::NoVotingRight);
        }
        if self.voters[si].1.voted {
            return Err(VoteError::AlreadyVoted);
        }
        if *to == *caller {
            return Err(VoteError::SelfDelegation);
        }

        // Walk the delegation chain from the target to its terminal.
        let mut cur: String = to.clone();
        let mut fuel: usize = nv;
        loop
            invariant
                *self == *old(self),
                self.wf(),
                m == self.voters_map(),
                nv == self.voters@.len(),
                m.contains_key(caller@),
                m[caller@].weight == w,
                w != 0,
                !m[caller@].voted,
                to@ != caller@,
                fuel <= nv,
                resolve_delegate(m, caller@, cur@, fuel as nat) == resolve_delegate(
                    m,
                    caller@,
                    to@,
                    nv as nat,
                ),
            ensures
                cur@ != caller@,
                !forwards(m, cur@),
                resolve_delegate(m, caller@, to@, nv as nat) == Some(cur@),
            decreases fuel,
        {
            if cur == *caller {
                return Err(VoteError::DelegationCycle);
            }
            match find_index(&self.voters, &cur) {
                None => {
                    proof {
                        lemma_roster_map_domain(self.voters@, cur@);
                    }
                    break;
                },
                Some(ci) => {
                    proof {
                        lemma_roster_map_index(self.voters@, ci as int);
                    }
                    let cv = &self.voters[ci].1;
                    if cv.voted {
                        match &cv.delegate {
                            Some(d) => {
                                if fuel == 0 {
                                    return Err(VoteError::DelegationCycle);
                                }
                                fuel = fuel - 1;
                                cur = d.clone();
                            },
                            None => {
                                break;
                            },
                        }
                    } else {
                        break;
                    }
                },
            }
        }

        // Validate the terminal delegate.
        let ti = match find_index(&self.voters, &cur) {
            None => {
                proof {
                    lemma_roster_map_domain(self.voters@, cur@);
                }
                return Err(VoteError::DelegateHasNoRight);
            },
            Some(i) => i,
        };
        proof {
            lemma_roster_map_index(self.voters@, ti as int);
        }
        let t_weight = self.voters[ti].1.weight;
        if t_weight == 0 {
            return Err(VoteError::DelegateHasNoRight);
        }
        let t_voted = self.voters[ti].1.voted;
        let t_vote: Option<u64> = self.voters[ti].1.vote;
        assert(ti != si);

        // All checks passed; commit the delegation atomically.
        let np: usize = self.proposals.len();
        let ghost pre = *self;
        let rec = Voter { weight: w, voted: true, delegate: Some(cur.clone()), vote: None };
        self.voters[si].1 = rec;
        proof {
            let e = (pre.voters@[si as int].0, rec);
            assert(self.voters@ =~= pre.voters@.update(si as int, e));
            lemma_roster_map_update(pre.voters@, si as int, e);
            lemma_sum_pending_weight_update(pre.voters@, si as int, e);
            lemma_sum_pending_weight_bound(pre.voters@, si as int);
            lemma_sum_vote_counts_nonneg(pre.proposals@);
            assert(pre.voters@[ti as int].1.wf(pre.proposals@.len() as int));
        }

        if t_voted {
            // The terminal has already voted directly: the weight goes
            // straight onto its chosen proposal.
            let idx64 = t_vote.unwrap();
            let idx: usize = idx64 as usize;
            proof {
                lemma_sum_vote_counts_bound(pre.proposals@, idx as int);
            }
            let c = self.proposals[idx].vote_count;
            self.proposals[idx].vote_count = c + w;
            proof {
                let p = self.proposals@[idx as int];
                assert(self.proposals@ =~= pre.proposals@.update(idx as int, p));
                lemma_sum_vote_counts_update(pre.proposals@, idx as int, p);
                assert(self.voters_map() == m.insert(caller@, rec));
                assert(self.voters_map().dom() =~= m.dom());
                assert forall|j: int| 0 <= j < self.voters@.len() implies (
                #[trigger] self.voters@[j]).1.wf(self.proposals@.len() as int) by {
                    if j != si as int {
                        assert(self.voters@[j] == pre.voters@[j]);
                    }
                }
            }
            Ok(())
        } else {
            // The terminal is still open: the weight accumulates on it.
            proof {
                lemma_sum_pending_weight_pair_bound(pre.voters@, si as int, ti as int);
            }
            let t_rec = Voter {
                weight: t_weight + w,
                voted: false,
                delegate: None,
                vote: None,
            };
            let ghost mid = *self;
            self.voters[ti].1 = t_rec;
            proof {
                let e2 = (pre.voters@[ti as int].0, t_rec);
                assert(mid.voters@[ti as int] == pre.voters@[ti as int]);
                assert(self.voters@ =~= mid.voters@.update(ti as int, e2));
                lemma_roster_map_update(mid.voters@, ti as int, e2);
                lemma_sum_pending_weight_update(mid.voters@, ti as int, e2);
                assert(self.voters_map() == m.insert(caller@, rec).insert(cur@, t_rec));
                assert(self.voters_map().dom() =~= m.dom());
                assert forall|j: int| 0 <= j < self.voters@.len() implies (
                #[trigger] self.voters@[j]).1.wf(self.proposals@.len() as int) by {
                    if j != si as int && j != ti as int {
                        assert(self.voters@[j] == pre.voters@[j]);
                    }
                }
            }
            Ok(())
        }
    }

    /// The index of the winning proposal: the first one holding the highest
    /// tally, or none while every tally is zero.
    pub fn winning_proposal(&self) -> (r: Option<u64>)
        ensures
            match r {
                Some(i) => is_winning_index(self.proposals@, i as int),
                None => forall|j: int|
                    0 <= j < self.proposals@.len() ==> (#[trigger] self.proposals@[j]).vote_count
                        == 0,
            },
    {
        let mut best: Option<u64> = None;
        let mut best_count: u64 = 0;
        let n: usize = self.proposals.len();
        let mut i: usize = 0;
        while i < n
            invariant
                n == self.proposals@.len(),
                i <= n,
                match best {
                    None => best_count == 0 && (forall|j: int|
                        0 <= j < i ==> (#[trigger] self.proposals@[j]).vote_count == 0),
                    Some(k) => {
                        &&& (k as int) < i
                        &&& self.proposals@[k as int].vote_count == best_count
                        &&& best_count > 0
                        &&& forall|j: int|
                            0 <= j < k ==> (#[trigger] self.proposals@[j]).vote_count < best_count
                        &&& forall|j: int|
                            0 <= j < i ==> (#[trigger] self.proposals@[j]).vote_count <= best_count
                    },
                },
            decreases n - i,
        {
            let c = self.proposals[i].vote_count;
            if c > best_count {
                best_count = c;
                best = Some(i as u64);
            }
            i = i + 1;
        }
        best
    }

    /// The name of the winning proposal, or none while every tally is zero.
    pub fn winner_name(&self) -> (r: Option<String>)
        ensures
            match r {
                Some(name) => exists|i: int|
                    is_winning_index(self.proposals@, i) && name@ == (
                    #[trigger] self.proposals@[i]).name@,
                None => forall|j: int|
                    0 <= j < self.proposals@.len() ==> (#[trigger] self.proposals@[j]).vote_count
                        == 0,
            },
    {
        let n: usize = self.proposals.len();
        match self.winning_proposal() {
            Some(i) => {
                let idx: usize = i as usize;
                let name = self.proposals[idx].name.clone();
                proof {
                    let gi = i as int;
                    assert(is_winning_index(self.proposals@, gi) && name@
                        == self.proposals@[gi].name@);
                }
                Some(name)
            },
            None => None,
        }
    }

    /// Looks the account's voter record up.
    pub fn get_voter(&self, id: &String) -> (r: Option<&Voter>)
        requires
            self.wf(),
        ensures
            match r {
                Some(v) => self.voters_map().contains_key(id@) && *v == self.voters_map()[id@],
                None => !self.voters_map().contains_key(id@),
            },
    {
        match find_index(&self.voters, id) {
            Some(i) => {
                proof {
                    lemma_roster_map_index(self.voters@, i as int);
                }
                Some(&self.voters[i].1)
            },
            None => {
                proof {
                    lemma_roster_map_domain(self.voters@, id@);
                }
                None
            },
        }
    }
}

impl Default for Contract {
    /// An empty ballot under a placeholder chairperson, as the host's
    /// default state before construction: no voters, no proposals.
    fn default() -> (c: Contract)
        ensures
            c.wf(),
            c.chair_person@ == "test.near"@,
            c.voters@.len() == 0,
            c.proposals@.len() == 0,
    {
        Contract {
            chair_person: String::from_str("test.near"),
            voters: Vec::new(),
            proposals: Vec::new(),
        }
    }
}

} // verus!
