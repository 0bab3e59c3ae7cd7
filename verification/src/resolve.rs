//! Delegation-chain resolution.
//!
//! Starting from a target account, the chain follows `delegate` references
//! while the visited account has committed its vote by delegation; it ends at
//! the first account that has not voted, voted directly, or has no record —
//! the terminal delegate. A walk that comes back to the sender, or runs
//! longer than the given bound, is a cycle.

use vstd::prelude::*;

use crate::types::Voter;

verus! {

/// Whether account `a` has committed its vote by delegating onwards: such an
/// account forwards the chain instead of ending it.
pub open spec fn forwards(m: Map<Seq<char>, Voter>, a: Seq<char>) -> bool {
    m.contains_key(a) && m[a].voted && m[a].delegate is Some
}

/// The terminal delegate of the chain that starts at `cur`, or `None` when
/// the chain comes back to `sender` or takes more than `fuel` hops.
pub open spec fn resolve_delegate(
    m: Map<Seq<char>, Voter>,
    sender: Seq<char>,
    cur: Seq<char>,
    fuel: nat,
) -> Option<Seq<char>>
    decreases fuel,
{
    if cur == sender {
        None
    } else if forwards(m, cur) {
        if fuel == 0 {
            None
        } else {
            resolve_delegate(m, sender, m[cur].delegate.unwrap()@, (fuel - 1) as nat)
        }
    } else {
        Some(cur)
    }
}

/// The chain from `a` reaches `b` in exactly `k` forwarding hops.
pub open spec fn chain_reaches(m: Map<Seq<char>, Voter>, a: Seq<char>, b: Seq<char>, k: nat) -> bool
    decreases k,
{
    if k == 0 {
        a == b
    } else {
        forwards(m, a) && chain_reaches(m, m[a].delegate.unwrap()@, b, (k - 1) as nat)
    }
}

/// A delegation chain that comes back to the sender is reported as a cycle,
/// however long the chain and whatever the bound on the walk.
pub proof fn lemma_chain_back_to_sender_is_cycle(
    m: Map<Seq<char>, Voter>,
    sender: Seq<char>,
    start: Seq<char>,
    k: nat,
    fuel: nat,
)
    requires
        chain_reaches(m, start, sender, k),
    ensures
        resolve_delegate(m, sender, start, fuel) is None,
    decreases k,
{
    if start != sender {
        if fuel > 0 {
            lemma_chain_back_to_sender_is_cycle(
                m,
                sender,
                m[start].delegate.unwrap()@,
                (k - 1) as nat,
                (fuel - 1) as nat,
            );
        }
    }
}

} // verus!
