//! The voter roster: an association list from account identifier to voter
//! record, read through a finite map view.
//!
//! The ballot keeps voters as a vector of `(account, record)` pairs whose
//! keys are pairwise distinct; `roster_map` is the map the pairs denote, and
//! the lemmas here relate the vector operations (lookup, in-place update,
//! append) to map lookup and insertion.

use vstd::prelude::*;

use crate::types::Voter;

verus! {

/// The account keys of the entries, as character sequences.
pub open spec fn keys_distinct(s: Seq<(String, Voter)>) -> bool {
    forall|i: int, j: int|
        0 <= i < j < s.len() ==> (#[trigger] s[i]).0@ != (#[trigger] s[j]).0@
}

/// The finite map an entry list denotes: later entries shadow earlier ones,
/// which does not matter while the keys are distinct.
pub open spec fn roster_map(s: Seq<(String, Voter)>) -> Map<Seq<char>, Voter>
    decreases s.len(),
{
    if s.len() == 0 {
        Map::empty()
    } else {
        roster_map(s.drop_last()).insert(s.last().0@, s.last().1)
    }
}

/// A key lies in the map exactly when some entry carries it.
pub proof fn lemma_roster_map_domain(s: Seq<(String, Voter)>, k: Seq<char>)
    ensures
        roster_map(s).contains_key(k) <==> exists|i: int|
            0 <= i < s.len() && (#[trigger] s[i]).0@ == k,
    decreases s.len(),
{
    if s.len() > 0 {
        lemma_roster_map_domain(s.drop_last(), k);
        if s.last().0@ == k {
            assert(s[s.len() - 1].0@ == k);
        } else {
            if roster_map(s).contains_key(k) {
                let i = choose|i: int| 0 <= i < s.drop_last().len() && (#[trigger] s.drop_last()[i]).0@ == k;
                assert(s[i].0@ == k);
            }
            if exists|i: int| 0 <= i < s.len() && (#[trigger] s[i]).0@ == k {
                let i = choose|i: int| 0 <= i < s.len() && (#[trigger] s[i]).0@ == k;
                assert(i < s.len() - 1);
                assert(s.drop_last()[i].0@ == k);
            }
        }
    }
}

/// With distinct keys, the map carries each entry's record under its key.
pub proof fn lemma_roster_map_index(s: Seq<(String, Voter)>, i: int)
    requires
        keys_distinct(s),
        0 <= i < s.len(),
    ensures
        roster_map(s).contains_key(s[i].0@),
        roster_map(s)[s[i].0@] == s[i].1,
    decreases s.len(),
{
    if i == s.len() - 1 {
    } else {
        assert(s.drop_last()[i] == s[i]);
        lemma_roster_map_index(s.drop_last(), i);
        assert(s[s.len() - 1].0@ != s[i].0@);
    }
}

/// Replacing an entry in place, keeping its key, is map insertion.
pub proof fn lemma_roster_map_update(s: Seq<(String, Voter)>, i: int, e: (String, Voter))
    requires
        keys_distinct(s),
        0 <= i < s.len(),
        e.0@ == s[i].0@,
    ensures
        roster_map(s.update(i, e)) == roster_map(s).insert(e.0@, e.1),
        keys_distinct(s.update(i, e)),
    decreases s.len(),
{
    let t = s.update(i, e);
    assert(keys_distinct(t));
    if i == s.len() - 1 {
        assert(t.drop_last() =~= s.drop_last());
        assert(t.last() == e);
        assert(roster_map(t) =~= roster_map(s).insert(e.0@, e.1));
    } else {
        assert(t.drop_last() =~= s.drop_last().update(i, e));
        assert(t.last() == s.last());
        lemma_roster_map_update(s.drop_last(), i, e);
        assert(s.last().0@ != e.0@);
        assert(roster_map(t) == roster_map(s.drop_last()).insert(e.0@, e.1).insert(
            s.last().0@,
            s.last().1,
        ));
        assert(roster_map(t) =~= roster_map(s).insert(e.0@, e.1));
    }
}

/// Appending an entry under a fresh key is map insertion.
pub proof fn lemma_roster_map_push(s: Seq<(String, Voter)>, e: (String, Voter))
    requires
        keys_distinct(s),
        forall|i: int| 0 <= i < s.len() ==> (#[trigger] s[i]).0@ != e.0@,
    ensures
        roster_map(s.push(e)) == roster_map(s).insert(e.0@, e.1),
        keys_distinct(s.push(e)),
{
    assert(s.push(e).drop_last() =~= s);
    assert(s.push(e).last() == e);
    assert(keys_distinct(s.push(e))) by {
        assert(forall|i: int|
            0 <= i < s.len() ==> (#[trigger] s.push(e)[i]) == s[i]);
    }
}

/// Finds the position of an account in the roster, or reports that no entry
/// carries it.
pub fn find_index(entries: &Vec<(String, Voter)>, id: &String) -> (r: Option<usize>)
    ensures
        match r {
            Some(i) => i < entries@.len() && entries@[i as int].0@ == id@,
            None => forall|j: int| 0 <= j < entries@.len() ==> (#[trigger] entries@[j]).0@ != id@,
        },
{
    let n: usize = entries.len();
    let mut i: usize = 0;
    while i < n
        invariant
            n == entries@.len(),
            i <= n,
            forall|j: int| 0 <= j < i ==> (#[trigger] entries@[j]).0@ != id@,
        decreases n - i,
    {
        if entries[i].0 == *id {
            return Some(i);
        }
        i = i + 1;
    }
    None
}

} // verus!
