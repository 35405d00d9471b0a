//! Facts about sequences that several modules need.

use vstd::multiset::*;
use vstd::prelude::*;
use vstd::seq_lib::*;

verus! {

/// Inserting an element anywhere adds it once to the multiset.
pub proof fn lemma_insert_multiset<A>(s: Seq<A>, i: int, a: A)
    requires
        0 <= i <= s.len(),
    ensures
        s.insert(i, a).to_multiset() == s.to_multiset().insert(a),
{
    broadcast use group_multiset_axioms;

    let inserted = s.insert(i, a);
    to_multiset_remove(inserted, i);
    assert(inserted.remove(i) =~= s);
    inserted.to_multiset_ensures();
    assert(inserted[i] == a);
    assert(inserted.contains(a));
    assert(inserted.to_multiset() =~= s.to_multiset().insert(a));
}

} // verus!
