use vstd::prelude::*;

verus! {

broadcast use vstd::seq_lib::group_to_multiset_ensures;

/// Exchanging two entries keeps a sequence's multiset.
pub proof fn lemma_swap_multiset<A>(s: Seq<A>, i: int, j: int)
    requires
        0 <= i < s.len(),
        0 <= j < s.len(),
    ensures
        s.update(i, s[j]).update(j, s[i]).to_multiset() == s.to_multiset(),
{
    broadcast use vstd::multiset::group_multiset_axioms;

    let s1 = s.update(i, s[j]);
    vstd::seq_lib::to_multiset_update(s, i, s[j]);
    vstd::seq_lib::to_multiset_update(s1, j, s[i]);
    assert(s.to_multiset().contains(s[i]));
    if i != j {
        assert(s1[j] == s[j]);
    }
    assert(s.to_multiset().insert(s[j]).remove(s[i]).insert(s[i]).remove(s1[j]) =~= s.to_multiset());
}

} // verus!
