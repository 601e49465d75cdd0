use vstd::prelude::*;

verus! {

/// The position of key `k` in `ks` (the last one, were there two), or -1.
pub open spec fn index_of_key(ks: Seq<Seq<char>>, k: Seq<char>) -> int
    decreases ks.len(),
{
    if ks.len() == 0 {
        -1
    } else if ks.last() == k {
        ks.len() - 1
    } else {
        index_of_key(ks.drop_last(), k)
    }
}

/// No key occurs twice.
pub open spec fn distinct_keys(ks: Seq<Seq<char>>) -> bool {
    forall|i: int, j: int| 0 <= i < ks.len() && 0 <= j < ks.len() && i != j ==> ks[i] != ks[j]
}

pub proof fn lemma_index_of_key(ks: Seq<Seq<char>>, k: Seq<char>)
    ensures
        -1 <= index_of_key(ks, k) < ks.len(),
        index_of_key(ks, k) >= 0 ==> ks[index_of_key(ks, k)] == k,
        index_of_key(ks, k) < 0 <==> !ks.contains(k),
        distinct_keys(ks) ==> forall|i: int| 0 <= i < ks.len() && #[trigger] ks[i] == k ==> i == index_of_key(ks, k),
    decreases ks.len(),
{
    if ks.len() > 0 {
        lemma_index_of_key(ks.drop_last(), k);
        if ks.last() != k {
            if ks.contains(k) {
                let i = choose|i: int| 0 <= i < ks.len() && ks[i] == k;
                assert(ks.drop_last()[i] == k);
            }
            if ks.drop_last().contains(k) {
                let i = choose|i: int| 0 <= i < ks.len() - 1 && ks.drop_last()[i] == k;
                assert(ks[i] == k);
            }
        } else {
            assert(ks[ks.len() - 1] == k);
        }
        if distinct_keys(ks) {
            assert forall|i: int, j: int|
                0 <= i < ks.len() - 1 && 0 <= j < ks.len() - 1 && i != j implies ks.drop_last()[i]
                    != ks.drop_last()[j] by {
                assert(ks[i] != ks[j]);
            }
        }
    }
}

} // verus!
