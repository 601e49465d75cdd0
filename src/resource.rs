use vstd::prelude::*;
use crate::snapshot::Snapshot;
use crate::snapshot::models;
use crate::text::contains_seq;
use crate::pod::Pod;
use crate::node::Node;

verus! {

/// A resource snapshot kept in a cache: keyed by its id and searchable by its
/// id and display name. The model fixes both.
pub trait Resource: Snapshot {
    spec fn key(&self) -> Seq<char>;

    spec fn label(&self) -> Seq<char>;

    proof fn lemma_model_fixes_key(a: &Self, b: &Self)
        requires
            a.model() == b.model(),
        ensures
            a.key() == b.key(),
            a.label() == b.label(),
    ;

    fn key_str(&self) -> (r: &String)
        ensures
            r@ == self.key(),
    ;

    fn label_str(&self) -> (r: &String)
        ensures
            r@ == self.label(),
    ;
}

impl Resource for Pod {
    open spec fn key(&self) -> Seq<char> {
        self.id@
    }

    open spec fn label(&self) -> Seq<char> {
        self.name@
    }

    proof fn lemma_model_fixes_key(a: &Pod, b: &Pod) {
    }

    fn key_str(&self) -> (r: &String) {
        &self.id.0
    }

    fn label_str(&self) -> (r: &String) {
        &self.name
    }
}

impl Resource for Node {
    open spec fn key(&self) -> Seq<char> {
        self.id@
    }

    open spec fn label(&self) -> Seq<char> {
        self.name@
    }

    proof fn lemma_model_fixes_key(a: &Node, b: &Node) {
    }

    fn key_str(&self) -> (r: &String) {
        &self.id.raw_value
    }

    fn label_str(&self) -> (r: &String) {
        &self.name
    }
}

/// Keys are unique in `s`.
pub open spec fn unique_keys<R: Resource>(s: Seq<R>) -> bool {
    forall|i: int, j: int| 0 <= i < s.len() && 0 <= j < s.len() && i != j ==> s[i].key() != s[j].key()
}

/// The position of the entry with key `k` (the last one, were there two), or
/// -1 when there is none.
pub open spec fn key_index<R: Resource>(s: Seq<R>, k: Seq<char>) -> int
    decreases s.len(),
{
    if s.len() == 0 {
        -1
    } else if s.last().key() == k {
        s.len() - 1
    } else {
        key_index(s.drop_last(), k)
    }
}

pub open spec fn has_key<R: Resource>(s: Seq<R>, k: Seq<char>) -> bool {
    exists|i: int| 0 <= i < s.len() && #[trigger] s[i].key() == k
}

/// Puts `r` in place of the entry with its key, or appends it.
pub open spec fn put<R: Resource>(s: Seq<R>, r: R) -> Seq<R> {
    let i = key_index(s, r.key());
    if i < 0 {
        s.push(r)
    } else {
        s.update(i, r)
    }
}

/// Removes the entry with key `k`, if there is one.
pub open spec fn without<R: Resource>(s: Seq<R>, k: Seq<char>) -> Seq<R> {
    let i = key_index(s, k);
    if i < 0 {
        s
    } else {
        s.remove(i)
    }
}

/// Puts every entry of `items` in turn, so that of two entries with one key
/// the later stays.
pub open spec fn collect_keyed<R: Resource>(items: Seq<R>) -> Seq<R>
    decreases items.len(),
{
    if items.len() == 0 {
        Seq::empty()
    } else {
        put(collect_keyed(items.drop_last()), items.last())
    }
}

/// The search predicate: an empty search matches everything, otherwise the
/// search text must occur in the id or in the display name.
pub open spec fn matches_search<R: Resource>(r: R, search: Seq<char>) -> bool {
    search.len() == 0 || contains_seq(r.key(), search) || contains_seq(r.label(), search)
}

/// The entries that match the search, in order.
pub open spec fn visible<R: Resource>(s: Seq<R>, search: Seq<char>) -> Seq<R>
    decreases s.len(),
{
    if s.len() == 0 {
        Seq::empty()
    } else if matches_search(s.last(), search) {
        visible(s.drop_last(), search).push(s.last())
    } else {
        visible(s.drop_last(), search)
    }
}

pub proof fn lemma_key_index<R: Resource>(s: Seq<R>, k: Seq<char>)
    ensures
        -1 <= key_index(s, k) < s.len(),
        key_index(s, k) >= 0 ==> s[key_index(s, k)].key() == k,
        key_index(s, k) < 0 <==> !has_key(s, k),
        unique_keys(s) ==> forall|i: int| 0 <= i < s.len() && s[i].key() == k ==> i == key_index(s, k),
    decreases s.len(),
{
    if s.len() > 0 {
        lemma_key_index(s.drop_last(), k);
        if s.last().key() != k {
            if has_key(s, k) {
                let i = choose|i: int| 0 <= i < s.len() && #[trigger] s[i].key() == k;
                assert(s.drop_last()[i].key() == k);
            }
            if has_key(s.drop_last(), k) {
                let i = choose|i: int| 0 <= i < s.len() - 1 && #[trigger] s.drop_last()[i].key() == k;
                assert(s[i].key() == k);
            }
        } else {
            assert(s[s.len() - 1].key() == k);
        }
        if unique_keys(s) {
            assert(unique_keys(s.drop_last())) by {
                assert forall|i: int, j: int|
                    0 <= i < s.len() - 1 && 0 <= j < s.len() - 1 && i != j implies s.drop_last()[i].key()
                        != s.drop_last()[j].key() by {
                    assert(s[i].key() != s[j].key());
                }
            }
        }
    }
}

pub proof fn lemma_put_unique<R: Resource>(s: Seq<R>, r: R)
    requires
        unique_keys(s),
    ensures
        unique_keys(put(s, r)),
        has_key(put(s, r), r.key()),
        put(s, r)[key_index(put(s, r), r.key())] == r,
        forall|k: Seq<char>| has_key(put(s, r), k) <==> (has_key(s, k) || k == r.key()),
{
    lemma_key_index(s, r.key());
    let t = put(s, r);
    let i = key_index(s, r.key());
    if i < 0 {
        assert(t[s.len() as int] == r);
        assert forall|k: Seq<char>| has_key(t, k) <==> (has_key(s, k) || k == r.key()) by {
            if has_key(s, k) {
                let j = choose|j: int| 0 <= j < s.len() && #[trigger] s[j].key() == k;
                assert(t[j].key() == k);
            }
            if has_key(t, k) && k != r.key() {
                let j = choose|j: int| 0 <= j < t.len() && #[trigger] t[j].key() == k;
                assert(s[j].key() == k);
            }
        }
    } else {
        assert(t[i] == r);
        assert forall|k: Seq<char>| has_key(t, k) <==> (has_key(s, k) || k == r.key()) by {
            if has_key(s, k) {
                let j = choose|j: int| 0 <= j < s.len() && #[trigger] s[j].key() == k;
                if j != i {
                    assert(t[j].key() == k);
                } else {
                    assert(t[i].key() == k);
                }
            }
            if has_key(t, k) && k != r.key() {
                let j = choose|j: int| 0 <= j < t.len() && #[trigger] t[j].key() == k;
                assert(s[j].key() == k);
            }
        }
    }
    lemma_key_index(t, r.key());
}

pub proof fn lemma_without_unique<R: Resource>(s: Seq<R>, k: Seq<char>)
    requires
        unique_keys(s),
    ensures
        unique_keys(without(s, k)),
        !has_key(without(s, k), k),
        forall|k2: Seq<char>| k2 != k ==> (has_key(without(s, k), k2) <==> has_key(s, k2)),
{
    lemma_key_index(s, k);
    let i = key_index(s, k);
    let t = without(s, k);
    if i >= 0 {
        assert forall|a: int, b: int|
            0 <= a < t.len() && 0 <= b < t.len() && a != b implies t[a].key() != t[b].key() by {
            let a2 = if a < i { a } else { a + 1 };
            let b2 = if b < i { b } else { b + 1 };
            assert(t[a] == s[a2]);
            assert(t[b] == s[b2]);
        }
        assert forall|k2: Seq<char>| has_key(t, k2) implies has_key(s, k2) && k2 != k by {
            let j = choose|j: int| 0 <= j < t.len() && #[trigger] t[j].key() == k2;
            let j2 = if j < i { j } else { j + 1 };
            assert(s[j2].key() == k2);
        }
        assert forall|k2: Seq<char>| k2 != k && has_key(s, k2) implies has_key(t, k2) by {
            let j = choose|j: int| 0 <= j < s.len() && #[trigger] s[j].key() == k2;
            assert(j != i);
            if j < i {
                assert(t[j].key() == k2);
            } else {
                assert(t[j - 1].key() == k2);
            }
        }
    }
}

} // verus!
