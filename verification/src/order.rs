//! Stable insertion into sorted sequences, as `slice::sort_by` orders.

use vstd::prelude::*;

verus! {

/// `x` placed into `s` just before the first element that `x` sorts
/// strictly before.
pub open spec fn insert_by<A>(s: Seq<A>, x: A, lt: spec_fn(A, A) -> bool) -> Seq<A>
    decreases s.len(),
{
    if s.len() == 0 {
        seq![x]
    } else if lt(x, s[0]) {
        seq![x] + s
    } else {
        seq![s[0]] + insert_by(s.drop_first(), x, lt)
    }
}

/// `s` sorted by `lt`; elements that neither sorts before keep their
/// relative order (a stable sort).
pub open spec fn sort_by<A>(s: Seq<A>, lt: spec_fn(A, A) -> bool) -> Seq<A>
    decreases s.len(),
{
    if s.len() == 0 {
        seq![]
    } else {
        insert_by(sort_by(s.drop_last(), lt), s.last(), lt)
    }
}

/// Inserting at the first position whose element `x` sorts before.
pub proof fn lemma_insert_at<A>(s: Seq<A>, x: A, lt: spec_fn(A, A) -> bool, p: int)
    requires
        0 <= p <= s.len(),
        forall|j: int| 0 <= j < p ==> !lt(x, #[trigger] s[j]),
        p < s.len() ==> lt(x, s[p]),
    ensures
        insert_by(s, x, lt) == s.insert(p, x),
    decreases s.len(),
{
    if s.len() == 0 {
        assert(s.insert(p, x) =~= seq![x]);
    } else if p == 0 {
        assert(s.insert(p, x) =~= seq![x] + s);
    } else {
        lemma_insert_at(s.drop_first(), x, lt, p - 1);
        assert(s.insert(p, x) =~= seq![s[0]] + s.drop_first().insert(p - 1, x));
    }
}


/// No element sorts strictly before one that comes earlier.
pub open spec fn sorted_by<A>(s: Seq<A>, lt: spec_fn(A, A) -> bool) -> bool {
    forall|i: int, j: int| 0 <= i < j < s.len() ==> !lt(#[trigger] s[j], #[trigger] s[i])
}

/// `lt` is a strict order: never `lt(a, a)`, and transitive.
pub open spec fn strict_order<A>(lt: spec_fn(A, A) -> bool) -> bool {
    &&& forall|a: A| !#[trigger] lt(a, a)
    &&& forall|a: A, b: A, c: A| #[trigger] lt(a, b) && #[trigger] lt(b, c) ==> lt(a, c)
}

/// Where [`insert_by`] puts `x`.
pub open spec fn insert_pos<A>(s: Seq<A>, x: A, lt: spec_fn(A, A) -> bool) -> int
    decreases s.len(),
{
    if s.len() == 0 {
        0
    } else if lt(x, s[0]) {
        0
    } else {
        1 + insert_pos(s.drop_first(), x, lt)
    }
}

pub proof fn lemma_insert_pos<A>(s: Seq<A>, x: A, lt: spec_fn(A, A) -> bool)
    ensures
        0 <= insert_pos(s, x, lt) <= s.len(),
        insert_by(s, x, lt) == s.insert(insert_pos(s, x, lt), x),
        forall|k: int| 0 <= k < insert_pos(s, x, lt) ==> !lt(x, #[trigger] s[k]),
        insert_pos(s, x, lt) < s.len() ==> lt(x, s[insert_pos(s, x, lt)]),
    decreases s.len(),
{
    if s.len() == 0 {
        assert(s.insert(0, x) =~= seq![x]);
    } else if lt(x, s[0]) {
        assert(s.insert(0, x) =~= seq![x] + s);
    } else {
        let t = s.drop_first();
        lemma_insert_pos(t, x, lt);
        let p = insert_pos(t, x, lt);
        assert(s.insert(p + 1, x) =~= seq![s[0]] + t.insert(p, x));
        assert forall|k: int| 0 <= k < p + 1 implies !lt(x, #[trigger] s[k]) by {
            if k > 0 {
                assert(s[k] == t[k - 1]);
            }
        }
        if p < t.len() {
            assert(s[p + 1] == t[p]);
        }
    }
}

pub proof fn lemma_insert_sorted<A>(s: Seq<A>, x: A, lt: spec_fn(A, A) -> bool)
    requires
        sorted_by(s, lt),
        strict_order(lt),
    ensures
        sorted_by(insert_by(s, x, lt), lt),
{
    lemma_insert_pos(s, x, lt);
    let p = insert_pos(s, x, lt);
    let r = s.insert(p, x);
    assert forall|i: int, j: int| 0 <= i < j < r.len() implies !lt(#[trigger] r[j], #[trigger] r[i]) by {
        if j < p {
            assert(r[i] == s[i] && r[j] == s[j]);
        } else if j == p {
            assert(r[j] == x && r[i] == s[i]);
        } else if i < p {
            assert(r[i] == s[i] && r[j] == s[j - 1]);
        } else if i == p {
            assert(r[i] == x && r[j] == s[j - 1]);
            if lt(s[j - 1], x) {
                assert(lt(x, s[p]));
                assert(lt(s[j - 1], s[p]));
                if j - 1 == p {
                    assert(!lt(s[p], s[p]));
                }
            }
        } else {
            assert(r[i] == s[i - 1] && r[j] == s[j - 1]);
        }
    }
}

/// A sort by a strict order yields a sorted sequence.
pub proof fn lemma_sort_sorted<A>(s: Seq<A>, lt: spec_fn(A, A) -> bool)
    requires
        strict_order(lt),
    ensures
        sorted_by(sort_by(s, lt), lt),
    decreases s.len(),
{
    if s.len() > 0 {
        lemma_sort_sorted(s.drop_last(), lt);
        lemma_insert_sorted(sort_by(s.drop_last(), lt), s.last(), lt);
    }
}

/// Sorting keeps every element, each as often as it occurs.
pub proof fn lemma_sort_permutes<A>(s: Seq<A>, lt: spec_fn(A, A) -> bool)
    ensures
        sort_by(s, lt).to_multiset() == s.to_multiset(),
    decreases s.len(),
{
    broadcast use vstd::seq_lib::group_seq_properties;
    if s.len() == 0 {
        assert(sort_by(s, lt) =~= s);
    } else {
        let t = sort_by(s.drop_last(), lt);
        lemma_sort_permutes(s.drop_last(), lt);
        lemma_insert_pos(t, s.last(), lt);
        let p = insert_pos(t, s.last(), lt);
        t.insert_ensures(p, s.last());
        assert(s.drop_last().push(s.last()) =~= s);
    }
}

} // verus!
