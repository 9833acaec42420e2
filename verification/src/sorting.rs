//! Stable ordering by a numeric key, largest key first.

use vstd::prelude::*;

verus! {

/// The predicate "has key `k`".
pub open spec fn key_is<T>(key: spec_fn(T) -> u64, k: u64) -> spec_fn(T) -> bool {
    |e: T| key(e) == k
}

/// Keys never increase from one element to a later one.
pub open spec fn sorted_by_key_desc<T>(s: Seq<T>, key: spec_fn(T) -> u64) -> bool {
    forall|i: int, j: int| 0 <= i < j < s.len() ==> key(s[i]) >= key(s[j])
}

/// `out` is `s` ordered by key, largest first, where elements with the same key
/// keep the order they had in `s`.
pub open spec fn stably_sorted_desc<T>(out: Seq<T>, s: Seq<T>, key: spec_fn(T) -> u64) -> bool {
    &&& out.len() == s.len()
    &&& sorted_by_key_desc(out, key)
    &&& forall|k: u64| #[trigger] out.filter(key_is(key, k)) == s.filter(key_is(key, k))
}

proof fn lemma_filter_none<T>(s: Seq<T>, pred: spec_fn(T) -> bool)
    requires
        forall|i: int| 0 <= i < s.len() ==> !pred(s[i]),
    ensures
        s.filter(pred) == Seq::<T>::empty(),
    decreases s.len(),
{
    reveal(Seq::filter);
    if s.len() > 0 {
        lemma_filter_none(s.drop_last(), pred);
    }
}

pub proof fn lemma_filter_push<T>(s: Seq<T>, x: T, pred: spec_fn(T) -> bool)
    ensures
        s.push(x).filter(pred) == if pred(x) { s.filter(pred).push(x) } else { s.filter(pred) },
{
    reveal_with_fuel(Seq::filter, 1);
    assert(s.push(x).drop_last() =~= s);
}

proof fn lemma_filter_single<T>(x: T, pred: spec_fn(T) -> bool)
    ensures
        seq![x].filter(pred) == if pred(x) { seq![x] } else { Seq::<T>::empty() },
{
    lemma_filter_push(Seq::<T>::empty(), x, pred);
    lemma_filter_none(Seq::<T>::empty(), pred);
    assert(Seq::<T>::empty().push(x) =~= seq![x]);
}

/// Orders `items` by `keys` (the key of each item at the same index), largest
/// key first, keeping the relative order of items with equal keys.
pub(crate) fn sort_desc_by_keys<T>(items: Vec<T>, keys: Vec<u64>, Ghost(key): Ghost<spec_fn(T) -> u64>) -> (out: Vec<T>)
    requires
        items@.len() == keys@.len(),
        forall|i: int| 0 <= i < items@.len() ==> keys@[i] == key(items@[i]),
    ensures
        stably_sorted_desc(out@, items@, key),
{
    let ghost original = items@;
    let mut items = items;
    let mut keys = keys;
    let mut out: Vec<T> = Vec::new();
    let mut out_keys: Vec<u64> = Vec::new();
    let n = items.len();
    let mut i: usize = 0;
    while i < n
        invariant
            n == original.len(),
            i <= n,
            items@ == original.skip(i as int),
            keys@.len() == items@.len(),
            forall|j: int| 0 <= j < items@.len() ==> keys@[j] == key(items@[j]),
            out@.len() == i,
            out_keys@.len() == out@.len(),
            forall|j: int| 0 <= j < out@.len() ==> out_keys@[j] == key(out@[j]),
            sorted_by_key_desc(out@, key),
            forall|k: u64| #[trigger] out@.filter(key_is(key, k)) == original.take(i as int).filter(key_is(key, k)),
        decreases n - i,
    {
        let x = items.remove(0);
        let kx = keys.remove(0);
        proof {
            assert(original.skip(i as int).drop_first() =~= original.skip(i + 1));
        }
        let mut pos: usize = 0;
        while pos < out.len() && out_keys[pos] >= kx
            invariant
                pos <= out@.len(),
                out_keys@.len() == out@.len(),
                forall|j: int| 0 <= j < pos ==> out_keys@[j] >= kx,
            decreases out@.len() - pos,
        {
            pos = pos + 1;
        }
        let ghost before = out@;
        proof {
            assert(x == original[i as int]);
            assert(kx == key(x));
            assert forall|j: int| 0 <= j < pos implies key(before[j]) >= kx by {
                assert(out_keys@[j] >= kx);
            }
            assert forall|j: int| pos <= j < before.len() implies key(before[j]) < kx by {
                if j > pos {
                    assert(key(before[pos as int]) >= key(before[j]));
                }
            }
            assert(original.take(i + 1) =~= original.take(i as int).push(x));
            assert(before.insert(pos as int, x) =~= before.take(pos as int) + seq![x] + before.skip(pos as int));
            assert(before =~= before.take(pos as int) + before.skip(pos as int));
            assert forall|k: u64| #[trigger] before.insert(pos as int, x).filter(key_is(key, k))
                == original.take(i + 1).filter(key_is(key, k)) by {
                let p = key_is(key, k);
                let a = before.take(pos as int);
                let b = before.skip(pos as int);
                Seq::filter_distributes_over_add(a + seq![x], b, p);
                Seq::filter_distributes_over_add(a, seq![x], p);
                Seq::filter_distributes_over_add(a, b, p);
                lemma_filter_single(x, p);
                lemma_filter_push(original.take(i as int), x, p);
                assert(out@.filter(p) == original.take(i as int).filter(p));
                if k == kx {
                    lemma_filter_none(b, p);
                    assert(a.filter(p) + seq![x] + Seq::<T>::empty() =~= (a.filter(p) + b.filter(p)).push(x));
                } else {
                    assert(a.filter(p) + Seq::<T>::empty() + b.filter(p) =~= a.filter(p) + b.filter(p));
                }
            }
        }
        out.insert(pos, x);
        out_keys.insert(pos, kx);
        proof {
            assert(out@ == before.insert(pos as int, x));
            assert forall|a: int, b: int| 0 <= a < b < out@.len() implies key(out@[a]) >= key(out@[b]) by {
                if a < pos && b < pos {
                    assert(out@[a] == before[a] && out@[b] == before[b]);
                } else if a < pos && b == pos {
                    assert(out@[a] == before[a] && out@[b] == x);
                    assert(key(before[a]) >= kx);
                } else if a < pos {
                    assert(out@[a] == before[a] && out@[b] == before[b - 1]);
                    assert(key(before[a]) >= key(before[b - 1]));
                } else if a == pos {
                    assert(out@[a] == x && out@[b] == before[b - 1]);
                    assert(key(before[b - 1]) < kx);
                } else {
                    assert(out@[a] == before[a - 1] && out@[b] == before[b - 1]);
                    assert(key(before[a - 1]) >= key(before[b - 1]));
                }
            }
        }
        i = i + 1;
    }
    proof {
        assert(original.take(n as int) =~= original);
    }
    out
}

proof fn lemma_filter_keeps_count<T>(s: Seq<T>, pred: spec_fn(T) -> bool, x: T)
    requires
        pred(x),
    ensures
        s.filter(pred).to_multiset().count(x) == s.to_multiset().count(x),
    decreases s.len(),
{
    broadcast use vstd::seq_lib::group_to_multiset_ensures;
    if s.len() > 0 {
        lemma_filter_keeps_count(s.drop_last(), pred, x);
        lemma_filter_push(s.drop_last(), s.last(), pred);
        assert(s.drop_last().push(s.last()) =~= s);
    } else {
        reveal(Seq::filter);
    }
}

/// A stable ordering keeps exactly the elements it was given, each as often.
pub proof fn lemma_stable_sort_is_permutation<T>(out: Seq<T>, s: Seq<T>, key: spec_fn(T) -> u64)
    requires
        stably_sorted_desc(out, s, key),
    ensures
        out.to_multiset() == s.to_multiset(),
{
    assert forall|x: T| out.to_multiset().count(x) == s.to_multiset().count(x) by {
        let p = key_is(key, key(x));
        assert(out.filter(p) == s.filter(p));
        lemma_filter_keeps_count(out, p, x);
        lemma_filter_keeps_count(s, p, x);
    }
    assert(out.to_multiset() =~= s.to_multiset());
}

} // verus!
