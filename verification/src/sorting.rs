//! Stable insertion sort by an integer key, with the sorted order modelled
//! exactly: each element is placed after every earlier element whose key is
//! not greater, which is what `slice::sort_by_key` produces.

use vstd::prelude::*;
use vstd::relations::*;

verus! {

broadcast use vstd::seq_lib::group_to_multiset_ensures;

/// Values that are ordered by an integer key.
pub trait SortKey: Sized {
    spec fn key_of(&self) -> int;

    fn key(&self) -> (k: i128)
        ensures
            k as int == self.key_of(),
    ;
}

impl SortKey for u64 {
    open spec fn key_of(&self) -> int {
        *self as int
    }

    fn key(&self) -> (k: i128) {
        *self as i128
    }
}

/// Number of elements of `s` whose key is at most `k`.
pub open spec fn count_key_le<T: SortKey>(s: Seq<T>, k: int) -> nat
    decreases s.len(),
{
    if s.len() == 0 {
        0
    } else {
        count_key_le(s.drop_last(), k) + if s.last().key_of() <= k { 1nat } else { 0nat }
    }
}

/// At most every element has a key at most `k`.
pub proof fn lemma_count_key_le_bound<T: SortKey>(s: Seq<T>, k: int)
    ensures
        count_key_le(s, k) <= s.len(),
    decreases s.len(),
{
    if s.len() > 0 {
        lemma_count_key_le_bound(s.drop_last(), k);
    }
}

/// Inserts `x` after every element of the sorted `s` whose key is at most `x`'s.
pub open spec fn insert_by_key<T: SortKey>(s: Seq<T>, x: T) -> Seq<T> {
    s.insert(count_key_le(s, x.key_of()) as int, x)
}

/// The stable sort of `s` by key.
pub open spec fn stable_sort<T: SortKey>(s: Seq<T>) -> Seq<T>
    decreases s.len(),
{
    if s.len() == 0 {
        s
    } else {
        insert_by_key(stable_sort(s.drop_last()), s.last())
    }
}

/// Keys never decrease along `s`.
pub open spec fn sorted_by_key<T: SortKey>(s: Seq<T>) -> bool {
    forall|i: int, j: int| 0 <= i < j < s.len() ==> s[i].key_of() <= s[j].key_of()
}

proof fn lemma_count_prefix<T: SortKey>(s: Seq<T>, k: int, p: int)
    requires
        0 <= p <= s.len(),
        forall|i: int| 0 <= i < p ==> #[trigger] s[i].key_of() <= k,
        forall|i: int| p <= i < s.len() ==> #[trigger] s[i].key_of() > k,
    ensures
        count_key_le(s, k) == p,
    decreases s.len(),
{
    if s.len() > 0 {
        let t = s.drop_last();
        if p == s.len() {
            lemma_count_prefix(t, k, p - 1);
        } else {
            lemma_count_prefix(t, k, p);
        }
    }
}

proof fn lemma_insert_sorted<T: SortKey>(s: Seq<T>, x: T, p: int)
    requires
        sorted_by_key(s),
        0 <= p <= s.len(),
        forall|i: int| 0 <= i < p ==> #[trigger] s[i].key_of() <= x.key_of(),
        forall|i: int| p <= i < s.len() ==> #[trigger] s[i].key_of() > x.key_of(),
    ensures
        insert_by_key(s, x) == s.insert(p, x),
        sorted_by_key(s.insert(p, x)),
        s.insert(p, x).to_multiset() == s.to_multiset().insert(x),
{
    lemma_count_prefix(s, x.key_of(), p);
    let t = s.insert(p, x);
    s.insert_ensures(p, x);
    assert forall|i: int, j: int| 0 <= i < j < t.len() implies t[i].key_of() <= t[j].key_of() by {
        if i < p && j < p {
        } else if i < p && j == p {
        } else if i < p {
            assert(t[j] == s[j - 1]);
        } else if i == p {
            assert(t[j] == s[j - 1]);
        } else {
            assert(t[i] == s[i - 1]);
            assert(t[j] == s[j - 1]);
        }
    }
    assert(t.remove(p) =~= s);
    vstd::seq_lib::to_multiset_remove(t, p);
    assert(t.to_multiset().count(x) > 0) by {
        assert(t.contains(x) ==> t.to_multiset().count(x) > 0);
        assert(t[p] == x);
    }
    assert(t.to_multiset() =~= s.to_multiset().insert(x));
}

proof fn lemma_sorted_prefix_split<T: SortKey>(s: Seq<T>, k: int)
    requires
        sorted_by_key(s),
    ensures
        ({
            let p = count_key_le(s, k) as int;
            &&& 0 <= p <= s.len()
            &&& forall|i: int| 0 <= i < p ==> #[trigger] s[i].key_of() <= k
            &&& forall|i: int| p <= i < s.len() ==> #[trigger] s[i].key_of() > k
        }),
    decreases s.len(),
{
    if s.len() > 0 {
        let t = s.drop_last();
        assert(sorted_by_key(t)) by {
            assert forall|i: int, j: int| 0 <= i < j < t.len() implies t[i].key_of() <= t[j].key_of() by {
                assert(t[i] == s[i] && t[j] == s[j]);
            }
        }
        lemma_sorted_prefix_split(t, k);
        let pt = count_key_le(t, k) as int;
        if s.last().key_of() <= k {
            assert forall|i: int| 0 <= i < t.len() implies #[trigger] t[i].key_of() <= k by {
                assert(t[i] == s[i]);
                assert(s[i].key_of() <= s[s.len() - 1].key_of());
            }
            assert(pt == t.len()) by {
                if pt < t.len() {
                    assert(t[pt].key_of() <= k);
                }
            }
        }
        assert forall|i: int| 0 <= i < count_key_le(s, k) implies #[trigger] s[i].key_of() <= k by {
            if i < t.len() {
                assert(t[i] == s[i]);
            }
        }
        assert forall|i: int| count_key_le(s, k) <= i < s.len() implies #[trigger] s[i].key_of() > k by {
            if i < t.len() {
                assert(t[i] == s[i]);
            }
        }
    }
}

/// The stable sort is ordered by key and holds the same elements.
pub proof fn lemma_stable_sort_props<T: SortKey>(s: Seq<T>)
    ensures
        sorted_by_key(stable_sort(s)),
        stable_sort(s).to_multiset() == s.to_multiset(),
        stable_sort(s).len() == s.len(),
    decreases s.len(),
{
    if s.len() > 0 {
        let t = s.drop_last();
        lemma_stable_sort_props(t);
        let st = stable_sort(t);
        lemma_sorted_prefix_split(st, s.last().key_of());
        let p = count_key_le(st, s.last().key_of()) as int;
        lemma_insert_sorted(st, s.last(), p);
        assert(s =~= t.push(s.last()));
    }
}

/// Sorts `v` stably by key.
pub fn stable_sort_vec<T: SortKey>(v: Vec<T>) -> (r: Vec<T>)
    ensures
        r@ == stable_sort(v@),
{
    let ghost orig = v@;
    let mut src = v;
    let mut rest: Vec<T> = Vec::new();
    // Take the elements off the back of `src`; `rest` then holds them reversed.
    while src.len() > 0
        invariant
            orig =~= src@ + rest@.reverse(),
        decreases src.len(),
    {
        let x = src.pop().unwrap();
        proof {
            assert(rest@.push(x).reverse() =~= seq![x] + rest@.reverse());
        }
        rest.push(x);
    }
    assert(orig =~= rest@.reverse());
    let mut out: Vec<T> = Vec::new();
    let ghost n = rest@.len();
    while rest.len() > 0
        invariant
            n == orig.len(),
            rest@.len() <= n,
            orig.take((n - rest@.len()) as int) + rest@.reverse() =~= orig,
            out@ == stable_sort(orig.take((n - rest@.len()) as int)),
            sorted_by_key(out@),
        decreases rest.len(),
    {
        let ghost done = (n - rest@.len()) as int;
        let x = rest.pop().unwrap();
        proof {
            assert(orig[done] == x) by {
                assert(orig.take(done + 1) + rest@.reverse() =~= orig);
            }
            assert(orig.take(done + 1).drop_last() =~= orig.take(done));
            assert(orig.take(done + 1).last() == x);
            lemma_sorted_prefix_split(out@, x.key_of());
        }
        let k = x.key();
        let mut pos = out.len();
        while pos > 0 && out[pos - 1].key() > k
            invariant
                pos <= out@.len(),
                sorted_by_key(out@),
                k as int == x.key_of(),
                forall|i: int| pos <= i < out@.len() ==> #[trigger] out@[i].key_of() > x.key_of(),
            decreases pos,
        {
            pos = pos - 1;
        }
        proof {
            assert forall|i: int| 0 <= i < pos implies #[trigger] out@[i].key_of() <= x.key_of() by {
                if pos > 0 {
                    assert(out@[i].key_of() <= out@[pos - 1].key_of());
                }
            }
            lemma_insert_sorted(out@, x, pos as int);
        }
        out.insert(pos, x);
    }
    assert(orig.take(n as int) =~= orig);
    out
}

} // verus!
