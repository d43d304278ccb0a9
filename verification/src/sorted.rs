//! Collections of named things, in the order of their names, each name once.
use vstd::prelude::*;
use crate::message::opt_view;
use crate::text::{Place, compare, lemma_lt_asymmetric, lemma_lt_irreflexive, lemma_lt_total, lemma_lt_transitive, text_lt};

verus! {

/// A value that has a name.
pub trait Keyed: Sized {
    /// The name.
    spec fn key(self) -> Seq<char>;

    /// What holds of every such value.
    spec fn valid(self) -> bool;
}

/// A thing whose value has a name.
pub trait Named: View + Sized where Self::V: Keyed {
    /// The name.
    fn key_text(&self) -> (r: &str)
        ensures
            r@ == self@.key(),
    ;

    /// What holds of every such value holds of this one's. There is nothing to do for it.
    fn assure(&self)
        ensures
            self@.valid(),
    ;
}

/// The names ascend, so each occurs once.
#[verifier::opaque]
pub open spec fn ordered<K: Keyed>(s: Seq<K>) -> bool {
    forall|i: int, j: int|
        0 <= i < j < s.len() ==> text_lt(#[trigger] s[i].key(), #[trigger] s[j].key())
}

/// The names ascend, and all elements are valid.
pub open spec fn sound<K: Keyed>(s: Seq<K>) -> bool {
    &&& ordered(s)
    &&& forall|i: int| 0 <= i < s.len() ==> (#[trigger] s[i]).valid()
}

/// Element `i` of `s` is named `k`.
pub open spec fn named_at<K: Keyed>(s: Seq<K>, k: Seq<char>, i: int) -> bool {
    0 <= i < s.len() && s[i].key() == k
}

/// Some element of `s` is named `k`.
pub open spec fn named<K: Keyed>(s: Seq<K>, k: Seq<char>) -> bool {
    exists|i: int| named_at(s, k, i)
}

/// The element of `s` that is named `k`.
pub open spec fn find<K: Keyed>(s: Seq<K>, k: Seq<char>) -> Option<K> {
    if named(s, k) {
        Some(s[choose|i: int| named_at(s, k, i)])
    } else {
        None
    }
}

/// The elements whose names come before `k`.
pub open spec fn below<K: Keyed>(s: Seq<K>, k: Seq<char>) -> Seq<K> {
    s.filter(|e: K| text_lt(e.key(), k))
}

/// The elements whose names come after `k`.
pub open spec fn above<K: Keyed>(s: Seq<K>, k: Seq<char>) -> Seq<K> {
    s.filter(|e: K| text_lt(k, e.key()))
}

/// `s` with `v` in its place, instead of the element of that name if there was one.
#[verifier::opaque]
pub open spec fn put<K: Keyed>(s: Seq<K>, v: K) -> Seq<K> {
    below(s, v.key()).push(v) + above(s, v.key())
}

/// A filter that keeps the elements in front of `n` and no others gives those.
proof fn lemma_filter_take<K>(s: Seq<K>, p: spec_fn(K) -> bool, n: int)
    requires
        0 <= n <= s.len(),
        forall|i: int| 0 <= i < s.len() ==> p(#[trigger] s[i]) == (i < n),
    ensures
        s.filter(p) == s.take(n),
    decreases s.len(),
{
    reveal(Seq::filter);
    if s.len() == 0 {
        assert(s.take(n) =~= s.filter(p));
    } else if n == s.len() {
        lemma_filter_take(s.drop_last(), p, n - 1);
        assert(p(s[s.len() - 1]));
        assert(s.drop_last().take(n - 1).push(s.last()) =~= s.take(n));
    } else {
        lemma_filter_take(s.drop_last(), p, n);
        assert(!p(s[s.len() - 1]));
        assert(s.drop_last().take(n) =~= s.take(n));
    }
}

/// A filter that keeps the elements from `n` on and no others gives those.
proof fn lemma_filter_skip<K>(s: Seq<K>, p: spec_fn(K) -> bool, n: int)
    requires
        0 <= n <= s.len(),
        forall|i: int| 0 <= i < s.len() ==> p(#[trigger] s[i]) == (i >= n),
    ensures
        s.filter(p) == s.skip(n),
    decreases s.len(),
{
    reveal(Seq::filter);
    if s.len() == 0 {
        assert(s.skip(n) =~= s.filter(p));
    } else if n == s.len() {
        lemma_filter_skip(s.drop_last(), p, n - 1);
        assert(!p(s[s.len() - 1]));
        assert(s.drop_last().skip(n - 1) =~= s.skip(n));
    } else {
        lemma_filter_skip(s.drop_last(), p, n);
        assert(p(s[s.len() - 1]));
        assert(s.drop_last().skip(n).push(s.last()) =~= s.skip(n));
    }
}

/// In an ordered sequence, `put` works at the place of the name: `lo` elements come before
/// it, those from `hi` on come after it, and between the two stands at most the element
/// of that name.
pub proof fn lemma_put_at<K: Keyed>(s: Seq<K>, v: K, lo: int, hi: int)
    requires
        0 <= lo <= hi <= s.len(),
        forall|i: int| 0 <= i < lo ==> text_lt(#[trigger] s[i].key(), v.key()),
        forall|i: int| lo <= i < hi ==> #[trigger] s[i].key() == v.key(),
        forall|i: int| hi <= i < s.len() ==> text_lt(v.key(), #[trigger] s[i].key()),
    ensures
        put(s, v) == s.take(lo).push(v) + s.skip(hi),
{
    reveal(put);
    let k = v.key();
    lemma_lt_irreflexive(k);
    assert forall|i: int| 0 <= i < s.len() implies text_lt(#[trigger] s[i].key(), k) == (i < lo) by {
        if i >= hi {
            lemma_lt_asymmetric(k, s[i].key());
        }
    }
    assert forall|i: int| 0 <= i < s.len() implies text_lt(k, #[trigger] s[i].key()) == (i >= hi) by {
        if i < lo {
            lemma_lt_asymmetric(s[i].key(), k);
        }
    }
    lemma_filter_take(s, |e: K| text_lt(e.key(), k), lo);
    lemma_filter_skip(s, |e: K| text_lt(k, e.key()), hi);
}

/// The place of a name in an ordered sequence.
pub proof fn lemma_place<K: Keyed>(s: Seq<K>, k: Seq<char>) -> (r: (int, int))
    requires
        ordered(s),
    ensures
        0 <= r.0 <= r.1 <= s.len(),
        r.1 <= r.0 + 1,
        forall|i: int| 0 <= i < r.0 ==> text_lt(#[trigger] s[i].key(), k),
        forall|i: int| r.0 <= i < r.1 ==> #[trigger] s[i].key() == k,
        forall|i: int| r.1 <= i < s.len() ==> text_lt(k, #[trigger] s[i].key()),
    decreases s.len(),
{
    reveal(ordered);
    if s.len() == 0 {
        (0, 0)
    } else {
        let t = s.drop_last();
        let (lo, hi) = lemma_place(t, k);
        let last = s.last().key();
        lemma_lt_total(last, k);
        assert forall|i: int| 0 <= i < lo implies text_lt(#[trigger] s[i].key(), k) by {
            assert(t[i].key() == s[i].key());
        }
        assert forall|i: int| lo <= i < hi implies #[trigger] s[i].key() == k by {
            assert(t[i].key() == s[i].key());
        }
        assert forall|i: int| hi <= i < s.len() - 1 implies text_lt(k, #[trigger] s[i].key()) by {
            assert(t[i].key() == s[i].key());
        }
        let n = s.len() as int;
        if text_lt(last, k) {
            assert forall|i: int| 0 <= i < n implies text_lt(#[trigger] s[i].key(), k) by {
                if i < n - 1 {
                    lemma_lt_transitive(s[i].key(), s[n - 1].key(), k);
                }
            }
            (n, n)
        } else if last == k {
            assert forall|i: int| 0 <= i < n - 1 implies text_lt(#[trigger] s[i].key(), k) by {
                assert(text_lt(s[i].key(), s[n - 1].key()));
            }
            (n - 1, n)
        } else {
            (lo, hi)
        }
    }
}

/// Adding keeps the order.
pub proof fn lemma_put_ordered<K: Keyed>(s: Seq<K>, v: K)
    requires
        ordered(s),
    ensures
        ordered(put(s, v)),
{
    reveal(ordered);
    let (lo, hi) = lemma_place(s, v.key());
    lemma_put_at(s, v, lo, hi);
    let t = put(s, v);
    assert forall|i: int, j: int| 0 <= i < j < t.len() implies text_lt(
        #[trigger] t[i].key(),
        #[trigger] t[j].key(),
    ) by {
        let p = if i < lo {
            i
        } else {
            i - lo - 1 + hi
        };
        let q = if j < lo {
            j
        } else {
            j - lo - 1 + hi
        };
        if i != lo {
            assert(t[i].key() == s[p].key());
        }
        if j != lo {
            assert(t[j].key() == s[q].key());
        }
    }
}

/// In an ordered sequence a name stands in one place.
pub proof fn lemma_find_at<K: Keyed>(s: Seq<K>, i: int)
    requires
        ordered(s),
        0 <= i < s.len(),
    ensures
        named(s, s[i].key()),
        find(s, s[i].key()) == Some(s[i]),
{
    reveal(ordered);
    let k = s[i].key();
    assert(named_at(s, k, i));
    let j = choose|j: int| named_at(s, k, j);
    lemma_lt_irreflexive(k);
    if j != i {
        assert(text_lt(s[i].key(), s[j].key()) || text_lt(s[j].key(), s[i].key()));
    }
}

/// In an ordered sequence different places have different names.
pub proof fn lemma_keys_differ<K: Keyed>(s: Seq<K>, i: int, j: int)
    requires
        ordered(s),
        0 <= i < s.len(),
        0 <= j < s.len(),
        i != j,
    ensures
        s[i].key() != s[j].key(),
{
    reveal(ordered);
    lemma_lt_irreflexive(s[i].key());
    if i < j {
        assert(text_lt(s[i].key(), s[j].key()));
    } else {
        assert(text_lt(s[j].key(), s[i].key()));
    }
}

/// What was added is found under its name.
pub proof fn lemma_put_find<K: Keyed>(s: Seq<K>, v: K)
    requires
        ordered(s),
    ensures
        named(put(s, v), v.key()),
        find(put(s, v), v.key()) == Some(v),
{
    let (lo, hi) = lemma_place(s, v.key());
    lemma_put_at(s, v, lo, hi);
    lemma_put_ordered(s, v);
    assert(put(s, v)[lo] == v);
    lemma_find_at(put(s, v), lo);
}

/// Adding changes nothing under other names.
pub proof fn lemma_put_find_other<K: Keyed>(s: Seq<K>, v: K, k: Seq<char>)
    requires
        ordered(s),
        k != v.key(),
    ensures
        named(put(s, v), k) == named(s, k),
        find(put(s, v), k) == find(s, k),
{
    let (lo, hi) = lemma_place(s, v.key());
    lemma_put_at(s, v, lo, hi);
    lemma_put_ordered(s, v);
    let t = put(s, v);
    if named(s, k) {
        let i = choose|i: int| named_at(s, k, i);
        let j = if i < lo {
            i
        } else {
            i - hi + lo + 1
        };
        assert(t[j] == s[i]);
        lemma_find_at(t, j);
        lemma_find_at(s, i);
    }
    if named(t, k) {
        let j = choose|j: int| named_at(t, k, j);
        let i = if j < lo {
            j
        } else {
            j - lo - 1 + hi
        };
        assert(t[j] == s[i]);
        lemma_find_at(s, i);
        lemma_find_at(t, j);
    }
}

/// Adding under a name that is there replaces that element in its place.
pub proof fn lemma_put_update<K: Keyed>(s: Seq<K>, v: K, i: int)
    requires
        ordered(s),
        0 <= i < s.len(),
        s[i].key() == v.key(),
    ensures
        put(s, v) == s.update(i, v),
        put(s.remove(i), v) == s.update(i, v),
        ordered(s.remove(i)),
{
    reveal(ordered);
    lemma_lt_irreflexive(v.key());
    assert forall|j: int| 0 <= j < i implies text_lt(#[trigger] s[j].key(), v.key()) by {
        assert(text_lt(s[j].key(), s[i].key()));
    }
    assert forall|j: int| i < j < s.len() implies text_lt(v.key(), #[trigger] s[j].key()) by {
        assert(text_lt(s[i].key(), s[j].key()));
    }
    lemma_put_at(s, v, i, i + 1);
    assert(put(s, v) =~= s.update(i, v));
    let r = s.remove(i);
    assert forall|j: int| 0 <= j < i implies text_lt(#[trigger] r[j].key(), v.key()) by {
        assert(r[j] == s[j]);
    }
    assert forall|j: int| i <= j < r.len() implies text_lt(v.key(), #[trigger] r[j].key()) by {
        assert(r[j] == s[j + 1]);
    }
    lemma_put_at(r, v, i, i);
    assert(put(r, v) =~= s.update(i, v));
    assert forall|a: int, b: int| 0 <= a < b < r.len() implies text_lt(
        #[trigger] r[a].key(),
        #[trigger] r[b].key(),
    ) by {
        let p = if a < i {
            a
        } else {
            a + 1
        };
        let q = if b < i {
            b
        } else {
            b + 1
        };
        assert(r[a] == s[p] && r[b] == s[q]);
    }
}

/// What holds of all elements and of one more holds of all with that one added.
pub proof fn lemma_put_all<K: Keyed>(s: Seq<K>, v: K, p: spec_fn(K) -> bool)
    requires
        ordered(s),
        forall|i: int| 0 <= i < s.len() ==> p(#[trigger] s[i]),
        p(v),
    ensures
        forall|i: int| 0 <= i < put(s, v).len() ==> p(#[trigger] put(s, v)[i]),
{
    let (lo, hi) = lemma_place(s, v.key());
    lemma_put_at(s, v, lo, hi);
    let t = put(s, v);
    assert forall|i: int| 0 <= i < t.len() implies p(#[trigger] t[i]) by {
        if i < lo {
            assert(t[i] == s[i]);
        } else if i > lo {
            assert(t[i] == s[i - lo - 1 + hi]);
        }
    }
}

/// What is found is an element.
pub proof fn lemma_found<K: Keyed>(s: Seq<K>, k: Seq<char>) -> (i: int)
    requires
        find(s, k) is Some,
    ensures
        0 <= i < s.len(),
        s[i].key() == k,
        find(s, k) == Some(s[i]),
{
    choose|i: int| named_at(s, k, i)
}

/// Adding a valid element keeps all elements valid and in order.
pub proof fn lemma_put_sound<K: Keyed>(s: Seq<K>, v: K)
    requires
        sound(s),
        v.valid(),
    ensures
        sound(put(s, v)),
{
    lemma_put_ordered(s, v);
    lemma_put_all(s, v, |e: K| e.valid());
}

/// Taking an element out keeps all others valid and in order.
proof fn lemma_remove_sound<K: Keyed>(s: Seq<K>, i: int)
    requires
        sound(s),
        0 <= i < s.len(),
    ensures
        sound(s.remove(i)),
{
    lemma_put_update(s, s[i], i);
    let t = s.remove(i);
    assert forall|j: int| 0 <= j < t.len() implies (#[trigger] t[j]).valid() by {
        assert(t[j] == if j < i {
            s[j]
        } else {
            s[j + 1]
        });
    }
}

/// Adding again what is there changes nothing.
pub proof fn lemma_put_same<K: Keyed>(s: Seq<K>, i: int)
    requires
        ordered(s),
        0 <= i < s.len(),
    ensures
        put(s, s[i]) == s,
        put(s.remove(i), s[i]) == s,
{
    lemma_put_update(s, s[i], i);
    assert(s.update(i, s[i]) =~= s);
}

/// Two additions under different names can change places.
pub proof fn lemma_put_commutes<K: Keyed>(s: Seq<K>, v: K, w: K)
    requires
        ordered(s),
        v.key() != w.key(),
    ensures
        put(put(s, v), w) == put(put(s, w), v),
{
    lemma_put_ordered(s, v);
    lemma_put_ordered(s, w);
    let a = put(put(s, v), w);
    let b = put(put(s, w), v);
    lemma_put_ordered(put(s, v), w);
    lemma_put_ordered(put(s, w), v);
    assert forall|k: Seq<char>| find(a, k) == find(b, k) by {
        lemma_put_find(put(s, v), w);
        lemma_put_find(put(s, w), v);
        lemma_put_find(s, v);
        lemma_put_find(s, w);
        if k != w.key() {
            lemma_put_find_other(put(s, v), w, k);
            lemma_put_find_other(s, w, k);
        }
        if k != v.key() {
            lemma_put_find_other(put(s, w), v, k);
            lemma_put_find_other(s, v, k);
        }
    }
    lemma_same_finds(a, b);
}

/// Ordered sequences that give the same answers are the same.
pub proof fn lemma_same_finds<K: Keyed>(a: Seq<K>, b: Seq<K>)
    requires
        ordered(a),
        ordered(b),
        forall|k: Seq<char>| #[trigger] find(a, k) == find(b, k),
    ensures
        a == b,
    decreases a.len(),
{
    reveal(ordered);
    if a.len() == 0 {
        if b.len() > 0 {
            lemma_find_at(b, 0);
            assert(find(a, b[0].key()) is None);
        }
        assert(a =~= b);
    } else {
        let n = a.len() - 1;
        lemma_find_at(a, n);
        assert(find(b, a[n].key()) == Some(a[n]));
        assert(b.len() > 0) by {
            if b.len() == 0 {
                assert(!named(b, a[n].key()));
            }
        }
        let m = b.len() - 1;
        lemma_find_at(b, m);
        assert(find(a, b[m].key()) == Some(b[m]));
        let i = choose|i: int| named_at(b, a[n].key(), i);
        let j = choose|j: int| named_at(a, b[m].key(), j);
        if a[n].key() != b[m].key() {
            assert(text_lt(b[i].key(), b[m].key()));
            assert(text_lt(a[j].key(), a[n].key()));
            lemma_lt_asymmetric(a[n].key(), b[m].key());
        }
        assert(a[n] == b[m]);
        let a1 = a.drop_last();
        let b1 = b.drop_last();
        assert(a =~= a1.push(a[n]));
        assert(b =~= b1.push(b[m]));
        assert forall|k: Seq<char>| #[trigger] find(a1, k) == find(b1, k) by {
            lemma_find_drop_last(a, k);
            lemma_find_drop_last(b, k);
            assert(find(a, k) == find(b, k));
        }
        lemma_same_finds(a1, b1);
    }
}

/// Without the last element, its name is gone and nothing else.
proof fn lemma_find_drop_last<K: Keyed>(s: Seq<K>, k: Seq<char>)
    requires
        ordered(s),
        s.len() > 0,
    ensures
        ordered(s.drop_last()),
        find(s.drop_last(), k) == if k == s.last().key() {
            None
        } else {
            find(s, k)
        },
{
    reveal(ordered);
    let t = s.drop_last();
    assert forall|a: int, b: int| 0 <= a < b < t.len() implies text_lt(
        #[trigger] t[a].key(),
        #[trigger] t[b].key(),
    ) by {
        assert(t[a] == s[a] && t[b] == s[b]);
    }
    lemma_lt_irreflexive(k);
    if named(t, k) {
        let i = choose|i: int| named_at(t, k, i);
        assert(t[i] == s[i]);
        lemma_find_at(t, i);
        lemma_find_at(s, i);
        assert(text_lt(s[i].key(), s[s.len() - 1].key()));
    }
    if named(s, k) && k != s.last().key() {
        let i = choose|i: int| named_at(s, k, i);
        assert(t[i] == s[i]);
        assert(named_at(t, k, i));
    }
}

/// How many elements of a list are named `k`.
pub open spec fn count_named<K: Keyed>(s: Seq<K>, k: Seq<char>) -> nat
    decreases s.len(),
{
    if s.len() == 0 {
        0
    } else {
        count_named(s.drop_last(), k) + if s.last().key() == k {
            1nat
        } else {
            0nat
        }
    }
}

/// Where in a list the element named `k` stands that has `n` of that name in front of it.
pub open spec fn nth_named<K: Keyed>(s: Seq<K>, k: Seq<char>, n: nat) -> Option<int>
    decreases s.len(),
{
    if s.len() == 0 {
        None
    } else {
        match nth_named(s.drop_last(), k, n) {
            Some(i) => Some(i),
            None => if s.last().key() == k && count_named(s.drop_last(), k) == n {
                Some(s.len() - 1)
            } else {
                None
            },
        }
    }
}

/// There is an element with `n` of its name in front of it where there are more than `n`.
pub proof fn lemma_nth_named<K: Keyed>(s: Seq<K>, k: Seq<char>, n: nat)
    ensures
        nth_named(s, k, n) is Some <==> n < count_named(s, k),
        nth_named(s, k, n) matches Some(i) ==> 0 <= i < s.len() && s[i].key() == k,
    decreases s.len(),
{
    if s.len() > 0 {
        lemma_nth_named(s.drop_last(), k, n);
    }
}

/// One more element at the end.
pub proof fn lemma_nth_named_push<K: Keyed>(s: Seq<K>, v: K, k: Seq<char>, n: nat)
    ensures
        count_named(s.push(v), k) == count_named(s, k) + if v.key() == k {
            1nat
        } else {
            0nat
        },
        nth_named(s.push(v), k, n) == match nth_named(s, k, n) {
            Some(i) => Some(i),
            None => if v.key() == k && count_named(s, k) == n {
                Some(s.len() as int)
            } else {
                None
            },
        },
{
    assert(s.push(v).drop_last() =~= s);
}

/// How many elements of `v` are named `key`.
pub fn count<V: Named>(v: &Vec<V>, key: &str) -> (r: usize) where V::V: Keyed
    ensures
        r == count_named(views(v@), key@),
{
    let mut i: usize = 0;
    let mut n: usize = 0;
    let ghost all = views(v@);
    assert(all.take(0) =~= Seq::<V::V>::empty());
    while i < v.len()
        invariant
            i <= v.len(),
            n <= i,
            all == views(v@),
            n == count_named(all.take(i as int), key@),
        decreases v.len() - i,
    {
        proof {
            assert(all.take(i + 1).drop_last() =~= all.take(i as int));
            assert(all.take(i + 1).last() == v@[i as int]@);
        }
        if let Place::Same = compare(v[i].key_text(), key) {
            n = n + 1;
        }
        i = i + 1;
    }
    assert(all.take(i as int) =~= all);
    n
}

/// Where in `v` the element named `key` stands that has `n` of that name in front of it.
pub fn nth<V: Named>(v: &Vec<V>, key: &str, n: usize) -> (r: Option<usize>) where V::V: Keyed
    ensures
        match r {
            Some(i) => i < v@.len() && nth_named(views(v@), key@, n as nat) == Some(i as int),
            None => nth_named(views(v@), key@, n as nat) is None,
        },
{
    let mut i: usize = 0;
    let mut before: usize = 0;
    let ghost all = views(v@);
    assert(all.take(0) =~= Seq::<V::V>::empty());
    while i < v.len()
        invariant
            i <= v.len(),
            before <= i,
            all == views(v@),
            before == count_named(all.take(i as int), key@),
            nth_named(all.take(i as int), key@, n as nat) is None,
        decreases v.len() - i,
    {
        proof {
            assert(all.take(i + 1).drop_last() =~= all.take(i as int));
            assert(all.take(i + 1).last() == v@[i as int]@);
        }
        if let Place::Same = compare(v[i].key_text(), key) {
            if before == n {
                proof {
                    lemma_nth_named_take(all, i + 1, key@, n as nat);
                }
                return Some(i);
            }
            before = before + 1;
        }
        i = i + 1;
    }
    assert(all.take(i as int) =~= all);
    None
}

/// What is found among the first elements is found among all.
proof fn lemma_nth_named_take<K: Keyed>(s: Seq<K>, i: int, k: Seq<char>, n: nat)
    requires
        0 <= i <= s.len(),
        nth_named(s.take(i), k, n) is Some,
    ensures
        nth_named(s, k, n) == nth_named(s.take(i), k, n),
    decreases s.len() - i,
{
    if i == s.len() {
        assert(s.take(i) =~= s);
    } else {
        assert(s.take(i + 1).drop_last() =~= s.take(i));
        lemma_nth_named_take(s, i + 1, k, n);
    }
}

/// Things with names, in the order of their names, each name once.
#[derive(Debug)]
pub struct Sorted<V: Named> where V::V: Keyed {
    items: Vec<V>,
}

/// The values of a list of things.
pub open spec fn views<V: View>(s: Seq<V>) -> Seq<V::V> {
    s.map_values(|v: V| v@)
}

impl<V: Named> View for Sorted<V> where V::V: Keyed {
    type V = Seq<V::V>;

    closed spec fn view(&self) -> Seq<V::V> {
        views(self.items@)
    }
}

impl<V: Named> Sorted<V> where V::V: Keyed {
    #[verifier::type_invariant]
    closed spec fn inv(self) -> bool {
        sound(views(self.items@))
    }

    /// An empty collection.
    pub fn new() -> (r: Self)
        ensures
            r@ == Seq::<V::V>::empty(),
    {
        proof {
            reveal(ordered);
        }
        let r = Sorted { items: Vec::new() };
        assert(r@ =~= Seq::<V::V>::empty());
        r
    }

    /// The elements are valid, and in the order of their names. There is nothing to do for it.
    pub fn assure(&self)
        ensures
            sound(self@),
    {
        proof {
            use_type_invariant(self);
        }
    }

    /// The number of elements.
    pub fn len(&self) -> (r: usize)
        ensures
            r == self@.len(),
    {
        self.items.len()
    }

    /// Element `i`.
    pub fn at(&self, i: usize) -> (r: &V)
        requires
            i < self@.len(),
        ensures
            r@ == self@[i as int],
    {
        &self.items[i]
    }

    /// Where the name `key` stands, or where it would stand.
    fn place(&self, key: &str) -> (r: (usize, bool))
        ensures
            r.0 <= self.items@.len(),
            r.1 ==> r.0 < self.items@.len() && self@[r.0 as int].key() == key@,
            forall|i: int| 0 <= i < r.0 ==> text_lt(#[trigger] self@[i].key(), key@),
            forall|i: int|
                (if r.1 {
                    r.0 + 1
                } else {
                    r.0 as int
                }) <= i < self@.len() ==> text_lt(key@, #[trigger] self@[i].key()),
    {
        proof {
            use_type_invariant(self);
        }
        let mut i: usize = 0;
        while i < self.items.len()
            invariant
                i <= self.items@.len(),
                ordered(self@),
                self@.len() == self.items@.len(),
                forall|j: int| 0 <= j < i ==> text_lt(#[trigger] self@[j].key(), key@),
            decreases self.items.len() - i,
        {
            match compare(self.items[i].key_text(), key) {
                Place::Before => {},
                Place::Same => {
                    proof {
                        reveal(ordered);
                    }
                    return (i, true);
                },
                Place::After => {
                    proof {
                        reveal(ordered);
                        assert(text_lt(key@, self@[i as int].key()));
                        assert forall|j: int| i < j < self@.len() implies text_lt(
                            key@,
                            #[trigger] self@[j].key(),
                        ) by {
                            lemma_lt_transitive(key@, self@[i as int].key(), self@[j].key());
                        }
                    }
                    return (i, false);
                },
            }
            i = i + 1;
        }
        (i, false)
    }

    /// Where the name `key` stands.
    pub fn index_of(&self, key: &str) -> (r: Option<usize>)
        ensures
            sound(self@),
            r is Some <==> named(self@, key@),
            r matches Some(i) ==> i < self@.len() && self@[i as int].key() == key@ && find(
                self@,
                key@,
            ) == Some(self@[i as int]),
    {
        proof {
            use_type_invariant(self);
            lemma_lt_irreflexive(key@);
        }
        let (i, found) = self.place(key);
        if found {
            proof {
                lemma_find_at(self@, i as int);
            }
            Some(i)
        } else {
            proof {
                if named(self@, key@) {
                    let j = choose|j: int| named_at(self@, key@, j);
                    assert(self@[j].key() == key@);
                }
            }
            None
        }
    }

    /// The element named `key`.
    pub fn get(&self, key: &str) -> (r: Option<&V>)
        ensures
            r is Some <==> named(self@, key@),
            r matches Some(v) ==> find(self@, key@) == Some(v@),
    {
        match self.index_of(key) {
            Some(i) => Some(&self.items[i]),
            None => None,
        }
    }

    /// Adds an element, instead of the one of that name if there is one, and gives that one.
    pub fn insert(&mut self, v: V) -> (r: Option<V>)
        ensures
            final(self)@ == put(old(self)@, v@),
            opt_view(r) == find(old(self)@, v@.key()),
            sound(old(self)@),
            v@.valid(),
    {
        proof {
            use_type_invariant(&*self);
            reveal(ordered);
        }
        v.assure();
        let (i, found) = self.place(v.key_text());
        let ghost before = self@;
        let mut items: Vec<V> = Vec::new();
        std::mem::swap(&mut items, &mut self.items);
        let replaced = if found {
            Some(items.remove(i))
        } else {
            None
        };
        let ghost added = v@;
        items.insert(i, v);
        proof {
            lemma_put_sound(before, added);
            lemma_put_at(
                before,
                added,
                i as int,
                if found {
                    i + 1
                } else {
                    i as int
                },
            );
            assert(views(items@) =~= put(before, added));
            if found {
                lemma_find_at(before, i as int);
            } else if named(before, added.key()) {
                let j = choose|j: int| named_at(before, added.key(), j);
                lemma_lt_irreflexive(added.key());
                assert(before[j].key() == added.key());
            }
        }
        self.items = items;
        replaced
    }

    /// Takes element `i` out.
    pub fn remove(&mut self, i: usize) -> (r: V)
        requires
            i < old(self)@.len(),
        ensures
            r@ == old(self)@[i as int],
            final(self)@ == old(self)@.remove(i as int),
            sound(old(self)@),
    {
        proof {
            use_type_invariant(&*self);
            reveal(ordered);
        }
        let ghost before = self@;
        let mut items: Vec<V> = Vec::new();
        std::mem::swap(&mut items, &mut self.items);
        let v = items.remove(i);
        proof {
            lemma_remove_sound(before, i as int);
            assert(views(items@) =~= before.remove(i as int));
        }
        self.items = items;
        v
    }
}

} // verus!
