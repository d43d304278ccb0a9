//! Text: the order of names, and comparing and cutting strings.
use vstd::prelude::*;

verus! {

/// Where one text stands relative to another.
#[derive(Clone, Copy, PartialEq, Eq, Debug, Structural)]
pub enum Place {
    Before,
    Same,
    After,
}

/// The order of names: the first character in which two texts differ decides, and a
/// proper prefix comes first.
#[verifier::opaque]
pub open spec fn text_lt(a: Seq<char>, b: Seq<char>) -> bool {
    exists|n: int| #[trigger] differ_at(a, b, n)
}

/// `a` and `b` agree on their first `n` characters, and there `a` ends or has the
/// smaller character.
pub open spec fn differ_at(a: Seq<char>, b: Seq<char>, n: int) -> bool {
    &&& 0 <= n <= a.len()
    &&& n < b.len()
    &&& a.take(n) == b.take(n)
    &&& n < a.len() ==> a[n] < b[n]
}

/// No text comes before itself.
pub proof fn lemma_lt_irreflexive(a: Seq<char>)
    ensures
        !text_lt(a, a),
{
    reveal(text_lt);
}

/// The order is transitive.
pub proof fn lemma_lt_transitive(a: Seq<char>, b: Seq<char>, c: Seq<char>)
    requires
        text_lt(a, b),
        text_lt(b, c),
    ensures
        text_lt(a, c),
{
    reveal(text_lt);
    let n = choose|n: int| differ_at(a, b, n);
    let k = choose|k: int| differ_at(b, c, k);
    let m = if n < k {
        n
    } else {
        k
    };
    assert(a.take(m) =~= c.take(m)) by {
        assert forall|i: int| 0 <= i < m implies a[i] == c[i] by {
            assert(a.take(n)[i] == b.take(n)[i]);
            assert(b.take(k)[i] == c.take(k)[i]);
        }
    }
    if n < k {
        assert(b.take(k)[n] == c.take(k)[n]);
    }
    if k < n {
        assert(a.take(n)[k] == b.take(n)[k]);
    }
    assert(differ_at(a, c, m));
}

/// No two texts come before each other.
pub proof fn lemma_lt_asymmetric(a: Seq<char>, b: Seq<char>)
    requires
        text_lt(a, b),
    ensures
        !text_lt(b, a),
        a != b,
{
    if text_lt(b, a) {
        lemma_lt_transitive(a, b, a);
    }
    lemma_lt_irreflexive(a);
}

/// The character at which two texts differ tells which comes first.
pub proof fn lemma_lt_at(a: Seq<char>, b: Seq<char>, n: int)
    requires
        differ_at(a, b, n),
    ensures
        text_lt(a, b),
        !text_lt(b, a),
        a != b,
{
    reveal(text_lt);
    lemma_lt_asymmetric(a, b);
}

/// Of two texts that agree on their first `n` characters, one comes before the other, or
/// they are the same.
proof fn lemma_lt_total_from(a: Seq<char>, b: Seq<char>, n: int)
    requires
        0 <= n <= a.len(),
        n <= b.len(),
        a.take(n) == b.take(n),
    ensures
        text_lt(a, b) || a == b || text_lt(b, a),
    decreases a.len() - n,
{
    reveal(text_lt);
    if n == a.len() && n == b.len() {
        assert(a.take(n) =~= a);
        assert(b.take(n) =~= b);
    } else if n == a.len() {
        assert(differ_at(a, b, n));
    } else if n == b.len() {
        assert(differ_at(b, a, n));
    } else if a[n] < b[n] {
        assert(differ_at(a, b, n));
    } else if b[n] < a[n] {
        assert(differ_at(b, a, n));
    } else {
        assert(a.take(n + 1) =~= a.take(n).push(a[n]));
        assert(b.take(n + 1) =~= b.take(n).push(b[n]));
        lemma_lt_total_from(a, b, n + 1);
    }
}

/// Of two texts, one comes before the other, or they are the same.
pub proof fn lemma_lt_total(a: Seq<char>, b: Seq<char>)
    ensures
        text_lt(a, b) || a == b || text_lt(b, a),
{
    assert(a.take(0) =~= b.take(0));
    lemma_lt_total_from(a, b, 0);
}

/// Compares two texts.
pub fn compare(a: &str, b: &str) -> (r: Place)
    ensures
        r == Place::Same <==> a@ == b@,
        r == Place::Before <==> text_lt(a@, b@),
        r == Place::After <==> text_lt(b@, a@),
{
    let mut left = a.chars();
    let mut right = b.chars();
    let ghost mut i: int = 0;
    proof {
        lemma_lt_irreflexive(a@);
    }
    loop
        invariant
            0 <= i <= a@.len(),
            i <= b@.len(),
            a@.take(i) == b@.take(i),
            vstd::std_specs::iter::IteratorSpec::remaining(&left) == a@.skip(i),
            vstd::std_specs::iter::IteratorSpec::remaining(&right) == b@.skip(i),
            vstd::std_specs::iter::IteratorSpec::obeys_prophetic_iter_laws(&left),
            vstd::std_specs::iter::IteratorSpec::obeys_prophetic_iter_laws(&right),
            !text_lt(a@, a@),
        decreases a@.len() - i,
    {
        let x = left.next();
        let y = right.next();
        match (x, y) {
            (None, None) => {
                assert(a@.take(i) =~= a@);
                assert(b@.take(i) =~= b@);
                return Place::Same;
            },
            (None, Some(_)) => {
                proof {
                    lemma_lt_at(a@, b@, i);
                }
                return Place::Before;
            },
            (Some(_), None) => {
                proof {
                    lemma_lt_at(b@, a@, i);
                }
                return Place::After;
            },
            (Some(c), Some(d)) => {
                if c < d {
                    proof {
                        lemma_lt_at(a@, b@, i);
                    }
                    return Place::Before;
                }
                if d < c {
                    proof {
                        lemma_lt_at(b@, a@, i);
                    }
                    return Place::After;
                }
                proof {
                    assert(a@.take(i + 1) =~= a@.take(i).push(c));
                    assert(b@.take(i + 1) =~= b@.take(i).push(d));
                    assert(a@.skip(i).drop_first() =~= a@.skip(i + 1));
                    assert(b@.skip(i).drop_first() =~= b@.skip(i + 1));
                    i = i + 1;
                }
            },
        }
    }
}

/// Whether `s` holds the character `c`.
pub fn has_char(s: &str, c: char) -> (r: bool)
    ensures
        r == s@.contains(c),
{
    let mut rest = s.chars();
    let ghost mut i: int = 0;
    loop
        invariant
            0 <= i <= s@.len(),
            forall|j: int| 0 <= j < i ==> s@[j] != c,
            vstd::std_specs::iter::IteratorSpec::remaining(&rest) == s@.skip(i),
            vstd::std_specs::iter::IteratorSpec::obeys_prophetic_iter_laws(&rest),
        decreases s@.len() - i,
    {
        match rest.next() {
            None => {
                return false;
            },
            Some(d) => {
                assert(s@[i] == d);
                if d == c {
                    return true;
                }
                proof {
                    assert(s@.skip(i).drop_first() =~= s@.skip(i + 1));
                    i = i + 1;
                }
            },
        }
    }
}

/// What follows `prefix` in `s`, where `s` starts with it.
pub open spec fn stripped(s: Seq<char>, prefix: Seq<char>) -> Option<Seq<char>> {
    if prefix.is_prefix_of(s) {
        Some(s.skip(prefix.len() as int))
    } else {
        None
    }
}

/// Takes `prefix` off the front of `s`.
pub fn strip_prefix<'a>(s: &'a str, prefix: &str) -> (r: Option<&'a str>)
    ensures
        r is Some == stripped(s@, prefix@) is Some,
        r matches Some(t) ==> stripped(s@, prefix@) == Some(t@),
{
    let n = prefix.unicode_len();
    let len = s.unicode_len();
    if len < n {
        return None;
    }
    let head = s.substring_char(0, n);
    proof {
        assert(head@ =~= s@.take(n as int));
    }
    match compare(head, prefix) {
        Place::Same => {
            assert(prefix@.is_prefix_of(s@));
            let tail = s.substring_char(n, len);
            assert(tail@ =~= s@.skip(n as int));
            Some(tail)
        },
        _ => {
            proof {
                if prefix@.is_prefix_of(s@) {
                    assert(s@.take(n as int) =~= prefix@);
                }
            }
            None
        },
    }
}

/// The texts of `parts`, one behind the other.
pub open spec fn joined(parts: Seq<Seq<char>>) -> Seq<char>
    decreases parts.len(),
{
    if parts.len() == 0 {
        Seq::empty()
    } else {
        joined(parts.drop_last()) + parts.last()
    }
}

/// Appends one more part.
pub proof fn lemma_joined_push(parts: Seq<Seq<char>>, part: Seq<char>)
    ensures
        joined(parts.push(part)) == joined(parts) + part,
{
    assert(parts.push(part).drop_last() =~= parts);
}

/// What `{:?}` of std's formatting writes for a text.
pub uninterp spec fn text_debug(s: Seq<char>) -> Seq<char>;

/// `format!` of std with `{:?}`. Claimed of it: what it writes for a text is a function of
/// the text. Which characters it escapes, and how, is left unsaid.
#[verifier::external_body]
pub(crate) fn debug_text(s: &str) -> (r: String)
    ensures
        r@ == text_debug(s@),
{
    format!("{:?}", s)
}

} // verus!
