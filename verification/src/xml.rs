//! The shape of introspection text.
use vstd::prelude::*;
use crate::sorted::{Keyed, Named, Sorted};
use crate::text::{joined, lemma_joined_push};

verus! {

/// What stands between the attributes of an element and its last bracket: its contents and
/// the start of its end tag, or, where it has no contents, a slash.
pub open spec fn element_tail(tag: Seq<char>, indent: Seq<char>, contents: Seq<char>) -> Seq<char> {
    if contents.len() > 0 {
        ">\n"@ + contents + indent + "</"@ + tag
    } else {
        "/"@
    }
}

/// The introspection text of a named element.
pub open spec fn element_xml(
    key: Seq<char>,
    tag: Seq<char>,
    indent: Seq<char>,
    params: Seq<char>,
    contents: Seq<char>,
) -> Seq<char> {
    indent + "<"@ + tag + " name=\""@ + key + "\""@ + params + element_tail(tag, indent, contents)
        + ">\n"@
}

/// The texts of the elements for a list of named values; `outs` gives for each its further
/// attributes and its contents.
pub open spec fn element_texts<K: Keyed>(
    s: Seq<K>,
    tag: Seq<char>,
    indent: Seq<char>,
    outs: Seq<(Seq<char>, Seq<char>)>,
) -> Seq<Seq<char>> {
    Seq::new(s.len(), |i: int| element_xml(s[i].key(), tag, indent, outs[i].0, outs[i].1))
}

/// The introspection text of a list of named values.
pub open spec fn map_xml<K: Keyed>(
    s: Seq<K>,
    tag: Seq<char>,
    indent: Seq<char>,
    outs: Seq<(Seq<char>, Seq<char>)>,
) -> Seq<char> {
    joined(element_texts(s, tag, indent, outs))
}

/// `func`, called on the things whose values are `s`, can give the texts `outs`.
pub open spec fn gives<T: Named, C: Fn(&T) -> (String, String)>(
    func: C,
    s: Seq<T::V>,
    outs: Seq<(Seq<char>, Seq<char>)>,
) -> bool where T::V: Keyed {
    &&& outs.len() == s.len()
    &&& forall|i: int| 0 <= i < s.len() ==> #[trigger] gives_one::<T, C>(func, s[i], outs[i])
}

/// `func`, called on a thing whose value is `v`, can give the texts `out`.
pub open spec fn gives_one<T: Named, C: Fn(&T) -> (String, String)>(
    func: C,
    v: T::V,
    out: (Seq<char>, Seq<char>),
) -> bool where T::V: Keyed {
    exists|x: &T, o: (String, String)|
        #[trigger] call_ensures(func, (x,), o) && x@ == v && o.0@ == out.0 && o.1@ == out.1
}

/// The introspection text of a collection: one element for each thing, in the order of the
/// names. `func` gives the element's further attributes and its contents.
pub fn introspect_map<T: Named, C: Fn(&T) -> (String, String)>(
    h: &Sorted<T>,
    name: &str,
    indent: &str,
    func: C,
) -> (r: String) where T::V: Keyed
    requires
        forall|x: &T| call_requires(func, (x,)),
    ensures
        exists|outs: Seq<(Seq<char>, Seq<char>)>| #[trigger]
            gives::<T, C>(func, h@, outs) && r@ == map_xml(h@, name@, indent@, outs),
{
    let mut text = String::new();
    let mut i: usize = 0;
    let n = h.len();
    let ghost mut outs: Seq<(Seq<char>, Seq<char>)> = Seq::empty();
    assert(element_texts(h@.take(0), name@, indent@, outs) =~= Seq::<Seq<char>>::empty());
    while i < n
        invariant
            i <= n,
            n == h@.len(),
            outs.len() == i,
            forall|x: &T| call_requires(func, (x,)),
            forall|j: int| 0 <= j < i ==> #[trigger] gives_one::<T, C>(func, h@[j], outs[j]),
            text@ == joined(element_texts(h@.take(i as int), name@, indent@, outs)),
        decreases n - i,
    {
        let v = h.at(i);
        let (params, contents) = func(v);
        let ghost out = (params@, contents@);
        assert(gives_one::<T, C>(func, v@, out));
        let mut tail = String::new();
        if contents.as_str().is_empty() {
            tail.append("/");
        } else {
            tail.append(">\n");
            tail.append(contents.as_str());
            tail.append(indent);
            tail.append("</");
            tail.append(name);
        }
        assert(tail@ =~= element_tail(name@, indent@, contents@));
        let ghost start = text@;
        text.append(indent);
        text.append("<");
        text.append(name);
        text.append(" name=\"");
        text.append(v.key_text());
        text.append("\"");
        text.append(params.as_str());
        text.append(tail.as_str());
        text.append(">\n");
        proof {
            let part = element_xml(v@.key(), name@, indent@, params@, contents@);
            assert(text@ =~= start + part);
            let before = element_texts(h@.take(i as int), name@, indent@, outs);
            lemma_joined_push(before, part);
            let outs2 = outs.push(out);
            assert(element_texts(h@.take(i + 1), name@, indent@, outs2) =~= before.push(part));
            outs = outs2;
        }
        i = i + 1;
    }
    assert(h@.take(i as int) =~= h@);
    assert(gives::<T, C>(func, h@, outs));
    text
}

} // verus!
