//! What texts, names and values are: said of their characters and parts.
use vstd::prelude::*;
use crate::args::{str_arg, variant_arg};
use crate::error::ErrV;
use crate::item::{Item, MessageItem, all_nul_free, items_view, lemma_items_view, nul_free, type_sig, type_sigs, well_typed};
use crate::names::{dotted_at, path_at, refusal, valid_iface, valid_member, valid_path};
use crate::show::{decimal, digit, digits, shown, shown_list};
use crate::sorted::{Keyed, find, lemma_find_at, lemma_found, lemma_place, lemma_put_at, lemma_put_ordered, named, ordered, put};
use crate::text::{differ_at, joined, lemma_lt_asymmetric, lemma_lt_at, lemma_lt_irreflexive, lemma_lt_total, lemma_lt_transitive, stripped, text_debug, text_lt};

verus! {

/// Texts are ordered character by character: a text comes before what it is the beginning of,
/// and of two texts that agree up to some place, that one comes first that has the smaller
/// character there, whatever follows.
pub proof fn law_text_order(p: Seq<char>, c: char, d: char, x: Seq<char>, y: Seq<char>)
    ensures
        text_lt(p, p.push(c) + x),
        !text_lt(p.push(c) + x, p),
        c < d ==> text_lt(p.push(c) + x, p.push(d) + y),
        c < d ==> !text_lt(p.push(d) + y, p.push(c) + x),
{
    let a = p.push(c) + x;
    let b = p.push(d) + y;
    let n = p.len() as int;
    assert(a.take(n) =~= p);
    assert(b.take(n) =~= p);
    assert(p.take(n) =~= p);
    assert(differ_at(p, a, n));
    lemma_lt_at(p, a, n);
    if c < d {
        assert(differ_at(a, b, n));
        lemma_lt_at(a, b, n);
    }
}

/// The order of texts is total: of two texts exactly one comes before the other, or they are
/// the same; and it is transitive.
pub proof fn law_text_order_is_total(a: Seq<char>, b: Seq<char>, c: Seq<char>)
    ensures
        !text_lt(a, a),
        a != b ==> (text_lt(a, b) <==> !text_lt(b, a)),
        text_lt(a, b) && text_lt(b, c) ==> text_lt(a, c),
{
    lemma_lt_irreflexive(a);
    lemma_lt_total(a, b);
    if text_lt(a, b) {
        lemma_lt_asymmetric(a, b);
        if text_lt(b, c) {
            lemma_lt_transitive(a, b, c);
        }
    }
}

/// What is left of a text behind a beginning is what was put there; a text that does not start
/// so leaves nothing.
pub proof fn law_stripped(s: Seq<char>, prefix: Seq<char>, rest: Seq<char>)
    ensures
        stripped(prefix + rest, prefix) == Some(rest),
        stripped(s, prefix) is Some ==> s == prefix + stripped(s, prefix)->0,
        stripped(s, prefix) is None ==> s != prefix + rest,
{
    assert((prefix + rest).take(prefix.len() as int) =~= prefix);
    assert((prefix + rest).skip(prefix.len() as int) =~= rest);
    if stripped(s, prefix) is Some {
        assert(s =~= prefix + s.skip(prefix.len() as int)) by {
            assert forall|i: int| 0 <= i < prefix.len() implies s[i] == prefix[i] by {
                assert(s.take(prefix.len() as int)[i] == prefix[i]);
            }
        }
    }
}

/// Joining texts keeps all of them, in their order: nothing comes between them.
pub proof fn law_joined(a: Seq<Seq<char>>, b: Seq<Seq<char>>, x: Seq<char>)
    ensures
        joined(Seq::empty()) == Seq::<char>::empty(),
        joined(seq![x]) == x,
        joined(a + b) == joined(a) + joined(b),
    decreases b.len(),
{
    reveal_with_fuel(joined, 2);
    assert(seq![x].drop_last() =~= Seq::empty());
    assert(Seq::<char>::empty() + x =~= x);
    if b.len() == 0 {
        assert(a + b =~= a);
        assert(joined(a) + joined(b) =~= joined(a));
    } else {
        law_joined(a, b.drop_last(), x);
        assert((a + b).drop_last() =~= a + b.drop_last());
        assert(joined(a) + joined(b) =~= (joined(a) + joined(b.drop_last())) + b.last());
    }
}

/// A letter of the English alphabet, or an underscore.
pub open spec fn is_letter(c: char) -> bool {
    ||| 'a' <= c && c <= 'z'
    ||| 'A' <= c && c <= 'Z'
    ||| c == '_'
}

/// A decimal digit.
pub open spec fn is_digit(c: char) -> bool {
    '0' <= c && c <= '9'
}

/// One element of a name: a letter or an underscore, and then any number of those and of
/// digits.
pub open spec fn is_element(e: Seq<char>) -> bool {
    &&& e.len() > 0
    &&& is_letter(e[0])
    &&& forall|i: int| 0 <= i < e.len() ==> is_letter(#[trigger] e[i]) || is_digit(e[i])
}

/// The name of a member is one element of at most 255 characters.
pub proof fn law_member_names(s: Seq<char>)
    ensures
        valid_member(s) <==> is_element(s) && s.len() <= 255,
{
}

/// The name of an interface: two elements with a dot between them are one, and so is such a
/// name with a dot and one more element, as long as it has at most 255 characters.
pub proof fn law_interface_names(a: Seq<char>, e: Seq<char>)
    requires
        is_element(e),
        a.len() + 1 + e.len() <= 255,
        is_element(a) || valid_iface(a),
    ensures
        valid_iface(a + seq!['.'] + e),
{
    let s = a + seq!['.'] + e;
    assert(s[a.len() as int] == '.');
    assert forall|i: int| 0 <= i < s.len() implies #[trigger] dotted_at(s, i) by {
        if i < a.len() {
            assert(s[i] == a[i]);
            if i > 0 {
                assert(s[i - 1] == a[i - 1]);
            }
            if valid_iface(a) {
                assert(dotted_at(a, i));
            } else if i > 0 {
                assert(is_letter(a[i - 1]) || is_digit(a[i - 1]));
            }
        } else if i == a.len() {
            assert(s[i - 1] == a[i - 1]);
            if !valid_iface(a) {
                assert(is_letter(a[i - 1]) || is_digit(a[i - 1]));
            }
        } else {
            let k = i - a.len() - 1;
            assert(s[i] == e[k]);
            if k > 0 {
                assert(s[i - 1] == e[k - 1]);
                assert(is_letter(e[k - 1]) || is_digit(e[k - 1]));
            }
        }
    }
    assert(s.last() == e.last());
    assert(is_letter(e.last()) || is_digit(e.last()));
}

/// What is not the name of an interface: the empty text, one of more than 255 characters, one
/// without a dot, with a dot at an end, with two dots in a row, with a digit at the start of an
/// element, or with another character.
pub proof fn law_no_interface_names(s: Seq<char>, i: int)
    requires
        valid_iface(s),
    ensures
        0 < s.len() <= 255,
        s.contains('.'),
        s[0] != '.',
        s.last() != '.',
        0 <= i < s.len() ==> s[i] == '.' || is_letter(s[i]) || is_digit(s[i]),
        0 <= i < s.len() - 1 && s[i] == '.' ==> is_letter(s[i + 1]),
        !is_digit(s[0]),
{
    assert(dotted_at(s, 0));
    if 0 <= i < s.len() {
        assert(dotted_at(s, i));
    }
    if 0 <= i < s.len() - 1 {
        assert(dotted_at(s, i + 1));
    }
}

/// The characters of an element of an object path: as those of a name, but a digit may come
/// first.
pub open spec fn is_path_element(e: Seq<char>) -> bool {
    &&& e.len() > 0
    &&& forall|i: int| 0 <= i < e.len() ==> is_letter(#[trigger] e[i]) || is_digit(e[i])
}

/// An object path: a slash is one, a slash and an element is one, and so is a longer path with
/// a slash and one more element, however long it is.
pub proof fn law_paths(p: Seq<char>, e: Seq<char>)
    requires
        is_path_element(e),
    ensures
        valid_path(seq!['/']),
        valid_path(seq!['/'] + e),
        valid_path(p) && p.len() > 1 ==> valid_path(p + seq!['/'] + e),
{
    assert(path_at(seq!['/'], 0));
    let s = seq!['/'] + e;
    assert forall|i: int| 0 <= i < s.len() implies #[trigger] path_at(s, i) by {
        if i > 0 {
            assert(s[i] == e[i - 1]);
        }
    }
    assert(s.last() == e.last());
    assert(is_letter(e.last()) || is_digit(e.last()));
    if valid_path(p) && p.len() > 1 {
        let t = p + seq!['/'] + e;
        assert forall|i: int| 0 <= i < t.len() implies #[trigger] path_at(t, i) by {
            if i < p.len() {
                assert(path_at(p, i));
                assert(t[i] == p[i]);
                if i > 0 {
                    assert(t[i - 1] == p[i - 1]);
                }
            } else if i == p.len() {
                assert(t[i - 1] == p.last());
            } else {
                let k = i - p.len() - 1;
                assert(t[i] == e[k]);
            }
        }
        assert(t.last() == e.last());
    }
}

/// What is not an object path: the empty text, one that does not start with a slash, one of
/// more than a slash that ends with one, one with two slashes in a row, or with another
/// character.
pub proof fn law_no_paths(s: Seq<char>, i: int)
    requires
        valid_path(s),
    ensures
        s.len() > 0,
        s[0] == '/',
        s.len() > 1 ==> s.last() != '/',
        0 <= i < s.len() ==> s[i] == '/' || is_letter(s[i]) || is_digit(s[i]),
        0 <= i < s.len() - 1 && s[i] == '/' ==> s[i + 1] != '/',
{
    assert(path_at(s, 0));
    if 0 <= i < s.len() {
        assert(path_at(s, i));
    }
    if 0 <= i < s.len() - 1 {
        assert(path_at(s, i + 1));
    }
}

/// A name that is refused is quoted behind what it should have been.
pub proof fn law_refusal(what: Seq<char>, name: Seq<char>)
    ensures
        refusal(what, name) == what + (" was not valid: '"@ + (name + "'"@)),
{
    assert(refusal(what, name) =~= what + (" was not valid: '"@ + (name + "'"@)));
}

/// Of named values in order, that one is found which has the name, wherever it stands; and where
/// none has it, none is found.
pub proof fn law_find<K: Keyed>(s: Seq<K>, k: Seq<char>, i: int)
    requires
        ordered(s),
    ensures
        0 <= i < s.len() && s[i].key() == k ==> find(s, k) == Some(s[i]),
        find(s, k) is None <==> forall|j: int| 0 <= j < s.len() ==> (#[trigger] s[j]).key() != k,
        named(s, k) <==> find(s, k) is Some,
{
    if 0 <= i < s.len() && s[i].key() == k {
        lemma_find_at(s, i);
    }
    if find(s, k) is Some {
        let j = lemma_found(s, k);
        assert(s[j].key() == k);
    } else {
        assert forall|j: int| 0 <= j < s.len() implies (#[trigger] s[j]).key() != k by {
            if s[j].key() == k {
                lemma_find_at(s, j);
            }
        }
    }
}

/// Adding a named value puts it at its place among the others, which stay as they are and in
/// their order; only one of the same name gives way.
pub proof fn law_put<K: Keyed>(s: Seq<K>, v: K, w: K)
    requires
        ordered(s),
    ensures
        ordered(put(s, v)),
        put(s, v).contains(v),
        w.key() != v.key() ==> (put(s, v).contains(w) <==> s.contains(w)),
        w.key() == v.key() && put(s, v).contains(w) ==> w == v,
        put(s, v).len() == s.len() + if named(s, v.key()) {
            0int
        } else {
            1int
        },
{
    let (lo, hi) = lemma_place(s, v.key());
    lemma_put_at(s, v, lo, hi);
    lemma_put_ordered(s, v);
    let t = put(s, v);
    assert(t[lo] == v);
    if s.contains(w) && w.key() != v.key() {
        let i = choose|i: int| 0 <= i < s.len() && s[i] == w;
        if i < lo {
            assert(t[i] == w);
        } else {
            assert(t[i - hi + lo + 1] == w);
        }
    }
    if t.contains(w) {
        let j = choose|j: int| 0 <= j < t.len() && t[j] == w;
        if w.key() == v.key() {
            lemma_find_at(t, j);
            lemma_find_at(t, lo);
        } else if j < lo {
            assert(s[j] == w);
        } else {
            assert(s[j - lo - 1 + hi] == w);
        }
    }
    law_find(s, v.key(), lo);
    if hi > lo {
        assert(s[lo].key() == v.key());
        if hi > lo + 1 {
            assert(s[lo + 1].key() == v.key());
            crate::sorted::lemma_keys_differ(s, lo, lo + 1);
        }
    } else {
        assert forall|j: int| 0 <= j < s.len() implies (#[trigger] s[j]).key() != v.key() by {
            lemma_lt_irreflexive(v.key());
            if j < lo {
                assert(text_lt(s[j].key(), v.key()));
            } else {
                assert(text_lt(v.key(), s[j].key()));
            }
        }
    }
}

/// A value of a message says of itself what it holds: its kind, and the parts that it was made
/// of, none left out.
pub proof fn law_item_views(i: MessageItem)
    ensures
        match i {
            MessageItem::Array(v, s) => i@ matches Item::Array(w, r) && r == s@ && w.len()
                == v@.len() && (forall|k: int| 0 <= k < w.len() ==> #[trigger] w[k] == v@[k]@),
            MessageItem::Struct(v) => i@ matches Item::Struct(w) && w.len() == v@.len() && (forall|
                k: int,
            |
                0 <= k < w.len() ==> #[trigger] w[k] == v@[k]@),
            MessageItem::Variant(x) => i@ matches Item::Variant(y) && *y == x@,
            MessageItem::DictEntry(k, x) => i@ matches Item::DictEntry(j, y) && *j == k@ && *y
                == x@,
            MessageItem::ObjectPath(p) => i@ == Item::ObjectPath(p@),
            MessageItem::Str(s) => i@ == Item::Str(s@),
            MessageItem::Bool(x) => i@ == Item::Bool(x),
            MessageItem::Byte(x) => i@ == Item::Byte(x),
            MessageItem::Int16(x) => i@ == Item::Int16(x),
            MessageItem::Int32(x) => i@ == Item::Int32(x),
            MessageItem::Int64(x) => i@ == Item::Int64(x),
            MessageItem::UInt16(x) => i@ == Item::UInt16(x),
            MessageItem::UInt32(x) => i@ == Item::UInt32(x),
            MessageItem::UInt64(x) => i@ == Item::UInt64(x),
            MessageItem::Double(x, s) => i@ == Item::Double(x, s@),
            MessageItem::UnixFd(x) => i@ == Item::UnixFd(x),
        },
{
    match i {
        MessageItem::Array(v, s) => {
            lemma_items_view(v@);
            assert(i@ == Item::Array(items_view(v@), s@));
        },
        MessageItem::Struct(v) => {
            lemma_items_view(v@);
            assert(i@ == Item::Struct(items_view(v@)));
        },
        _ => {},
    }
}

/// Each kind of simple value has a type of its own, of one letter, whatever the value is.
pub proof fn law_simple_types(
    text: Seq<char>,
    b: bool,
    y: u8,
    n: i16,
    i: i32,
    x: i64,
    q: u16,
    u: u32,
    t: u64,
    inner: Item,
)
    ensures
        type_sig(Item::Str(text)) == "s"@,
        type_sig(Item::ObjectPath(text)) == "o"@,
        type_sig(Item::Bool(b)) == "b"@,
        type_sig(Item::Byte(y)) == "y"@,
        type_sig(Item::Int16(n)) == "n"@,
        type_sig(Item::Int32(i)) == "i"@,
        type_sig(Item::Int64(x)) == "x"@,
        type_sig(Item::UInt16(q)) == "q"@,
        type_sig(Item::UInt32(u)) == "u"@,
        type_sig(Item::UInt64(t)) == "t"@,
        type_sig(Item::Double(t, text)) == "d"@,
        type_sig(Item::UnixFd(i)) == "h"@,
        type_sig(Item::Variant(Box::new(inner))) == "v"@,
{
}

/// The type of a value that holds others is made of theirs: an array says that of its elements
/// behind an `a`, a structure puts those of its parts, in their order, in round brackets, and an
/// entry of a dictionary puts those of its key and its value in curly ones.
pub proof fn law_types_of_parts(
    elements: Seq<Item>,
    sig: Seq<char>,
    a: Seq<Item>,
    b: Seq<Item>,
    x: Item,
    y: Item,
)
    ensures
        type_sig(Item::Array(elements, sig)) == seq!['a'] + sig,
        type_sig(Item::Struct(a)) == seq!['('] + type_sigs(a) + seq![')'],
        type_sig(Item::DictEntry(Box::new(x), Box::new(y))) == seq!['{'] + type_sig(x) + type_sig(
            y,
        ) + seq!['}'],
        type_sigs(seq![x]) == type_sig(x),
        type_sigs(Seq::empty()) == Seq::<char>::empty(),
        type_sigs(a + b) == type_sigs(a) + type_sigs(b),
    decreases b.len(),
{
    reveal_strlit("a");
    reveal_strlit("(");
    reveal_strlit(")");
    reveal_strlit("{");
    reveal_strlit("}");
    reveal_with_fuel(type_sigs, 2);
    assert(seq!['a'] =~= "a"@);
    assert(seq!['('] =~= "("@);
    assert(seq![')'] =~= ")"@);
    assert(seq!['{'] =~= "{"@);
    assert(seq!['}'] =~= "}"@);
    assert(seq![x].drop_last() =~= Seq::empty());
    assert(Seq::<char>::empty() + type_sig(x) =~= type_sig(x));
    if b.len() == 0 {
        assert(a + b =~= a);
        assert(type_sigs(a) + type_sigs(b) =~= type_sigs(a));
    } else {
        law_types_of_parts(elements, sig, a, b.drop_last(), x, y);
        assert((a + b).drop_last() =~= a + b.drop_last());
        assert(type_sigs(a) + type_sigs(b) =~= (type_sigs(a) + type_sigs(b.drop_last()))
            + type_sig(b.last()));
    }
}

/// An array is well typed exactly where its elements are, and all have the type that it says;
/// other values where what they hold is.
pub proof fn law_well_typed(v: Seq<Item>, sig: Seq<char>, x: Item, y: Item, text: Seq<char>)
    ensures
        well_typed(Item::Array(v, sig)) <==> forall|k: int|
            0 <= k < v.len() ==> well_typed(#[trigger] v[k]) && type_sig(v[k]) == sig,
        well_typed(Item::Struct(v)) <==> forall|k: int|
            0 <= k < v.len() ==> well_typed(#[trigger] v[k]),
        well_typed(Item::Variant(Box::new(x))) <==> well_typed(x),
        well_typed(Item::DictEntry(Box::new(x), Box::new(y))) <==> well_typed(x) && well_typed(y),
        well_typed(Item::Str(text)),
{
    lemma_typed_elements(v, sig);
}

/// What it means for arrays and structures to be well typed.
proof fn lemma_typed_elements(v: Seq<Item>, sig: Seq<char>)
    ensures
        well_typed(Item::Array(v, sig)) <==> forall|k: int|
            0 <= k < v.len() ==> well_typed(#[trigger] v[k]) && type_sig(v[k]) == sig,
        well_typed(Item::Struct(v)) <==> forall|k: int|
            0 <= k < v.len() ==> well_typed(#[trigger] v[k]),
{
    let a = Item::Array(v, sig);
    let i = Item::Struct(v);
    assert forall|k: int| well_typed(a) && 0 <= k < v.len() implies well_typed(#[trigger] v[k])
        && type_sig(v[k]) == sig by {
        assert(a->Array_0[k] == v[k]);
    }
    assert forall|k: int| well_typed(i) && 0 <= k < v.len() implies well_typed(
        #[trigger] v[k],
    ) by {
        assert(i->Struct_0[k] == v[k]);
    }
    if forall|k: int| 0 <= k < v.len() ==> well_typed(#[trigger] v[k]) && type_sig(v[k]) == sig {
        assert(well_typed(a));
    }
    if forall|k: int| 0 <= k < v.len() ==> well_typed(#[trigger] v[k]) {
        assert(well_typed(i));
    }
}

/// A value is free of NULs where all its texts are: that of a string, the signature of an array,
/// that of a double, and those of all that it holds.
pub proof fn law_nul_free(
    v: Seq<Item>,
    text: Seq<char>,
    x: Item,
    y: Item,
    bits: u64,
)
    ensures
        nul_free(Item::Str(text)) <==> forall|i: int| 0 <= i < text.len() ==> text[i] != '\0',
        nul_free(Item::Double(bits, text)) <==> !text.contains('\0'),
        nul_free(Item::Array(v, text)) <==> !text.contains('\0') && forall|k: int|
            0 <= k < v.len() ==> nul_free(#[trigger] v[k]),
        nul_free(Item::Struct(v)) <==> forall|k: int| 0 <= k < v.len() ==> nul_free(#[trigger] v[k]),
        nul_free(Item::Variant(Box::new(x))) <==> nul_free(x),
        nul_free(Item::DictEntry(Box::new(x), Box::new(y))) <==> nul_free(x) && nul_free(y),
        x is ObjectPath || x is Bool || x is Byte || x is Int16 || x is Int32 || x is Int64
            || x is UInt16 || x is UInt32 || x is UInt64 || x is UnixFd ==> nul_free(x),
{
    law_all_nul_free(v);
    if exists|i: int| 0 <= i < text.len() && text[i] == '\0' {
        let i = choose|i: int| 0 <= i < text.len() && text[i] == '\0';
        assert(text.contains('\0'));
    }
    reveal_with_fuel(nul_free, 2);
}

/// A list of values is free of NULs where each of them is.
pub proof fn law_all_nul_free(v: Seq<Item>)
    ensures
        all_nul_free(v) <==> forall|k: int| 0 <= k < v.len() ==> nul_free(#[trigger] v[k]),
    decreases v.len(),
{
    if v.len() > 0 {
        let w = v.drop_last();
        law_all_nul_free(w);
        if all_nul_free(v) {
            assert forall|k: int| 0 <= k < v.len() implies nul_free(#[trigger] v[k]) by {
                if k < w.len() {
                    assert(w[k] == v[k]);
                }
            }
        }
        if forall|k: int| 0 <= k < v.len() ==> nul_free(#[trigger] v[k]) {
            assert forall|k: int| 0 <= k < w.len() implies nul_free(#[trigger] w[k]) by {
                assert(w[k] == v[k]);
            }
            assert(v.last() == v[v.len() - 1]);
        }
    }
}

/// The number that decimal digits stand for.
pub open spec fn number(s: Seq<char>) -> int
    decreases s.len(),
{
    if s.len() == 0 {
        0
    } else {
        number(s.drop_last()) * 10 + (s.last() as int - '0' as int)
    }
}

/// A number is shown by decimal digits that stand for it, without a zero in front.
pub proof fn law_digits(n: nat)
    ensures
        number(digits(n)) == n,
        digits(n).len() > 0,
        digits(n)[0] == '0' ==> n == 0,
        n == 0 ==> digits(n) == seq!['0'],
        forall|i: int| 0 <= i < digits(n).len() ==> is_digit(#[trigger] digits(n)[i]),
    decreases n,
{
    reveal_with_fuel(number, 2);
    if n < 10 {
        assert(digits(n).drop_last() =~= Seq::empty());
    } else {
        law_digits(n / 10);
        assert(digits(n).drop_last() =~= digits(n / 10));
        assert(digits(n).last() == digit(n % 10));
        assert(digits(n)[0] == digits(n / 10)[0]);
    }
}

/// A negative number is shown as a minus sign and the digits of its opposite.
pub proof fn law_decimal(n: int)
    ensures
        n >= 0 ==> number(decimal(n)) == n && is_digit(decimal(n)[0]),
        n < 0 ==> decimal(n)[0] == '-' && decimal(n).skip(1) == decimal(-n),
{
    if n >= 0 {
        law_digits(n as nat);
    } else {
        reveal_strlit("-");
        assert(decimal(n).skip(1) =~= digits((-n) as nat));
    }
}

/// How a value is shown: its kind, and in round brackets what it holds, texts in quotes.
pub proof fn law_shown(
    v: Seq<Item>,
    text: Seq<char>,
    x: Item,
    y: Item,
    bits: u64,
)
    ensures
        shown(Item::Str(text)) == "Str("@ + text_debug(text) + ")"@,
        shown(Item::ObjectPath(text)) == "ObjectPath(Path("@ + text_debug(text) + "))"@,
        shown(Item::Bool(true)) == "Bool("@ + "true"@ + ")"@,
        shown(Item::Bool(false)) == "Bool("@ + "false"@ + ")"@,
        shown(Item::Double(bits, text)) == "Double("@ + text + ")"@,
        shown(Item::Variant(Box::new(x))) == "Variant("@ + shown(x) + ")"@,
        shown(Item::DictEntry(Box::new(x), Box::new(y))) == "DictEntry("@ + shown(x) + ", "@
            + shown(y) + ")"@,
        shown(Item::Struct(v)) == "Struct(["@ + shown_list(v) + "])"@,
        shown(Item::Array(v, text)) == "Array(["@ + shown_list(v) + "], "@ + text_debug(text)
            + ")"@,
{
}

/// A number is shown with its kind, and with its decimal digits.
pub proof fn law_shown_numbers(
    y: u8,
    n: i16,
    i: i32,
    x: i64,
    q: u16,
    u: u32,
    t: u64,
)
    ensures
        shown(Item::Byte(y)) == "Byte("@ + decimal(y as int) + ")"@,
        shown(Item::Int16(n)) == "Int16("@ + decimal(n as int) + ")"@,
        shown(Item::Int32(i)) == "Int32("@ + decimal(i as int) + ")"@,
        shown(Item::Int64(x)) == "Int64("@ + decimal(x as int) + ")"@,
        shown(Item::UInt16(q)) == "UInt16("@ + decimal(q as int) + ")"@,
        shown(Item::UInt32(u)) == "UInt32("@ + decimal(u as int) + ")"@,
        shown(Item::UInt64(t)) == "UInt64("@ + decimal(t as int) + ")"@,
        shown(Item::UnixFd(i)) == "UnixFd("@ + decimal(i as int) + ")"@,
{
}

/// Values in a list are shown one behind the other, with a comma and a space between them.
pub proof fn law_shown_list(a: Seq<Item>, b: Seq<Item>, x: Item)
    ensures
        shown_list(Seq::empty()) == Seq::<char>::empty(),
        shown_list(seq![x]) == shown(x),
        a.len() > 0 && b.len() > 0 ==> shown_list(a + b) == shown_list(a) + ", "@ + shown_list(b),
    decreases b.len(),
{
    reveal_with_fuel(shown_list, 2);
    assert(seq![x].drop_last() =~= Seq::empty());
    if a.len() > 0 && b.len() > 0 {
        assert((a + b).drop_last() =~= a + b.drop_last());
        assert((a + b).last() == b.last());
        if b.len() == 1 {
            assert(a + b.drop_last() =~= a);
        } else {
            law_shown_list(a, b.drop_last(), x);
            let l = shown_list(a);
            let m = shown_list(b.drop_last());
            let z = shown(b.last());
            assert((l + ", "@ + m) + ", "@ + z =~= l + ", "@ + (m + ", "@ + z));
        }
    }
}

/// What is wrong with a call is said by an error of its own name and text.
pub proof fn law_error_texts(a: Seq<char>)
    ensures
        ErrV::no_arg().name == "org.freedesktop.DBus.Error.InvalidArgs"@,
        ErrV::no_arg().text == "Not enough arguments"@,
        ErrV::invalid_arg(a).name == "org.freedesktop.DBus.Error.InvalidArgs"@,
        ErrV::invalid_arg(a).text == "Invalid argument "@ + a,
        ErrV::failed(a).name == "org.freedesktop.DBus.Error.Failed"@,
        ErrV::failed(a).text == a,
        ErrV::no_interface(a).name == "org.freedesktop.DBus.Error.UnknownInterface"@,
        ErrV::no_interface(a).text == "Unknown interface "@ + a,
        ErrV::no_property(a).name == "org.freedesktop.DBus.Error.UnknownProperty"@,
        ErrV::no_property(a).text == "Unknown property "@ + a,
        ErrV::ro_property(a).name == "org.freedesktop.DBus.Error.PropertyReadOnly"@,
        ErrV::ro_property(a).text == "Property "@ + a + " is read only"@,
{
}

/// An argument is taken exactly where it is there and is a string, or a variant; and then it is
/// what is in that. Otherwise the error says that there is none, or shows it.
pub proof fn law_arguments(items: Seq<Item>, n: int, s: Seq<char>, v: Item)
    requires
        0 <= n,
    ensures
        str_arg(items, n) == Ok::<Seq<char>, ErrV>(s) <==> n < items.len() && items[n]
            == Item::Str(s),
        variant_arg(items, n) == Ok::<Item, ErrV>(v) <==> n < items.len() && items[n]
            == Item::Variant(Box::new(v)),
        n >= items.len() ==> str_arg(items, n) == Err::<Seq<char>, ErrV>(
            ErrV {
                name: "org.freedesktop.DBus.Error.InvalidArgs"@,
                text: "Not enough arguments"@,
            },
        ) && variant_arg(items, n) == Err::<Item, ErrV>(
            ErrV {
                name: "org.freedesktop.DBus.Error.InvalidArgs"@,
                text: "Not enough arguments"@,
            },
        ),
        n < items.len() && items[n] !is Str ==> str_arg(items, n) == Err::<Seq<char>, ErrV>(
            ErrV {
                name: "org.freedesktop.DBus.Error.InvalidArgs"@,
                text: "Invalid argument "@ + shown(items[n]),
            },
        ),
        n < items.len() && items[n] !is Variant ==> variant_arg(items, n) == Err::<Item, ErrV>(
            ErrV {
                name: "org.freedesktop.DBus.Error.InvalidArgs"@,
                text: "Invalid argument "@ + shown(items[n]),
            },
        ),
{
}

} // verus!
