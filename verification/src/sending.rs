//! What can be sent: texts without a NUL.
use vstd::prelude::*;
use crate::args::{str_arg, variant_arg};
use crate::dispatch::DispatchV;
use crate::error::ErrV;
use crate::item::{Item, all_nul_free, lemma_nul_free_take, nul_free, type_sig, type_sigs};
use crate::message::{MessageType, Msg};
use crate::method::Callback;
use crate::names::{dotted_at, valid_iface};
use crate::object::{ObjectV, first_unreadable, read_all};
use crate::property::PropV;
use crate::sorted::{Keyed, find, lemma_found};
use crate::tree::TreeV;

verus! {

/// The text can be sent.
pub open spec fn sendable(s: Seq<char>) -> bool {
    !s.contains('\0')
}

/// The first `n` characters are not NUL.
spec fn sendable_upto(s: Seq<char>, n: nat) -> bool
    decreases n,
{
    n == 0 || sendable_upto(s, (n - 1) as nat) && s[n - 1] != '\0'
}

proof fn lemma_upto(s: Seq<char>, n: nat, i: int)
    requires
        sendable_upto(s, n),
        0 <= i < n,
    ensures
        s[i] != '\0',
    decreases n,
{
    if i < n - 1 {
        lemma_upto(s, (n - 1) as nat, i);
    }
}

proof fn lemma_literal(s: Seq<char>)
    requires
        sendable_upto(s, s.len()),
    ensures
        sendable(s),
{
    assert forall|i: int| 0 <= i < s.len() implies s[i] != '\0' by {
        lemma_upto(s, s.len(), i);
    }
}

/// Two texts that can be sent can be sent one behind the other.
proof fn lemma_add(a: Seq<char>, b: Seq<char>)
    requires
        sendable(a),
        sendable(b),
    ensures
        sendable(a + b),
{
    assert forall|i: int| 0 <= i < (a + b).len() implies (a + b)[i] != '\0' by {
        if i < a.len() {
            assert(a.contains(a[i]));
        } else {
            assert(b.contains(b[i - a.len()]));
        }
    }
}

/// The signature of a value without a NUL can be sent.
proof fn lemma_sig(i: Item)
    requires
        nul_free(i),
    ensures
        sendable(type_sig(i)),
    decreases i,
{
    reveal_strlit("a");
    reveal_strlit("(");
    reveal_strlit(")");
    reveal_strlit("v");
    reveal_strlit("{");
    reveal_strlit("}");
    reveal_strlit("o");
    reveal_strlit("s");
    reveal_strlit("b");
    reveal_strlit("y");
    reveal_strlit("n");
    reveal_strlit("i");
    reveal_strlit("x");
    reveal_strlit("q");
    reveal_strlit("u");
    reveal_strlit("t");
    reveal_strlit("d");
    reveal_strlit("h");
    match i {
        Item::Array(_, s) => lemma_add("a"@, s),
        Item::Struct(v) => {
            lemma_sigs(v);
            lemma_add("("@, type_sigs(v));
            lemma_add("("@ + type_sigs(v), ")"@);
        },
        Item::DictEntry(k, x) => {
            lemma_sig(*k);
            lemma_sig(*x);
            lemma_add("{"@, type_sig(*k));
            lemma_add("{"@ + type_sig(*k), type_sig(*x));
            lemma_add("{"@ + type_sig(*k) + type_sig(*x), "}"@);
        },
        _ => {},
    }
}

/// The signatures of values without a NUL can be sent.
proof fn lemma_sigs(v: Seq<Item>)
    requires
        all_nul_free(v),
    ensures
        sendable(type_sigs(v)),
    decreases v,
{
    if v.len() > 0 {
        lemma_sigs(v.drop_last());
        lemma_sig(v.last());
        lemma_add(type_sigs(v.drop_last()), type_sig(v.last()));
    }
}

/// An argument of a call without a NUL has none.
proof fn lemma_item(v: Seq<Item>, k: int)
    requires
        all_nul_free(v),
        0 <= k < v.len(),
    ensures
        nul_free(v[k]),
{
    lemma_nul_free_take(v, k + 1);
    assert(v.take(k + 1).last() == v[k]);
}

/// An interface name can be sent.
proof fn lemma_iface(s: Seq<char>)
    requires
        valid_iface(s),
    ensures
        sendable(s),
{
    assert forall|i: int| 0 <= i < s.len() implies s[i] != '\0' by {
        assert(dotted_at(s, i));
    }
}

/// The texts of errors can be sent, where what they quote can be sent.
proof fn lemma_errors(a: Seq<char>, b: Seq<char>)
    requires
        sendable(a),
        sendable(b),
    ensures
        sendable(ErrV::no_property(a).text),
        sendable(ErrV::no_interface(a).text),
        sendable(ErrV::ro_property(a).text),
        sendable("Property "@ + a + " is write only"@),
        sendable("Property "@ + a + " cannot change type to "@ + b),
        sendable("Unknown interface"@),
        sendable("Unknown method"@),
{
    reveal_with_fuel(sendable_upto, 24);
    reveal_strlit("Unknown property ");
    lemma_literal("Unknown property "@);
    lemma_add("Unknown property "@, a);
    reveal_strlit("Unknown interface ");
    lemma_literal("Unknown interface "@);
    lemma_add("Unknown interface "@, a);
    reveal_strlit("Property ");
    lemma_literal("Property "@);
    lemma_add("Property "@, a);
    reveal_strlit(" is read only");
    lemma_literal(" is read only"@);
    lemma_add("Property "@ + a, " is read only"@);
    reveal_strlit(" is write only");
    lemma_literal(" is write only"@);
    lemma_add("Property "@ + a, " is write only"@);
    reveal_strlit(" cannot change type to ");
    lemma_literal(" cannot change type to "@);
    lemma_add("Property "@ + a, " cannot change type to "@);
    lemma_add("Property "@ + a + " cannot change type to "@, b);
    reveal_strlit("Unknown interface");
    lemma_literal("Unknown interface"@);
    reveal_strlit("Unknown method");
    lemma_literal("Unknown method"@);
}

/// The refusal to read all properties is that of the first that cannot be read.
proof fn lemma_read_all<M>(props: Seq<PropV<M>>)
    ensures
        read_all(props) matches Err(e) ==> (first_unreadable(props) matches Some(p) && e.text
            == "Property "@ + p.name + " is write only"@),
        read_all(props) is Ok ==> first_unreadable(props) is None,
    decreases props.len(),
{
    if props.len() > 0 {
        lemma_read_all(props.drop_last());
    }
}

/// The error speaks of a wrong argument, or its text can be sent.
spec fn fine(e: ErrV) -> bool {
    e.name == "org.freedesktop.DBus.Error.InvalidArgs"@ || sendable(e.text)
}

proof fn lemma_prop_arg<M>(o: ObjectV<M>, m: Msg)
    requires
        m.nul_free(),
        o.valid(),
    ensures
        o.prop_arg(m.items) matches Err(e) ==> fine(e),
        o.prop_arg(m.items) matches Ok((_, p)) ==> sendable(p.name),
{
    if let (Ok(i), Ok(p)) = (str_arg(m.items, 0), str_arg(m.items, 1)) {
        lemma_item(m.items, 1);
        assert(sendable(p));
        lemma_errors(p, p);
        if valid_iface(i) {
            lemma_iface(i);
            lemma_errors(i, i);
            if find(o.ifaces, i) is Some {
                let a = lemma_found(o.ifaces, i);
                let iface = o.ifaces[a];
                if iface.property(p) is Some {
                    let b = lemma_found(iface.properties, p);
                }
            }
        }
    }
}

/// An answerable message gets an answer that can be sent: where it is an error, its text holds
/// no NUL. (The texts that quote how a wrong argument is shown are as std's debug form makes
/// them.)
pub proof fn law_error_texts_can_be_sent<M>(t: TreeV<M>, m: Msg)
    requires
        t.valid(),
        t.answerable(m),
        t.dispatch(m) matches DispatchV::Reply(v) && v.last().msg_type == MessageType::Error,
    ensures
        t.dispatch(m) matches DispatchV::Reply(v) && v.len() == 1 && {
            ||| v[0].error_name == Some("org.freedesktop.DBus.Error.InvalidArgs"@)
            ||| v[0].items.len() == 1 && (v[0].items[0] matches Item::Str(s) && sendable(s))
        },
{
    let o = t.target(m)->0;
    let a = lemma_found(t.paths, m.path->0);
    assert(o.valid());
    lemma_errors(Seq::empty(), Seq::empty());
    if let Ok(cb) = o.method_for(m) {
        lemma_prop_arg(o, m);
        match cb {
            Callback::PropGet => {
                if let Ok((_, p)) = o.prop_arg(m.items) {
                    lemma_errors(p.name, p.name);
                }
            },
            Callback::PropSet => {
                if let Ok((_, p)) = o.prop_arg(m.items) {
                    if let Ok(v) = variant_arg(m.items, 2) {
                        lemma_item(m.items, 2);
                        lemma_sig(v);
                        lemma_errors(p.name, type_sig(v));
                    }
                }
            },
            Callback::PropGetAll => {
                if let Ok(i) = str_arg(m.items, 0) {
                    if valid_iface(i) {
                        lemma_iface(i);
                        lemma_errors(i, i);
                        if let Some(iface) = find(o.ifaces, i) {
                            lemma_read_all(iface.properties);
                            if let Some(p) = first_unreadable(iface.properties) {
                                lemma_errors(p.name, p.name);
                            }
                        }
                    }
                }
            },
            _ => {},
        }
    }
}

} // verus!
