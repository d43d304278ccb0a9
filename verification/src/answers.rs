//! What each call is answered, and what it does: said of the calls, the parts of the tree, and
//! the messages that are sent back, field by field.
use std::sync::Arc;
use vstd::prelude::*;
use crate::dispatch::{DispatchV, answer};
use crate::error::ErrV;
use crate::interface::IfaceV;
use crate::item::{Item, type_sig};
use crate::laws::{law_asking_changes_nothing, law_read_all, law_refusal_changes_nothing};
use crate::message::{MessageType, Msg};
use crate::method::Callback;
use crate::names::valid_iface;
use crate::object::{ObjectV, read_all, set_reply};
use crate::property::{Access, EmitsChangedSignal, PropV};
use crate::show::shown;
use crate::signal::OwnerV;
use crate::sorted::{Keyed, find, lemma_find_at, lemma_found, lemma_put_update};
use crate::text::text_debug;
use crate::tree::TreeV;

verus! {

/// `m` is a call of the method `member` of the interface `iface` of the object at `path`.
pub open spec fn calls(m: Msg, path: Seq<char>, iface: Seq<char>, member: Seq<char>) -> bool {
    &&& m.msg_type == MessageType::MethodCall
    &&& m.path == Some(path)
    &&& m.interface == Some(iface)
    &&& m.member == Some(member)
}

/// `r` is the reply to the call `m` with these arguments: it goes to the sender of the call,
/// says by its serial which call it answers, and holds nothing else.
pub open spec fn is_reply(r: Msg, m: Msg, items: Seq<Item>) -> bool {
    &&& r.msg_type == MessageType::MethodReturn
    &&& r.destination == m.sender
    &&& r.reply_serial == m.serial
    &&& r.items == items
    &&& r.path is None
    &&& r.interface is None
    &&& r.member is None
    &&& r.error_name is None
    &&& r.sender is None
    &&& r.serial == 0
}

/// `r` is the error reply to the call `m` with this name and this text.
pub open spec fn is_error(r: Msg, m: Msg, name: Seq<char>, text: Seq<char>) -> bool {
    &&& r.msg_type == MessageType::Error
    &&& r.error_name == Some(name)
    &&& r.destination == m.sender
    &&& r.reply_serial == m.serial
    &&& r.items.len() == 1
    &&& r.items[0] == Item::Str(text)
    &&& r.path is None
    &&& r.interface is None
    &&& r.member is None
    &&& r.sender is None
    &&& r.serial == 0
}

/// `r` is the signal `member` of the interface `iface` of the object at `path`, with these
/// arguments.
pub open spec fn is_signal(
    r: Msg,
    path: Seq<char>,
    iface: Seq<char>,
    member: Seq<char>,
    items: Seq<Item>,
) -> bool {
    &&& r.msg_type == MessageType::Signal
    &&& r.path == Some(path)
    &&& r.interface == Some(iface)
    &&& r.member == Some(member)
    &&& r.items == items
    &&& r.error_name is None
    &&& r.destination is None
    &&& r.sender is None
    &&& r.serial == 0
    &&& r.reply_serial == 0
}

/// The message `m` to the tree `t` is refused with this error, without a callback, and
/// changes nothing.
pub open spec fn refused<M>(t: TreeV<M>, m: Msg, name: Seq<char>, text: Seq<char>) -> bool {
    &&& t.dispatch(m) matches DispatchV::Reply(v)
    &&& v.len() == 1
    &&& is_error(v[0], m, name, text)
    &&& t.after(m) == t
}

/// `DictEntry` of a name and a value in a variant.
pub open spec fn is_value_entry(i: Item, name: Seq<char>, value: Item) -> bool {
    i matches Item::DictEntry(k, x) && *k == Item::Str(name) && (*x matches Item::Variant(y) && *y
        == value)
}

/// Object `a` of the tree, its interface `b`, and in that the method `c`.
proof fn lemma_call<M>(t: TreeV<M>, m: Msg, a: int, b: int, c: int)
    requires
        t.valid(),
        0 <= a < t.paths.len(),
        0 <= b < t.paths[a].ifaces.len(),
        0 <= c < t.paths[a].ifaces[b].methods.len(),
        calls(
            m,
            t.paths[a].name,
            t.paths[a].ifaces[b].name,
            t.paths[a].ifaces[b].methods[c].name,
        ),
    ensures
        t.target(m) == Some(t.paths[a]),
        t.paths[a].method_for(m) == Ok::<Callback<M>, ErrV>(
            t.paths[a].ifaces[b].methods[c].cb,
        ),
        t.paths[a].valid(),
        t.paths[a].ifaces[b].valid(),
{
    let o = t.paths[a];
    assert(o.valid());
    let i = o.ifaces[b];
    assert(i.valid());
    lemma_find_at(t.paths, a);
    lemma_find_at(o.ifaces, b);
    lemma_find_at(i.methods, c);
}

/// A call of a method that was added with a callback of the user reaches that callback,
/// whatever arguments it carries, and changes nothing before.
pub proof fn law_call_reaches_callback<M>(
    t: TreeV<M>,
    m: Msg,
    a: int,
    b: int,
    c: int,
    cb: Arc<M>,
)
    requires
        t.valid(),
        0 <= a < t.paths.len(),
        0 <= b < t.paths[a].ifaces.len(),
        0 <= c < t.paths[a].ifaces[b].methods.len(),
        calls(
            m,
            t.paths[a].name,
            t.paths[a].ifaces[b].name,
            t.paths[a].ifaces[b].methods[c].name,
        ),
        t.paths[a].ifaces[b].methods[c].cb == Callback::User(cb),
    ensures
        t.dispatch(m) == DispatchV::<M>::Call(cb),
        t.after(m) == t,
{
    lemma_call(t, m, a, b, c);
    law_asking_changes_nothing(t, m);
}

/// An object finds the method that a call names among those of the interface that it names,
/// whatever arguments the call carries.
pub proof fn law_method_is_found<M>(o: ObjectV<M>, m: Msg, b: int, c: int)
    requires
        o.valid(),
        0 <= b < o.ifaces.len(),
        0 <= c < o.ifaces[b].methods.len(),
        m.interface == Some(o.ifaces[b].name),
        m.member == Some(o.ifaces[b].methods[c].name),
    ensures
        o.method_for(m) == Ok::<Callback<M>, ErrV>(o.ifaces[b].methods[c].cb),
{
    assert(o.ifaces[b].valid());
    lemma_find_at(o.ifaces, b);
    lemma_find_at(o.ifaces[b].methods, c);
}

/// A call that names no interface, or one that the object does not have, is refused.
pub proof fn law_unknown_interface<M>(t: TreeV<M>, m: Msg, a: int)
    requires
        t.valid(),
        0 <= a < t.paths.len(),
        m.msg_type == MessageType::MethodCall,
        m.path == Some(t.paths[a].name),
        m.interface matches Some(n) ==> forall|b: int|
            0 <= b < t.paths[a].ifaces.len() ==> (#[trigger] t.paths[a].ifaces[b]).name != n,
    ensures
        refused(
            t,
            m,
            "org.freedesktop.DBus.Error.UnknownInterface"@,
            "Unknown interface"@,
        ),
{
    let o = t.paths[a];
    assert(o.valid());
    lemma_find_at(t.paths, a);
    if let Some(n) = m.interface {
        if find(o.ifaces, n) is Some {
            let b = lemma_found(o.ifaces, n);
            assert(o.ifaces[b].name == n);
        }
    }
    law_refusal_changes_nothing(t, m);
}

/// A call that names no method, or one that the interface does not have, is refused.
pub proof fn law_unknown_method<M>(t: TreeV<M>, m: Msg, a: int, b: int)
    requires
        t.valid(),
        0 <= a < t.paths.len(),
        0 <= b < t.paths[a].ifaces.len(),
        m.msg_type == MessageType::MethodCall,
        m.path == Some(t.paths[a].name),
        m.interface == Some(t.paths[a].ifaces[b].name),
        m.member matches Some(n) ==> forall|c: int|
            0 <= c < t.paths[a].ifaces[b].methods.len()
                ==> (#[trigger] t.paths[a].ifaces[b].methods[c]).name != n,
    ensures
        refused(t, m, "org.freedesktop.DBus.Error.UnknownMethod"@, "Unknown method"@),
{
    let o = t.paths[a];
    assert(o.valid());
    let i = o.ifaces[b];
    assert(i.valid());
    lemma_find_at(t.paths, a);
    lemma_find_at(o.ifaces, b);
    if let Some(n) = m.member {
        if find(i.methods, n) is Some {
            let c = lemma_found(i.methods, n);
            assert(i.methods[c].name == n);
        }
    }
    law_refusal_changes_nothing(t, m);
}

/// A message is passed exactly where it is no method call, names no path, or names one that
/// no object of the tree has.
pub proof fn law_passed<M>(t: TreeV<M>, m: Msg)
    requires
        t.valid(),
    ensures
        t.dispatch(m) is Pass <==> {
            ||| m.msg_type != MessageType::MethodCall
            ||| m.path is None
            ||| forall|a: int|
                0 <= a < t.paths.len() ==> Some((#[trigger] t.paths[a]).name) != m.path
        },
        t.dispatch(m) is Pass ==> t.after(m) == t,
{
    if let Some(p) = m.path {
        if find(t.paths, p) is Some {
            let a = lemma_found(t.paths, p);
            assert(t.paths[a].name == p);
        } else {
            assert forall|a: int| 0 <= a < t.paths.len() implies Some(
                (#[trigger] t.paths[a]).name,
            ) != m.path by {
                lemma_find_at(t.paths, a);
            }
        }
    }
}

/// Object `a` of the tree is called, by method `c` of its interface `b`, for property `p` of its
/// interface `i`.
pub open spec fn names_property<M>(
    t: TreeV<M>,
    m: Msg,
    a: int,
    i: int,
    p: int,
    b: int,
    c: int,
) -> bool {
    &&& t.valid()
    &&& 0 <= a < t.paths.len()
    &&& 0 <= b < t.paths[a].ifaces.len()
    &&& 0 <= c < t.paths[a].ifaces[b].methods.len()
    &&& calls(
        m,
        t.paths[a].name,
        t.paths[a].ifaces[b].name,
        t.paths[a].ifaces[b].methods[c].name,
    )
    &&& 0 <= i < t.paths[a].ifaces.len()
    &&& 0 <= p < t.paths[a].ifaces[i].properties.len()
    &&& m.items.len() >= 2
    &&& m.items[0] == Item::Str(t.paths[a].ifaces[i].name)
    &&& m.items[1] == Item::Str(t.paths[a].ifaces[i].properties[p].name)
}

proof fn lemma_names_property<M>(t: TreeV<M>, m: Msg, a: int, i: int, p: int, b: int, c: int)
    requires
        names_property(t, m, a, i, p, b, c),
    ensures
        t.target(m) == Some(t.paths[a]),
        t.paths[a].method_for(m) == Ok::<Callback<M>, ErrV>(
            t.paths[a].ifaces[b].methods[c].cb,
        ),
        t.paths[a].prop_arg(m.items) == Ok::<(IfaceV<M>, PropV<M>), ErrV>(
            (t.paths[a].ifaces[i], t.paths[a].ifaces[i].properties[p]),
        ),
        t.paths[a].ifaces[i].properties[p].owner == Some(
            OwnerV { path: t.paths[a].name, iface: t.paths[a].ifaces[i].name },
        ),
        t.paths[a].ifaces[i].properties[p].valid(),
{
    lemma_call(t, m, a, b, c);
    let o = t.paths[a];
    assert(o.ifaces[i].valid());
    assert(o.ifaces[i].belongs(o.name));
    lemma_find_at(o.ifaces, i);
    lemma_find_at(o.ifaces[i].properties, p);
}

/// A call that reads a property of the object is answered with its value, in a variant,
/// unless the property is write only: then it is refused. It changes nothing.
pub proof fn law_get<M>(t: TreeV<M>, m: Msg, a: int, i: int, p: int, b: int, c: int)
    requires
        names_property(t, m, a, i, p, b, c),
        t.paths[a].ifaces[b].methods[c].cb == Callback::<M>::PropGet,
    ensures
        ({
            let x = t.paths[a].ifaces[i].properties[p];
            if x.rw == Access::Write {
                refused(
                    t,
                    m,
                    "org.freedesktop.DBus.Error.Failed"@,
                    "Property "@ + x.name + " is write only"@,
                )
            } else {
                &&& t.dispatch(m) matches DispatchV::Reply(v)
                &&& v.len() == 1
                &&& is_reply(v[0], m, v[0].items)
                &&& v[0].items.len() == 1
                &&& v[0].items[0] matches Item::Variant(y)
                &&& *y == x.value
                &&& t.after(m) == t
            }
        }),
{
    lemma_names_property(t, m, a, i, p, b, c);
    let x = t.paths[a].ifaces[i].properties[p];
    crate::laws::lemma_after(t, m);
    if x.rw == Access::Write {
        law_refusal_changes_nothing(t, m);
    }
}

/// A call that reads all properties of an interface of the object is answered with an array of
/// the names and values of all of them, in their order, where the remote side may read all;
/// otherwise it is refused as the first that it may not read says. It changes nothing.
pub proof fn law_get_all<M>(t: TreeV<M>, m: Msg, a: int, i: int, b: int, c: int)
    requires
        t.valid(),
        0 <= a < t.paths.len(),
        0 <= b < t.paths[a].ifaces.len(),
        0 <= c < t.paths[a].ifaces[b].methods.len(),
        calls(
            m,
            t.paths[a].name,
            t.paths[a].ifaces[b].name,
            t.paths[a].ifaces[b].methods[c].name,
        ),
        t.paths[a].ifaces[b].methods[c].cb == Callback::<M>::PropGetAll,
        0 <= i < t.paths[a].ifaces.len(),
        m.items.len() >= 1,
        m.items[0] == Item::Str(t.paths[a].ifaces[i].name),
    ensures
        t.after(m) == t,
        (forall|p: int|
            0 <= p < t.paths[a].ifaces[i].properties.len()
                ==> (#[trigger] t.paths[a].ifaces[i].properties[p]).rw != Access::Write) ==> {
            &&& t.dispatch(m) matches DispatchV::Reply(v)
            &&& v.len() == 1
            &&& is_reply(v[0], m, v[0].items)
            &&& v[0].items.len() == 1
            &&& v[0].items[0] matches Item::Array(es, sig)
            &&& sig == "{sv}"@
            &&& es.len() == t.paths[a].ifaces[i].properties.len()
            &&& forall|p: int|
                0 <= p < es.len() ==> is_value_entry(
                    #[trigger] es[p],
                    t.paths[a].ifaces[i].properties[p].name,
                    t.paths[a].ifaces[i].properties[p].value,
                )
        },
        forall|p: int|
            0 <= p < t.paths[a].ifaces[i].properties.len()
                && (#[trigger] t.paths[a].ifaces[i].properties[p]).rw == Access::Write && (forall|
                q: int,
            |
                0 <= q < p ==> (#[trigger] t.paths[a].ifaces[i].properties[q]).rw != Access::Write)
                ==> refused(
                t,
                m,
                "org.freedesktop.DBus.Error.Failed"@,
                "Property "@ + t.paths[a].ifaces[i].properties[p].name + " is write only"@,
            ),
{
    lemma_call(t, m, a, b, c);
    let o = t.paths[a];
    let props = o.ifaces[i].properties;
    assert(o.ifaces[i].valid());
    lemma_find_at(o.ifaces, i);
    crate::laws::lemma_after(t, m);
    law_read_all(props);
    assert forall|p: int|
        0 <= p < props.len() && (#[trigger] props[p]).rw == Access::Write && (forall|q: int|
            0 <= q < p ==> (#[trigger] props[q]).rw != Access::Write) implies refused(
        t,
        m,
        "org.freedesktop.DBus.Error.Failed"@,
        "Property "@ + props[p].name + " is write only"@,
    ) by {
        match read_all(props) {
            Ok(v) => {
                assert(props[p].read() is Ok);
            },
            Err(e) => {
                let k = choose|k: int|
                    {
                        &&& 0 <= k < props.len()
                        &&& (#[trigger] props[k]).read() == Err::<Item, ErrV>(e)
                        &&& forall|j: int| 0 <= j < k ==> (#[trigger] props[j]).read() is Ok
                    };
                assert(props[k].rw == Access::Write);
                if p < k {
                    assert(props[p].read() is Ok);
                }
                assert(k == p);
            },
        }
    }
}

/// The tree `t` with the value `v` for property `p` of interface `i` of object `a`, and nothing
/// else changed.
pub open spec fn with_value_at<M>(t: TreeV<M>, a: int, i: int, p: int, v: Item) -> TreeV<M> {
    let o = t.paths[a];
    let f = o.ifaces[i];
    TreeV {
        paths: t.paths.update(
            a,
            ObjectV {
                name: o.name,
                ifaces: o.ifaces.update(
                    i,
                    IfaceV {
                        properties: f.properties.update(p, PropV { value: v, ..f.properties[p] }),
                        ..f
                    },
                ),
            },
        ),
    }
}

/// A call that sets a property of the object, which has no callback and which the remote side
/// may write, to a value of the same type is accepted: the property gets the value, nothing
/// else changes, and the call is answered. In front of the answer stands a signal that gives
/// the value, or one that says that the value no longer holds, or none, as the property says.
pub proof fn law_set<M>(
    t: TreeV<M>,
    m: Msg,
    a: int,
    i: int,
    p: int,
    b: int,
    c: int,
    value: Item,
)
    requires
        names_property(t, m, a, i, p, b, c),
        t.paths[a].ifaces[b].methods[c].cb == Callback::<M>::PropSet,
        t.paths[a].ifaces[i].properties[p].set_cb is None,
        t.paths[a].ifaces[i].properties[p].rw != Access::Read,
        m.items.len() >= 3,
        m.items[2] == Item::Variant(Box::new(value)),
        type_sig(value) == type_sig(t.paths[a].ifaces[i].properties[p].value),
    ensures
        t.after(m) == with_value_at(t, a, i, p, value),
        t.dispatch(m) matches DispatchV::Reply(v) && {
            let x = t.paths[a].ifaces[i].properties[p];
            &&& v.len() > 0
            &&& is_reply(v.last(), m, Seq::empty())
            &&& x.emits == EmitsChangedSignal::False ==> v.len() == 1
            &&& x.emits != EmitsChangedSignal::False ==> {
                &&& v.len() == 2
                &&& is_signal(
                    v[0],
                    t.paths[a].name,
                    "org.freedesktop.DBus.Properties"@,
                    "PropertiesChanged"@,
                    v[0].items,
                )
                &&& v[0].items[0] == Item::Str(t.paths[a].ifaces[i].name)
            }
            &&& x.emits == EmitsChangedSignal::True ==> {
                &&& v[0].items.len() == 2
                &&& v[0].items[1] matches Item::Array(es, sig)
                &&& sig == "{sv}"@
                &&& es.len() == 1
                &&& is_value_entry(es[0], x.name, value)
            }
            &&& x.emits == EmitsChangedSignal::Invalidates ==> {
                &&& v[0].items.len() == 3
                &&& v[0].items[1] == Item::Array(Seq::empty(), "{sv}"@)
                &&& v[0].items[2] matches Item::Array(ns, sig)
                &&& sig == "s"@
                &&& ns.len() == 1
                &&& ns[0] == Item::Str(x.name)
            }
        },
{
    lemma_names_property(t, m, a, i, p, b, c);
    let o = t.paths[a];
    let f = o.ifaces[i];
    let x = f.properties[p];
    let y = PropV { value, ..x };
    assert(o.valid());
    assert(f.valid());
    lemma_put_update(f.properties, y, p);
    let g = IfaceV { properties: f.properties.update(p, y), ..f };
    lemma_put_update(o.ifaces, g, i);
    let q = ObjectV { name: o.name, ifaces: o.ifaces.update(i, g) };
    lemma_put_update(t.paths, q, a);
    assert(x.after_set(m.items) == y);
}

/// A call to set a property that has a callback asks that callback, whatever else it says, and
/// changes nothing before.
pub proof fn law_set_asks_callback<M>(
    t: TreeV<M>,
    m: Msg,
    a: int,
    i: int,
    p: int,
    b: int,
    c: int,
    cb: Arc<M>,
)
    requires
        names_property(t, m, a, i, p, b, c),
        t.paths[a].ifaces[b].methods[c].cb == Callback::<M>::PropSet,
        t.paths[a].ifaces[i].properties[p].set_cb == Some(cb),
    ensures
        t.dispatch(m) == DispatchV::<M>::AskSet(cb),
        t.after(m) == t,
{
    lemma_names_property(t, m, a, i, p, b, c);
    law_asking_changes_nothing(t, m);
}

/// A call to set a property that has no callback is refused where it gives no value, where
/// what it gives is no variant, where the remote side may only read the property, and where
/// the value has another type; and the first of these that holds is what the refusal says.
pub proof fn law_set_refused<M>(
    t: TreeV<M>,
    m: Msg,
    a: int,
    i: int,
    p: int,
    b: int,
    c: int,
)
    requires
        names_property(t, m, a, i, p, b, c),
        t.paths[a].ifaces[b].methods[c].cb == Callback::<M>::PropSet,
        t.paths[a].ifaces[i].properties[p].set_cb is None,
    ensures
        m.items.len() == 2 ==> refused(
            t,
            m,
            "org.freedesktop.DBus.Error.InvalidArgs"@,
            "Not enough arguments"@,
        ),
        m.items.len() >= 3 && m.items[2] !is Variant ==> refused(
            t,
            m,
            "org.freedesktop.DBus.Error.InvalidArgs"@,
            "Invalid argument "@ + shown(m.items[2]),
        ),
        m.items.len() >= 3 && m.items[2] is Variant && t.paths[a].ifaces[i].properties[p].rw
            == Access::Read ==> refused(
            t,
            m,
            "org.freedesktop.DBus.Error.PropertyReadOnly"@,
            "Property "@ + t.paths[a].ifaces[i].properties[p].name + " is read only"@,
        ),
        m.items.len() >= 3 && t.paths[a].ifaces[i].properties[p].rw != Access::Read ==> (
        m.items[2] matches Item::Variant(x) ==> type_sig(*x) != type_sig(
            t.paths[a].ifaces[i].properties[p].value,
        ) ==> refused(
            t,
            m,
            "org.freedesktop.DBus.Error.Failed"@,
            "Property "@ + t.paths[a].ifaces[i].properties[p].name + " cannot change type to "@
                + type_sig(*x),
        )),
{
    lemma_names_property(t, m, a, i, p, b, c);
    if t.dispatch(m) matches DispatchV::Reply(v) && v.last().msg_type == MessageType::Error {
        law_refusal_changes_nothing(t, m);
    }
}

/// Calls that read or set properties are refused for their first argument where there is none,
/// where it is no string, where it is not the name of an interface, and where the object has
/// no interface of that name. (A call that reads or sets one property looks at its second
/// argument before it looks up the first.)
pub proof fn law_first_argument<M>(t: TreeV<M>, m: Msg, a: int, b: int, c: int)
    requires
        t.valid(),
        0 <= a < t.paths.len(),
        0 <= b < t.paths[a].ifaces.len(),
        0 <= c < t.paths[a].ifaces[b].methods.len(),
        calls(
            m,
            t.paths[a].name,
            t.paths[a].ifaces[b].name,
            t.paths[a].ifaces[b].methods[c].name,
        ),
        ({
            let cb = t.paths[a].ifaces[b].methods[c].cb;
            cb == Callback::<M>::PropGet || cb == Callback::<M>::PropSet || cb
                == Callback::<M>::PropGetAll
        }),
    ensures
        m.items.len() == 0 ==> refused(
            t,
            m,
            "org.freedesktop.DBus.Error.InvalidArgs"@,
            "Not enough arguments"@,
        ),
        m.items.len() > 0 && m.items[0] !is Str ==> refused(
            t,
            m,
            "org.freedesktop.DBus.Error.InvalidArgs"@,
            "Invalid argument "@ + shown(m.items[0]),
        ),
        t.paths[a].ifaces[b].methods[c].cb == Callback::<M>::PropGetAll || (m.items.len() > 1
            && m.items[1] is Str) ==> (m.items.len() > 0 && (m.items[0] matches Item::Str(n)
            && !valid_iface(n)) ==> refused(
            t,
            m,
            "org.freedesktop.DBus.Error.InvalidArgs"@,
            "Invalid argument "@ + text_debug(
                "Interface name was not valid: '"@ + m.items[0]->Str_0 + "'"@,
            ),
        )),
        t.paths[a].ifaces[b].methods[c].cb == Callback::<M>::PropGetAll || (m.items.len() > 1
            && m.items[1] is Str) ==> (m.items.len() > 0 && (m.items[0] matches Item::Str(n)
            && valid_iface(n) && forall|j: int|
            0 <= j < t.paths[a].ifaces.len() ==> (#[trigger] t.paths[a].ifaces[j]).name != n)
            ==> refused(
            t,
            m,
            "org.freedesktop.DBus.Error.UnknownInterface"@,
            "Unknown interface "@ + m.items[0]->Str_0,
        )),
{
    lemma_call(t, m, a, b, c);
    let o = t.paths[a];
    if m.items.len() > 0 {
        if let Item::Str(n) = m.items[0] {
            reveal_strlit("Interface name");
            reveal_strlit(" was not valid: '");
            reveal_strlit("Interface name was not valid: '");
            assert("Interface name"@ + " was not valid: '"@ =~= "Interface name was not valid: '"@);
            if find(o.ifaces, n) is Some {
                let j = lemma_found(o.ifaces, n);
                assert(o.ifaces[j].name == n);
                assert(o.ifaces[j].valid());
            }
        }
    }
    if t.dispatch(m) matches DispatchV::Reply(v) && v.last().msg_type == MessageType::Error {
        law_refusal_changes_nothing(t, m);
    }
}

/// Calls that read or set one property are refused for their second argument where there is
/// none, where it is no string, and where the interface has no property of that name.
pub proof fn law_second_argument<M>(t: TreeV<M>, m: Msg, a: int, b: int, c: int, i: int)
    requires
        t.valid(),
        0 <= a < t.paths.len(),
        0 <= b < t.paths[a].ifaces.len(),
        0 <= c < t.paths[a].ifaces[b].methods.len(),
        calls(
            m,
            t.paths[a].name,
            t.paths[a].ifaces[b].name,
            t.paths[a].ifaces[b].methods[c].name,
        ),
        ({
            let cb = t.paths[a].ifaces[b].methods[c].cb;
            cb == Callback::<M>::PropGet || cb == Callback::<M>::PropSet
        }),
        m.items.len() > 0,
        m.items[0] is Str,
    ensures
        m.items.len() == 1 ==> refused(
            t,
            m,
            "org.freedesktop.DBus.Error.InvalidArgs"@,
            "Not enough arguments"@,
        ),
        m.items.len() > 1 && m.items[1] !is Str ==> refused(
            t,
            m,
            "org.freedesktop.DBus.Error.InvalidArgs"@,
            "Invalid argument "@ + shown(m.items[1]),
        ),
        0 <= i < t.paths[a].ifaces.len() && m.items[0] == Item::Str(t.paths[a].ifaces[i].name)
            && m.items.len() > 1 && (m.items[1] matches Item::Str(n) && forall|p: int|
            0 <= p < t.paths[a].ifaces[i].properties.len()
                ==> (#[trigger] t.paths[a].ifaces[i].properties[p]).name != n) ==> refused(
            t,
            m,
            "org.freedesktop.DBus.Error.UnknownProperty"@,
            "Unknown property "@ + m.items[1]->Str_0,
        ),
{
    lemma_call(t, m, a, b, c);
    let o = t.paths[a];
    if 0 <= i < o.ifaces.len() && m.items.len() > 1 {
        assert(o.ifaces[i].valid());
        lemma_find_at(o.ifaces, i);
        if let Item::Str(n) = m.items[1] {
            if find(o.ifaces[i].properties, n) is Some {
                let p = lemma_found(o.ifaces[i].properties, n);
                assert(o.ifaces[i].properties[p].name == n);
            }
        }
    }
    if t.dispatch(m) matches DispatchV::Reply(v) && v.last().msg_type == MessageType::Error {
        law_refusal_changes_nothing(t, m);
    }
}

/// A call that describes an object is answered with its introspection text, and changes
/// nothing.
pub proof fn law_introspect<M>(t: TreeV<M>, m: Msg, a: int, b: int, c: int)
    requires
        t.valid(),
        0 <= a < t.paths.len(),
        0 <= b < t.paths[a].ifaces.len(),
        0 <= c < t.paths[a].ifaces[b].methods.len(),
        calls(
            m,
            t.paths[a].name,
            t.paths[a].ifaces[b].name,
            t.paths[a].ifaces[b].methods[c].name,
        ),
        t.paths[a].ifaces[b].methods[c].cb == Callback::<M>::Introspect,
    ensures
        t.dispatch(m) matches DispatchV::Reply(v) && v.len() == 1 && is_reply(
            v[0],
            m,
            seq![Item::Str(t.paths[a].xml(t))],
        ),
        t.after(m) == t,
{
    lemma_call(t, m, a, b, c);
    crate::laws::lemma_after(t, m);
    assert(Seq::<Item>::empty().push(Item::Str(t.paths[a].xml(t))) =~= seq![
        Item::Str(t.paths[a].xml(t)),
    ]);
}

/// The entry of the object `o` in a list of objects: its name, and all its interfaces with all
/// their properties and values, in their order.
pub open spec fn is_object_entry<M>(e: Item, o: ObjectV<M>) -> bool {
    &&& e matches Item::DictEntry(k, x)
    &&& *k == Item::Str(o.name)
    &&& *x matches Item::Array(fs, sig)
    &&& sig == "{sa{sv}}"@
    &&& fs.len() == o.ifaces.len()
    &&& forall|j: int|
        0 <= j < fs.len() ==> is_iface_entry(#[trigger] fs[j], o.ifaces[j])
}

/// The entry of the interface `i` in a list of objects: its name, and all its properties with
/// their values, in their order.
pub open spec fn is_iface_entry<M>(e: Item, i: IfaceV<M>) -> bool {
    &&& e matches Item::DictEntry(k, x)
    &&& *k == Item::Str(i.name)
    &&& *x matches Item::Array(ps, sig)
    &&& sig == "{sv}"@
    &&& ps.len() == i.properties.len()
    &&& forall|p: int|
        0 <= p < ps.len() ==> is_value_entry(
            #[trigger] ps[p],
            i.properties[p].name,
            i.properties[p].value,
        )
}

/// The object paths at the places `ks` of the tree, and no others, are below `parent`.
pub open spec fn are_below<M>(t: TreeV<M>, parent: Seq<char>, ks: Seq<int>) -> bool {
    &&& forall|j: int| 0 <= j < ks.len() ==> 0 <= #[trigger] ks[j] < t.paths.len()
    &&& forall|i: int, j: int| 0 <= i < j < ks.len() ==> #[trigger] ks[i] < #[trigger] ks[j]
    &&& forall|k: int|
        0 <= k < t.paths.len() ==> (ks.contains(k) <==> is_below(
            parent,
            (#[trigger] t.paths[k]).name,
        ))
}

/// The path `k` starts with `parent` and a slash, and something follows.
pub open spec fn is_below(parent: Seq<char>, k: Seq<char>) -> bool {
    &&& k.len() > parent.len() + 1
    &&& forall|j: int| 0 <= j < parent.len() ==> k[j] == parent[j]
    &&& k[parent.len() as int] == '/'
}

/// The children of an object path stand in the tree at ascending places, and those are all
/// that are below it.
proof fn lemma_places<M>(t: TreeV<M>, s: Seq<ObjectV<M>>, parent: Seq<char>) -> (ks: Seq<int>)
    requires
        s.len() <= t.paths.len(),
        s == t.paths.take(s.len() as int),
    ensures
        ks.len() == s.filter(
            |o: ObjectV<M>| crate::tree::is_child(parent, o.name, false),
        ).len(),
        forall|j: int| 0 <= j < ks.len() ==> 0 <= #[trigger] ks[j] < s.len(),
        forall|i: int, j: int| 0 <= i < j < ks.len() ==> #[trigger] ks[i] < #[trigger] ks[j],
        forall|j: int|
            0 <= j < ks.len() ==> t.paths[#[trigger] ks[j]] == s.filter(
                |o: ObjectV<M>| crate::tree::is_child(parent, o.name, false),
            )[j],
        forall|k: int|
            0 <= k < s.len() ==> (ks.contains(k) <==> is_below(
                parent,
                (#[trigger] t.paths[k]).name,
            )),
    decreases s.len(),
{
    reveal(Seq::filter);
    let pred = |o: ObjectV<M>| crate::tree::is_child(parent, o.name, false);
    if s.len() == 0 {
        Seq::empty()
    } else {
        let n = s.len() - 1;
        assert(s.drop_last() =~= t.paths.take(n));
        let ks = lemma_places(t, s.drop_last(), parent);
        assert(s.last() == t.paths[n]);
        lemma_is_below(parent, s.last().name);
        assert(!ks.contains(n)) by {
            if ks.contains(n) {
                let j = choose|j: int| 0 <= j < ks.len() && ks[j] == n;
                assert(ks[j] < n);
            }
        }
        if pred(s.last()) {
            let r = ks.push(n);
            assert forall|k: int| 0 <= k < s.len() implies (r.contains(k) <==> is_below(
                parent,
                (#[trigger] t.paths[k]).name,
            )) by {
                if k == n {
                    assert(r[ks.len() as int] == n);
                } else {
                    if ks.contains(k) {
                        let j = choose|j: int| 0 <= j < ks.len() && ks[j] == k;
                        assert(r[j] == k);
                    }
                    if r.contains(k) {
                        let j = choose|j: int| 0 <= j < r.len() && r[j] == k;
                        assert(ks[j] == k);
                    }
                }
            }
            r
        } else {
            ks
        }
    }
}

pub proof fn lemma_is_below(parent: Seq<char>, k: Seq<char>)
    ensures
        crate::tree::is_child(parent, k, false) <==> is_below(parent, k),
{
    let p = parent.push('/');
    if is_below(parent, k) {
        assert(p =~= k.take(p.len() as int));
    }
    if p.is_prefix_of(k) {
        assert forall|j: int| 0 <= j < parent.len() implies k[j] == parent[j] by {
            assert(k.take(p.len() as int)[j] == p[j]);
        }
        assert(k.take(p.len() as int)[parent.len() as int] == p[parent.len() as int]);
    }
}

/// The list of the objects that an object manages has one entry for each object of the tree
/// that is below it, at any depth, in the order of their names, and one for the object itself,
/// last.
pub proof fn law_managed_objects<M>(t: TreeV<M>, o: ObjectV<M>)
    requires
        t.valid(),
    ensures
        exists|ks: Seq<int>|
            {
                &&& #[trigger] are_below(t, o.name, ks)
                &&& o.managed_objects(t) matches Item::Array(v, sig)
                &&& sig == "{oa{sa{sv}}}"@
                &&& v.len() == ks.len() + 1
                &&& is_object_entry(v[ks.len() as int], o)
                &&& forall|j: int|
                    0 <= j < ks.len() ==> is_object_entry(#[trigger] v[j], t.paths[ks[j]])
            },
{
    assert(t.paths =~= t.paths.take(t.paths.len() as int));
    let ks = lemma_places(t, t.paths, o.name);
    assert(are_below(t, o.name, ks));
    let v = o.managed_objects(t)->Array_0;
    let cs = t.children(o.name, false);
    assert(cs.len() == ks.len());
    assert forall|j: int| 0 <= j < ks.len() implies is_object_entry(
        #[trigger] v[j],
        t.paths[ks[j]],
    ) by {
        assert(t.paths[ks[j]] == cs[j]);
        assert(cs.push(o)[j] == cs[j]);
    }
    assert(cs.push(o)[ks.len() as int] == o);
}

/// A call that lists the objects that an object manages is answered with that list, and changes
/// nothing.
pub proof fn law_get_managed_objects<M>(t: TreeV<M>, m: Msg, a: int, b: int, c: int)
    requires
        t.valid(),
        0 <= a < t.paths.len(),
        0 <= b < t.paths[a].ifaces.len(),
        0 <= c < t.paths[a].ifaces[b].methods.len(),
        calls(
            m,
            t.paths[a].name,
            t.paths[a].ifaces[b].name,
            t.paths[a].ifaces[b].methods[c].name,
        ),
        t.paths[a].ifaces[b].methods[c].cb == Callback::<M>::ManagedObjects,
    ensures
        t.dispatch(m) matches DispatchV::Reply(v) && v.len() == 1 && is_reply(
            v[0],
            m,
            seq![t.paths[a].managed_objects(t)],
        ),
        t.after(m) == t,
{
    lemma_call(t, m, a, b, c);
    crate::laws::lemma_after(t, m);
    assert(Seq::<Item>::empty().push(t.paths[a].managed_objects(t)) =~= seq![
        t.paths[a].managed_objects(t),
    ]);
}

/// What a callback of a method comes to is what is sent back: its messages as they are, or its
/// error as the one error reply.
pub proof fn law_callback_answer(m: Msg, r: Result<Seq<Msg>, ErrV>)
    ensures
        r matches Ok(v) ==> answer(m, r) == v,
        r matches Err(e) ==> answer(m, r).len() == 1 && is_error(
            answer(m, r)[0],
            m,
            e.name,
            e.text,
        ),
{
}

/// What a callback that sets a property comes to: its messages, and behind them the empty reply
/// to the call; or its error.
pub proof fn law_set_callback_answer(m: Msg, r: Result<Seq<Msg>, ErrV>)
    ensures
        r matches Err(e) ==> set_reply(m, r) == r,
        r matches Ok(v) ==> {
            &&& set_reply(m, r) matches Ok(w)
            &&& w.len() == v.len() + 1
            &&& forall|k: int| 0 <= k < v.len() ==> w[k] == #[trigger] v[k]
            &&& is_reply(w[v.len() as int], m, Seq::empty())
        },
{
}

} // verus!
