//! What holds of trees as a whole, across their operations.
use vstd::prelude::*;
use crate::args::{str_arg, variant_arg};
use crate::dispatch::{DispatchV, answer};
use crate::error::ErrV;
use crate::interface::{EntryV, IfaceV, RefV, referred, retired};
use crate::item::{Item, type_sig};
use crate::message::{MessageType, Msg};
use crate::method::{Callback, MethodV};
use crate::names::{lemma_introspectable_names, lemma_object_manager_names, lemma_properties_names};
use crate::object::{ObjectV, get_all_method, get_method, introspect_method, introspectable_iface, lemma_with_iface, lemma_with_property, managed_objects_method, object_manager_iface, prop_entry, properties_iface, read_all, set_method, set_reply};
use crate::property::{Access, EmitsChangedSignal, PropV};
use crate::signal::{OwnerV, SignalV};
use crate::sorted::{Keyed, count_named, find, lemma_find_at, lemma_found, lemma_nth_named, lemma_nth_named_push, lemma_put_commutes, lemma_put_find, lemma_put_find_other, lemma_put_same, lemma_put_sound, lemma_same_finds, named, named_at, ordered, put};
use crate::server::{ConnectionItem, RegisteringV, RegistrationV, ServerStep, server_step, takes};
use crate::text::{joined, text_lt};
use crate::tree::{TreeV, below_path, is_child, lemma_property_shape};
use crate::xml::{element_texts, map_xml};

verus! {

/// The message `m` is a call to set the property `p` of the interface `i` of the object `o`,
/// and the property has no callback.
pub open spec fn sets<M>(t: TreeV<M>, m: Msg, o: ObjectV<M>, i: IfaceV<M>, p: PropV<M>) -> bool {
    &&& t.target(m) == Some(o)
    &&& o.method_for(m) == Ok::<Callback<M>, ErrV>(Callback::PropSet)
    &&& o.prop_arg(m.items) == Ok::<(IfaceV<M>, PropV<M>), ErrV>((i, p))
    &&& p.set_cb is None
}

/// What a call to set a property reaches is in the tree, under the names that the call gives.
pub proof fn lemma_sets<M>(t: TreeV<M>, m: Msg, o: ObjectV<M>, i: IfaceV<M>, p: PropV<M>)
    requires
        t.valid(),
        sets(t, m, o, i, p),
    ensures
        m.path == Some(o.name),
        find(t.paths, o.name) == Some(o),
        o.valid(),
        find(o.ifaces, i.name) == Some(i),
        i.valid(),
        i.property(p.name) == Some(p),
        p.valid(),
        p.owner == Some(OwnerV { path: o.name, iface: i.name }),
        str_arg(m.items, 0) == Ok::<Seq<char>, ErrV>(i.name),
        str_arg(m.items, 1) == Ok::<Seq<char>, ErrV>(p.name),
        t.property(o.name, EntryV { iface: i.name, name: p.name }) == Some(p),
        t.after(m) == t.with_property(o.name, i.name, p.after_set(m.items)),
{
    let a = lemma_found(t.paths, m.path->0);
    let b = lemma_found(o.ifaces, str_arg(m.items, 0)->Ok_0);
    let c = lemma_found(i.properties, str_arg(m.items, 1)->Ok_0);
}

/// A property in a tree, with all that it is in.
proof fn lemma_property<M>(t: TreeV<M>, path: Seq<char>, e: EntryV) -> (r: (
    ObjectV<M>,
    IfaceV<M>,
    PropV<M>,
))
    requires
        t.valid(),
        t.property(path, e) is Some,
    ensures
        find(t.paths, path) == Some(r.0),
        r.0.valid(),
        r.0.name == path,
        find(r.0.ifaces, e.iface) == Some(r.1),
        r.1.valid(),
        r.1.name == e.iface,
        r.1.property(e.name) == Some(r.2),
        r.2.valid(),
        r.2.name == e.name,
        r.2.owner == Some(OwnerV { path, iface: e.iface }),
        t.property(path, e) == Some(r.2),
{
    let a = lemma_found(t.paths, path);
    let o = t.paths[a];
    let b = lemma_found(o.ifaces, e.iface);
    let i = o.ifaces[b];
    let c = lemma_found(i.properties, e.name);
    (o, i, i.properties[c])
}

/// A property in a tree that is exchanged for one of the same name and owner: the tree is
/// valid, and the new one is found.
proof fn lemma_exchanged<M>(t: TreeV<M>, path: Seq<char>, e: EntryV, p: PropV<M>)
    requires
        t.valid(),
        t.property(path, e) is Some,
        p.valid(),
        p.name == e.name,
        p.owner == t.property(path, e)->0.owner,
    ensures
        t.with_property(path, e.iface, p).valid(),
        t.with_property(path, e.iface, p).property(path, e) == Some(p),
{
    let (o, i, q) = lemma_property(t, path, e);
    lemma_with_property(o, i, p);
    lemma_put_find(i.properties, p);
    lemma_put_find(o.ifaces, i.with_p(p));
    lemma_put_find(t.paths, o.with_iface(i.with_p(p)));
    lemma_put_sound(t.paths, o.with_iface(i.with_p(p)));
}

/// Where a property in a tree is exchanged for one of the same name, every other property is
/// as it was, and so is every signal.
proof fn lemma_exchanged_other<M>(
    t: TreeV<M>,
    path: Seq<char>,
    e: EntryV,
    p: PropV<M>,
    other: Seq<char>,
    f: EntryV,
)
    requires
        t.valid(),
        t.property(path, e) is Some,
        p.name == e.name,
    ensures
        !(other == path && f.iface == e.iface && f.name == e.name) ==> t.with_property(
            path,
            e.iface,
            p,
        ).property(other, f) == t.property(other, f),
        t.with_property(path, e.iface, p).signal(other, f) == t.signal(other, f),
{
    let (o, i, q) = lemma_property(t, path, e);
    let i2 = i.with_p(p);
    let o2 = o.with_iface(i2);
    lemma_put_find(t.paths, o2);
    lemma_put_find(o.ifaces, i2);
    if other != path {
        lemma_put_find_other(t.paths, o2, other);
    } else if f.iface != e.iface {
        lemma_put_find_other(o.ifaces, i2, f.iface);
    } else if f.name != e.name {
        lemma_put_find_other(i.properties, p, f.name);
    }
}

/// Where a property in a tree is exchanged, every call finds the same method as before.
proof fn lemma_exchanged_method<M>(t: TreeV<M>, path: Seq<char>, e: EntryV, p: PropV<M>, m: Msg)
    requires
        t.valid(),
        t.property(path, e) is Some,
    ensures
        t.with_property(path, e.iface, p).target(m) is Some <==> t.target(m) is Some,
        t.target(m) is Some ==> t.with_property(path, e.iface, p).target(m)->0.method_for(m)
            == t.target(m)->0.method_for(m),
{
    let (o, i, q) = lemma_property(t, path, e);
    let i2 = i.with_p(p);
    let o2 = o.with_iface(i2);
    lemma_put_find(t.paths, o2);
    lemma_put_find(o.ifaces, i2);
    if let Some(k) = m.path {
        if k != path {
            lemma_put_find_other(t.paths, o2, k);
        }
    }
    if let Some(k) = m.interface {
        if k != e.iface {
            lemma_put_find_other(o.ifaces, i2, k);
        }
    }
}

/// A property in a tree that is exchanged for itself: nothing changes.
proof fn lemma_exchanged_same<M>(t: TreeV<M>, path: Seq<char>, e: EntryV)
    requires
        t.valid(),
        t.property(path, e) is Some,
    ensures
        t.with_property(path, e.iface, t.property(path, e)->0) == t,
{
    let (o, i, p) = lemma_property(t, path, e);
    let c = lemma_found(i.properties, e.name);
    lemma_put_same(i.properties, c);
    assert(i.with_p(p) == i);
    let b = lemma_found(o.ifaces, e.iface);
    lemma_put_same(o.ifaces, b);
    assert(o.with_iface(i) == o);
    let a = lemma_found(t.paths, path);
    lemma_put_same(t.paths, a);
    assert(t.add(o) == t);
}

/// What a message does to a tree before any callback is called: nothing, or it sets a property.
pub proof fn lemma_after<M>(t: TreeV<M>, m: Msg) -> (r: Option<(ObjectV<M>, IfaceV<M>, PropV<M>)>)
    requires
        t.valid(),
    ensures
        r is None ==> t.after(m) == t,
        r matches Some((o, i, p)) ==> sets(t, m, o, i, p),
{
    match t.target(m) {
        None => None,
        Some(o) => {
            let a = lemma_found(t.paths, m.path->0);
            lemma_put_same(t.paths, a);
            if o.method_for(m) == Ok::<Callback<M>, ErrV>(Callback::PropSet) {
                match o.prop_arg(m.items) {
                    Err(_) => None,
                    Ok((i, p)) => {
                        if p.set_cb is None {
                            Some((o, i, p))
                        } else {
                            None
                        }
                    },
                }
            } else {
                None
            }
        },
    }
}

/// A message leaves all of a tree as it is but the values of properties, before any callback is
/// called: no object path, interface, method, signal or property comes or goes.
pub proof fn law_after_shape<M>(t: TreeV<M>, m: Msg)
    requires
        t.valid(),
    ensures
        t.after(m).same_shape(t),
{
    if let Some((o, i, p)) = lemma_after(t, m) {
        lemma_sets(t, m, o, i, p);
        let e = EntryV { iface: i.name, name: p.name };
        assert(p.after_set(m.items).shape() == p.shape());
        lemma_property_shape(t, o.name, e, p.after_set(m.items));
    }
}

/// Handling a message keeps a tree valid, before any callback is called.
pub proof fn law_after_valid<M>(t: TreeV<M>, m: Msg)
    requires
        t.valid(),
    ensures
        t.after(m).valid(),
{
    if let Some((o, i, p)) = lemma_after(t, m) {
        lemma_sets(t, m, o, i, p);
        lemma_exchanged(
            t,
            o.name,
            EntryV { iface: i.name, name: p.name },
            p.after_set(m.items),
        );
    }
}

/// A value that the remote side sets is the value that it reads afterwards: after a call to
/// set a property was accepted, a call to read it is answered with that value, unless the
/// property is write only. The property in the tree holds the value, too.
pub proof fn law_set_then_get<M>(
    t: TreeV<M>,
    set: Msg,
    get: Msg,
    o: ObjectV<M>,
    i: IfaceV<M>,
    p: PropV<M>,
)
    requires
        t.valid(),
        sets(t, set, o, i, p),
        o.set_answer(set) is Ok,
        t.target(get) == Some(o),
        o.method_for(get) == Ok::<Callback<M>, ErrV>(Callback::PropGet),
        str_arg(get.items, 0) == str_arg(set.items, 0),
        str_arg(get.items, 1) == str_arg(set.items, 1),
    ensures
        variant_arg(set.items, 2) matches Ok(v) && {
            &&& t.dispatch(set) == DispatchV::<M>::Reply(
                p.announcement(v).push(set.method_return()),
            )
            &&& t.after(set).property(o.name, EntryV { iface: i.name, name: p.name }) == Some(
                p.with_value(v),
            )
            &&& p.rw != Access::Write ==> t.after(set).dispatch(get) == DispatchV::<M>::Reply(
                seq![get.method_return().append(Item::Variant(Box::new(v)))],
            )
        },
{
    let e = EntryV { iface: i.name, name: p.name };
    let p2 = p.after_set(set.items);
    lemma_sets(t, set, o, i, p);
    lemma_exchanged(t, o.name, e, p2);
    lemma_exchanged_method(t, o.name, e, p2, get);
    let t2 = t.after(set);
    let (o2, i2, q2) = lemma_property(t2, o.name, e);
    assert(t2.target(get) == Some(o2));
    assert(o2.prop_arg(get.items) == Ok::<(IfaceV<M>, PropV<M>), ErrV>((i2, p2)));
}

/// A value that is set locally is the value that is read afterwards, locally and by a call.
pub proof fn law_local_set_then_get<M>(
    t: TreeV<M>,
    path: Seq<char>,
    e: EntryV,
    v: Item,
    get: Msg,
)
    requires
        t.valid(),
        t.property(path, e) is Some,
        t.target(get) is Some,
        get.path == Some(path),
        t.target(get)->0.method_for(get) == Ok::<Callback<M>, ErrV>(Callback::PropGet),
        str_arg(get.items, 0) == Ok::<Seq<char>, ErrV>(e.iface),
        str_arg(get.items, 1) == Ok::<Seq<char>, ErrV>(e.name),
    ensures
        ({
            let p = t.property(path, e)->0;
            let t2 = t.with_property(path, e.iface, p.with_value(v));
            &&& t2.valid()
            &&& t2.property(path, e) == Some(p.with_value(v))
            &&& p.rw != Access::Write ==> t2.dispatch(get) == DispatchV::<M>::Reply(
                seq![get.method_return().append(Item::Variant(Box::new(v)))],
            )
        }),
{
    let (o, i, p) = lemma_property(t, path, e);
    let p2 = p.with_value(v);
    lemma_exchanged(t, path, e, p2);
    lemma_exchanged_method(t, path, e, p2, get);
    let t2 = t.with_property(path, e.iface, p2);
    let (o2, i2, q2) = lemma_property(t2, path, e);
    assert(t2.target(get) == Some(o2));
    assert(o2.prop_arg(get.items) == Ok::<(IfaceV<M>, PropV<M>), ErrV>((i2, p2)));
}

/// Setting a property locally touches nothing else: every other property and every signal is
/// as it was.
pub proof fn law_local_set_touches_one<M>(
    t: TreeV<M>,
    path: Seq<char>,
    e: EntryV,
    v: Item,
    other: Seq<char>,
    f: EntryV,
)
    requires
        t.valid(),
        t.property(path, e) is Some,
    ensures
        ({
            let t2 = t.with_property(path, e.iface, t.property(path, e)->0.with_value(v));
            &&& !(other == path && f.iface == e.iface && f.name == e.name) ==> t2.property(other, f)
                == t.property(other, f)
            &&& t2.signal(other, f) == t.signal(other, f)
        }),
{
    let (o, i, p) = lemma_property(t, path, e);
    lemma_exchanged_other(t, path, e, p.with_value(v), other, f);
}

/// What a message can do to a property before any callback is called: it can give it another
/// value, of the same type, where the remote side may write it, it has no callback, and the
/// message is a call to set this one property. Nothing else of it changes.
pub proof fn law_properties_are_stable<M>(t: TreeV<M>, m: Msg, path: Seq<char>, e: EntryV)
    requires
        t.valid(),
        t.property(path, e) is Some,
    ensures
        ({
            let p = t.property(path, e)->0;
            &&& t.after(m).property(path, e) matches Some(q)
            &&& q == p.with_value(q.value)
            &&& type_sig(q.value) == type_sig(p.value)
            &&& q != p ==> {
                &&& p.rw != Access::Read
                &&& p.emits != EmitsChangedSignal::Const
                &&& p.set_cb is None
                &&& t.target(m) matches Some(o)
                &&& o.name == path
                &&& o.method_for(m) == Ok::<Callback<M>, ErrV>(Callback::PropSet)
                &&& str_arg(m.items, 0) == Ok::<Seq<char>, ErrV>(e.iface)
                &&& str_arg(m.items, 1) == Ok::<Seq<char>, ErrV>(e.name)
                &&& variant_arg(m.items, 2) == Ok::<Item, ErrV>(q.value)
            }
        }),
{
    let (po, pi, p) = lemma_property(t, path, e);
    if let Some((o, i, q)) = lemma_after(t, m) {
        lemma_sets(t, m, o, i, q);
        let f = EntryV { iface: i.name, name: q.name };
        lemma_exchanged(t, o.name, f, q.after_set(m.items));
        lemma_exchanged_other(t, o.name, f, q.after_set(m.items), path, e);
    }
}

/// A message leaves every signal as it is.
pub proof fn law_signals_are_stable<M>(t: TreeV<M>, m: Msg, path: Seq<char>, e: EntryV)
    requires
        t.valid(),
    ensures
        t.after(m).signal(path, e) == t.signal(path, e),
{
    if let Some((o, i, q)) = lemma_after(t, m) {
        lemma_sets(t, m, o, i, q);
        let f = EntryV { iface: i.name, name: q.name };
        lemma_exchanged_other(t, o.name, f, q.after_set(m.items), path, e);
    }
}

/// A message leaves every way to a method as it is: a later call finds the same method as
/// before.
pub proof fn law_methods_are_stable<M>(t: TreeV<M>, m: Msg, later: Msg)
    requires
        t.valid(),
    ensures
        t.after(m).target(later) is Some <==> t.target(later) is Some,
        t.target(later) is Some ==> t.after(m).target(later)->0.method_for(later) == t.target(
            later,
        )->0.method_for(later),
{
    if let Some((o, i, q)) = lemma_after(t, m) {
        lemma_sets(t, m, o, i, q);
        let f = EntryV { iface: i.name, name: q.name };
        lemma_exchanged_method(t, o.name, f, q.after_set(m.items), later);
    }
}

/// A message that is refused changes nothing: where the answer is an error, the tree is as it
/// was.
pub proof fn law_refusal_changes_nothing<M>(t: TreeV<M>, m: Msg)
    requires
        t.valid(),
        t.dispatch(m) matches DispatchV::Reply(v) && v.last().msg_type == MessageType::Error,
    ensures
        t.after(m) == t,
{
    if let Some((o, i, p)) = lemma_after(t, m) {
        lemma_sets(t, m, o, i, p);
        lemma_exchanged_same(t, o.name, EntryV { iface: i.name, name: p.name });
    }
}

/// A message that is passed, or that a callback has to be asked about, changes nothing before
/// the callback is called.
pub proof fn law_asking_changes_nothing<M>(t: TreeV<M>, m: Msg)
    requires
        t.valid(),
        t.dispatch(m) !is Reply,
    ensures
        t.after(m) == t,
{
    if let Some((o, i, p)) = lemma_after(t, m) {
        assert(o.set_callback(m) is None);
    }
}

/// Only a call to set a property changes the tree, before any callback is called.
pub proof fn law_only_set_changes<M>(t: TreeV<M>, m: Msg)
    requires
        t.valid(),
        t.after(m) != t,
    ensures
        t.target(m) matches Some(o) && o.method_for(m) == Ok::<Callback<M>, ErrV>(
            Callback::PropSet,
        ) && o.set_callback(m) is None && o.set_answer(m) is Ok,
{
    if let Some((o, i, p)) = lemma_after(t, m) {
        if o.set_answer(m) is Err {
            law_refusal_changes_nothing(t, m);
        }
    }
}

/// Whatever is answered without a callback is answered once, and last: the list of messages
/// ends with one reply to the call, and in front of it stand at most signals that say what
/// changed at the object.
pub proof fn law_answered_once<M>(t: TreeV<M>, m: Msg)
    requires
        t.valid(),
        t.dispatch(m) is Reply,
    ensures
        t.dispatch(m) matches DispatchV::Reply(v) && {
            &&& v.len() > 0
            &&& v.last().answers(m)
            &&& v.len() <= 2
            &&& forall|k: int|
                0 <= k < v.len() - 1 ==> (#[trigger] v[k]).msg_type == MessageType::Signal
                    && v[k].path == m.path
        },
{
    if let Some((o, i, p)) = lemma_after(t, m) {
        lemma_sets(t, m, o, i, p);
    }
}

/// Whatever a callback that sets a property comes to, the call is answered once, and last: its
/// own messages come first, and where it fails there are none.
pub proof fn law_asked_set_is_answered(m: Msg, r: Result<Seq<Msg>, ErrV>)
    ensures
        answer(m, set_reply(m, r)).len() > 0,
        answer(m, set_reply(m, r)).last().answers(m),
        r matches Ok(v) ==> answer(m, set_reply(m, r)).drop_last() == v,
        r is Err ==> answer(m, set_reply(m, r)).len() == 1,
{
    if let Ok(v) = r {
        assert(answer(m, set_reply(m, r)).drop_last() =~= v);
    }
}

/// A message is handled exactly where it is a method call to an object path of the tree.
pub proof fn law_what_is_handled<M>(t: TreeV<M>, m: Msg)
    ensures
        t.dispatch(m) !is Pass <==> m.msg_type == MessageType::MethodCall && (m.path matches Some(p)
            && named(t.paths, p)),
        t.dispatch(m) is Pass ==> t.after(m) == t,
{
}

/// A property that is write only is never read: a call to read it is answered with an error
/// that says so.
pub proof fn law_write_only<M>(t: TreeV<M>, path: Seq<char>, e: EntryV, get: Msg)
    requires
        t.valid(),
        t.property(path, e) is Some,
        t.property(path, e)->0.rw == Access::Write,
        t.target(get) is Some,
        get.path == Some(path),
        t.target(get)->0.method_for(get) == Ok::<Callback<M>, ErrV>(Callback::PropGet),
        str_arg(get.items, 0) == Ok::<Seq<char>, ErrV>(e.iface),
        str_arg(get.items, 1) == Ok::<Seq<char>, ErrV>(e.name),
    ensures
        t.dispatch(get) == DispatchV::<M>::Reply(
            seq![
                get.error(
                    "org.freedesktop.DBus.Error.Failed"@,
                    "Property "@ + e.name + " is write only"@,
                ),
            ],
        ),
{
    let (o, i, p) = lemma_property(t, path, e);
    assert(o.prop_arg(get.items) == Ok::<(IfaceV<M>, PropV<M>), ErrV>((i, p)));
}

/// The interface that gives access to properties is valid, and belongs anywhere.
proof fn lemma_properties_iface<M>(path: Seq<char>)
    ensures
        properties_iface::<M>().valid(),
        properties_iface::<M>().belongs(path),
        properties_iface::<M>().name == "org.freedesktop.DBus.Properties"@,
        find(properties_iface::<M>().methods, "Get"@) == Some(get_method::<M>()),
        find(properties_iface::<M>().methods, "GetAll"@) == Some(get_all_method::<M>()),
        find(properties_iface::<M>().methods, "Set"@) == Some(set_method::<M>()),
{
    lemma_properties_names();
    reveal(ordered);
    reveal_strlit("Get");
    reveal_strlit("GetAll");
    reveal_strlit("Set");
    assert("Get"@.len() != "GetAll"@.len() && "Set"@.len() != "GetAll"@.len());
    assert("Get"@[0] != "Set"@[0]);
    let none = Seq::<MethodV<M>>::empty();
    let one = put(none, get_method::<M>());
    let two = put(one, get_all_method::<M>());
    lemma_put_sound(none, get_method::<M>());
    lemma_put_sound(one, get_all_method::<M>());
    lemma_put_sound(two, set_method::<M>());
    lemma_put_find(none, get_method::<M>());
    lemma_put_find(one, get_all_method::<M>());
    lemma_put_find(two, set_method::<M>());
    lemma_put_find_other(one, get_all_method::<M>(), "Get"@);
    lemma_put_find_other(two, set_method::<M>(), "Get"@);
    lemma_put_find_other(two, set_method::<M>(), "GetAll"@);
}

/// The interface that describes an object is valid, and belongs anywhere.
proof fn lemma_introspectable_iface<M>(path: Seq<char>)
    ensures
        introspectable_iface::<M>().valid(),
        introspectable_iface::<M>().owned(path) == introspectable_iface::<M>(),
        introspectable_iface::<M>().belongs(path),
        find(introspectable_iface::<M>().methods, "Introspect"@) == Some(
            introspect_method::<M>(),
        ),
{
    lemma_introspectable_names();
    reveal(ordered);
    let i = introspectable_iface::<M>();
    let none = Seq::<MethodV<M>>::empty();
    lemma_put_sound(none, introspect_method::<M>());
    lemma_put_find(none, introspect_method::<M>());
    assert(i.owned(path).signals =~= i.signals);
    assert(i.owned(path).properties =~= i.properties);
}

/// The interface that lists objects is valid, and belongs anywhere.
proof fn lemma_object_manager_iface<M>(path: Seq<char>)
    ensures
        object_manager_iface::<M>().valid(),
        object_manager_iface::<M>().owned(path) == object_manager_iface::<M>(),
        object_manager_iface::<M>().belongs(path),
        find(object_manager_iface::<M>().methods, "GetManagedObjects"@) == Some(
            managed_objects_method::<M>(),
        ),
{
    lemma_object_manager_names();
    reveal(ordered);
    let i = object_manager_iface::<M>();
    let none = Seq::<MethodV<M>>::empty();
    lemma_put_sound(none, managed_objects_method::<M>());
    lemma_put_find(none, managed_objects_method::<M>());
    assert(i.owned(path).signals =~= i.signals);
    assert(i.owned(path).properties =~= i.properties);
}

/// Making an interface belong to an object path keeps it valid.
proof fn lemma_owned<M>(i: IfaceV<M>, path: Seq<char>)
    requires
        i.valid(),
    ensures
        i.owned(path).valid(),
        i.owned(path).belongs(path),
{
    reveal(ordered);
    let j = i.owned(path);
    assert forall|a: int, b: int| 0 <= a < b < j.signals.len() implies text_lt(
        #[trigger] j.signals[a].key(),
        #[trigger] j.signals[b].key(),
    ) by {
        assert(text_lt(i.signals[a].key(), i.signals[b].key()));
    }
    assert forall|a: int, b: int| 0 <= a < b < j.properties.len() implies text_lt(
        #[trigger] j.properties[a].key(),
        #[trigger] j.properties[b].key(),
    ) by {
        assert(text_lt(i.properties[a].key(), i.properties[b].key()));
    }
    assert forall|a: int| 0 <= a < j.signals.len() implies (#[trigger] j.signals[a]).valid() by {
        assert(i.signals[a].valid());
    }
    assert forall|a: int| 0 <= a < j.properties.len() implies (
    #[trigger] j.properties[a]).valid() by {
        assert(i.properties[a].valid());
    }
}

/// Adding the interface that gives access to properties keeps an object path valid.
proof fn lemma_handler<M>(o: ObjectV<M>)
    requires
        o.valid(),
    ensures
        o.with_property_handler().valid(),
        named(o.with_property_handler().ifaces, "org.freedesktop.DBus.Properties"@),
{
    lemma_properties_iface::<M>(o.name);
    lemma_with_iface(o, properties_iface::<M>());
    lemma_put_find(o.ifaces, properties_iface::<M>());
}

/// Adding an interface to an object path gives an object path: its signals and properties
/// belong to it, and where there are properties, they can be reached. The interface is found
/// under its name; those of other names are as they were, but for the one that gives access to
/// properties, which can be new.
pub proof fn law_object_add<M>(o: ObjectV<M>, i: IfaceV<M>, other: Seq<char>)
    requires
        o.valid(),
        i.valid(),
    ensures
        o.add(i).valid(),
        find(o.add(i).ifaces, i.name) == Some(i.owned(o.name)),
        other != i.name && named(o.ifaces, other) ==> find(o.add(i).ifaces, other) == find(
            o.ifaces,
            other,
        ),
        other != i.name && other != "org.freedesktop.DBus.Properties"@ ==> find(
            o.add(i).ifaces,
            other,
        ) == find(o.ifaces, other),
{
    let j = i.owned(o.name);
    lemma_owned(i, o.name);
    let o2 = if i.properties.len() > 0 {
        o.with_property_handler()
    } else {
        o
    };
    lemma_handler(o);
    lemma_with_iface(o2, j);
    lemma_put_find(o2.ifaces, j);
    if other != i.name {
        lemma_put_find_other(o2.ifaces, j, other);
        if other != "org.freedesktop.DBus.Properties"@ {
            lemma_put_find_other(o.ifaces, properties_iface::<M>(), other);
        }
    }
}

/// Interfaces of different names can be added in any order.
pub proof fn law_object_adds_commute<M>(o: ObjectV<M>, i: IfaceV<M>, j: IfaceV<M>)
    requires
        o.valid(),
        i.valid(),
        j.valid(),
        i.name != j.name,
    ensures
        o.add(i).add(j) == o.add(j).add(i),
{
    let a = o.add(i).add(j);
    let b = o.add(j).add(i);
    let h = "org.freedesktop.DBus.Properties"@;
    law_object_add(o, i, j.name);
    law_object_add(o, j, i.name);
    law_object_add(o.add(i), j, i.name);
    law_object_add(o.add(j), i, j.name);
    assert forall|k: Seq<char>| #[trigger] find(a.ifaces, k) == find(b.ifaces, k) by {
        law_object_add(o, i, k);
        law_object_add(o, j, k);
        law_object_add(o.add(i), j, k);
        law_object_add(o.add(j), i, k);
        lemma_added_handler(o, i);
        lemma_added_handler(o, j);
        lemma_added_handler(o.add(i), j);
        lemma_added_handler(o.add(j), i);
    }
    lemma_same_finds(a.ifaces, b.ifaces);
}

/// What stands under the name of the interface that gives access to properties after another
/// interface was added.
proof fn lemma_added_handler<M>(o: ObjectV<M>, i: IfaceV<M>)
    requires
        o.valid(),
        i.valid(),
    ensures
        i.name != "org.freedesktop.DBus.Properties"@ ==> find(
            o.add(i).ifaces,
            "org.freedesktop.DBus.Properties"@,
        ) == if named(o.ifaces, "org.freedesktop.DBus.Properties"@) {
            find(o.ifaces, "org.freedesktop.DBus.Properties"@)
        } else if i.properties.len() > 0 {
            Some(properties_iface::<M>())
        } else {
            None
        },
        named(o.add(i).ifaces, "org.freedesktop.DBus.Properties"@) == (find(
            o.add(i).ifaces,
            "org.freedesktop.DBus.Properties"@,
        ) is Some),
{
    let h = "org.freedesktop.DBus.Properties"@;
    let j = i.owned(o.name);
    lemma_properties_iface::<M>(o.name);
    lemma_put_find(o.ifaces, properties_iface::<M>());
    lemma_handler(o);
    if i.name != h {
        if i.properties.len() > 0 {
            lemma_put_find_other(o.with_property_handler().ifaces, j, h);
        } else {
            lemma_put_find_other(o.ifaces, j, h);
        }
    }
}

/// An object path that gets its first properties answers calls that read and set them.
pub proof fn law_properties_are_served<M>(o: ObjectV<M>, i: IfaceV<M>, m: Msg)
    requires
        o.valid(),
        i.valid(),
        i.properties.len() > 0,
        i.name != "org.freedesktop.DBus.Properties"@,
        !named(o.ifaces, "org.freedesktop.DBus.Properties"@),
        m.interface == Some("org.freedesktop.DBus.Properties"@),
    ensures
        m.member == Some("Get"@) ==> o.add(i).method_for(m) == Ok::<Callback<M>, ErrV>(
            Callback::PropGet,
        ),
        m.member == Some("GetAll"@) ==> o.add(i).method_for(m) == Ok::<Callback<M>, ErrV>(
            Callback::PropGetAll,
        ),
        m.member == Some("Set"@) ==> o.add(i).method_for(m) == Ok::<Callback<M>, ErrV>(
            Callback::PropSet,
        ),
{
    lemma_added_handler(o, i);
    lemma_properties_iface::<M>(o.name);
}

/// Introspection support is added once: it makes an object path answer calls that describe
/// it, and adding it again changes nothing.
pub proof fn law_introspectable<M>(o: ObjectV<M>, m: Msg)
    requires
        o.valid(),
    ensures
        o.introspectable().valid(),
        o.introspectable().introspectable() == o.introspectable(),
        !named(o.ifaces, "org.freedesktop.DBus.Introspectable"@) && m.interface == Some(
            "org.freedesktop.DBus.Introspectable"@,
        ) && m.member == Some("Introspect"@) ==> o.introspectable().method_for(m) == Ok::<
            Callback<M>,
            ErrV,
        >(Callback::Introspect),
{
    lemma_introspectable_iface::<M>(o.name);
    law_object_add(o, introspectable_iface::<M>(), "org.freedesktop.DBus.Introspectable"@);
}

/// ObjectManager support is added once: it makes an object path answer calls that list the
/// objects below it, and adding it again changes nothing.
pub proof fn law_object_manager<M>(o: ObjectV<M>, m: Msg)
    requires
        o.valid(),
    ensures
        o.object_manager().valid(),
        o.object_manager().object_manager() == o.object_manager(),
        !named(o.ifaces, "org.freedesktop.DBus.ObjectManager"@) && m.interface == Some(
            "org.freedesktop.DBus.ObjectManager"@,
        ) && m.member == Some("GetManagedObjects"@) ==> o.object_manager().method_for(m) == Ok::<
            Callback<M>,
            ErrV,
        >(Callback::ManagedObjects),
{
    lemma_object_manager_iface::<M>(o.name);
    law_object_add(o, object_manager_iface::<M>(), "org.freedesktop.DBus.ObjectManager"@);
}

/// The object path that was added last under a path is the one that is found there; those at
/// other paths are as they were.
pub proof fn law_tree_add<M>(t: TreeV<M>, o: ObjectV<M>, other: Seq<char>)
    requires
        t.valid(),
        o.valid(),
    ensures
        t.add(o).valid(),
        find(t.add(o).paths, o.name) == Some(o),
        other != o.name ==> find(t.add(o).paths, other) == find(t.paths, other),
{
    lemma_put_sound(t.paths, o);
    lemma_put_find(t.paths, o);
    if other != o.name {
        lemma_put_find_other(t.paths, o, other);
    }
}

/// Object paths of different names can be added in any order.
pub proof fn law_tree_adds_commute<M>(t: TreeV<M>, o: ObjectV<M>, p: ObjectV<M>)
    requires
        t.valid(),
        o.name != p.name,
    ensures
        t.add(o).add(p) == t.add(p).add(o),
{
    lemma_put_commutes(t.paths, o, p);
}

/// What was added last to an interface under a name is what is found there, and everything
/// under another name is as it was. Things of different names can be added in any order: the
/// interface holds the same, and references refer to the same.
pub proof fn law_interface_adds<M>(
    i: IfaceV<M>,
    m: MethodV<M>,
    n: MethodV<M>,
    s: SignalV,
    r: SignalV,
    p: PropV<M>,
    q: PropV<M>,
    name: Seq<char>,
    turn: nat,
)
    requires
        i.valid(),
    ensures
        find(i.add_m(m).methods, m.name) == Some(m),
        find(i.add_s(s).signals, s.name) == Some(s),
        i.add_p(p).property(p.name) == Some(p),
        m.name != n.name ==> find(i.add_m(m).methods, n.name) == find(i.methods, n.name),
        s.name != r.name ==> find(i.add_s(s).signals, r.name) == find(i.signals, r.name),
        p.name != q.name ==> i.add_p(p).property(q.name) == i.property(q.name),
        m.name != n.name ==> i.add_m(m).add_m(n) == i.add_m(n).add_m(m),
        s.name != r.name ==> i.add_s(s).add_s(r).signals == i.add_s(r).add_s(s).signals
            && i.add_s(s).add_s(r).referred_s(name, turn) == i.add_s(r).add_s(s).referred_s(
            name,
            turn,
        ),
        p.name != q.name ==> i.add_p(p).add_p(q).properties == i.add_p(q).add_p(p).properties
            && i.add_p(p).add_p(q).referred_p(name, turn) == i.add_p(q).add_p(p).referred_p(
            name,
            turn,
        ),
        i.add_m(m).add_s(s) == i.add_s(s).add_m(m),
        i.add_m(m).add_p(p) == i.add_p(p).add_m(m),
        i.add_s(s).add_p(p) == i.add_p(p).add_s(s),
{
    lemma_put_find(i.methods, m);
    lemma_put_find(i.signals, s);
    lemma_put_find(i.properties, p);
    if m.name != n.name {
        lemma_put_find_other(i.methods, m, n.name);
        lemma_put_commutes(i.methods, m, n);
    }
    if s.name != r.name {
        lemma_put_find_other(i.signals, s, r.name);
        lemma_put_commutes(i.signals, s, r);
        lemma_referred_commutes(i.old_signals, i.signals, s, r, name, turn);
    }
    if p.name != q.name {
        lemma_put_find_other(i.properties, p, q.name);
        lemma_put_commutes(i.properties, p, q);
        lemma_referred_commutes(i.old_properties, i.properties, p, q, name, turn);
    }
}

/// References refer to the same, whichever of two things of different names is added first.
proof fn lemma_referred_commutes<K: Keyed>(
    old_s: Seq<K>,
    s: Seq<K>,
    v: K,
    w: K,
    name: Seq<char>,
    turn: nat,
)
    requires
        ordered(s),
        v.key() != w.key(),
    ensures
        referred(
            retired(retired(old_s, s, v), put(s, v), w),
            put(put(s, v), w),
            name,
            turn,
        ) == referred(
            retired(retired(old_s, s, w), put(s, w), v),
            put(put(s, w), v),
            name,
            turn,
        ),
{
    lemma_put_commutes(s, v, w);
    lemma_put_find_other(s, v, w.key());
    lemma_put_find_other(s, w, v.key());
    if let Some(a) = find(s, v.key()) {
        let i = lemma_found(s, v.key());
        lemma_nth_named_push(old_s, a, name, turn);
        if let Some(b) = find(s, w.key()) {
            lemma_nth_named_push(old_s.push(a), b, name, turn);
        }
    }
    if let Some(b) = find(s, w.key()) {
        let j = lemma_found(s, w.key());
        lemma_nth_named_push(old_s, b, name, turn);
        if let Some(a) = find(s, v.key()) {
            lemma_nth_named_push(old_s.push(b), a, name, turn);
        }
    }
    lemma_nth_named(old_s, name, turn);
}

/// A path is below another exactly where it is that path, a slash, and something more; it is
/// one element below it exactly where that something holds no slash.
pub proof fn law_below(parent: Seq<char>, k: Seq<char>, rest: Seq<char>)
    requires
        rest.len() > 0,
    ensures
        is_child(parent, parent.push('/') + rest, false),
        is_child(parent, parent.push('/') + rest, true) <==> !rest.contains('/'),
        is_child(parent, k, true) ==> is_child(parent, k, false),
        is_child(parent, k, false) ==> (below_path(parent, k) matches Some(r) && r.len() > 0 && k
            == parent.push('/') + r),
        !is_child(parent, parent, false),
{
    let child = parent.push('/') + rest;
    assert(child.take(parent.push('/').len() as int) =~= parent.push('/'));
    assert(child.skip(parent.push('/').len() as int) =~= rest);
    if is_child(parent, k, false) {
        assert(k =~= parent.push('/') + below_path(parent, k)->0);
    }
}

/// The children of an object path are those object paths of the tree that are below it, each
/// once, in the order of their names.
pub proof fn law_children<M>(t: TreeV<M>, parent: Seq<char>, direct_only: bool, o: ObjectV<M>)
    requires
        t.valid(),
    ensures
        t.children(parent, direct_only).contains(o) <==> t.paths.contains(o) && is_child(
            parent,
            o.name,
            direct_only,
        ),
        ordered(t.children(parent, direct_only)),
{
    let pred = |c: ObjectV<M>| is_child(parent, c.name, direct_only);
    lemma_filter_ordered(t.paths, pred);
    let cs = t.children(parent, direct_only);
    if t.paths.contains(o) && is_child(parent, o.name, direct_only) {
        let i = choose|i: int| 0 <= i < t.paths.len() && t.paths[i] == o;
        t.paths.lemma_filter_contains(pred, i);
    }
    if cs.contains(o) {
        let i = choose|i: int| 0 <= i < cs.len() && cs[i] == o;
        t.paths.lemma_filter_pred(pred, i);
        t.paths.lemma_filter_contains_rev(pred, o);
    }
}

/// An object path is not among its own children.
pub proof fn law_not_its_own_child<M>(t: TreeV<M>, o: ObjectV<M>, direct_only: bool)
    requires
        t.valid(),
    ensures
        !t.children(o.name, direct_only).contains(o),
{
    law_children(t, o.name, direct_only, o);
    law_below(o.name, o.name, seq!['a']);
}

/// The root has no children: no object path starts with two slashes.
pub proof fn law_root_has_no_children<M>(t: TreeV<M>, direct_only: bool)
    requires
        t.valid(),
    ensures
        t.children("/"@, direct_only).len() == 0,
{
    reveal_strlit("/");
    let cs = t.children("/"@, direct_only);
    if cs.len() > 0 {
        law_children(t, "/"@, direct_only, cs[0]);
        let k = cs[0].name;
        let i = choose|i: int| 0 <= i < t.paths.len() && t.paths[i] == cs[0];
        assert(t.paths[i].valid());
        law_below("/"@, k, seq!['a']);
        assert(k[0] == '/' && k[1] == '/');
        assert(crate::names::path_at(k, 1));
    }
}

/// A filter keeps the order.
proof fn lemma_filter_ordered<K: Keyed>(s: Seq<K>, p: spec_fn(K) -> bool)
    requires
        ordered(s),
    ensures
        ordered(s.filter(p)),
    decreases s.len(),
{
    reveal(ordered);
    reveal(Seq::filter);
    if s.len() > 0 {
        let d = s.drop_last();
        assert forall|a: int, b: int| 0 <= a < b < d.len() implies text_lt(
            #[trigger] d[a].key(),
            #[trigger] d[b].key(),
        ) by {
            assert(d[a] == s[a] && d[b] == s[b]);
        }
        lemma_filter_ordered(d, p);
        let f = d.filter(p);
        assert forall|i: int| 0 <= i < f.len() implies text_lt(
            #[trigger] f[i].key(),
            s.last().key(),
        ) by {
            assert(f.contains(f[i]));
            d.lemma_filter_contains_rev(p, f[i]);
            let j = choose|j: int| 0 <= j < d.len() && d[j] == f[i];
            assert(s[j] == f[i]);
            assert(text_lt(s[j].key(), s[s.len() - 1].key()));
        }
    }
}

/// A call to read all properties of an interface gives each property with its value, in the
/// order of their names, where all can be read; otherwise it is refused as the first that
/// cannot be read refuses it.
pub proof fn law_read_all<M>(props: Seq<PropV<M>>)
    ensures
        match read_all(props) {
            Ok(v) => {
                &&& v == props.map_values(|p: PropV<M>| prop_entry(p))
                &&& forall|k: int|
                    0 <= k < props.len() ==> (#[trigger] props[k]).read() == Ok::<Item, ErrV>(
                        props[k].value,
                    )
            },
            Err(e) => exists|k: int|
                {
                    &&& 0 <= k < props.len()
                    &&& (#[trigger] props[k]).read() == Err::<Item, ErrV>(e)
                    &&& forall|j: int| 0 <= j < k ==> (#[trigger] props[j]).read() is Ok
                },
        },
    decreases props.len(),
{
    if props.len() == 0 {
        assert(read_all(props) == Ok::<Seq<Item>, ErrV>(Seq::empty()));
        assert(props.map_values(|p: PropV<M>| prop_entry(p)) =~= Seq::<Item>::empty());
    } else {
        let d = props.drop_last();
        law_read_all(d);
        let n = props.len() - 1;
        assert(props[n] == props.last());
        match read_all(d) {
            Ok(v) => {
                assert forall|j: int| 0 <= j < n implies (#[trigger] props[j]).read() is Ok by {
                    assert(props[j] == d[j]);
                }
                match props.last().read() {
                    Ok(_) => {
                        assert(v.push(prop_entry(props.last())) =~= props.map_values(
                            |p: PropV<M>| prop_entry(p),
                        ));
                    },
                    Err(e) => {
                        assert(props[n].read() == Err::<Item, ErrV>(e));
                    },
                }
            },
            Err(e) => {
                let k = choose|k: int|
                    {
                        &&& 0 <= k < d.len()
                        &&& (#[trigger] d[k]).read() == Err::<Item, ErrV>(e)
                        &&& forall|j: int| 0 <= j < k ==> (#[trigger] d[j]).read() is Ok
                    };
                assert(props[k] == d[k]);
                assert forall|j: int| 0 <= j < k implies (#[trigger] props[j]).read() is Ok by {
                    assert(props[j] == d[j]);
                }
            },
        }
    }
}

/// A call to read all properties of an interface gives of each what a call to read that one
/// gives.
pub proof fn law_get_all_agrees_with_get<M>(o: ObjectV<M>, e: EntryV, all: Msg, get: Msg)
    requires
        o.valid(),
        o.property(e) is Some,
        str_arg(all.items, 0) == Ok::<Seq<char>, ErrV>(e.iface),
        str_arg(get.items, 0) == Ok::<Seq<char>, ErrV>(e.iface),
        str_arg(get.items, 1) == Ok::<Seq<char>, ErrV>(e.name),
        o.get_all_answer(all) is Ok,
    ensures
        exists|v: Seq<Item>, k: int, x: Item|
            {
                &&& o.get_all_answer(all) == Ok::<Seq<Msg>, ErrV>(
                    seq![all.method_return().append(Item::Array(v, "{sv}"@))],
                )
                &&& 0 <= k < v.len()
                &&& #[trigger] v[k] == Item::DictEntry(
                    Box::new(Item::Str(e.name)),
                    Box::new(x),
                )
                &&& o.get_answer(get) == Ok::<Seq<Msg>, ErrV>(
                    seq![#[trigger] get.method_return().append(x)],
                )
            },
{
    let a = lemma_found(o.ifaces, e.iface);
    let i = o.ifaces[a];
    let k = lemma_found(i.properties, e.name);
    let p = i.properties[k];
    law_read_all(i.properties);
    let v = read_all(i.properties)->Ok_0;
    let x = Item::Variant(Box::new(p.value));
    assert(v[k] == prop_entry(p));
    assert(v[k] == Item::DictEntry(Box::new(Item::Str(e.name)), Box::new(x)));
    assert(o.prop_arg(get.items) == Ok::<(IfaceV<M>, PropV<M>), ErrV>((i, p)));
    assert(o.get_answer(get) == Ok::<Seq<Msg>, ErrV>(seq![get.method_return().append(x)]));
}

/// A change of a property in a tree is announced as the property says: with the new value, or
/// as no longer valid, by one signal of the object path; or not at all.
pub proof fn law_changes_are_announced<M>(t: TreeV<M>, path: Seq<char>, e: EntryV, v: Item)
    requires
        t.valid(),
        t.property(path, e) is Some,
    ensures
        ({
            let p = t.property(path, e)->0;
            let signal = Msg::signal(
                path,
                "org.freedesktop.DBus.Properties"@,
                "PropertiesChanged"@,
            );
            p.announcement(v) == match p.emits {
                EmitsChangedSignal::True => seq![
                    Msg {
                        items: seq![
                            Item::Str(e.iface),
                            Item::Array(seq![prop_entry(p.with_value(v))], "{sv}"@),
                        ],
                        ..signal
                    },
                ],
                EmitsChangedSignal::Invalidates => seq![
                    Msg {
                        items: seq![
                            Item::Str(e.iface),
                            Item::Array(Seq::empty(), "{sv}"@),
                            Item::Array(seq![Item::Str(e.name)], "s"@),
                        ],
                        ..signal
                    },
                ],
                EmitsChangedSignal::Const => Seq::empty(),
                EmitsChangedSignal::False => Seq::empty(),
            }
        }),
{
    let (o, i, p) = lemma_property(t, path, e);
    let none = Seq::<Item>::empty();
    let full = Item::Array(seq![prop_entry(p.with_value(v))], "{sv}"@);
    let empty = Item::Array(none, "{sv}"@);
    let names = Item::Array(seq![Item::Str(e.name)], "s"@);
    assert(none.push(Item::Str(e.iface)).push(full) =~= seq![Item::Str(e.iface), full]);
    assert(none.push(Item::Str(e.iface)).push(empty).push(names) =~= seq![
        Item::Str(e.iface),
        empty,
        names,
    ]);
}

/// What is found by its name in an interface is found there, too, once the interface belongs
/// to an object path, and belongs to it.
proof fn lemma_owned_finds<M>(i: IfaceV<M>, path: Seq<char>, name: Seq<char>)
    requires
        i.valid(),
    ensures
        i.property(name) matches Some(p) ==> i.owned(path).property(name) == Some(
            p.owned(OwnerV { path, iface: i.name }),
        ),
        find(i.signals, name) matches Some(s) ==> find(i.owned(path).signals, name) == Some(
            s.owned(OwnerV { path, iface: i.name }),
        ),
{
    lemma_owned(i, path);
    let j = i.owned(path);
    if i.property(name) is Some {
        let k = lemma_found(i.properties, name);
        lemma_find_at(j.properties, k);
    }
    if find(i.signals, name) is Some {
        let k = lemma_found(i.signals, name);
        lemma_find_at(j.signals, k);
    }
}

/// A reference goes on referring to what it refers to, whatever is added: where that gives way
/// to another of its name, it stays what it was.
proof fn lemma_referred_stays<K: Keyed>(
    old_s: Seq<K>,
    s: Seq<K>,
    v: K,
    name: Seq<char>,
    turn: nat,
)
    requires
        ordered(s),
        referred(old_s, s, name, turn) is Some,
    ensures
        referred(retired(old_s, s, v), put(s, v), name, turn) == referred(old_s, s, name, turn),
{
    lemma_nth_named(old_s, name, turn);
    if let Some(a) = find(s, v.key()) {
        let i = lemma_found(s, v.key());
        lemma_nth_named_push(old_s, a, name, turn);
    }
    if name != v.key() {
        lemma_put_find_other(s, v, name);
    }
}

/// What is added can be referred to by how many of its name were replaced before.
proof fn lemma_referred_new<K: Keyed>(old_s: Seq<K>, s: Seq<K>, v: K)
    requires
        ordered(s),
    ensures
        referred(
            retired(old_s, s, v),
            put(s, v),
            v.key(),
            count_named(retired(old_s, s, v), v.key()),
        ) == Some(v),
{
    let old2 = retired(old_s, s, v);
    lemma_nth_named(old2, v.key(), count_named(old2, v.key()));
    lemma_put_find(s, v);
}

/// A reference to a property or a signal of an interface keeps referring to it, whatever is
/// added to the interface later, also under the same name.
pub proof fn law_references_stay<M>(
    i: IfaceV<M>,
    p: PropV<M>,
    s: SignalV,
    name: Seq<char>,
    turn: nat,
)
    requires
        i.valid(),
    ensures
        i.referred_p(name, turn) is Some ==> i.add_p(p).referred_p(name, turn) == i.referred_p(
            name,
            turn,
        ),
        i.referred_s(name, turn) is Some ==> i.add_s(s).referred_s(name, turn) == i.referred_s(
            name,
            turn,
        ),
{
    if i.referred_p(name, turn) is Some {
        lemma_referred_stays(i.old_properties, i.properties, p, name, turn);
    }
    if i.referred_s(name, turn) is Some {
        lemma_referred_stays(i.old_signals, i.signals, s, name, turn);
    }
}

/// The reference that adding a property to an interface gives refers to that property once
/// the interface was added to an object path, and that to a tree.
pub proof fn law_property_references<M>(t: TreeV<M>, o: ObjectV<M>, i: IfaceV<M>, p: PropV<M>)
    requires
        t.valid(),
        o.valid(),
        i.valid(),
        p.valid(),
    ensures
        ({
            let e = RefV {
                iface: i.name,
                name: p.name,
                turn: count_named(i.add_p(p).old_properties, p.name),
            };
            &&& i.add_p(p).referred_p(e.name, e.turn) == Some(p)
            &&& t.add(o.add(i.add_p(p))).referred_p(o.name, e) == Some(
                p.owned(OwnerV { path: o.name, iface: i.name }),
            )
        }),
{
    let j = i.add_p(p);
    lemma_put_sound(i.properties, p);
    lemma_put_find(i.properties, p);
    lemma_referred_new(i.old_properties, i.properties, p);
    lemma_nth_named(j.old_properties, p.name, count_named(j.old_properties, p.name));
    lemma_owned_finds(j, o.name, p.name);
    law_object_add(o, j, j.name);
    law_tree_add(t, o.add(j), o.name);
}

/// The reference that adding a signal to an interface gives refers to that signal once the
/// interface was added to an object path, and that to a tree.
pub proof fn law_signal_references<M>(t: TreeV<M>, o: ObjectV<M>, i: IfaceV<M>, s: SignalV)
    requires
        t.valid(),
        o.valid(),
        i.valid(),
        s.valid(),
    ensures
        ({
            let e = RefV {
                iface: i.name,
                name: s.name,
                turn: count_named(i.add_s(s).old_signals, s.name),
            };
            &&& i.add_s(s).referred_s(e.name, e.turn) == Some(s)
            &&& t.add(o.add(i.add_s(s))).referred_s(o.name, e) == Some(
                s.owned(OwnerV { path: o.name, iface: i.name }),
            )
        }),
{
    let j = i.add_s(s);
    lemma_put_sound(i.signals, s);
    lemma_put_find(i.signals, s);
    lemma_referred_new(i.old_signals, i.signals, s);
    lemma_nth_named(j.old_signals, s.name, count_named(j.old_signals, s.name));
    lemma_owned_finds(j, o.name, s.name);
    law_object_add(o, j, j.name);
    law_tree_add(t, o.add(j), o.name);
}

/// A property that gave way to another of its name before its interface was added to an object
/// path belongs to none: its reference refers to it as it was.
pub proof fn law_replaced_references<M>(
    t: TreeV<M>,
    o: ObjectV<M>,
    i: IfaceV<M>,
    p: PropV<M>,
    q: PropV<M>,
)
    requires
        t.valid(),
        o.valid(),
        i.valid(),
        p.valid(),
        q.valid(),
        p.name == q.name,
    ensures
        t.add(o.add(i.add_p(p).add_p(q))).referred_p(
            o.name,
            RefV {
                iface: i.name,
                name: p.name,
                turn: count_named(i.add_p(p).old_properties, p.name),
            },
        ) == Some(p),
{
    let j = i.add_p(p);
    let k = j.add_p(q);
    let turn = count_named(j.old_properties, p.name);
    lemma_put_sound(i.properties, p);
    lemma_put_sound(j.properties, q);
    lemma_put_find(i.properties, p);
    lemma_nth_named(j.old_properties, p.name, turn);
    lemma_nth_named_push(j.old_properties, p, p.name, turn);
    assert(k.old_properties == j.old_properties.push(p));
    law_object_add(o, k, k.name);
    law_tree_add(t, o.add(k), o.name);
}

/// A reference to what was not replaced goes by the names alone: what it refers to, and what
/// setting it does, is what the names say. In a tree such a property can be set unless it is
/// constant.
pub proof fn law_live_references<M>(t: TreeV<M>, path: Seq<char>, e: RefV, v: Item)
    requires
        t.valid(),
        t.property(path, e.entry()) is Some,
        e.turn == count_named(
            find(find(t.paths, path)->0.ifaces, e.iface)->0.old_properties,
            e.name,
        ),
    ensures
        t.referred_p(path, e) == t.property(path, e.entry()),
        t.with_referred_p(path, e, t.property(path, e.entry())->0.with_value(v))
            == t.with_property(path, e.iface, t.property(path, e.entry())->0.with_value(v)),
        t.property(path, e.entry())->0.settable() <==> t.property(path, e.entry())->0.emits
            != EmitsChangedSignal::Const,
{
    let (o, i, p) = lemma_property(t, path, e.entry());
    lemma_nth_named(i.old_properties, e.name, e.turn);
}

/// What a list of server steps passes through.
pub open spec fn passed<X>(steps: Seq<ServerStep<X>>) -> Seq<ConnectionItem<X>>
    decreases steps.len(),
{
    if steps.len() == 0 {
        Seq::empty()
    } else {
        match steps.last() {
            ServerStep::Pass(Some(n)) => passed(steps.drop_last()).push(n),
            _ => passed(steps.drop_last()),
        }
    }
}

/// Trees of the same shape take the same items.
proof fn lemma_takes<M, X>(t: TreeV<M>, u: TreeV<M>, n: Option<ConnectionItem<X>>)
    requires
        t.same_shape(u),
    ensures
        takes(t, n) == takes(u, n),
{
    assert(t.shape().paths.len() == t.paths.len());
    assert(u.shape().paths.len() == u.paths.len());
    if let Some(ConnectionItem::MethodCall(m)) = n {
        if let Some(k) = m@.path {
            lemma_named_shape(t, u, k);
            lemma_named_shape(u, t, k);
        }
    }
}

proof fn lemma_named_shape<M>(t: TreeV<M>, u: TreeV<M>, k: Seq<char>)
    requires
        t.same_shape(u),
    ensures
        named(t.paths, k) ==> named(u.paths, k),
{
    if named(t.paths, k) {
        let i = choose|i: int| named_at(t.paths, k, i);
        assert(t.shape().paths[i].name == t.paths[i].name);
        assert(t.shape().paths.len() == u.shape().paths.len());
        assert(u.shape().paths[i].name == u.paths[i].name);
        assert(named_at(u.paths, k, i));
    }
}

/// Of a whole run of items, a server passes through exactly those that the tree does not take,
/// unchanged, each once, in their order. `trees` are the tree before each item and after the
/// last, `steps` what is done about each item; callbacks may set values in between, but they
/// do not change what is taken.
pub proof fn law_served_run<M, X>(
    items: Seq<ConnectionItem<X>>,
    steps: Seq<ServerStep<X>>,
    trees: Seq<TreeV<M>>,
)
    requires
        steps.len() == items.len(),
        trees.len() == items.len() + 1,
        forall|k: int|
            0 <= k < items.len() ==> server_step(
                #[trigger] trees[k],
                Some(items[k]),
                steps[k],
                trees[k + 1],
            ),
    ensures
        passed(steps) == items.filter(|n: ConnectionItem<X>| !takes(trees[0], Some(n))),
        trees.last().same_shape(trees[0]),
    decreases items.len(),
{
    reveal(Seq::filter);
    if items.len() > 0 {
        let n = items.len() - 1;
        let ts = trees.drop_last();
        assert forall|k: int| 0 <= k < items.drop_last().len() implies server_step(
            #[trigger] ts[k],
            Some(items.drop_last()[k]),
            steps.drop_last()[k],
            ts[k + 1],
        ) by {
            assert(ts[k] == trees[k]);
        }
        law_served_run(items.drop_last(), steps.drop_last(), ts);
        assert(ts.last() == trees[n]);
        assert(server_step(trees[n], Some(items[n]), steps[n], trees[n + 1]));
        lemma_takes(trees[n], trees[0], Some(items[n]));
    } else {
        assert(items.filter(|n: ConnectionItem<X>| !takes(trees[0], Some(n))) =~= Seq::empty());
    }
}

/// The end of the items is passed on, and nothing else is taken for it.
pub proof fn law_served_end<M, X>(
    t: TreeV<M>,
    n: Option<ConnectionItem<X>>,
    r: ServerStep<X>,
    after: TreeV<M>,
)
    requires
        server_step(t, n, r, after),
    ensures
        r == ServerStep::<X>::Pass(None) <==> n is None,
{
}

/// All that a registration comes to, where `fails` says of which paths registering fails, and
/// `failed` whether it failed of the last one.
pub open spec fn registration_run(
    s: RegistrationV,
    failed: bool,
    fails: spec_fn(Seq<char>) -> bool,
) -> Seq<RegisteringV>
    decreases
            if s.undone is Some {
                s.done - s.undone->0
            } else {
                2 * s.names.len() + 2 - s.done
            },
    when s.valid()
{
    let (a, after) = s.step(failed);
    match a {
        RegisteringV::Register(n) => seq![a] + registration_run(after, fails(n), fails),
        RegisteringV::Unregister(_) => seq![a] + registration_run(after, false, fails),
        RegisteringV::Finished(_) => seq![a],
    }
}

proof fn lemma_taken_back(s: RegistrationV, fails: spec_fn(Seq<char>) -> bool, failed: bool)
    requires
        s.valid(),
        s.done > 0,
        s.undone matches Some(k) && k < s.done,
    ensures
        registration_run(s, failed, fails) == s.names.subrange(s.undone->0, s.done - 1).map_values(
            |n: Seq<char>| RegisteringV::Unregister(n),
        ).push(RegisteringV::Finished(false)),
    decreases s.done - s.undone->0,
{
    let k = s.undone->0;
    let f = |n: Seq<char>| RegisteringV::Unregister(n);
    let all = s.names.subrange(k, s.done - 1).map_values(f).push(RegisteringV::Finished(false));
    if k + 1 < s.done {
        let after = RegistrationV { undone: Some(k + 1), ..s };
        lemma_taken_back(after, fails, false);
        let rest = s.names.subrange(k + 1, s.done - 1).map_values(f).push(
            RegisteringV::Finished(false),
        );
        assert(all =~= seq![RegisteringV::Unregister(s.names[k])] + rest);
    } else {
        assert(all =~= seq![RegisteringV::Finished(false)]);
    }
}

proof fn lemma_registered(s: RegistrationV, k: int, fails: spec_fn(Seq<char>) -> bool)
    requires
        s.valid(),
        s.registers,
        s.undone is None,
        s.done <= k < s.names.len(),
        fails(s.names[k]),
        forall|j: int| s.done <= j < k ==> !fails(#[trigger] s.names[j]),
    ensures
        registration_run(s, false, fails) == s.names.subrange(s.done, k + 1).map_values(
            |n: Seq<char>| RegisteringV::Register(n),
        ) + s.names.take(k).map_values(|n: Seq<char>| RegisteringV::Unregister(n)).push(
            RegisteringV::Finished(false),
        ),
    decreases k - s.done,
{
    let f = |n: Seq<char>| RegisteringV::Register(n);
    let g = |n: Seq<char>| RegisteringV::Unregister(n);
    let back = s.names.take(k).map_values(g).push(RegisteringV::Finished(false));
    let after = RegistrationV { done: s.done + 1, ..s };
    let first = seq![RegisteringV::Register(s.names[s.done])];
    if s.done < k {
        lemma_registered(after, k, fails);
        assert(s.names.subrange(s.done, k + 1).map_values(f) =~= first + s.names.subrange(
            s.done + 1,
            k + 1,
        ).map_values(f));
        assert(!fails(s.names[s.done]));
        assert(registration_run(s, false, fails) =~= s.names.subrange(s.done, k + 1).map_values(f)
            + back);
    } else {
        assert(s.names.subrange(k, k + 1).map_values(f) =~= first);
        lemma_first_taken_back(after, fails);
        assert(s.names.subrange(0, k) =~= s.names.take(k));
    }
}

/// A failure is followed by taking back all that was registered before.
proof fn lemma_first_taken_back(s: RegistrationV, fails: spec_fn(Seq<char>) -> bool)
    requires
        s.valid(),
        s.registers,
        s.undone is None,
        s.done > 0,
    ensures
        registration_run(s, true, fails) == s.names.subrange(0, s.done - 1).map_values(
            |n: Seq<char>| RegisteringV::Unregister(n),
        ).push(RegisteringV::Finished(false)),
{
    let zero = RegistrationV { undone: Some(0), ..s };
    lemma_taken_back(zero, fails, true);
    assert(s.step(true) == zero.step(true));
}

proof fn lemma_all_done(s: RegistrationV, fails: spec_fn(Seq<char>) -> bool)
    requires
        s.valid(),
        s.undone is None,
        s.registers ==> forall|j: int| s.done <= j < s.names.len() ==> !fails(
            #[trigger] s.names[j],
        ),
    ensures
        registration_run(s, false, fails) == s.names.skip(s.done).map_values(
            |n: Seq<char>|
                if s.registers {
                    RegisteringV::Register(n)
                } else {
                    RegisteringV::Unregister(n)
                },
        ).push(RegisteringV::Finished(true)),
    decreases s.names.len() - s.done,
{
    let f = |n: Seq<char>|
        if s.registers {
            RegisteringV::Register(n)
        } else {
            RegisteringV::Unregister(n)
        };
    let all = s.names.skip(s.done).map_values(f).push(RegisteringV::Finished(true));
    if s.done < s.names.len() {
        let after = RegistrationV { done: s.done + 1, ..s };
        lemma_all_done(after, fails);
        let rest = s.names.skip(s.done + 1).map_values(f).push(RegisteringV::Finished(true));
        if s.registers {
            assert(!fails(s.names[s.done]));
        }
        assert(all =~= seq![f(s.names[s.done])] + rest);
    } else {
        assert(all =~= seq![RegisteringV::Finished(true)]);
    }
}

/// Where registering a path fails, no path after it is tried, and exactly those before it,
/// which were registered, are unregistered again.
pub proof fn law_failed_registration(
    names: Seq<Seq<char>>,
    k: int,
    fails: spec_fn(Seq<char>) -> bool,
)
    requires
        0 <= k < names.len(),
        fails(names[k]),
        forall|j: int| 0 <= j < k ==> !fails(#[trigger] names[j]),
    ensures
        registration_run(RegistrationV::start(names, true), false, fails) == names.take(
            k + 1,
        ).map_values(|n: Seq<char>| RegisteringV::Register(n)) + names.take(k).map_values(
            |n: Seq<char>| RegisteringV::Unregister(n),
        ).push(RegisteringV::Finished(false)),
{
    lemma_registered(RegistrationV::start(names, true), k, fails);
    assert(names.subrange(0, k + 1) =~= names.take(k + 1));
}

/// Where nothing fails, all paths are registered, or unregistered, in their order.
pub proof fn law_full_registration(
    names: Seq<Seq<char>>,
    registers: bool,
    fails: spec_fn(Seq<char>) -> bool,
)
    requires
        registers ==> forall|j: int| 0 <= j < names.len() ==> !fails(#[trigger] names[j]),
    ensures
        registration_run(RegistrationV::start(names, registers), false, fails)
            == names.map_values(
            |n: Seq<char>|
                if registers {
                    RegisteringV::Register(n)
                } else {
                    RegisteringV::Unregister(n)
                },
        ).push(RegisteringV::Finished(true)),
{
    let s = RegistrationV::start(names, registers);
    lemma_all_done(s, fails);
    assert(names.skip(0) =~= names);
}

/// Once registering a path has failed, no path is registered any more, whatever is said of
/// later steps.
pub proof fn law_failure_is_final(s: RegistrationV, failed: bool)
    requires
        s.undone is Some,
    ensures
        s.step(failed).0 !is Register,
        s.step(failed).1.undone is Some,
{
}

/// The texts of two lists, one behind the other, are the text of both.
proof fn lemma_joined_add(a: Seq<Seq<char>>, b: Seq<Seq<char>>)
    ensures
        joined(a + b) == joined(a) + joined(b),
    decreases b.len(),
{
    if b.len() == 0 {
        assert(a + b =~= a);
        assert(joined(a) + joined(b) =~= joined(a));
    } else {
        lemma_joined_add(a, b.drop_last());
        assert((a + b).drop_last() =~= a + b.drop_last());
        assert(joined(a + b) =~= joined(a) + joined(b));
    }
}

/// The introspection text of a list of named values that is cut in two is the text of the
/// first part and the text of the second. That of an empty list is empty.
pub proof fn law_introspection_splits<K: Keyed>(
    a: Seq<K>,
    b: Seq<K>,
    tag: Seq<char>,
    indent: Seq<char>,
    outs_a: Seq<(Seq<char>, Seq<char>)>,
    outs_b: Seq<(Seq<char>, Seq<char>)>,
)
    requires
        outs_a.len() == a.len(),
        outs_b.len() == b.len(),
    ensures
        map_xml(a + b, tag, indent, outs_a + outs_b) == map_xml(a, tag, indent, outs_a) + map_xml(
            b,
            tag,
            indent,
            outs_b,
        ),
        map_xml(Seq::<K>::empty(), tag, indent, Seq::empty()) == Seq::<char>::empty(),
{
    assert(element_texts(a + b, tag, indent, outs_a + outs_b) =~= element_texts(
        a,
        tag,
        indent,
        outs_a,
    ) + element_texts(b, tag, indent, outs_b));
    lemma_joined_add(
        element_texts(a, tag, indent, outs_a),
        element_texts(b, tag, indent, outs_b),
    );
}

/// The interface that gives access to properties is added once: where there is one already,
/// nothing changes.
pub proof fn law_property_handler_once<M>(o: ObjectV<M>)
    requires
        o.valid(),
    ensures
        named(o.ifaces, "org.freedesktop.DBus.Properties"@) ==> o.with_property_handler() == o,
        o.with_property_handler().with_property_handler() == o.with_property_handler(),
{
    lemma_handler(o);
}

} // verus!
