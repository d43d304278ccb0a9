//! What messages, methods, signals, properties, interfaces and object paths are made of: said
//! field by field.
use std::sync::Arc;
use vstd::prelude::*;
use crate::annotation::{AnnV, annotated, marked_deprecated};
use crate::answers::{calls, is_error, is_reply, is_signal, is_value_entry, law_call_reaches_callback, with_value_at};
use crate::argument::ArgV;
use crate::dispatch::{DispatchV, StepV};
use crate::error::{ErrV, MethodResult, result_view};
use crate::interface::{IfaceV, RefV, referred, retired};
use crate::item::{Item, nul_free, type_sig};
use crate::laws::{law_object_add, law_tree_add};
use crate::message::{Message, MessageType, Msg};
use crate::method::{Callback, MethodV};
use crate::object::{ObjectV, first_unreadable, introspectable_iface, object_manager_iface, properties_iface};
use crate::property::{Access, EmitsChangedSignal, PropV};
use crate::server::{ConnectionItem, RegisteringV, RegistrationV, path_names, takes};
use crate::signal::{OwnerV, SignalV};
use crate::sorted::{Keyed, count_named, find, lemma_find_at, lemma_found, lemma_nth_named, lemma_put_find, lemma_put_find_other, lemma_put_ordered, lemma_put_sound, lemma_put_update, named, named_at, nth_named, ordered, put, sound};
use crate::tree::TreeV;
use crate::values::law_all_nul_free;

verus! {

/// A signal says which signal of which interface of which object path it is, and nothing else.
pub proof fn law_signal_message(path: Seq<char>, iface: Seq<char>, member: Seq<char>)
    ensures
        is_signal(Msg::signal(path, iface, member), path, iface, member, Seq::empty()),
{
}

/// A reply and an error go to the sender of the call and say which call they answer.
pub proof fn law_reply_messages(m: Msg, name: Seq<char>, text: Seq<char>)
    ensures
        is_reply(m.method_return(), m, Seq::empty()),
        is_error(m.error(name, text), m, name, text),
        m.method_return().answers(m),
        m.error(name, text).answers(m),
{
}

/// A message answers a call exactly where it is a reply or an error, carries the serial of the
/// call, and goes to its sender.
pub proof fn law_answers(r: Msg, m: Msg)
    ensures
        r.answers(m) <==> {
            &&& r.msg_type == MessageType::MethodReturn || r.msg_type == MessageType::Error
            &&& r.reply_serial == m.serial
            &&& r.destination == m.sender
        },
{
}

/// A new method call says what is called, and where; it has no sender and no serial yet.
pub proof fn law_call_message(
    destination: Seq<char>,
    path: Seq<char>,
    iface: Seq<char>,
    member: Seq<char>,
)
    ensures
        ({
            let m = Msg::method_call(destination, path, iface, member);
            &&& calls(m, path, iface, member)
            &&& m.destination == Some(destination)
            &&& m.sender is None
            &&& m.error_name is None
            &&& m.serial == 0
            &&& m.reply_serial == 0
            &&& m.items.len() == 0
        }),
{
}

/// An argument that is appended comes last; all else of the message stays as it is.
pub proof fn law_append(m: Msg, i: Item)
    ensures
        ({
            let r = m.append(i);
            &&& r.items.len() == m.items.len() + 1
            &&& r.items.last() == i
            &&& forall|k: int| 0 <= k < m.items.len() ==> r.items[k] == #[trigger] m.items[k]
            &&& r.msg_type == m.msg_type
            &&& r.path == m.path
            &&& r.interface == m.interface
            &&& r.member == m.member
            &&& r.error_name == m.error_name
            &&& r.destination == m.destination
            &&& r.sender == m.sender
            &&& r.serial == m.serial
            &&& r.reply_serial == m.reply_serial
        }),
{
}

/// A message says of itself what its fields hold.
pub proof fn law_message_fields(m: Message)
    ensures
        m@.msg_type == m.msg_type,
        m.path matches Some(x) ==> m@.path == Some(x@),
        m.path is None ==> m@.path is None,
        m.interface matches Some(x) ==> m@.interface == Some(x@),
        m.interface is None ==> m@.interface is None,
        m.member matches Some(x) ==> m@.member == Some(x@),
        m.member is None ==> m@.member is None,
        m.error_name matches Some(x) ==> m@.error_name == Some(x@),
        m.error_name is None ==> m@.error_name is None,
        m.destination matches Some(x) ==> m@.destination == Some(x@),
        m.destination is None ==> m@.destination is None,
        m.sender matches Some(x) ==> m@.sender == Some(x@),
        m.sender is None ==> m@.sender is None,
        m@.serial == m.serial,
        m@.reply_serial == m.reply_serial,
        m@.items.len() == m.items@.len(),
        forall|k: int| 0 <= k < m.items@.len() ==> #[trigger] m@.items[k] == m.items@[k]@,
{
    crate::item::lemma_items_view(m.items@);
}

/// Results say of themselves what they hold: all messages, in their order, or the error.
pub proof fn law_results(r: MethodResult)
    ensures
        r matches Ok(v) ==> (result_view(r) matches Ok(w) && w.len() == v@.len() && forall|k: int|
            0 <= k < w.len() ==> #[trigger] w[k] == v@[k]@),
        r matches Err(e) ==> result_view(r) == Err::<Seq<Msg>, ErrV>(e@),
{
}

/// A message is free of NULs where all its arguments are.
pub proof fn law_message_nul_free(m: Msg)
    ensures
        m.nul_free() <==> forall|k: int| 0 <= k < m.items.len() ==> nul_free(#[trigger] m.items[k]),
{
    law_all_nul_free(m.items);
}

/// What is made new has its name and nothing else; a property can be read, and says when it
/// changes, unless more is asked for.
pub proof fn law_new_parts<M>(name: Seq<char>, value: Item, cb: Callback<M>)
    ensures
        MethodV::plain(name, cb).name == name,
        MethodV::plain(name, cb).cb == cb,
        MethodV::plain(name, cb).i_args.len() == 0,
        MethodV::plain(name, cb).o_args.len() == 0,
        MethodV::plain(name, cb).anns.len() == 0,
        SignalV::plain(name).name == name,
        SignalV::plain(name).arguments.len() == 0,
        SignalV::plain(name).owner is None,
        SignalV::plain(name).anns.len() == 0,
        PropV::<M>::plain(name, value).name == name,
        PropV::<M>::plain(name, value).value == value,
        PropV::<M>::plain(name, value).emits == EmitsChangedSignal::True,
        PropV::<M>::plain(name, value).rw == Access::Read,
        PropV::<M>::plain(name, value).set_cb is None,
        PropV::<M>::plain(name, value).owner is None,
        PropV::<M>::plain(name, value).anns.len() == 0,
        IfaceV::<M>::plain(name).name == name,
        IfaceV::<M>::plain(name).methods.len() == 0,
        IfaceV::<M>::plain(name).signals.len() == 0,
        IfaceV::<M>::plain(name).properties.len() == 0,
        IfaceV::<M>::plain(name).anns.len() == 0,
        IfaceV::<M>::plain(name).old_signals.len() == 0,
        IfaceV::<M>::plain(name).old_properties.len() == 0,
        ObjectV::<M>::plain(name).name == name,
        ObjectV::<M>::plain(name).ifaces.len() == 0,
{
}

/// What the remote side reads of a property is its value, unless the property is write only.
pub proof fn law_read<M>(p: PropV<M>)
    ensures
        p.rw != Access::Write ==> p.read() == Ok::<Item, ErrV>(p.value),
        p.rw == Access::Write ==> (p.read() matches Err(e) && e.name
            == "org.freedesktop.DBus.Error.Failed"@ && e.text == "Property "@ + p.name
            + " is write only"@),
{
}

/// A value is accepted from the remote side exactly where it stands in a variant in the third
/// place, the remote side may write the property, and the value has the type of the one that it
/// takes the place of.
pub proof fn law_accepted<M>(p: PropV<M>, items: Seq<Item>, v: Item)
    ensures
        p.accepted(items) == Ok::<Item, ErrV>(v) <==> {
            &&& items.len() >= 3
            &&& items[2] == Item::Variant(Box::new(v))
            &&& p.rw == Access::ReadWrite || p.rw == Access::Write
            &&& type_sig(v) == type_sig(p.value)
        },
        items.len() >= 3 && items[2] == Item::Variant(Box::new(v)) && p.rw == Access::Read ==> (
        p.accepted(items) matches Err(e) && e.name
            == "org.freedesktop.DBus.Error.PropertyReadOnly"@ && e.text == "Property "@ + p.name
            + " is read only"@),
        items.len() >= 3 && items[2] == Item::Variant(Box::new(v)) && p.rw != Access::Read
            && type_sig(v) != type_sig(p.value) ==> (p.accepted(items) matches Err(e) && e.name
            == "org.freedesktop.DBus.Error.Failed"@ && e.text == "Property "@ + p.name
            + " cannot change type to "@ + type_sig(v)),
        items.len() < 3 ==> (p.accepted(items) matches Err(e) && e.name
            == "org.freedesktop.DBus.Error.InvalidArgs"@ && e.text == "Not enough arguments"@),
        items.len() >= 3 && items[2] !is Variant ==> (p.accepted(items) matches Err(e) && e.name
            == "org.freedesktop.DBus.Error.InvalidArgs"@ && e.text == "Invalid argument "@
            + crate::show::shown(items[2])),
{
}

/// Whether a value is accepted has nothing to do with whether changes are announced, with a
/// callback, with who owns the property, or with annotations, nor with other arguments.
pub proof fn law_accepted_alike<M>(p: PropV<M>, q: PropV<M>, items: Seq<Item>, others: Seq<Item>)
    requires
        p.name == q.name,
        type_sig(p.value) == type_sig(q.value),
        p.rw == q.rw,
        items.len() >= 3,
        others.len() >= 3,
        items[2] == others[2],
    ensures
        p.accepted(items) == q.accepted(others),
{
}

/// A property can be set locally unless it is constant and belongs to an object path.
pub proof fn law_settable<M>(p: PropV<M>)
    ensures
        !p.settable() <==> p.emits == EmitsChangedSignal::Const && p.owner is Some,
{
}

/// The signal that a property of an object path starts from is that of the object path that its
/// properties changed, for its interface.
pub proof fn law_property_signal<M>(p: PropV<M>)
    ensures
        p.owner is None ==> p.signal() is None,
        p.owner matches Some(o) ==> (p.signal() matches Some(s) && is_signal(
            s,
            o.path,
            "org.freedesktop.DBus.Properties"@,
            "PropertiesChanged"@,
            seq![Item::Str(o.iface)],
        )),
{
    if let Some(o) = p.owner {
        assert(Seq::<Item>::empty().push(Item::Str(o.iface)) =~= seq![Item::Str(o.iface)]);
    }
}

/// A change is announced by one message: a signal of the owner's object path that its properties
/// changed, with the owner's interface, and with the name and the new value, or with the name
/// alone. It is not announced where the property says so, or belongs to no object path.
pub proof fn law_announcement<M>(p: PropV<M>, v: Item)
    ensures
        p.owner is None || p.emits == EmitsChangedSignal::False || p.emits
            == EmitsChangedSignal::Const ==> p.announcement(v).len() == 0,
        p.emits == EmitsChangedSignal::True ==> (p.owner matches Some(o) ==> {
            let r = p.announcement(v);
            &&& r.len() == 1
            &&& is_signal(
                r[0],
                o.path,
                "org.freedesktop.DBus.Properties"@,
                "PropertiesChanged"@,
                r[0].items,
            )
            &&& r[0].items.len() == 2
            &&& r[0].items[0] == Item::Str(o.iface)
            &&& r[0].items[1] matches Item::Array(es, sig)
            &&& sig == "{sv}"@
            &&& es.len() == 1
            &&& is_value_entry(es[0], p.name, v)
        }),
        p.emits == EmitsChangedSignal::Invalidates ==> (p.owner matches Some(o) ==> {
            let r = p.announcement(v);
            &&& r.len() == 1
            &&& is_signal(
                r[0],
                o.path,
                "org.freedesktop.DBus.Properties"@,
                "PropertiesChanged"@,
                r[0].items,
            )
            &&& r[0].items.len() == 3
            &&& r[0].items[0] == Item::Str(o.iface)
            &&& r[0].items[1] == Item::Array(Seq::empty(), "{sv}"@)
            &&& r[0].items[2] matches Item::Array(ns, sig)
            &&& sig == "s"@
            &&& ns.len() == 1
            &&& ns[0] == Item::Str(p.name)
        }),
{
}

/// Setting a property by a call gives it the value and nothing else, and answers what announces
/// the change; a value that is not accepted leaves it as it is, and the error is the answer.
pub proof fn law_remote_set<M>(p: PropV<M>, items: Seq<Item>, v: Item)
    ensures
        items.len() >= 3 && items[2] == Item::Variant(Box::new(v)) && p.rw != Access::Read
            && type_sig(v) == type_sig(p.value) && !(p.emits == EmitsChangedSignal::Const
            && p.owner is Some) ==> {
            &&& p.set_answer(items) == Ok::<Seq<Msg>, ErrV>(p.announcement(v))
            &&& p.after_set(items) == (PropV { value: v, ..p })
        },
        p.set_answer(items) is Err ==> p.after_set(items) == p,
        p.accepted(items) matches Err(e) ==> p.set_answer(items) == Err::<Seq<Msg>, ErrV>(e),
        p.emits == EmitsChangedSignal::Const && p.owner is Some && p.accepted(items) is Ok ==> (
        p.set_answer(items) matches Err(e) && e.name
            == "org.freedesktop.DBus.Error.PropertyReadOnly"@ && e.text == "Property "@ + p.name
            + " is read only"@),
{
}

/// Setting a value or an owner changes nothing else.
pub proof fn law_one_field<M>(p: PropV<M>, v: Item, s: SignalV, o: OwnerV)
    ensures
        p.with_value(v) == (PropV { value: v, ..p }),
        p.owned(o) == (PropV { owner: Some(o), ..p }),
        s.owned(o) == (SignalV { owner: Some(o), ..s }),
{
}

/// An annotation is found with the value that it was given last; others stay as they are. That
/// something is deprecated is an annotation.
pub proof fn law_annotated(
    anns: Seq<AnnV>,
    name: Seq<char>,
    value: Seq<char>,
    other: Seq<char>,
)
    requires
        sound(anns),
    ensures
        sound(annotated(anns, name, value)),
        find(annotated(anns, name, value), name) == Some(AnnV { name, value }),
        other != name ==> find(annotated(anns, name, value), other) == find(anns, other),
        sound(marked_deprecated(anns)),
        find(marked_deprecated(anns), "org.freedesktop.DBus.Deprecated"@) == Some(
            AnnV { name: "org.freedesktop.DBus.Deprecated"@, value: "true"@ },
        ),
        other != "org.freedesktop.DBus.Deprecated"@ ==> find(marked_deprecated(anns), other)
            == find(anns, other),
{
    let a = AnnV { name, value };
    let d = AnnV { name: "org.freedesktop.DBus.Deprecated"@, value: "true"@ };
    lemma_put_sound(anns, a);
    lemma_put_sound(anns, d);
    lemma_put_find(anns, a);
    lemma_put_find(anns, d);
    if other != name {
        lemma_put_find_other(anns, a, other);
    }
    if other != d.name {
        lemma_put_find_other(anns, d, other);
    }
}

/// An interface that an object path gets keeps all that it holds; its signals and properties get
/// the object path and the interface as their owner, and nothing else of them changes.
pub proof fn law_owned<M>(i: IfaceV<M>, path: Seq<char>, k: int)
    ensures
        i.owned(path).name == i.name,
        i.owned(path).methods == i.methods,
        i.owned(path).anns == i.anns,
        i.owned(path).old_signals == i.old_signals,
        i.owned(path).old_properties == i.old_properties,
        i.owned(path).signals.len() == i.signals.len(),
        i.owned(path).properties.len() == i.properties.len(),
        0 <= k < i.signals.len() ==> i.owned(path).signals[k] == (SignalV {
            owner: Some(OwnerV { path, iface: i.name }),
            ..i.signals[k]
        }),
        0 <= k < i.properties.len() ==> i.owned(path).properties[k] == (PropV {
            owner: Some(OwnerV { path, iface: i.name }),
            ..i.properties[k]
        }),
{
}

/// Adding to an interface changes one list: methods, signals and properties do not touch each
/// other, nor the name and the annotations.
pub proof fn law_adds_touch_one_list<M>(i: IfaceV<M>, m: MethodV<M>, s: SignalV, p: PropV<M>)
    ensures
        i.add_m(m) == (IfaceV { methods: i.add_m(m).methods, ..i }),
        i.add_s(s) == (IfaceV {
            signals: i.add_s(s).signals,
            old_signals: i.add_s(s).old_signals,
            ..i
        }),
        i.add_p(p) == (IfaceV {
            properties: i.add_p(p).properties,
            old_properties: i.add_p(p).old_properties,
            ..i
        }),
        i.with_p(p) == (IfaceV { properties: i.with_p(p).properties, ..i }),
{
}

/// What gives way to another of its name is kept, behind what gave way before; where nothing
/// does, what is kept stays as it is.
pub proof fn law_retired<K: Keyed>(old: Seq<K>, s: Seq<K>, v: K, i: int)
    requires
        ordered(s),
    ensures
        0 <= i < s.len() && s[i].key() == v.key() ==> retired(old, s, v) == old.push(s[i]),
        (forall|j: int| 0 <= j < s.len() ==> (#[trigger] s[j]).key() != v.key()) ==> retired(
            old,
            s,
            v,
        ) == old,
{
    if 0 <= i < s.len() && s[i].key() == v.key() {
        lemma_find_at(s, i);
    }
    if forall|j: int| 0 <= j < s.len() ==> (#[trigger] s[j]).key() != v.key() {
        if find(s, v.key()) is Some {
            let j = lemma_found(s, v.key());
            assert(s[j].key() == v.key());
        }
    }
}

/// A method that is added to an interface, and that to an object path, and that to a tree, is
/// what a call of its names reaches, whatever arguments the call carries.
pub proof fn law_added_method_is_called<M>(
    t: TreeV<M>,
    o: ObjectV<M>,
    i: IfaceV<M>,
    x: MethodV<M>,
    cb: Arc<M>,
    m: Msg,
)
    requires
        t.valid(),
        o.valid(),
        i.valid(),
        x.valid(),
        x.cb == Callback::User(cb),
        calls(m, o.name, i.name, x.name),
    ensures
        t.add(o.add(i.add_m(x))).dispatch(m) == DispatchV::<M>::Call(cb),
{
    let j = i.add_m(x);
    lemma_put_sound(i.methods, x);
    lemma_put_find(i.methods, x);
    law_object_add(o, j, i.name);
    let q = o.add(j);
    law_tree_add(t, q, o.name);
    let u = t.add(q);
    let a = lemma_found(u.paths, o.name);
    let b = lemma_found(q.ifaces, i.name);
    let c = lemma_found(j.methods, x.name);
    law_call_reaches_callback(u, m, a, b, c, cb);
}

/// The method has this name, does this, and has these arguments, and no annotations.
pub open spec fn is_method<M>(
    m: Option<MethodV<M>>,
    name: Seq<char>,
    cb: Callback<M>,
    ins: Seq<ArgV>,
    outs: Seq<ArgV>,
) -> bool {
    &&& m matches Some(x)
    &&& x.name == name
    &&& x.cb == cb
    &&& x.i_args == ins
    &&& x.o_args == outs
    &&& x.anns.len() == 0
}

/// The interface has methods only.
pub open spec fn has_methods_only<M>(i: IfaceV<M>) -> bool {
    &&& i.signals.len() == 0
    &&& i.properties.len() == 0
    &&& i.anns.len() == 0
    &&& i.old_signals.len() == 0
    &&& i.old_properties.len() == 0
}

/// The interface that gives access to properties has three methods: one that reads a property,
/// one that reads all of an interface, and one that sets a property.
pub proof fn law_properties_interface<M>(other: Seq<char>)
    ensures
        ({
            let i = properties_iface::<M>();
            &&& i.name == "org.freedesktop.DBus.Properties"@
            &&& has_methods_only(i)
            &&& is_method(
                find(i.methods, "Get"@),
                "Get"@,
                Callback::PropGet,
                seq![
                    ArgV { name: Some("interface_name"@), sig: "s"@ },
                    ArgV { name: Some("property_name"@), sig: "s"@ },
                ],
                seq![ArgV { name: Some("value"@), sig: "v"@ }],
            )
            &&& is_method(
                find(i.methods, "GetAll"@),
                "GetAll"@,
                Callback::PropGetAll,
                seq![ArgV { name: Some("interface_name"@), sig: "s"@ }],
                seq![ArgV { name: Some("props"@), sig: "a{sv}"@ }],
            )
            &&& is_method(
                find(i.methods, "Set"@),
                "Set"@,
                Callback::PropSet,
                seq![
                    ArgV { name: Some("interface_name"@), sig: "s"@ },
                    ArgV { name: Some("property_name"@), sig: "s"@ },
                    ArgV { name: Some("value"@), sig: "v"@ },
                ],
                Seq::empty(),
            )
            &&& other != "Get"@ && other != "GetAll"@ && other != "Set"@ ==> find(
                i.methods,
                other,
            ) is None
        }),
{
    let e = Seq::<MethodV<M>>::empty();
    let g = crate::object::get_method::<M>();
    let a = crate::object::get_all_method::<M>();
    let s = crate::object::set_method::<M>();
    reveal(ordered);
    assert(ordered(e));
    lemma_put_ordered(e, g);
    let e1 = put(e, g);
    lemma_put_ordered(e1, a);
    let e2 = put(e1, a);
    reveal_strlit("Get");
    reveal_strlit("GetAll");
    reveal_strlit("Set");
    assert("Get"@.len() == 3 && "GetAll"@.len() == 6 && "Get"@[0] == 'G' && "Set"@[0] == 'S');
    lemma_put_find(e, g);
    lemma_put_find_other(e1, a, "Get"@);
    lemma_put_find_other(e2, s, "Get"@);
    lemma_put_find(e1, a);
    lemma_put_find_other(e2, s, "GetAll"@);
    lemma_put_find(e2, s);
    if other != "Get"@ && other != "GetAll"@ && other != "Set"@ {
        lemma_put_find_other(e, g, other);
        lemma_put_find_other(e1, a, other);
        lemma_put_find_other(e2, s, other);
        if named(e, other) {
            let k = choose|k: int| named_at(e, other, k);
            assert(named_at(e, other, k));
        }
    }
}

/// The interfaces that describe an object path, and that list the objects below it, have one
/// method each, without arguments that go in.
pub proof fn law_single_method_interfaces<M>()
    ensures
        ({
            let i = introspectable_iface::<M>();
            &&& i.name == "org.freedesktop.DBus.Introspectable"@
            &&& has_methods_only(i)
            &&& i.methods.len() == 1
            &&& is_method(
                Some(i.methods[0]),
                "Introspect"@,
                Callback::Introspect,
                Seq::empty(),
                seq![ArgV { name: Some("xml_data"@), sig: "s"@ }],
            )
        }),
        ({
            let i = object_manager_iface::<M>();
            &&& i.name == "org.freedesktop.DBus.ObjectManager"@
            &&& has_methods_only(i)
            &&& i.methods.len() == 1
            &&& is_method(
                Some(i.methods[0]),
                "GetManagedObjects"@,
                Callback::ManagedObjects,
                Seq::empty(),
                seq![ArgV { name: None, sig: "a{oa{sa{sv}}}"@ }],
            )
        }),
{
    let e = Seq::<MethodV<M>>::empty();
    crate::sorted::lemma_put_at(e, crate::object::introspect_method::<M>(), 0, 0);
    crate::sorted::lemma_put_at(e, crate::object::managed_objects_method::<M>(), 0, 0);
}

/// Asking an object path to be described, or to list the objects below it, gives it the
/// interface for that, if it has none of that name, and nothing else.
pub proof fn law_support<M>(o: ObjectV<M>, other: Seq<char>)
    requires
        o.valid(),
    ensures
        o.introspectable().name == o.name,
        o.object_manager().name == o.name,
        named(o.ifaces, "org.freedesktop.DBus.Introspectable"@) ==> o.introspectable() == o,
        !named(o.ifaces, "org.freedesktop.DBus.Introspectable"@) ==> find(
            o.introspectable().ifaces,
            "org.freedesktop.DBus.Introspectable"@,
        ) == Some(introspectable_iface::<M>()),
        other != "org.freedesktop.DBus.Introspectable"@ ==> find(o.introspectable().ifaces, other)
            == find(o.ifaces, other),
        named(o.ifaces, "org.freedesktop.DBus.ObjectManager"@) ==> o.object_manager() == o,
        !named(o.ifaces, "org.freedesktop.DBus.ObjectManager"@) ==> find(
            o.object_manager().ifaces,
            "org.freedesktop.DBus.ObjectManager"@,
        ) == Some(object_manager_iface::<M>()),
        other != "org.freedesktop.DBus.ObjectManager"@ ==> find(o.object_manager().ifaces, other)
            == find(o.ifaces, other),
{
    let i = introspectable_iface::<M>();
    let m = object_manager_iface::<M>();
    assert(i.owned(o.name) == i) by {
        assert(i.owned(o.name).signals =~= i.signals);
        assert(i.owned(o.name).properties =~= i.properties);
    }
    assert(m.owned(o.name) == m) by {
        assert(m.owned(o.name).signals =~= m.signals);
        assert(m.owned(o.name).properties =~= m.properties);
    }
    lemma_put_find(o.ifaces, i);
    lemma_put_find(o.ifaces, m);
    if other != i.name {
        lemma_put_find_other(o.ifaces, i, other);
    }
    if other != m.name {
        lemma_put_find_other(o.ifaces, m, other);
    }
}

/// An object path that gets an interface with properties gets the interface that gives access to
/// them, too, if it has none of that name; its name stays.
pub proof fn law_access<M>(o: ObjectV<M>, i: IfaceV<M>)
    requires
        o.valid(),
        i.valid(),
        i.name != "org.freedesktop.DBus.Properties"@,
    ensures
        o.add(i).name == o.name,
        i.properties.len() > 0 && !named(o.ifaces, "org.freedesktop.DBus.Properties"@) ==> find(
            o.add(i).ifaces,
            "org.freedesktop.DBus.Properties"@,
        ) == Some(properties_iface::<M>()),
        i.properties.len() == 0 || named(o.ifaces, "org.freedesktop.DBus.Properties"@) ==> find(
            o.add(i).ifaces,
            "org.freedesktop.DBus.Properties"@,
        ) == find(o.ifaces, "org.freedesktop.DBus.Properties"@),
{
    let p = properties_iface::<M>();
    let j = i.owned(o.name);
    lemma_put_find(o.ifaces, p);
    lemma_put_ordered(o.ifaces, p);
    lemma_put_find_other(o.ifaces, j, p.name);
    lemma_put_find_other(put(o.ifaces, p), j, p.name);
}

/// Setting a value locally, at its place in the tree, changes that value and nothing else.
pub proof fn law_local_set<M>(t: TreeV<M>, a: int, i: int, p: int, v: Item)
    requires
        t.valid(),
        0 <= a < t.paths.len(),
        0 <= i < t.paths[a].ifaces.len(),
        0 <= p < t.paths[a].ifaces[i].properties.len(),
    ensures
        t.with_property(
            t.paths[a].name,
            t.paths[a].ifaces[i].name,
            t.paths[a].ifaces[i].properties[p].with_value(v),
        ) == with_value_at(t, a, i, p, v),
{
    let o = t.paths[a];
    assert(o.valid());
    let f = o.ifaces[i];
    assert(f.valid());
    let y = PropV { value: v, ..f.properties[p] };
    lemma_find_at(t.paths, a);
    lemma_find_at(o.ifaces, i);
    lemma_put_update(f.properties, y, p);
    let g = IfaceV { properties: f.properties.update(p, y), ..f };
    lemma_put_update(o.ifaces, g, i);
    lemma_put_update(t.paths, ObjectV { name: o.name, ifaces: o.ifaces.update(i, g) }, a);
}

/// What stands at a place in the tree is what its names find.
pub proof fn law_lookup<M>(t: TreeV<M>, a: int, i: int, k: int)
    requires
        t.valid(),
        0 <= a < t.paths.len(),
        0 <= i < t.paths[a].ifaces.len(),
    ensures
        find(t.paths, t.paths[a].name) == Some(t.paths[a]),
        find(t.paths[a].ifaces, t.paths[a].ifaces[i].name) == Some(t.paths[a].ifaces[i]),
        0 <= k < t.paths[a].ifaces[i].properties.len() ==> t.property(
            t.paths[a].name,
            crate::interface::EntryV {
                iface: t.paths[a].ifaces[i].name,
                name: t.paths[a].ifaces[i].properties[k].name,
            },
        ) == Some(t.paths[a].ifaces[i].properties[k]),
        0 <= k < t.paths[a].ifaces[i].signals.len() ==> t.signal(
            t.paths[a].name,
            crate::interface::EntryV {
                iface: t.paths[a].ifaces[i].name,
                name: t.paths[a].ifaces[i].signals[k].name,
            },
        ) == Some(t.paths[a].ifaces[i].signals[k]),
{
    let o = t.paths[a];
    assert(o.valid());
    let f = o.ifaces[i];
    assert(f.valid());
    lemma_find_at(t.paths, a);
    lemma_find_at(o.ifaces, i);
    if 0 <= k < f.properties.len() {
        lemma_find_at(f.properties, k);
    }
    if 0 <= k < f.signals.len() {
        lemma_find_at(f.signals, k);
    }
}

/// All signals and properties of the objects of a tree belong to the object path and to the
/// interface that they stand in.
pub proof fn law_owners<M>(t: TreeV<M>, a: int, i: int, k: int)
    requires
        t.valid(),
        0 <= a < t.paths.len(),
        0 <= i < t.paths[a].ifaces.len(),
    ensures
        0 <= k < t.paths[a].ifaces[i].signals.len() ==> (
        t.paths[a].ifaces[i].signals[k].owner matches Some(w) && w.path == t.paths[a].name
            && w.iface == t.paths[a].ifaces[i].name),
        0 <= k < t.paths[a].ifaces[i].properties.len() ==> (
        t.paths[a].ifaces[i].properties[k].owner matches Some(w) && w.path == t.paths[a].name
            && w.iface == t.paths[a].ifaces[i].name),
{
    assert(t.paths[a].valid());
    assert(t.paths[a].ifaces[i].belongs(t.paths[a].name));
}

/// Trees of the same shape have the same object paths with the same interfaces, and in these the
/// same methods, signals, annotations and properties, but for the values of properties.
pub proof fn law_same_shape<M>(s: TreeV<M>, t: TreeV<M>, a: int, i: int, p: int)
    requires
        s.same_shape(t),
    ensures
        s.paths.len() == t.paths.len(),
        0 <= a < t.paths.len() ==> {
            &&& s.paths[a].name == t.paths[a].name
            &&& s.paths[a].ifaces.len() == t.paths[a].ifaces.len()
            &&& 0 <= i < t.paths[a].ifaces.len() ==> {
                let f = s.paths[a].ifaces[i];
                let g = t.paths[a].ifaces[i];
                &&& f.name == g.name
                &&& f.methods == g.methods
                &&& f.signals == g.signals
                &&& f.anns == g.anns
                &&& f.old_signals == g.old_signals
                &&& f.properties.len() == g.properties.len()
                &&& 0 <= p < g.properties.len() ==> f.properties[p] == (PropV {
                    value: f.properties[p].value,
                    ..g.properties[p]
                })
                &&& f.old_properties.len() == g.old_properties.len()
                &&& 0 <= p < g.old_properties.len() ==> f.old_properties[p] == (PropV {
                    value: f.old_properties[p].value,
                    ..g.old_properties[p]
                })
            }
        },
{
    assert(s.shape().paths.len() == t.shape().paths.len());
    if 0 <= a < t.paths.len() {
        assert(s.shape().paths[a] == s.paths[a].shape());
        assert(t.shape().paths[a] == t.paths[a].shape());
        let x = s.paths[a].shape();
        let y = t.paths[a].shape();
        assert(x.ifaces.len() == y.ifaces.len());
        if 0 <= i < t.paths[a].ifaces.len() {
            let f = s.paths[a].ifaces[i];
            let g = t.paths[a].ifaces[i];
            assert(x.ifaces[i] == f.shape());
            assert(y.ifaces[i] == g.shape());
            assert(f.shape().properties.len() == g.shape().properties.len());
            if 0 <= p < g.properties.len() {
                assert(f.shape().properties[p] == f.properties[p].shape());
                assert(g.shape().properties[p] == g.properties[p].shape());
            }
            assert(f.shape().old_properties.len() == g.shape().old_properties.len());
            if 0 <= p < g.old_properties.len() {
                assert(f.shape().old_properties[p] == f.old_properties[p].shape());
                assert(g.shape().old_properties[p] == g.old_properties[p].shape());
            }
        }
    }
}

/// A value that is set leaves the shape of a tree as it is.
pub proof fn law_value_keeps_shape<M>(t: TreeV<M>, a: int, i: int, p: int, v: Item)
    requires
        0 <= a < t.paths.len(),
        0 <= i < t.paths[a].ifaces.len(),
        0 <= p < t.paths[a].ifaces[i].properties.len(),
    ensures
        with_value_at(t, a, i, p, v).same_shape(t),
{
    let u = with_value_at(t, a, i, p, v);
    let o = t.paths[a];
    let f = o.ifaces[i];
    let q = u.paths[a];
    let g = q.ifaces[i];
    assert(g.shape().properties =~= f.shape().properties);
    assert(q.shape().ifaces =~= o.shape().ifaces) by {
        assert forall|k: int| 0 <= k < o.ifaces.len() implies q.shape().ifaces[k]
            == o.shape().ifaces[k] by {
            if k != i {
                assert(q.ifaces[k] == o.ifaces[k]);
            }
        }
    }
    assert(u.shape().paths =~= t.shape().paths) by {
        assert forall|k: int| 0 <= k < t.paths.len() implies u.shape().paths[k]
            == t.shape().paths[k] by {
            if k != a {
                assert(u.paths[k] == t.paths[k]);
            }
        }
    }
}

/// An item is taken by a tree exactly where it is a method call to an object path of the tree.
pub proof fn law_takes<M, X>(t: TreeV<M>, x: X, m: Message)
    requires
        t.valid(),
    ensures
        !takes(t, None::<ConnectionItem<X>>),
        !takes(t, Some(ConnectionItem::<X>::Other(x))),
        takes(t, Some(ConnectionItem::<X>::MethodCall(m))) <==> m@.msg_type
            == MessageType::MethodCall && exists|a: int|
            0 <= a < t.paths.len() && m@.path == Some((#[trigger] t.paths[a]).name),
{
    if let Some(p) = m@.path {
        if find(t.paths, p) is Some {
            let a = lemma_found(t.paths, p);
            assert(m@.path == Some(t.paths[a].name));
        }
        if exists|a: int| 0 <= a < t.paths.len() && m@.path == Some((#[trigger] t.paths[a]).name) {
            let a = choose|a: int|
                0 <= a < t.paths.len() && m@.path == Some((#[trigger] t.paths[a]).name);
            lemma_find_at(t.paths, a);
        }
    }
}

/// The names that are registered are those of all object paths, in their order.
pub proof fn law_path_names<M>(t: TreeV<M>, a: int)
    ensures
        path_names(t).len() == t.paths.len(),
        0 <= a < t.paths.len() ==> path_names(t)[a] == t.paths[a].name,
{
}

/// Of properties, the first that cannot be read.
proof fn lemma_first_unreadable_at<M>(props: Seq<PropV<M>>)
    ensures
        first_unreadable(props) is None ==> forall|k: int|
            0 <= k < props.len() ==> (#[trigger] props[k]).rw != Access::Write,
        first_unreadable(props) matches Some(p) ==> exists|k: int|
            {
                &&& 0 <= k < props.len()
                &&& #[trigger] props[k] == p
                &&& p.rw == Access::Write
                &&& forall|j: int| 0 <= j < k ==> (#[trigger] props[j]).rw != Access::Write
            },
    decreases props.len(),
{
    if props.len() > 0 {
        let w = props.drop_last();
        lemma_first_unreadable_at(w);
        match first_unreadable(w) {
            Some(p) => {
                let k = choose|k: int|
                    {
                        &&& 0 <= k < w.len()
                        &&& #[trigger] w[k] == p
                        &&& p.rw == Access::Write
                        &&& forall|j: int| 0 <= j < k ==> (#[trigger] w[j]).rw != Access::Write
                    };
                assert(props[k] == p);
                assert forall|j: int| 0 <= j < k implies (#[trigger] props[j]).rw
                    != Access::Write by {
                    assert(w[j] == props[j]);
                }
            },
            None => {
                let k = props.len() - 1;
                assert(props[k] == props.last());
                assert forall|j: int| 0 <= j < k implies (#[trigger] props[j]).rw
                    != Access::Write by {
                    assert(w[j] == props[j]);
                }
            },
        }
    }
}

/// A message can be answered where its arguments are free of NULs; one that reads all properties
/// of an interface only if, besides, the first of these that cannot be read, which the answer
/// names, has a name that is.
pub proof fn law_answerable<M>(t: TreeV<M>, m: Msg, a: int, i: int, b: int, c: int)
    requires
        t.valid(),
        0 <= a < t.paths.len(),
        0 <= b < t.paths[a].ifaces.len(),
        0 <= c < t.paths[a].ifaces[b].methods.len(),
        calls(
            m,
            t.paths[a].name,
            t.paths[a].ifaces[b].name,
            t.paths[a].ifaces[b].methods[c].name,
        ),
    ensures
        t.paths[a].ifaces[b].methods[c].cb != Callback::<M>::PropGetAll ==> (t.answerable(m)
            <==> forall|k: int| 0 <= k < m.items.len() ==> nul_free(#[trigger] m.items[k])),
        t.paths[a].ifaces[b].methods[c].cb == Callback::<M>::PropGetAll && 0 <= i
            < t.paths[a].ifaces.len() && m.items.len() > 0 && m.items[0] == Item::Str(
            t.paths[a].ifaces[i].name,
        ) && (forall|k: int| 0 <= k < m.items.len() ==> nul_free(#[trigger] m.items[k])) && (
        forall|p: int|
            0 <= p < t.paths[a].ifaces[i].properties.len()
                && (#[trigger] t.paths[a].ifaces[i].properties[p]).rw == Access::Write
                ==> !t.paths[a].ifaces[i].properties[p].name.contains('\0')) ==> t.answerable(m),
{
    law_all_nul_free(m.items);
    let o = t.paths[a];
    assert(o.valid());
    assert(o.ifaces[b].valid());
    lemma_find_at(t.paths, a);
    crate::answers::law_method_is_found(o, m, b, c);
    if 0 <= i < o.ifaces.len() {
        lemma_find_at(o.ifaces, i);
        lemma_first_unreadable_at(o.ifaces[i].properties);
    }
}

/// The element that is found by a name and a number has the name, and that many of its name stand
/// in front of it.
pub proof fn law_nth_named<K: Keyed>(s: Seq<K>, k: Seq<char>, n: nat, i: int)
    ensures
        nth_named(s, k, n) == Some(i) <==> 0 <= i < s.len() && s[i].key() == k && count_named(
            s.take(i),
            k,
        ) == n,
    decreases s.len(),
{
    if s.len() > 0 {
        let w = s.drop_last();
        law_nth_named(w, k, n, i);
        lemma_nth_named(w, k, n);
        if 0 <= i < w.len() {
            assert(w.take(i) =~= s.take(i));
            assert(w[i] == s[i]);
        }
        assert(s.take(w.len() as int) =~= w);
        if 0 <= i < w.len() && s[i].key() == k && count_named(s.take(i), k) == n {
            assert(nth_named(w, k, n) == Some(i));
        }
        if let Some(j) = nth_named(w, k, n) {
            law_nth_named(w, k, n, j);
            lemma_count_grows(w, k, j);
        }
    }
}

/// A list holds more of a name than the part in front of one of that name.
proof fn lemma_count_grows<K: Keyed>(s: Seq<K>, k: Seq<char>, i: int)
    requires
        0 <= i < s.len(),
        s[i].key() == k,
    ensures
        count_named(s.take(i), k) < count_named(s, k),
    decreases s.len(),
{
    let w = s.drop_last();
    if i == w.len() {
        assert(s.take(i) =~= w);
    } else {
        lemma_count_grows(w, k, i);
        assert(w.take(i) =~= s.take(i));
    }
}

/// Another element of the same name in the place of one changes no counts.
proof fn lemma_count_update<K: Keyed>(s: Seq<K>, k: Seq<char>, i: int, v: K)
    requires
        0 <= i < s.len(),
        v.key() == s[i].key(),
    ensures
        count_named(s.update(i, v), k) == count_named(s, k),
    decreases s.len(),
{
    let w = s.drop_last();
    let u = s.update(i, v);
    if i == w.len() {
        assert(u.drop_last() =~= w);
    } else {
        lemma_count_update(w, k, i, v);
        assert(u.drop_last() =~= w.update(i, v));
        assert(u.last() == s.last());
    }
}

/// Another element of the same name in the place of one is found as that one was, and all others
/// are found where they were.
proof fn lemma_nth_update<K: Keyed>(s: Seq<K>, k: Seq<char>, n: nat, i: int, v: K)
    requires
        0 <= i < s.len(),
        v.key() == s[i].key(),
    ensures
        nth_named(s.update(i, v), k, n) == nth_named(s, k, n),
{
    let u = s.update(i, v);
    if let Some(j) = nth_named(s, k, n) {
        law_nth_named(s, k, n, j);
        if i < j {
            lemma_count_update(s.take(j), k, i, v);
            assert(u.take(j) =~= s.take(j).update(i, v));
        } else {
            assert(u.take(j) =~= s.take(j));
        }
        law_nth_named(u, k, n, j);
    } else {
        lemma_nth_named(s, k, n);
        lemma_nth_named(u, k, n);
        lemma_count_update(s, k, i, v);
    }
}

/// What a reference refers to after another value was set by a reference, in one interface.
proof fn lemma_set_reference<M>(
    i: IfaceV<M>,
    name: Seq<char>,
    turn: nat,
    v: Item,
    other: Seq<char>,
    n: nat,
)
    requires
        i.valid(),
        i.referred_p(name, turn) is Some,
    ensures
        ({
            let p = i.referred_p(name, turn)->0;
            let j = i.with_referred_p(turn, p.with_value(v));
            &&& p.name == name
            &&& j.referred_p(name, turn) == Some(p.with_value(v))
            &&& other != name || n != turn ==> j.referred_p(other, n) == i.referred_p(other, n)
            &&& j == (IfaceV {
                properties: j.properties,
                old_properties: j.old_properties,
                ..i
            })
        }),
{
    let p = i.referred_p(name, turn)->0;
    let q = p.with_value(v);
    let j = i.with_referred_p(turn, q);
    lemma_nth_named(i.old_properties, name, turn);
    lemma_nth_named(i.old_properties, other, n);
    match nth_named(i.old_properties, name, turn) {
        Some(k) => {
            lemma_nth_update(i.old_properties, name, turn, k, q);
            lemma_nth_update(i.old_properties, other, n, k, q);
            lemma_count_update(i.old_properties, name, k, q);
            lemma_count_update(i.old_properties, other, k, q);
            law_nth_named(i.old_properties, name, turn, k);
            law_nth_named(i.old_properties, other, n, k);
        },
        None => {
            let b = lemma_found(i.properties, name);
            lemma_put_find(i.properties, q);
            if other != name {
                lemma_put_find_other(i.properties, q, other);
            }
        },
    }
}

/// Setting a property by a reference gives the property that it refers to the value, also where
/// another has taken its place; what other references refer to stays as it is.
pub proof fn law_set_by_reference<M>(
    t: TreeV<M>,
    path: Seq<char>,
    e: RefV,
    v: Item,
    other: Seq<char>,
    f: RefV,
)
    requires
        t.valid(),
        t.referred_p(path, e) is Some,
    ensures
        ({
            let p = t.referred_p(path, e)->0;
            let u = t.with_referred_p(path, e, PropV { value: v, ..p });
            &&& u.referred_p(path, e) == Some(PropV { value: v, ..p })
            &&& other != path || f.iface != e.iface || f.name != e.name || f.turn != e.turn
                ==> u.referred_p(other, f) == t.referred_p(other, f)
            &&& u.referred_s(other, f) == t.referred_s(other, f)
        }),
{
    let p = t.referred_p(path, e)->0;
    let q = PropV { value: v, ..p };
    let a = lemma_found(t.paths, path);
    let o = t.paths[a];
    assert(o.valid());
    let b = lemma_found(o.ifaces, e.iface);
    let i = o.ifaces[b];
    assert(i.valid());
    lemma_set_reference(i, e.name, e.turn, v, f.name, f.turn);
    let j = i.with_referred_p(e.turn, q);
    let o2 = o.with_iface(j);
    lemma_put_find(o.ifaces, j);
    if f.iface != e.iface {
        lemma_put_find_other(o.ifaces, j, f.iface);
    }
    lemma_put_find(t.paths, o2);
    if other != path {
        lemma_put_find_other(t.paths, o2, other);
    }
}

/// A reference that nothing has replaced refers to what stands under the names; one that was
/// replaced refers to what it was made for, the first of them with the number zero.
pub proof fn law_referred<K: Keyed>(old: Seq<K>, s: Seq<K>, name: Seq<char>, turn: nat, k: int)
    ensures
        0 <= k < old.len() && old[k].key() == name && count_named(old.take(k), name) == turn
            ==> referred(old, s, name, turn) == Some(old[k]),
        turn == count_named(old, name) ==> referred(old, s, name, turn) == find(s, name),
        turn > count_named(old, name) ==> referred(old, s, name, turn) is None,
{
    law_nth_named(old, name, turn, k);
    lemma_nth_named(old, name, turn);
}

/// What a method does about a call is settled by the arguments, the sender and the serial of the
/// call: how the call named the method makes no difference. A callback of the user is called
/// whatever the call says, and the object is as it was.
pub proof fn law_step<M>(cb: Callback<M>, m: Msg, n: Msg, o: ObjectV<M>, t: TreeV<M>)
    ensures
        m.items == n.items && m.sender == n.sender && m.serial == n.serial ==> cb.step(m, o, t)
            == cb.step(n, o, t),
        m.items == n.items ==> cb.after(m, o) == cb.after(n, o),
        cb matches Callback::User(f) ==> cb.step(m, o, t) == StepV::<M>::Call(f),
        cb != Callback::<M>::PropSet ==> cb.after(m, o) == o,
{
}

/// The object and the method that a call reaches are settled by what the call names, whatever
/// its arguments, its sender and its serial are.
pub proof fn law_what_is_reached<M>(t: TreeV<M>, o: ObjectV<M>, m: Msg, n: Msg)
    ensures
        m.msg_type == n.msg_type && m.path == n.path ==> t.target(m) == t.target(n),
        m.interface == n.interface && m.member == n.member ==> o.method_for(m) == o.method_for(n),
{
}

/// Whether unregistering a path failed makes no difference.
pub proof fn law_unregistering_goes_on(s: RegistrationV)
    ensures
        !s.registers ==> s.step(true) == s.step(false),
        s.undone is Some ==> s.step(true) == s.step(false),
{
}

/// One step of a registration names the next path, and goes one path on.
pub proof fn law_registration_step(s: RegistrationV)
    requires
        s.valid(),
        s.undone is None,
        s.done < s.names.len(),
    ensures
        s.registers ==> s.step(false).0 == RegisteringV::Register(s.names[s.done]),
        !s.registers ==> s.step(false).0 == RegisteringV::Unregister(s.names[s.done]),
        s.step(false).1 == (RegistrationV { done: s.done + 1, ..s }),
{
}

} // verus!
