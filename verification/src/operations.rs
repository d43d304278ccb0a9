//! What the operations do: said of what is handed to them and of what they give back.
use std::sync::Arc;
use vstd::prelude::*;
use crate::annotation::AnnV;
use crate::answers::{are_below, calls, is_below, is_error, is_object_entry, is_reply, is_signal, is_value_entry, law_call_reaches_callback, law_managed_objects, law_method_is_found};
use crate::argument::Argument;
use crate::dispatch::{Callee, Dispatch, MCall};
use crate::error::{MethodErr, MethodResult, result_view};
use crate::factory::Factory;
use crate::interface::{EntryRef, IfaceV, Interface, RefV};
use crate::item::{Item, MessageItem, type_sig};
use crate::message::{Message, Msg, msgs_view};
use crate::method::{Callback, Method, MethodV};
use crate::names::{ErrorName, IfaceName, Member, Path};
use crate::object::ObjectPath;
use crate::parts::{law_accepted, law_announcement, law_annotated, law_property_signal, law_read};
use crate::property::{Access, EmitsChangedSignal, PropV, Property, RemoteSet};
use crate::signal::{Signal, SignalV};
use crate::server::{ConnectionItem, Registering, RegisteringV, Registration, RegistrationV, ServerStep, TreeServer};
use crate::sorted::{Keyed, find, sound};
use crate::texts::{are_interfaces, are_next, are_nodes, law_object_text};
use crate::text::joined;
use crate::tree::{Objects, Tree};

verus! {

/// The message that emits a signal has the name of the signal as its member, the interface and
/// the object path that the signal belongs to, and the values that it was given.
pub proof fn law_emit(s: &Signal, items: &[MessageItem], r: Message)
    requires
        call_ensures(Signal::emit, (s, items), r),
        s@.owner is Some,
    ensures
        is_signal(r@, s@.owner->0.path, s@.owner->0.iface, s@.name, r@.items),
        r@.items.len() == items@.len(),
        forall|k: int| 0 <= k < items@.len() ==> #[trigger] r@.items[k] == items@[k]@,
{
    crate::item::lemma_items_view(items@);
}

/// An object path finds the method that a call names among those of the interface that it names,
/// whatever arguments the call carries.
pub proof fn law_method_for<M>(
    o: &ObjectPath<M>,
    m: &Message,
    r: Result<&Callback<M>, MethodErr>,
    b: int,
    c: int,
)
    requires
        call_ensures(ObjectPath::<M>::method_for, (o, m), r),
        o@.valid(),
        0 <= b < o@.ifaces.len(),
        0 <= c < o@.ifaces[b].methods.len(),
        m@.interface == Some(o@.ifaces[b].name),
        m@.member == Some(o@.ifaces[b].methods[c].name),
    ensures
        r matches Ok(cb) && *cb == o@.ifaces[b].methods[c].cb,
{
    law_method_is_found(o@, m@, b, c);
}

/// A call of a method with a callback of the user is handed to that callback, and the objects
/// are as they were.
pub proof fn law_dispatch<M>(m: &Message, r: Dispatch<M>, a: int, b: int, c: int, cb: Arc<M>)
    ensures
        forall|t: &mut Objects<M>|
            {
                &&& #[trigger] call_ensures(Objects::<M>::dispatch, (t, m), r)
                &&& t@.valid()
                &&& 0 <= a < t@.paths.len()
                &&& 0 <= b < t@.paths[a].ifaces.len()
                &&& 0 <= c < t@.paths[a].ifaces[b].methods.len()
                &&& t@.paths[a].ifaces[b].methods[c].cb == Callback::User(cb)
                &&& calls(
                    m@,
                    t@.paths[a].name,
                    t@.paths[a].ifaces[b].name,
                    t@.paths[a].ifaces[b].methods[c].name,
                )
            } ==> r == Dispatch::Call(cb) && final(t)@ == t@,
{
    assert forall|t: &mut Objects<M>|
        {
            &&& #[trigger] call_ensures(Objects::<M>::dispatch, (t, m), r)
            &&& t@.valid()
            &&& 0 <= a < t@.paths.len()
            &&& 0 <= b < t@.paths[a].ifaces.len()
            &&& 0 <= c < t@.paths[a].ifaces[b].methods.len()
            &&& t@.paths[a].ifaces[b].methods[c].cb == Callback::User(cb)
            &&& calls(
                m@,
                t@.paths[a].name,
                t@.paths[a].ifaces[b].name,
                t@.paths[a].ifaces[b].methods[c].name,
            )
        } implies r == Dispatch::Call(cb) && final(t)@ == t@ by {
        law_call_reaches_callback(t@, m@, a, b, c, cb);
    }
}

/// A call to set a property is accepted whenever its third argument is a variant, the remote
/// side may write the property, and the value in the variant has the type of the property's
/// value.
pub proof fn law_verify_remote_set<M>(
    p: &Property<M>,
    m: &Message,
    r: Result<MessageItem, MethodErr>,
    v: Item,
)
    requires
        call_ensures(Property::<M>::verify_remote_set, (p, m), r),
    ensures
        (r matches Ok(x) && x@ == v) <==> {
            &&& m@.items.len() >= 3
            &&& m@.items[2] == Item::Variant(Box::new(v))
            &&& p@.rw != Access::Read
            &&& type_sig(v) == type_sig(p@.value)
        },
{
    law_accepted(p@, m@.items, v);
}


/// A signal message, a reply, an error and a call are made of what is handed in, and of nothing
/// else.
pub proof fn law_make_messages()
    ensures
        forall|p: &Path, i: &IfaceName, n: &Member, r: Message| #[trigger]
            call_ensures(Message::signal, (p, i, n), r) ==> is_signal(r@, p@, i@, n@, Seq::empty()),
        forall|m: &Message, r: Message| #[trigger]
            call_ensures(Message::method_return, (m,), r) ==> is_reply(r@, m@, Seq::empty()),
        forall|m: &Message, n: &ErrorName, text: &str, r: Message| #[trigger]
            call_ensures(Message::error, (m, n, text), r) ==> is_error(r@, m@, n@, text@),
        forall|m: Message, x: MessageItem, r: Message| #[trigger]
            call_ensures(Message::append, (m, x), r) ==> r@ == (Msg {
                items: m@.items.push(x@),
                ..m@
            }),
        forall|d: &str, p: &str, i: &str, n: &str, r: Result<Message, String>| #[trigger]
            call_ensures(Message::new_method_call, (d, p, i, n), r) ==> (r matches Ok(m) ==> calls(
                m@,
                p@,
                i@,
                n@,
            ) && m@.destination == Some(d@) && m@.items.len() == 0),
{
}

/// What a call came to is what is sent back: the messages as they are, or the one error; where
/// a property was set, the empty reply follows its messages.
pub proof fn law_finish(m: &Message, x: MethodResult, v: Vec<Message>, r: MethodResult)
    ensures
        call_ensures(crate::dispatch::finish, (m, x), v) ==> {
            &&& x matches Ok(w) ==> msgs_view(v@) == msgs_view(w@)
            &&& x matches Err(e) ==> v@.len() == 1 && is_error(v@[0]@, m@, e@.name, e@.text)
        },
        call_ensures(crate::object::finish_set, (m, x), r) ==> {
            &&& x matches Err(e) ==> (r matches Err(f) && f@ == e@)
            &&& x matches Ok(w) ==> {
                &&& r matches Ok(y)
                &&& y@.len() == w@.len() + 1
                &&& forall|k: int| 0 <= k < w@.len() ==> (#[trigger] y@[k])@ == w@[k]@
                &&& is_reply(y@.last()@, m@, Seq::empty())
            }
        },
{
    if call_ensures(crate::dispatch::finish, (m, x), v) {
        assert(msgs_view(v@).len() == v@.len());
        if let Err(e) = x {
            assert(msgs_view(v@)[0] == v@[0]@);
        }
    }
    if call_ensures(crate::object::finish_set, (m, x), r) {
        if let Ok(w) = x {
            if let Ok(y) = r {
                assert(msgs_view(y@).len() == y@.len());
                assert(msgs_view(w@).len() == w@.len());
                assert forall|k: int| 0 <= k < w@.len() implies (#[trigger] y@[k])@ == w@[k]@ by {
                    assert(msgs_view(y@)[k] == y@[k]@);
                    assert(msgs_view(w@)[k] == w@[k]@);
                }
                assert(msgs_view(y@)[w@.len() as int] == y@.last()@);
            }
        }
    }
}

/// What a property holds is what it was made with, and what was asked for since: one thing at
/// a time, and nothing else changes.
pub proof fn law_make_properties<M>()
    ensures
        forall|s: String, i: MessageItem, r: Property<M>| #[trigger]
            call_ensures(Property::<M>::new, (s, i), r) ==> {
                &&& r@.name == s@
                &&& r@.value == i@
                &&& r@.emits == EmitsChangedSignal::True
                &&& r@.rw == Access::Read
                &&& r@.set_cb is None
                &&& r@.owner is None
                &&& r@.anns.len() == 0
            },
        forall|p: Property<M>, e: EmitsChangedSignal, r: Property<M>| #[trigger]
            call_ensures(Property::<M>::emits_changed, (p, e), r) && (p@.rw == Access::Read || e
                != EmitsChangedSignal::Const) ==> r@ == (PropV { emits: e, ..p@ }),
        forall|p: Property<M>, e: Access, r: Property<M>| #[trigger]
            call_ensures(Property::<M>::access, (p, e), r) && (e == Access::Read || p@.emits
                != EmitsChangedSignal::Const) ==> r@ == (PropV { rw: e, ..p@ }),
        forall|p: Property<M>, cb: M, r: Property<M>| #[trigger]
            call_ensures(Property::<M>::on_set, (p, cb), r) ==> r@ == (PropV {
                set_cb: Some(Arc::new(cb)),
                ..p@
            }),
        forall|p: &Property<M>, r: MessageItem| #[trigger]
            call_ensures(Property::<M>::get_value, (p,), r) ==> r@ == p@.value,
{
}

/// The signal of a property is one of its object path that its properties changed, for its
/// interface; a property of no object path has none.
pub proof fn law_get_signal<M>(p: &Property<M>, r: Option<Message>)
    requires
        call_ensures(Property::<M>::get_signal, (p,), r),
    ensures
        p@.owner is None ==> r is None,
        p@.owner matches Some(o) ==> (r matches Some(s) && is_signal(
            s@,
            o.path,
            "org.freedesktop.DBus.Properties"@,
            "PropertiesChanged"@,
            seq![Item::Str(o.iface)],
        )),
{
    law_property_signal(p@);
}

/// Setting the value of a property locally works unless it is constant and belongs to an object
/// path. It then has the value, and nothing else of it changes; the messages announce the
/// change, where the property says so and belongs to an object path.
pub proof fn law_set_value<M>(x: MessageItem, r: Result<Vec<Message>, ()>)
    ensures
        forall|p: &mut Property<M>| #[trigger]
            call_ensures(Property::<M>::set_value, (p, x), r) ==> {
                &&& r is Ok <==> !(p@.emits == EmitsChangedSignal::Const && p@.owner is Some)
                &&& r is Err ==> final(p)@ == p@
                &&& r matches Ok(v) ==> {
                    &&& final(p)@ == (PropV { value: x@, ..p@ })
                    &&& p@.owner is None ==> v@.len() == 0
                    &&& p@.emits == EmitsChangedSignal::False ==> v@.len() == 0
                    &&& p@.owner is Some && (p@.emits == EmitsChangedSignal::True || p@.emits
                        == EmitsChangedSignal::Invalidates) ==> {
                        &&& v@.len() == 1
                        &&& is_signal(
                            v@[0]@,
                            p@.owner->0.path,
                            "org.freedesktop.DBus.Properties"@,
                            "PropertiesChanged"@,
                            v@[0]@.items,
                        )
                        &&& v@[0]@.items[0] == Item::Str(p@.owner->0.iface)
                    }
                    &&& p@.owner is Some && p@.emits == EmitsChangedSignal::True ==> {
                        &&& v@[0]@.items.len() == 2
                        &&& v@[0]@.items[1] matches Item::Array(es, sig)
                        &&& sig == "{sv}"@
                        &&& es.len() == 1
                        &&& is_value_entry(es[0], p@.name, x@)
                    }
                    &&& p@.owner is Some && p@.emits == EmitsChangedSignal::Invalidates ==> {
                        &&& v@[0]@.items.len() == 3
                        &&& v@[0]@.items[1] == Item::Array(Seq::empty(), "{sv}"@)
                        &&& v@[0]@.items[2] == Item::Array(seq![Item::Str(p@.name)], "s"@)
                    }
                }
            },
{
    assert forall|p: &mut Property<M>| #[trigger]
        call_ensures(Property::<M>::set_value, (p, x), r) implies {
        &&& r is Ok <==> !(p@.emits == EmitsChangedSignal::Const && p@.owner is Some)
        &&& r is Err ==> final(p)@ == p@
        &&& r matches Ok(v) ==> {
            &&& final(p)@ == (PropV { value: x@, ..p@ })
            &&& p@.owner is None ==> v@.len() == 0
            &&& p@.emits == EmitsChangedSignal::False ==> v@.len() == 0
            &&& p@.owner is Some && (p@.emits == EmitsChangedSignal::True || p@.emits
                == EmitsChangedSignal::Invalidates) ==> {
                &&& v@.len() == 1
                &&& is_signal(
                    v@[0]@,
                    p@.owner->0.path,
                    "org.freedesktop.DBus.Properties"@,
                    "PropertiesChanged"@,
                    v@[0]@.items,
                )
                &&& v@[0]@.items[0] == Item::Str(p@.owner->0.iface)
            }
            &&& p@.owner is Some && p@.emits == EmitsChangedSignal::True ==> {
                &&& v@[0]@.items.len() == 2
                &&& v@[0]@.items[1] matches Item::Array(es, sig)
                &&& sig == "{sv}"@
                &&& es.len() == 1
                &&& is_value_entry(es[0], p@.name, x@)
            }
            &&& p@.owner is Some && p@.emits == EmitsChangedSignal::Invalidates ==> {
                &&& v@[0]@.items.len() == 3
                &&& v@[0]@.items[1] == Item::Array(Seq::empty(), "{sv}"@)
                &&& v@[0]@.items[2] == Item::Array(seq![Item::Str(p@.name)], "s"@)
            }
        }
    } by {
        law_announcement(p@, x@);
        if let Ok(v) = r {
            assert(msgs_view(v@).len() == v@.len());
            if v@.len() > 0 {
                assert(msgs_view(v@)[0] == v@[0]@);
            }
        }
    }
}

/// The remote side reads the value, unless the property is write only.
pub proof fn law_remote_get<M>(p: &Property<M>, m: &Message, r: Result<MessageItem, MethodErr>)
    requires
        call_ensures(Property::<M>::remote_get, (p, m), r),
    ensures
        p@.rw != Access::Write ==> (r matches Ok(x) && x@ == p@.value),
        p@.rw == Access::Write ==> (r matches Err(e) && e@.name
            == "org.freedesktop.DBus.Error.Failed"@ && e@.text == "Property "@ + p@.name
            + " is write only"@),
{
    law_read(p@);
}

/// A call to set a property asks the callback, where the property has one; otherwise a value
/// that is accepted is set, and the change is announced.
pub proof fn law_remote_set_call<M>(m: &Message, r: RemoteSet<M>, v: Item)
    ensures
        forall|p: &mut Property<M>| #[trigger]
            call_ensures(Property::<M>::remote_set, (p, m), r) ==> {
                &&& p@.set_cb matches Some(cb) ==> r == RemoteSet::Ask(cb) && final(p)@ == p@
                &&& p@.set_cb is None && p@.rw != Access::Read && p@.emits
                    != EmitsChangedSignal::Const && m@.items.len() >= 3 && m@.items[2]
                    == Item::Variant(Box::new(v)) && type_sig(v) == type_sig(p@.value) ==> {
                    &&& final(p)@ == (PropV { value: v, ..p@ })
                    &&& r matches RemoteSet::Done(x)
                    &&& result_view(x) matches Ok(w)
                    &&& w == p@.announcement(v)
                }
                &&& p@.set_cb is None && (p@.rw == Access::Read || m@.items.len() < 3) ==> {
                    &&& final(p)@ == p@
                    &&& r matches RemoteSet::Done(x)
                    &&& x is Err
                }
            },
{
    assert forall|p: &mut Property<M>| #[trigger]
        call_ensures(Property::<M>::remote_set, (p, m), r) implies {
        &&& p@.set_cb matches Some(cb) ==> r == RemoteSet::Ask(cb) && final(p)@ == p@
        &&& p@.set_cb is None && p@.rw != Access::Read && p@.emits != EmitsChangedSignal::Const
            && m@.items.len() >= 3 && m@.items[2] == Item::Variant(Box::new(v)) && type_sig(v)
            == type_sig(p@.value) ==> {
            &&& final(p)@ == (PropV { value: v, ..p@ })
            &&& r matches RemoteSet::Done(x)
            &&& result_view(x) matches Ok(w)
            &&& w == p@.announcement(v)
        }
        &&& p@.set_cb is None && (p@.rw == Access::Read || m@.items.len() < 3) ==> {
            &&& final(p)@ == p@
            &&& r matches RemoteSet::Done(x)
            &&& x is Err
        }
    } by {
        law_accepted(p@, m@.items, v);
        crate::parts::law_remote_set(p@, m@.items, v);
    }
}

/// Methods, signals and interfaces are made of a name, and of what is added to them.
pub proof fn law_make_parts<M>()
    ensures
        forall|n: Member, cb: Callback<M>, r: Method<M>| #[trigger]
            call_ensures(Method::<M>::new, (n, cb), r) ==> {
                &&& r@.name == n@
                &&& r@.cb == cb
                &&& r@.i_args.len() == 0
                &&& r@.o_args.len() == 0
                &&& r@.anns.len() == 0
            },
        forall|m: &Method<M>, r: &Callback<M>| #[trigger]
            call_ensures(Method::<M>::callback, (m,), r) ==> *r == m@.cb,
        forall|n: Member, r: Signal| #[trigger]
            call_ensures(Signal::new, (n,), r) ==> {
                &&& r@.name == n@
                &&& r@.arguments.len() == 0
                &&& r@.owner is None
                &&& r@.anns.len() == 0
            },
        forall|n: IfaceName, r: Interface<M>| #[trigger]
            call_ensures(Interface::<M>::new, (n,), r) ==> {
                &&& r@.name == n@
                &&& r@.methods.len() == 0
                &&& r@.signals.len() == 0
                &&& r@.properties.len() == 0
                &&& r@.anns.len() == 0
            },
        forall|n: Path, r: ObjectPath<M>| #[trigger]
            call_ensures(ObjectPath::<M>::new, (n,), r) ==> r@.name == n@ && r@.ifaces.len() == 0,
        forall|r: Tree<M>| #[trigger]
            call_ensures(Tree::<M>::new, (), r) ==> r@.paths.len() == 0,
{
}

/// One more argument comes last, and nothing else of a method or a signal changes.
pub proof fn law_add_arguments<M, A: Into<Argument>>()
    ensures
        forall|m: Method<M>, a: A, r: Method<M>| #[trigger]
            call_ensures(Method::<M>::in_arg::<A>, (m, a), r) ==> {
                &&& r@.i_args.len() == m@.i_args.len() + 1
                &&& r@.i_args.drop_last() == m@.i_args
                &&& r@ == (MethodV { i_args: r@.i_args, ..m@ })
            },
        forall|m: Method<M>, a: A, r: Method<M>| #[trigger]
            call_ensures(Method::<M>::out_arg::<A>, (m, a), r) ==> {
                &&& r@.o_args.len() == m@.o_args.len() + 1
                &&& r@.o_args.drop_last() == m@.o_args
                &&& r@ == (MethodV { o_args: r@.o_args, ..m@ })
            },
        forall|m: Method<M>, a: Vec<A>, r: Method<M>| #[trigger]
            call_ensures(Method::<M>::in_args::<A>, (m, a), r) ==> {
                &&& r@.i_args.len() == m@.i_args.len() + a@.len()
                &&& r@.i_args.take(m@.i_args.len() as int) == m@.i_args
                &&& r@ == (MethodV { i_args: r@.i_args, ..m@ })
            },
        forall|m: Method<M>, a: Vec<A>, r: Method<M>| #[trigger]
            call_ensures(Method::<M>::out_args::<A>, (m, a), r) ==> {
                &&& r@.o_args.len() == m@.o_args.len() + a@.len()
                &&& r@.o_args.take(m@.o_args.len() as int) == m@.o_args
                &&& r@ == (MethodV { o_args: r@.o_args, ..m@ })
            },
        forall|s: Signal, a: A, r: Signal| #[trigger]
            call_ensures(Signal::arg::<A>, (s, a), r) ==> {
                &&& r@.arguments.len() == s@.arguments.len() + 1
                &&& r@.arguments.drop_last() == s@.arguments
                &&& r@ == (SignalV { arguments: r@.arguments, ..s@ })
            },
        forall|s: Signal, a: Vec<A>, r: Signal| #[trigger]
            call_ensures(Signal::args::<A>, (s, a), r) ==> {
                &&& r@.arguments.len() == s@.arguments.len() + a@.len()
                &&& r@.arguments.take(s@.arguments.len() as int) == s@.arguments
                &&& r@ == (SignalV { arguments: r@.arguments, ..s@ })
            },
{
}

/// An argument is made of a name, where there is one, and of a type.
pub proof fn law_make_arguments()
    ensures
        forall|n: Option<String>, s: String, r: Argument| #[trigger]
            call_ensures(Argument::new, (n, s), r) ==> {
                &&& r@.sig == s@
                &&& n matches Some(x) ==> r@.name == Some(x@)
                &&& n is None ==> r@.name is None
            },
        forall|s: String, r: Argument| #[trigger]
            call_ensures(<Argument as From<String>>::from, (s,), r) ==> r@.name is None && r@.sig
                == s@,
        forall|s: &str, r: Argument| #[trigger]
            call_ensures(<Argument as From<&str>>::from, (s,), r) ==> r@.name is None && r@.sig
                == s@,
        forall|s: (&str, &str), r: Argument| #[trigger]
            call_ensures(<Argument as From<(&str, &str)>>::from, (s,), r) ==> r@.name == Some(s.0@)
                && r@.sig == s.1@,
{
}

/// An annotation is found under its name, with its value, and nothing else of what it is added
/// to changes; annotations of other names stay. That something is deprecated is the annotation
/// for that.
pub proof fn law_annotate<M>(name: &str, value: &str, other: Seq<char>)
    requires
        other != name@,
    ensures
        forall|m: Method<M>, r: Method<M>| #[trigger]
            call_ensures(Method::<M>::annotate, (m, name, value), r) && sound(m@.anns) ==> {
                &&& r@ == (MethodV { anns: r@.anns, ..m@ })
                &&& find(r@.anns, name@) == Some(AnnV { name: name@, value: value@ })
                &&& find(r@.anns, other) == find(m@.anns, other)
            },
        forall|m: Signal, r: Signal| #[trigger]
            call_ensures(Signal::annotate, (m, name, value), r) && sound(m@.anns) ==> {
                &&& r@ == (SignalV { anns: r@.anns, ..m@ })
                &&& find(r@.anns, name@) == Some(AnnV { name: name@, value: value@ })
                &&& find(r@.anns, other) == find(m@.anns, other)
            },
        forall|m: Property<M>, r: Property<M>| #[trigger]
            call_ensures(Property::<M>::annotate, (m, name, value), r) && sound(m@.anns) ==> {
                &&& r@ == (PropV { anns: r@.anns, ..m@ })
                &&& find(r@.anns, name@) == Some(AnnV { name: name@, value: value@ })
                &&& find(r@.anns, other) == find(m@.anns, other)
            },
        forall|m: Interface<M>, r: Interface<M>| #[trigger]
            call_ensures(Interface::<M>::annotate, (m, name, value), r) && sound(m@.anns) ==> {
                &&& r@ == (IfaceV { anns: r@.anns, ..m@ })
                &&& find(r@.anns, name@) == Some(AnnV { name: name@, value: value@ })
                &&& find(r@.anns, other) == find(m@.anns, other)
            },
{
    assert forall|anns: Seq<AnnV>| sound(anns) implies {
        let r = #[trigger] crate::annotation::annotated(anns, name@, value@);
        &&& find(r, name@) == Some(AnnV { name: name@, value: value@ })
        &&& find(r, other) == find(anns, other)
    } by {
        law_annotated(anns, name@, value@, other);
    }
}

/// That something is deprecated is an annotation with the value `true`.
pub proof fn law_deprecated<M>()
    ensures
        forall|m: Method<M>, r: Method<M>| #[trigger]
            call_ensures(Method::<M>::deprecated, (m,), r) && sound(m@.anns) ==> {
                &&& r@ == (MethodV { anns: r@.anns, ..m@ })
                &&& find(r@.anns, "org.freedesktop.DBus.Deprecated"@) == Some(
                    AnnV { name: "org.freedesktop.DBus.Deprecated"@, value: "true"@ },
                )
            },
        forall|m: Signal, r: Signal| #[trigger]
            call_ensures(Signal::deprecated, (m,), r) && sound(m@.anns) ==> {
                &&& r@ == (SignalV { anns: r@.anns, ..m@ })
                &&& find(r@.anns, "org.freedesktop.DBus.Deprecated"@) == Some(
                    AnnV { name: "org.freedesktop.DBus.Deprecated"@, value: "true"@ },
                )
            },
        forall|m: Property<M>, r: Property<M>| #[trigger]
            call_ensures(Property::<M>::deprecated, (m,), r) && sound(m@.anns) ==> {
                &&& r@ == (PropV { anns: r@.anns, ..m@ })
                &&& find(r@.anns, "org.freedesktop.DBus.Deprecated"@) == Some(
                    AnnV { name: "org.freedesktop.DBus.Deprecated"@, value: "true"@ },
                )
            },
        forall|m: Interface<M>, r: Interface<M>| #[trigger]
            call_ensures(Interface::<M>::deprecated, (m,), r) && sound(m@.anns) ==> {
                &&& r@ == (IfaceV { anns: r@.anns, ..m@ })
                &&& find(r@.anns, "org.freedesktop.DBus.Deprecated"@) == Some(
                    AnnV { name: "org.freedesktop.DBus.Deprecated"@, value: "true"@ },
                )
            },
{
    assert forall|anns: Seq<AnnV>| sound(anns) implies {
        let r = #[trigger] crate::annotation::marked_deprecated(anns);
        find(r, "org.freedesktop.DBus.Deprecated"@) == Some(
            AnnV { name: "org.freedesktop.DBus.Deprecated"@, value: "true"@ },
        )
    } by {
        law_annotated(anns, Seq::empty(), Seq::empty(), Seq::empty());
    }
}

/// What is added to an interface is found there under its name, as it was handed in.
pub proof fn law_add_to_interface<M>()
    ensures
        forall|i: Interface<M>, x: Method<M>, r: Interface<M>| #[trigger]
            call_ensures(Interface::<M>::add_m, (i, x), r) && i@.valid() ==> {
                &&& find(r@.methods, x@.name) == Some(x@)
                &&& r@ == (IfaceV { methods: r@.methods, ..i@ })
            },
        forall|i: Interface<M>, x: Signal, r: Interface<M>| #[trigger]
            call_ensures(Interface::<M>::add_s, (i, x), r) && i@.valid() ==> {
                &&& find(r@.signals, x@.name) == Some(x@)
                &&& r@ == (IfaceV { signals: r@.signals, old_signals: r@.old_signals, ..i@ })
            },
        forall|i: Interface<M>, x: Property<M>, r: Interface<M>| #[trigger]
            call_ensures(Interface::<M>::add_p, (i, x), r) && i@.valid() ==> {
                &&& find(r@.properties, x@.name) == Some(x@)
                &&& r@ == (IfaceV {
                    properties: r@.properties,
                    old_properties: r@.old_properties,
                    ..i@
                })
            },
{
    assert forall|i: Interface<M>, x: Method<M>, r: Interface<M>| #[trigger]
        call_ensures(Interface::<M>::add_m, (i, x), r) && i@.valid() implies {
        &&& find(r@.methods, x@.name) == Some(x@)
        &&& r@ == (IfaceV { methods: r@.methods, ..i@ })
    } by {
        crate::sorted::lemma_put_find(i@.methods, x@);
    }
    assert forall|i: Interface<M>, x: Signal, r: Interface<M>| #[trigger]
        call_ensures(Interface::<M>::add_s, (i, x), r) && i@.valid() implies {
        &&& find(r@.signals, x@.name) == Some(x@)
        &&& r@ == (IfaceV { signals: r@.signals, old_signals: r@.old_signals, ..i@ })
    } by {
        crate::sorted::lemma_put_find(i@.signals, x@);
    }
    assert forall|i: Interface<M>, x: Property<M>, r: Interface<M>| #[trigger]
        call_ensures(Interface::<M>::add_p, (i, x), r) && i@.valid() implies {
        &&& find(r@.properties, x@.name) == Some(x@)
        &&& r@ == (IfaceV { properties: r@.properties, old_properties: r@.old_properties, ..i@ })
    } by {
        crate::sorted::lemma_put_find(i@.properties, x@);
    }
}

/// What is looked up by a name is what stands under it.
pub proof fn law_lookups<M>(name: &str, k: int)
    ensures
        forall|i: &Interface<M>, r: Option<&Method<M>>| #[trigger]
            call_ensures(Interface::<M>::method, (i, name), r) && i@.valid() && 0 <= k
                < i@.methods.len() && i@.methods[k].name == name@ ==> (r matches Some(x) && x@
                == i@.methods[k]),
        forall|i: &Interface<M>, r: Option<&Signal>| #[trigger]
            call_ensures(Interface::<M>::signal, (i, name), r) && i@.valid() && 0 <= k
                < i@.signals.len() && i@.signals[k].name == name@ ==> (r matches Some(x) && x@
                == i@.signals[k]),
        forall|i: &Interface<M>, r: Option<&Property<M>>| #[trigger]
            call_ensures(Interface::<M>::property, (i, name), r) && i@.valid() && 0 <= k
                < i@.properties.len() && i@.properties[k].name == name@ ==> (r matches Some(x) && x@
                == i@.properties[k]),
        forall|o: &ObjectPath<M>, r: Option<&Interface<M>>| #[trigger]
            call_ensures(ObjectPath::<M>::interface, (o, name), r) && o@.valid() && 0 <= k
                < o@.ifaces.len() && o@.ifaces[k].name == name@ ==> (r matches Some(x) && x@
                == o@.ifaces[k]),
        forall|t: &Objects<M>, r: Option<&ObjectPath<M>>| #[trigger]
            call_ensures(Objects::<M>::object, (t, name), r) && t@.valid() && 0 <= k
                < t@.paths.len() && t@.paths[k].name == name@ ==> (r matches Some(x) && x@
                == t@.paths[k]),
{
    assert forall|i: &Interface<M>, r: Option<&Method<M>>| #[trigger]
        call_ensures(Interface::<M>::method, (i, name), r) && i@.valid() && 0 <= k
            < i@.methods.len() && i@.methods[k].name == name@ implies (r matches Some(x) && x@
        == i@.methods[k]) by {
        crate::sorted::lemma_find_at(i@.methods, k);
    }
    assert forall|i: &Interface<M>, r: Option<&Signal>| #[trigger]
        call_ensures(Interface::<M>::signal, (i, name), r) && i@.valid() && 0 <= k
            < i@.signals.len() && i@.signals[k].name == name@ implies (r matches Some(x) && x@
        == i@.signals[k]) by {
        crate::sorted::lemma_find_at(i@.signals, k);
    }
    assert forall|i: &Interface<M>, r: Option<&Property<M>>| #[trigger]
        call_ensures(Interface::<M>::property, (i, name), r) && i@.valid() && 0 <= k
            < i@.properties.len() && i@.properties[k].name == name@ implies (r matches Some(x) && x@
        == i@.properties[k]) by {
        crate::sorted::lemma_find_at(i@.properties, k);
    }
    assert forall|o: &ObjectPath<M>, r: Option<&Interface<M>>| #[trigger]
        call_ensures(ObjectPath::<M>::interface, (o, name), r) && o@.valid() && 0 <= k
            < o@.ifaces.len() && o@.ifaces[k].name == name@ implies (r matches Some(x) && x@
        == o@.ifaces[k]) by {
        crate::sorted::lemma_find_at(o@.ifaces, k);
    }
    assert forall|t: &Objects<M>, r: Option<&ObjectPath<M>>| #[trigger]
        call_ensures(Objects::<M>::object, (t, name), r) && t@.valid() && 0 <= k < t@.paths.len()
            && t@.paths[k].name == name@ implies (r matches Some(x) && x@ == t@.paths[k]) by {
        crate::sorted::lemma_find_at(t@.paths, k);
    }
}

/// An interface that is added to an object path is found there, with all that it holds, which
/// belongs to the object path from then on; an object path that is added to a tree is found
/// there as it was handed in.
pub proof fn law_add_to_object_and_tree<M>()
    ensures
        forall|o: ObjectPath<M>, i: Interface<M>, r: ObjectPath<M>| #[trigger]
            call_ensures(ObjectPath::<M>::add, (o, i), r) && o@.valid() && i@.valid() ==> {
                &&& r@.name == o@.name
                &&& find(r@.ifaces, i@.name) matches Some(j)
                &&& j.name == i@.name
                &&& j.methods == i@.methods
                &&& j.anns == i@.anns
                &&& j.signals.len() == i@.signals.len()
                &&& j.properties.len() == i@.properties.len()
                &&& forall|k: int|
                    0 <= k < j.properties.len() ==> #[trigger] j.properties[k] == (PropV {
                        owner: j.properties[k].owner,
                        ..i@.properties[k]
                    }) && (j.properties[k].owner matches Some(w) && w.path == o@.name && w.iface
                        == i@.name)
                &&& forall|k: int|
                    0 <= k < j.signals.len() ==> #[trigger] j.signals[k] == (SignalV {
                        owner: j.signals[k].owner,
                        ..i@.signals[k]
                    }) && (j.signals[k].owner matches Some(w) && w.path == o@.name && w.iface
                        == i@.name)
            },
        forall|t: Tree<M>, o: ObjectPath<M>, r: Tree<M>| #[trigger]
            call_ensures(Tree::<M>::add, (t, o), r) && t@.valid() ==> find(r@.paths, o@.name)
                == Some(o@),
{
    assert forall|o: ObjectPath<M>, i: Interface<M>, r: ObjectPath<M>| #[trigger]
        call_ensures(ObjectPath::<M>::add, (o, i), r) && o@.valid() && i@.valid() implies {
        &&& r@.name == o@.name
        &&& find(r@.ifaces, i@.name) matches Some(j)
        &&& j.name == i@.name
        &&& j.methods == i@.methods
        &&& j.anns == i@.anns
        &&& j.signals.len() == i@.signals.len()
        &&& j.properties.len() == i@.properties.len()
        &&& forall|k: int|
            0 <= k < j.properties.len() ==> #[trigger] j.properties[k] == (PropV {
                owner: j.properties[k].owner,
                ..i@.properties[k]
            }) && (j.properties[k].owner matches Some(w) && w.path == o@.name && w.iface
                == i@.name)
        &&& forall|k: int|
            0 <= k < j.signals.len() ==> #[trigger] j.signals[k] == (SignalV {
                owner: j.signals[k].owner,
                ..i@.signals[k]
            }) && (j.signals[k].owner matches Some(w) && w.path == o@.name && w.iface == i@.name)
    } by {
        crate::laws::law_object_add(o@, i@, i@.name);
    }
    assert forall|t: Tree<M>, o: ObjectPath<M>, r: Tree<M>| #[trigger]
        call_ensures(Tree::<M>::add, (t, o), r) && t@.valid() implies find(r@.paths, o@.name)
        == Some(o@) by {
        crate::sorted::lemma_put_find(t@.paths, o@);
    }
}

/// The introspection text that an object path gives: the header with its name, an element for
/// each interface, and a line for each object path one element below.
pub proof fn law_introspect_call<M>(o: &ObjectPath<M>, t: &Objects<M>, r: String) -> (x: (
    Seq<Seq<char>>,
    Seq<Seq<char>>,
    Seq<int>,
))
    requires
        call_ensures(ObjectPath::<M>::introspect, (o, t), r),
    ensures
        r@
            == "<!DOCTYPE node PUBLIC \"-//freedesktop//DTD D-BUS Object Introspection 1.0//EN\" \"http://www.freedesktop.org/standards/dbus/1.0/introspect.dtd\">\n<node name=\""@
            + o@.name + "\">\n"@ + joined(x.0) + joined(x.1) + "</node>"@,
        are_interfaces(x.0, o@.ifaces),
        are_nodes(x.1, t@, o@.name, x.2),
        are_next(t@, o@.name, x.2),
{
    law_object_text(o@, t@)
}

/// The list of managed objects that an object path gives has an entry for each object path of
/// the tree that is below it, at any depth, and one for itself.
pub proof fn law_list_managed_objects<M>(o: &ObjectPath<M>, t: &Objects<M>, r: MessageItem)
    requires
        call_ensures(ObjectPath::<M>::get_managed_objects, (o, t), r),
        t@.valid(),
    ensures
        exists|ks: Seq<int>|
            {
                &&& #[trigger] are_below(t@, o@.name, ks)
                &&& r@ matches Item::Array(v, sig)
                &&& sig == "{oa{sa{sv}}}"@
                &&& v.len() == ks.len() + 1
                &&& is_object_entry(v[ks.len() as int], o@)
                &&& forall|j: int|
                    0 <= j < ks.len() ==> is_object_entry(#[trigger] v[j], t@.paths[ks[j]])
            },
{
    law_managed_objects(t@, o@);
}

/// A factory makes what the types themselves make, and hands callbacks on as they are.
pub proof fn law_factory<M>()
    ensures
        forall|f: &Factory<M>, n: Member, cb: M, r: Method<M>| #[trigger]
            call_ensures(Factory::<M>::method, (f, n, cb), r) ==> {
                &&& r@.name == n@
                &&& r@.cb == Callback::User(Arc::new(cb))
                &&& r@.i_args.len() == 0
                &&& r@.o_args.len() == 0
                &&& r@.anns.len() == 0
            },
        forall|f: &Factory<M>, s: &str, i: MessageItem, r: Property<M>| #[trigger]
            call_ensures(Factory::<M>::property, (f, s, i), r) ==> {
                &&& r@.name == s@
                &&& r@.value == i@
                &&& r@.emits == EmitsChangedSignal::True
                &&& r@.rw == Access::Read
                &&& r@.set_cb is None
                &&& r@.owner is None
                &&& r@.anns.len() == 0
            },
        forall|f: &Factory<M>, n: IfaceName, r: Interface<M>| #[trigger]
            call_ensures(Factory::<M>::interface, (f, n), r) ==> {
                &&& r@.name == n@
                &&& r@.methods.len() == 0
                &&& r@.signals.len() == 0
                &&& r@.properties.len() == 0
                &&& r@.anns.len() == 0
            },
        forall|f: &Factory<M>, n: Path, r: ObjectPath<M>| #[trigger]
            call_ensures(Factory::<M>::object_path, (f, n), r) ==> r@.name == n@ && r@.ifaces.len()
                == 0,
        forall|f: &Factory<M>, r: Tree<M>| #[trigger]
            call_ensures(Factory::<M>::tree, (f,), r) ==> r@.paths.len() == 0,
        forall|f: &Factory<M>, n: Member, r: Signal| #[trigger]
            call_ensures(Factory::<M>::signal, (f, n), r) ==> {
                &&& r@.name == n@
                &&& r@.arguments.len() == 0
                &&& r@.owner is None
                &&& r@.anns.len() == 0
            },
{
}

/// A tree handles a call of a method with a callback of the user by asking that callback, with
/// the call as it is; what the callback gives is what is sent back.
pub proof fn law_handle<M: MCall>(
    m: &Message,
    r: Option<Vec<Message>>,
    a: int,
    b: int,
    c: int,
    cb: Arc<M>,
)
    ensures
        forall|t: &mut Tree<M>|
            {
                &&& #[trigger] call_ensures(Tree::<M>::handle, (t, m), r)
                &&& t@.answerable(m@)
                &&& t@.valid()
                &&& 0 <= a < t@.paths.len()
                &&& 0 <= b < t@.paths[a].ifaces.len()
                &&& 0 <= c < t@.paths[a].ifaces[b].methods.len()
                &&& t@.paths[a].ifaces[b].methods[c].cb == Callback::User(cb)
                &&& calls(
                    m@,
                    t@.paths[a].name,
                    t@.paths[a].ifaces[b].name,
                    t@.paths[a].ifaces[b].methods[c].name,
                )
            } ==> {
                &&& r matches Some(w)
                &&& exists|u: &mut Objects<M>, x: MethodResult|
                    {
                        &&& #[trigger] call_ensures(
                            M::call_method,
                            (&*cb, m, Callee::at(&m.path->0), u),
                            x,
                        )
                        &&& u@ == t@
                        &&& x matches Ok(v) ==> msgs_view(w@) == msgs_view(v@)
                        &&& x matches Err(e) ==> w@.len() == 1 && is_error(
                            msgs_view(w@)[0],
                            m@,
                            e@.name,
                            e@.text,
                        )
                    }
            },
{
    assert forall|t: &mut Tree<M>|
        {
            &&& #[trigger] call_ensures(Tree::<M>::handle, (t, m), r)
            &&& t@.answerable(m@)
            &&& t@.valid()
            &&& 0 <= a < t@.paths.len()
            &&& 0 <= b < t@.paths[a].ifaces.len()
            &&& 0 <= c < t@.paths[a].ifaces[b].methods.len()
            &&& t@.paths[a].ifaces[b].methods[c].cb == Callback::User(cb)
            &&& calls(
                m@,
                t@.paths[a].name,
                t@.paths[a].ifaces[b].name,
                t@.paths[a].ifaces[b].methods[c].name,
            )
        } implies {
        &&& r matches Some(w)
        &&& exists|u: &mut Objects<M>, x: MethodResult|
            {
                &&& #[trigger] call_ensures(
                    M::call_method,
                    (&*cb, m, Callee::at(&m.path->0), u),
                    x,
                )
                &&& u@ == t@
                &&& x matches Ok(v) ==> msgs_view(w@) == msgs_view(v@)
                &&& x matches Err(e) ==> w@.len() == 1 && is_error(
                    msgs_view(w@)[0],
                    m@,
                    e@.name,
                    e@.text,
                )
            }
    } by {
        law_call_reaches_callback(t@, m@, a, b, c, cb);
        let w = r->0;
        assert(msgs_view(w@).len() == w@.len());
    }
}

/// Names are made exactly of texts that are such names, and are those texts; others are refused
/// with what they should have been.
pub proof fn law_make_names(s: &str)
    ensures
        forall|r: Result<Path, String>| #[trigger]
            call_ensures(Path::new, (s,), r) ==> {
                &&& r is Ok <==> crate::names::valid_path(s@)
                &&& r matches Ok(n) ==> n@ == s@
                &&& r matches Err(e) ==> e@ == "Object path was not valid: '"@ + s@ + "'"@
            },
        forall|r: Result<IfaceName, String>| #[trigger]
            call_ensures(IfaceName::new, (s,), r) ==> {
                &&& r is Ok <==> crate::names::valid_iface(s@)
                &&& r matches Ok(n) ==> n@ == s@
                &&& r matches Err(e) ==> e@ == "Interface name was not valid: '"@ + s@ + "'"@
            },
        forall|r: Result<Member, String>| #[trigger]
            call_ensures(Member::new, (s,), r) ==> {
                &&& r is Ok <==> crate::names::valid_member(s@)
                &&& r matches Ok(n) ==> n@ == s@
                &&& r matches Err(e) ==> e@ == "Member name was not valid: '"@ + s@ + "'"@
            },
        forall|r: Result<ErrorName, String>| #[trigger]
            call_ensures(ErrorName::new, (s,), r) ==> {
                &&& r is Ok <==> crate::names::valid_iface(s@)
                &&& r matches Ok(n) ==> n@ == s@
                &&& r matches Err(e) ==> e@ == "Error name was not valid: '"@ + s@ + "'"@
            },
{
    reveal_strlit("Object path");
    reveal_strlit("Interface name");
    reveal_strlit("Member name");
    reveal_strlit("Error name");
    reveal_strlit(" was not valid: '");
    reveal_strlit("Object path was not valid: '");
    reveal_strlit("Interface name was not valid: '");
    reveal_strlit("Member name was not valid: '");
    reveal_strlit("Error name was not valid: '");
    assert("Object path"@ + " was not valid: '"@ =~= "Object path was not valid: '"@);
    assert("Interface name"@ + " was not valid: '"@ =~= "Interface name was not valid: '"@);
    assert("Member name"@ + " was not valid: '"@ =~= "Member name was not valid: '"@);
    assert("Error name"@ + " was not valid: '"@ =~= "Error name was not valid: '"@);
}

/// Reading a property of an object path by a call gives the one reply with its value in a
/// variant, where the remote side may read it.
pub proof fn law_prop_get<M>(o: &ObjectPath<M>, m: &Message, r: MethodResult, i: int, p: int)
    requires
        call_ensures(ObjectPath::<M>::prop_get, (o, m), r),
        o@.valid(),
        0 <= i < o@.ifaces.len(),
        0 <= p < o@.ifaces[i].properties.len(),
        m@.items.len() >= 2,
        m@.items[0] == Item::Str(o@.ifaces[i].name),
        m@.items[1] == Item::Str(o@.ifaces[i].properties[p].name),
    ensures
        o@.ifaces[i].properties[p].rw != Access::Write ==> {
            &&& r matches Ok(v)
            &&& v@.len() == 1
            &&& is_reply(
                v@[0]@,
                m@,
                seq![Item::Variant(Box::new(o@.ifaces[i].properties[p].value))],
            )
        },
        o@.ifaces[i].properties[p].rw == Access::Write ==> (r matches Err(e) && e@.name
            == "org.freedesktop.DBus.Error.Failed"@ && e@.text == "Property "@
            + o@.ifaces[i].properties[p].name + " is write only"@),
{
    let f = o@.ifaces[i];
    assert(f.valid());
    crate::sorted::lemma_find_at(o@.ifaces, i);
    crate::sorted::lemma_find_at(f.properties, p);
    if let Ok(v) = r {
        assert(msgs_view(v@).len() == v@.len());
        if v@.len() > 0 {
            assert(msgs_view(v@)[0] == v@[0]@);
        }
        assert(Seq::<Item>::empty().push(Item::Variant(Box::new(f.properties[p].value))) =~= seq![
            Item::Variant(Box::new(f.properties[p].value)),
        ]);
    }
}

/// Reading all properties of an interface of an object path by a call gives the one reply with
/// all names and values, where the remote side may read all of them.
pub proof fn law_prop_get_all<M>(o: &ObjectPath<M>, m: &Message, r: MethodResult, i: int)
    requires
        call_ensures(ObjectPath::<M>::prop_get_all, (o, m), r),
        o@.valid(),
        0 <= i < o@.ifaces.len(),
        m@.items.len() >= 1,
        m@.items[0] == Item::Str(o@.ifaces[i].name),
        forall|p: int|
            0 <= p < o@.ifaces[i].properties.len()
                ==> (#[trigger] o@.ifaces[i].properties[p]).rw != Access::Write,
    ensures
        r matches Ok(v) && v@.len() == 1 && is_reply(v@[0]@, m@, v@[0]@.items)
            && v@[0]@.items.len() == 1 && (v@[0]@.items[0] matches Item::Array(es, sig) && sig
            == "{sv}"@ && es.len() == o@.ifaces[i].properties.len() && forall|p: int|
            0 <= p < es.len() ==> is_value_entry(
                #[trigger] es[p],
                o@.ifaces[i].properties[p].name,
                o@.ifaces[i].properties[p].value,
            )),
{
    let f = o@.ifaces[i];
    assert(f.valid());
    crate::sorted::lemma_find_at(o@.ifaces, i);
    crate::laws::law_read_all(f.properties);
    if let Ok(v) = r {
        assert(msgs_view(v@).len() == v@.len());
        if v@.len() > 0 {
            assert(msgs_view(v@)[0] == v@[0]@);
        }
    }
}

/// A tree and its objects do the same about a message: what is to be done, and what is left, are
/// settled by the objects and the message.
pub proof fn law_dispatch_alike<M>(m: &Message, r: Dispatch<M>, q: Dispatch<M>)
    ensures
        forall|t: &mut Tree<M>, u: &mut Objects<M>| #[trigger]
            call_ensures(Tree::<M>::dispatch, (t, m), r) && #[trigger] call_ensures(
                Objects::<M>::dispatch,
                (u, m),
                q,
            ) && t@ == u@ ==> r@ == q@ && final(t)@ == final(u)@ && r@ == t@.dispatch(m@)
                && final(t)@ == t@.after(m@),
{
}

/// What handling a message without a callback gives, and leaves, is what was found to be done.
pub proof fn law_handle_alike<M: MCall>(m: &Message, r: Option<Vec<Message>>, v: Seq<Msg>)
    ensures
        forall|t: &mut Tree<M>| #[trigger]
            call_ensures(Tree::<M>::handle, (t, m), r) && t@.answerable(m@) ==> {
                &&& t@.dispatch(m@) == crate::dispatch::DispatchV::<M>::Reply(v) ==> (
                r matches Some(w) && msgs_view(w@) == v && final(t)@ == t@.after(m@))
                &&& t@.dispatch(m@) is Pass ==> r is None && final(t)@ == t@
            },
        forall|t: &mut Objects<M>| #[trigger]
            call_ensures(Objects::<M>::handle, (t, m), r) && t@.answerable(m@) ==> {
                &&& t@.dispatch(m@) == crate::dispatch::DispatchV::<M>::Reply(v) ==> (
                r matches Some(w) && msgs_view(w@) == v && final(t)@ == t@.after(m@))
                &&& t@.dispatch(m@) is Pass ==> r is None && final(t)@ == t@
            },
{
}

/// A reference that is handed out refers to what was added; the interface and the name are those
/// that it was added to and has.
pub proof fn law_handed_out_references<M>(p: Property<M>, s: Signal, r: EntryRef)
    ensures
        forall|i: &mut Interface<M>| #[trigger]
            call_ensures(Interface::<M>::add_p_ref, (i, p), r) && i@.valid() ==> {
                &&& r@.iface == i@.name
                &&& r@.name == p@.name
                &&& final(i)@.referred_p(r@.name, r@.turn) == Some(p@)
                &&& find(final(i)@.properties, p@.name) == Some(p@)
            },
        forall|i: &mut Interface<M>| #[trigger]
            call_ensures(Interface::<M>::add_s_ref, (i, s), r) && i@.valid() ==> {
                &&& r@.iface == i@.name
                &&& r@.name == s@.name
                &&& final(i)@.referred_s(r@.name, r@.turn) == Some(s@)
                &&& find(final(i)@.signals, s@.name) == Some(s@)
            },
{
    assert forall|i: &mut Interface<M>| #[trigger]
        call_ensures(Interface::<M>::add_p_ref, (i, p), r) && i@.valid() implies {
        &&& r@.iface == i@.name
        &&& r@.name == p@.name
        &&& final(i)@.referred_p(r@.name, r@.turn) == Some(p@)
        &&& find(final(i)@.properties, p@.name) == Some(p@)
    } by {
        crate::sorted::lemma_put_find(i@.properties, p@);
        crate::sorted::lemma_nth_named(final(i)@.old_properties, r@.name, r@.turn);
    }
    assert forall|i: &mut Interface<M>| #[trigger]
        call_ensures(Interface::<M>::add_s_ref, (i, s), r) && i@.valid() implies {
        &&& r@.iface == i@.name
        &&& r@.name == s@.name
        &&& final(i)@.referred_s(r@.name, r@.turn) == Some(s@)
        &&& find(final(i)@.signals, s@.name) == Some(s@)
    } by {
        crate::sorted::lemma_put_find(i@.signals, s@);
        crate::sorted::lemma_nth_named(final(i)@.old_signals, r@.name, r@.turn);
    }
}

/// Setting a property of a tree by a reference: nothing happens where it refers to none, or to
/// a constant one of an object path; otherwise the property has the value, other references
/// refer to what they did, and the messages announce the change.
pub proof fn law_set_in_tree<M>(
    path: &str,
    e: &EntryRef,
    x: MessageItem,
    r: Option<Result<Vec<Message>, ()>>,
    other: Seq<char>,
    f: RefV,
)
    ensures
        forall|t: &mut Tree<M>| #[trigger]
            call_ensures(Tree::<M>::set_property, (t, path, e, x), r) && t@.valid() ==> {
                &&& r is None <==> t@.referred_p(path@, e@) is None
                &&& r is None ==> final(t)@ == t@
                &&& t@.referred_p(path@, e@) matches Some(p) ==> {
                    &&& r matches Some(y)
                    &&& y is Err <==> p.emits == EmitsChangedSignal::Const && p.owner is Some
                    &&& y is Err ==> final(t)@ == t@
                    &&& y matches Ok(v) ==> {
                        &&& final(t)@.referred_p(path@, e@) == Some(PropV { value: x@, ..p })
                        &&& msgs_view(v@) == p.announcement(x@)
                        &&& other != path@ || f.iface != e@.iface || f.name != e@.name || f.turn
                            != e@.turn ==> final(t)@.referred_p(other, f) == t@.referred_p(other, f)
                    }
                }
            },
{
    assert forall|t: &mut Tree<M>| #[trigger]
        call_ensures(Tree::<M>::set_property, (t, path, e, x), r) && t@.valid() implies {
        &&& r is None <==> t@.referred_p(path@, e@) is None
        &&& r is None ==> final(t)@ == t@
        &&& t@.referred_p(path@, e@) matches Some(p) ==> {
            &&& r matches Some(y)
            &&& y is Err <==> p.emits == EmitsChangedSignal::Const && p.owner is Some
            &&& y is Err ==> final(t)@ == t@
            &&& y matches Ok(v) ==> {
                &&& final(t)@.referred_p(path@, e@) == Some(PropV { value: x@, ..p })
                &&& msgs_view(v@) == p.announcement(x@)
                &&& other != path@ || f.iface != e@.iface || f.name != e@.name || f.turn != e@.turn
                    ==> final(t)@.referred_p(other, f) == t@.referred_p(other, f)
            }
        }
    } by {
        if t@.referred_p(path@, e@) is Some {
            crate::parts::law_set_by_reference(t@, path@, e@, x@, other, f);
            crate::parts::law_settable(t@.referred_p(path@, e@)->0);
        }
    }
}

/// A registration is of all object paths of the tree, in their order, from the first on.
pub proof fn law_set_registered<M>(t: &Tree<M>, b: bool, r: Registration, k: int)
    requires
        call_ensures(Tree::<M>::set_registered, (t, b), r),
    ensures
        r@.names.len() == t@.paths.len(),
        0 <= k < t@.paths.len() ==> r@.names[k] == t@.paths[k].name,
        r@.done == 0,
        r@.registers == b,
        r@.undone is None,
{
    crate::parts::law_path_names(t@, k);
}

/// The steps of a registration: the next path is registered, or unregistered, unless
/// registering the one before failed; at the end it says that all went well.
pub proof fn law_step_registration(failed: bool, r: Registering)
    ensures
        forall|s: &mut Registration| #[trigger]
            call_ensures(Registration::step, (s, failed), r) && s@.undone is None && !(failed
                && s@.registers) ==> {
                &&& s@.done < s@.names.len() ==> {
                    &&& final(s)@ == (RegistrationV { done: s@.done + 1, ..s@ })
                    &&& s@.registers ==> r@ == RegisteringV::Register(s@.names[s@.done])
                    &&& !s@.registers ==> r@ == RegisteringV::Unregister(s@.names[s@.done])
                }
                &&& s@.done == s@.names.len() ==> r@ == RegisteringV::Finished(true) && final(s)@
                    == s@
            },
        forall|s: &mut Registration| #[trigger]
            call_ensures(Registration::step, (s, failed), r) && s@.undone is None && failed
                && s@.registers ==> {
                &&& s@.done > 1 ==> r@ == RegisteringV::Unregister(s@.names[0])
                &&& s@.done <= 1 ==> r@ == RegisteringV::Finished(false)
            },
{
}

/// An argument of a call is taken where it is there and is a string, or a variant.
pub proof fn law_get_arguments(m: &Message, n: usize)
    ensures
        forall|r: Result<&str, MethodErr>| #[trigger]
            call_ensures(crate::args::get_str, (m, n), r) ==> {
                &&& r is Ok <==> n < m@.items.len() && m@.items[n as int] is Str
                &&& r matches Ok(s) ==> m@.items[n as int] == Item::Str(s@)
            },
        forall|r: Result<&MessageItem, MethodErr>| #[trigger]
            call_ensures(crate::args::get_variant, (m, n), r) ==> {
                &&& r is Ok <==> n < m@.items.len() && m@.items[n as int] is Variant
                &&& r matches Ok(x) ==> m@.items[n as int] == Item::Variant(Box::new(x@))
            },
{
}

/// The children of an object path are those of the tree below it; with `direct_only`, those one
/// element below it.
pub proof fn law_list_children<M>(
    t: &Objects<M>,
    o: &ObjectPath<M>,
    direct_only: bool,
    r: Vec<&ObjectPath<M>>,
    k: int,
)
    requires
        call_ensures(Objects::<M>::children, (t, o, direct_only), r),
        t@.valid(),
        0 <= k < t@.paths.len(),
    ensures
        (exists|j: int| 0 <= j < r@.len() && (#[trigger] r@[j])@ == t@.paths[k]) <==> {
            let name = t@.paths[k].name;
            &&& is_below(o@.name, name)
            &&& direct_only ==> !name.skip(o@.name.len() as int + 1).contains('/')
        },
{
    let cs = t@.children(o@.name, direct_only);
    let name = t@.paths[k].name;
    crate::laws::law_children(t@, o@.name, direct_only, t@.paths[k]);
    crate::answers::lemma_is_below(o@.name, name);
    assert(t@.paths.contains(t@.paths[k]));
    assert(crate::tree::objects_view(r@) == cs);
    if cs.contains(t@.paths[k]) {
        let j = choose|j: int| 0 <= j < cs.len() && cs[j] == t@.paths[k];
        assert(crate::tree::objects_view(r@)[j] == r@[j]@);
    }
    if exists|j: int| 0 <= j < r@.len() && (#[trigger] r@[j])@ == t@.paths[k] {
        let j = choose|j: int| 0 <= j < r@.len() && (#[trigger] r@[j])@ == t@.paths[k];
        assert(crate::tree::objects_view(r@)[j] == r@[j]@);
        assert(cs[j] == t@.paths[k]);
    }
}

/// An error says what is wrong by its name, and in words.
pub proof fn law_make_errors(a: &str)
    ensures
        forall|r: MethodErr| #[trigger]
            call_ensures(MethodErr::no_arg, (), r) ==> r@.name
                == "org.freedesktop.DBus.Error.InvalidArgs"@ && r@.text == "Not enough arguments"@,
        forall|r: MethodErr| #[trigger]
            call_ensures(MethodErr::invalid_arg, (a,), r) ==> r@.name
                == "org.freedesktop.DBus.Error.InvalidArgs"@ && r@.text == "Invalid argument "@
                + a@,
        forall|r: MethodErr| #[trigger]
            call_ensures(MethodErr::failed::<str>, (a,), r) ==> r@.name
                == "org.freedesktop.DBus.Error.Failed"@,
        forall|r: MethodErr| #[trigger]
            call_ensures(MethodErr::no_interface::<str>, (a,), r) ==> r@.name
                == "org.freedesktop.DBus.Error.UnknownInterface"@,
        forall|r: MethodErr| #[trigger]
            call_ensures(MethodErr::no_property::<str>, (a,), r) ==> r@.name
                == "org.freedesktop.DBus.Error.UnknownProperty"@,
        forall|r: MethodErr| #[trigger]
            call_ensures(MethodErr::ro_property::<str>, (a,), r) ==> r@.name
                == "org.freedesktop.DBus.Error.PropertyReadOnly"@,
{
}

/// What a call of a method with a callback of the user comes to is what the callback gives, for
/// the call as it is and for the object that was called.
pub proof fn law_call_method<M: MCall>(x: &Method<M>, m: &Message, r: MethodResult, cb: Arc<M>)
    ensures
        forall|o: &mut ObjectPath<M>, t: &mut Tree<M>| #[trigger]
            call_ensures(Method::<M>::call, (x, m, o, t), r) && x@.cb == Callback::User(cb) ==> {
                &&& final(o)@ == o@
                &&& exists|p: Callee<M>, u: &mut Objects<M>, y: MethodResult|
                    {
                        &&& #[trigger] call_ensures(M::call_method, (&*cb, m, p, u), y)
                        &&& p.path@ == o@.name
                        &&& p.object matches Some(q)
                        &&& q@ == o@
                        &&& u@ == t@
                        &&& r == y
                    }
            },
{
}

/// A server passes on what the tree does not take, as it is, and leaves the tree as it is; of
/// what the tree takes, it gives what is to be sent back.
pub proof fn law_serve<M: MCall, X>(n: Option<ConnectionItem<X>>, r: ServerStep<X>, v: Seq<Msg>)
    ensures
        forall|s: &mut TreeServer<M>| #[trigger]
            call_ensures(TreeServer::<M>::next::<X>, (s, n), r) && !(
            n matches Some(ConnectionItem::MethodCall(m)) && s.tree@.dispatch(m@) !is Pass) ==> r
                == ServerStep::Pass(n) && final(s).tree@ == s.tree@,
        forall|s: &mut TreeServer<M>| #[trigger]
            call_ensures(TreeServer::<M>::next::<X>, (s, n), r) && (
            n matches Some(ConnectionItem::MethodCall(m)) && s.tree@.dispatch(m@)
                == crate::dispatch::DispatchV::<M>::Reply(v)) ==> (r matches ServerStep::Send(w)
                && msgs_view(w@) == v && final(s).tree@ == s.tree@.after(
                n->0->MethodCall_0@,
            )),
{
}

} // verus!
