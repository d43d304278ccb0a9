//! Object paths.
use std::sync::Arc;
use vstd::prelude::*;
use crate::args::{get_str, str_arg};
use crate::argument::ArgV;
use crate::error::{ErrV, MethodErr, MethodResult, result_view};
use crate::interface::{EntryRef, EntryV, IfaceV, Interface, RefV};
use crate::item::{Item, MessageItem, item_view, items_view, lemma_items_push, lemma_items_view};
use crate::message::{Message, Msg, msgs_view, one, opt_view};
use crate::method::{Callback, Method, MethodV};
use crate::names::{ErrorName, IfaceName, Member, Path, refusal, valid_iface, valid_path};
use crate::property::{Access, PropV, Property, RemoteSet};
use crate::signal::{OwnerV, Signal, SignalV};
use crate::sorted::{Keyed, Named, Sorted, find, lemma_find_at, lemma_found, lemma_nth_named, lemma_put_all, lemma_put_find, lemma_put_find_other, lemma_put_same, lemma_put_sound, lemma_put_update, named, nth_named, put, sound};
use crate::text::{debug_text, has_char, text_debug};
use crate::xml::{gives, gives_one, introspect_map, map_xml};

verus! {

/// An object path with its interfaces.
#[derive(Debug)]
pub struct ObjectPath<M> {
    name: Path,
    ifaces: Sorted<Interface<M>>,
}

/// The mathematical value of an `ObjectPath`.
pub struct ObjectV<M> {
    pub name: Seq<char>,
    pub ifaces: Seq<IfaceV<M>>,
}

impl<M> View for ObjectPath<M> {
    type V = ObjectV<M>;

    closed spec fn view(&self) -> ObjectV<M> {
        ObjectV { name: self.name@, ifaces: self.ifaces@ }
    }
}

impl<M> Keyed for ObjectV<M> {
    open spec fn key(self) -> Seq<char> {
        self.name
    }

    open spec fn valid(self) -> bool {
        &&& valid_path(self.name)
        &&& sound(self.ifaces)
        &&& self.owns()
        &&& self.served()
    }
}

impl<M> Named for ObjectPath<M> {
    fn key_text(&self) -> &str {
        self.name.as_str()
    }

    fn assure(&self) {
        proof {
            use_type_invariant(self);
        }
        self.ifaces.assure();
        let _ = self.name.as_str();
    }
}

/// A named argument that a method declares.
pub open spec fn named_arg(name: Seq<char>, sig: Seq<char>) -> ArgV {
    ArgV { name: Some(name), sig }
}

/// The method that reads a property.
pub open spec fn get_method<M>() -> MethodV<M> {
    MethodV {
        i_args: seq![named_arg("interface_name"@, "s"@), named_arg("property_name"@, "s"@)],
        o_args: seq![named_arg("value"@, "v"@)],
        ..MethodV::plain("Get"@, Callback::PropGet)
    }
}

/// The method that reads all properties of an interface.
pub open spec fn get_all_method<M>() -> MethodV<M> {
    MethodV {
        i_args: seq![named_arg("interface_name"@, "s"@)],
        o_args: seq![named_arg("props"@, "a{sv}"@)],
        ..MethodV::plain("GetAll"@, Callback::PropGetAll)
    }
}

/// The method that sets a property.
pub open spec fn set_method<M>() -> MethodV<M> {
    MethodV {
        i_args: seq![
            named_arg("interface_name"@, "s"@),
            named_arg("property_name"@, "s"@),
            named_arg("value"@, "v"@),
        ],
        ..MethodV::plain("Set"@, Callback::PropSet)
    }
}

/// The interface that gives access to properties.
pub open spec fn properties_iface<M>() -> IfaceV<M> {
    IfaceV::plain("org.freedesktop.DBus.Properties"@).add_m(get_method()).add_m(
        get_all_method(),
    ).add_m(set_method())
}

/// The method that describes an object.
pub open spec fn introspect_method<M>() -> MethodV<M> {
    MethodV {
        o_args: seq![named_arg("xml_data"@, "s"@)],
        ..MethodV::plain("Introspect"@, Callback::Introspect)
    }
}

/// The method that lists the objects below an object.
pub open spec fn managed_objects_method<M>() -> MethodV<M> {
    MethodV {
        o_args: seq![ArgV { name: None, sig: "a{oa{sa{sv}}}"@ }],
        ..MethodV::plain("GetManagedObjects"@, Callback::ManagedObjects)
    }
}

/// The interface that describes an object.
pub open spec fn introspectable_iface<M>() -> IfaceV<M> {
    IfaceV::plain("org.freedesktop.DBus.Introspectable"@).add_m(introspect_method())
}

/// The interface that lists the objects below an object.
pub open spec fn object_manager_iface<M>() -> IfaceV<M> {
    IfaceV::plain("org.freedesktop.DBus.ObjectManager"@).add_m(managed_objects_method())
}

/// A property's value in a list of properties.
pub open spec fn prop_entry<M>(p: PropV<M>) -> Item {
    Item::DictEntry(
        Box::new(Item::Str(p.name)),
        Box::new(Item::Variant(Box::new(p.value))),
    )
}

/// What the remote side reads of a list of properties: all their values, or the refusal of
/// the first that cannot be read.
pub open spec fn read_all<M>(props: Seq<PropV<M>>) -> Result<Seq<Item>, ErrV>
    decreases props.len(),
{
    if props.len() == 0 {
        Ok(Seq::empty())
    } else {
        match (read_all(props.drop_last()), props.last().read()) {
            (Err(e), _) => Err(e),
            (Ok(_), Err(e)) => Err(e),
            (Ok(v), Ok(_)) => Ok(v.push(prop_entry(props.last()))),
        }
    }
}

/// The first property that the remote side cannot read.
pub open spec fn first_unreadable<M>(props: Seq<PropV<M>>) -> Option<PropV<M>>
    decreases props.len(),
{
    if props.len() == 0 {
        None
    } else {
        match first_unreadable(props.drop_last()) {
            Some(p) => Some(p),
            None => if props.last().rw == Access::Write {
                Some(props.last())
            } else {
                None
            },
        }
    }
}

impl<M> ObjectV<M> {
    /// An object path with no interfaces.
    pub open spec fn plain(name: Seq<char>) -> ObjectV<M> {
        ObjectV { name, ifaces: Seq::empty() }
    }

    /// All of this object path but the values of its properties.
    pub open spec fn shape(self) -> ObjectV<M> {
        ObjectV { ifaces: self.ifaces.map_values(|i: IfaceV<M>| i.shape()), ..self }
    }

    /// All signals and properties of the interfaces belong to this object path.
    pub open spec fn owns(self) -> bool {
        forall|i: int| 0 <= i < self.ifaces.len() ==> (#[trigger] self.ifaces[i]).belongs(self.name)
    }

    /// Where there are properties, there is the interface that gives access to them.
    pub open spec fn served(self) -> bool {
        forall|i: int|
            0 <= i < self.ifaces.len() && (#[trigger] self.ifaces[i]).properties.len() > 0
                ==> named(self.ifaces, "org.freedesktop.DBus.Properties"@)
    }

    /// This object path with the interface `i`, as it is.
    pub open spec fn with_iface(self, i: IfaceV<M>) -> ObjectV<M> {
        ObjectV { ifaces: put(self.ifaces, i), ..self }
    }

    /// This object path with the interface that gives access to properties.
    pub open spec fn with_property_handler(self) -> ObjectV<M> {
        if named(self.ifaces, "org.freedesktop.DBus.Properties"@) {
            self
        } else {
            self.with_iface(properties_iface())
        }
    }

    /// This object path with one more interface, whose signals and properties belong to it.
    pub open spec fn add(self, p: IfaceV<M>) -> ObjectV<M> {
        if p.properties.len() > 0 {
            self.with_property_handler().with_iface(p.owned(self.name))
        } else {
            self.with_iface(p.owned(self.name))
        }
    }

    /// This object path with introspection support.
    pub open spec fn introspectable(self) -> ObjectV<M> {
        if named(self.ifaces, "org.freedesktop.DBus.Introspectable"@) {
            self
        } else {
            self.add(introspectable_iface())
        }
    }

    /// This object path with ObjectManager support.
    pub open spec fn object_manager(self) -> ObjectV<M> {
        if named(self.ifaces, "org.freedesktop.DBus.ObjectManager"@) {
            self
        } else {
            self.add(object_manager_iface())
        }
    }

    /// The interface that a call names.
    pub open spec fn iface_arg(self, i: Seq<char>) -> Result<IfaceV<M>, ErrV> {
        if !valid_iface(i) {
            Err(ErrV::invalid_arg(text_debug(refusal("Interface name"@, i))))
        } else {
            match find(self.ifaces, i) {
                Some(iface) => Ok(iface),
                None => Err(ErrV::no_interface(i)),
            }
        }
    }

    /// The property that the arguments of a call name, with its interface.
    pub open spec fn prop_arg(self, items: Seq<Item>) -> Result<(IfaceV<M>, PropV<M>), ErrV> {
        match (str_arg(items, 0), str_arg(items, 1)) {
            (Err(e), _) => Err(e),
            (Ok(_), Err(e)) => Err(e),
            (Ok(i), Ok(p)) => match self.iface_arg(i) {
                Err(e) => Err(e),
                Ok(iface) => match iface.property(p) {
                    Some(prop) => Ok((iface, prop)),
                    None => Err(ErrV::no_property(p)),
                },
            },
        }
    }

    /// What a call to read a property comes to.
    pub open spec fn get_answer(self, m: Msg) -> Result<Seq<Msg>, ErrV> {
        match self.prop_arg(m.items) {
            Err(e) => Err(e),
            Ok((_, p)) => match p.read() {
                Err(e) => Err(e),
                Ok(v) => Ok(seq![m.method_return().append(Item::Variant(Box::new(v)))]),
            },
        }
    }

    /// What a call to read all properties of an interface comes to.
    pub open spec fn get_all_answer(self, m: Msg) -> Result<Seq<Msg>, ErrV> {
        match str_arg(m.items, 0) {
            Err(e) => Err(e),
            Ok(i) => match self.iface_arg(i) {
                Err(e) => Err(e),
                Ok(iface) => match read_all(iface.properties) {
                    Err(e) => Err(e),
                    Ok(v) => Ok(seq![m.method_return().append(Item::Array(v, "{sv}"@))]),
                },
            },
        }
    }

    /// A call to read all properties of an interface can be answered: the name of the first that
    /// cannot be read, which the answer quotes, holds no NUL.
    pub open spec fn get_all_sendable(self, m: Msg) -> bool {
        if m.items.len() > 0 {
            match m.items[0] {
                Item::Str(i) => match find(self.ifaces, i) {
                    Some(iface) => first_unreadable(iface.properties) matches Some(p)
                        ==> !p.name.contains('\0'),
                    None => true,
                },
                _ => true,
            }
        } else {
            true
        }
    }

    /// The callback that a call to set a property has to ask.
    pub open spec fn set_callback(self, m: Msg) -> Option<Arc<M>> {
        match self.prop_arg(m.items) {
            Err(_) => None,
            Ok((_, p)) => p.set_cb,
        }
    }

    /// What a call to set a property comes to, where no callback has to be asked.
    pub open spec fn set_answer(self, m: Msg) -> Result<Seq<Msg>, ErrV> {
        match self.prop_arg(m.items) {
            Err(e) => Err(e),
            Ok((_, p)) => set_reply(m, p.set_answer(m.items)),
        }
    }

    /// This object path after a call to set a property, where no callback has to be asked.
    pub open spec fn after_set(self, m: Msg) -> ObjectV<M> {
        match self.prop_arg(m.items) {
            Err(_) => self,
            Ok((i, p)) => self.with_iface(i.with_p(p.after_set(m.items))),
        }
    }

    /// The property named `e`.
    pub open spec fn property(self, e: EntryV) -> Option<PropV<M>> {
        match find(self.ifaces, e.iface) {
            Some(i) => i.property(e.name),
            None => None,
        }
    }

    /// The signal named `e`.
    pub open spec fn signal(self, e: EntryV) -> Option<SignalV> {
        match find(self.ifaces, e.iface) {
            Some(i) => find(i.signals, e.name),
            None => None,
        }
    }

    /// This object path with the property `p` in its interface named `iface`.
    pub open spec fn with_property(self, iface: Seq<char>, p: PropV<M>) -> ObjectV<M> {
        match find(self.ifaces, iface) {
            Some(i) => self.with_iface(i.with_p(p)),
            None => self,
        }
    }

    /// The property that `e` refers to.
    pub open spec fn referred_p(self, e: RefV) -> Option<PropV<M>> {
        match find(self.ifaces, e.iface) {
            Some(i) => i.referred_p(e.name, e.turn),
            None => None,
        }
    }

    /// The signal that `e` refers to.
    pub open spec fn referred_s(self, e: RefV) -> Option<SignalV> {
        match find(self.ifaces, e.iface) {
            Some(i) => i.referred_s(e.name, e.turn),
            None => None,
        }
    }

    /// This object path with the property `p`, to which `e` refers, as it is now.
    pub open spec fn with_referred_p(self, e: RefV, p: PropV<M>) -> ObjectV<M> {
        match find(self.ifaces, e.iface) {
            Some(i) => self.with_iface(i.with_referred_p(e.turn, p)),
            None => self,
        }
    }

    /// What the method that a call names does.
    pub open spec fn method_for(self, m: Msg) -> Result<Callback<M>, ErrV> {
        match m.interface {
            None => Err(unknown_interface()),
            Some(i) => match find(self.ifaces, i) {
                None => Err(unknown_interface()),
                Some(iface) => match m.member {
                    None => Err(unknown_method()),
                    Some(n) => match find(iface.methods, n) {
                        None => Err(unknown_method()),
                        Some(method) => Ok(method.cb),
                    },
                },
            },
        }
    }

    /// The introspection text of the interfaces.
    pub open spec fn ifaces_xml(self) -> Seq<char> {
        map_xml(
            self.ifaces,
            "interface"@,
            "  "@,
            self.ifaces.map_values(|i: IfaceV<M>| (Seq::<char>::empty(), i.xml())),
        )
    }
}

/// A call names an interface that the object does not have.
pub open spec fn unknown_interface() -> ErrV {
    ErrV {
        name: "org.freedesktop.DBus.Error.UnknownInterface"@,
        text: "Unknown interface"@,
    }
}

/// A call names a method that the interface does not have.
pub open spec fn unknown_method() -> ErrV {
    ErrV { name: "org.freedesktop.DBus.Error.UnknownMethod"@, text: "Unknown method"@ }
}

/// What a call to set a property comes to, where setting it came to `r`: on success the
/// reply to the call follows.
pub open spec fn set_reply(m: Msg, r: Result<Seq<Msg>, ErrV>) -> Result<Seq<Msg>, ErrV> {
    match r {
        Err(e) => Err(e),
        Ok(v) => Ok(v.push(m.method_return())),
    }
}

/// What a call to set a property comes to, where setting it came to `r`.
pub fn finish_set(m: &Message, r: MethodResult) -> (x: MethodResult)
    ensures
        result_view(x) == set_reply(m@, result_view(r)),
{
    match r {
        Err(e) => Err(e),
        Ok(v) => {
            let mut v = v;
            let ghost before = v@;
            let reply = m.method_return();
            v.push(reply);
            assert(msgs_view(v@) =~= msgs_view(before).push(reply@));
            Ok(v)
        },
    }
}

/// One more interface keeps an object path valid, where the interface is valid, belongs to the
/// object path, and its properties can be reached.
pub proof fn lemma_with_iface<M>(o: ObjectV<M>, i: IfaceV<M>)
    requires
        o.valid(),
        i.valid(),
        i.belongs(o.name),
        i.properties.len() > 0 ==> named(o.ifaces, "org.freedesktop.DBus.Properties"@)
            || i.name == "org.freedesktop.DBus.Properties"@,
    ensures
        o.with_iface(i).valid(),
{
    let after = put(o.ifaces, i);
    lemma_put_sound(o.ifaces, i);
    lemma_put_all(o.ifaces, i, |e: IfaceV<M>| e.belongs(o.name));
    lemma_put_find(o.ifaces, i);
    let handler = "org.freedesktop.DBus.Properties"@;
    if i.name != handler {
        lemma_put_find_other(o.ifaces, i, handler);
    }
    if !named(after, handler) {
        lemma_put_all(o.ifaces, i, |e: IfaceV<M>| e.properties.len() == 0);
    }
}

/// Another value for a property keeps an object path valid.
pub proof fn lemma_with_property<M>(o: ObjectV<M>, i: IfaceV<M>, p: PropV<M>)
    requires
        o.valid(),
        find(o.ifaces, i.name) == Some(i),
        p.valid(),
        i.property(p.name) is Some,
        p.owner == i.property(p.name)->0.owner,
    ensures
        i.with_p(p).valid(),
        o.with_iface(i.with_p(p)).valid(),
{
    let a = lemma_found(o.ifaces, i.name);
    let b = lemma_found(i.properties, p.name);
    lemma_put_sound(i.properties, p);
    lemma_put_all(
        i.properties,
        p,
        |e: PropV<M>| e.owner == Some(OwnerV { path: o.name, iface: i.name }),
    );
    lemma_with_iface(o, i.with_p(p));
}

/// Another value for a property, replaced or not, keeps an object path valid.
pub proof fn lemma_with_referred<M>(
    o: ObjectV<M>,
    i: IfaceV<M>,
    name: Seq<char>,
    turn: nat,
    p: PropV<M>,
)
    requires
        o.valid(),
        find(o.ifaces, i.name) == Some(i),
        i.referred_p(name, turn) matches Some(q) && p == q.with_value(p.value),
    ensures
        p.name == name,
        i.with_referred_p(turn, p).valid(),
        o.with_iface(i.with_referred_p(turn, p)).valid(),
{
    let a = lemma_found(o.ifaces, i.name);
    lemma_nth_named(i.old_properties, name, turn);
    if nth_named(i.old_properties, name, turn) is None {
        let b = lemma_found(i.properties, name);
        lemma_with_property(o, i, p);
    } else {
        let j = i.with_referred_p(turn, p);
        assert(j.belongs(o.name)) by {
            assert(i.belongs(o.name));
            assert(j.signals == i.signals && j.properties == i.properties);
        }
        lemma_with_iface(o, j);
    }
}

impl<M> ObjectPath<M> {
    #[verifier::type_invariant]
    closed spec fn inv(self) -> bool {
        self@.owns() && self@.served()
    }

    /// Takes all interfaces out.
    fn take(&mut self) -> (r: Sorted<Interface<M>>)
        ensures
            final(self)@ == ObjectV::<M>::plain(old(self)@.name),
            r@ == old(self)@.ifaces,
            old(self)@.valid(),
    {
        proof {
            use_type_invariant(&*self);
        }
        self.assure();
        let mut ifaces: Sorted<Interface<M>> = Sorted::new();
        std::mem::swap(&mut ifaces, &mut self.ifaces);
        ifaces
    }

    /// An object path with no interfaces.
    pub fn new(name: Path) -> (r: Self)
        ensures
            r@ == ObjectV::<M>::plain(name@),
    {
        ObjectPath { name, ifaces: Sorted::new() }
    }

    /// The path.
    pub fn name(&self) -> (r: &Path)
        ensures
            r@ == self@.name,
    {
        &self.name
    }

    /// The interface named `name`.
    pub fn interface(&self, name: &str) -> (r: Option<&Interface<M>>)
        ensures
            opt_view(r) == find(self@.ifaces, name@),
    {
        self.ifaces.get(name)
    }

    /// The interfaces, in the order of their names.
    pub fn interfaces(&self) -> (r: &Sorted<Interface<M>>)
        ensures
            r@ == self@.ifaces,
    {
        &self.ifaces
    }

    /// The interface that a call names.
    fn iface_arg(&self, name: &str) -> (r: Result<&Interface<M>, MethodErr>)
        ensures
            match r {
                Ok(i) => self@.iface_arg(name@) == Ok::<IfaceV<M>, ErrV>(i@),
                Err(e) => self@.iface_arg(name@) == Err::<IfaceV<M>, ErrV>(e@),
            },
    {
        match IfaceName::new(name) {
            Err(e) => Err(MethodErr::invalid_arg(debug_text(e.as_str()).as_str())),
            Ok(i) => match self.ifaces.get(i.as_str()) {
                Some(iface) => Ok(iface),
                None => Err(MethodErr::no_interface(i.as_str())),
            },
        }
    }

    /// Sets a property, or gives the callback that has to be asked.
    pub fn prop_set(&mut self, m: &Message) -> (r: RemoteSet<M>)
        ensures
            match r {
                RemoteSet::Ask(cb) => old(self)@.set_callback(m@) == Some(cb) && final(self)@
                    == old(self)@,
                RemoteSet::Done(x) => old(self)@.set_callback(m@) is None && result_view(x) == old(
                    self,
                )@.set_answer(m@) && final(self)@ == old(self)@.after_set(m@),
            },
    {
        let iface_name = match get_str(m, 0) {
            Ok(s) => s,
            Err(e) => return RemoteSet::Done(Err(e)),
        };
        let prop_name = match get_str(m, 1) {
            Ok(s) => s,
            Err(e) => return RemoteSet::Done(Err(e)),
        };
        match self.iface_arg(iface_name) {
            Ok(_) => {},
            Err(e) => return RemoteSet::Done(Err(e)),
        }
        match self.ifaces.index_of(iface_name) {
            None => RemoteSet::Done(Err(MethodErr::no_interface(iface_name))),
            Some(i) => {
                let mut ifaces = self.take();
                let ghost before = ifaces@;
                let mut iface = ifaces.remove(i);
                let ghost was = iface@;
                let r = iface.remote_set(prop_name, m);
                proof {
                    lemma_put_update(before, iface@, i as int);
                    lemma_put_same(before, i as int);
                    lemma_find_at(before, i as int);
                    if r matches Some(RemoteSet::Done(_)) {
                        lemma_with_property(
                            old(self)@,
                            was,
                            was.property(prop_name@)->0.after_set(m@.items),
                        );
                    }
                }
                ifaces.insert(iface);
                self.ifaces = ifaces;
                match r {
                    None => RemoteSet::Done(Err(MethodErr::no_property(prop_name))),
                    Some(RemoteSet::Ask(cb)) => RemoteSet::Ask(cb),
                    Some(RemoteSet::Done(x)) => RemoteSet::Done(finish_set(m, x)),
                }
            },
        }
    }

    /// Reads a property.
    pub fn prop_get(&self, m: &Message) -> (r: MethodResult)
        ensures
            result_view(r) == self@.get_answer(m@),
    {
        let iface_name = match get_str(m, 0) {
            Ok(s) => s,
            Err(e) => return Err(e),
        };
        let prop_name = match get_str(m, 1) {
            Ok(s) => s,
            Err(e) => return Err(e),
        };
        let iface = match self.iface_arg(iface_name) {
            Ok(i) => i,
            Err(e) => return Err(e),
        };
        let prop = match iface.property(prop_name) {
            Some(p) => p,
            None => return Err(MethodErr::no_property(prop_name)),
        };
        let v = match prop.remote_get(m) {
            Ok(v) => v,
            Err(e) => return Err(e),
        };
        Ok(one(m.method_return().append(MessageItem::Variant(Box::new(v)))))
    }

    /// Reads all properties of an interface.
    pub fn prop_get_all(&self, m: &Message) -> (r: MethodResult)
        ensures
            result_view(r) == self@.get_all_answer(m@),
    {
        let iface_name = match get_str(m, 0) {
            Ok(s) => s,
            Err(e) => return Err(e),
        };
        let iface = match self.iface_arg(iface_name) {
            Ok(i) => i,
            Err(e) => return Err(e),
        };
        let props = iface.properties();
        let mut q: Vec<MessageItem> = Vec::new();
        let mut i: usize = 0;
        let n = props.len();
        assert(props@.take(0) =~= Seq::<PropV<M>>::empty());
        while i < n
            invariant
                i <= n,
                n == props@.len(),
                read_all(props@.take(i as int)) == Ok::<Seq<Item>, ErrV>(items_view(q@)),
                props@ == iface@.properties,
                str_arg(m@.items, 0) == Ok::<Seq<char>, ErrV>(iface_name@),
                self@.iface_arg(iface_name@) == Ok::<IfaceV<M>, ErrV>(iface@),
            decreases n - i,
        {
            let p = props.at(i);
            proof {
                assert(props@.take(i + 1).drop_last() =~= props@.take(i as int));
                assert(props@.take(i + 1).last() == p@);
            }
            match p.remote_get(m) {
                Err(e) => {
                    proof {
                        lemma_read_all_fails(props@, i as int + 1);
                    }
                    return Err(e);
                },
                Ok(v) => {
                    let entry = MessageItem::DictEntry(
                        Box::new(MessageItem::Str(p.key_text().to_owned())),
                        Box::new(MessageItem::Variant(Box::new(v))),
                    );
                    proof {
                        reveal_with_fuel(item_view, 3);
                        assert(entry@ == prop_entry(p@));
                        lemma_items_push(q@, entry);
                    }
                    q.push(entry);
                },
            }
            i = i + 1;
        }
        assert(props@.take(i as int) =~= props@);
        Ok(one(m.method_return().append(MessageItem::Array(q, "{sv}".to_owned()))))
    }
}

impl<M> ObjectPath<M> {
    /// Whether a call to read all properties of an interface can be answered.
    pub fn get_all_sendable(&self, m: &Message) -> (r: bool)
        ensures
            r == self@.get_all_sendable(m@),
    {
        proof {
            lemma_items_view(m.items@);
        }
        if m.items.len() == 0 {
            return true;
        }
        let first = &m.items[0];
        assert(m@.items[0] == first@);
        let name = match first {
            MessageItem::Str(s) => s.as_str(),
            _ => return true,
        };
        let props = match self.ifaces.get(name) {
            Some(i) => i.properties(),
            None => return true,
        };
        let mut i: usize = 0;
        let n = props.len();
        assert(props@.take(0) =~= Seq::<PropV<M>>::empty());
        while i < n
            invariant
                i <= n,
                n == props@.len(),
                first_unreadable(props@.take(i as int)) is None,
                self@.get_all_sendable(m@) == (first_unreadable(props@) matches Some(p)
                    ==> !p.name.contains('\0')),
            decreases n - i,
        {
            let p = props.at(i);
            proof {
                assert(props@.take(i + 1).drop_last() =~= props@.take(i as int));
                assert(props@.take(i + 1).last() == p@);
            }
            if p.rw() == Access::Write {
                proof {
                    lemma_first_unreadable(props@, i as int + 1);
                }
                return !has_char(p.key_text(), '\0');
            }
            i = i + 1;
        }
        assert(props@.take(i as int) =~= props@);
        true
    }
}

/// The first among the first properties that cannot be read is the first of all.
proof fn lemma_first_unreadable<M>(props: Seq<PropV<M>>, n: int)
    requires
        0 <= n <= props.len(),
        first_unreadable(props.take(n)) is Some,
    ensures
        first_unreadable(props) == first_unreadable(props.take(n)),
    decreases props.len() - n,
{
    if n == props.len() {
        assert(props.take(n) =~= props);
    } else {
        assert(props.take(n + 1).drop_last() =~= props.take(n));
        lemma_first_unreadable(props, n + 1);
    }
}

/// `m` with one more named argument that goes in.
fn with_in<M>(m: Method<M>, name: &str, sig: &str) -> (r: Method<M>)
    ensures
        r@ == (MethodV { i_args: m@.i_args.push(named_arg(name@, sig@)), ..m@ }),
{
    m.in_arg((name, sig))
}

/// `m` with one more named argument that comes out.
fn with_out<M>(m: Method<M>, name: &str, sig: &str) -> (r: Method<M>)
    ensures
        r@ == (MethodV { o_args: m@.o_args.push(named_arg(name@, sig@)), ..m@ }),
{
    m.out_arg((name, sig))
}

/// The interface that gives access to properties.
fn make_properties_iface<M>() -> (r: Interface<M>)
    ensures
        r@ == properties_iface::<M>(),
{
    let get = with_in(
        with_in(Method::new(Member::get(), Callback::PropGet), "interface_name", "s"),
        "property_name",
        "s",
    );
    let get = with_out(get, "value", "v");
    assert(get@.i_args =~= get_method::<M>().i_args);
    assert(get@.o_args =~= get_method::<M>().o_args);
    let get_all = with_in(
        Method::new(Member::get_all(), Callback::PropGetAll),
        "interface_name",
        "s",
    );
    let get_all = with_out(get_all, "props", "a{sv}");
    assert(get_all@.i_args =~= get_all_method::<M>().i_args);
    assert(get_all@.o_args =~= get_all_method::<M>().o_args);
    let set = with_in(
        with_in(Method::new(Member::set(), Callback::PropSet), "interface_name", "s"),
        "property_name",
        "s",
    );
    let set = with_in(set, "value", "v");
    assert(set@.i_args =~= set_method::<M>().i_args);
    Interface::new(IfaceName::properties()).add_m(get).add_m(get_all).add_m(set)
}

impl<M> ObjectPath<M> {
    /// Adds the interface that gives access to properties, where there is none.
    fn add_property_handler(&mut self)
        ensures
            final(self)@ == old(self)@.with_property_handler(),
    {
        if self.ifaces.get(IfaceName::properties().as_str()).is_some() {
            return;
        }
        let handler = make_properties_iface();
        handler.assure();
        let mut ifaces = self.take();
        ifaces.insert(handler);
        proof {
            lemma_with_iface(old(self)@, handler@);
        }
        self.ifaces = ifaces;
    }

    /// Adds an interface. Its signals and properties belong to this object path from now on.
    pub fn add(self, p: Interface<M>) -> (r: Self)
        ensures
            r@ == self@.add(p@),
    {
        let mut o = self;
        let mut p = p;
        o.assure();
        p.set_owner(&o.name);
        if p.properties().len() > 0 {
            o.add_property_handler();
        }
        let ghost before = o@;
        p.assure();
        let mut ifaces = o.take();
        ifaces.insert(p);
        proof {
            lemma_put_find(self@.ifaces, properties_iface());
            lemma_with_iface(before, p@);
        }
        o.ifaces = ifaces;
        o
    }

    /// Adds introspection support for this object path.
    pub fn introspectable(self) -> (r: Self)
        ensures
            r@ == self@.introspectable(),
    {
        if self.ifaces.get(IfaceName::introspectable().as_str()).is_some() {
            return self;
        }
        let m = with_out(
            Method::new(Member::introspect(), Callback::Introspect),
            "xml_data",
            "s",
        );
        assert(m@.o_args =~= introspect_method::<M>().o_args);
        self.add(Interface::new(IfaceName::introspectable()).add_m(m))
    }

    /// Adds ObjectManager support for this object path.
    ///
    /// It is not possible to add/remove interfaces while the object path belongs to a tree,
    /// hence no InterfacesAdded / InterfacesRemoved signals are sent.
    pub fn object_manager(self) -> (r: Self)
        ensures
            r@ == self@.object_manager(),
    {
        if self.ifaces.get(IfaceName::object_manager().as_str()).is_some() {
            return self;
        }
        let m: Method<M> = Method::new(Member::get_managed_objects(), Callback::ManagedObjects);
        let m = m.out_arg("a{oa{sa{sv}}}");
        assert(m@.o_args =~= managed_objects_method::<M>().o_args);
        self.add(Interface::new(IfaceName::object_manager()).add_m(m))
    }

    /// What the method that a call names does.
    pub fn method_for(&self, m: &Message) -> (r: Result<&Callback<M>, MethodErr>)
        ensures
            match r {
                Ok(cb) => self@.method_for(m@) == Ok::<Callback<M>, ErrV>(*cb),
                Err(e) => self@.method_for(m@) == Err::<Callback<M>, ErrV>(e@),
            },
    {
        let found = match &m.interface {
            Some(i) => self.ifaces.get(i.as_str()),
            None => None,
        };
        let iface = match found {
            Some(i) => i,
            None => return Err(
                MethodErr::from(
                    (ErrorName::unknown_interface(), "Unknown interface".to_owned()),
                ),
            ),
        };
        let found = match &m.member {
            Some(n) => iface.method(n.as_str()),
            None => None,
        };
        match found {
            Some(method) => Ok(method.callback()),
            None => Err(
                MethodErr::from((ErrorName::unknown_method(), "Unknown method".to_owned())),
            ),
        }
    }

    /// The introspection text of the interfaces.
    pub(crate) fn introspect_ifaces(&self) -> (r: String)
        ensures
            r@ == self@.ifaces_xml(),
    {
        let ghost i_outs = self@.ifaces.map_values(
            |i: IfaceV<M>| (Seq::<char>::empty(), i.xml()),
        );
        let of_iface = |i: &Interface<M>| -> (o: (String, String))
            ensures
                o.0@ == Seq::<char>::empty(),
                o.1@ == i@.xml(),
        {
            let contents = i.introspect();
            (String::new(), contents)
        };
        let text = introspect_map(&self.ifaces, "interface", "  ", of_iface);
        proof {
            let outs = choose|outs: Seq<(Seq<char>, Seq<char>)>| #[trigger]
                gives(of_iface, self@.ifaces, outs) && text@ == map_xml(
                    self@.ifaces,
                    "interface"@,
                    "  "@,
                    outs,
                );
            assert forall|i: int| 0 <= i < outs.len() implies outs[i] == i_outs[i] by {
                assert(gives_one::<Interface<M>, _>(of_iface, self@.ifaces[i], outs[i]));
            }
            assert(outs =~= i_outs);
        }
        text
    }

    /// The property that `e` refers to.
    pub fn property(&self, e: &EntryRef) -> (r: Option<&Property<M>>)
        ensures
            opt_view(r) == self@.referred_p(e@),
    {
        match self.ifaces.get(e.iface()) {
            Some(i) => i.referred_p(e),
            None => None,
        }
    }

    /// The signal that `e` refers to. Where it was not replaced, it belongs to this object path.
    pub fn signal(&self, e: &EntryRef) -> (r: Option<&Signal>)
        ensures
            opt_view(r) == self@.referred_s(e@),
            r matches Some(s) ==> opt_view(r) == self@.signal(e@.entry()) ==> s@.owner == Some(
                OwnerV { path: self@.name, iface: e@.iface },
            ),
    {
        self.assure();
        proof {
            if self@.signal(e@.entry()) is Some {
                let a = lemma_found(self@.ifaces, e@.iface);
                let b = lemma_found(self@.ifaces[a].signals, e@.name);
            }
        }
        match self.ifaces.get(e.iface()) {
            Some(i) => i.referred_s(e),
            None => None,
        }
    }

    /// Sets the value of the property that `e` refers to, where there is one. That of a
    /// constant property in an object path cannot be set.
    pub fn set_property(&mut self, e: &EntryRef, v: MessageItem) -> (r: Option<
        Result<Vec<Message>, ()>,
    >)
        ensures
            match r {
                None => old(self)@.referred_p(e@) is None && final(self)@ == old(self)@,
                Some(Ok(out)) => {
                    &&& old(self)@.referred_p(e@) matches Some(p)
                    &&& p.settable()
                    &&& msgs_view(out@) == p.announcement(v@)
                    &&& final(self)@ == old(self)@.with_referred_p(e@, p.with_value(v@))
                },
                Some(Err(_)) => {
                    &&& old(self)@.referred_p(e@) matches Some(p)
                    &&& !p.settable()
                    &&& final(self)@ == old(self)@
                },
            },
    {
        match self.ifaces.index_of(e.iface()) {
            None => None,
            Some(i) => {
                let mut ifaces = self.take();
                let ghost before = ifaces@;
                let mut iface = ifaces.remove(i);
                let ghost was = iface@;
                let r = iface.set_property(e, v);
                proof {
                    lemma_put_update(before, iface@, i as int);
                    lemma_put_same(before, i as int);
                    lemma_find_at(before, i as int);
                    if r matches Some(Ok(_)) {
                        lemma_with_referred(
                            old(self)@,
                            was,
                            e@.name,
                            e@.turn,
                            was.referred_p(e@.name, e@.turn)->0.with_value(v@),
                        );
                    }
                }
                ifaces.insert(iface);
                self.ifaces = ifaces;
                r
            },
        }
    }
}

/// A refusal among the first properties is the refusal of all.
pub proof fn lemma_read_all_fails<M>(props: Seq<PropV<M>>, n: int)
    requires
        0 <= n <= props.len(),
        read_all(props.take(n)) is Err,
    ensures
        read_all(props) == read_all(props.take(n)),
    decreases props.len() - n,
{
    if n == props.len() {
        assert(props.take(n) =~= props);
    } else {
        assert(props.take(n + 1).drop_last() =~= props.take(n));
        lemma_read_all_fails(props, n + 1);
    }
}

} // verus!
