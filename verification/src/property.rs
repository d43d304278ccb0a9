//! Properties.
use std::sync::Arc;
use vstd::prelude::*;
use crate::annotation::{AnnV, Annotation, add_annotation, add_deprecated, annotated, anns_xml, introspect_anns, marked_deprecated};
use crate::args::{get_variant, variant_arg};
use crate::error::{ErrV, MethodErr, MethodResult, result_view};
use crate::item::{Item, MessageItem, item_view, items_view, lemma_items_push, type_sig};
use crate::message::{Message, Msg, msgs_view, one, opt_view};
use crate::method::share;
use crate::names::{IfaceName, Member};
use crate::signal::{Owner, OwnerV};
use crate::sorted::{Keyed, Named, Sorted, sound};

verus! {

/// Whether a change of a property is announced.
#[derive(Copy, Clone, PartialEq, Eq, PartialOrd, Ord, Debug, Structural)]
pub enum EmitsChangedSignal {
    /// The signal carries the new value.
    True,
    /// The signal says that the old value no longer holds.
    Invalidates,
    /// The value does not change while the property is in a tree.
    Const,
    /// No signal.
    False,
}

/// What the remote side may do with a property.
#[derive(Copy, Clone, PartialEq, Eq, PartialOrd, Ord, Debug, Structural)]
pub enum Access {
    Read,
    ReadWrite,
    Write,
}

/// The introspection text of an access.
pub open spec fn access_text(a: Access) -> Seq<char> {
    match a {
        Access::Read => "read"@,
        Access::ReadWrite => "readwrite"@,
        Access::Write => "write"@,
    }
}

impl Access {
    /// The introspection text of an access.
    pub fn introspect(&self) -> (r: &'static str)
        ensures
            r@ == access_text(*self),
    {
        match self {
            Access::Read => "read",
            Access::ReadWrite => "readwrite",
            Access::Write => "write",
        }
    }
}

/// A property of an interface.
#[derive(Debug)]
pub struct Property<M> {
    name: String,
    value: MessageItem,
    emits: EmitsChangedSignal,
    rw: Access,
    set_cb: Option<Arc<M>>,
    owner: Option<Owner>,
    anns: Sorted<Annotation>,
}

/// The mathematical value of a `Property`.
pub struct PropV<M> {
    pub name: Seq<char>,
    pub value: Item,
    pub emits: EmitsChangedSignal,
    pub rw: Access,
    pub set_cb: Option<Arc<M>>,
    pub owner: Option<OwnerV>,
    pub anns: Seq<AnnV>,
}

impl<M> View for Property<M> {
    type V = PropV<M>;

    closed spec fn view(&self) -> PropV<M> {
        PropV {
            name: self.name@,
            value: self.value@,
            emits: self.emits,
            rw: self.rw,
            set_cb: self.set_cb,
            owner: opt_view(self.owner),
            anns: self.anns@,
        }
    }
}

impl<M> Keyed for PropV<M> {
    open spec fn key(self) -> Seq<char> {
        self.name
    }

    open spec fn valid(self) -> bool {
        &&& self.consistent()
        &&& sound(self.anns)
    }
}

impl<M> Named for Property<M> {
    fn key_text(&self) -> &str {
        self.name.as_str()
    }

    fn assure(&self) {
        proof {
            use_type_invariant(self);
        }
        self.anns.assure();
    }
}

/// What a call to set a property from the remote side comes to: a callback has to be asked,
/// or it is done.
pub enum RemoteSet<M> {
    Ask(Arc<M>),
    Done(MethodResult),
}

impl<M> PropV<M> {
    /// A property that is announced with its value when it changes, can be read only, and
    /// is not in any object path.
    pub open spec fn plain(name: Seq<char>, value: Item) -> PropV<M> {
        PropV {
            name,
            value,
            emits: EmitsChangedSignal::True,
            rw: Access::Read,
            set_cb: None,
            owner: None,
            anns: Seq::empty(),
        }
    }

    /// A property that is said to be constant is not writable.
    pub open spec fn consistent(self) -> bool {
        self.rw == Access::Read || self.emits != EmitsChangedSignal::Const
    }

    /// This property, belonging to `o`.
    pub open spec fn owned(self, o: OwnerV) -> PropV<M> {
        PropV { owner: Some(o), ..self }
    }

    /// This property with another value.
    pub open spec fn with_value(self, v: Item) -> PropV<M> {
        PropV { value: v, ..self }
    }

    /// All of this property but its value.
    pub open spec fn shape(self) -> PropV<M> {
        self.with_value(Item::Bool(false))
    }

    /// The start of the signal that announces a change, where the property is in an object
    /// path.
    pub open spec fn signal(self) -> Option<Msg> {
        match self.owner {
            Some(o) => Some(
                Msg::signal(
                    o.path,
                    "org.freedesktop.DBus.Properties"@,
                    "PropertiesChanged"@,
                ).append(Item::Str(o.iface)),
            ),
            None => None,
        }
    }

    /// The signals that announce that the property changes its value to `v`.
    pub open spec fn announcement(self, v: Item) -> Seq<Msg> {
        match (self.signal(), self.emits) {
            (Some(s), EmitsChangedSignal::True) => seq![
                s.append(
                    Item::Array(
                        seq![
                            Item::DictEntry(
                                Box::new(Item::Str(self.name)),
                                Box::new(Item::Variant(Box::new(v))),
                            ),
                        ],
                        "{sv}"@,
                    ),
                ),
            ],
            (Some(s), EmitsChangedSignal::Invalidates) => seq![
                s.append(Item::Array(Seq::empty(), "{sv}"@)).append(
                    Item::Array(seq![Item::Str(self.name)], "s"@),
                ),
            ],
            _ => Seq::empty(),
        }
    }

    /// Whether the value can be changed: that of a constant property in an object path
    /// cannot.
    pub open spec fn settable(self) -> bool {
        self.emits != EmitsChangedSignal::Const || self.owner is None
    }

    /// What the remote side reads.
    pub open spec fn read(self) -> Result<Item, ErrV> {
        if self.rw == Access::Write {
            Err(ErrV::failed("Property "@ + self.name + " is write only"@))
        } else {
            Ok(self.value)
        }
    }

    /// The value that a call with these arguments asks to set, where it may.
    pub open spec fn accepted(self, items: Seq<Item>) -> Result<Item, ErrV> {
        match variant_arg(items, 2) {
            Err(e) => Err(e),
            Ok(v) => if self.rw == Access::Read {
                Err(ErrV::ro_property(self.name))
            } else if type_sig(v) != type_sig(self.value) {
                Err(
                    ErrV::failed(
                        "Property "@ + self.name + " cannot change type to "@ + type_sig(v),
                    ),
                )
            } else {
                Ok(v)
            },
        }
    }

    /// What a call with these arguments to set this property, which has no callback, is
    /// answered.
    pub open spec fn set_answer(self, items: Seq<Item>) -> Result<Seq<Msg>, ErrV> {
        match self.accepted(items) {
            Err(e) => Err(e),
            Ok(v) => if self.settable() {
                Ok(self.announcement(v))
            } else {
                Err(ErrV::ro_property(self.name))
            },
        }
    }

    /// This property, which has no callback, after a call with these arguments to set it.
    pub open spec fn after_set(self, items: Seq<Item>) -> PropV<M> {
        match self.accepted(items) {
            Err(_) => self,
            Ok(v) => if self.settable() {
                self.with_value(v)
            } else {
                self
            },
        }
    }

    /// The further attributes in the property's introspection text.
    pub open spec fn attributes(self) -> Seq<char> {
        " type=\""@ + type_sig(self.value) + "\" access=\""@ + access_text(self.rw) + "\""@
    }

    /// The contents of the property's introspection text.
    pub open spec fn xml(self) -> Seq<char> {
        anns_xml(self.anns, "      "@)
    }
}

impl<M> Property<M> {
    #[verifier::type_invariant]
    closed spec fn inv(self) -> bool {
        self.rw == Access::Read || self.emits != EmitsChangedSignal::Const
    }

    /// A property that is announced with its value when it changes, can be read only, and
    /// is not in any object path.
    pub fn new(s: String, i: MessageItem) -> (r: Property<M>)
        ensures
            r@ == PropV::<M>::plain(s@, i@),
    {
        Property {
            name: s,
            emits: EmitsChangedSignal::True,
            rw: Access::Read,
            value: i,
            owner: None,
            anns: Sorted::new(),
            set_cb: None,
        }
    }

    /// The value.
    pub fn get_value(&self) -> (r: MessageItem)
        ensures
            r@ == self@.value,
            self@.consistent(),
    {
        proof {
            use_type_invariant(self);
        }
        self.value.clone()
    }

    /// The start of the signal that announces a change, where the property is in an object
    /// path.
    pub fn get_signal(&self) -> (r: Option<Message>)
        ensures
            opt_view(r) == self@.signal(),
    {
        match &self.owner {
            Some(o) => {
                let m = Message::signal(
                    o.path(),
                    &IfaceName::properties(),
                    &Member::properties_changed(),
                );
                Some(m.append(MessageItem::Str(o.iface().as_str().to_owned())))
            },
            None => None,
        }
    }

    /// Returns an error if "emits" is "Const", and the property is in a tree.
    /// Returns messages to be sent over a connection, this could be the PropertiesChanged
    /// signal.
    pub fn set_value(&mut self, m: MessageItem) -> (r: Result<Vec<Message>, ()>)
        ensures
            r is Ok <==> old(self)@.settable(),
            r matches Ok(v) ==> msgs_view(v@) == old(self)@.announcement(m@) && final(self)@
                == old(self)@.with_value(m@),
            r is Err ==> final(self)@ == old(self)@,
    {
        proof {
            use_type_invariant(&*self);
            reveal_with_fuel(item_view, 3);
        }
        let signal = self.get_signal();
        let out: Vec<Message> = match signal {
            None => {
                let out: Vec<Message> = Vec::new();
                assert(msgs_view(out@) =~= Seq::<Msg>::empty());
                out
            },
            Some(s) => match self.emits {
                EmitsChangedSignal::False => {
                    let out: Vec<Message> = Vec::new();
                    assert(msgs_view(out@) =~= Seq::<Msg>::empty());
                    out
                },
                EmitsChangedSignal::Const => {
                    return Err(());
                },
                EmitsChangedSignal::True => {
                    let entry = MessageItem::DictEntry(
                        Box::new(MessageItem::Str(self.name.clone())),
                        Box::new(MessageItem::Variant(Box::new(m.clone()))),
                    );
                    let mut entries: Vec<MessageItem> = Vec::new();
                    proof {
                        lemma_items_push(entries@, entry);
                    }
                    entries.push(entry);
                    assert(items_view(entries@) =~= seq![entry@]);
                    one(s.append(MessageItem::Array(entries, "{sv}".to_owned())))
                },
                EmitsChangedSignal::Invalidates => {
                    let entries: Vec<MessageItem> = Vec::new();
                    let name = MessageItem::Str(self.name.clone());
                    let mut names: Vec<MessageItem> = Vec::new();
                    proof {
                        lemma_items_push(names@, name);
                    }
                    names.push(name);
                    assert(items_view(names@) =~= seq![name@]);
                    one(
                        s.append(MessageItem::Array(entries, "{sv}".to_owned())).append(
                            MessageItem::Array(names, "s".to_owned()),
                        ),
                    )
                },
            },
        };
        self.value = m;
        Ok(out)
    }

    /// How changes are announced.
    pub fn emits(&self) -> (r: EmitsChangedSignal)
        ensures
            r == self@.emits,
    {
        self.emits
    }

    /// What the remote side may do.
    pub fn rw(&self) -> (r: Access)
        ensures
            r == self@.rw,
    {
        self.rw
    }

    /// Sets how changes are announced. A property that the remote side can write cannot be
    /// constant.
    pub fn emits_changed(self, e: EmitsChangedSignal) -> (r: Self)
        requires
            (PropV { emits: e, ..self@ }).consistent(),
        ensures
            r@ == (PropV { emits: e, ..self@ }),
    {
        let mut p = self;
        p.emits = e;
        p
    }

    /// Sets what the remote side may do. A constant property can be read only.
    pub fn access(self, e: Access) -> (r: Self)
        requires
            (PropV { rw: e, ..self@ }).consistent(),
        ensures
            r@ == (PropV { rw: e, ..self@ }),
    {
        let mut p = self;
        p.rw = e;
        p
    }

    /// What the remote side reads.
    pub fn remote_get(&self, _m: &Message) -> (r: Result<MessageItem, MethodErr>)
        ensures
            match r {
                Ok(i) => self@.read() == Ok::<Item, ErrV>(i@),
                Err(e) => self@.read() == Err::<Item, ErrV>(e@),
            },
    {
        if self.rw == Access::Write {
            let mut text = "Property ".to_owned();
            text.append(self.name.as_str());
            text.append(" is write only");
            return Err(MethodErr::failed(text.as_str()));
        }
        Ok(self.get_value())
    }

    /// Helper method to verify and extract a MessageItem from a Set message
    pub fn verify_remote_set(&self, m: &Message) -> (r: Result<MessageItem, MethodErr>)
        ensures
            match r {
                Ok(i) => self@.accepted(m@.items) == Ok::<Item, ErrV>(i@),
                Err(e) => self@.accepted(m@.items) == Err::<Item, ErrV>(e@),
            },
    {
        let s = match get_variant(m, 2) {
            Ok(s) => s,
            Err(e) => return Err(e),
        };
        if self.rw == Access::Read {
            return Err(MethodErr::ro_property(self.name.as_str()));
        }
        let sig = s.type_sig();
        if sig == self.value.type_sig() {
            Ok(s.clone())
        } else {
            let mut text = "Property ".to_owned();
            text.append(self.name.as_str());
            text.append(" cannot change type to ");
            text.append(sig.as_str());
            Err(MethodErr::failed(text.as_str()))
        }
    }

    /// Sets the property from the remote side, or gives the callback that has to be asked.
    pub fn remote_set(&mut self, m: &Message) -> (r: RemoteSet<M>)
        ensures
            match r {
                RemoteSet::Ask(cb) => old(self)@.set_cb == Some(cb) && final(self)@ == old(self)@,
                RemoteSet::Done(x) => old(self)@.set_cb is None && result_view(x) == old(
                    self,
                )@.set_answer(m@.items) && final(self)@ == old(self)@.after_set(m@.items),
            },
            final(self)@.name == old(self)@.name,
    {
        if let Some(cb) = &self.set_cb {
            return RemoteSet::Ask(share(cb));
        }
        match self.verify_remote_set(m) {
            Err(e) => RemoteSet::Done(Err(e)),
            Ok(v) => match self.set_value(v) {
                Ok(out) => RemoteSet::Done(Ok(out)),
                Err(_) => RemoteSet::Done(Err(MethodErr::ro_property(self.name.as_str()))),
            },
        }
    }

    /// Sets a callback to be called when a "Set" call is coming in from the remote side.
    pub fn on_set(self, m: M) -> (r: Self)
        ensures
            r@ == (PropV { set_cb: Some(Arc::new(m)), ..self@ }),
    {
        let mut p = self;
        proof {
            use_type_invariant(&p);
        }
        p.set_cb = Some(Arc::new(m));
        p
    }

    /// Makes the property belong to an interface of an object path.
    pub(crate) fn set_owner(&mut self, o: Owner)
        ensures
            final(self)@ == old(self)@.owned(o@),
    {
        proof {
            use_type_invariant(&*self);
        }
        self.owner = Some(o);
    }

    /// Adds an annotation to the property.
    pub fn annotate(self, name: &str, value: &str) -> (r: Self)
        ensures
            r@ == (PropV { anns: annotated(self@.anns, name@, value@), ..self@ }),
    {
        let mut p = self;
        proof {
            use_type_invariant(&p);
        }
        let mut anns: Sorted<Annotation> = Sorted::new();
        std::mem::swap(&mut anns, &mut p.anns);
        add_annotation(&mut anns, name, value);
        p.anns = anns;
        p
    }

    /// Adds an annotation that this entity is deprecated.
    pub fn deprecated(self) -> (r: Self)
        ensures
            r@ == (PropV { anns: marked_deprecated(self@.anns), ..self@ }),
    {
        let mut p = self;
        proof {
            use_type_invariant(&p);
        }
        let mut anns: Sorted<Annotation> = Sorted::new();
        std::mem::swap(&mut anns, &mut p.anns);
        add_deprecated(&mut anns);
        p.anns = anns;
        p
    }

    /// The further attributes and the contents of the property's introspection text.
    pub fn introspect(&self) -> (r: (String, String))
        ensures
            r.0@ == self@.attributes(),
            r.1@ == self@.xml(),
    {
        let mut text = " type=\"".to_owned();
        text.append(self.value.type_sig().as_str());
        text.append("\" access=\"");
        text.append(self.rw.introspect());
        text.append("\"");
        (text, introspect_anns(&self.anns, "      "))
    }
}

} // verus!
