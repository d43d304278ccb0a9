//! Interfaces.
use vstd::prelude::*;
use crate::annotation::{AnnV, Annotation, add_annotation, add_deprecated, annotated, anns_xml, introspect_anns, marked_deprecated};
use crate::error::result_view;
use crate::item::MessageItem;
use crate::message::{Message, msgs_view, opt_view};
use crate::method::{Method, MethodV};
use crate::names::{IfaceName, Path, valid_iface};
use crate::property::{PropV, Property, RemoteSet};
use crate::signal::{Owner, OwnerV, Signal, SignalV};
use crate::sorted::{Keyed, Named, Sorted, count, count_named, find, lemma_nth_named, lemma_put_same, lemma_put_update, nth, nth_named, put, sound, views};
use crate::xml::{gives, gives_one, introspect_map, map_xml};

verus! {

/// An interface of an object path.
#[derive(Debug)]
pub struct Interface<M> {
    name: IfaceName,
    methods: Sorted<Method<M>>,
    signals: Sorted<Signal>,
    properties: Sorted<Property<M>>,
    anns: Sorted<Annotation>,
    old_signals: Vec<Signal>,
    old_properties: Vec<Property<M>>,
}

/// The mathematical value of an `Interface`.
pub struct IfaceV<M> {
    pub name: Seq<char>,
    pub methods: Seq<MethodV<M>>,
    pub signals: Seq<SignalV>,
    pub properties: Seq<PropV<M>>,
    pub anns: Seq<AnnV>,
    /// The signals and properties that gave way to others of their names. They are not part of
    /// the interface any more, but references still refer to them.
    pub old_signals: Seq<SignalV>,
    pub old_properties: Seq<PropV<M>>,
}

impl<M> View for Interface<M> {
    type V = IfaceV<M>;

    closed spec fn view(&self) -> IfaceV<M> {
        IfaceV {
            name: self.name@,
            methods: self.methods@,
            signals: self.signals@,
            properties: self.properties@,
            anns: self.anns@,
            old_signals: views(self.old_signals@),
            old_properties: views(self.old_properties@),
        }
    }
}

impl<M> Keyed for IfaceV<M> {
    open spec fn key(self) -> Seq<char> {
        self.name
    }

    open spec fn valid(self) -> bool {
        &&& valid_iface(self.name)
        &&& sound(self.methods)
        &&& sound(self.signals)
        &&& sound(self.properties)
        &&& sound(self.anns)
    }
}

impl<M> Named for Interface<M> {
    fn key_text(&self) -> &str {
        self.name.as_str()
    }

    fn assure(&self) {
        self.methods.assure();
        self.signals.assure();
        self.properties.assure();
        self.anns.assure();
        let _ = self.name.as_str();
    }
}

/// The name of a signal or a property, with that of its interface.
pub struct EntryV {
    pub iface: Seq<char>,
    pub name: Seq<char>,
}

/// Refers to a signal or a property that was added to an interface: the interface, the name in
/// it, and how many of that name were added and replaced before. So it goes on referring to
/// the one that was added, also when another of the same name takes its place. It is read in
/// the interface of that name that the object path has.
#[derive(Debug, PartialEq, Eq)]
pub struct EntryRef {
    iface: String,
    name: String,
    turn: usize,
}

/// The mathematical value of an `EntryRef`.
pub struct RefV {
    pub iface: Seq<char>,
    pub name: Seq<char>,
    pub turn: nat,
}

impl View for EntryRef {
    type V = RefV;

    closed spec fn view(&self) -> RefV {
        RefV { iface: self.iface@, name: self.name@, turn: self.turn as nat }
    }
}

impl RefV {
    /// The names.
    pub open spec fn entry(self) -> EntryV {
        EntryV { iface: self.iface, name: self.name }
    }
}

impl EntryRef {
    /// The name of the interface.
    pub fn iface(&self) -> (r: &str)
        ensures
            r@ == self@.iface,
    {
        self.iface.as_str()
    }

    /// The name of the signal or the property.
    pub fn name(&self) -> (r: &str)
        ensures
            r@ == self@.name,
    {
        self.name.as_str()
    }
}

/// The list `old` with the element of `s` that gives way to `v`, where there is one.
pub open spec fn retired<K: Keyed>(old: Seq<K>, s: Seq<K>, v: K) -> Seq<K> {
    match find(s, v.key()) {
        Some(q) => old.push(q),
        None => old,
    }
}

/// What a reference by name and turn refers to: one of those in `old`, or the one in `s`.
pub open spec fn referred<K: Keyed>(old: Seq<K>, s: Seq<K>, name: Seq<char>, turn: nat) -> Option<
    K,
> {
    match nth_named(old, name, turn) {
        Some(i) => Some(old[i]),
        None => if turn == count_named(old, name) {
            find(s, name)
        } else {
            None
        },
    }
}

impl<M> IfaceV<M> {
    /// An interface with nothing in it.
    pub open spec fn plain(name: Seq<char>) -> IfaceV<M> {
        IfaceV {
            name,
            methods: Seq::empty(),
            signals: Seq::empty(),
            properties: Seq::empty(),
            anns: Seq::empty(),
            old_signals: Seq::empty(),
            old_properties: Seq::empty(),
        }
    }

    /// This interface with one more method.
    pub open spec fn add_m(self, m: MethodV<M>) -> IfaceV<M> {
        IfaceV { methods: put(self.methods, m), ..self }
    }

    /// This interface with one more signal.
    pub open spec fn add_s(self, s: SignalV) -> IfaceV<M> {
        IfaceV {
            signals: put(self.signals, s),
            old_signals: retired(self.old_signals, self.signals, s),
            ..self
        }
    }

    /// This interface with one more property.
    pub open spec fn add_p(self, p: PropV<M>) -> IfaceV<M> {
        IfaceV {
            properties: put(self.properties, p),
            old_properties: retired(self.old_properties, self.properties, p),
            ..self
        }
    }

    /// This interface with the property `p` as it is now.
    pub open spec fn with_p(self, p: PropV<M>) -> IfaceV<M> {
        IfaceV { properties: put(self.properties, p), ..self }
    }

    /// The property that was added as the one number `turn` under the name `name`.
    pub open spec fn referred_p(self, name: Seq<char>, turn: nat) -> Option<PropV<M>> {
        referred(self.old_properties, self.properties, name, turn)
    }

    /// The signal that was added as the one number `turn` under the name `name`.
    pub open spec fn referred_s(self, name: Seq<char>, turn: nat) -> Option<SignalV> {
        referred(self.old_signals, self.signals, name, turn)
    }

    /// This interface with the property `p`, which was added as the one number `turn` under its
    /// name, as it is now.
    pub open spec fn with_referred_p(self, turn: nat, p: PropV<M>) -> IfaceV<M> {
        match nth_named(self.old_properties, p.name, turn) {
            Some(i) => IfaceV { old_properties: self.old_properties.update(i, p), ..self },
            None => self.with_p(p),
        }
    }

    /// The property named `name`.
    pub open spec fn property(self, name: Seq<char>) -> Option<PropV<M>> {
        find(self.properties, name)
    }

    /// This interface, with all its signals and properties belonging to it at `path`.
    pub open spec fn owned(self, path: Seq<char>) -> IfaceV<M> {
        let o = OwnerV { path, iface: self.name };
        IfaceV {
            signals: self.signals.map_values(|s: SignalV| s.owned(o)),
            properties: self.properties.map_values(|p: PropV<M>| p.owned(o)),
            ..self
        }
    }

    /// All of this interface but the values of its properties.
    pub open spec fn shape(self) -> IfaceV<M> {
        IfaceV {
            properties: self.properties.map_values(|p: PropV<M>| p.shape()),
            old_properties: self.old_properties.map_values(|p: PropV<M>| p.shape()),
            ..self
        }
    }

    /// All signals and properties of this interface belong to it at `path`.
    pub open spec fn belongs(self, path: Seq<char>) -> bool {
        let o = OwnerV { path, iface: self.name };
        &&& forall|i: int|
            0 <= i < self.signals.len() ==> (#[trigger] self.signals[i]).owner == Some(o)
        &&& forall|i: int|
            0 <= i < self.properties.len() ==> (#[trigger] self.properties[i]).owner == Some(o)
    }

    /// The contents of the interface's introspection text: its methods, its properties, its
    /// signals, its annotations.
    pub open spec fn xml(self) -> Seq<char> {
        map_xml(
            self.methods,
            "method"@,
            "    "@,
            self.methods.map_values(|m: MethodV<M>| (Seq::<char>::empty(), m.xml())),
        ) + map_xml(
            self.properties,
            "property"@,
            "    "@,
            self.properties.map_values(|p: PropV<M>| (p.attributes(), p.xml())),
        ) + map_xml(
            self.signals,
            "signal"@,
            "    "@,
            self.signals.map_values(|s: SignalV| (Seq::<char>::empty(), s.xml())),
        ) + anns_xml(self.anns, "    "@)
    }
}

impl<M> Interface<M> {
    /// An interface with nothing in it.
    pub fn new(t: IfaceName) -> (r: Interface<M>)
        ensures
            r@ == IfaceV::<M>::plain(t@),
    {
        let r = Interface {
            name: t,
            methods: Sorted::new(),
            signals: Sorted::new(),
            properties: Sorted::new(),
            anns: Sorted::new(),
            old_signals: Vec::new(),
            old_properties: Vec::new(),
        };
        assert(r@.old_signals =~= Seq::<SignalV>::empty());
        assert(r@.old_properties =~= Seq::<PropV<M>>::empty());
        r
    }

    /// The name.
    pub fn name(&self) -> (r: &IfaceName)
        ensures
            r@ == self@.name,
    {
        &self.name
    }

    /// Adds a method to the interface.
    pub fn add_m(self, m: Method<M>) -> (r: Self)
        ensures
            r@ == self@.add_m(m@),
    {
        let mut i = self;
        i.methods.insert(m);
        i
    }

    /// Adds a signal to the interface.
    pub fn add_s(self, s: Signal) -> (r: Self)
        ensures
            r@ == self@.add_s(s@),
    {
        let mut i = self;
        i.insert_s(s);
        i
    }

    fn insert_s(&mut self, s: Signal)
        ensures
            final(self)@ == old(self)@.add_s(s@),
    {
        let ghost old_signals = self.old_signals@;
        if let Some(q) = self.signals.insert(s) {
            self.old_signals.push(q);
            assert(views(self.old_signals@) =~= views(old_signals).push(q@));
        }
    }

    /// Adds a signal to the interface. Returns a reference to the signal
    /// (which you can use to emit the signal, once it belongs to an object path).
    pub fn add_s_ref(&mut self, s: Signal) -> (r: EntryRef)
        ensures
            final(self)@ == old(self)@.add_s(s@),
            r@ == (RefV {
                iface: old(self)@.name,
                name: s@.name,
                turn: count_named(final(self)@.old_signals, s@.name),
            }),
    {
        let iface = self.name.as_str().to_owned();
        let name = s.key_text().to_owned();
        self.insert_s(s);
        let turn = count(&self.old_signals, name.as_str());
        EntryRef { iface, name, turn }
    }

    /// Adds a property to the interface.
    pub fn add_p(self, p: Property<M>) -> (r: Self)
        ensures
            r@ == self@.add_p(p@),
    {
        let mut i = self;
        i.insert_p(p);
        i
    }

    fn insert_p(&mut self, p: Property<M>)
        ensures
            final(self)@ == old(self)@.add_p(p@),
    {
        let ghost old_properties = self.old_properties@;
        if let Some(q) = self.properties.insert(p) {
            self.old_properties.push(q);
            assert(views(self.old_properties@) =~= views(old_properties).push(q@));
        }
    }

    /// Adds a property to the interface. Returns a reference to the property
    /// (which you can use to get and set the current value of the property).
    pub fn add_p_ref(&mut self, p: Property<M>) -> (r: EntryRef)
        ensures
            final(self)@ == old(self)@.add_p(p@),
            r@ == (RefV {
                iface: old(self)@.name,
                name: p@.name,
                turn: count_named(final(self)@.old_properties, p@.name),
            }),
    {
        let iface = self.name.as_str().to_owned();
        let name = p.key_text().to_owned();
        self.insert_p(p);
        let turn = count(&self.old_properties, name.as_str());
        EntryRef { iface, name, turn }
    }

    /// Adds an annotation to the interface.
    pub fn annotate(self, name: &str, value: &str) -> (r: Self)
        ensures
            r@ == (IfaceV { anns: annotated(self@.anns, name@, value@), ..self@ }),
    {
        let mut i = self;
        add_annotation(&mut i.anns, name, value);
        i
    }

    /// Adds an annotation that this entity is deprecated.
    pub fn deprecated(self) -> (r: Self)
        ensures
            r@ == (IfaceV { anns: marked_deprecated(self@.anns), ..self@ }),
    {
        let mut i = self;
        add_deprecated(&mut i.anns);
        i
    }

    /// The method named `name`.
    pub fn method(&self, name: &str) -> (r: Option<&Method<M>>)
        ensures
            opt_view(r) == find(self@.methods, name@),
    {
        self.methods.get(name)
    }

    /// The signal named `name`.
    pub fn signal(&self, name: &str) -> (r: Option<&Signal>)
        ensures
            opt_view(r) == find(self@.signals, name@),
    {
        self.signals.get(name)
    }

    /// The property named `name`.
    pub fn property(&self, name: &str) -> (r: Option<&Property<M>>)
        ensures
            opt_view(r) == self@.property(name@),
    {
        self.properties.get(name)
    }

    /// The property that `e` refers to, taken for a reference into this interface.
    pub fn referred_p(&self, e: &EntryRef) -> (r: Option<&Property<M>>)
        ensures
            opt_view(r) == self@.referred_p(e@.name, e@.turn),
    {
        match nth(&self.old_properties, e.name(), e.turn) {
            Some(i) => {
                assert(views(self.old_properties@)[i as int] == self.old_properties@[i as int]@);
                Some(&self.old_properties[i])
            },
            None => if e.turn == count(&self.old_properties, e.name()) {
                self.properties.get(e.name())
            } else {
                None
            },
        }
    }

    /// The signal that `e` refers to, taken for a reference into this interface.
    pub fn referred_s(&self, e: &EntryRef) -> (r: Option<&Signal>)
        ensures
            opt_view(r) == self@.referred_s(e@.name, e@.turn),
    {
        match nth(&self.old_signals, e.name(), e.turn) {
            Some(i) => {
                assert(views(self.old_signals@)[i as int] == self.old_signals@[i as int]@);
                Some(&self.old_signals[i])
            },
            None => if e.turn == count(&self.old_signals, e.name()) {
                self.signals.get(e.name())
            } else {
                None
            },
        }
    }

    /// The properties, in the order of their names.
    pub fn properties(&self) -> (r: &Sorted<Property<M>>)
        ensures
            r@ == self@.properties,
    {
        &self.properties
    }

    /// Makes all signals and properties belong to this interface at `path`.
    pub(crate) fn set_owner(&mut self, path: &Path)
        ensures
            final(self)@ == old(self)@.owned(path@),
    {
        let ghost o = OwnerV { path: path@, iface: self@.name };
        let ghost signals = self@.signals;
        let ghost properties = self@.properties;
        let n = self.signals.len();
        let mut i: usize = 0;
        while i < n
            invariant
                i <= n,
                n == signals.len(),
                o == (OwnerV { path: path@, iface: self@.name }),
                self@.name == old(self)@.name,
                self@.methods == old(self)@.methods,
                self@.properties == old(self)@.properties,
                self@.anns == old(self)@.anns,
                self@.old_signals == old(self)@.old_signals,
                self@.old_properties == old(self)@.old_properties,
                self@.signals.len() == n,
                forall|j: int|
                    0 <= j < n ==> #[trigger] self@.signals[j] == if j < i {
                        signals[j].owned(o)
                    } else {
                        signals[j]
                    },
            decreases n - i,
        {
            let ghost before = self.signals@;
            let mut s = self.signals.remove(i);
            s.set_owner(Owner::new(path, &self.name));
            proof {
                lemma_put_update(before, s@, i as int);
            }
            self.signals.insert(s);
            i = i + 1;
        }
        assert(self@.signals =~= signals.map_values(|s: SignalV| s.owned(o)));
        let ghost owned_signals = self@.signals;
        let n = self.properties.len();
        let mut i: usize = 0;
        while i < n
            invariant
                i <= n,
                n == properties.len(),
                o == (OwnerV { path: path@, iface: self@.name }),
                self@.name == old(self)@.name,
                self@.methods == old(self)@.methods,
                self@.signals == owned_signals,
                self@.anns == old(self)@.anns,
                self@.old_signals == old(self)@.old_signals,
                self@.old_properties == old(self)@.old_properties,
                self@.properties.len() == n,
                forall|j: int|
                    0 <= j < n ==> #[trigger] self@.properties[j] == if j < i {
                        properties[j].owned(o)
                    } else {
                        properties[j]
                    },
            decreases n - i,
        {
            let ghost before = self.properties@;
            let mut p = self.properties.remove(i);
            p.set_owner(Owner::new(path, &self.name));
            proof {
                lemma_put_update(before, p@, i as int);
            }
            self.properties.insert(p);
            i = i + 1;
        }
        assert(self@.properties =~= properties.map_values(|p: PropV<M>| p.owned(o)));
    }

    /// Sets the value of the property that `e` refers to, taken for a reference into this
    /// interface, where there is one.
    pub fn set_property(&mut self, e: &EntryRef, v: MessageItem) -> (r: Option<
        Result<Vec<Message>, ()>,
    >)
        ensures
            match r {
                None => old(self)@.referred_p(e@.name, e@.turn) is None && final(self)@ == old(
                    self,
                )@,
                Some(Ok(out)) => {
                    &&& old(self)@.referred_p(e@.name, e@.turn) matches Some(p)
                    &&& p.settable()
                    &&& msgs_view(out@) == p.announcement(v@)
                    &&& final(self)@ == old(self)@.with_referred_p(e@.turn, p.with_value(v@))
                },
                Some(Err(_)) => {
                    &&& old(self)@.referred_p(e@.name, e@.turn) matches Some(p)
                    &&& !p.settable()
                    &&& final(self)@ == old(self)@
                },
            },
    {
        match nth(&self.old_properties, e.name(), e.turn) {
            Some(i) => {
                let ghost before = self.old_properties@;
                let mut p = self.old_properties.remove(i);
                let ghost was = p@;
                proof {
                    assert(was == views(before)[i as int]);
                    lemma_nth_named(views(before), e@.name, e@.turn);
                }
                let r = p.set_value(v);
                let ghost now = p@;
                self.old_properties.insert(i, p);
                assert(views(self.old_properties@) =~= views(before).update(i as int, now));
                proof {
                    if r is Err {
                        assert(views(self.old_properties@) =~= views(before));
                    }
                }
                return Some(r);
            },
            None => {},
        }
        if e.turn != count(&self.old_properties, e.name()) {
            return None;
        }
        match self.properties.index_of(e.name()) {
            None => None,
            Some(i) => {
                let ghost before = self.properties@;
                let mut p = self.properties.remove(i);
                let r = p.set_value(v);
                proof {
                    lemma_put_update(before, p@, i as int);
                    lemma_put_same(before, i as int);
                }
                self.properties.insert(p);
                Some(r)
            },
        }
    }

    /// Sets the property named `name` from the remote side, where there is one, or gives the
    /// callback that has to be asked.
    pub fn remote_set(&mut self, name: &str, m: &Message) -> (r: Option<RemoteSet<M>>)
        ensures
            match r {
                None => old(self)@.property(name@) is None && final(self)@ == old(self)@,
                Some(RemoteSet::Ask(cb)) => {
                    &&& old(self)@.property(name@) matches Some(p)
                    &&& p.set_cb == Some(cb)
                    &&& final(self)@ == old(self)@
                },
                Some(RemoteSet::Done(x)) => {
                    &&& old(self)@.property(name@) matches Some(p)
                    &&& p.set_cb is None
                    &&& result_view(x) == p.set_answer(m@.items)
                    &&& final(self)@ == old(self)@.with_p(p.after_set(m@.items))
                },
            },
    {
        match self.properties.index_of(name) {
            None => None,
            Some(i) => {
                let ghost before = self.properties@;
                let mut p = self.properties.remove(i);
                let r = p.remote_set(m);
                proof {
                    lemma_put_update(before, p@, i as int);
                    lemma_put_same(before, i as int);
                }
                self.properties.insert(p);
                Some(r)
            },
        }
    }

    /// The contents of the interface's introspection text.
    pub fn introspect(&self) -> (r: String)
        ensures
            r@ == self@.xml(),
    {
        let ghost m_outs = self@.methods.map_values(
            |m: MethodV<M>| (Seq::<char>::empty(), m.xml()),
        );
        let ghost p_outs = self@.properties.map_values(|p: PropV<M>| (p.attributes(), p.xml()));
        let ghost s_outs = self@.signals.map_values(|s: SignalV| (Seq::<char>::empty(), s.xml()));
        let of_method = |m: &Method<M>| -> (o: (String, String))
            ensures
                o.0@ == Seq::<char>::empty(),
                o.1@ == m@.xml(),
        {
            let contents = m.introspect();
            (String::new(), contents)
        };
        let of_property = |p: &Property<M>| -> (o: (String, String))
            ensures
                o.0@ == p@.attributes(),
                o.1@ == p@.xml(),
        {
            p.introspect()
        };
        let of_signal = |s: &Signal| -> (o: (String, String))
            ensures
                o.0@ == Seq::<char>::empty(),
                o.1@ == s@.xml(),
        {
            let contents = s.introspect();
            (String::new(), contents)
        };
        let mut text = introspect_map(&self.methods, "method", "    ", of_method);
        proof {
            let outs = choose|outs: Seq<(Seq<char>, Seq<char>)>| #[trigger]
                gives(of_method, self@.methods, outs) && text@ == map_xml(
                    self@.methods,
                    "method"@,
                    "    "@,
                    outs,
                );
            assert forall|i: int| 0 <= i < outs.len() implies outs[i] == m_outs[i] by {
                assert(gives_one::<Method<M>, _>(of_method, self@.methods[i], outs[i]));
            }
            assert(outs =~= m_outs);
        }
        let properties = introspect_map(&self.properties, "property", "    ", of_property);
        proof {
            let outs = choose|outs: Seq<(Seq<char>, Seq<char>)>| #[trigger]
                gives(of_property, self@.properties, outs) && properties@ == map_xml(
                    self@.properties,
                    "property"@,
                    "    "@,
                    outs,
                );
            assert forall|i: int| 0 <= i < outs.len() implies outs[i] == p_outs[i] by {
                assert(gives_one::<Property<M>, _>(of_property, self@.properties[i], outs[i]));
            }
            assert(outs =~= p_outs);
        }
        text.append(properties.as_str());
        let signals = introspect_map(&self.signals, "signal", "    ", of_signal);
        proof {
            let outs = choose|outs: Seq<(Seq<char>, Seq<char>)>| #[trigger]
                gives(of_signal, self@.signals, outs) && signals@ == map_xml(
                    self@.signals,
                    "signal"@,
                    "    "@,
                    outs,
                );
            assert forall|i: int| 0 <= i < outs.len() implies outs[i] == s_outs[i] by {
                assert(gives_one::<Signal, _>(of_signal, self@.signals[i], outs[i]));
            }
            assert(outs =~= s_outs);
        }
        text.append(signals.as_str());
        text.append(introspect_anns(&self.anns, "    ").as_str());
        text
    }
}

} // verus!
