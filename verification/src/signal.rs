//! Signals.
use vstd::prelude::*;
use crate::annotation::{AnnV, Annotation, add_annotation, add_deprecated, annotated, anns_xml, introspect_anns, marked_deprecated};
use crate::argument::{ArgV, Argument, all_become, args_view, args_xml, becomes, extend_args};
use crate::item::{MessageItem, items_view};
use crate::message::{Message, Msg, opt_view};
use crate::names::{IfaceName, Member, Path, valid_member};
use crate::sorted::{Keyed, Named, Sorted, sound};

verus! {

/// The object path and the interface that a signal or a property belongs to.
#[derive(Debug)]
pub struct Owner {
    path: Path,
    iface: IfaceName,
}

/// The mathematical value of an `Owner`.
pub struct OwnerV {
    pub path: Seq<char>,
    pub iface: Seq<char>,
}

impl View for Owner {
    type V = OwnerV;

    closed spec fn view(&self) -> OwnerV {
        OwnerV { path: self.path@, iface: self.iface@ }
    }
}

impl Owner {
    /// The owner at this path, with this interface.
    pub fn new(path: &Path, iface: &IfaceName) -> (r: Owner)
        ensures
            r@ == (OwnerV { path: path@, iface: iface@ }),
    {
        Owner { path: path.clone(), iface: iface.clone() }
    }

    /// The object path.
    pub fn path(&self) -> (r: &Path)
        ensures
            r@ == self@.path,
    {
        &self.path
    }

    /// The interface.
    pub fn iface(&self) -> (r: &IfaceName)
        ensures
            r@ == self@.iface,
    {
        &self.iface
    }
}

/// A signal of an interface.
#[derive(Debug)]
pub struct Signal {
    name: Member,
    arguments: Vec<Argument>,
    owner: Option<Owner>,
    anns: Sorted<Annotation>,
}

/// The mathematical value of a `Signal`.
pub struct SignalV {
    pub name: Seq<char>,
    pub arguments: Seq<ArgV>,
    pub owner: Option<OwnerV>,
    pub anns: Seq<AnnV>,
}

impl View for Signal {
    type V = SignalV;

    closed spec fn view(&self) -> SignalV {
        SignalV {
            name: self.name@,
            arguments: args_view(self.arguments@),
            owner: opt_view(self.owner),
            anns: self.anns@,
        }
    }
}

impl Keyed for SignalV {
    open spec fn key(self) -> Seq<char> {
        self.name
    }

    open spec fn valid(self) -> bool {
        &&& valid_member(self.name)
        &&& sound(self.anns)
    }
}

impl Named for Signal {
    fn key_text(&self) -> &str {
        self.name.as_str()
    }

    fn assure(&self) {
        self.anns.assure();
        let _ = self.name.as_str();
    }
}

impl SignalV {
    /// A signal with no arguments and no annotations, which no object path has.
    pub open spec fn plain(name: Seq<char>) -> SignalV {
        SignalV { name, arguments: Seq::empty(), owner: None, anns: Seq::empty() }
    }

    /// This signal, belonging to `o`.
    pub open spec fn owned(self, o: OwnerV) -> SignalV {
        SignalV { owner: Some(o), ..self }
    }

    /// The contents of the signal's introspection text: the arguments and the annotations.
    pub open spec fn xml(self) -> Seq<char> {
        args_xml(self.arguments, "      "@, ""@) + anns_xml(self.anns, "      "@)
    }
}

impl Signal {
    /// A signal with no arguments and no annotations, which no object path has.
    pub fn new(n: Member) -> (r: Signal)
        ensures
            r@ == SignalV::plain(n@),
    {
        let r = Signal { name: n, arguments: Vec::new(), owner: None, anns: Sorted::new() };
        assert(r@.arguments =~= Seq::<ArgV>::empty());
        r
    }

    /// Whether an object path has the signal.
    pub fn has_owner(&self) -> (r: bool)
        ensures
            r == (self@.owner is Some),
    {
        self.owner.is_some()
    }

    /// Makes the signal belong to an interface of an object path.
    pub(crate) fn set_owner(&mut self, o: Owner)
        ensures
            final(self)@ == old(self)@.owned(o@),
    {
        self.owner = Some(o);
    }

    /// Returns a message which emits the signal when sent. The signal has to be inserted in
    /// an object path.
    pub fn emit(&self, items: &[MessageItem]) -> (r: Message)
        requires
            self@.owner is Some,
        ensures
            r@ == (Msg {
                items: items_view(items@),
                ..Msg::signal(self@.owner->0.path, self@.owner->0.iface, self@.name)
            }),
    {
        let o = self.owner.as_ref().unwrap();
        let mut m = Message::signal(&o.path, &o.iface, &self.name);
        let ghost before = m@;
        m.append_items(items);
        assert(before.items + items_view(items@) =~= items_view(items@));
        m
    }

    /// Adds an argument.
    pub fn arg<A: Into<Argument>>(self, a: A) -> (r: Self)
        ensures
            exists|x: ArgV| #[trigger]
                becomes(a, x) && r@ == (SignalV { arguments: self@.arguments.push(x), ..self@ }),
    {
        let x: Argument = a.into();
        assert(becomes(a, x@));
        let mut m = self;
        m.arguments.push(x);
        assert(m@.arguments =~= self@.arguments.push(x@));
        m
    }

    /// Adds arguments.
    pub fn args<Z: Into<Argument>>(self, a: Vec<Z>) -> (r: Self)
        ensures
            exists|xs: Seq<ArgV>| #[trigger]
                all_become(a@, xs) && r@ == (SignalV { arguments: self@.arguments + xs, ..self@ }),
    {
        let mut m = self;
        extend_args(&mut m.arguments, a);
        m
    }

    /// Adds an annotation to the signal.
    pub fn annotate(self, name: &str, value: &str) -> (r: Self)
        ensures
            r@ == (SignalV { anns: annotated(self@.anns, name@, value@), ..self@ }),
    {
        let mut m = self;
        add_annotation(&mut m.anns, name, value);
        m
    }

    /// Adds an annotation that this entity is deprecated.
    pub fn deprecated(self) -> (r: Self)
        ensures
            r@ == (SignalV { anns: marked_deprecated(self@.anns), ..self@ }),
    {
        let mut m = self;
        add_deprecated(&mut m.anns);
        m
    }

    /// The contents of the signal's introspection text.
    pub fn introspect(&self) -> (r: String)
        ensures
            r@ == self@.xml(),
    {
        let mut text = Argument::introspect_all(&self.arguments, "      ", "");
        text.append(introspect_anns(&self.anns, "      ").as_str());
        text
    }
}

} // verus!
