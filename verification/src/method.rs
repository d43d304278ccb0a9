//! Methods.
use std::sync::Arc;
use vstd::prelude::*;
use crate::annotation::{AnnV, Annotation, add_annotation, add_deprecated, annotated, anns_xml, introspect_anns, marked_deprecated};
use crate::argument::{ArgV, Argument, all_become, args_view, args_xml, becomes, extend_args};
use crate::names::{Member, valid_member};
use crate::sorted::{Keyed, Named, Sorted, sound};

verus! {

/// What a method does: one of the standard methods of D-Bus, or a callback of the user.
#[derive(Debug)]
pub enum Callback<M> {
    PropGet,
    PropGetAll,
    PropSet,
    Introspect,
    ManagedObjects,
    User(Arc<M>),
}

/// `Arc::clone` of std. Claimed of it: the copy points to the same value.
#[verifier::external_body]
pub(crate) fn share<T>(a: &Arc<T>) -> (r: Arc<T>)
    ensures
        r == *a,
{
    a.clone()
}

impl<M> Callback<M> {
    /// A second handle on the same callback.
    pub fn share(&self) -> (r: Callback<M>)
        ensures
            r == *self,
    {
        match self {
            Callback::PropGet => Callback::PropGet,
            Callback::PropGetAll => Callback::PropGetAll,
            Callback::PropSet => Callback::PropSet,
            Callback::Introspect => Callback::Introspect,
            Callback::ManagedObjects => Callback::ManagedObjects,
            Callback::User(cb) => Callback::User(share(cb)),
        }
    }
}

/// A method of an interface.
#[derive(Debug)]
pub struct Method<M> {
    cb: Callback<M>,
    name: Member,
    i_args: Vec<Argument>,
    o_args: Vec<Argument>,
    anns: Sorted<Annotation>,
}

/// The mathematical value of a `Method`.
pub struct MethodV<M> {
    pub cb: Callback<M>,
    pub name: Seq<char>,
    pub i_args: Seq<ArgV>,
    pub o_args: Seq<ArgV>,
    pub anns: Seq<AnnV>,
}

impl<M> View for Method<M> {
    type V = MethodV<M>;

    closed spec fn view(&self) -> MethodV<M> {
        MethodV {
            cb: self.cb,
            name: self.name@,
            i_args: args_view(self.i_args@),
            o_args: args_view(self.o_args@),
            anns: self.anns@,
        }
    }
}

impl<M> Keyed for MethodV<M> {
    open spec fn key(self) -> Seq<char> {
        self.name
    }

    open spec fn valid(self) -> bool {
        &&& valid_member(self.name)
        &&& sound(self.anns)
    }
}

impl<M> Named for Method<M> {
    fn key_text(&self) -> &str {
        self.name.as_str()
    }

    fn assure(&self) {
        self.anns.assure();
        let _ = self.name.as_str();
    }
}

impl<M> MethodV<M> {
    /// A method with no arguments and no annotations.
    pub open spec fn plain(name: Seq<char>, cb: Callback<M>) -> MethodV<M> {
        MethodV { cb, name, i_args: Seq::empty(), o_args: Seq::empty(), anns: Seq::empty() }
    }

    /// The contents of the method's introspection text: the arguments that go in, those that
    /// come out, the annotations.
    pub open spec fn xml(self) -> Seq<char> {
        args_xml(self.i_args, "      "@, " direction=\"in\""@) + args_xml(
            self.o_args,
            "      "@,
            " direction=\"out\""@,
        ) + anns_xml(self.anns, "      "@)
    }
}

impl<M> Method<M> {
    /// A method with no arguments and no annotations.
    pub fn new(n: Member, cb: Callback<M>) -> (r: Self)
        ensures
            r@ == MethodV::plain(n@, cb),
    {
        let r = Method {
            cb,
            name: n,
            i_args: Vec::new(),
            o_args: Vec::new(),
            anns: Sorted::new(),
        };
        assert(r@.i_args =~= Seq::<ArgV>::empty());
        assert(r@.o_args =~= Seq::<ArgV>::empty());
        r
    }

    /// What the method does.
    pub fn callback(&self) -> (r: &Callback<M>)
        ensures
            *r == self@.cb,
    {
        &self.cb
    }

    /// Adds an argument that goes in.
    pub fn in_arg<A: Into<Argument>>(self, a: A) -> (r: Self)
        ensures
            exists|x: ArgV| #[trigger]
                becomes(a, x) && r@ == (MethodV { i_args: self@.i_args.push(x), ..self@ }),
    {
        let x: Argument = a.into();
        assert(becomes(a, x@));
        let mut m = self;
        m.i_args.push(x);
        assert(m@.i_args =~= self@.i_args.push(x@));
        m
    }

    /// Adds arguments that go in.
    pub fn in_args<Z: Into<Argument>>(self, a: Vec<Z>) -> (r: Self)
        ensures
            exists|xs: Seq<ArgV>| #[trigger]
                all_become(a@, xs) && r@ == (MethodV { i_args: self@.i_args + xs, ..self@ }),
    {
        let mut m = self;
        extend_args(&mut m.i_args, a);
        m
    }

    /// Adds an argument that comes out.
    pub fn out_arg<A: Into<Argument>>(self, a: A) -> (r: Self)
        ensures
            exists|x: ArgV| #[trigger]
                becomes(a, x) && r@ == (MethodV { o_args: self@.o_args.push(x), ..self@ }),
    {
        let x: Argument = a.into();
        assert(becomes(a, x@));
        let mut m = self;
        m.o_args.push(x);
        assert(m@.o_args =~= self@.o_args.push(x@));
        m
    }

    /// Adds arguments that come out.
    pub fn out_args<Z: Into<Argument>>(self, a: Vec<Z>) -> (r: Self)
        ensures
            exists|xs: Seq<ArgV>| #[trigger]
                all_become(a@, xs) && r@ == (MethodV { o_args: self@.o_args + xs, ..self@ }),
    {
        let mut m = self;
        extend_args(&mut m.o_args, a);
        m
    }

    /// Adds an annotation to the method.
    pub fn annotate(self, name: &str, value: &str) -> (r: Self)
        ensures
            r@ == (MethodV { anns: annotated(self@.anns, name@, value@), ..self@ }),
    {
        let mut m = self;
        add_annotation(&mut m.anns, name, value);
        m
    }

    /// Adds an annotation that this entity is deprecated.
    pub fn deprecated(self) -> (r: Self)
        ensures
            r@ == (MethodV { anns: marked_deprecated(self@.anns), ..self@ }),
    {
        let mut m = self;
        add_deprecated(&mut m.anns);
        m
    }

    /// The contents of the method's introspection text.
    pub fn introspect(&self) -> (r: String)
        ensures
            r@ == self@.xml(),
    {
        let mut text = Argument::introspect_all(&self.i_args, "      ", " direction=\"in\"");
        text.append(
            Argument::introspect_all(&self.o_args, "      ", " direction=\"out\"").as_str(),
        );
        text.append(introspect_anns(&self.anns, "      ").as_str());
        text
    }
}

} // verus!
