//! Making the parts of a tree.
use std::marker::PhantomData;
use vstd::prelude::*;
use crate::interface::{IfaceV, Interface};
use crate::item::MessageItem;
use crate::method::{Callback, Method, MethodV};
use crate::names::{IfaceName, Member, Path};
use crate::object::{ObjectPath, ObjectV};
use crate::property::{PropV, Property};
use crate::signal::{Signal, SignalV};
use crate::tree::{Tree, TreeV};

verus! {

/// The factory is used to create object paths, interfaces, methods etc., with callbacks of
/// the type `M`.
///
/// There are three factories, for three kinds of callbacks:
///  * Fn - all methods are `Fn()`.
///  * FnMut - all methods are `FnMut()`. This means they can mutate their environment.
///  * Sync - all methods are `Fn() + Send + Sync + 'static`. This means that the tree can be
///    handed from thread to thread; who handles a message borrows it for that time.
///
/// Which of these holds is up to the type `M`.
#[derive(Debug)]
pub struct Factory<M>(PhantomData<M>);

impl<M> Factory<M> {
    /// The one value of the type.
    pub closed spec fn only() -> Factory<M> {
        Factory(PhantomData)
    }

    /// Creates a new factory for single-thread use.
    pub fn new_fn() -> (r: Self)
        ensures
            r == Self::only(),
    {
        Factory(PhantomData)
    }

    /// Creates a new factory for single-thread + mutable fns use.
    pub fn new_fnmut() -> (r: Self)
        ensures
            r == Self::only(),
    {
        Factory(PhantomData)
    }

    /// Creates a new method, which calls `handler`.
    pub fn method(&self, t: Member, handler: M) -> (r: Method<M>)
        ensures
            r@ == MethodV::plain(t@, Callback::User(std::sync::Arc::new(handler))),
    {
        Method::new(t, Callback::User(std::sync::Arc::new(handler)))
    }

    /// Creates a new method, which calls `handler`.
    pub fn method_sync(&self, t: Member, handler: M) -> (r: Method<M>)
        ensures
            r@ == MethodV::plain(t@, Callback::User(std::sync::Arc::new(handler))),
    {
        Method::new(t, Callback::User(std::sync::Arc::new(handler)))
    }

    /// Creates a new property with the value `i`.
    pub fn property(&self, t: &str, i: MessageItem) -> (r: Property<M>)
        ensures
            r@ == PropV::<M>::plain(t@, i@),
    {
        Property::new(t.to_owned(), i)
    }

    /// Creates a new interface.
    pub fn interface(&self, t: IfaceName) -> (r: Interface<M>)
        ensures
            r@ == IfaceV::<M>::plain(t@),
    {
        Interface::new(t)
    }

    /// Creates a new tree.
    pub fn tree(&self) -> (r: Tree<M>)
        ensures
            r@ == (TreeV::<M> { paths: Seq::empty() }),
    {
        Tree::new()
    }

    /// Creates a new object path.
    pub fn object_path(&self, t: Path) -> (r: ObjectPath<M>)
        ensures
            r@ == ObjectV::<M>::plain(t@),
    {
        ObjectPath::new(t)
    }

    /// Creates a new signal.
    pub fn signal(&self, t: Member) -> (r: Signal)
        ensures
            r@ == SignalV::plain(t@),
    {
        Signal::new(t)
    }
}

impl<M: Send + Sync + 'static> Factory<M> {
    /// Creates a new factory for multi-thread use.
    pub fn new_sync() -> (r: Self)
        ensures
            r == Self::only(),
    {
        Factory(PhantomData)
    }
}

} // verus!
