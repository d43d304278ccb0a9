//! Serving a connection: which items a tree takes, and which paths are registered.
use vstd::prelude::*;
use crate::dispatch::{Callee, DispatchV, MCall, answer};
use crate::error::{MethodResult, result_view};
use crate::message::{Message, msgs_view};
use crate::names::Path;
use crate::object::{ObjectV, set_reply};
use crate::tree::{Objects, Tree, TreeV};

verus! {

/// What comes in over a connection: a method call, or something else.
#[derive(Debug, PartialEq, Eq)]
pub enum ConnectionItem<X> {
    MethodCall(Message),
    Other(X),
}

/// What a server does about an item that came in.
pub enum ServerStep<X> {
    /// The item is consumed; these messages are to be sent.
    Send(Vec<Message>),
    /// The item is passed through.
    Pass(Option<ConnectionItem<X>>),
}

/// Handles incoming method calls.
///
/// Method calls that match an object path in the tree are handled and consumed by this
/// server. Other messages are passed through.
pub struct TreeServer<'a, M> {
    pub tree: &'a mut Tree<M>,
}

impl<M> Tree<M> {
    /// Serves the items that come in over a connection, and handles all matching items.
    /// Non-matching items (e g signals) are passed through.
    pub fn run<'a>(&'a mut self) -> (r: TreeServer<'a, M>)
        ensures
            *r.tree == *old(self),
            *final(r.tree) == *final(self),
    {
        TreeServer { tree: self }
    }
}

/// The tree takes the item: it is a method call to an object path in the tree.
pub open spec fn takes<M, X>(t: TreeV<M>, n: Option<ConnectionItem<X>>) -> bool {
    n matches Some(ConnectionItem::MethodCall(m)) && t.target(m@) is Some
}

/// A server may do `r` about the item `n` or the end of the items, and leave the tree `t` as
/// `after`: what the tree takes is consumed, everything else is passed through as it is.
pub open spec fn server_step<M, X>(
    t: TreeV<M>,
    n: Option<ConnectionItem<X>>,
    r: ServerStep<X>,
    after: TreeV<M>,
) -> bool {
    &&& after.same_shape(t)
    &&& takes(t, n) ==> r is Send
    &&& !takes(t, n) ==> r == ServerStep::Pass(n) && after == t
}

impl<'a, M: MCall> TreeServer<'a, M> {
    /// What is done about the item `n` that came in, or about the end of the items.
    pub fn next<X>(&mut self, n: Option<ConnectionItem<X>>) -> (r: ServerStep<X>)
        requires
            n matches Some(ConnectionItem::MethodCall(m)) ==> old(self).tree@.answerable(m@),
        ensures
            *final(final(self).tree) == *final(old(self).tree),
            server_step(old(self).tree@, n, r, final(self).tree@),
            n matches Some(ConnectionItem::MethodCall(m)) ==> (old(self).tree@.dispatch(
                m@,
            ) matches DispatchV::Reply(v) ==> msgs_view(r->Send_0@) == v && final(self).tree@ == old(
                self,
            ).tree@.after(m@)),
            n matches Some(ConnectionItem::MethodCall(m)) ==> (old(self).tree@.dispatch(
                m@,
            ) matches DispatchV::Call(cb) ==> exists|u: &mut Objects<M>, x: MethodResult|
                {
                    &&& #[trigger] call_ensures(M::call_method, (&*cb, &m, Callee::at(&m.path->0), u), x)
                    &&& u@ == old(self).tree@
                    &&& final(u)@ == final(self).tree@
                    &&& msgs_view(r->Send_0@) == answer(m@, result_view(x))
                }),
            n matches Some(ConnectionItem::MethodCall(m)) ==> (old(self).tree@.dispatch(
                m@,
            ) matches DispatchV::AskSet(cb) ==> exists|u: &mut Objects<M>, x: MethodResult|
                {
                    &&& #[trigger] call_ensures(M::call_method, (&*cb, &m, Callee::at(&m.path->0), u), x)
                    &&& u@ == old(self).tree@
                    &&& final(u)@ == final(self).tree@
                    &&& msgs_view(r->Send_0@) == answer(m@, set_reply(m@, result_view(x)))
                }),
    {
        match n {
            Some(ConnectionItem::MethodCall(m)) => match self.tree.handle(&m) {
                Some(v) => ServerStep::Send(v),
                None => ServerStep::Pass(Some(ConnectionItem::MethodCall(m))),
            },
            other => ServerStep::Pass(other),
        }
    }
}

/// What is to be done next to register or unregister object paths.
#[derive(Debug)]
pub enum Registering {
    Register(Path),
    Unregister(Path),
    /// All is done; or registering a path failed, those after it were not tried, and those
    /// before it are not registered any more.
    Finished(bool),
}

/// The mathematical value of a `Registering`.
pub enum RegisteringV {
    Register(Seq<char>),
    Unregister(Seq<char>),
    Finished(bool),
}

impl View for Registering {
    type V = RegisteringV;

    open spec fn view(&self) -> RegisteringV {
        match *self {
            Registering::Register(p) => RegisteringV::Register(p@),
            Registering::Unregister(p) => RegisteringV::Unregister(p@),
            Registering::Finished(b) => RegisteringV::Finished(b),
        }
    }
}

/// Registers or unregisters all object paths of a tree, one after the other. Where registering
/// one fails, those that were registered before it are unregistered again.
#[derive(Debug)]
pub struct Registration {
    paths: Vec<Path>,
    next: usize,
    on: bool,
    undone: Option<usize>,
}

/// The mathematical value of a `Registration`: the names of all paths, how many of them were
/// to be registered or unregistered so far, which of the two it is, and, once registering one
/// has failed, how many are unregistered again.
pub struct RegistrationV {
    pub names: Seq<Seq<char>>,
    pub done: int,
    pub registers: bool,
    pub undone: Option<int>,
}

/// The names of a list of paths.
pub open spec fn names_view(v: Seq<Path>) -> Seq<Seq<char>> {
    v.map_values(|p: Path| p@)
}

/// The names of the object paths of a tree.
pub open spec fn path_names<M>(t: TreeV<M>) -> Seq<Seq<char>> {
    t.paths.map_values(|o: ObjectV<M>| o.name)
}

impl View for Registration {
    type V = RegistrationV;

    closed spec fn view(&self) -> RegistrationV {
        RegistrationV {
            names: names_view(self.paths@),
            done: self.next as int,
            registers: self.on,
            undone: match self.undone {
                Some(k) => Some(k as int),
                None => None,
            },
        }
    }
}

impl RegistrationV {
    /// Nothing was done yet.
    pub open spec fn start(names: Seq<Seq<char>>, registers: bool) -> RegistrationV {
        RegistrationV { names, done: 0, registers, undone: None }
    }

    /// What holds of the value of every registration.
    pub open spec fn valid(self) -> bool {
        &&& 0 <= self.done <= self.names.len()
        &&& self.undone matches Some(k) ==> 0 <= k
    }

    /// What is to be done next, where `k` paths are unregistered again. The last path that was
    /// tried is the one that failed: it is not registered.
    pub open spec fn take_back(self, k: int) -> (RegisteringV, RegistrationV) {
        if k + 1 < self.done {
            (
                RegisteringV::Unregister(self.names[k]),
                RegistrationV { undone: Some(k + 1), ..self },
            )
        } else {
            (RegisteringV::Finished(false), RegistrationV { undone: Some(k), ..self })
        }
    }

    /// What is to be done next, and what the registration is afterwards. `failed` says whether
    /// what was to be done before failed.
    pub open spec fn step(self, failed: bool) -> (RegisteringV, RegistrationV) {
        match self.undone {
            Some(k) => self.take_back(k),
            None => if self.registers && failed {
                self.take_back(0)
            } else if self.done == self.names.len() {
                (RegisteringV::Finished(true), self)
            } else {
                (
                    if self.registers {
                        RegisteringV::Register(self.names[self.done])
                    } else {
                        RegisteringV::Unregister(self.names[self.done])
                    },
                    RegistrationV { done: self.done + 1, ..self },
                )
            },
        }
    }
}

impl Registration {
    #[verifier::type_invariant]
    closed spec fn inv(self) -> bool {
        self.next <= self.paths@.len()
    }

    /// What is to be done next. `failed` says whether what was to be done before failed; an
    /// unregistration does not fail.
    pub fn step(&mut self, failed: bool) -> (r: Registering)
        ensures
            (r@, final(self)@) == old(self)@.step(failed),
            old(self)@.valid(),
    {
        proof {
            use_type_invariant(&*self);
        }
        let back: Option<usize> = match self.undone {
            Some(k) => Some(k),
            None => if self.on && failed {
                Some(0)
            } else {
                None
            },
        };
        if let Some(k) = back {
            if self.next > 0 && k < self.next - 1 {
                let p = self.paths[k].clone();
                self.undone = Some(k + 1);
                return Registering::Unregister(p);
            }
            self.undone = Some(k);
            return Registering::Finished(false);
        }
        if self.next == self.paths.len() {
            return Registering::Finished(true);
        }
        let p = self.paths[self.next].clone();
        self.next = self.next + 1;
        if self.on {
            Registering::Register(p)
        } else {
            Registering::Unregister(p)
        }
    }
}

impl<M> Tree<M> {
    /// Registers or unregisters all object paths in the tree: gives what is to be done, in
    /// the order of the paths. On error while registering, the already registered paths are
    /// unregistered.
    pub fn set_registered(&self, b: bool) -> (r: Registration)
        ensures
            r@ == RegistrationV::start(path_names(self@), b),
    {
        let mut out: Vec<Path> = Vec::new();
        let paths = self.paths();
        let n = paths.len();
        let mut i: usize = 0;
        let ghost want = path_names(self@);
        assert(names_view(out@) =~= want.take(0));
        while i < n
            invariant
                i <= n,
                n == paths@.len(),
                paths@ == self@.paths,
                want == path_names(self@),
                names_view(out@) == want.take(i as int),
            decreases n - i,
        {
            let p = paths.at(i).name().clone();
            let ghost before = out@;
            out.push(p);
            proof {
                assert(names_view(out@) =~= names_view(before).push(p@));
                assert(want.take(i + 1) =~= want.take(i as int).push(want[i as int]));
            }
            i = i + 1;
        }
        assert(want.take(i as int) =~= want);
        Registration { paths: out, next: 0, on: b, undone: None }
    }
}

} // verus!
