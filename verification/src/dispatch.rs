//! Handling messages.
use std::sync::Arc;
use vstd::prelude::*;
use crate::error::{ErrV, MethodResult, result_view};
use crate::item::{Item, MessageItem};
use crate::laws::{law_after_shape, law_asking_changes_nothing};
use crate::message::{Message, MessageType, Msg, msgs_view, one, opt_view};
use crate::method::{Callback, Method, share};
use crate::names::Path;
use crate::object::{ObjectPath, ObjectV, finish_set, set_reply};
use crate::property::RemoteSet;
use crate::sorted::{find, lemma_found, lemma_put_same};
use crate::tree::{Objects, Tree, TreeV, lemma_children_without, lemma_put_back};

verus! {

/// The object that a call goes to: its path, and the object itself where it was handed over
/// with the call. Otherwise it is the one at that path of the tree.
pub struct Callee<'a, M> {
    pub path: &'a Path,
    pub object: Option<&'a ObjectPath<M>>,
}

impl<'a, M> Callee<'a, M> {
    /// The object at the path `path` of a tree.
    pub open spec fn at(path: &'a Path) -> Callee<'a, M> {
        Callee { path, object: None }
    }

    /// The object, where the tree has the objects `t`.
    pub fn find<'b>(&'b self, t: &'b Objects<M>) -> (r: Option<&'b ObjectPath<M>>)
        ensures
            opt_view(r) == match self.object {
                Some(o) => Some(o@),
                None => find(t@.paths, self.path@),
            },
    {
        match self.object {
            Some(o) => Some(o),
            None => t.object(self.path.as_str()),
        }
    }
}

/// A callback of the user, for methods and for setting properties.
pub trait MCall: Sized {
    /// Handles the call `m` to the object `o` of the tree with the objects `t`.
    ///
    /// An implementation can do to the objects only what they allow, and that keeps all but
    /// the values of properties. The text of an error that it returns must not hold a NUL: it
    /// could not be sent.
    fn call_method(&self, m: &Message, o: Callee<Self>, t: &mut Objects<Self>) -> (r:
        MethodResult)
        ensures
            final(t)@.same_shape(old(t)@),
            r matches Err(e) ==> !e@.text.contains('\0'),
    ;
}

/// What is to be done about a message.
pub enum Dispatch<M> {
    /// The message is not for the tree.
    Pass,
    /// These messages are to be sent back.
    Reply(Vec<Message>),
    /// A method's callback is to be called.
    Call(Arc<M>),
    /// A property's callback is to be asked to set it.
    AskSet(Arc<M>),
}

/// The mathematical value of a `Dispatch`.
pub enum DispatchV<M> {
    Pass,
    Reply(Seq<Msg>),
    Call(Arc<M>),
    AskSet(Arc<M>),
}

impl<M> View for Dispatch<M> {
    type V = DispatchV<M>;

    open spec fn view(&self) -> DispatchV<M> {
        match *self {
            Dispatch::Pass => DispatchV::Pass,
            Dispatch::Reply(v) => DispatchV::Reply(msgs_view(v@)),
            Dispatch::Call(cb) => DispatchV::Call(cb),
            Dispatch::AskSet(cb) => DispatchV::AskSet(cb),
        }
    }
}

/// The messages to be sent back when the call `m` came to `r`: those that it gave, or an
/// error reply.
pub open spec fn answer(m: Msg, r: Result<Seq<Msg>, ErrV>) -> Seq<Msg> {
    match r {
        Ok(v) => v,
        Err(e) => seq![m.error(e.name, e.text)],
    }
}

/// What a method does about a call: it comes to something at once, or a callback of the user
/// has to be called.
pub enum Step<M> {
    /// The call is over.
    Done(MethodResult),
    /// A method's callback is to be called.
    Call(Arc<M>),
    /// A property's callback is to be asked to set it.
    AskSet(Arc<M>),
}

/// The mathematical value of a `Step`.
pub enum StepV<M> {
    Done(Result<Seq<Msg>, ErrV>),
    Call(Arc<M>),
    AskSet(Arc<M>),
}

impl<M> View for Step<M> {
    type V = StepV<M>;

    open spec fn view(&self) -> StepV<M> {
        match *self {
            Step::Done(r) => StepV::Done(result_view(r)),
            Step::Call(cb) => StepV::Call(cb),
            Step::AskSet(cb) => StepV::AskSet(cb),
        }
    }
}

impl<M> Callback<M> {
    /// What the method does about the call `m` to the object `o` of the tree `t`.
    pub open spec fn step(self, m: Msg, o: ObjectV<M>, t: TreeV<M>) -> StepV<M> {
        match self {
            Callback::PropGet => StepV::Done(o.get_answer(m)),
            Callback::PropGetAll => StepV::Done(o.get_all_answer(m)),
            Callback::PropSet => match o.set_callback(m) {
                Some(cb) => StepV::AskSet(cb),
                None => StepV::Done(o.set_answer(m)),
            },
            Callback::Introspect => StepV::Done(
                Ok(seq![m.method_return().append(Item::Str(o.xml(t)))]),
            ),
            Callback::ManagedObjects => StepV::Done(
                Ok(seq![m.method_return().append(o.managed_objects(t))]),
            ),
            Callback::User(cb) => StepV::Call(cb),
        }
    }

    /// The object `o` after that, before any callback of the user is called.
    pub open spec fn after(self, m: Msg, o: ObjectV<M>) -> ObjectV<M> {
        match self {
            Callback::PropSet => match o.set_callback(m) {
                Some(_) => o,
                None => o.after_set(m),
            },
            _ => o,
        }
    }
}

impl<M> TreeV<M> {
    /// The object that a message is a call to.
    pub open spec fn target(self, m: Msg) -> Option<ObjectV<M>> {
        if m.msg_type != MessageType::MethodCall {
            None
        } else {
            match m.path {
                Some(p) => find(self.paths, p),
                None => None,
            }
        }
    }

    /// The message `m` can be answered: no text in it, and no name of a property that the
    /// answer would quote, holds a NUL, which could not be sent.
    pub open spec fn answerable(self, m: Msg) -> bool {
        &&& m.nul_free()
        &&& match self.target(m) {
            None => true,
            Some(o) => o.method_for(m) == Ok::<Callback<M>, ErrV>(Callback::PropGetAll)
                ==> o.get_all_sendable(m),
        }
    }

    /// What is to be done about the message `m`.
    pub open spec fn dispatch(self, m: Msg) -> DispatchV<M> {
        match self.target(m) {
            None => DispatchV::Pass,
            Some(o) => match o.method_for(m) {
                Err(e) => DispatchV::Reply(answer(m, Err(e))),
                Ok(cb) => match cb.step(m, o, self) {
                    StepV::Done(r) => DispatchV::Reply(answer(m, r)),
                    StepV::Call(cb) => DispatchV::Call(cb),
                    StepV::AskSet(cb) => DispatchV::AskSet(cb),
                },
            },
        }
    }

    /// This tree after the message `m` was dispatched, before any callback is called.
    pub open spec fn after(self, m: Msg) -> TreeV<M> {
        match self.target(m) {
            None => self,
            Some(o) => match o.method_for(m) {
                Err(_) => self,
                Ok(cb) => self.add(cb.after(m, o)),
            },
        }
    }
}

/// The messages to be sent back when the call `m` came to `r`.
pub fn finish(m: &Message, r: MethodResult) -> (v: Vec<Message>)
    ensures
        msgs_view(v@) == answer(m@, result_view(r)),
{
    match r {
        Ok(v) => v,
        Err(e) => {
            one(m.error(e.name(), e.text()))
        },
    }
}

/// The list of the reply to `m` with the argument `i`.
fn reply_with(m: &Message, i: MessageItem) -> (v: Vec<Message>)
    ensures
        msgs_view(v@) == seq![m@.method_return().append(i@)],
{
    one(m.method_return().append(i))
}

impl<M> Callback<M> {
    /// Does what the method does about the call `m` to the object `o` of the tree with the
    /// objects `t`, as far as no callback of the user is needed. It makes no difference
    /// whether the object itself is among the objects.
    pub fn start(&self, m: &Message, o: &mut ObjectPath<M>, t: &Objects<M>) -> (r: Step<M>)
        ensures
            r@ == self.step(m@, old(o)@, t@),
            final(o)@ == self.after(m@, old(o)@),
    {
        match self {
            Callback::PropSet => match o.prop_set(m) {
                RemoteSet::Ask(cb) => Step::AskSet(cb),
                RemoteSet::Done(x) => Step::Done(x),
            },
            Callback::User(cb) => Step::Call(share(cb)),
            Callback::PropGet => Step::Done(o.prop_get(m)),
            Callback::PropGetAll => Step::Done(o.prop_get_all(m)),
            Callback::Introspect => {
                let text = o.introspect(t);
                Step::Done(Ok(reply_with(m, MessageItem::Str(text))))
            },
            Callback::ManagedObjects => {
                let list = o.get_managed_objects(t);
                Step::Done(Ok(reply_with(m, list)))
            },
        }
    }
}

/// What a method does about a call to an object does not depend on whether the object is in
/// the tree.
proof fn lemma_step_without<M>(cb: Callback<M>, m: Msg, o: ObjectV<M>, t: TreeV<M>)
    ensures
        cb.step(m, o, t.without(o.name)) == cb.step(m, o, t),
{
    lemma_children_without(t, o, true);
    lemma_children_without(t, o, false);
}

impl<M> Objects<M> {
    /// Whether a message can be answered: no text in it, and no name of a property that the
    /// answer would quote, holds a NUL.
    pub fn answerable(&self, m: &Message) -> (r: bool)
        ensures
            r == self@.answerable(m@),
    {
        if !m.nul_free() {
            return false;
        }
        if m.msg_type != MessageType::MethodCall {
            return true;
        }
        let o = match &m.path {
            Some(p) => self.object(p.as_str()),
            None => None,
        };
        match o {
            None => true,
            Some(o) => match o.method_for(m) {
                Ok(Callback::PropGetAll) => o.get_all_sendable(m),
                _ => true,
            },
        }
    }

    /// Finds out what is to be done about a message, and does it as far as no callback of the
    /// user is needed.
    pub fn dispatch(&mut self, m: &Message) -> (r: Dispatch<M>)
        requires
            old(self)@.answerable(m@),
        ensures
            r@ == old(self)@.dispatch(m@),
            final(self)@ == old(self)@.after(m@),
            old(self)@.valid(),
            final(self)@.same_shape(old(self)@),
    {
        self.assure();
        proof {
            law_after_shape(self@, m@);
        }
        if m.msg_type != MessageType::MethodCall {
            return Dispatch::Pass;
        }
        let path = match &m.path {
            Some(p) => p.as_str(),
            None => return Dispatch::Pass,
        };
        let ghost before = self@;
        let mut o = match self.take(path) {
            Some(o) => o,
            None => return Dispatch::Pass,
        };
        let ghost was = o@;
        let found = match o.method_for(m) {
            Ok(cb) => Ok(cb.share()),
            Err(e) => Err(e),
        };
        let r = match found {
            Err(e) => Dispatch::Reply(finish(m, Err(e))),
            Ok(cb) => {
                proof {
                    lemma_step_without(cb, m@, was, before);
                }
                match cb.start(m, &mut o, self) {
                    Step::Done(x) => Dispatch::Reply(finish(m, x)),
                    Step::Call(cb) => Dispatch::Call(cb),
                    Step::AskSet(cb) => Dispatch::AskSet(cb),
                }
            },
        };
        proof {
            lemma_put_back(before, was, o@);
            let i = lemma_found(before.paths, was.name);
            lemma_put_same(before.paths, i);
        }
        self.put(o);
        r
    }
}

impl<M: MCall> Method<M> {
    /// Calls the method, for the call `m` to the object `o` of the tree `t`.
    pub fn call(&self, m: &Message, o: &mut ObjectPath<M>, t: &mut Tree<M>) -> (r: MethodResult)
        ensures
            final(o)@ == self@.cb.after(m@, old(o)@),
            final(t)@.same_shape(old(t)@),
            self@.cb.step(m@, old(o)@, old(t)@) matches StepV::Done(x) ==> result_view(r) == x
                && final(t)@ == old(t)@,
            self@.cb.step(m@, old(o)@, old(t)@) matches StepV::Call(cb) ==> exists|
                p: Callee<M>,
                u: &mut Objects<M>,
                x: MethodResult,
            |
                {
                    &&& #[trigger] call_ensures(M::call_method, (&*cb, m, p, u), x)
                    &&& p.path@ == old(o)@.name
                    &&& opt_view(p.object) == Some(old(o)@)
                    &&& u@ == old(t)@
                    &&& final(u)@ == final(t)@
                    &&& r == x
                },
            self@.cb.step(m@, old(o)@, old(t)@) matches StepV::AskSet(cb) ==> exists|
                p: Callee<M>,
                u: &mut Objects<M>,
                x: MethodResult,
            |
                {
                    &&& #[trigger] call_ensures(M::call_method, (&*cb, m, p, u), x)
                    &&& p.path@ == old(o)@.name
                    &&& opt_view(p.object) == Some(old(o)@)
                    &&& u@ == old(t)@
                    &&& final(u)@ == final(t)@
                    &&& result_view(r) == set_reply(m@, result_view(x))
                },
    {
        let ghost d = self@.cb.step(m@, old(o)@, old(t)@);
        match self.callback().start(m, o, t) {
            Step::Done(x) => x,
            Step::Call(cb) => {
                let p = Callee { path: o.name(), object: Some(&*o) };
                let ghost p0 = p;
                let x = t.objects().ask(&cb, m, p);
                proof {
                    let u = choose|u: &mut Objects<M>| #[trigger]
                        call_ensures(M::call_method, (&*cb, m, p0, u), x) && u@ == old(t)@
                            && final(u)@ == t@;
                    assert(call_ensures(M::call_method, (&*d->Call_0, m, p0, u), x));
                }
                x
            },
            Step::AskSet(cb) => {
                let p = Callee { path: o.name(), object: Some(&*o) };
                let ghost p0 = p;
                let x = t.objects().ask(&cb, m, p);
                proof {
                    let u = choose|u: &mut Objects<M>| #[trigger]
                        call_ensures(M::call_method, (&*cb, m, p0, u), x) && u@ == old(t)@
                            && final(u)@ == t@;
                    assert(call_ensures(M::call_method, (&*d->AskSet_0, m, p0, u), x));
                }
                finish_set(m, x)
            },
        }
    }
}

impl<M: MCall> Objects<M> {
    /// Handles a message. Will return None in case the object path was not
    /// found, or otherwise a list of messages to be sent back.
    pub fn handle(&mut self, m: &Message) -> (r: Option<Vec<Message>>)
        requires
            old(self)@.answerable(m@),
        ensures
            r is Some <==> old(self)@.target(m@) is Some,
            old(self)@.valid(),
            final(self)@.valid(),
            final(self)@.same_shape(old(self)@),
            old(self)@.dispatch(m@) is Pass ==> final(self)@ == old(self)@,
            old(self)@.dispatch(m@) matches DispatchV::Reply(v) ==> r is Some && msgs_view(r->0@)
                == v && final(self)@ == old(self)@.after(m@),
            old(self)@.dispatch(m@) matches DispatchV::Call(cb) ==> exists|
                u: &mut Objects<M>,
                x: MethodResult,
            |
                {
                    &&& #[trigger] call_ensures(M::call_method, (&*cb, m, Callee::at(&m.path->0), u), x)
                    &&& u@ == old(self)@
                    &&& final(u)@ == final(self)@
                    &&& r is Some
                    &&& msgs_view(r->0@) == answer(m@, result_view(x))
                },
            old(self)@.dispatch(m@) matches DispatchV::AskSet(cb) ==> exists|
                u: &mut Objects<M>,
                x: MethodResult,
            |
                {
                    &&& #[trigger] call_ensures(M::call_method, (&*cb, m, Callee::at(&m.path->0), u), x)
                    &&& u@ == old(self)@
                    &&& final(u)@ == final(self)@
                    &&& r is Some
                    &&& msgs_view(r->0@) == answer(m@, set_reply(m@, result_view(x)))
                },
    {
        let d = self.dispatch(m);
        proof {
            if old(self)@.dispatch(m@) !is Reply {
                law_asking_changes_nothing(old(self)@, m@);
            }
        }
        self.assure();
        match d {
            Dispatch::Pass => None,
            Dispatch::Reply(v) => Some(v),
            Dispatch::Call(cb) => {
                let path = match &m.path {
                    Some(p) => p,
                    None => return None,
                };
                let x = self.ask(&cb, m, Callee { path, object: None });
                self.assure();
                proof {
                    let d = old(self)@.dispatch(m@);
                    let u = choose|u: &mut Objects<M>| #[trigger]
                        call_ensures(M::call_method, (&*cb, m, Callee::at(path), u), x) && u@ == old(self)@
                            && final(u)@ == self@;
                    assert(call_ensures(M::call_method, (&*d->Call_0, m, Callee::at(&m.path->0), u), x));
                }
                Some(finish(m, x))
            },
            Dispatch::AskSet(cb) => {
                let path = match &m.path {
                    Some(p) => p,
                    None => return None,
                };
                let x = self.ask(&cb, m, Callee { path, object: None });
                self.assure();
                proof {
                    let d = old(self)@.dispatch(m@);
                    let u = choose|u: &mut Objects<M>| #[trigger]
                        call_ensures(M::call_method, (&*cb, m, Callee::at(path), u), x) && u@ == old(self)@
                            && final(u)@ == self@;
                    assert(call_ensures(M::call_method, (&*d->AskSet_0, m, Callee::at(&m.path->0), u), x));
                }
                Some(finish(m, finish_set(m, x)))
            },
        }
    }

    /// Calls a callback.
    fn ask(&mut self, cb: &Arc<M>, m: &Message, o: Callee<M>) -> (x: MethodResult)
        ensures
            exists|u: &mut Objects<M>| #[trigger]
                call_ensures(M::call_method, (&**cb, m, o, u), x) && u@ == old(self)@ && final(u)@
                    == final(self)@,
            final(self)@.same_shape(old(self)@),
    {
        cb.call_method(m, o, self)
    }
}

impl<M> Tree<M> {
    /// Finds out what is to be done about a message, and does it as far as no callback of the
    /// user is needed.
    pub fn dispatch(&mut self, m: &Message) -> (r: Dispatch<M>)
        requires
            old(self)@.answerable(m@),
        ensures
            r@ == old(self)@.dispatch(m@),
            final(self)@ == old(self)@.after(m@),
            old(self)@.valid(),
            final(self)@.same_shape(old(self)@),
    {
        self.objects().dispatch(m)
    }
}

impl<M: MCall> Tree<M> {
    /// Handles a message. Will return None in case the object path was not
    /// found, or otherwise a list of messages to be sent back.
    pub fn handle(&mut self, m: &Message) -> (r: Option<Vec<Message>>)
        requires
            old(self)@.answerable(m@),
        ensures
            r is Some <==> old(self)@.target(m@) is Some,
            old(self)@.valid(),
            final(self)@.valid(),
            final(self)@.same_shape(old(self)@),
            old(self)@.dispatch(m@) is Pass ==> final(self)@ == old(self)@,
            old(self)@.dispatch(m@) matches DispatchV::Reply(v) ==> r is Some && msgs_view(r->0@)
                == v && final(self)@ == old(self)@.after(m@),
            old(self)@.dispatch(m@) matches DispatchV::Call(cb) ==> exists|
                u: &mut Objects<M>,
                x: MethodResult,
            |
                {
                    &&& #[trigger] call_ensures(M::call_method, (&*cb, m, Callee::at(&m.path->0), u), x)
                    &&& u@ == old(self)@
                    &&& final(u)@ == final(self)@
                    &&& r is Some
                    &&& msgs_view(r->0@) == answer(m@, result_view(x))
                },
            old(self)@.dispatch(m@) matches DispatchV::AskSet(cb) ==> exists|
                u: &mut Objects<M>,
                x: MethodResult,
            |
                {
                    &&& #[trigger] call_ensures(M::call_method, (&*cb, m, Callee::at(&m.path->0), u), x)
                    &&& u@ == old(self)@
                    &&& final(u)@ == final(self)@
                    &&& r is Some
                    &&& msgs_view(r->0@) == answer(m@, set_reply(m@, result_view(x)))
                },
    {
        self.objects().handle(m)
    }
}

} // verus!
