//! Messages.
use vstd::prelude::*;
use crate::item::{Item, MessageItem, all_nul_free, items_nul_free, items_view, lemma_items_push};
use crate::names::{ErrorName, IfaceName, Member, Path, refusal, valid_iface, valid_member, valid_path};

verus! {

/// The kinds of messages.
#[derive(Clone, Copy, PartialEq, Eq, Debug, Structural)]
pub enum MessageType {
    Invalid,
    MethodCall,
    MethodReturn,
    Error,
    Signal,
}

/// A D-Bus message: its header fields and its arguments.
#[derive(Debug, PartialEq, Eq)]
pub struct Message {
    pub msg_type: MessageType,
    pub path: Option<Path>,
    pub interface: Option<IfaceName>,
    pub member: Option<Member>,
    pub error_name: Option<ErrorName>,
    pub destination: Option<String>,
    pub sender: Option<String>,
    pub serial: u32,
    pub reply_serial: u32,
    pub items: Vec<MessageItem>,
}

/// The mathematical value of a `Message`.
pub struct Msg {
    pub msg_type: MessageType,
    pub path: Option<Seq<char>>,
    pub interface: Option<Seq<char>>,
    pub member: Option<Seq<char>>,
    pub error_name: Option<Seq<char>>,
    pub destination: Option<Seq<char>>,
    pub sender: Option<Seq<char>>,
    pub serial: u32,
    pub reply_serial: u32,
    pub items: Seq<Item>,
}

/// The value under an option.
pub open spec fn opt_view<T: View>(o: Option<T>) -> Option<T::V> {
    match o {
        Some(x) => Some(x@),
        None => None,
    }
}

impl View for Message {
    type V = Msg;

    open spec fn view(&self) -> Msg {
        Msg {
            msg_type: self.msg_type,
            path: opt_view(self.path),
            interface: opt_view(self.interface),
            member: opt_view(self.member),
            error_name: opt_view(self.error_name),
            destination: opt_view(self.destination),
            sender: opt_view(self.sender),
            serial: self.serial,
            reply_serial: self.reply_serial,
            items: items_view(self.items@),
        }
    }
}

/// The values of a list of messages.
pub open spec fn msgs_view(v: Seq<Message>) -> Seq<Msg> {
    v.map_values(|m: Message| m@)
}

impl Msg {
    /// A message of the given kind with nothing else in it.
    pub open spec fn blank(t: MessageType) -> Msg {
        Msg {
            msg_type: t,
            path: None,
            interface: None,
            member: None,
            error_name: None,
            destination: None,
            sender: None,
            serial: 0,
            reply_serial: 0,
            items: Seq::empty(),
        }
    }

    /// A call of a method.
    pub open spec fn method_call(
        destination: Seq<char>,
        path: Seq<char>,
        interface: Seq<char>,
        member: Seq<char>,
    ) -> Msg {
        Msg {
            destination: Some(destination),
            path: Some(path),
            interface: Some(interface),
            member: Some(member),
            ..Msg::blank(MessageType::MethodCall)
        }
    }

    /// A signal from an object's interface.
    pub open spec fn signal(path: Seq<char>, interface: Seq<char>, member: Seq<char>) -> Msg {
        Msg {
            path: Some(path),
            interface: Some(interface),
            member: Some(member),
            ..Msg::blank(MessageType::Signal)
        }
    }

    /// The empty reply to this call: it goes to the sender and carries the call's serial.
    pub open spec fn method_return(self) -> Msg {
        Msg {
            destination: self.sender,
            reply_serial: self.serial,
            ..Msg::blank(MessageType::MethodReturn)
        }
    }

    /// The error reply to this call.
    pub open spec fn error(self, name: Seq<char>, text: Seq<char>) -> Msg {
        Msg {
            error_name: Some(name),
            destination: self.sender,
            reply_serial: self.serial,
            items: seq![Item::Str(text)],
            ..Msg::blank(MessageType::Error)
        }
    }

    /// This message with one more argument.
    pub open spec fn append(self, i: Item) -> Msg {
        Msg { items: self.items.push(i), ..self }
    }

    /// No text in the arguments holds a NUL.
    pub open spec fn nul_free(self) -> bool {
        all_nul_free(self.items)
    }

    /// Whether this message answers the call `m`.
    pub open spec fn answers(self, m: Msg) -> bool {
        &&& self.msg_type == MessageType::MethodReturn || self.msg_type == MessageType::Error
        &&& self.reply_serial == m.serial
        &&& self.destination == m.sender
    }
}

fn blank(t: MessageType) -> (r: Message)
    ensures
        r@ == Msg::blank(t),
{
    Message {
        msg_type: t,
        path: None,
        interface: None,
        member: None,
        error_name: None,
        destination: None,
        sender: None,
        serial: 0,
        reply_serial: 0,
        items: Vec::new(),
    }
}

fn copy_option(o: &Option<String>) -> (r: Option<String>)
    ensures
        opt_view(r) == opt_view(*o),
{
    match o {
        Some(s) => Some(s.clone()),
        None => None,
    }
}

/// The list of one message.
pub(crate) fn one(m: Message) -> (r: Vec<Message>)
    ensures
        msgs_view(r@) == seq![m@],
{
    let mut v: Vec<Message> = Vec::new();
    v.push(m);
    assert(msgs_view(v@) =~= seq![m@]);
    v
}

impl Message {
    /// A call of a method, where the path, the interface and the member follow their grammars.
    /// The refusal speaks of the first that does not.
    pub fn new_method_call(
        destination: &str,
        path: &str,
        interface: &str,
        member: &str,
    ) -> (r: Result<Message, String>)
        ensures
            r is Ok <==> valid_path(path@) && valid_iface(interface@) && valid_member(member@),
            r matches Ok(m) ==> m@ == Msg::method_call(
                destination@,
                path@,
                interface@,
                member@,
            ),
            r matches Err(e) ==> e@ == if !valid_path(path@) {
                refusal("Object path"@, path@)
            } else if !valid_iface(interface@) {
                refusal("Interface name"@, interface@)
            } else {
                refusal("Member name"@, member@)
            },
    {
        let p = match Path::new(path) {
            Ok(p) => p,
            Err(e) => return Err(e),
        };
        let i = match IfaceName::new(interface) {
            Ok(i) => i,
            Err(e) => return Err(e),
        };
        let n = match Member::new(member) {
            Ok(n) => n,
            Err(e) => return Err(e),
        };
        Ok(
            Message {
                destination: Some(destination.to_owned()),
                path: Some(p),
                interface: Some(i),
                member: Some(n),
                ..blank(MessageType::MethodCall)
            },
        )
    }

    /// A signal from an object's interface.
    pub fn signal(path: &Path, interface: &IfaceName, member: &Member) -> (r: Message)
        ensures
            r@ == Msg::signal(path@, interface@, member@),
    {
        Message {
            path: Some(path.clone()),
            interface: Some(interface.clone()),
            member: Some(member.clone()),
            ..blank(MessageType::Signal)
        }
    }

    /// The empty reply to this call.
    pub fn method_return(&self) -> (r: Message)
        ensures
            r@ == self@.method_return(),
    {
        Message {
            destination: copy_option(&self.sender),
            reply_serial: self.serial,
            ..blank(MessageType::MethodReturn)
        }
    }

    /// The error reply to this call.
    pub fn error(&self, name: &ErrorName, text: &str) -> (r: Message)
        ensures
            r@ == self@.error(name@, text@),
    {
        let m = Message {
            error_name: Some(name.clone()),
            destination: copy_option(&self.sender),
            reply_serial: self.serial,
            ..blank(MessageType::Error)
        };
        let m = m.append(MessageItem::Str(text.to_owned()));
        assert(m@.items =~= seq![Item::Str(text@)]);
        m
    }

    /// Whether no text in the arguments holds a NUL.
    pub fn nul_free(&self) -> (r: bool)
        ensures
            r == self@.nul_free(),
    {
        items_nul_free(&self.items)
    }

    /// This message with one more argument.
    pub fn append(self, i: MessageItem) -> (r: Message)
        ensures
            r@ == self@.append(i@),
    {
        let mut m = self;
        proof {
            lemma_items_push(m.items@, i);
        }
        m.items.push(i);
        m
    }

    /// Adds arguments behind those that are there.
    pub fn append_items(&mut self, items: &[MessageItem])
        ensures
            final(self)@ == (Msg {
                items: old(self)@.items + items_view(items@),
                ..old(self)@
            }),
    {
        let mut i: usize = 0;
        let ghost start = self@;
        proof {
            assert(items@.take(0) =~= Seq::<MessageItem>::empty());
            assert(start.items + items_view(items@.take(0)) =~= start.items);
        }
        while i < items.len()
            invariant
                i <= items.len(),
                self@ == (Msg { items: start.items + items_view(items@.take(i as int)), ..start }),
            decreases items.len() - i,
        {
            let x = items[i].clone();
            proof {
                lemma_items_push(self.items@, x);
                lemma_items_push(items@.take(i as int), items@[i as int]);
                assert(items@.take(i + 1) =~= items@.take(i as int).push(items@[i as int]));
            }
            self.items.push(x);
            proof {
                assert(self@.items =~= start.items + items_view(items@.take(i + 1)));
            }
            i = i + 1;
        }
        assert(items@.take(i as int) =~= items@);
    }
}

} // verus!
