//! Trees with callbacks, as a user builds them.
use dbus_tree::dispatch::{Callee, MCall};
use dbus_tree::error::{MethodErr, MethodResult};
use dbus_tree::factory::Factory;
use dbus_tree::interface::EntryRef;
use dbus_tree::item::MessageItem;
use dbus_tree::message::{Message, MessageType};
use dbus_tree::names::{IfaceName, Member, Path};
use dbus_tree::property::Access;
use dbus_tree::tree::Objects;
use std::cell::RefCell;
use std::fmt;
use std::rc::Rc;
use std::sync::Arc;

struct OnCall(Box<dyn Fn(&Message, Callee<OnCall>, &mut Objects<OnCall>) -> MethodResult>);

impl fmt::Debug for OnCall {
    fn fmt(&self, f: &mut fmt::Formatter) -> fmt::Result {
        f.write_str("<Fn>")
    }
}

impl MCall for OnCall {
    fn call_method(&self, m: &Message, o: Callee<OnCall>, t: &mut Objects<OnCall>) -> MethodResult {
        (self.0)(m, o, t)
    }
}

fn on_call<H>(h: H) -> OnCall
where
    H: Fn(&Message, Callee<OnCall>, &mut Objects<OnCall>) -> MethodResult + 'static,
{
    OnCall(Box::new(h))
}

struct OnSync(Box<dyn Fn(&Message, Callee<OnSync>, &mut Objects<OnSync>) -> MethodResult + Send + Sync>);

impl fmt::Debug for OnSync {
    fn fmt(&self, f: &mut fmt::Formatter) -> fmt::Result {
        f.write_str("<Fn + Send + Sync>")
    }
}

impl MCall for OnSync {
    fn call_method(&self, m: &Message, o: Callee<OnSync>, t: &mut Objects<OnSync>) -> MethodResult {
        (self.0)(m, o, t)
    }
}

fn path(s: &str) -> Path {
    Path::new(s).unwrap()
}

fn iface(s: &str) -> IfaceName {
    IfaceName::new(s).unwrap()
}

fn member(s: &str) -> Member {
    Member::new(s).unwrap()
}

fn text(s: &str) -> MessageItem {
    MessageItem::Str(s.to_string())
}

fn variant(i: MessageItem) -> MessageItem {
    MessageItem::Variant(Box::new(i))
}

fn inner(i: &MessageItem) -> &MessageItem {
    match i {
        MessageItem::Variant(x) => x,
        _ => panic!("not a variant"),
    }
}

fn number(i: &MessageItem) -> i32 {
    match i {
        MessageItem::Int32(x) => *x,
        _ => panic!("not an i32"),
    }
}

#[test]
fn factory_test() {
    let f: Factory<OnCall> = Factory::new_fn();
    f.interface(iface("com.example.hello")).deprecated();
    let b = 5i32;
    let get = f.method(
        member("GetSomething"),
        on_call(move |m, _, _| {
            Ok(vec![{
                let mut z = m.method_return();
                z.append_items(&[MessageItem::Int32(b)]);
                z
            }])
        }),
    );
    let t = f.tree().add(
        f.object_path(path("/funghi")).add(f.interface(iface("a.b.c")).deprecated()),
    );
    let t = t
        .add(f.object_path(path("/ab")))
        .add(f.object_path(path("/a")))
        .add(f.object_path(path("/a/b/c")))
        .add(f.object_path(path("/a/b")));
    assert_eq!(t.children(t.object("/a").unwrap(), true).len(), 1);

    let mut t = t.add(f.object_path(path("/get")).add(f.interface(iface("a.b.c")).add_m(get)));
    let m = Message::new_method_call("com.example", "/get", "a.b.c", "GetSomething").unwrap();
    let r = t.handle(&m).unwrap();
    assert_eq!(r.len(), 1);
    assert_eq!(r[0], m.method_return().append(MessageItem::Int32(5)));
}

#[test]
fn test_sync_prop() {
    let f: Factory<OnSync> = Factory::new_sync();
    let mut i = f.interface(iface("com.example.echo"));
    let p = i.add_p_ref(f.property("EchoCount", MessageItem::Int32(7)));
    let mut tree = f.tree().add(f.object_path(path("/echo")).introspectable().add(i));
    println!("{:#?}", tree);

    let r = tree.set_property("/echo", &p, MessageItem::Int32(9)).unwrap().unwrap();
    let signal = r.get(0).unwrap();
    assert_eq!(signal.msg_type, MessageType::Signal);
    let mut msg =
        Message::new_method_call("com.example.echoserver", "/echo", "com.example", "dummy")
            .unwrap();
    msg.serial = 3;
    tree.handle(&msg);

    let mut msg = Message::new_method_call(
        "com.example.echoserver",
        "/echo",
        "org.freedesktop.DBus.Properties",
        "Get",
    )
    .unwrap()
    .append(text("com.example.echo"))
    .append(text("EchoCount"));
    msg.serial = 4;
    let r = tree.handle(&msg).unwrap();
    let r1 = r.get(0).unwrap();
    let vv = inner(r1.items.get(0).unwrap());
    let v: i32 = number(vv);
    assert!(v == 7 || v == 9);
}

#[test]
fn prop_lifetime_simple() {
    let f: Factory<OnCall> = Factory::new_fnmut();
    let mut i = f.interface(iface("com.example.dbus.rs"));
    let count = i.add_p_ref(f.property("changes", MessageItem::Int32(0)));

    let _setme = i.add_p_ref(
        f.property("setme", MessageItem::Byte(0)).access(Access::ReadWrite).on_set(on_call(
            move |_, o, t| {
                let v: i32 = number(&t.property(o.path.as_str(), &count).unwrap().get_value());
                t.set_property(o.path.as_str(), &count, MessageItem::Int32(v + 1)).unwrap().unwrap();
                Ok(vec![])
            },
        )),
    );
}

#[test]
fn prop_server() {
    let setme: Rc<RefCell<Option<EntryRef>>> = Rc::new(RefCell::new(None));
    let f: Factory<OnCall> = Factory::new_fnmut();
    let mut i = f.interface(iface("com.example.dbus.rs"));
    let count = Rc::new(i.add_p_ref(f.property("changes", MessageItem::Int32(0))));
    let (setme2, count2) = (setme.clone(), count.clone());
    *setme.borrow_mut() = Some(i.add_p_ref(
        f.property("setme", MessageItem::Byte(0)).access(Access::ReadWrite).on_set(on_call(
            move |m, o, t| {
                let ss2 = setme2.borrow();
                let ss = ss2.as_ref().unwrap();
                let s = t.property(o.path.as_str(), ss).unwrap().verify_remote_set(m)?;
                let r = t
                    .set_property(o.path.as_str(), ss, s)
                    .unwrap()
                    .map_err(|_| MethodErr::ro_property(ss.name()))?;
                let v: i32 = number(&t.property(o.path.as_str(), &count2).unwrap().get_value());
                t.set_property(o.path.as_str(), &count2, MessageItem::Int32(v + 1)).unwrap().unwrap();
                Ok(r)
            },
        )),
    ));
    let mut tree = f.tree().add(f.object_path(path("/example")).add(i));

    let mut msg = Message::new_method_call(
        "com.example.dbus.rs",
        "/example",
        "org.freedesktop.DBus.Properties",
        "Get",
    )
    .unwrap()
    .append(text("com.example.dbus.rs"))
    .append(text("changes"));
    msg.serial = 10;
    let r = tree.handle(&msg).unwrap();
    let r1 = r.get(0).unwrap();
    let vv = inner(r1.items.get(0).unwrap());
    let v: i32 = number(vv);
    assert_eq!(v, 0);

    // Read-only
    let mut msg = Message::new_method_call(
        "com.example.dbus.rs",
        "/example",
        "org.freedesktop.DBus.Properties",
        "Set",
    )
    .unwrap()
    .append(text("com.example.dbus.rs"))
    .append(text("changes"))
    .append(MessageItem::Int32(5));
    msg.serial = 20;
    let r = tree.handle(&msg).unwrap();
    assert!(r.get(0).unwrap().msg_type == MessageType::Error);

    // Wrong type
    let mut msg = Message::new_method_call(
        "com.example.dbus.rs",
        "/example",
        "org.freedesktop.DBus.Properties",
        "Set",
    )
    .unwrap()
    .append(text("com.example.dbus.rs"))
    .append(text("setme"))
    .append(MessageItem::Int32(8));
    msg.serial = 30;
    let r = tree.handle(&msg).unwrap();
    assert!(r.get(0).unwrap().msg_type == MessageType::Error);

    // Correct!
    let mut msg = Message::new_method_call(
        "com.example.dbus.rs",
        "/example",
        "org.freedesktop.DBus.Properties",
        "Set",
    )
    .unwrap()
    .append(text("com.example.dbus.rs"))
    .append(text("setme"))
    .append(variant(MessageItem::Byte(9)));
    msg.serial = 30;
    let r = tree.handle(&msg).unwrap();

    println!("{:?}", r[0]);

    let c: i32 = number(&tree.property("/example", &count).unwrap().get_value());
    assert_eq!(c, 1);

    // The callback's own messages come first, the reply comes last.
    assert_eq!(r.len(), 2);
    assert_eq!(r[0].msg_type, MessageType::Signal);
    assert_eq!(r[1], msg.method_return());
    let setme = setme.borrow();
    assert_eq!(
        tree.property("/example", setme.as_ref().unwrap()).unwrap().get_value(),
        MessageItem::Byte(9)
    );
}

#[test]
fn test_introspection() {
    let f: Factory<OnSync> = Factory::new_sync();
    let t = f.object_path(path("/echo")).introspectable().add(
        f.interface(iface("com.example.echo"))
            .add_m(
                f.method(member("Echo"), OnSync(Box::new(|_, _, _| unreachable!())))
                    .in_arg(("request", "s"))
                    .out_arg(("reply", "s")),
            )
            .add_p(f.property("EchoCount", MessageItem::Int32(7)))
            .add_s(f.signal(member("Echoed")).arg(("data", "s"))),
    );

    let actual_result = t.introspect(&f.tree().add(f.object_path(path("/echo/subpath"))));
    println!(
        "\n=== Introspection XML start ===\n{}\n=== Introspection XML end ===",
        actual_result
    );

    let expected_result = r##"<!DOCTYPE node PUBLIC "-//freedesktop//DTD D-BUS Object Introspection 1.0//EN" "http://www.freedesktop.org/standards/dbus/1.0/introspect.dtd">
<node name="/echo">
  <interface name="com.example.echo">
    <method name="Echo">
      <arg name="request" type="s" direction="in"/>
      <arg name="reply" type="s" direction="out"/>
    </method>
    <property name="EchoCount" type="i" access="read"/>
    <signal name="Echoed">
      <arg name="data" type="s"/>
    </signal>
  </interface>
  <interface name="org.freedesktop.DBus.Introspectable">
    <method name="Introspect">
      <arg name="xml_data" type="s" direction="out"/>
    </method>
  </interface>
  <interface name="org.freedesktop.DBus.Properties">
    <method name="Get">
      <arg name="interface_name" type="s" direction="in"/>
      <arg name="property_name" type="s" direction="in"/>
      <arg name="value" type="v" direction="out"/>
    </method>
    <method name="GetAll">
      <arg name="interface_name" type="s" direction="in"/>
      <arg name="props" type="a{sv}" direction="out"/>
    </method>
    <method name="Set">
      <arg name="interface_name" type="s" direction="in"/>
      <arg name="property_name" type="s" direction="in"/>
      <arg name="value" type="v" direction="in"/>
    </method>
  </interface>
  <node name="subpath"/>
</node>"##;

    assert_eq!(expected_result, actual_result);
}

#[test]
fn a_callback_sees_the_call_the_path_and_the_tree() {
    let seen: Rc<RefCell<Vec<String>>> = Rc::new(RefCell::new(Vec::new()));
    let seen2 = seen.clone();
    let f: Factory<OnCall> = Factory::new_fn();
    let m = f.method_sync(
        member("Count"),
        on_call(move |m, o, t| {
            seen2.borrow_mut().push(o.path.as_str().to_string());
            Ok(vec![m.method_return().append(MessageItem::UInt32(t.paths().len() as u32))])
        }),
    );
    let mut t = f
        .tree()
        .add(f.object_path(path("/a")).add(f.interface(iface("a.b")).add_m(m)))
        .add(f.object_path(path("/b")));
    let mut call = Message::new_method_call("x.y", "/a", "a.b", "Count").unwrap();
    call.serial = 77;
    call.sender = Some(":1.5".to_string());
    let r = t.handle(&call).unwrap();
    assert_eq!(*seen.borrow(), vec!["/a".to_string()]);
    assert_eq!(r.len(), 1);
    assert_eq!(r[0].msg_type, MessageType::MethodReturn);
    assert_eq!(r[0].reply_serial, 77);
    assert_eq!(r[0].destination, Some(":1.5".to_string()));
    assert_eq!(r[0].items, vec![MessageItem::UInt32(2)]);
}

#[test]
fn an_error_of_a_callback_is_the_answer() {
    let f: Factory<OnCall> = Factory::new_fn();
    let m = f.method(member("Fail"), on_call(|_, _, _| Err(MethodErr::failed("no luck"))));
    let mut t =
        f.tree().add(f.object_path(path("/a")).add(f.interface(iface("a.b")).add_m(m)));
    let call = Message::new_method_call("x.y", "/a", "a.b", "Fail").unwrap();
    let r = t.handle(&call).unwrap();
    assert_eq!(r.len(), 1);
    assert_eq!(r[0].msg_type, MessageType::Error);
    assert_eq!(
        r[0].error_name.as_ref().unwrap().as_str(),
        "org.freedesktop.DBus.Error.Failed"
    );
    assert_eq!(r[0].items, vec![text("no luck")]);
}

#[test]
fn a_method_is_called_directly() {
    let f: Factory<OnCall> = Factory::new_fn();
    let m = f.method(member("Ping"), on_call(|m, _, _| Ok(vec![m.method_return()])));
    let mut t = f.tree().add(f.object_path(path("/a")));
    let call = Message::new_method_call("x.y", "/a", "a.b", "Ping").unwrap();
    let mut other = f.object_path(path("/other"));
    let r = m.call(&call, &mut other, &mut t).unwrap();
    assert_eq!(r, vec![call.method_return()]);
}

#[test]
fn a_callback_sees_an_object_outside_the_tree() {
    let f: Factory<OnCall> = Factory::new_fn();
    let show = || {
        f.method(
            member("Show"),
            on_call(|m, o, t| {
                let n = o.find(t).unwrap().interfaces().len();
                Ok(vec![m.method_return().append(MessageItem::UInt32(n as u32))])
            }),
        )
    };
    let call = Message::new_method_call("x.y", "/a", "a.b", "Show").unwrap();
    let mut t = f.tree().add(
        f.object_path(path("/a"))
            .add(f.interface(iface("a.b")).add_m(show()))
            .add(f.interface(iface("c.d"))),
    );
    let mut outside = f.object_path(path("/a")).add(f.interface(iface("a.b")));
    let r = show().call(&call, &mut outside, &mut t).unwrap();
    assert_eq!(r, vec![call.method_return().append(MessageItem::UInt32(1))]);
    let r = t.handle(&call).unwrap();
    assert_eq!(r, vec![call.method_return().append(MessageItem::UInt32(2))]);
}

#[test]
fn a_refusing_callback_leaves_the_property() {
    let f: Factory<OnCall> = Factory::new_fn();
    let mut i = f.interface(iface("a.b"));
    let p = i.add_p_ref(
        f.property("P", MessageItem::Byte(1))
            .access(Access::ReadWrite)
            .on_set(on_call(|_, _, _| Err(MethodErr::failed(&5)))),
    );
    let mut t = f.tree().add(f.object_path(path("/a")).add(i));
    let call =
        Message::new_method_call("x.y", "/a", "org.freedesktop.DBus.Properties", "Set")
            .unwrap()
            .append(text("a.b"))
            .append(text("P"))
            .append(variant(MessageItem::Byte(2)));
    let r = t.handle(&call).unwrap();
    assert_eq!(r.len(), 1);
    assert_eq!(r[0].items, vec![text("5")]);
    assert_eq!(t.property("/a", &p).unwrap().get_value(), MessageItem::Byte(1));
}

fn crosses_threads<T: Send + Sync>(_: &T) -> bool {
    true
}

#[test]
fn a_tree_of_thread_safe_callbacks_is_thread_safe() {
    let f: Factory<OnSync> = Factory::new_sync();
    let tree = Arc::new(f.tree().add(f.object_path(path("/echo"))));
    assert!(crosses_threads(&tree));
}

#[test]
fn a_callback_handles_further_messages() {
    let f: Factory<OnCall> = Factory::new_fn();
    let inner = f.method(member("Inner"), on_call(|m, _, _| Ok(vec![m.method_return()])));
    let outer = f.method(
        member("Outer"),
        on_call(|m, _, t| {
            let call = Message::new_method_call("x.y", "/b", "a.b", "Inner").unwrap();
            let r = t.handle(&call).unwrap();
            Ok(vec![m.method_return().append(MessageItem::UInt32(r.len() as u32))])
        }),
    );
    let mut t = f
        .tree()
        .add(f.object_path(path("/a")).add(f.interface(iface("a.b")).add_m(outer)))
        .add(f.object_path(path("/b")).add(f.interface(iface("a.b")).add_m(inner)));
    let call = Message::new_method_call("x.y", "/a", "a.b", "Outer").unwrap();
    let r = t.handle(&call).unwrap();
    assert_eq!(r, vec![call.method_return().append(MessageItem::UInt32(1))]);
    assert_eq!(t.paths().len(), 2);
}
