//! Names, arguments, texts and serving.
use dbus_tree::argument::Argument;
use dbus_tree::dispatch::{Callee, MCall};
use dbus_tree::error::{MethodErr, MethodResult};
use dbus_tree::factory::Factory;
use dbus_tree::item::MessageItem;
use dbus_tree::message::{Message, MessageType};
use dbus_tree::names::{ErrorName, IfaceName, Member, Path};
use dbus_tree::property::Access;
use dbus_tree::server::{ConnectionItem, Registering, ServerStep};
use dbus_tree::text::{Place, compare, has_char, strip_prefix};
use dbus_tree::tree::Objects;

#[derive(Debug)]
struct Pong;

impl MCall for Pong {
    fn call_method(&self, m: &Message, _: Callee<Pong>, _: &mut Objects<Pong>) -> MethodResult {
        if m.items.is_empty() {
            Ok(vec![m.method_return()])
        } else {
            Err(MethodErr::no_arg())
        }
    }
}

fn path(s: &str) -> Path {
    Path::new(s).unwrap()
}

fn iface(s: &str) -> IfaceName {
    IfaceName::new(s).unwrap()
}

fn member(s: &str) -> Member {
    Member::new(s).unwrap()
}

fn double(d: f64) -> MessageItem {
    MessageItem::Double(d.to_bits(), format!("{:?}", d))
}

#[test]
fn paths_follow_their_grammar() {
    for good in ["/", "/a", "/a/b_1", "/0/9"] {
        assert_eq!(path(good).as_str(), good);
    }
    for bad in ["", "a", "//", "/a/", "/a//b", "/a-b", "/a b", "/\u{e9}"] {
        assert!(Path::new(bad).is_err());
    }
    assert_eq!(Path::new("x"), Err("Object path was not valid: 'x'".to_string()));
}

#[test]
fn interface_names_follow_their_grammar() {
    for good in ["a.b", "org.freedesktop.DBus.Properties", "_a._1"] {
        assert_eq!(iface(good).as_str(), good);
        assert_eq!(ErrorName::new(good).unwrap().as_str(), good);
    }
    for bad in ["", "a", ".a", "a.", "a..b", "a.1b", "1a.b", "a.b-c"] {
        assert!(IfaceName::new(bad).is_err());
        assert!(ErrorName::new(bad).is_err());
    }
    let long = format!("a.{}", "b".repeat(253));
    assert!(IfaceName::new(&long).is_ok());
    assert!(IfaceName::new(&format!("{}b", long)).is_err());
    assert_eq!(IfaceName::new("x"), Err("Interface name was not valid: 'x'".to_string()));
}

#[test]
fn member_names_follow_their_grammar() {
    assert_eq!(member("Get_1").as_str(), "Get_1");
    for bad in ["", "1a", "a.b", "a-b"] {
        assert!(Member::new(bad).is_err());
    }
    assert!(Member::new(&"m".repeat(255)).is_ok());
    assert!(Member::new(&"m".repeat(256)).is_err());
}

#[test]
fn a_call_needs_names_that_follow_their_grammars() {
    let m = Message::new_method_call("x.y", "/a", "b.c", "D").unwrap();
    assert_eq!(m.msg_type, MessageType::MethodCall);
    assert_eq!(m.destination, Some("x.y".to_string()));
    assert_eq!(m.path, Some(path("/a")));
    assert_eq!(m.interface, Some(iface("b.c")));
    assert_eq!(m.member, Some(member("D")));
    let e = Message::new_method_call("x.y", "a", "b", "D").unwrap_err();
    assert_eq!(e, "Object path was not valid: 'a'");
    let e = Message::new_method_call("x.y", "/a", "b", "1").unwrap_err();
    assert_eq!(e, "Interface name was not valid: 'b'");
    let e = Message::new_method_call("x.y", "/a", "b.c", "1").unwrap_err();
    assert_eq!(e, "Member name was not valid: '1'");
}

#[test]
fn signatures_name_the_types() {
    let s = |i: MessageItem| i.type_sig();
    assert_eq!(s(MessageItem::Byte(0)), "y");
    assert_eq!(s(MessageItem::Bool(true)), "b");
    assert_eq!(s(MessageItem::Int16(0)), "n");
    assert_eq!(s(MessageItem::UInt16(0)), "q");
    assert_eq!(s(MessageItem::Int32(0)), "i");
    assert_eq!(s(MessageItem::UInt32(0)), "u");
    assert_eq!(s(MessageItem::Int64(0)), "x");
    assert_eq!(s(MessageItem::UInt64(0)), "t");
    assert_eq!(s(double(1.5)), "d");
    assert_eq!(s(MessageItem::UnixFd(0)), "h");
    assert_eq!(s(MessageItem::Str(String::new())), "s");
    assert_eq!(s(MessageItem::ObjectPath(path("/"))), "o");
    assert_eq!(s(MessageItem::Variant(Box::new(MessageItem::Byte(0)))), "v");
    assert_eq!(s(MessageItem::Array(vec![], "(si)".to_string())), "a(si)");
    let pair = vec![MessageItem::Str(String::new()), MessageItem::Int32(1)];
    assert_eq!(s(MessageItem::Struct(pair)), "(si)");
    let e = MessageItem::DictEntry(
        Box::new(MessageItem::Str(String::new())),
        Box::new(MessageItem::Byte(0)),
    );
    assert_eq!(s(e.clone()), "{sy}");
    assert_eq!(e.clone(), e);
}

#[test]
fn arguments_are_described() {
    let named = Argument::from(("n", "s"));
    assert_eq!(named.introspect("  ", " direction=\"in\""), "  <arg name=\"n\" type=\"s\" direction=\"in\"/>\n");
    assert_eq!(Argument::from("i").introspect("", ""), "<arg type=\"i\"/>\n");
    assert_eq!(Argument::from("i".to_string()), Argument::new(None, "i".to_string()));
    assert_eq!(named, Argument::new(Some("n".to_string()), "s".to_string()));
    let all = vec![named.clone(), Argument::from("i")];
    assert_eq!(
        Argument::introspect_all(&all, " ", ""),
        " <arg name=\"n\" type=\"s\"/>\n <arg type=\"i\"/>\n"
    );
}

#[test]
fn annotations_are_described() {
    let f: Factory<Pong> = Factory::new_fn();
    let i = f
        .interface(iface("a.b"))
        .add_m(
            f.method(member("M"), Pong)
                .in_args(vec![("x", "i"), ("y", "u")])
                .out_args(vec!["s", "b"])
                .annotate("z.z", "2")
                .deprecated(),
        )
        .add_p(f.property("P", MessageItem::Byte(0)).access(Access::Write).annotate("k.k", "v"))
        .add_p(f.property("Q", MessageItem::Byte(0)).access(Access::ReadWrite).deprecated())
        .add_s(f.signal(member("S")).args(vec!["i"]).annotate("k.k", "v").annotate("k.k", "w"))
        .add_s(f.signal(member("T")).deprecated())
        .annotate("k.k", "v")
        .deprecated();
    let want = r##"    <method name="M">
      <arg name="x" type="i" direction="in"/>
      <arg name="y" type="u" direction="in"/>
      <arg type="s" direction="out"/>
      <arg type="b" direction="out"/>
      <annotation name="org.freedesktop.DBus.Deprecated" value="true"/>
      <annotation name="z.z" value="2"/>
    </method>
    <property name="P" type="y" access="write">
      <annotation name="k.k" value="v"/>
    </property>
    <property name="Q" type="y" access="readwrite">
      <annotation name="org.freedesktop.DBus.Deprecated" value="true"/>
    </property>
    <signal name="S">
      <arg type="i"/>
      <annotation name="k.k" value="w"/>
    </signal>
    <signal name="T">
      <annotation name="org.freedesktop.DBus.Deprecated" value="true"/>
    </signal>
    <annotation name="k.k" value="v"/>
    <annotation name="org.freedesktop.DBus.Deprecated" value="true"/>
"##;
    assert_eq!(i.introspect(), want);
}

#[test]
fn texts_are_compared_and_cut() {
    assert_eq!(compare("a", "b"), Place::Before);
    assert_eq!(compare("b", "a"), Place::After);
    assert_eq!(compare("ab", "ab"), Place::Same);
    assert_eq!(compare("a", "ab"), Place::Before);
    assert_eq!(strip_prefix("/a/b", "/a/"), Some("b"));
    assert_eq!(strip_prefix("/a", "/a/"), None);
    assert_eq!(strip_prefix("\u{e9}x", "\u{e9}"), Some("x"));
    assert!(has_char("a/b", '/'));
    assert!(!has_char("ab", '/'));
}

#[test]
fn a_server_consumes_what_the_tree_handles() {
    let f: Factory<Pong> = Factory::new_fn();
    let i = f.interface(iface("a.b")).add_m(f.method(member("Ping"), Pong));
    let mut t = f.tree().add(f.object_path(path("/a")).add(i));
    let mut server = t.run();
    let ping = Message::new_method_call("x.y", "/a", "a.b", "Ping").unwrap();
    let reply = ping.method_return();
    match server.next::<u8>(Some(ConnectionItem::MethodCall(ping))) {
        ServerStep::Send(v) => assert_eq!(v, vec![reply]),
        ServerStep::Pass(_) => panic!("passed"),
    }
    let away = Message::new_method_call("x.y", "/b", "a.b", "Ping").unwrap();
    match server.next::<u8>(Some(ConnectionItem::MethodCall(away))) {
        ServerStep::Pass(Some(ConnectionItem::MethodCall(m))) => {
            assert_eq!(m.path, Some(path("/b")))
        }
        _ => panic!("consumed"),
    }
    match server.next(Some(ConnectionItem::Other(5u8))) {
        ServerStep::Pass(n) => assert_eq!(n, Some(ConnectionItem::Other(5))),
        ServerStep::Send(_) => panic!("consumed"),
    }
    assert!(matches!(server.next::<u8>(None), ServerStep::Pass(None)));
}

#[test]
fn paths_are_registered_in_order() {
    let f: Factory<Pong> = Factory::new_fn();
    let t = f.tree().add(f.object_path(path("/b"))).add(f.object_path(path("/a")));
    let mut r = t.set_registered(true);
    assert!(matches!(r.step(false), Registering::Register(p) if p.as_str() == "/a"));
    assert!(matches!(r.step(false), Registering::Register(p) if p.as_str() == "/b"));
    assert!(matches!(r.step(false), Registering::Finished(true)));
    let mut r = t.set_registered(true);
    assert!(matches!(r.step(false), Registering::Register(_)));
    assert!(matches!(r.step(true), Registering::Finished(false)));
    let mut r = t.set_registered(false);
    assert!(matches!(r.step(false), Registering::Unregister(p) if p.as_str() == "/a"));
    assert!(matches!(r.step(true), Registering::Unregister(p) if p.as_str() == "/b"));
    assert!(matches!(r.step(false), Registering::Finished(true)));
}

#[test]
fn arguments_are_shown() {
    let list = || {
        vec![
            MessageItem::Str("a\"b\n\u{e9}".to_string()),
            MessageItem::Int16(-32768),
            MessageItem::Int64(-9223372036854775808),
            MessageItem::Int64(9223372036854775807),
            MessageItem::UInt64(18446744073709551615),
            MessageItem::UnixFd(-1),
            MessageItem::Byte(0),
            MessageItem::UInt16(65535),
            MessageItem::UInt32(100),
            MessageItem::Int32(7),
            MessageItem::Bool(true),
            MessageItem::Bool(false),
            MessageItem::ObjectPath(path("/a/b")),
        ]
    };
    for i in list() {
        assert_eq!(i.shown(), format!("{:?}", i));
    }
    let nested = vec![
        MessageItem::Array(list(), "v".to_string()),
        MessageItem::Array(vec![], "{sv}".to_string()),
        MessageItem::Struct(list()),
        MessageItem::Variant(Box::new(MessageItem::Struct(vec![MessageItem::Byte(1)]))),
        MessageItem::DictEntry(
            Box::new(MessageItem::Byte(1)),
            Box::new(MessageItem::Variant(Box::new(MessageItem::Byte(2)))),
        ),
    ];
    for i in nested {
        assert_eq!(i.shown(), format!("{:?}", i));
    }
    assert_eq!(double(1.5).shown(), "Double(1.5)");
    assert_eq!(double(-0.0).shown(), "Double(-0.0)");
    assert_eq!(MessageItem::Variant(Box::new(double(2.0))).shown(), "Variant(Double(2.0))");
    assert_eq!(MessageItem::Int32(-120).shown(), "Int32(-120)");
    assert_eq!(MessageItem::Str("x".to_string()).shown(), "Str(\"x\")");
}

#[test]
fn a_failed_registration_is_taken_back() {
    let f: Factory<Pong> = Factory::new_fn();
    let t = f
        .tree()
        .add(f.object_path(path("/a")))
        .add(f.object_path(path("/b")))
        .add(f.object_path(path("/c")))
        .add(f.object_path(path("/d")));
    let mut r = t.set_registered(true);
    assert!(matches!(r.step(false), Registering::Register(p) if p.as_str() == "/a"));
    assert!(matches!(r.step(false), Registering::Register(p) if p.as_str() == "/b"));
    assert!(matches!(r.step(true), Registering::Unregister(p) if p.as_str() == "/a"));
    assert!(matches!(r.step(false), Registering::Finished(false)));
    assert!(matches!(r.step(false), Registering::Finished(false)));
    let mut r = t.set_registered(true);
    for _ in 0..3 {
        assert!(matches!(r.step(false), Registering::Register(_)));
    }
    assert!(matches!(r.step(true), Registering::Unregister(p) if p.as_str() == "/a"));
    assert!(matches!(r.step(false), Registering::Unregister(p) if p.as_str() == "/b"));
    assert!(matches!(r.step(false), Registering::Finished(false)));
}

#[test]
fn a_run_of_items_passes_what_is_not_taken() {
    let f: Factory<Pong> = Factory::new_fn();
    let i = f.interface(iface("a.b")).add_m(f.method(member("Ping"), Pong));
    let mut t = f.tree().add(f.object_path(path("/a")).add(i));
    let mut server = t.run();
    let call = |p: &str| {
        ConnectionItem::MethodCall(Message::new_method_call("x.y", p, "a.b", "Ping").unwrap())
    };
    let items = vec![
        ConnectionItem::Other(1u8),
        call("/a"),
        call("/b"),
        call("/a"),
        ConnectionItem::Other(2u8),
    ];
    let mut passed = Vec::new();
    for n in items {
        if let ServerStep::Pass(Some(n)) = server.next(Some(n)) {
            passed.push(n);
        }
    }
    assert_eq!(passed, vec![ConnectionItem::Other(1), call("/b"), ConnectionItem::Other(2)]);
}

#[test]
fn introspection_text_splits() {
    let f: Factory<Pong> = Factory::new_fn();
    let both = f.interface(iface("a.b")).add_s(f.signal(member("S"))).add_s(f.signal(member("T")));
    let one = f.interface(iface("a.b")).add_s(f.signal(member("S")));
    let two = f.interface(iface("a.b")).add_s(f.signal(member("T")));
    assert_eq!(both.introspect(), one.introspect() + &two.introspect());
    assert_eq!(f.interface(iface("a.b")).introspect(), "");
}
