//! Calls to the standard interfaces, and what they are answered.
use dbus_tree::dispatch::{Callee, Dispatch, MCall};
use dbus_tree::error::{MethodErr, MethodResult};
use dbus_tree::factory::Factory;
use dbus_tree::interface::{EntryRef, Interface};
use dbus_tree::item::MessageItem;
use dbus_tree::message::{Message, MessageType};
use dbus_tree::names::{ErrorName, IfaceName, Member, Path};
use dbus_tree::property::{Access, EmitsChangedSignal};
use dbus_tree::tree::{Objects, Tree};

#[derive(Debug)]
struct NoCall;

impl MCall for NoCall {
    fn call_method(&self, _: &Message, _: Callee<NoCall>, _: &mut Objects<NoCall>) -> MethodResult {
        Err(MethodErr::failed("not called"))
    }
}

const PROPERTIES: &str = "org.freedesktop.DBus.Properties";

fn factory() -> Factory<NoCall> {
    Factory::new_fn()
}

fn path(s: &str) -> Path {
    Path::new(s).unwrap()
}

fn iface(s: &str) -> IfaceName {
    IfaceName::new(s).unwrap()
}

fn member(s: &str) -> Member {
    Member::new(s).unwrap()
}

fn text(s: &str) -> MessageItem {
    MessageItem::Str(s.to_string())
}

fn variant(i: MessageItem) -> MessageItem {
    MessageItem::Variant(Box::new(i))
}

fn entry(k: MessageItem, v: MessageItem) -> MessageItem {
    MessageItem::DictEntry(Box::new(k), Box::new(v))
}

fn array(v: Vec<MessageItem>, sig: &str) -> MessageItem {
    MessageItem::Array(v, sig.to_string())
}

fn call(interface: &str, member: &str, items: Vec<MessageItem>) -> Message {
    let mut m = Message::new_method_call("x.y", "/obj", interface, member).unwrap();
    m.serial = 42;
    m.sender = Some(":1.9".to_string());
    m.append_items(&items);
    m
}

fn get(name: &str) -> Message {
    call(PROPERTIES, "Get", vec![text("a.b"), text(name)])
}

fn set(name: &str, v: MessageItem) -> Message {
    call(PROPERTIES, "Set", vec![text("a.b"), text(name), variant(v)])
}

/// A tree with one property of each access.
fn tree() -> Tree<NoCall> {
    let f = factory();
    f.tree().add(f.object_path(path("/obj")).add(properties_of(&f)))
}

fn properties_of(f: &Factory<NoCall>) -> Interface<NoCall> {
    f.interface(iface("a.b"))
        .add_p(f.property("Fixed", MessageItem::Int32(3)))
        .add_p(f.property("Both", MessageItem::Byte(1)).access(Access::ReadWrite))
}

fn with_write_only() -> Tree<NoCall> {
    let f = factory();
    let i = properties_of(&f)
        .add_p(f.property("In", MessageItem::Bool(false)).access(Access::Write));
    f.tree().add(f.object_path(path("/obj")).add(i))
}

fn refused(t: &mut Tree<NoCall>, m: &Message) -> (String, String) {
    let r = t.handle(m).unwrap();
    assert_eq!(r.len(), 1);
    assert_eq!(r[0].msg_type, MessageType::Error);
    assert_eq!(r[0].reply_serial, m.serial);
    assert_eq!(r[0].destination, m.sender);
    let name = r[0].error_name.as_ref().unwrap().as_str().to_string();
    match &r[0].items[..] {
        [MessageItem::Str(s)] => (name, s.clone()),
        _ => panic!("no text"),
    }
}

fn says(name: &str, s: &str) -> (String, String) {
    (format!("org.freedesktop.DBus.Error.{}", name), s.to_string())
}

#[test]
fn get_gives_the_value_in_a_variant() {
    let mut t = tree();
    let m = get("Fixed");
    let r = t.handle(&m).unwrap();
    assert_eq!(r, vec![m.method_return().append(variant(MessageItem::Int32(3)))]);
    assert_eq!(r[0].reply_serial, 42);
    assert_eq!(r[0].destination, Some(":1.9".to_string()));
}

#[test]
fn what_is_set_is_read() {
    let mut t = tree();
    let m = set("Both", MessageItem::Byte(200));
    let r = t.handle(&m).unwrap();
    let signal = Message::signal(&path("/obj"), &iface(PROPERTIES), &member("PropertiesChanged"))
        .append(text("a.b"))
        .append(array(vec![entry(text("Both"), variant(MessageItem::Byte(200)))], "{sv}"));
    assert_eq!(r, vec![signal, m.method_return()]);
    let g = get("Both");
    assert_eq!(
        t.handle(&g).unwrap(),
        vec![g.method_return().append(variant(MessageItem::Byte(200)))]
    );
    let g = get("Fixed");
    assert_eq!(
        t.handle(&g).unwrap(),
        vec![g.method_return().append(variant(MessageItem::Int32(3)))]
    );
}

#[test]
fn a_read_only_property_is_not_set() {
    let mut t = tree();
    assert_eq!(
        refused(&mut t, &set("Fixed", MessageItem::Int32(4))),
        says("PropertyReadOnly", "Property Fixed is read only")
    );
    let g = get("Fixed");
    assert_eq!(
        t.handle(&g).unwrap(),
        vec![g.method_return().append(variant(MessageItem::Int32(3)))]
    );
}

#[test]
fn a_property_keeps_its_type() {
    let mut t = tree();
    assert_eq!(
        refused(&mut t, &set("Both", MessageItem::UInt32(4))),
        says("Failed", "Property Both cannot change type to u")
    );
    let g = get("Both");
    assert_eq!(
        t.handle(&g).unwrap(),
        vec![g.method_return().append(variant(MessageItem::Byte(1)))]
    );
}

#[test]
fn a_write_only_property_is_set_and_not_read() {
    let mut t = with_write_only();
    assert_eq!(refused(&mut t, &get("In")), says("Failed", "Property In is write only"));
    let r = t.handle(&set("In", MessageItem::Bool(true))).unwrap();
    assert_eq!(r.len(), 2);
    let o = t.object("/obj").unwrap();
    let v = o.interface("a.b").unwrap().property("In").unwrap().get_value();
    assert_eq!(v, MessageItem::Bool(true));
}

#[test]
fn get_all_gives_all_in_order() {
    let mut t = tree();
    let m = call(PROPERTIES, "GetAll", vec![text("a.b")]);
    let list = vec![
        entry(text("Both"), variant(MessageItem::Byte(1))),
        entry(text("Fixed"), variant(MessageItem::Int32(3))),
    ];
    let r = t.handle(&m).unwrap();
    assert_eq!(r, vec![m.method_return().append(array(list, "{sv}"))]);
    assert_eq!(r[0].items[0].type_sig(), "a{sv}");
    if let MessageItem::Array(v, sig) = &r[0].items[0] {
        assert_eq!(v[0].type_sig(), *sig);
    }
}

#[test]
fn get_all_is_refused_by_a_write_only_property() {
    let mut t = with_write_only();
    let m = call(PROPERTIES, "GetAll", vec![text("a.b")]);
    assert_eq!(refused(&mut t, &m), says("Failed", "Property In is write only"));
}

#[test]
fn arguments_are_checked_from_the_first_on() {
    let mut t = tree();
    for method in ["Get", "GetAll", "Set"] {
        assert_eq!(
            refused(&mut t, &call(PROPERTIES, method, vec![])),
            says("InvalidArgs", "Not enough arguments")
        );
        assert_eq!(
            refused(&mut t, &call(PROPERTIES, method, vec![MessageItem::Int32(5)])),
            says("InvalidArgs", "Invalid argument Int32(5)")
        );
    }
    for method in ["Get", "Set"] {
        assert_eq!(
            refused(&mut t, &call(PROPERTIES, method, vec![text("a.b")])),
            says("InvalidArgs", "Not enough arguments")
        );
        assert_eq!(
            refused(&mut t, &call(PROPERTIES, method, vec![text("bad"), MessageItem::Bool(true)])),
            says("InvalidArgs", "Invalid argument Bool(true)")
        );
    }
    assert_eq!(
        refused(&mut t, &call(PROPERTIES, "Set", vec![text("a.b"), text("Both")])),
        says("InvalidArgs", "Not enough arguments")
    );
    assert_eq!(
        refused(
            &mut t,
            &call(PROPERTIES, "Set", vec![text("a.b"), text("Both"), MessageItem::Byte(7)])
        ),
        says("InvalidArgs", "Invalid argument Byte(7)")
    );
}

#[test]
fn names_in_arguments_are_looked_up() {
    let mut t = tree();
    for method in ["Get", "Set"] {
        assert_eq!(
            refused(&mut t, &call(PROPERTIES, method, vec![text("bad"), text("Both")])),
            says(
                "InvalidArgs",
                "Invalid argument \"Interface name was not valid: 'bad'\""
            )
        );
        assert_eq!(
            refused(&mut t, &call(PROPERTIES, method, vec![text("c.d"), text("Both")])),
            says("UnknownInterface", "Unknown interface c.d")
        );
        assert_eq!(
            refused(&mut t, &call(PROPERTIES, method, vec![text("a.b"), text("Nope")])),
            says("UnknownProperty", "Unknown property Nope")
        );
    }
    assert_eq!(
        refused(&mut t, &call(PROPERTIES, "GetAll", vec![text("c.d")])),
        says("UnknownInterface", "Unknown interface c.d")
    );
}

#[test]
fn unknown_interfaces_and_methods_are_refused() {
    let mut t = tree();
    assert_eq!(
        refused(&mut t, &call("c.d", "Get", vec![])),
        says("UnknownInterface", "Unknown interface")
    );
    assert_eq!(
        refused(&mut t, &call(PROPERTIES, "Nope", vec![])),
        says("UnknownMethod", "Unknown method")
    );
    let mut m = call(PROPERTIES, "Get", vec![]);
    m.member = None;
    assert_eq!(refused(&mut t, &m), says("UnknownMethod", "Unknown method"));
    m.interface = None;
    assert_eq!(refused(&mut t, &m), says("UnknownInterface", "Unknown interface"));
}

#[test]
fn other_messages_are_not_handled() {
    let mut t = tree();
    let mut m = get("Fixed");
    m.path = Some(path("/other"));
    assert!(t.handle(&m).is_none());
    m.path = None;
    assert!(t.handle(&m).is_none());
    let mut m = get("Fixed");
    m.msg_type = MessageType::Signal;
    assert!(t.handle(&m).is_none());
    assert!(matches!(t.dispatch(&m), Dispatch::Pass));
    m.msg_type = MessageType::MethodCall;
    assert!(matches!(t.dispatch(&m), Dispatch::Reply(_)));
}

fn one_property(e: EmitsChangedSignal) -> (Tree<NoCall>, EntryRef) {
    let f = factory();
    let mut i = f.interface(iface("a.b"));
    let p = i.add_p_ref(f.property("P", text("old")).emits_changed(e));
    (f.tree().add(f.object_path(path("/obj")).add(i)), p)
}

fn changed() -> Message {
    Message::signal(&path("/obj"), &iface(PROPERTIES), &member("PropertiesChanged"))
        .append(text("a.b"))
}

#[test]
fn a_change_is_announced_with_its_value() {
    let (mut t, p) = one_property(EmitsChangedSignal::True);
    let r = t.set_property("/obj", &p, text("new")).unwrap().unwrap();
    let list = array(vec![entry(text("P"), variant(text("new")))], "{sv}");
    assert_eq!(r, vec![changed().append(list)]);
    assert_eq!(t.property("/obj", &p).unwrap().get_value(), text("new"));
}

#[test]
fn a_change_is_announced_as_invalid() {
    let (mut t, p) = one_property(EmitsChangedSignal::Invalidates);
    let r = t.set_property("/obj", &p, text("new")).unwrap().unwrap();
    let want = changed().append(array(vec![], "{sv}")).append(array(vec![text("P")], "s"));
    assert_eq!(r, vec![want]);
}

#[test]
fn a_change_is_not_announced() {
    let (mut t, p) = one_property(EmitsChangedSignal::False);
    assert_eq!(t.set_property("/obj", &p, text("new")), Some(Ok(vec![])));
    assert_eq!(t.property("/obj", &p).unwrap().get_value(), text("new"));
}

#[test]
fn a_constant_property_in_a_tree_does_not_change() {
    let (mut t, p) = one_property(EmitsChangedSignal::Const);
    assert_eq!(t.set_property("/obj", &p, text("new")), Some(Err(())));
    assert_eq!(t.property("/obj", &p).unwrap().get_value(), text("old"));
    let mut t2 = t;
    assert_eq!(
        refused(&mut t2, &set("P", text("new"))),
        says("PropertyReadOnly", "Property P is read only")
    );
}

#[test]
fn a_constant_property_outside_a_tree_changes() {
    let f = factory();
    let mut p = f.property("P", text("old")).emits_changed(EmitsChangedSignal::Const);
    assert!(p.get_signal().is_none());
    assert_eq!(p.set_value(text("new")), Ok(vec![]));
    assert_eq!(p.get_value(), text("new"));
}

#[test]
fn a_reference_keeps_what_it_was_made_for() {
    let f = factory();
    let mut i = f.interface(iface("a.b"));
    let first = i.add_p_ref(f.property("P", MessageItem::Byte(1)));
    let second = i.add_p_ref(f.property("P", MessageItem::Byte(2)));
    let third = i.add_p_ref(f.property("Q", MessageItem::Byte(3)));
    assert_ne!(first, second);
    let mut t = f.tree().add(f.object_path(path("/obj")).add(i));
    let value = |t: &Tree<NoCall>, e: &EntryRef| t.property("/obj", e).unwrap().get_value();
    assert_eq!(value(&t, &first), MessageItem::Byte(1));
    assert_eq!(value(&t, &second), MessageItem::Byte(2));
    assert_eq!(value(&t, &third), MessageItem::Byte(3));
    // The replaced property is in no object path, so nothing is announced.
    assert_eq!(t.set_property("/obj", &first, MessageItem::Byte(7)), Some(Ok(vec![])));
    assert_eq!(t.set_property("/obj", &second, MessageItem::Byte(8)).unwrap().unwrap().len(), 1);
    assert_eq!(value(&t, &first), MessageItem::Byte(7));
    assert_eq!(value(&t, &second), MessageItem::Byte(8));
    let g = get("P");
    assert_eq!(
        t.handle(&g).unwrap(),
        vec![g.method_return().append(variant(MessageItem::Byte(8)))]
    );
}

#[test]
fn a_replaced_signal_has_no_owner() {
    let f = factory();
    let mut i = f.interface(iface("a.b"));
    let first = i.add_s_ref(f.signal(member("S")));
    let second = i.add_s_ref(f.signal(member("S")).arg("i"));
    let t = f.tree().add(f.object_path(path("/obj")).add(i));
    assert!(!t.signal("/obj", &first).unwrap().has_owner());
    assert!(t.signal("/obj", &second).unwrap().has_owner());
}

#[test]
fn a_missing_property_is_not_set() {
    let (mut t, p) = one_property(EmitsChangedSignal::True);
    assert!(t.set_property("/other", &p, text("new")).is_none());
    assert!(t.property("/other", &p).is_none());
    assert_eq!(p.iface(), "a.b");
    assert_eq!(p.name(), "P");
}

#[test]
fn a_signal_of_an_object_path_is_emitted() {
    let f = factory();
    let mut i = f.interface(iface("a.b"));
    let s = i.add_s_ref(f.signal(member("Done")).arg(("code", "i")));
    assert!(!i.signal("Done").unwrap().has_owner());
    let t = f.tree().add(f.object_path(path("/obj")).add(i));
    let s = t.signal("/obj", &s).unwrap();
    assert!(s.has_owner());
    let m = s.emit(&[MessageItem::Int32(1), MessageItem::Bool(true)]);
    let want = Message::signal(&path("/obj"), &iface("a.b"), &member("Done"))
        .append(MessageItem::Int32(1))
        .append(MessageItem::Bool(true));
    assert_eq!(m, want);
    assert_eq!(m.msg_type, MessageType::Signal);
}

#[test]
fn introspect_is_answered() {
    let f = factory();
    let mut t = f
        .tree()
        .add(f.object_path(path("/obj")).introspectable().introspectable())
        .add(f.object_path(path("/obj/x")))
        .add(f.object_path(path("/obj/x/y")));
    let m = call("org.freedesktop.DBus.Introspectable", "Introspect", vec![]);
    let r = t.handle(&m).unwrap();
    let want = t.object("/obj").unwrap().introspect(&t);
    assert_eq!(r, vec![m.method_return().append(text(&want))]);
    assert!(want.contains("  <node name=\"x\"/>\n</node>"));
    assert!(!want.contains("x/y"));
}

#[test]
fn managed_objects_are_listed() {
    let f = factory();
    let mut t = f
        .tree()
        .add(f.object_path(path("/obj")).object_manager().object_manager())
        .add(f.object_path(path("/obj/a/b")).add(properties_of(&f)))
        .add(f.object_path(path("/object")));
    let m = call("org.freedesktop.DBus.ObjectManager", "GetManagedObjects", vec![]);
    let r = t.handle(&m).unwrap();
    let props = array(
        vec![
            entry(text("Both"), variant(MessageItem::Byte(1))),
            entry(text("Fixed"), variant(MessageItem::Int32(3))),
        ],
        "{sv}",
    );
    let none = || array(vec![], "{sv}");
    let below = entry(
        text("/obj/a/b"),
        array(vec![entry(text("a.b"), props), entry(text(PROPERTIES), none())], "{sa{sv}}"),
    );
    let own = entry(
        text("/obj"),
        array(
            vec![entry(text("org.freedesktop.DBus.ObjectManager"), none())],
            "{sa{sv}}",
        ),
    );
    let list = array(vec![below, own], "{oa{sa{sv}}}");
    assert_eq!(list.type_sig(), "a{oa{sa{sv}}}");
    assert_eq!(r, vec![m.method_return().append(list)]);
}

#[test]
fn the_last_of_a_name_counts() {
    let f = factory();
    let i = f
        .interface(iface("a.b"))
        .add_p(f.property("P", MessageItem::Byte(1)))
        .add_p(f.property("P", MessageItem::Byte(2)));
    assert_eq!(i.properties().len(), 1);
    let o = f.object_path(path("/obj")).add(f.interface(iface("a.b"))).add(i);
    assert_eq!(o.interfaces().len(), 2);
    let mut t = f.tree().add(f.object_path(path("/obj"))).add(o);
    assert_eq!(t.paths().len(), 1);
    let g = get("P");
    assert_eq!(
        t.handle(&g).unwrap(),
        vec![g.method_return().append(variant(MessageItem::Byte(2)))]
    );
}

#[test]
fn an_own_interface_for_properties_stays() {
    let f = factory();
    let o = f
        .object_path(path("/obj"))
        .add(f.interface(iface(PROPERTIES)))
        .add(properties_of(&f));
    let mut t = f.tree().add(o);
    assert_eq!(refused(&mut t, &get("Both")), says("UnknownMethod", "Unknown method"));
}

#[test]
fn the_order_of_additions_does_not_matter() {
    let f = factory();
    let one = || f.interface(iface("a.b")).add_p(f.property("P", MessageItem::Byte(1)));
    let two = || f.interface(iface("c.d")).add_s(f.signal(member("S")));
    let x = f.object_path(path("/obj")).add(one()).add(two());
    let y = f.object_path(path("/obj")).add(two()).add(one());
    assert_eq!(x.introspect(&f.tree()), y.introspect(&f.tree()));
    let a = f.tree().add(f.object_path(path("/a"))).add(f.object_path(path("/b")));
    let b = f.tree().add(f.object_path(path("/b"))).add(f.object_path(path("/a")));
    assert_eq!(format!("{:?}", a), format!("{:?}", b));
}

#[test]
fn children_are_below_their_parent() {
    let f = factory();
    let t = f
        .tree()
        .add(f.object_path(path("/")))
        .add(f.object_path(path("/a")))
        .add(f.object_path(path("/ab")))
        .add(f.object_path(path("/a/c")))
        .add(f.object_path(path("/a/b")))
        .add(f.object_path(path("/a/b/c")));
    let names = |p: &str, direct: bool| -> Vec<String> {
        t.children(t.object(p).unwrap(), direct)
            .iter()
            .map(|o| o.name().as_str().to_string())
            .collect()
    };
    assert_eq!(names("/a", true), vec!["/a/b", "/a/c"]);
    assert_eq!(names("/a", false), vec!["/a/b", "/a/b/c", "/a/c"]);
    assert_eq!(names("/ab", false), Vec::<String>::new());
    assert_eq!(names("/a/b", true), vec!["/a/b/c"]);
    assert_eq!(names("/", false), Vec::<String>::new());
}

#[test]
fn errors_have_names_and_texts() {
    let e = MethodErr::from((ErrorName::new("a.b.C").unwrap(), "text".to_string()));
    assert_eq!(e.name().as_str(), "a.b.C");
    assert_eq!(e.text(), "text");
    assert_eq!(e.clone(), e);
    assert!(!e.holds_nul());
    assert!(MethodErr::failed("a\0b").holds_nul());
    assert_eq!(MethodErr::no_arg().text(), "Not enough arguments");
    assert_eq!(MethodErr::invalid_arg("X").text(), "Invalid argument X");
    assert_eq!(MethodErr::no_interface(&7).text(), "Unknown interface 7");
    assert_eq!(MethodErr::no_property("p").text(), "Unknown property p");
    assert_eq!(MethodErr::ro_property("p").text(), "Property p is read only");
    assert_eq!(
        MethodErr::ro_property("p").name().as_str(),
        "org.freedesktop.DBus.Error.PropertyReadOnly"
    );
}

#[test]
fn what_is_set_locally_is_read_by_a_call() {
    let (mut t, p) = one_property(EmitsChangedSignal::False);
    assert_eq!(t.set_property("/obj", &p, text("new")), Some(Ok(vec![])));
    let g = get("P");
    assert_eq!(
        t.handle(&g).unwrap(),
        vec![g.method_return().append(variant(text("new")))]
    );
}

#[test]
fn get_all_agrees_with_get() {
    let mut t = tree();
    let r = t.handle(&call(PROPERTIES, "GetAll", vec![text("a.b")])).unwrap();
    let list = match &r[0].items[0] {
        MessageItem::Array(v, _) => v,
        _ => panic!("no list"),
    };
    for (i, name) in ["Both", "Fixed"].iter().enumerate() {
        let g = t.handle(&get(name)).unwrap();
        assert_eq!(list[i], entry(text(name), g[0].items[0].clone()));
    }
}

#[test]
fn replies_have_the_declared_types() {
    let f = factory();
    let o = f.object_path(path("/obj")).introspectable().object_manager().add(properties_of(&f));
    let xml = o.introspect(&f.tree());
    let mut t = f.tree().add(o);
    for (interface, method, items, sig) in [
        (PROPERTIES, "Get", vec![text("a.b"), text("Both")], "v"),
        (PROPERTIES, "GetAll", vec![text("a.b")], "a{sv}"),
        ("org.freedesktop.DBus.Introspectable", "Introspect", vec![], "s"),
        ("org.freedesktop.DBus.ObjectManager", "GetManagedObjects", vec![], "a{oa{sa{sv}}}"),
    ] {
        let r = t.handle(&call(interface, method, items)).unwrap();
        assert_eq!(r.len(), 1);
        assert_eq!(r[0].items.len(), 1);
        assert_eq!(r[0].items[0].type_sig(), sig);
        assert!(xml.contains(&format!("type=\"{}\" direction=\"out\"/>", sig)));
    }
    let r = t.handle(&set("Both", MessageItem::Byte(3))).unwrap();
    assert_eq!(r[1].items, vec![]);
    let sigs: Vec<String> = r[0].items.iter().map(|i| i.type_sig()).collect();
    assert_eq!(sigs, vec!["s", "a{sv}"]);
}

#[test]
fn reading_changes_nothing() {
    let mut t = with_write_only();
    let before = format!("{:?}", t);
    for m in [
        get("Both"),
        get("In"),
        call(PROPERTIES, "GetAll", vec![text("a.b")]),
        set("Fixed", MessageItem::Int32(9)),
        set("Both", MessageItem::Bool(true)),
        call("c.d", "Nope", vec![]),
    ] {
        assert!(t.handle(&m).is_some());
        assert_eq!(format!("{:?}", t), before);
    }
    let m = set("Both", MessageItem::Byte(9));
    assert!(t.handle(&m).is_some());
    assert_ne!(format!("{:?}", t), before);
}

#[test]
fn a_nul_cannot_be_sent() {
    let f = factory();
    let i = f
        .interface(iface("a.b"))
        .add_p(f.property("A", MessageItem::Byte(1)))
        .add_p(f.property("B\0", MessageItem::Byte(2)).access(Access::Write));
    let t = f.tree().add(f.object_path(path("/obj")).add(i));
    assert!(t.answerable(&get("A")));
    assert!(t.answerable(&get("Nope")));
    assert!(!t.answerable(&get("No\0pe")));
    assert!(!t.answerable(&set("A", array(vec![], "\0"))));
    assert!(!t.answerable(&call(PROPERTIES, "GetAll", vec![text("a.b")])));
    assert!(t.answerable(&call(PROPERTIES, "GetAll", vec![text(PROPERTIES)])));
    assert!(with_write_only().answerable(&call(PROPERTIES, "GetAll", vec![text("a.b")])));
}
