//! What introspection texts say: line by line, of the parts of an object path.
use vstd::prelude::*;
use crate::annotation::{AnnV, ann_xml, anns_xml};
use crate::answers::is_below;
use crate::argument::{ArgV, arg_xml, args_xml};
use crate::interface::IfaceV;
use crate::item::type_sig;
use crate::method::MethodV;
use crate::object::ObjectV;
use crate::property::{Access, PropV, access_text};
use crate::signal::SignalV;
use crate::sorted::Keyed;
use crate::text::joined;
use crate::tree::{TreeV, is_child, node_xml};
use crate::xml::{element_texts, element_xml, map_xml};

verus! {

/// `text` is an element with this tag and this name, and with `more` behind the name: one line
/// where it holds nothing, otherwise what it holds between two lines.
pub open spec fn is_element_text(
    text: Seq<char>,
    indent: Seq<char>,
    tag: Seq<char>,
    name: Seq<char>,
    more: Seq<char>,
    contents: Seq<char>,
) -> bool {
    let start = indent + "<"@ + tag + " name=\""@ + name + "\""@ + more;
    if contents.len() == 0 {
        text == start + "/>\n"@
    } else {
        text == start + ">\n"@ + contents + indent + "</"@ + tag + ">\n"@
    }
}

/// The line of an annotation.
pub open spec fn is_annotation_text(text: Seq<char>, indent: Seq<char>, a: AnnV) -> bool {
    text == indent + "<annotation name=\""@ + a.name + "\" value=\""@ + a.value + "\"/>\n"@
}

/// The line of an argument, with its name where it has one.
pub open spec fn is_argument_text(
    text: Seq<char>,
    indent: Seq<char>,
    a: ArgV,
    direction: Seq<char>,
) -> bool {
    match a.name {
        Some(n) => text == indent + "<arg name=\""@ + n + "\" type=\""@ + a.sig + "\""@ + direction
            + "/>\n"@,
        None => text == indent + "<arg type=\""@ + a.sig + "\""@ + direction + "/>\n"@,
    }
}

/// One line for each annotation.
pub open spec fn are_annotations(ls: Seq<Seq<char>>, indent: Seq<char>, anns: Seq<AnnV>) -> bool {
    &&& ls.len() == anns.len()
    &&& forall|k: int|
        0 <= k < ls.len() ==> is_annotation_text(#[trigger] ls[k], indent, anns[k])
}

/// One line for each argument.
pub open spec fn are_arguments(
    ls: Seq<Seq<char>>,
    indent: Seq<char>,
    args: Seq<ArgV>,
    direction: Seq<char>,
) -> bool {
    &&& ls.len() == args.len()
    &&& forall|k: int|
        0 <= k < ls.len() ==> is_argument_text(#[trigger] ls[k], indent, args[k], direction)
}

/// One element for each method.
pub open spec fn are_methods<M>(ls: Seq<Seq<char>>, methods: Seq<MethodV<M>>) -> bool {
    &&& ls.len() == methods.len()
    &&& forall|k: int|
        0 <= k < ls.len() ==> is_element_text(
            #[trigger] ls[k],
            "    "@,
            "method"@,
            methods[k].name,
            Seq::empty(),
            methods[k].xml(),
        )
}

/// One element for each property, with its type and how it can be accessed.
pub open spec fn are_properties<M>(ls: Seq<Seq<char>>, properties: Seq<PropV<M>>) -> bool {
    &&& ls.len() == properties.len()
    &&& forall|k: int|
        0 <= k < ls.len() ==> is_element_text(
            #[trigger] ls[k],
            "    "@,
            "property"@,
            properties[k].name,
            properties[k].attributes(),
            properties[k].xml(),
        )
}

/// One element for each signal.
pub open spec fn are_signals(ls: Seq<Seq<char>>, signals: Seq<SignalV>) -> bool {
    &&& ls.len() == signals.len()
    &&& forall|k: int|
        0 <= k < ls.len() ==> is_element_text(
            #[trigger] ls[k],
            "    "@,
            "signal"@,
            signals[k].name,
            Seq::empty(),
            signals[k].xml(),
        )
}

/// One element for each interface.
pub open spec fn are_interfaces<M>(ls: Seq<Seq<char>>, ifaces: Seq<IfaceV<M>>) -> bool {
    &&& ls.len() == ifaces.len()
    &&& forall|k: int|
        0 <= k < ls.len() ==> is_element_text(
            #[trigger] ls[k],
            "  "@,
            "interface"@,
            ifaces[k].name,
            Seq::empty(),
            ifaces[k].xml(),
        )
}

/// One line for each of the object paths at the places `ks` of the tree, with what its name has
/// behind that of the object path and a slash.
pub open spec fn are_nodes<M>(
    ls: Seq<Seq<char>>,
    t: TreeV<M>,
    parent: Seq<char>,
    ks: Seq<int>,
) -> bool {
    &&& ls.len() == ks.len()
    &&& forall|k: int|
        0 <= k < ls.len() ==> #[trigger] ls[k] == "  <node name=\""@ + t.paths[ks[k]].name.skip(
            parent.len() as int + 1,
        ) + "\"/>\n"@
}

/// The places of the tree at which there is an object path one element below `parent`, in
/// ascending order.
pub open spec fn are_next<M>(t: TreeV<M>, parent: Seq<char>, ks: Seq<int>) -> bool {
    &&& forall|j: int| 0 <= j < ks.len() ==> 0 <= #[trigger] ks[j] < t.paths.len()
    &&& forall|i: int, j: int| 0 <= i < j < ks.len() ==> #[trigger] ks[i] < #[trigger] ks[j]
    &&& forall|k: int|
        0 <= k < t.paths.len() ==> (ks.contains(k) <==> is_below(
            parent,
            (#[trigger] t.paths[k]).name,
        ) && !t.paths[k].name.skip(parent.len() as int + 1).contains('/'))
}

/// An object path that is one element below another is written as that element.
pub proof fn law_node_line(parent: Seq<char>, rest: Seq<char>)
    ensures
        node_xml(parent, parent + seq!['/'] + rest) == "  <node name=\""@ + rest + "\"/>\n"@,
{
    assert((parent + seq!['/'] + rest).skip(parent.len() as int + 1) =~= rest);
}

/// An element is one line where it holds nothing, otherwise it holds what it holds between two
/// lines of the same indent.
pub proof fn law_element(
    key: Seq<char>,
    tag: Seq<char>,
    indent: Seq<char>,
    more: Seq<char>,
    contents: Seq<char>,
)
    ensures
        is_element_text(
            element_xml(key, tag, indent, more, contents),
            indent,
            tag,
            key,
            more,
            contents,
        ),
{
    let start = indent + "<"@ + tag + " name=\""@ + key + "\""@ + more;
    let text = element_xml(key, tag, indent, more, contents);
    if contents.len() == 0 {
        reveal_strlit("/");
        reveal_strlit(">\n");
        reveal_strlit("/>\n");
        assert("/"@ + ">\n"@ =~= "/>\n"@);
        assert(text =~= start + ("/"@ + ">\n"@));
    } else {
        assert(text =~= start + ">\n"@ + contents + indent + "</"@ + tag + ">\n"@);
    }
}

/// The line of an argument gives its name, where it has one, its type and its direction.
pub proof fn law_argument_line(a: ArgV, indent: Seq<char>, direction: Seq<char>)
    ensures
        is_argument_text(arg_xml(a, indent, direction), indent, a, direction),
{
    let text = arg_xml(a, indent, direction);
    reveal_strlit("<arg ");
    reveal_strlit("type=\"");
    match a.name {
        Some(n) => {
            reveal_strlit("name=\"");
            reveal_strlit("\" ");
            reveal_strlit("<arg name=\"");
            reveal_strlit("\" type=\"");
            assert("<arg "@ + "name=\""@ =~= "<arg name=\""@);
            assert("\" "@ + "type=\""@ =~= "\" type=\""@);
            assert(text =~= indent + ("<arg "@ + "name=\""@) + n + ("\" "@ + "type=\""@) + a.sig
                + "\""@ + direction + "/>\n"@);
        },
        None => {
            reveal_strlit("<arg type=\"");
            assert("<arg "@ + "type=\""@ =~= "<arg type=\""@);
            assert(text =~= indent + ("<arg "@ + "type=\""@) + a.sig + "\""@ + direction
                + "/>\n"@);
        },
    }
}

/// The text of annotations is one line for each, in their order.
pub proof fn law_annotations_text(anns: Seq<AnnV>, indent: Seq<char>) -> (ls: Seq<Seq<char>>)
    ensures
        anns_xml(anns, indent) == joined(ls),
        are_annotations(ls, indent, anns),
{
    anns.map_values(|a: AnnV| ann_xml(a, indent))
}

/// The text of arguments is one line for each, in their order.
pub proof fn law_arguments_text(
    args: Seq<ArgV>,
    indent: Seq<char>,
    direction: Seq<char>,
) -> (ls: Seq<Seq<char>>)
    ensures
        args_xml(args, indent, direction) == joined(ls),
        are_arguments(ls, indent, args, direction),
{
    let ls = args.map_values(|a: ArgV| arg_xml(a, indent, direction));
    assert forall|k: int| 0 <= k < ls.len() implies is_argument_text(
        #[trigger] ls[k],
        indent,
        args[k],
        direction,
    ) by {
        law_argument_line(args[k], indent, direction);
    }
    ls
}

/// The text of a method: a line for each argument that goes in, one for each that comes out, and
/// one for each annotation.
pub proof fn law_method_text<M>(m: MethodV<M>) -> (r: (
    Seq<Seq<char>>,
    Seq<Seq<char>>,
    Seq<Seq<char>>,
))
    ensures
        m.xml() == joined(r.0) + joined(r.1) + joined(r.2),
        are_arguments(r.0, "      "@, m.i_args, " direction=\"in\""@),
        are_arguments(r.1, "      "@, m.o_args, " direction=\"out\""@),
        are_annotations(r.2, "      "@, m.anns),
{
    let a = law_arguments_text(m.i_args, "      "@, " direction=\"in\""@);
    let b = law_arguments_text(m.o_args, "      "@, " direction=\"out\""@);
    let c = law_annotations_text(m.anns, "      "@);
    (a, b, c)
}

/// The text of a signal: a line for each argument, which has no direction, and one for each
/// annotation.
pub proof fn law_signal_text(s: SignalV) -> (r: (Seq<Seq<char>>, Seq<Seq<char>>))
    ensures
        s.xml() == joined(r.0) + joined(r.1),
        are_arguments(r.0, "      "@, s.arguments, Seq::empty()),
        are_annotations(r.1, "      "@, s.anns),
{
    reveal_strlit("");
    assert(""@ =~= Seq::<char>::empty());
    let a = law_arguments_text(s.arguments, "      "@, ""@);
    let b = law_annotations_text(s.anns, "      "@);
    (a, b)
}

/// The text of a property gives the type of its value and how it can be accessed, and a line for
/// each annotation.
pub proof fn law_property_text<M>(p: PropV<M>) -> (ls: Seq<Seq<char>>)
    ensures
        p.xml() == joined(ls),
        are_annotations(ls, "      "@, p.anns),
        p.rw == Access::Read ==> p.attributes() == " type=\""@ + type_sig(p.value)
            + "\" access=\"read\""@,
        p.rw == Access::ReadWrite ==> p.attributes() == " type=\""@ + type_sig(p.value)
            + "\" access=\"readwrite\""@,
        p.rw == Access::Write ==> p.attributes() == " type=\""@ + type_sig(p.value)
            + "\" access=\"write\""@,
{
    reveal_strlit("\" access=\"");
    reveal_strlit("\"");
    reveal_strlit("read");
    reveal_strlit("readwrite");
    reveal_strlit("write");
    reveal_strlit("\" access=\"read\"");
    reveal_strlit("\" access=\"readwrite\"");
    reveal_strlit("\" access=\"write\"");
    assert("\" access=\""@ + "read"@ + "\""@ =~= "\" access=\"read\""@);
    assert("\" access=\""@ + "readwrite"@ + "\""@ =~= "\" access=\"readwrite\""@);
    assert("\" access=\""@ + "write"@ + "\""@ =~= "\" access=\"write\""@);
    assert(p.attributes() =~= " type=\""@ + type_sig(p.value) + ("\" access=\""@ + access_text(p.rw)
        + "\""@));
    law_annotations_text(p.anns, "      "@)
}

/// The text of elements is that of each, in their order.
proof fn lemma_elements<K: Keyed>(
    s: Seq<K>,
    tag: Seq<char>,
    indent: Seq<char>,
    outs: Seq<(Seq<char>, Seq<char>)>,
) -> (ls: Seq<Seq<char>>)
    requires
        outs.len() == s.len(),
    ensures
        map_xml(s, tag, indent, outs) == joined(ls),
        ls.len() == s.len(),
        forall|k: int|
            0 <= k < ls.len() ==> is_element_text(
                #[trigger] ls[k],
                indent,
                tag,
                s[k].key(),
                outs[k].0,
                outs[k].1,
            ),
{
    let ls = element_texts(s, tag, indent, outs);
    assert forall|k: int| 0 <= k < ls.len() implies is_element_text(
        #[trigger] ls[k],
        indent,
        tag,
        s[k].key(),
        outs[k].0,
        outs[k].1,
    ) by {
        law_element(s[k].key(), tag, indent, outs[k].0, outs[k].1);
    }
    ls
}

/// The text of an interface: an element for each method, then one for each property, then one
/// for each signal, then a line for each annotation.
pub proof fn law_interface_text<M>(i: IfaceV<M>) -> (r: (
    Seq<Seq<char>>,
    Seq<Seq<char>>,
    Seq<Seq<char>>,
    Seq<Seq<char>>,
))
    ensures
        i.xml() == joined(r.0) + joined(r.1) + joined(r.2) + joined(r.3),
        are_methods(r.0, i.methods),
        are_properties(r.1, i.properties),
        are_signals(r.2, i.signals),
        are_annotations(r.3, "    "@, i.anns),
{
    let a = lemma_elements(
        i.methods,
        "method"@,
        "    "@,
        i.methods.map_values(|m: MethodV<M>| (Seq::<char>::empty(), m.xml())),
    );
    let b = lemma_elements(
        i.properties,
        "property"@,
        "    "@,
        i.properties.map_values(|p: PropV<M>| (p.attributes(), p.xml())),
    );
    let c = lemma_elements(
        i.signals,
        "signal"@,
        "    "@,
        i.signals.map_values(|s: SignalV| (Seq::<char>::empty(), s.xml())),
    );
    let d = law_annotations_text(i.anns, "    "@);
    (a, b, c, d)
}

proof fn lemma_next<M>(t: TreeV<M>, s: Seq<ObjectV<M>>, parent: Seq<char>) -> (ks: Seq<int>)
    requires
        s.len() <= t.paths.len(),
        s == t.paths.take(s.len() as int),
    ensures
        ks.len() == s.filter(|o: ObjectV<M>| is_child(parent, o.name, true)).len(),
        forall|j: int| 0 <= j < ks.len() ==> 0 <= #[trigger] ks[j] < s.len(),
        forall|i: int, j: int| 0 <= i < j < ks.len() ==> #[trigger] ks[i] < #[trigger] ks[j],
        forall|j: int|
            0 <= j < ks.len() ==> t.paths[#[trigger] ks[j]] == s.filter(
                |o: ObjectV<M>| is_child(parent, o.name, true),
            )[j],
        forall|k: int|
            0 <= k < s.len() ==> (ks.contains(k) <==> is_below(
                parent,
                (#[trigger] t.paths[k]).name,
            ) && !t.paths[k].name.skip(parent.len() as int + 1).contains('/')),
    decreases s.len(),
{
    reveal(Seq::filter);
    let pred = |o: ObjectV<M>| is_child(parent, o.name, true);
    if s.len() == 0 {
        Seq::empty()
    } else {
        let n = s.len() - 1;
        assert(s.drop_last() =~= t.paths.take(n));
        let ks = lemma_next(t, s.drop_last(), parent);
        assert(s.last() == t.paths[n]);
        crate::answers::lemma_is_below(parent, s.last().name);
        assert(!ks.contains(n)) by {
            if ks.contains(n) {
                let j = choose|j: int| 0 <= j < ks.len() && ks[j] == n;
                assert(ks[j] < n);
            }
        }
        if pred(s.last()) {
            let r = ks.push(n);
            assert forall|k: int| 0 <= k < s.len() implies (r.contains(k) <==> is_below(
                parent,
                (#[trigger] t.paths[k]).name,
            ) && !t.paths[k].name.skip(parent.len() as int + 1).contains('/')) by {
                if k == n {
                    assert(r[ks.len() as int] == n);
                } else {
                    if ks.contains(k) {
                        let j = choose|j: int| 0 <= j < ks.len() && ks[j] == k;
                        assert(r[j] == k);
                    }
                    if r.contains(k) {
                        let j = choose|j: int| 0 <= j < r.len() && r[j] == k;
                        assert(ks[j] == k);
                    }
                }
            }
            r
        } else {
            ks
        }
    }
}

/// The introspection text of an object path: the header with its name, an element for each
/// interface, and a line for each object path of the tree that is one element below it, in the
/// order of their names.
pub proof fn law_object_text<M>(o: ObjectV<M>, t: TreeV<M>) -> (r: (
    Seq<Seq<char>>,
    Seq<Seq<char>>,
    Seq<int>,
))
    ensures
        o.xml(t)
            == "<!DOCTYPE node PUBLIC \"-//freedesktop//DTD D-BUS Object Introspection 1.0//EN\" \"http://www.freedesktop.org/standards/dbus/1.0/introspect.dtd\">\n<node name=\""@
            + o.name + "\">\n"@ + joined(r.0) + joined(r.1) + "</node>"@,
        are_interfaces(r.0, o.ifaces),
        are_nodes(r.1, t, o.name, r.2),
        are_next(t, o.name, r.2),
{
    let a = lemma_elements(
        o.ifaces,
        "interface"@,
        "  "@,
        o.ifaces.map_values(|i: IfaceV<M>| (Seq::<char>::empty(), i.xml())),
    );
    assert(t.paths =~= t.paths.take(t.paths.len() as int));
    let ks = lemma_next(t, t.paths, o.name);
    let b = t.children(o.name, true).map_values(|c: ObjectV<M>| node_xml(o.name, c.name));
    assert forall|k: int| 0 <= k < b.len() implies #[trigger] b[k] == "  <node name=\""@
        + t.paths[ks[k]].name.skip(o.name.len() as int + 1) + "\"/>\n"@ by {
        assert(t.paths[ks[k]] == t.children(o.name, true)[k]);
    }
    (a, b, ks)
}

} // verus!
