//! The types of what is sent back.
use vstd::prelude::*;
use crate::argument::ArgV;
use crate::dispatch::DispatchV;
use crate::error::ErrV;
use crate::method::Callback;
use crate::interface::IfaceV;
use crate::item::{Item, type_sig, type_sigs, well_typed};
use crate::laws::{law_children, law_read_all, lemma_after, lemma_sets, sets};
use crate::message::Msg;
use crate::object::{ObjectV, get_all_method, get_method, introspect_method, managed_objects_method, prop_entry, set_method};
use crate::property::{EmitsChangedSignal, PropV};
use crate::sorted::{lemma_found, lemma_put_all};
use crate::text::{joined, lemma_joined_push};
use crate::tree::{TreeV, iface_entry, object_entry};

verus! {

/// The signature of all arguments that are declared, one behind the other.
pub open spec fn declared(args: Seq<ArgV>) -> Seq<char> {
    joined(args.map_values(|a: ArgV| a.sig))
}

/// All arguments are well typed.
pub open spec fn items_typed(s: Seq<Item>) -> bool {
    forall|k: int| 0 <= k < s.len() ==> well_typed(#[trigger] s[k])
}

/// All values of an interface's properties are well typed.
pub open spec fn iface_typed<M>(i: IfaceV<M>) -> bool {
    forall|k: int| 0 <= k < i.properties.len() ==> well_typed((#[trigger] i.properties[k]).value)
}

/// All values of an object path's properties are well typed.
pub open spec fn object_typed<M>(o: ObjectV<M>) -> bool {
    forall|k: int| 0 <= k < o.ifaces.len() ==> iface_typed(#[trigger] o.ifaces[k])
}

/// All values of a tree's properties are well typed.
pub open spec fn tree_typed<M>(t: TreeV<M>) -> bool {
    forall|k: int| 0 <= k < t.paths.len() ==> object_typed(#[trigger] t.paths[k])
}

proof fn lemma_declared_one(a: ArgV)
    ensures
        declared(seq![a]) == a.sig,
{
    let s = seq![a].map_values(|a: ArgV| a.sig);
    assert(s =~= Seq::<Seq<char>>::empty().push(a.sig));
    lemma_joined_push(Seq::empty(), a.sig);
    assert(joined(Seq::<Seq<char>>::empty()) + a.sig =~= a.sig);
}

proof fn lemma_sigs_push(s: Seq<Item>, x: Item)
    ensures
        type_sigs(s.push(x)) == type_sigs(s) + type_sig(x),
{
    assert(s.push(x).drop_last() =~= s);
}

proof fn lemma_sigs_one(x: Item)
    ensures
        type_sigs(Seq::<Item>::empty().push(x)) == type_sig(x),
{
    lemma_sigs_push(Seq::empty(), x);
    assert(type_sigs(Seq::<Item>::empty()) + type_sig(x) =~= type_sig(x));
}

/// A property in a list of properties has the type of the list's elements.
proof fn lemma_prop_entry<M>(p: PropV<M>)
    ensures
        type_sig(prop_entry(p)) == "{sv}"@,
        well_typed(p.value) ==> well_typed(prop_entry(p)),
{
    reveal_with_fuel(type_sig, 2);
    reveal_with_fuel(well_typed, 3);
    reveal_strlit("{");
    reveal_strlit("s");
    reveal_strlit("v");
    reveal_strlit("}");
    reveal_strlit("{sv}");
    assert(type_sig(prop_entry(p)) =~= "{sv}"@);
}

/// A list of properties is well typed, where their values are.
proof fn lemma_prop_entries<M>(props: Seq<PropV<M>>)
    requires
        forall|k: int| 0 <= k < props.len() ==> well_typed((#[trigger] props[k]).value),
    ensures
        well_typed(Item::Array(props.map_values(|p: PropV<M>| prop_entry(p)), "{sv}"@)),
{
    let v = props.map_values(|p: PropV<M>| prop_entry(p));
    assert forall|k: int| 0 <= k < v.len() implies well_typed(#[trigger] v[k]) && type_sig(v[k])
        == "{sv}"@ by {
        lemma_prop_entry(props[k]);
    }
}

/// An interface in a list of objects has the type of the list's elements.
proof fn lemma_iface_entry<M>(i: IfaceV<M>)
    ensures
        type_sig(iface_entry(i)) == "{sa{sv}}"@,
        iface_typed(i) ==> well_typed(iface_entry(i)),
{
    reveal_with_fuel(type_sig, 2);
    reveal_strlit("{");
    reveal_strlit("s");
    reveal_strlit("a");
    reveal_strlit("}");
    reveal_strlit("{sv}");
    reveal_strlit("{sa{sv}}");
    assert(type_sig(iface_entry(i)) =~= "{sa{sv}}"@);
    if iface_typed(i) {
        assert(well_typed(Item::Str(i.name)));
        lemma_prop_entries(i.properties);
    }
}

/// An object path in a list of objects is well typed, where the values of its properties are.
proof fn lemma_object_entry<M>(o: ObjectV<M>)
    ensures
        object_typed(o) ==> well_typed(object_entry(o)),
{
    if object_typed(o) {
        let v = o.ifaces.map_values(|i: IfaceV<M>| iface_entry(i));
        assert forall|k: int| 0 <= k < v.len() implies well_typed(#[trigger] v[k]) && type_sig(v[k])
            == "{sa{sv}}"@ by {
            lemma_iface_entry(o.ifaces[k]);
        }
        assert(well_typed(Item::Str(o.name)));
        assert(well_typed(Item::Array(v, "{sa{sv}}"@)));
    }
}

/// Each object in the list of those that an object manages is well typed, where the values of
/// all properties are.
pub proof fn law_managed_objects_are_well_typed<M>(o: ObjectV<M>, t: TreeV<M>)
    requires
        t.valid(),
        tree_typed(t),
        object_typed(o),
    ensures
        o.managed_objects(t) matches Item::Array(v, _) && items_typed(v),
{
    let cs = t.children(o.name, false);
    let os = cs.push(o);
    let v = os.map_values(|o: ObjectV<M>| object_entry(o));
    assert forall|k: int| 0 <= k < v.len() implies well_typed(#[trigger] v[k]) by {
        lemma_object_entry(os[k]);
        if k < cs.len() {
            law_children(t, o.name, false, cs[k]);
            assert(cs.contains(cs[k]));
            let i = choose|i: int| 0 <= i < t.paths.len() && t.paths[i] == cs[k];
            assert(object_typed(t.paths[i]));
        }
    }
}

/// What the standard methods reply has the type that they declare.
pub proof fn law_replies_have_declared_types<M>(o: ObjectV<M>, t: TreeV<M>, m: Msg)
    ensures
        o.get_answer(m) matches Ok(v) ==> v.len() == 1 && type_sigs(v[0].items) == declared(
            get_method::<M>().o_args,
        ),
        o.get_all_answer(m) matches Ok(v) ==> v.len() == 1 && type_sigs(v[0].items) == declared(
            get_all_method::<M>().o_args,
        ),
        o.set_answer(m) matches Ok(v) ==> v.len() > 0 && type_sigs(v.last().items) == declared(
            set_method::<M>().o_args,
        ),
        type_sigs(m.method_return().append(Item::Str(o.xml(t))).items) == declared(
            introspect_method::<M>().o_args,
        ),
        type_sigs(m.method_return().append(o.managed_objects(t)).items) == declared(
            managed_objects_method::<M>().o_args,
        ),
{
    lemma_declared_one(get_method::<M>().o_args[0]);
    assert(get_method::<M>().o_args =~= seq![get_method::<M>().o_args[0]]);
    lemma_declared_one(get_all_method::<M>().o_args[0]);
    assert(get_all_method::<M>().o_args =~= seq![get_all_method::<M>().o_args[0]]);
    lemma_declared_one(introspect_method::<M>().o_args[0]);
    assert(introspect_method::<M>().o_args =~= seq![introspect_method::<M>().o_args[0]]);
    lemma_declared_one(managed_objects_method::<M>().o_args[0]);
    assert(managed_objects_method::<M>().o_args =~= seq![managed_objects_method::<M>().o_args[0]]);
    assert(set_method::<M>().o_args.map_values(|a: ArgV| a.sig) =~= Seq::<Seq<char>>::empty());
    lemma_sigs_one(Item::Str(o.xml(t)));
    lemma_sigs_one(o.managed_objects(t));
    reveal_strlit("a");
    reveal_strlit("{oa{sa{sv}}}");
    reveal_strlit("a{oa{sa{sv}}}");
    assert(type_sig(o.managed_objects(t)) =~= "a{oa{sa{sv}}}"@);
    if let Ok((_, p)) = o.prop_arg(m.items) {
        lemma_sigs_one(Item::Variant(Box::new(p.value)));
    }
    if let Ok(v) = o.get_all_answer(m) {
        let x = v[0].items[0];
        lemma_sigs_one(x);
        reveal_strlit("{sv}");
        reveal_strlit("a{sv}");
        assert(type_sig(x) =~= "a{sv}"@);
    }
}

/// What announces a change has one of two types, and is well typed where the new value is.
pub proof fn law_announcement_types<M>(p: PropV<M>, v: Item)
    ensures
        forall|k: int|
            0 <= k < p.announcement(v).len() ==> {
                let s = #[trigger] p.announcement(v)[k];
                &&& p.emits == EmitsChangedSignal::True ==> type_sigs(s.items) == "sa{sv}"@
                &&& p.emits == EmitsChangedSignal::Invalidates ==> type_sigs(s.items)
                    == "sa{sv}as"@
                &&& well_typed(v) ==> items_typed(s.items)
            },
        p.announcement(v).len() <= 1,
{
    if let Some(o) = p.owner {
        let none = Seq::<Item>::empty();
        let iface = Item::Str(o.iface);
        let entry = prop_entry(p.with_value(v));
        let full = Item::Array(seq![entry], "{sv}"@);
        let empty = Item::Array(none, "{sv}"@);
        let names = Item::Array(seq![Item::Str(p.name)], "s"@);
        lemma_sigs_one(iface);
        lemma_sigs_push(none.push(iface), full);
        lemma_sigs_push(none.push(iface), empty);
        lemma_sigs_push(none.push(iface).push(empty), names);
        reveal_strlit("s");
        reveal_strlit("a");
        reveal_strlit("{sv}");
        reveal_strlit("sa{sv}");
        reveal_strlit("sa{sv}as");
        assert("s"@ + ("a"@ + "{sv}"@) =~= "sa{sv}"@);
        assert("s"@ + ("a"@ + "{sv}"@) + ("a"@ + "s"@) =~= "sa{sv}as"@);
        lemma_prop_entry(p.with_value(v));
        reveal_with_fuel(well_typed, 2);
        assert(well_typed(names));
        assert(well_typed(empty));
        assert(well_typed(v) ==> well_typed(full));
    }
}

/// The message is a call that lists the objects that an object manages. In that list the names
/// of the objects are strings, where it declares object paths.
pub open spec fn lists_objects<M>(t: TreeV<M>, m: Msg) -> bool {
    t.target(m) matches Some(o) && o.method_for(m) == Ok::<Callback<M>, ErrV>(
        Callback::ManagedObjects,
    )
}

/// Where all values in the tree and all arguments of a message are well typed, all that is
/// sent back without a callback is well typed, but for the list of managed objects, and the
/// tree stays so.
pub proof fn law_replies_are_well_typed<M>(t: TreeV<M>, m: Msg)
    requires
        t.valid(),
        tree_typed(t),
        items_typed(m.items),
    ensures
        tree_typed(t.after(m)),
        !lists_objects(t, m) ==> (t.dispatch(m) matches DispatchV::Reply(v) ==> forall|k: int|
            0 <= k < v.len() ==> items_typed((#[trigger] v[k]).items)),
{
    if let Some((o, i, p)) = lemma_after(t, m) {
        lemma_sets(t, m, o, i, p);
        lemma_typed_after_set(t, m, o, i, p);
    }
    if let Some(o) = t.target(m) {
        let a = lemma_found(t.paths, m.path->0);
        assert(object_typed(t.paths[a]));
        if let Ok((i, p)) = o.prop_arg(m.items) {
            let b = lemma_found(o.ifaces, i.name);
            assert(iface_typed(o.ifaces[b]));
            let c = lemma_found(i.properties, p.name);
            assert(well_typed(i.properties[c].value));
            if let Ok(v) = p.accepted(m.items) {
                assert(well_typed(m.items[2]));
                law_announcement_types(p, v);
            }
        }
        if let Ok(v) = o.get_all_answer(m) {
            let n = crate::args::str_arg(m.items, 0)->Ok_0;
            let b = lemma_found(o.ifaces, n);
            assert(iface_typed(o.ifaces[b]));
            law_read_all(o.ifaces[b].properties);
            lemma_prop_entries(o.ifaces[b].properties);
        }
    }
}

/// A call that sets a property to a well typed value leaves all values well typed.
proof fn lemma_typed_after_set<M>(
    t: TreeV<M>,
    m: Msg,
    o: ObjectV<M>,
    i: IfaceV<M>,
    p: PropV<M>,
)
    requires
        t.valid(),
        tree_typed(t),
        items_typed(m.items),
        sets(t, m, o, i, p),
    ensures
        tree_typed(t.after(m)),
{
    lemma_sets(t, m, o, i, p);
    let a = lemma_found(t.paths, o.name);
    assert(object_typed(t.paths[a]));
    let b = lemma_found(o.ifaces, i.name);
    assert(iface_typed(o.ifaces[b]));
    let c = lemma_found(i.properties, p.name);
    assert(well_typed(i.properties[c].value));
    let p2 = p.after_set(m.items);
    if p.accepted(m.items) is Ok {
        assert(well_typed(m.items[2]));
    }
    assert(well_typed(p2.value));
    lemma_put_all(i.properties, p2, |q: PropV<M>| well_typed(q.value));
    let i2 = i.with_p(p2);
    lemma_put_all(o.ifaces, i2, |j: IfaceV<M>| iface_typed(j));
    let o2 = o.with_iface(i2);
    lemma_put_all(t.paths, o2, |x: ObjectV<M>| object_typed(x));
}

} // verus!
