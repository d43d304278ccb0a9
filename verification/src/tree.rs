//! Trees of object paths.
use vstd::prelude::*;
use crate::interface::{EntryRef, EntryV, IfaceV, Interface, RefV};
use crate::item::{Item, MessageItem, item_view, items_view, lemma_items_push};
use crate::message::{Message, msgs_view, opt_view};
use crate::object::{ObjectPath, ObjectV, prop_entry};
use crate::property::{PropV, Property};
use crate::signal::{OwnerV, Signal, SignalV};
use crate::sorted::{Keyed, Named, Sorted, find, lemma_found, lemma_keys_differ, lemma_nth_named, lemma_put_same, lemma_put_update, nth_named, ordered, put, sound};
use crate::text::{has_char, joined, lemma_joined_push, strip_prefix, stripped};

verus! {

/// The object paths of a tree. What is in it can be read, its properties can be set, and it
/// handles messages; nothing can be added to it or taken out.
#[derive(Debug)]
pub struct Objects<M> {
    paths: Sorted<ObjectPath<M>>,
}

/// A collection of object paths.
#[derive(Debug)]
pub struct Tree<M> {
    objects: Objects<M>,
}

/// The mathematical value of a `Tree`, and of its `Objects`.
pub struct TreeV<M> {
    pub paths: Seq<ObjectV<M>>,
}

impl<M> View for Objects<M> {
    type V = TreeV<M>;

    closed spec fn view(&self) -> TreeV<M> {
        TreeV { paths: self.paths@ }
    }
}

impl<M> View for Tree<M> {
    type V = TreeV<M>;

    closed spec fn view(&self) -> TreeV<M> {
        self.objects@
    }
}

/// What stands behind `parent` and a slash in `k`, where `k` is a path below `parent`.
pub open spec fn below_path(parent: Seq<char>, k: Seq<char>) -> Option<Seq<char>> {
    match stripped(k, parent.push('/')) {
        Some(rest) => if rest.len() > 0 {
            Some(rest)
        } else {
            None
        },
        None => None,
    }
}

/// Whether the path `k` is listed below `parent`: at any depth, or one element below it.
pub open spec fn is_child(parent: Seq<char>, k: Seq<char>, direct_only: bool) -> bool {
    match below_path(parent, k) {
        Some(rest) => !(direct_only && rest.contains('/')),
        None => false,
    }
}

impl<M> TreeV<M> {
    /// What holds of the value of every tree.
    pub open spec fn valid(self) -> bool {
        sound(self.paths)
    }

    /// The object paths below the path `parent`, in the order of their names.
    pub open spec fn children(self, parent: Seq<char>, direct_only: bool) -> Seq<ObjectV<M>> {
        self.paths.filter(|o: ObjectV<M>| is_child(parent, o.name, direct_only))
    }

    /// The property named `e` at `path`.
    pub open spec fn property(self, path: Seq<char>, e: EntryV) -> Option<PropV<M>> {
        match find(self.paths, path) {
            Some(o) => o.property(e),
            None => None,
        }
    }

    /// The signal named `e` at `path`.
    pub open spec fn signal(self, path: Seq<char>, e: EntryV) -> Option<SignalV> {
        match find(self.paths, path) {
            Some(o) => o.signal(e),
            None => None,
        }
    }

    /// This tree with the property `p` in the interface named `iface` of the object at `path`.
    pub open spec fn with_property(
        self,
        path: Seq<char>,
        iface: Seq<char>,
        p: PropV<M>,
    ) -> TreeV<M> {
        match find(self.paths, path) {
            Some(o) => self.add(o.with_property(iface, p)),
            None => self,
        }
    }

    /// The property that `e` refers to at `path`.
    pub open spec fn referred_p(self, path: Seq<char>, e: RefV) -> Option<PropV<M>> {
        match find(self.paths, path) {
            Some(o) => o.referred_p(e),
            None => None,
        }
    }

    /// The signal that `e` refers to at `path`.
    pub open spec fn referred_s(self, path: Seq<char>, e: RefV) -> Option<SignalV> {
        match find(self.paths, path) {
            Some(o) => o.referred_s(e),
            None => None,
        }
    }

    /// This tree with the property `p`, to which `e` refers at `path`, as it is now.
    pub open spec fn with_referred_p(self, path: Seq<char>, e: RefV, p: PropV<M>) -> TreeV<M> {
        match find(self.paths, path) {
            Some(o) => self.add(o.with_referred_p(e, p)),
            None => self,
        }
    }

    /// This tree with one more object path.
    pub open spec fn add(self, o: ObjectV<M>) -> TreeV<M> {
        TreeV { paths: put(self.paths, o) }
    }

    /// This tree without the object path `path`.
    pub open spec fn without(self, path: Seq<char>) -> TreeV<M> {
        TreeV { paths: self.paths.filter(|o: ObjectV<M>| o.name != path) }
    }

    /// All of this tree but the values of its properties.
    pub open spec fn shape(self) -> TreeV<M> {
        TreeV { paths: self.paths.map_values(|o: ObjectV<M>| o.shape()) }
    }

    /// Both trees have the same object paths, with the same interfaces, methods, signals and
    /// properties; only the values of the properties may differ.
    pub open spec fn same_shape(self, t: TreeV<M>) -> bool {
        self.shape() == t.shape()
    }
}

/// Where an element gives way to one that looks the same, all look the same.
proof fn lemma_put_image<K: Keyed, V>(s: Seq<K>, v: K, f: spec_fn(K) -> V)
    requires
        ordered(s),
        find(s, v.key()) is Some,
        f(v) == f(find(s, v.key())->0),
    ensures
        put(s, v).map_values(f) == s.map_values(f),
{
    let i = lemma_found(s, v.key());
    lemma_put_update(s, v, i);
    assert(put(s, v).map_values(f) =~= s.map_values(f));
}

/// Taking an object path out leaves all others, in their places.
proof fn lemma_without<M>(t: TreeV<M>, i: int)
    requires
        ordered(t.paths),
        0 <= i < t.paths.len(),
    ensures
        t.without(t.paths[i].name).paths == t.paths.remove(i),
{
    let s = t.paths;
    let path = s[i].name;
    let pred = |o: ObjectV<M>| o.name != path;
    let a = s.take(i);
    let b = s.skip(i + 1);
    assert forall|k: int| 0 <= k < s.len() && k != i implies pred(#[trigger] s[k]) by {
        lemma_keys_differ(s, i, k);
    }
    assert(s =~= a + seq![s[i]] + b);
    Seq::filter_distributes_over_add(a + seq![s[i]], b, pred);
    Seq::filter_distributes_over_add(a, seq![s[i]], pred);
    lemma_filter_all(a, pred);
    lemma_filter_all(b, pred);
    reveal(Seq::filter);
    let one = seq![s[i]];
    assert(one.drop_last() =~= Seq::<ObjectV<M>>::empty());
    assert(one.drop_last().filter(pred) =~= Seq::<ObjectV<M>>::empty());
    assert(!pred(one.last()));
    assert(one.filter(pred) =~= Seq::<ObjectV<M>>::empty());
    assert(s.filter(pred) =~= s.remove(i));
}

/// An object path that was taken out and is put back in, or another one of its name in its
/// stead: that is as if it had been added.
pub proof fn lemma_put_back<M>(t: TreeV<M>, o: ObjectV<M>, p: ObjectV<M>)
    requires
        t.valid(),
        find(t.paths, o.name) == Some(o),
        p.name == o.name,
    ensures
        t.without(o.name).add(p) == t.add(p),
{
    let i = lemma_found(t.paths, o.name);
    lemma_without(t, i);
    lemma_put_update(t.paths, p, i);
}

/// A filter that keeps everything changes nothing.
proof fn lemma_filter_all<K>(s: Seq<K>, p: spec_fn(K) -> bool)
    requires
        forall|i: int| 0 <= i < s.len() ==> p(#[trigger] s[i]),
    ensures
        s.filter(p) == s,
    decreases s.len(),
{
    reveal(Seq::filter);
    if s.len() > 0 {
        lemma_filter_all(s.drop_last(), p);
        assert(s.drop_last().push(s.last()) =~= s);
    }
}

/// The children of an object path are there without it, too.
pub proof fn lemma_children_without<M>(t: TreeV<M>, o: ObjectV<M>, direct_only: bool)
    ensures
        t.without(o.name).children(o.name, direct_only) == t.children(o.name, direct_only),
{
    let p = |x: ObjectV<M>| x.name != o.name;
    let q = |x: ObjectV<M>| is_child(o.name, x.name, direct_only);
    assert forall|x: ObjectV<M>| #[trigger] q(x) implies p(x) by {}
    lemma_filter_twice(t.paths, p, q);
}

/// A filter that keeps all that a second one keeps makes no difference to it.
proof fn lemma_filter_twice<K>(s: Seq<K>, p: spec_fn(K) -> bool, q: spec_fn(K) -> bool)
    requires
        forall|x: K| #[trigger] q(x) ==> p(x),
    ensures
        s.filter(p).filter(q) == s.filter(q),
    decreases s.len(),
{
    reveal(Seq::filter);
    if s.len() > 0 {
        lemma_filter_twice(s.drop_last(), p, q);
        let f = s.drop_last().filter(p);
        if p(s.last()) {
            assert(f.push(s.last()).drop_last() =~= f);
        }
    }
}

/// Another value for a property keeps the shape of a tree.
pub proof fn lemma_property_shape<M>(t: TreeV<M>, path: Seq<char>, e: EntryV, p: PropV<M>)
    requires
        t.valid(),
        t.property(path, e) is Some,
        p.shape() == t.property(path, e)->0.shape(),
    ensures
        t.with_property(path, e.iface, p).same_shape(t),
{
    let a = lemma_found(t.paths, path);
    let o = t.paths[a];
    assert(o.valid());
    let b = lemma_found(o.ifaces, e.iface);
    let i = o.ifaces[b];
    assert(i.valid());
    let c = lemma_found(i.properties, e.name);
    assert(p.shape().name == p.name);
    lemma_put_image(i.properties, p, |q: PropV<M>| q.shape());
    assert(i.with_p(p).shape() == i.shape());
    lemma_iface_shape(t, o, i, i.with_p(p));
}

/// An interface that gives way to one that looks the same keeps the shape of a tree.
proof fn lemma_iface_shape<M>(t: TreeV<M>, o: ObjectV<M>, i: IfaceV<M>, j: IfaceV<M>)
    requires
        t.valid(),
        find(t.paths, o.name) == Some(o),
        find(o.ifaces, i.name) == Some(i),
        j.shape() == i.shape(),
    ensures
        t.add(o.with_iface(j)).same_shape(t),
{
    let a = lemma_found(t.paths, o.name);
    assert(o.valid());
    assert(j.shape().name == j.name && i.shape().name == i.name);
    lemma_put_image(o.ifaces, j, |x: IfaceV<M>| x.shape());
    assert(o.with_iface(j).shape() == o.shape());
    lemma_put_image(t.paths, o.with_iface(j), |x: ObjectV<M>| x.shape());
}

/// Another value for a property, replaced or not, keeps the shape of a tree.
pub proof fn lemma_referred_shape<M>(t: TreeV<M>, path: Seq<char>, e: RefV, p: PropV<M>)
    requires
        t.valid(),
        t.referred_p(path, e) is Some,
        p == t.referred_p(path, e)->0.with_value(p.value),
    ensures
        t.with_referred_p(path, e, p).same_shape(t),
{
    let a = lemma_found(t.paths, path);
    let o = t.paths[a];
    assert(o.valid());
    let b = lemma_found(o.ifaces, e.iface);
    let i = o.ifaces[b];
    assert(i.valid());
    lemma_nth_named(i.old_properties, e.name, e.turn);
    assert(p.shape() == t.referred_p(path, e)->0.shape());
    match nth_named(i.old_properties, e.name, e.turn) {
        Some(k) => {
            assert(i.old_properties.update(k, p).map_values(|q: PropV<M>| q.shape())
                =~= i.old_properties.map_values(|q: PropV<M>| q.shape()));
        },
        None => {
            let c = lemma_found(i.properties, e.name);
            lemma_put_image(i.properties, p, |q: PropV<M>| q.shape());
        },
    }
    lemma_iface_shape(t, o, i, i.with_referred_p(e.turn, p));
}

impl<M> Objects<M> {
    /// The object paths below `o`: all, or those one element below it.
    pub fn children(&self, o: &ObjectPath<M>, direct_only: bool) -> (r: Vec<&ObjectPath<M>>)
        ensures
            objects_view(r@) == self@.children(o@.name, direct_only),
    {
        let mut parent = o.name().as_str().to_owned();
        parent.append("/");
        proof {
            reveal_strlit("/");
            assert(parent@ =~= o@.name.push('/'));
        }
        let ghost pred = |c: ObjectV<M>| is_child(o@.name, c.name, direct_only);
        let mut out: Vec<&ObjectPath<M>> = Vec::new();
        let mut i: usize = 0;
        let n = self.paths.len();
        proof {
            assert(self@.paths.take(0) =~= Seq::<ObjectV<M>>::empty());
            reveal(Seq::filter);
            assert(objects_view(out@) =~= self@.paths.take(0).filter(pred));
        }
        while i < n
            invariant
                i <= n,
                n == self@.paths.len(),
                parent@ == o@.name.push('/'),
                pred == (|c: ObjectV<M>| is_child(o@.name, c.name, direct_only)),
                objects_view(out@) == self@.paths.take(i as int).filter(pred),
            decreases n - i,
        {
            let c = self.paths.at(i);
            let keep = match strip_prefix(c.key_text(), parent.as_str()) {
                Some(rest) => !rest.is_empty() && !(direct_only && has_char(rest, '/')),
                None => false,
            };
            assert(keep == is_child(o@.name, c@.name, direct_only));
            let ghost before = out@;
            if keep {
                out.push(c);
            }
            proof {
                reveal(Seq::filter);
                let t = self@.paths.take(i + 1);
                assert(t.drop_last() =~= self@.paths.take(i as int));
                assert(t.last() == c@);
                if keep {
                    assert(objects_view(out@) =~= objects_view(before).push(c@));
                }
            }
            i = i + 1;
        }
        assert(self@.paths.take(i as int) =~= self@.paths);
        out
    }

    /// What holds of the value of every tree holds of this one's. There is nothing to do for
    /// it.
    pub fn assure(&self)
        ensures
            self@.valid(),
    {
        self.paths.assure();
    }

    /// The object paths, in the order of their names.
    pub fn paths(&self) -> (r: &Sorted<ObjectPath<M>>)
        ensures
            r@ == self@.paths,
    {
        &self.paths
    }

    /// The object at `path`.
    pub fn object(&self, path: &str) -> (r: Option<&ObjectPath<M>>)
        ensures
            opt_view(r) == find(self@.paths, path@),
    {
        self.paths.get(path)
    }

    /// The property that `e` refers to at `path`.
    pub fn property(&self, path: &str, e: &EntryRef) -> (r: Option<&Property<M>>)
        ensures
            opt_view(r) == self@.referred_p(path@, e@),
    {
        match self.paths.get(path) {
            Some(o) => o.property(e),
            None => None,
        }
    }

    /// The signal that `e` refers to at `path`.
    pub fn signal(&self, path: &str, e: &EntryRef) -> (r: Option<&Signal>)
        ensures
            opt_view(r) == self@.referred_s(path@, e@),
            r matches Some(s) ==> opt_view(r) == self@.signal(path@, e@.entry()) ==> s@.owner
                == Some(OwnerV { path: path@, iface: e@.iface }),
    {
        match self.paths.get(path) {
            Some(o) => o.signal(e),
            None => None,
        }
    }

    /// Sets the value of the property that `e` refers to at `path`, where there is one. That
    /// of a constant property in the tree cannot be set.
    pub fn set_property(&mut self, path: &str, e: &EntryRef, v: MessageItem) -> (r: Option<
        Result<Vec<Message>, ()>,
    >)
        ensures
            match r {
                None => old(self)@.referred_p(path@, e@) is None && final(self)@ == old(self)@,
                Some(Ok(out)) => {
                    &&& old(self)@.referred_p(path@, e@) matches Some(p)
                    &&& p.settable()
                    &&& msgs_view(out@) == p.announcement(v@)
                    &&& final(self)@ == old(self)@.with_referred_p(
                        path@,
                        e@,
                        p.with_value(v@),
                    )
                },
                Some(Err(_)) => {
                    &&& old(self)@.referred_p(path@, e@) matches Some(p)
                    &&& !p.settable()
                    &&& final(self)@ == old(self)@
                },
            },
            final(self)@.same_shape(old(self)@),
    {
        self.assure();
        match self.paths.index_of(path) {
            None => None,
            Some(i) => {
                let ghost before = self.paths@;
                let mut o = self.paths.remove(i);
                let r = o.set_property(e, v);
                proof {
                    lemma_put_update(before, o@, i as int);
                    lemma_put_same(before, i as int);
                    if r matches Some(Ok(_)) {
                        lemma_referred_shape(
                            old(self)@,
                            path@,
                            e@,
                            old(self)@.referred_p(path@, e@)->0.with_value(v@),
                        );
                    }
                }
                self.paths.insert(o);
                r
            },
        }
    }

    /// Takes the object at `path` out, where there is one.
    pub(crate) fn take(&mut self, path: &str) -> (r: Option<ObjectPath<M>>)
        ensures
            old(self)@.valid(),
            match r {
                None => find(old(self)@.paths, path@) is None && final(self)@ == old(self)@,
                Some(o) => {
                    &&& find(old(self)@.paths, path@) == Some(o@)
                    &&& final(self)@ == old(self)@.without(path@)
                },
            },
    {
        match self.paths.index_of(path) {
            None => None,
            Some(i) => {
                proof {
                    lemma_without(self@, i as int);
                }
                Some(self.paths.remove(i))
            },
        }
    }

    /// Puts an object path in.
    pub(crate) fn put(&mut self, o: ObjectPath<M>)
        ensures
            final(self)@ == old(self)@.add(o@),
    {
        self.paths.insert(o);
    }
}

impl<M> Tree<M> {
    /// A tree with nothing in it.
    pub fn new() -> (r: Self)
        ensures
            r@ == (TreeV::<M> { paths: Seq::empty() }),
    {
        Tree { objects: Objects { paths: Sorted::new() } }
    }

    /// Adds an object path.
    pub fn add(self, p: ObjectPath<M>) -> (r: Self)
        ensures
            r@ == self@.add(p@),
    {
        let mut t = self;
        t.objects.put(p);
        t
    }

    /// The object paths, to be changed only as they allow it.
    pub(crate) fn objects(&mut self) -> (r: &mut Objects<M>)
        ensures
            r@ == old(self)@,
            final(self)@ == final(r)@,
    {
        &mut self.objects
    }

    /// Sets the value of the property that `e` refers to at `path`, where there is one. That
    /// of a constant property in the tree cannot be set.
    pub fn set_property(&mut self, path: &str, e: &EntryRef, v: MessageItem) -> (r: Option<
        Result<Vec<Message>, ()>,
    >)
        ensures
            match r {
                None => old(self)@.referred_p(path@, e@) is None && final(self)@ == old(self)@,
                Some(Ok(out)) => {
                    &&& old(self)@.referred_p(path@, e@) matches Some(p)
                    &&& p.settable()
                    &&& msgs_view(out@) == p.announcement(v@)
                    &&& final(self)@ == old(self)@.with_referred_p(
                        path@,
                        e@,
                        p.with_value(v@),
                    )
                },
                Some(Err(_)) => {
                    &&& old(self)@.referred_p(path@, e@) matches Some(p)
                    &&& !p.settable()
                    &&& final(self)@ == old(self)@
                },
            },
            final(self)@.same_shape(old(self)@),
    {
        self.objects.set_property(path, e, v)
    }
}

impl<M> std::ops::Deref for Tree<M> {
    type Target = Objects<M>;

    fn deref(&self) -> (r: &Objects<M>)
        ensures
            r@ == self@,
    {
        &self.objects
    }
}

/// The values of a list of object paths.
pub open spec fn objects_view<M>(s: Seq<&ObjectPath<M>>) -> Seq<ObjectV<M>> {
    s.map_values(|o: &ObjectPath<M>| o@)
}

/// The introspection text of an object path below `parent`.
pub open spec fn node_xml(parent: Seq<char>, k: Seq<char>) -> Seq<char> {
    "  <node name=\""@ + k.skip((parent.len() + 1) as int) + "\"/>\n"@
}

/// The first lines of an introspection text.
pub open spec fn doctype() -> Seq<char> {
    "<!DOCTYPE node PUBLIC \"-//freedesktop//DTD D-BUS Object Introspection 1.0//EN\" \"http://www.freedesktop.org/standards/dbus/1.0/introspect.dtd\">\n<node name=\""@
}

/// An interface with its properties, in a list of objects.
pub open spec fn iface_entry<M>(i: IfaceV<M>) -> Item {
    Item::DictEntry(
        Box::new(Item::Str(i.name)),
        Box::new(
            Item::Array(i.properties.map_values(|p: PropV<M>| prop_entry(p)), "{sv}"@),
        ),
    )
}

/// An object path with its interfaces, in a list of objects. Its name stands there as a
/// string.
pub open spec fn object_entry<M>(o: ObjectV<M>) -> Item {
    Item::DictEntry(
        Box::new(Item::Str(o.name)),
        Box::new(
            Item::Array(o.ifaces.map_values(|i: IfaceV<M>| iface_entry(i)), "{sa{sv}}"@),
        ),
    )
}

impl<M> ObjectV<M> {
    /// The introspection text of this object path in the tree `t`: its interfaces, and the
    /// paths one element below it.
    pub open spec fn xml(self, t: TreeV<M>) -> Seq<char> {
        doctype() + self.name + "\">\n"@ + self.ifaces_xml() + joined(
            t.children(self.name, true).map_values(|c: ObjectV<M>| node_xml(self.name, c.name)),
        ) + "</node>"@
    }

    /// The object paths that this one manages in the tree `t`: all below it, and itself.
    pub open spec fn managed_objects(self, t: TreeV<M>) -> Item {
        Item::Array(
            t.children(self.name, false).push(self).map_values(|o: ObjectV<M>| object_entry(o)),
            "{oa{sa{sv}}}"@,
        )
    }
}

/// An interface with its properties, in a list of objects.
fn make_iface_entry<M>(i: &Interface<M>) -> (r: MessageItem)
    ensures
        r@ == iface_entry(i@),
{
    let props = i.properties();
    let ghost want = props@.map_values(|p: PropV<M>| prop_entry(p));
    let mut q: Vec<MessageItem> = Vec::new();
    let mut k: usize = 0;
    let n = props.len();
    assert(items_view(q@) =~= want.take(0));
    while k < n
        invariant
            k <= n,
            n == props@.len(),
            want == props@.map_values(|p: PropV<M>| prop_entry(p)),
            items_view(q@) == want.take(k as int),
        decreases n - k,
    {
        let p = props.at(k);
        let entry = MessageItem::DictEntry(
            Box::new(MessageItem::Str(p.key_text().to_owned())),
            Box::new(MessageItem::Variant(Box::new(p.get_value()))),
        );
        proof {
            reveal_with_fuel(item_view, 3);
            assert(entry@ == prop_entry(p@));
            lemma_items_push(q@, entry);
            assert(want.take(k + 1) =~= want.take(k as int).push(want[k as int]));
        }
        q.push(entry);
        k = k + 1;
    }
    assert(want.take(k as int) =~= want);
    let r = MessageItem::DictEntry(
        Box::new(MessageItem::Str(i.key_text().to_owned())),
        Box::new(MessageItem::Array(q, "{sv}".to_owned())),
    );
    proof {
        reveal_with_fuel(item_view, 2);
    }
    r
}

impl<M> ObjectPath<M> {
    /// This object path with its interfaces, in a list of objects.
    fn make_entry(&self) -> (r: MessageItem)
        ensures
            r@ == object_entry(self@),
    {
        let ifaces = self.interfaces();
        let ghost want = ifaces@.map_values(|i: IfaceV<M>| iface_entry(i));
        let mut q: Vec<MessageItem> = Vec::new();
        let mut k: usize = 0;
        let n = ifaces.len();
        assert(items_view(q@) =~= want.take(0));
        while k < n
            invariant
                k <= n,
                n == ifaces@.len(),
                want == ifaces@.map_values(|i: IfaceV<M>| iface_entry(i)),
                items_view(q@) == want.take(k as int),
            decreases n - k,
        {
            let entry = make_iface_entry(ifaces.at(k));
            proof {
                lemma_items_push(q@, entry);
                assert(want.take(k + 1) =~= want.take(k as int).push(want[k as int]));
            }
            q.push(entry);
            k = k + 1;
        }
        assert(want.take(k as int) =~= want);
        let r = MessageItem::DictEntry(
            Box::new(MessageItem::Str(self.name().as_str().to_owned())),
            Box::new(MessageItem::Array(q, "{sa{sv}}".to_owned())),
        );
        proof {
            reveal_with_fuel(item_view, 2);
        }
        r
    }

    /// The introspection text of this object path: its interfaces, and the paths of `tree`
    /// one element below it.
    pub fn introspect(&self, tree: &Objects<M>) -> (r: String)
        ensures
            r@ == self@.xml(tree@),
    {
        let mut text =
            "<!DOCTYPE node PUBLIC \"-//freedesktop//DTD D-BUS Object Introspection 1.0//EN\" \"http://www.freedesktop.org/standards/dbus/1.0/introspect.dtd\">\n<node name=\"".to_owned();
        text.append(self.name().as_str());
        text.append("\">\n");
        text.append(self.introspect_ifaces().as_str());
        let nodes = self.introspect_children(tree);
        text.append(nodes.as_str());
        text.append("</node>");
        text
    }

    /// The introspection text of the paths of `tree` one element below this one.
    fn introspect_children(&self, tree: &Objects<M>) -> (r: String)
        ensures
            r@ == joined(
                tree@.children(self@.name, true).map_values(
                    |c: ObjectV<M>| node_xml(self@.name, c.name),
                ),
            ),
    {
        let mut parent = self.name().as_str().to_owned();
        parent.append("/");
        proof {
            reveal_strlit("/");
            assert(parent@ =~= self@.name.push('/'));
        }
        let children = tree.children(self, true);
        let ghost cs = tree@.children(self@.name, true);
        let ghost parts = cs.map_values(|c: ObjectV<M>| node_xml(self@.name, c.name));
        let mut text = String::new();
        let mut i: usize = 0;
        assert(parts.take(0) =~= Seq::<Seq<char>>::empty());
        while i < children.len()
            invariant
                i <= children.len(),
                cs == tree@.children(self@.name, true),
                objects_view(children@) == cs,
                parts == cs.map_values(|c: ObjectV<M>| node_xml(self@.name, c.name)),
                parent@ == self@.name.push('/'),
                text@ == joined(parts.take(i as int)),
            decreases children.len() - i,
        {
            let c = children[i];
            proof {
                assert(c@ == objects_view(children@)[i as int]);
                lemma_child(tree@, self@.name, true, i as int);
            }
            let ghost start = text@;
            match strip_prefix(c.key_text(), parent.as_str()) {
                Some(rest) => {
                    text.append("  <node name=\"");
                    text.append(rest);
                    text.append("\"/>\n");
                    assert(text@ =~= start + node_xml(self@.name, c@.name));
                },
                None => {},
            }
            proof {
                lemma_joined_push(parts.take(i as int), parts[i as int]);
                assert(parts.take(i + 1) =~= parts.take(i as int).push(parts[i as int]));
            }
            i = i + 1;
        }
        assert(parts.take(i as int) =~= parts);
        text
    }

    /// The object paths that this one manages in the tree `t`: all below it, and itself.
    pub fn get_managed_objects(&self, t: &Objects<M>) -> (r: MessageItem)
        ensures
            r@ == self@.managed_objects(t@),
    {
        let mut paths = t.children(self, false);
        let ghost before = paths@;
        paths.push(self);
        let ghost os = t@.children(self@.name, false).push(self@);
        assert(objects_view(paths@) =~= os);
        let ghost want = os.map_values(|o: ObjectV<M>| object_entry(o));
        let mut q: Vec<MessageItem> = Vec::new();
        let mut k: usize = 0;
        assert(items_view(q@) =~= want.take(0));
        while k < paths.len()
            invariant
                k <= paths.len(),
                objects_view(paths@) == os,
                want == os.map_values(|o: ObjectV<M>| object_entry(o)),
                items_view(q@) == want.take(k as int),
            decreases paths.len() - k,
        {
            let entry = paths[k].make_entry();
            proof {
                assert(paths@[k as int]@ == objects_view(paths@)[k as int]);
                lemma_items_push(q@, entry);
                assert(want.take(k + 1) =~= want.take(k as int).push(want[k as int]));
            }
            q.push(entry);
            k = k + 1;
        }
        assert(want.take(k as int) =~= want);
        MessageItem::Array(q, "{oa{sa{sv}}}".to_owned())
    }
}

/// Every child in the list is one.
pub proof fn lemma_child<M>(t: TreeV<M>, parent: Seq<char>, direct_only: bool, i: int)
    requires
        0 <= i < t.children(parent, direct_only).len(),
    ensures
        is_child(parent, t.children(parent, direct_only)[i].name, direct_only),
{
    let pred = |o: ObjectV<M>| is_child(parent, o.name, direct_only);
    t.paths.lemma_filter_pred(pred, i);
}

} // verus!
