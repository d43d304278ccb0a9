//! Annotations, and their introspection text.
use vstd::prelude::*;
use crate::sorted::{Keyed, Named, Sorted, put};
use crate::text::{joined, lemma_joined_push};

verus! {

/// An annotation: a name and a value.
#[derive(Debug, PartialEq, Eq)]
pub struct Annotation {
    name: String,
    value: String,
}

/// The mathematical value of an `Annotation`.
pub struct AnnV {
    pub name: Seq<char>,
    pub value: Seq<char>,
}

impl View for Annotation {
    type V = AnnV;

    closed spec fn view(&self) -> AnnV {
        AnnV { name: self.name@, value: self.value@ }
    }
}

impl Keyed for AnnV {
    open spec fn key(self) -> Seq<char> {
        self.name
    }

    open spec fn valid(self) -> bool {
        true
    }
}

impl Named for Annotation {
    fn key_text(&self) -> &str {
        self.name.as_str()
    }

    fn assure(&self) {
    }
}

/// The annotations `anns` with one more, which replaces one of the same name.
pub open spec fn annotated(anns: Seq<AnnV>, name: Seq<char>, value: Seq<char>) -> Seq<AnnV> {
    put(anns, AnnV { name, value })
}

/// The annotations `anns` with the one that says that an entity is deprecated.
pub open spec fn marked_deprecated(anns: Seq<AnnV>) -> Seq<AnnV> {
    annotated(anns, "org.freedesktop.DBus.Deprecated"@, "true"@)
}

/// Adds an annotation.
pub(crate) fn add_annotation(anns: &mut Sorted<Annotation>, name: &str, value: &str)
    ensures
        final(anns)@ == annotated(old(anns)@, name@, value@),
{
    anns.insert(Annotation { name: name.to_owned(), value: value.to_owned() });
}

/// Adds the annotation that says that an entity is deprecated.
pub(crate) fn add_deprecated(anns: &mut Sorted<Annotation>)
    ensures
        final(anns)@ == marked_deprecated(old(anns)@),
{
    add_annotation(anns, "org.freedesktop.DBus.Deprecated", "true");
}

/// The introspection text of one annotation.
pub open spec fn ann_xml(a: AnnV, indent: Seq<char>) -> Seq<char> {
    indent + "<annotation name=\""@ + a.name + "\" value=\""@ + a.value + "\"/>\n"@
}

/// The introspection text of annotations, in the order of their names.
pub open spec fn anns_xml(anns: Seq<AnnV>, indent: Seq<char>) -> Seq<char> {
    joined(anns.map_values(|a: AnnV| ann_xml(a, indent)))
}

/// The introspection text of annotations, in the order of their names.
pub fn introspect_anns(anns: &Sorted<Annotation>, indent: &str) -> (r: String)
    ensures
        r@ == anns_xml(anns@, indent@),
{
    let mut text = String::new();
    let mut i: usize = 0;
    let n = anns.len();
    let ghost parts = anns@.map_values(|a: AnnV| ann_xml(a, indent@));
    assert(parts.take(0) =~= Seq::<Seq<char>>::empty());
    while i < n
        invariant
            i <= n,
            n == anns@.len(),
            parts == anns@.map_values(|a: AnnV| ann_xml(a, indent@)),
            text@ == joined(parts.take(i as int)),
        decreases n - i,
    {
        let a = anns.at(i);
        let ghost start = text@;
        text.append(indent);
        text.append("<annotation name=\"");
        text.append(a.name.as_str());
        text.append("\" value=\"");
        text.append(a.value.as_str());
        text.append("\"/>\n");
        proof {
            assert(text@ =~= start + ann_xml(a@, indent@));
            assert(parts[i as int] == ann_xml(a@, indent@));
            lemma_joined_push(parts.take(i as int), parts[i as int]);
            assert(parts.take(i + 1) =~= parts.take(i as int).push(parts[i as int]));
        }
        i = i + 1;
    }
    assert(parts.take(i as int) =~= parts);
    text
}

} // verus!
