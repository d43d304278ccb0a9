//! Arguments that methods and signals declare.
use vstd::prelude::*;
use crate::message::opt_view;
use crate::text::{joined, lemma_joined_push};

verus! {

/// An argument that a method or a signal declares: its name, where it has one, and the
/// signature of its type.
#[derive(Debug, PartialEq, Eq, PartialOrd, Ord)]
pub struct Argument(Option<String>, String);

/// The mathematical value of an `Argument`.
pub struct ArgV {
    pub name: Option<Seq<char>>,
    pub sig: Seq<char>,
}

impl View for Argument {
    type V = ArgV;

    closed spec fn view(&self) -> ArgV {
        ArgV {
            name: match self.0 {
                Some(n) => Some(n@),
                None => None,
            },
            sig: self.1@,
        }
    }
}

impl Clone for Argument {
    fn clone(&self) -> (r: Self)
        ensures
            r@ == self@,
    {
        let name = match &self.0 {
            Some(n) => Some(n.clone()),
            None => None,
        };
        Argument(name, self.1.clone())
    }
}

/// The values of a list of arguments.
pub open spec fn args_view(v: Seq<Argument>) -> Seq<ArgV> {
    v.map_values(|a: Argument| a@)
}

/// The attribute with the name of an argument.
pub open spec fn name_attribute(name: Option<Seq<char>>) -> Seq<char> {
    match name {
        Some(n) => "name=\""@ + n + "\" "@,
        None => Seq::empty(),
    }
}

/// The introspection text of one argument.
pub open spec fn arg_xml(a: ArgV, indent: Seq<char>, dir: Seq<char>) -> Seq<char> {
    indent + "<arg "@ + name_attribute(a.name) + "type=\""@ + a.sig + "\""@ + dir + "/>\n"@
}

/// The introspection text of a list of arguments.
pub open spec fn args_xml(args: Seq<ArgV>, indent: Seq<char>, dir: Seq<char>) -> Seq<char> {
    joined(args.map_values(|a: ArgV| arg_xml(a, indent, dir)))
}

impl Argument {
    /// An argument with the signature `sig`, and a name or none.
    pub fn new(name: Option<String>, sig: String) -> (r: Argument)
        ensures
            r@ == (ArgV { name: opt_view(name), sig: sig@ }),
    {
        Argument(name, sig)
    }

    /// The introspection text of this argument.
    pub fn introspect(&self, indent: &str, dir: &str) -> (r: String)
        ensures
            r@ == arg_xml(self@, indent@, dir@),
    {
        let mut n = String::new();
        if let Some(name) = &self.0 {
            n.append("name=\"");
            n.append(name.as_str());
            n.append("\" ");
        }
        assert(n@ =~= name_attribute(self@.name));
        let mut text = indent.to_owned();
        text.append("<arg ");
        text.append(n.as_str());
        text.append("type=\"");
        text.append(self.1.as_str());
        text.append("\"");
        text.append(dir);
        text.append("/>\n");
        text
    }

    /// The introspection text of a list of arguments.
    pub fn introspect_all(args: &Vec<Argument>, indent: &str, dir: &str) -> (r: String)
        ensures
            r@ == args_xml(args_view(args@), indent@, dir@),
    {
        let mut text = String::new();
        let mut i: usize = 0;
        let ghost parts = args_view(args@).map_values(|a: ArgV| arg_xml(a, indent@, dir@));
        assert(parts.take(0) =~= Seq::<Seq<char>>::empty());
        while i < args.len()
            invariant
                i <= args.len(),
                parts == args_view(args@).map_values(|a: ArgV| arg_xml(a, indent@, dir@)),
                text@ == joined(parts.take(i as int)),
            decreases args.len() - i,
        {
            text.append(args[i].introspect(indent, dir).as_str());
            proof {
                lemma_joined_push(parts.take(i as int), parts[i as int]);
                assert(parts.take(i + 1) =~= parts.take(i as int).push(parts[i as int]));
            }
            i = i + 1;
        }
        assert(parts.take(i as int) =~= parts);
        text
    }
}

impl From<String> for Argument {
    fn from(t: String) -> (r: Argument)
        ensures
            r@ == (ArgV { name: None, sig: t@ }),
    {
        Argument(None, t)
    }
}

impl vstd::std_specs::convert::FromSpecImpl<String> for Argument {
    open spec fn obeys_from_spec() -> bool {
        true
    }

    closed spec fn from_spec(v: String) -> Self {
        Argument(None, v)
    }
}

impl From<&str> for Argument {
    fn from(t: &str) -> (r: Argument)
        ensures
            r@ == (ArgV { name: None, sig: t@ }),
    {
        Argument(None, t.to_owned())
    }
}

impl vstd::std_specs::convert::FromSpecImpl<&str> for Argument {
    open spec fn obeys_from_spec() -> bool {
        false
    }

    open spec fn from_spec(v: &str) -> Self {
        arbitrary()
    }
}

impl From<(&str, &str)> for Argument {
    fn from(t: (&str, &str)) -> (r: Argument)
        ensures
            r@ == (ArgV { name: Some(t.0@), sig: t.1@ }),
    {
        Argument(Some(t.0.to_owned()), t.1.to_owned())
    }
}

impl vstd::std_specs::convert::FromSpecImpl<(&str, &str)> for Argument {
    open spec fn obeys_from_spec() -> bool {
        false
    }

    open spec fn from_spec(v: (&str, &str)) -> Self {
        arbitrary()
    }
}

/// `a` can turn into an argument with the value `v`.
pub open spec fn becomes<A: Into<Argument>>(a: A, v: ArgV) -> bool {
    exists|x: Argument| #[trigger] call_ensures(A::into, (a,), x) && x@ == v
}

/// The things in `s` can turn, one by one, into arguments with the values `xs`.
pub open spec fn all_become<A: Into<Argument>>(s: Seq<A>, xs: Seq<ArgV>) -> bool {
    &&& xs.len() == s.len()
    &&& forall|i: int| 0 <= i < s.len() ==> becomes(#[trigger] s[i], xs[i])
}

/// Turns a list of things into arguments, and adds those to `args`.
pub(crate) fn extend_args<Z: Into<Argument>>(args: &mut Vec<Argument>, more: Vec<Z>)
    ensures
        exists|xs: Seq<ArgV>|
            #[trigger] all_become(more@, xs) && args_view(final(args)@) == args_view(old(args)@)
                + xs,
{
    let ghost start = args_view(args@);
    let ghost given = more@;
    let ghost mut xs: Seq<ArgV> = Seq::empty();
    assert(args_view(args@) =~= start + xs);
    for z in it: more.into_iter()
        invariant
            it.seq() == given,
            xs.len() == it.index(),
            forall|i: int| 0 <= i < it.index() ==> becomes(#[trigger] given[i], xs[i]),
            args_view(args@) == start + xs,
    {
        let x: Argument = z.into();
        let ghost before = args@;
        args.push(x);
        proof {
            assert(becomes(z, x@));
            assert(args_view(before.push(x)) =~= args_view(before).push(x@));
            assert(start + xs.push(x@) =~= (start + xs).push(x@));
            xs = xs.push(x@);
        }
    }
    assert(all_become(given, xs));
}

} // verus!
