//! The names of D-Bus: object paths, interfaces, members and errors, and the grammar of each.
use vstd::prelude::*;
use crate::text::has_char;

verus! {

/// The longest name of an interface, a member or an error.
pub const NAME_MAX: usize = 255;

/// A character that may start an element of a name.
pub open spec fn name_start(c: char) -> bool {
    'A' <= c <= 'Z' || 'a' <= c <= 'z' || c == '_'
}

/// A character that may stand in an element of a name.
pub open spec fn name_char(c: char) -> bool {
    name_start(c) || '0' <= c <= '9'
}

/// A member name: one element that does not start with a digit.
pub open spec fn valid_member(s: Seq<char>) -> bool {
    &&& 0 < s.len() <= NAME_MAX
    &&& name_start(s[0])
    &&& forall|i: int| 0 <= i < s.len() ==> name_char(#[trigger] s[i])
}

/// Character `i` of a dotted name: a dot that ends an element, or a character of an
/// element, which does not start with a digit.
pub open spec fn dotted_at(s: Seq<char>, i: int) -> bool {
    if s[i] == '.' {
        i > 0 && s[i - 1] != '.'
    } else if i == 0 || s[i - 1] == '.' {
        name_start(s[i])
    } else {
        name_char(s[i])
    }
}

/// An interface name or an error name: at least two elements, separated by dots.
pub open spec fn valid_iface(s: Seq<char>) -> bool {
    &&& 0 < s.len() <= NAME_MAX
    &&& s.contains('.')
    &&& s.last() != '.'
    &&& forall|i: int| 0 <= i < s.len() ==> #[trigger] dotted_at(s, i)
}

/// Character `i` of an object path: a slash in front of an element, or a character of an
/// element.
pub open spec fn path_at(s: Seq<char>, i: int) -> bool {
    if s[i] == '/' {
        i == 0 || s[i - 1] != '/'
    } else {
        i > 0 && name_char(s[i])
    }
}

/// An object path: the root `/`, or elements with a slash in front of each.
pub open spec fn valid_path(s: Seq<char>) -> bool {
    &&& s.len() > 0
    &&& s.len() > 1 ==> s.last() != '/'
    &&& forall|i: int| 0 <= i < s.len() ==> #[trigger] path_at(s, i)
}

/// What is said of a name that breaks its grammar.
pub open spec fn refusal(what: Seq<char>, name: Seq<char>) -> Seq<char> {
    what + " was not valid: '"@ + name + "'"@
}

fn refuse(what: &str, name: &str) -> (r: String)
    ensures
        r@ == refusal(what@, name@),
{
    let mut text = what.to_owned();
    text.append(" was not valid: '");
    text.append(name);
    text.append("'");
    text
}

fn is_name_start(c: char) -> (r: bool)
    ensures
        r == name_start(c),
{
    ('A' <= c && c <= 'Z') || ('a' <= c && c <= 'z') || c == '_'
}

fn is_name_char(c: char) -> (r: bool)
    ensures
        r == name_char(c),
{
    is_name_start(c) || ('0' <= c && c <= '9')
}

/// Checks the grammar of member names.
pub fn is_member(s: &str) -> (r: bool)
    ensures
        r == valid_member(s@),
{
    if s.unicode_len() > NAME_MAX {
        return false;
    }
    let mut rest = s.chars();
    let mut last: Option<char> = None;
    let ghost mut i: int = 0;
    loop
        invariant
            0 <= i <= s@.len(),
            last == if i == 0 {
                None
            } else {
                Some(s@[i - 1])
            },
            forall|j: int| 0 <= j < i ==> name_char(#[trigger] s@[j]),
            i > 0 ==> name_start(s@[0]),
            s@.len() <= NAME_MAX,
            vstd::std_specs::iter::IteratorSpec::remaining(&rest) == s@.skip(i),
            vstd::std_specs::iter::IteratorSpec::obeys_prophetic_iter_laws(&rest),
        decreases s@.len() - i,
    {
        match rest.next() {
            None => {
                return last.is_some();
            },
            Some(c) => {
                assert(s@[i] == c);
                if !is_name_char(c) || (last.is_none() && !is_name_start(c)) {
                    return false;
                }
                proof {
                    assert(s@.skip(i).drop_first() =~= s@.skip(i + 1));
                    i = i + 1;
                }
                last = Some(c);
            },
        }
    }
}

/// Checks the grammar of interface names and error names.
pub fn is_iface(s: &str) -> (r: bool)
    ensures
        r == valid_iface(s@),
{
    if s.unicode_len() > NAME_MAX || !has_char(s, '.') {
        return false;
    }
    let mut rest = s.chars();
    let mut last: Option<char> = None;
    let ghost mut i: int = 0;
    loop
        invariant
            0 <= i <= s@.len(),
            last == if i == 0 {
                None
            } else {
                Some(s@[i - 1])
            },
            forall|j: int| 0 <= j < i ==> #[trigger] dotted_at(s@, j),
            s@.contains('.'),
            s@.len() <= NAME_MAX,
            vstd::std_specs::iter::IteratorSpec::remaining(&rest) == s@.skip(i),
            vstd::std_specs::iter::IteratorSpec::obeys_prophetic_iter_laws(&rest),
        decreases s@.len() - i,
    {
        match rest.next() {
            None => {
                return match last {
                    None => false,
                    Some(d) => d != '.',
                };
            },
            Some(c) => {
                assert(s@[i] == c);
                let fits = match last {
                    None => is_name_start(c),
                    Some(d) => if c == '.' {
                        d != '.'
                    } else if d == '.' {
                        is_name_start(c)
                    } else {
                        is_name_char(c)
                    },
                };
                assert(fits == dotted_at(s@, i));
                if !fits {
                    return false;
                }
                proof {
                    assert(s@.skip(i).drop_first() =~= s@.skip(i + 1));
                    i = i + 1;
                }
                last = Some(c);
            },
        }
    }
}

/// Checks the grammar of object paths.
pub fn is_path(s: &str) -> (r: bool)
    ensures
        r == valid_path(s@),
{
    if s.is_empty() {
        return false;
    }
    let single = s.unicode_len() == 1;
    let mut rest = s.chars();
    let mut last: Option<char> = None;
    let ghost mut i: int = 0;
    loop
        invariant
            0 <= i <= s@.len(),
            last == if i == 0 {
                None
            } else {
                Some(s@[i - 1])
            },
            forall|j: int| 0 <= j < i ==> #[trigger] path_at(s@, j),
            s@.len() > 0,
            single == (s@.len() == 1),
            vstd::std_specs::iter::IteratorSpec::remaining(&rest) == s@.skip(i),
            vstd::std_specs::iter::IteratorSpec::obeys_prophetic_iter_laws(&rest),
        decreases s@.len() - i,
    {
        match rest.next() {
            None => {
                return match last {
                    None => false,
                    Some(d) => single || d != '/',
                };
            },
            Some(c) => {
                assert(s@[i] == c);
                let fits = match last {
                    None => c == '/',
                    Some(d) => if c == '/' {
                        d != '/'
                    } else {
                        is_name_char(c)
                    },
                };
                assert(fits == path_at(s@, i));
                if !fits {
                    return false;
                }
                proof {
                    assert(s@.skip(i).drop_first() =~= s@.skip(i + 1));
                    i = i + 1;
                }
                last = Some(c);
            },
        }
    }
}

/// An object path.
#[derive(Debug, PartialEq, Eq, PartialOrd, Ord)]
pub struct Path(String);

impl View for Path {
    type V = Seq<char>;

    closed spec fn view(&self) -> Seq<char> {
        self.0@
    }
}

impl Path {
    #[verifier::type_invariant]
    closed spec fn inv(self) -> bool {
        valid_path(self.0@)
    }

    /// Takes a name that follows the grammar; of any other, says that it does not.
    pub fn new(name: &str) -> (r: Result<Path, String>)
        ensures
            r is Ok <==> valid_path(name@),
            r matches Ok(n) ==> n@ == name@,
            r matches Err(e) ==> e@ == refusal("Object path"@, name@),
    {
        if is_path(name) {
            Ok(Path(name.to_owned()))
        } else {
            Err(refuse("Object path", name))
        }
    }

    /// The name as text.
    pub fn as_str(&self) -> (r: &str)
        ensures
            r@ == self@,
            valid_path(r@),
    {
        proof {
            use_type_invariant(self);
        }
        self.0.as_str()
    }
}

impl Clone for Path {
    fn clone(&self) -> (r: Self)
        ensures
            r@ == self@,
    {
        proof {
            use_type_invariant(self);
        }
        Path(self.0.clone())
    }
}

/// The name of an interface.
#[derive(Debug, PartialEq, Eq, PartialOrd, Ord)]
pub struct IfaceName(String);

impl View for IfaceName {
    type V = Seq<char>;

    closed spec fn view(&self) -> Seq<char> {
        self.0@
    }
}

impl IfaceName {
    #[verifier::type_invariant]
    closed spec fn inv(self) -> bool {
        valid_iface(self.0@)
    }

    /// Takes a name that follows the grammar; of any other, says that it does not.
    pub fn new(name: &str) -> (r: Result<IfaceName, String>)
        ensures
            r is Ok <==> valid_iface(name@),
            r matches Ok(n) ==> n@ == name@,
            r matches Err(e) ==> e@ == refusal("Interface name"@, name@),
    {
        if is_iface(name) {
            Ok(IfaceName(name.to_owned()))
        } else {
            Err(refuse("Interface name", name))
        }
    }

    /// The name as text.
    pub fn as_str(&self) -> (r: &str)
        ensures
            r@ == self@,
            valid_iface(r@),
    {
        proof {
            use_type_invariant(self);
        }
        self.0.as_str()
    }
}

impl Clone for IfaceName {
    fn clone(&self) -> (r: Self)
        ensures
            r@ == self@,
    {
        proof {
            use_type_invariant(self);
        }
        IfaceName(self.0.clone())
    }
}

/// The name of a method or a signal.
#[derive(Debug, PartialEq, Eq, PartialOrd, Ord)]
pub struct Member(String);

impl View for Member {
    type V = Seq<char>;

    closed spec fn view(&self) -> Seq<char> {
        self.0@
    }
}

impl Member {
    #[verifier::type_invariant]
    closed spec fn inv(self) -> bool {
        valid_member(self.0@)
    }

    /// Takes a name that follows the grammar; of any other, says that it does not.
    pub fn new(name: &str) -> (r: Result<Member, String>)
        ensures
            r is Ok <==> valid_member(name@),
            r matches Ok(n) ==> n@ == name@,
            r matches Err(e) ==> e@ == refusal("Member name"@, name@),
    {
        if is_member(name) {
            Ok(Member(name.to_owned()))
        } else {
            Err(refuse("Member name", name))
        }
    }

    /// The name as text.
    pub fn as_str(&self) -> (r: &str)
        ensures
            r@ == self@,
            valid_member(r@),
    {
        proof {
            use_type_invariant(self);
        }
        self.0.as_str()
    }
}

impl Clone for Member {
    fn clone(&self) -> (r: Self)
        ensures
            r@ == self@,
    {
        proof {
            use_type_invariant(self);
        }
        Member(self.0.clone())
    }
}

/// The name of an error.
#[derive(Debug, PartialEq, Eq, PartialOrd, Ord)]
pub struct ErrorName(String);

impl View for ErrorName {
    type V = Seq<char>;

    closed spec fn view(&self) -> Seq<char> {
        self.0@
    }
}

impl ErrorName {
    #[verifier::type_invariant]
    closed spec fn inv(self) -> bool {
        valid_iface(self.0@)
    }

    /// Takes a name that follows the grammar; of any other, says that it does not.
    pub fn new(name: &str) -> (r: Result<ErrorName, String>)
        ensures
            r is Ok <==> valid_iface(name@),
            r matches Ok(n) ==> n@ == name@,
            r matches Err(e) ==> e@ == refusal("Error name"@, name@),
    {
        if is_iface(name) {
            Ok(ErrorName(name.to_owned()))
        } else {
            Err(refuse("Error name", name))
        }
    }

    /// The name as text.
    pub fn as_str(&self) -> (r: &str)
        ensures
            r@ == self@,
            valid_iface(r@),
    {
        proof {
            use_type_invariant(self);
        }
        self.0.as_str()
    }
}

impl Clone for ErrorName {
    fn clone(&self) -> (r: Self)
        ensures
            r@ == self@,
    {
        proof {
            use_type_invariant(self);
        }
        ErrorName(self.0.clone())
    }
}

/// `dotted_at` holds of the first `n` characters.
spec fn dotted_upto(s: Seq<char>, n: nat) -> bool
    decreases n,
{
    n == 0 || dotted_upto(s, (n - 1) as nat) && dotted_at(s, n - 1)
}

proof fn lemma_dotted_upto(s: Seq<char>, n: nat, i: int)
    requires
        dotted_upto(s, n),
        0 <= i < n,
    ensures
        dotted_at(s, i),
    decreases n,
{
    if i < n - 1 {
        lemma_dotted_upto(s, (n - 1) as nat, i);
    }
}

proof fn lemma_dotted(s: Seq<char>, dot: int)
    requires
        0 <= dot < s.len() <= NAME_MAX,
        s[dot] == '.',
        s.last() != '.',
        dotted_upto(s, s.len()),
    ensures
        valid_iface(s),
{
    assert forall|i: int| 0 <= i < s.len() implies #[trigger] dotted_at(s, i) by {
        lemma_dotted_upto(s, s.len(), i);
    }
}

/// `name_char` holds of the first `n` characters.
spec fn chars_upto(s: Seq<char>, n: nat) -> bool
    decreases n,
{
    n == 0 || chars_upto(s, (n - 1) as nat) && name_char(s[n - 1])
}

proof fn lemma_chars_upto(s: Seq<char>, n: nat, i: int)
    requires
        chars_upto(s, n),
        0 <= i < n,
    ensures
        name_char(s[i]),
    decreases n,
{
    if i < n - 1 {
        lemma_chars_upto(s, (n - 1) as nat, i);
    }
}

proof fn lemma_chars(s: Seq<char>)
    requires
        0 < s.len() <= NAME_MAX,
        name_start(s[0]),
        chars_upto(s, s.len()),
    ensures
        valid_member(s),
{
    assert forall|i: int| 0 <= i < s.len() implies name_char(#[trigger] s[i]) by {
        lemma_chars_upto(s, s.len(), i);
    }
}

/// The names of the interface that gives access to properties follow their grammars.
pub proof fn lemma_properties_names()
    ensures
        valid_iface("org.freedesktop.DBus.Properties"@),
        valid_member("Get"@),
        valid_member("GetAll"@),
        valid_member("Set"@),
{
    reveal_strlit("org.freedesktop.DBus.Properties");
    reveal_with_fuel(dotted_upto, 32);
    lemma_dotted("org.freedesktop.DBus.Properties"@, 3);
    reveal_strlit("Get");
    reveal_strlit("GetAll");
    reveal_strlit("Set");
    reveal_with_fuel(chars_upto, 7);
    lemma_chars("Get"@);
    lemma_chars("GetAll"@);
    lemma_chars("Set"@);
}

/// The names of the interface that describes an object follow their grammars.
pub proof fn lemma_introspectable_names()
    ensures
        valid_iface("org.freedesktop.DBus.Introspectable"@),
        valid_member("Introspect"@),
{
    reveal_strlit("org.freedesktop.DBus.Introspectable");
    reveal_with_fuel(dotted_upto, 36);
    lemma_dotted("org.freedesktop.DBus.Introspectable"@, 3);
    reveal_strlit("Introspect");
    reveal_with_fuel(chars_upto, 11);
    lemma_chars("Introspect"@);
}

/// The names of the interface that lists objects follow their grammars.
pub proof fn lemma_object_manager_names()
    ensures
        valid_iface("org.freedesktop.DBus.ObjectManager"@),
        valid_member("GetManagedObjects"@),
{
    reveal_strlit("org.freedesktop.DBus.ObjectManager");
    reveal_with_fuel(dotted_upto, 35);
    lemma_dotted("org.freedesktop.DBus.ObjectManager"@, 3);
    reveal_strlit("GetManagedObjects");
    reveal_with_fuel(chars_upto, 18);
    lemma_chars("GetManagedObjects"@);
}

impl IfaceName {
    /// `org.freedesktop.DBus.Properties`.
    pub fn properties() -> (r: IfaceName)
        ensures
            r@ == "org.freedesktop.DBus.Properties"@,
            valid_iface(r@),
    {
        proof {
            lemma_properties_names();
        }
        IfaceName("org.freedesktop.DBus.Properties".to_owned())
    }

    /// `org.freedesktop.DBus.Introspectable`.
    pub fn introspectable() -> (r: IfaceName)
        ensures
            r@ == "org.freedesktop.DBus.Introspectable"@,
            valid_iface(r@),
    {
        proof {
            lemma_introspectable_names();
        }
        IfaceName("org.freedesktop.DBus.Introspectable".to_owned())
    }

    /// `org.freedesktop.DBus.ObjectManager`.
    pub fn object_manager() -> (r: IfaceName)
        ensures
            r@ == "org.freedesktop.DBus.ObjectManager"@,
            valid_iface(r@),
    {
        proof {
            lemma_object_manager_names();
        }
        IfaceName("org.freedesktop.DBus.ObjectManager".to_owned())
    }
}

impl ErrorName {
    /// `org.freedesktop.DBus.Error.InvalidArgs`.
    pub fn invalid_args() -> (r: ErrorName)
        ensures
            r@ == "org.freedesktop.DBus.Error.InvalidArgs"@,
    {
        proof {
            reveal_strlit("org.freedesktop.DBus.Error.InvalidArgs");
            reveal_with_fuel(dotted_upto, 39);
            lemma_dotted("org.freedesktop.DBus.Error.InvalidArgs"@, 3);
        }
        ErrorName("org.freedesktop.DBus.Error.InvalidArgs".to_owned())
    }

    /// `org.freedesktop.DBus.Error.Failed`.
    pub fn failed() -> (r: ErrorName)
        ensures
            r@ == "org.freedesktop.DBus.Error.Failed"@,
    {
        proof {
            reveal_strlit("org.freedesktop.DBus.Error.Failed");
            reveal_with_fuel(dotted_upto, 34);
            lemma_dotted("org.freedesktop.DBus.Error.Failed"@, 3);
        }
        ErrorName("org.freedesktop.DBus.Error.Failed".to_owned())
    }

    /// `org.freedesktop.DBus.Error.UnknownInterface`.
    pub fn unknown_interface() -> (r: ErrorName)
        ensures
            r@ == "org.freedesktop.DBus.Error.UnknownInterface"@,
    {
        proof {
            reveal_strlit("org.freedesktop.DBus.Error.UnknownInterface");
            reveal_with_fuel(dotted_upto, 44);
            lemma_dotted("org.freedesktop.DBus.Error.UnknownInterface"@, 3);
        }
        ErrorName("org.freedesktop.DBus.Error.UnknownInterface".to_owned())
    }

    /// `org.freedesktop.DBus.Error.UnknownMethod`.
    pub fn unknown_method() -> (r: ErrorName)
        ensures
            r@ == "org.freedesktop.DBus.Error.UnknownMethod"@,
    {
        proof {
            reveal_strlit("org.freedesktop.DBus.Error.UnknownMethod");
            reveal_with_fuel(dotted_upto, 41);
            lemma_dotted("org.freedesktop.DBus.Error.UnknownMethod"@, 3);
        }
        ErrorName("org.freedesktop.DBus.Error.UnknownMethod".to_owned())
    }

    /// `org.freedesktop.DBus.Error.UnknownProperty`.
    pub fn unknown_property() -> (r: ErrorName)
        ensures
            r@ == "org.freedesktop.DBus.Error.UnknownProperty"@,
    {
        proof {
            reveal_strlit("org.freedesktop.DBus.Error.UnknownProperty");
            reveal_with_fuel(dotted_upto, 43);
            lemma_dotted("org.freedesktop.DBus.Error.UnknownProperty"@, 3);
        }
        ErrorName("org.freedesktop.DBus.Error.UnknownProperty".to_owned())
    }

    /// `org.freedesktop.DBus.Error.PropertyReadOnly`.
    pub fn property_read_only() -> (r: ErrorName)
        ensures
            r@ == "org.freedesktop.DBus.Error.PropertyReadOnly"@,
    {
        proof {
            reveal_strlit("org.freedesktop.DBus.Error.PropertyReadOnly");
            reveal_with_fuel(dotted_upto, 44);
            lemma_dotted("org.freedesktop.DBus.Error.PropertyReadOnly"@, 3);
        }
        ErrorName("org.freedesktop.DBus.Error.PropertyReadOnly".to_owned())
    }
}

impl Member {
    /// `Get`.
    pub fn get() -> (r: Member)
        ensures
            r@ == "Get"@,
    {
        proof {
            lemma_properties_names();
        }
        Member("Get".to_owned())
    }

    /// `GetAll`.
    pub fn get_all() -> (r: Member)
        ensures
            r@ == "GetAll"@,
    {
        proof {
            lemma_properties_names();
        }
        Member("GetAll".to_owned())
    }

    /// `Set`.
    pub fn set() -> (r: Member)
        ensures
            r@ == "Set"@,
    {
        proof {
            lemma_properties_names();
        }
        Member("Set".to_owned())
    }

    /// `Introspect`.
    pub fn introspect() -> (r: Member)
        ensures
            r@ == "Introspect"@,
    {
        proof {
            lemma_introspectable_names();
        }
        Member("Introspect".to_owned())
    }

    /// `GetManagedObjects`.
    pub fn get_managed_objects() -> (r: Member)
        ensures
            r@ == "GetManagedObjects"@,
    {
        proof {
            lemma_object_manager_names();
        }
        Member("GetManagedObjects".to_owned())
    }

    /// `PropertiesChanged`.
    pub fn properties_changed() -> (r: Member)
        ensures
            r@ == "PropertiesChanged"@,
    {
        proof {
            reveal_strlit("PropertiesChanged");
            reveal_with_fuel(chars_upto, 18);
            lemma_chars("PropertiesChanged"@);
        }
        Member("PropertiesChanged".to_owned())
    }
}

} // verus!
