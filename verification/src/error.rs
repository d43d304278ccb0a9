//! Errors that method calls are answered with.
use vstd::prelude::*;
use crate::message::{Message, Msg, msgs_view};
use crate::names::ErrorName;
use crate::text::has_char;

verus! {

/// Why a method call failed: the name of the error, and a text.
#[derive(Debug, PartialEq, Eq, PartialOrd, Ord)]
pub struct MethodErr(ErrorName, String);

/// The mathematical value of a `MethodErr`.
pub struct ErrV {
    pub name: Seq<char>,
    pub text: Seq<char>,
}

impl View for MethodErr {
    type V = ErrV;

    closed spec fn view(&self) -> ErrV {
        ErrV { name: self.0@, text: self.1@ }
    }
}

impl Clone for MethodErr {
    fn clone(&self) -> (r: Self)
        ensures
            r@ == self@,
    {
        MethodErr(self.0.clone(), self.1.clone())
    }
}

/// What a method call comes to: messages to send back, or an error.
pub type MethodResult = Result<Vec<Message>, MethodErr>;

/// The value of a `MethodResult`.
pub open spec fn result_view(r: MethodResult) -> Result<Seq<Msg>, ErrV> {
    match r {
        Ok(v) => Ok(msgs_view(v@)),
        Err(e) => Err(e@),
    }
}

impl ErrV {
    /// An argument of the call has the wrong form.
    pub open spec fn invalid_arg(a: Seq<char>) -> ErrV {
        ErrV {
            name: "org.freedesktop.DBus.Error.InvalidArgs"@,
            text: "Invalid argument "@ + a,
        }
    }

    /// The call has too few arguments.
    pub open spec fn no_arg() -> ErrV {
        ErrV {
            name: "org.freedesktop.DBus.Error.InvalidArgs"@,
            text: "Not enough arguments"@,
        }
    }

    /// The call failed for a reason that the text gives.
    pub open spec fn failed(a: Seq<char>) -> ErrV {
        ErrV { name: "org.freedesktop.DBus.Error.Failed"@, text: a }
    }

    /// The object has no such interface.
    pub open spec fn no_interface(a: Seq<char>) -> ErrV {
        ErrV {
            name: "org.freedesktop.DBus.Error.UnknownInterface"@,
            text: "Unknown interface "@ + a,
        }
    }

    /// The interface has no such property.
    pub open spec fn no_property(a: Seq<char>) -> ErrV {
        ErrV {
            name: "org.freedesktop.DBus.Error.UnknownProperty"@,
            text: "Unknown property "@ + a,
        }
    }

    /// The property cannot be set.
    pub open spec fn ro_property(a: Seq<char>) -> ErrV {
        ErrV {
            name: "org.freedesktop.DBus.Error.PropertyReadOnly"@,
            text: "Property "@ + a + " is read only"@,
        }
    }
}

/// `s` is what `a` displays as.
pub open spec fn displays<T: std::fmt::Display + ?Sized>(a: &T, s: Seq<char>) -> bool {
    exists|t: String|
        #[trigger] vstd::string::to_string_from_display_ensures::<T>(a, t) && t@ == s
}

impl MethodErr {
    /// An argument of the call has the wrong form; `a` is its debug text.
    pub fn invalid_arg(a: &str) -> (r: MethodErr)
        ensures
            r@ == ErrV::invalid_arg(a@),
    {
        let mut text = "Invalid argument ".to_owned();
        text.append(a);
        MethodErr(ErrorName::invalid_args(), text)
    }

    /// The call has too few arguments.
    pub fn no_arg() -> (r: MethodErr)
        ensures
            r@ == ErrV::no_arg(),
    {
        MethodErr(ErrorName::invalid_args(), "Not enough arguments".to_owned())
    }

    /// The call failed for the reason that `a` displays.
    pub fn failed<T: std::fmt::Display + ?Sized>(a: &T) -> (r: MethodErr)
        ensures
            exists|s: Seq<char>| #[trigger] displays(a, s) && r@ == ErrV::failed(s),
    {
        let text = a.to_string();
        assert(displays(a, text@));
        MethodErr(ErrorName::failed(), text)
    }

    /// The object has no such interface.
    pub fn no_interface<T: std::fmt::Display + ?Sized>(a: &T) -> (r: MethodErr)
        ensures
            exists|s: Seq<char>| #[trigger] displays(a, s) && r@ == ErrV::no_interface(s),
    {
        let shown = a.to_string();
        assert(displays(a, shown@));
        let mut text = "Unknown interface ".to_owned();
        text.append(shown.as_str());
        MethodErr(ErrorName::unknown_interface(), text)
    }

    /// The interface has no such property.
    pub fn no_property<T: std::fmt::Display + ?Sized>(a: &T) -> (r: MethodErr)
        ensures
            exists|s: Seq<char>| #[trigger] displays(a, s) && r@ == ErrV::no_property(s),
    {
        let shown = a.to_string();
        assert(displays(a, shown@));
        let mut text = "Unknown property ".to_owned();
        text.append(shown.as_str());
        MethodErr(ErrorName::unknown_property(), text)
    }

    /// The property cannot be set.
    pub fn ro_property<T: std::fmt::Display + ?Sized>(a: &T) -> (r: MethodErr)
        ensures
            exists|s: Seq<char>| #[trigger] displays(a, s) && r@ == ErrV::ro_property(s),
    {
        let shown = a.to_string();
        assert(displays(a, shown@));
        let mut text = "Property ".to_owned();
        text.append(shown.as_str());
        text.append(" is read only");
        MethodErr(ErrorName::property_read_only(), text)
    }

    /// The name of the error.
    pub fn name(&self) -> (r: &ErrorName)
        ensures
            r@ == self@.name,
    {
        &self.0
    }

    /// Whether the text holds a NUL. Such a text cannot be sent.
    pub fn holds_nul(&self) -> (r: bool)
        ensures
            r == self@.text.contains('\0'),
    {
        has_char(self.1.as_str(), '\0')
    }

    /// The text of the error.
    pub fn text(&self) -> (r: &str)
        ensures
            r@ == self@.text,
    {
        self.1.as_str()
    }
}

/// An error of the given name and text.
impl From<(ErrorName, String)> for MethodErr {
    fn from(t: (ErrorName, String)) -> (r: MethodErr)
        ensures
            r@ == (ErrV { name: t.0@, text: t.1@ }),
    {
        MethodErr(t.0, t.1)
    }
}

impl vstd::std_specs::convert::FromSpecImpl<(ErrorName, String)> for MethodErr {
    open spec fn obeys_from_spec() -> bool {
        true
    }

    closed spec fn from_spec(t: (ErrorName, String)) -> MethodErr {
        MethodErr(t.0, t.1)
    }
}

} // verus!
