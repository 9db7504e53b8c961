//! String identifiers for browsers, profiles, source applications and rules.

use vstd::prelude::*;

verus! {

/// Identifier of a browser, such as `com.google.Chrome`.
#[derive(Debug, Hash)]
pub struct BrowserId(pub String);

impl View for BrowserId {
    type V = Seq<char>;

    open spec fn view(&self) -> Seq<char> {
        self.0@
    }
}

impl BrowserId {
    /// Wraps the given text as an identifier.
    pub fn new(value: &str) -> (r: Self)
        ensures
            r@ == value@,
    {
        BrowserId(value.to_owned())
    }

    /// Wraps an owned string as an identifier.
    pub fn from_string(value: String) -> (r: Self)
        ensures
            r@ == value@,
    {
        BrowserId(value)
    }

    /// The identifier's text.
    pub fn as_str(&self) -> (r: &str)
        ensures
            r@ == self@,
    {
        self.0.as_str()
    }

    /// Gives the identifier's text back.
    pub fn into_inner(self) -> (r: String)
        ensures
            r@ == self@,
    {
        self.0
    }

    /// The identifier as display text: the identifier itself.
    pub fn to_string(&self) -> (r: String)
        ensures
            r@ == self@,
    {
        self.0.clone()
    }
}

impl Clone for BrowserId {
    fn clone(&self) -> (r: Self)
        ensures
            r == *self,
    {
        BrowserId(self.0.clone())
    }
}

impl PartialEq for BrowserId {
    fn eq(&self, other: &Self) -> (r: bool) {
        self.0 == other.0
    }
}

impl vstd::std_specs::cmp::PartialEqSpecImpl for BrowserId {
    open spec fn obeys_eq_spec() -> bool {
        true
    }

    open spec fn eq_spec(&self, other: &Self) -> bool {
        self@ == other@
    }
}

impl Eq for BrowserId {}

/// Identifier of a browser profile, stable across renames (a profile directory).
#[derive(Debug, Hash)]
pub struct ProfileId(pub String);

impl View for ProfileId {
    type V = Seq<char>;

    open spec fn view(&self) -> Seq<char> {
        self.0@
    }
}

impl ProfileId {
    /// Wraps the given text as an identifier.
    pub fn new(value: &str) -> (r: Self)
        ensures
            r@ == value@,
    {
        ProfileId(value.to_owned())
    }

    /// Wraps an owned string as an identifier.
    pub fn from_string(value: String) -> (r: Self)
        ensures
            r@ == value@,
    {
        ProfileId(value)
    }

    /// The identifier's text.
    pub fn as_str(&self) -> (r: &str)
        ensures
            r@ == self@,
    {
        self.0.as_str()
    }

    /// Gives the identifier's text back.
    pub fn into_inner(self) -> (r: String)
        ensures
            r@ == self@,
    {
        self.0
    }

    /// The identifier as display text: the identifier itself.
    pub fn to_string(&self) -> (r: String)
        ensures
            r@ == self@,
    {
        self.0.clone()
    }
}

impl Clone for ProfileId {
    fn clone(&self) -> (r: Self)
        ensures
            r == *self,
    {
        ProfileId(self.0.clone())
    }
}

impl PartialEq for ProfileId {
    fn eq(&self, other: &Self) -> (r: bool) {
        self.0 == other.0
    }
}

impl vstd::std_specs::cmp::PartialEqSpecImpl for ProfileId {
    open spec fn obeys_eq_spec() -> bool {
        true
    }

    open spec fn eq_spec(&self, other: &Self) -> bool {
        self@ == other@
    }
}

impl Eq for ProfileId {}

/// Identifier of the application that a link came from.
#[derive(Debug, Hash)]
pub struct AppId(pub String);

impl View for AppId {
    type V = Seq<char>;

    open spec fn view(&self) -> Seq<char> {
        self.0@
    }
}

impl AppId {
    /// Wraps the given text as an identifier.
    pub fn new(value: &str) -> (r: Self)
        ensures
            r@ == value@,
    {
        AppId(value.to_owned())
    }

    /// Wraps an owned string as an identifier.
    pub fn from_string(value: String) -> (r: Self)
        ensures
            r@ == value@,
    {
        AppId(value)
    }

    /// The identifier's text.
    pub fn as_str(&self) -> (r: &str)
        ensures
            r@ == self@,
    {
        self.0.as_str()
    }

    /// Gives the identifier's text back.
    pub fn into_inner(self) -> (r: String)
        ensures
            r@ == self@,
    {
        self.0
    }

    /// The identifier as display text: the identifier itself.
    pub fn to_string(&self) -> (r: String)
        ensures
            r@ == self@,
    {
        self.0.clone()
    }
}

impl Clone for AppId {
    fn clone(&self) -> (r: Self)
        ensures
            r == *self,
    {
        AppId(self.0.clone())
    }
}

impl PartialEq for AppId {
    fn eq(&self, other: &Self) -> (r: bool) {
        self.0 == other.0
    }
}

impl vstd::std_specs::cmp::PartialEqSpecImpl for AppId {
    open spec fn obeys_eq_spec() -> bool {
        true
    }

    open spec fn eq_spec(&self, other: &Self) -> bool {
        self@ == other@
    }
}

impl Eq for AppId {}

/// Identifier of a routing rule.
#[derive(Debug, Hash)]
pub struct RuleId(pub String);

impl View for RuleId {
    type V = Seq<char>;

    open spec fn view(&self) -> Seq<char> {
        self.0@
    }
}

impl RuleId {
    /// Wraps the given text as an identifier.
    pub fn new(value: &str) -> (r: Self)
        ensures
            r@ == value@,
    {
        RuleId(value.to_owned())
    }

    /// Wraps an owned string as an identifier.
    pub fn from_string(value: String) -> (r: Self)
        ensures
            r@ == value@,
    {
        RuleId(value)
    }

    /// The identifier's text.
    pub fn as_str(&self) -> (r: &str)
        ensures
            r@ == self@,
    {
        self.0.as_str()
    }

    /// Gives the identifier's text back.
    pub fn into_inner(self) -> (r: String)
        ensures
            r@ == self@,
    {
        self.0
    }

    /// The identifier as display text: the identifier itself.
    pub fn to_string(&self) -> (r: String)
        ensures
            r@ == self@,
    {
        self.0.clone()
    }
}

impl Clone for RuleId {
    fn clone(&self) -> (r: Self)
        ensures
            r == *self,
    {
        RuleId(self.0.clone())
    }
}

impl PartialEq for RuleId {
    fn eq(&self, other: &Self) -> (r: bool) {
        self.0 == other.0
    }
}

impl vstd::std_specs::cmp::PartialEqSpecImpl for RuleId {
    open spec fn obeys_eq_spec() -> bool {
        true
    }

    open spec fn eq_spec(&self, other: &Self) -> bool {
        self@ == other@
    }
}

impl Eq for RuleId {}

} // verus!
