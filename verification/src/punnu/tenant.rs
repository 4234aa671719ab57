//! Labels of tenants.

use vstd::prelude::*;
use vstd::string::*;

verus! {

/// A label of a tenant. The library never looks into it.
#[derive(Debug, Clone, PartialEq, Eq, Hash)]
pub struct TenantKey(String);

impl TenantKey {
    /// The label.
    pub closed spec fn label(&self) -> Seq<char> {
        self.0@
    }

    /// Makes a label.
    pub fn new(key: String) -> (r: Self)
        ensures
            r.label() == key@,
    {
        TenantKey(key)
    }

    /// No tenant.
    pub fn none() -> (r: Option<Self>)
        ensures
            r is None,
    {
        None
    }

    /// Reads the label.
    pub fn as_str(&self) -> (r: &str)
        ensures
            r@ == self.label(),
    {
        self.0.as_str()
    }

    /// Takes the label out.
    pub fn into_string(self) -> (r: String)
        ensures
            r@ == self.label(),
    {
        self.0
    }

    /// The label of a text.
    pub closed spec fn of(key: String) -> Self {
        TenantKey(key)
    }
}

impl From<String> for TenantKey {
    fn from(s: String) -> (r: Self) {
        TenantKey(s)
    }
}

impl vstd::std_specs::convert::FromSpecImpl<String> for TenantKey {
    open spec fn obeys_from_spec() -> bool {
        true
    }

    open spec fn from_spec(s: String) -> Self {
        TenantKey::of(s)
    }
}

impl<'a> From<&'a str> for TenantKey {
    fn from(s: &'a str) -> (r: Self)
        ensures
            r.label() == s@,
    {
        TenantKey(s.to_owned())
    }
}

impl<'a> vstd::std_specs::convert::FromSpecImpl<&'a str> for TenantKey {
    open spec fn obeys_from_spec() -> bool {
        false
    }

    open spec fn from_spec(s: &'a str) -> Self {
        arbitrary()
    }
}

/// A label holds the text that it was made of.
pub proof fn label_is_the_text(key: String)
    ensures
        TenantKey::of(key).label() == key@,
{
}

} // verus!
