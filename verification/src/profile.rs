//! The type-level profile fence: a profile name that has passed through the
//! profile-typed API.
//!
//! `Profile` wraps any name without validation: it records that a value was
//! handed over as a profile, not that a profile of that name exists —
//! existence is checked by configuration lookup.
use vstd::prelude::*;
use vstd::std_specs::convert::FromSpecImpl;

use crate::text;

verus! {

/// A validated-elsewhere, type-tagged profile name.
#[derive(Clone, Default, PartialEq, Eq, Hash, PartialOrd, Ord, Debug)]
pub struct Profile(String);

impl View for Profile {
    type V = Seq<char>;

    closed spec fn view(&self) -> Seq<char> {
        self.0@
    }
}

impl From<String> for Profile {
    /// Wraps any `String` as a `Profile`, without validation.
    fn from(name: String) -> (r: Self) {
        Profile(name)
    }
}

impl FromSpecImpl<String> for Profile {
    open spec fn obeys_from_spec() -> bool {
        true
    }

    closed spec fn from_spec(name: String) -> Self {
        Profile(name)
    }
}

impl Profile {
    /// Wraps a name as a `Profile`, without validation.
    pub fn new(name: String) -> (r: Self)
        ensures
            r@ == name@,
    {
        Profile(name)
    }

    /// The wrapped name, verbatim.
    pub fn as_ref(&self) -> (r: &str)
        ensures
            r@ == self@,
    {
        self.0.as_str()
    }

    /// The wrapped name, verbatim and undecorated (what `Display` shows).
    pub fn to_string(&self) -> (r: String)
        ensures
            r@ == self@,
    {
        self.0.clone()
    }

    /// Whether the wrapped name equals `other`.
    pub fn eq_str(&self, other: &str) -> (r: bool)
        ensures
            r == (self@ == other@),
    {
        text::str_eq(self.0.as_str(), other)
    }
}

} // verus!
