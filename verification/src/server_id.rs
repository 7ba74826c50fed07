//! The per-process origin stamp: an opaque token generated once at startup
//! and used only for equality, to tell a process's own bus traffic apart
//! from traffic relayed by other processes.

use vstd::prelude::*;

verus! {

/// A process-lifetime identifier. Two processes get distinct values with
/// overwhelming probability; the core uses it only for equality.
#[derive(Debug, Clone)]
pub struct ServerId {
    id: String,
}

impl View for ServerId {
    type V = Seq<char>;

    closed spec fn view(&self) -> Seq<char> {
        self.id@
    }
}

/// Relies on `uuid::Uuid::new_v4` and its `Display` form: a freshly drawn
/// random identifier rendered as the 36-character hyphenated text form.
/// The value is random, so nothing beyond its length is promised.
#[verifier::external_body]
fn fresh_uuid_string() -> (r: String)
    ensures
        r@.len() == 36,
{
    uuid::Uuid::new_v4().to_string()
}

impl ServerId {
    /// Draw a fresh stamp for this process.
    pub fn new() -> (r: Self)
        ensures
            r@.len() == 36,
    {
        ServerId { id: fresh_uuid_string() }
    }

    /// Wrap an existing token, e.g. one chosen by a test.
    pub fn from_string(id: String) -> (r: Self)
        ensures
            r@ == id@,
    {
        ServerId { id }
    }

    /// The token's text.
    pub fn as_str(&self) -> (r: &str)
        ensures
            r@ == self@,
    {
        self.id.as_str()
    }

    /// Equality of stamps: same process instance.
    pub fn same_origin(&self, other: &ServerId) -> (r: bool)
        ensures
            r == (self@ == other@),
    {
        self.id == other.id
    }
}

impl PartialEq for ServerId {
    fn eq(&self, other: &ServerId) -> (r: bool) {
        self.id == other.id
    }
}

impl vstd::std_specs::cmp::PartialEqSpecImpl for ServerId {
    open spec fn obeys_eq_spec() -> bool {
        true
    }

    open spec fn eq_spec(&self, other: &ServerId) -> bool {
        self@ == other@
    }
}

} // verus!
