//! The error value produced when decomposition is asked to work on a
//! negative integer.

use vstd::prelude::*;
use vstd::string::StrSliceExecFns;

verus! {

/// A conversion failure carrying a human-readable message and nothing else.
///
/// Two errors are equal exactly when their messages are equal.
#[derive(Debug)]
pub struct ConversionError {
    details: String,
}

impl View for ConversionError {
    type V = Seq<char>;

    closed spec fn view(&self) -> Seq<char> {
        self.details@
    }
}

impl ConversionError {
    /// Build an error that carries `msg` as its message.
    pub fn new(msg: &str) -> (r: Self)
        ensures
            r@ == msg@,
    {
        Self { details: msg.to_owned() }
    }

    /// Read-only access to the message.
    pub fn message(&self) -> (r: &str)
        ensures
            r@ == self@,
    {
        self.details.as_str()
    }
}

impl PartialEq for ConversionError {
    fn eq(&self, other: &Self) -> (r: bool) {
        str_eq(self.details.as_str(), other.details.as_str())
    }
}

impl vstd::std_specs::cmp::PartialEqSpecImpl for ConversionError {
    open spec fn obeys_eq_spec() -> bool {
        true
    }

    open spec fn eq_spec(&self, other: &Self) -> bool {
        self@ == other@
    }
}

/// Character-by-character equality of two string slices.
fn str_eq(a: &str, b: &str) -> (r: bool)
    ensures
        r == (a@ == b@),
{
    let a_len = a.unicode_len();
    let b_len = b.unicode_len();
    if a_len != b_len {
        return false;
    }
    let mut i: usize = 0;
    while i < a_len
        invariant
            i <= a_len,
            a_len == a@.len(),
            a_len == b@.len(),
            forall|j: int| 0 <= j < i ==> a@[j] == b@[j],
        decreases a_len - i,
    {
        if a.get_char(i) != b.get_char(i) {
            return false;
        }
        i = i + 1;
    }
    proof {
        assert(a@ =~= b@);
    }
    true
}

} // verus!
