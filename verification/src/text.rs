//! Text helpers shared by the registries and the handlers.
use vstd::prelude::*;
use vstd::string::*;

verus! {

/// `==` on `str`, which compares the two slices byte by byte. Two valid UTF-8 strings have the
/// same bytes exactly when they have the same characters, which is what the contract states.
#[verifier::external_body]
pub(crate) fn same_text(a: &str, b: &str) -> (same: bool)
    ensures
        same == (a@ == b@),
{
    a == b
}

/// `a` followed by `b`, as an owned string.
pub fn concat(a: &str, b: &str) -> (joined: String)
    ensures
        joined@ == a@ + b@,
{
    let mut joined = a.to_owned();
    joined.append(b);
    joined
}

} // verus!
