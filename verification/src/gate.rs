//! The credential gate: decides whether a submitted password grants access.

use vstd::prelude::*;

verus! {

/// The outcome of an authentication attempt.
#[derive(Clone, Copy, Debug, PartialEq, Eq, Structural)]
pub enum Decision {
    Granted,
    Denied,
}

/// Access is granted exactly when the submitted password equals the expected
/// one, character for character: case-sensitive, no trimming.
pub open spec fn access_granted(submitted: Seq<char>, expected: Seq<char>) -> bool {
    submitted == expected
}

/// Compares the submitted password with the configured expected password and
/// returns whether access is granted.
pub fn authenticate(submitted: &String, expected: &String) -> (r: Decision)
    ensures
        r == Decision::Granted <==> access_granted(submitted@, expected@),
        r == Decision::Denied <==> !access_granted(submitted@, expected@),
{
    if *submitted == *expected {
        Decision::Granted
    } else {
        Decision::Denied
    }
}

} // verus!
