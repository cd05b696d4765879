//! Small operations on strings that the rest of the library shares.

use vstd::prelude::*;

verus! {

/// Whether two strings hold the same characters. The strings are compared
/// through owned copies: equality is specified for `String`, not for `str`.
pub fn same_text(a: &str, b: &str) -> (same: bool)
    ensures
        same == (a@ == b@),
{
    a.to_owned() == b.to_owned()
}

} // verus!
