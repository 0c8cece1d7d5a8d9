//! Contracts for the two std string operations the crate uses that vstd does
//! not specify.

use vstd::prelude::*;

verus! {

/// Relies on std's String::push: appends exactly the given character at the
/// end of the string.
pub assume_specification[ String::push ](s: &mut String, c: char)
    ensures
        final(s)@ == old(s)@.push(c),
;

/// Relies on std's String::pop: removes and returns the last character, or
/// returns nothing and leaves the string as it was when it is empty.
pub assume_specification[ String::pop ](s: &mut String) -> (r: Option<char>)
    ensures
        old(s)@.len() == 0 ==> final(s)@ == old(s)@ && r is None,
        old(s)@.len() > 0 ==> final(s)@ == old(s)@.drop_last() && r == Some(old(s)@.last()),
;

} // verus!
