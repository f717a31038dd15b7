use vstd::prelude::*;

pub mod args;
pub mod docs;
pub mod error;
pub mod flags;
pub mod parse;
pub mod search;

verus! {

/// Relies on `String::push` from std: appends the given character to the
/// end of the string, leaving the earlier contents in place.
pub assume_specification[ String::push ](s: &mut String, ch: char)
    ensures
        final(s)@ == old(s)@.push(ch),
;

} // verus!
