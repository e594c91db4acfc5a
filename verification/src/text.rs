//! What this library assumes of the standard string type.

use vstd::prelude::*;

verus! {

/// Assumed of `String::push` of the standard library, and not proved: it
/// appends the character to the end of the string and changes nothing else
/// of it.
pub assume_specification[ String::push ](s: &mut String, ch: char)
    ensures
        final(s)@ == old(s)@.push(ch),
;

} // verus!
