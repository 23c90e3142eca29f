use vstd::prelude::*;

verus! {

/// `String::push` of std appends one character at the end.
pub assume_specification[ String::push ](s: &mut String, c: char)
    ensures
        final(s)@ == old(s)@.push(c),
;

/// `eq` on string slices, of std, holds exactly when the two hold the same
/// characters.
pub assume_specification[ <str as PartialEq>::eq ](a: &str, b: &str) -> (r: bool)
    ensures
        r == (a@ == b@),
;

} // verus!
