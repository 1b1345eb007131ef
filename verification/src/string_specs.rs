//! What this library takes on trust about `String`.

use vstd::prelude::*;

verus! {

/// `String::push` appends the character `c` to the end of the string: the
/// text is afterwards what it was before, followed by `c`. This is assumed of
/// the standard library, not proved here.
pub assume_specification[ String::push ](s: &mut String, c: char)
    ensures
        final(s)@ == old(s)@.push(c),
;

} // verus!
