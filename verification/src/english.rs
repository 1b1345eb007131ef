//! What the library has to say in English.

use vstd::prelude::*;

verus! {

/// The answer to a request for slang: always the same refusal.
pub fn tell_slang() -> (line: &'static str)
    ensures
        line@ == "No I won't tell slang!"@,
{
    "No I won't tell slang!"
}

} // verus!
