//! Writing text in escaped form.

use crate::decoder::decoded;
use crate::error::EscapeError;
use crate::laws::{
    lemma_escaped_no_shorter, lemma_escaped_on_one_line, lemma_plain_text_escapes_to_itself,
    lemma_round_trip,
};
use crate::symbols::{is_special, marker, marker_of, CARRIAGE_RETURN, ESCAPE, LINE_FEED};
use vstd::prelude::*;

verus! {

/// How one character is written in escaped text: a special character as the
/// escape character followed by its marker, any other character as itself.
pub open spec fn escaped_char(c: char) -> Seq<char> {
    match marker_of(c) {
        Some(m) => seq![ESCAPE, m],
        None => seq![c],
    }
}

/// The escaped form of the text `s`: its characters in order, each written as
/// [`escaped_char`] says.
pub open spec fn escaped(s: Seq<char>) -> Seq<char>
    decreases s.len(),
{
    if s.len() == 0 {
        Seq::empty()
    } else {
        escaped(s.drop_last()) + escaped_char(s.last())
    }
}

/// Writes `raw` in escaped form. Every text can be encoded. The result is
/// never shorter than `raw`, holds no line feed and no carriage return, and
/// decodes to `raw`; a text without special characters is returned as it is.
pub fn encode(raw: &str) -> (out: String)
    ensures
        out@ == escaped(raw@),
        out@.len() >= raw@.len(),
        forall|i: int| 0 <= i < out@.len() ==> out@[i] != LINE_FEED && out@[i] != CARRIAGE_RETURN,
        (forall|i: int| 0 <= i < raw@.len() ==> !is_special(raw@[i])) ==> out@ == raw@,
        decoded(out@) == Ok::<Seq<char>, EscapeError>(raw@),
{
    let mut out = String::new();
    for c in chars: raw.chars()
        invariant
            chars.seq() == raw@,
            out@ == escaped(raw@.take(chars.index() as int)),
    {
        proof {
            let n = chars.index() as int;
            assert(raw@.take(n + 1).drop_last() =~= raw@.take(n));
        }
        match marker(c) {
            Some(m) => {
                out.push(ESCAPE);
                out.push(m);
            },
            None => {
                out.push(c);
            },
        }
    }
    proof {
        assert(raw@.take(raw@.len() as int) =~= raw@);
        lemma_escaped_no_shorter(raw@);
        lemma_escaped_on_one_line(raw@);
        if forall|i: int| 0 <= i < raw@.len() ==> !is_special(raw@[i]) {
            lemma_plain_text_escapes_to_itself(raw@);
        }
        lemma_round_trip(raw@);
    }
    out
}

} // verus!
