//! What holds of encoding and decoding together.

use crate::decoder::{decoded, lemma_run_push, run, DecodeState, Progress};
use crate::encoder::{escaped, escaped_char};
use crate::error::EscapeError;
use crate::symbols::{is_special, marker_of, meaning_of, CARRIAGE_RETURN, ESCAPE, LINE_FEED};
use crate::utf8::byte_len;
use vstd::prelude::*;

verus! {

/// Escaped text is never shorter than the text it stands for.
pub proof fn lemma_escaped_no_shorter(s: Seq<char>)
    ensures
        escaped(s).len() >= s.len(),
    decreases s.len(),
{
    if s.len() > 0 {
        lemma_escaped_no_shorter(s.drop_last());
    }
}

/// Encoding goes character by character: the escaped form of two texts, one
/// after the other, is their escaped forms one after the other.
pub proof fn lemma_escaped_concat(a: Seq<char>, b: Seq<char>)
    ensures
        escaped(a + b) == escaped(a) + escaped(b),
    decreases b.len(),
{
    if b.len() == 0 {
        assert(a + b =~= a);
    } else {
        lemma_escaped_concat(a, b.drop_last());
        assert((a + b).drop_last() =~= a + b.drop_last());
    }
}

/// After reading the escaped form of a text, the decoder is idle and has put
/// out that text.
pub proof fn lemma_run_escaped(s: Seq<char>)
    ensures
        run(escaped(s)) == Ok::<Progress, EscapeError>(
            Progress { state: DecodeState::Idle, output: s },
        ),
    decreases s.len(),
{
    if s.len() == 0 {
        assert(s =~= Seq::<char>::empty());
    } else {
        let head = s.drop_last();
        let c = s.last();
        let e = escaped(head);
        lemma_run_escaped(head);
        assert(s =~= head.push(c));
        match marker_of(c) {
            Some(m) => {
                assert(escaped(s) =~= e.push(ESCAPE).push(m));
                lemma_run_push(e, ESCAPE);
                lemma_run_push(e.push(ESCAPE), m);
            },
            None => {
                assert(escaped(s) =~= e.push(c));
                lemma_run_push(e, c);
            },
        }
    }
}

/// Round trip: decoding the escaped form of any text gives the text back.
pub proof fn lemma_round_trip(s: Seq<char>)
    ensures
        decoded(escaped(s)) == Ok::<Seq<char>, EscapeError>(s),
{
    lemma_run_escaped(s);
}

/// Escaped text stays on one line: it holds neither a line feed nor a
/// carriage return.
pub proof fn lemma_escaped_on_one_line(s: Seq<char>)
    ensures
        forall|i: int|
            0 <= i < escaped(s).len() ==> escaped(s)[i] != LINE_FEED && escaped(s)[i]
                != CARRIAGE_RETURN,
    decreases s.len(),
{
    if s.len() > 0 {
        let head = escaped(s.drop_last());
        let tail = escaped_char(s.last());
        lemma_escaped_on_one_line(s.drop_last());
        assert forall|i: int| 0 <= i < escaped(s).len() implies escaped(s)[i] != LINE_FEED
            && escaped(s)[i] != CARRIAGE_RETURN by {
            if i >= head.len() {
                assert(escaped(s)[i] == tail[i - head.len()]);
            } else {
                assert(escaped(s)[i] == head[i]);
            }
        }
    }
}

/// A text without special characters is its own escaped form.
pub proof fn lemma_plain_text_escapes_to_itself(s: Seq<char>)
    requires
        forall|i: int| 0 <= i < s.len() ==> !is_special(s[i]),
    ensures
        escaped(s) == s,
    decreases s.len(),
{
    if s.len() == 0 {
        assert(s =~= Seq::<char>::empty());
    } else {
        lemma_plain_text_escapes_to_itself(s.drop_last());
        assert(s =~= s.drop_last() + seq![s.last()]);
    }
}

/// After a text without any escape character, the decoder is idle and has put
/// out the text as it is.
pub proof fn lemma_run_plain(s: Seq<char>)
    requires
        forall|i: int| 0 <= i < s.len() ==> s[i] != ESCAPE,
    ensures
        run(s) == Ok::<Progress, EscapeError>(Progress { state: DecodeState::Idle, output: s }),
    decreases s.len(),
{
    if s.len() == 0 {
        assert(s =~= Seq::<char>::empty());
    } else {
        lemma_run_plain(s.drop_last());
        assert(s =~= s.drop_last().push(s.last()));
    }
}

/// A text without any escape character decodes to itself.
pub proof fn lemma_decode_plain(s: Seq<char>)
    requires
        forall|i: int| 0 <= i < s.len() ==> s[i] != ESCAPE,
    ensures
        decoded(s) == Ok::<Seq<char>, EscapeError>(s),
{
    lemma_run_plain(s);
}

/// The decoder puts out at most one character for each character read, and
/// none for an escape character that is still pending.
pub proof fn lemma_run_output_bound(s: Seq<char>)
    ensures
        run(s) matches Ok(p) ==> p.output.len() + (if p.state == DecodeState::EscapePending {
            1int
        } else {
            0int
        }) <= s.len(),
    decreases s.len(),
{
    if s.len() > 0 {
        lemma_run_output_bound(s.drop_last());
    }
}

/// A decoded text is never longer than the escaped text it came from.
pub proof fn lemma_decoded_no_longer(s: Seq<char>)
    ensures
        decoded(s) matches Ok(text) ==> text.len() <= s.len(),
{
    lemma_run_output_bound(s);
}

/// Whether `e` is the error for the character at index `i` of `s`: that
/// character follows an escape character, is no marker, and is named by the
/// error together with the byte offset at which it starts.
pub open spec fn rejects_at(s: Seq<char>, i: int, e: EscapeError) -> bool {
    &&& 0 < i < s.len()
    &&& s[i - 1] == ESCAPE
    &&& meaning_of(s[i]) is None
    &&& e == EscapeError::InvalidEscapeMarker {
        character: s[i],
        offset: byte_len(s.take(i)) as usize,
    }
}

/// Where the decoder stops with an escape pending, the last character read is
/// an escape character; where it rejects a character, the error names a
/// character of the text that follows an escape character and is no marker.
pub proof fn lemma_run_errors(s: Seq<char>)
    ensures
        run(s) matches Ok(p) ==> (p.state == DecodeState::EscapePending ==> s.len() > 0 && s.last()
            == ESCAPE),
        run(s) matches Err(e) ==> exists|i: int| rejects_at(s, i, e),
    decreases s.len(),
{
    if s.len() > 0 {
        let head = s.drop_last();
        lemma_run_errors(head);
        match run(head) {
            Err(e) => {
                let i = choose|i: int| rejects_at(head, i, e);
                assert(head.take(i) =~= s.take(i));
                assert(rejects_at(s, i, e));
            },
            Ok(before) => {
                if run(s) is Err {
                    let i = s.len() - 1;
                    assert(s.take(i) =~= head);
                    assert(rejects_at(s, i, run(s)->Err_0));
                }
            },
        }
    }
}

/// A dangling escape is reported only for a text that ends with an escape
/// character, and an invalid marker only for a character of the text that
/// follows an escape character and is no marker.
pub proof fn lemma_decode_errors(s: Seq<char>)
    ensures
        decoded(s) == Err::<Seq<char>, EscapeError>(EscapeError::DanglingEscape) ==> s.len() > 0
            && s.last() == ESCAPE,
        decoded(s) matches Err(e) ==> e == EscapeError::DanglingEscape || exists|i: int|
            rejects_at(s, i, e),
{
    lemma_run_errors(s);
}

/// Two texts with the same escaped form are the same text.
pub proof fn lemma_escaped_injective(a: Seq<char>, b: Seq<char>)
    requires
        escaped(a) == escaped(b),
    ensures
        a == b,
{
    lemma_round_trip(a);
    lemma_round_trip(b);
}

} // verus!
