//! Reading escaped text back.

use crate::error::EscapeError;
use crate::grammar::{lemma_decoded_by_tokens, unescaped, well_formed};
use crate::laws::{lemma_decode_errors, lemma_decode_plain, lemma_decoded_no_longer, rejects_at};
use crate::symbols::{meaning, meaning_of, ESCAPE};
use crate::utf8::{byte_len, len_in_bytes, lemma_byte_len_prefix, lemma_byte_len_push, width};
use vstd::prelude::*;

verus! {

/// What the decoder remembers between two characters.
#[derive(Debug, Clone, Copy, PartialEq, Eq, Structural)]
pub enum DecodeState {
    /// The next character is read on its own.
    Idle,
    /// The character before was an escape character that still waits for its
    /// marker.
    EscapePending,
}

/// What reading one character does: the state afterwards and the character
/// put out, if any.
#[derive(Debug, Clone, Copy, PartialEq, Eq, Structural)]
pub struct Transition {
    pub next: DecodeState,
    pub emitted: Option<char>,
}

/// The decoder's transition on the character `c` in the state `state`, or
/// `None` where an escape character is followed by `c` and `c` is no marker.
///
/// With no escape pending, the escape character is held back and every other
/// character is put out as it is. With an escape pending, a marker puts out
/// the character that it stands for.
pub open spec fn step(state: DecodeState, c: char) -> Option<Transition> {
    match state {
        DecodeState::Idle => if c == ESCAPE {
            Some(Transition { next: DecodeState::EscapePending, emitted: None })
        } else {
            Some(Transition { next: DecodeState::Idle, emitted: Some(c) })
        },
        DecodeState::EscapePending => match meaning_of(c) {
            Some(d) => Some(Transition { next: DecodeState::Idle, emitted: Some(d) }),
            None => None,
        },
    }
}

/// Where the decoder stands after a text: its state and what it has put out.
pub struct Progress {
    pub state: DecodeState,
    pub output: Seq<char>,
}

/// The decoder's progress after reading the character `c`, which starts at
/// the byte offset `offset`, from the progress `before`; or the error that
/// names `c` and `offset`, where the decoder rejects `c`.
pub open spec fn read(before: Progress, c: char, offset: nat) -> Result<Progress, EscapeError> {
    match step(before.state, c) {
        None => Err(EscapeError::InvalidEscapeMarker { character: c, offset: offset as usize }),
        Some(t) => Ok(
            Progress {
                state: t.next,
                output: match t.emitted {
                    Some(d) => before.output.push(d),
                    None => before.output,
                },
            },
        ),
    }
}

/// The decoder's progress after reading all of `s` from the left, starting
/// idle with nothing put out; or the error at the first character that it
/// rejects. The error gives that character and the byte offset at which it
/// starts in `s`.
pub open spec fn run(s: Seq<char>) -> Result<Progress, EscapeError>
    decreases s.len(),
{
    if s.len() == 0 {
        Ok(Progress { state: DecodeState::Idle, output: Seq::empty() })
    } else {
        match run(s.drop_last()) {
            Err(e) => Err(e),
            Ok(before) => read(before, s.last(), byte_len(s.drop_last())),
        }
    }
}

/// What decoding the escaped text `s` gives: the output of [`run`] if the
/// decoder ends idle, [`EscapeError::DanglingEscape`] if it ends with an
/// escape pending, and the error of [`run`] if a character was rejected.
pub open spec fn decoded(s: Seq<char>) -> Result<Seq<char>, EscapeError> {
    match run(s) {
        Err(e) => Err(e),
        Ok(end) => match end.state {
            DecodeState::Idle => Ok(end.output),
            DecodeState::EscapePending => Err(EscapeError::DanglingEscape),
        },
    }
}

impl DecodeState {
    /// The state in which decoding starts.
    pub fn start() -> (state: DecodeState)
        ensures
            state == DecodeState::Idle,
    {
        DecodeState::Idle
    }

    /// Reads the character `c` in this state: the transition that [`step`]
    /// gives, or `None` if `c` stands where a marker is due and is none.
    pub fn advance(self, c: char) -> (t: Option<Transition>)
        ensures
            t == step(self, c),
    {
        match self {
            DecodeState::Idle => if c == ESCAPE {
                Some(Transition { next: DecodeState::EscapePending, emitted: None })
            } else {
                Some(Transition { next: DecodeState::Idle, emitted: Some(c) })
            },
            DecodeState::EscapePending => match meaning(c) {
                Some(d) => Some(Transition { next: DecodeState::Idle, emitted: Some(d) }),
                None => None,
            },
        }
    }
}

/// Reading one more character: after `s` followed by `c`, the decoder stands
/// where [`read`] takes it from where it stood after `s`.
pub proof fn lemma_run_push(s: Seq<char>, c: char)
    ensures
        run(s.push(c)) == match run(s) {
            Err(e) => Err(e),
            Ok(before) => read(before, c, byte_len(s)),
        },
{
    assert(s.push(c).drop_last() =~= s);
}

/// Once the decoder has rejected a character, reading on changes nothing: the
/// error of a prefix is the error of the whole text.
pub proof fn lemma_error_is_final(s: Seq<char>, n: int)
    requires
        0 <= n <= s.len(),
        run(s.take(n)) is Err,
    ensures
        run(s) == run(s.take(n)),
    decreases s.len() - n,
{
    if n == s.len() {
        assert(s.take(n) =~= s);
    } else {
        assert(s.take(n + 1) =~= s.take(n).push(s[n]));
        lemma_run_push(s.take(n), s[n]);
        lemma_error_is_final(s, n + 1);
    }
}

/// Reads the escaped text `escaped` back. The result is exactly
/// [`decoded`] of the text: the decoded text, or the first error met from the
/// left.
///
/// The decoder is strict: it accepts the well-formed texts and no others. An
/// escape character followed by anything but a marker is an error
/// ([`EscapeError::InvalidEscapeMarker`], with the character found and the
/// byte offset at which it starts); so is an escape character at the very end
/// ([`EscapeError::DanglingEscape`]). A text without any escape character
/// decodes to itself, and a decoded text is never longer than the escaped
/// one.
pub fn decode(escaped: &str) -> (r: Result<String, EscapeError>)
    ensures
        match r {
            Ok(text) => decoded(escaped@) == Ok::<Seq<char>, EscapeError>(text@),
            Err(e) => decoded(escaped@) == Err::<Seq<char>, EscapeError>(e),
        },
        r is Ok <==> well_formed(escaped@),
        r matches Ok(text) ==> text@ == unescaped(escaped@) && text@.len() <= escaped@.len(),
        r matches Err(e) ==> (e == EscapeError::DanglingEscape && escaped@.len() > 0
            && escaped@.last() == ESCAPE) || (exists|i: int| rejects_at(escaped@, i, e)),
        (forall|i: int| 0 <= i < escaped@.len() ==> escaped@[i] != ESCAPE) ==> (r matches Ok(text)
            && text@ == escaped@),
{
    let total: usize = len_in_bytes(escaped);
    let mut out = String::new();
    let mut state = DecodeState::start();
    let mut offset: usize = 0;
    for c in chars: escaped.chars()
        invariant
            chars.seq() == escaped@,
            total == byte_len(escaped@),
            offset == byte_len(escaped@.take(chars.index() as int)),
            run(escaped@.take(chars.index() as int)) == Ok::<Progress, EscapeError>(
                Progress { state, output: out@ },
            ),
    {
        proof {
            let n = chars.index() as int;
            assert(escaped@.take(n + 1) =~= escaped@.take(n).push(c));
            lemma_run_push(escaped@.take(n), c);
            lemma_byte_len_push(escaped@.take(n), c);
            lemma_byte_len_prefix(escaped@, n + 1);
        }
        match state.advance(c) {
            None => {
                proof {
                    lemma_error_is_final(escaped@, chars.index() as int + 1);
                    lemma_decode_errors(escaped@);
                    lemma_decoded_by_tokens(escaped@);
                }
                return Err(EscapeError::InvalidEscapeMarker { character: c, offset });
            },
            Some(t) => {
                match t.emitted {
                    Some(d) => {
                        out.push(d);
                    },
                    None => {},
                }
                state = t.next;
            },
        }
        offset = offset + width(c);
    }
    proof {
        assert(escaped@.take(escaped@.len() as int) =~= escaped@);
        lemma_decoded_no_longer(escaped@);
        lemma_decode_errors(escaped@);
        lemma_decoded_by_tokens(escaped@);
        if forall|i: int| 0 <= i < escaped@.len() ==> escaped@[i] != ESCAPE {
            lemma_decode_plain(escaped@);
        }
    }
    match state {
        DecodeState::Idle => Ok(out),
        DecodeState::EscapePending => Err(EscapeError::DanglingEscape),
    }
}

} // verus!
