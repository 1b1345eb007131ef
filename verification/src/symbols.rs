//! The characters that the codec treats specially, and the markers that stand
//! for them behind the escape character.

use vstd::prelude::*;

verus! {

/// The character that opens an escape sequence.
pub const ESCAPE: char = '\\';

/// Line feed, written as the escape character followed by [`LINE_FEED_MARKER`].
pub const LINE_FEED: char = '\n';

/// Carriage return, written as the escape character followed by
/// [`CARRIAGE_RETURN_MARKER`].
pub const CARRIAGE_RETURN: char = '\r';

/// The marker that stands for a line feed.
pub const LINE_FEED_MARKER: char = 'n';

/// The marker that stands for a carriage return.
pub const CARRIAGE_RETURN_MARKER: char = 'r';

/// The marker that stands for the escape character itself.
pub const ESCAPE_MARKER: char = '\\';

/// The marker that stands for `c` in escaped text, or `None` if `c` is written
/// as it is.
pub open spec fn marker_of(c: char) -> Option<char> {
    if c == LINE_FEED {
        Some(LINE_FEED_MARKER)
    } else if c == CARRIAGE_RETURN {
        Some(CARRIAGE_RETURN_MARKER)
    } else if c == ESCAPE {
        Some(ESCAPE_MARKER)
    } else {
        None
    }
}

/// The character that the marker `m` stands for, or `None` if `m` is no
/// marker.
pub open spec fn meaning_of(m: char) -> Option<char> {
    if m == LINE_FEED_MARKER {
        Some(LINE_FEED)
    } else if m == CARRIAGE_RETURN_MARKER {
        Some(CARRIAGE_RETURN)
    } else if m == ESCAPE_MARKER {
        Some(ESCAPE)
    } else {
        None
    }
}

/// Whether `c` has to be escaped: that is, whether it has a marker.
pub open spec fn is_special(c: char) -> bool {
    c == LINE_FEED || c == CARRIAGE_RETURN || c == ESCAPE
}

/// The marker that stands for `c`, if `c` has to be escaped.
#[verifier::when_used_as_spec(marker_of)]
pub fn marker(c: char) -> (m: Option<char>)
    ensures
        m == marker_of(c),
{
    if c == LINE_FEED {
        Some(LINE_FEED_MARKER)
    } else if c == CARRIAGE_RETURN {
        Some(CARRIAGE_RETURN_MARKER)
    } else if c == ESCAPE {
        Some(ESCAPE_MARKER)
    } else {
        None
    }
}

/// The character that the marker `m` stands for, if `m` is a marker.
#[verifier::when_used_as_spec(meaning_of)]
pub fn meaning(m: char) -> (c: Option<char>)
    ensures
        c == meaning_of(m),
{
    if m == LINE_FEED_MARKER {
        Some(LINE_FEED)
    } else if m == CARRIAGE_RETURN_MARKER {
        Some(CARRIAGE_RETURN)
    } else if m == ESCAPE_MARKER {
        Some(ESCAPE)
    } else {
        None
    }
}

/// Exactly the special characters have a marker.
pub proof fn lemma_special_has_marker(c: char)
    ensures
        is_special(c) <==> marker_of(c) is Some,
{
}

/// Markers and special characters correspond one to one: the marker of a
/// special character means that character, and the meaning of a marker has
/// that marker.
pub proof fn lemma_marker_meaning_inverse(c: char, m: char)
    ensures
        marker_of(c) == Some(m) <==> meaning_of(m) == Some(c),
{
}

} // verus!
