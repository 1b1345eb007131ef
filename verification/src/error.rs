//! The ways in which decoding fails.

use vstd::prelude::*;

verus! {

/// Why a text could not be decoded.
#[derive(Debug, Clone, Copy, PartialEq, Eq, Structural)]
pub enum EscapeError {
    /// The text ends with an escape character that no marker follows.
    DanglingEscape,
    /// An escape character is followed by a character that is no marker.
    InvalidEscapeMarker {
        /// The character found in the marker's place.
        character: char,
        /// Where that character starts in the text, in bytes of its UTF-8
        /// encoding.
        offset: usize,
    },
}

} // verus!
