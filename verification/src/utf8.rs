//! Byte positions in UTF-8 text.

use vstd::prelude::*;
use vstd::slice::axiom_spec_len;
use vstd::utf8::{encode_scalar, encode_utf8};

verus! {

/// The number of bytes that the UTF-8 encoding of `s` takes.
pub open spec fn byte_len(s: Seq<char>) -> nat {
    encode_utf8(s).len()
}

/// The number of bytes that the UTF-8 encoding of `c` takes.
pub open spec fn width_of(c: char) -> nat {
    encode_scalar(c as u32).len()
}

/// The number of bytes that the UTF-8 encoding of `c` takes: between one and
/// four, by the size of its scalar value.
pub fn width(c: char) -> (w: usize)
    ensures
        w == width_of(c),
        1 <= w <= 4,
{
    let v: u32 = c as u32;
    if v < 0x80 {
        1
    } else if v < 0x800 {
        2
    } else if v < 0x10000 {
        3
    } else {
        4
    }
}

/// The length of `s` in bytes of its UTF-8 encoding.
pub fn len_in_bytes(s: &str) -> (n: usize)
    ensures
        n == byte_len(s@),
{
    let bytes = s.as_bytes();
    proof {
        axiom_spec_len(bytes);
    }
    bytes.len()
}

/// The width of a character is one for scalar values below `0x80`, two below
/// `0x800`, three below `0x10000` and four from there on.
pub proof fn lemma_width_by_range(c: char)
    ensures
        width_of(c) == if (c as u32) < 0x80 {
            1nat
        } else if (c as u32) < 0x800 {
            2nat
        } else if (c as u32) < 0x10000 {
            3nat
        } else {
            4nat
        },
{
}

/// A text followed by one more character takes the bytes of the text and then
/// those of the character.
pub proof fn lemma_byte_len_push(s: Seq<char>, c: char)
    ensures
        byte_len(s.push(c)) == byte_len(s) + width_of(c),
    decreases s.len(),
{
    if s.len() == 0 {
        assert(s.push(c).drop_first() =~= s);
    } else {
        assert(s.push(c).drop_first() =~= s.drop_first().push(c));
        lemma_byte_len_push(s.drop_first(), c);
    }
}

/// A prefix of a text takes no more bytes than the text.
pub proof fn lemma_byte_len_prefix(s: Seq<char>, n: int)
    requires
        0 <= n <= s.len(),
    ensures
        byte_len(s.take(n)) <= byte_len(s),
    decreases s.len() - n,
{
    if n == s.len() {
        assert(s.take(n) =~= s);
    } else {
        assert(s.take(n + 1) =~= s.take(n).push(s[n]));
        lemma_byte_len_push(s.take(n), s[n]);
        lemma_byte_len_prefix(s, n + 1);
    }
}

} // verus!
