//! Numbers written in decimal digits.

use vstd::prelude::*;

verus! {

/// The character for the digit `d`, for `d` below ten.
pub open spec fn digit_of(d: nat) -> char
    recommends
        d < 10,
{
    ('0' as nat + d) as char
}

/// The decimal digits of `n`, most significant first, without leading zeros
/// (zero itself is written as one digit).
pub open spec fn decimal(n: nat) -> Seq<char>
    decreases n,
{
    if n < 10 {
        seq![digit_of(n)]
    } else {
        decimal(n / 10).push(digit_of(n % 10))
    }
}

/// The character for the digit `d`.
pub fn digit(d: u8) -> (c: char)
    requires
        d < 10,
    ensures
        c == digit_of(d as nat),
{
    ('0' as u8 + d) as char
}

/// Appends the decimal digits of `n` to `out`.
pub fn push_decimal(out: &mut String, n: u16)
    ensures
        final(out)@ == old(out)@ + decimal(n as nat),
    decreases n,
{
    if n >= 10 {
        push_decimal(out, n / 10);
    }
    out.push(digit((n % 10) as u8));
}

} // verus!
