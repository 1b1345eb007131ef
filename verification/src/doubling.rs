//! Doubling numbers, arrays of numbers, and texts.

use vstd::prelude::*;
use vstd::string::StringExecFns;

verus! {

/// Twice `x`. The result has to fit the type.
pub fn double(x: u8) -> (twice: u8)
    requires
        2 * x <= u8::MAX,
    ensures
        twice == 2 * x,
{
    return x * 2;
}

/// Twice `x`, as [`double`], written as a tail expression.
pub fn other_double(x: u8) -> (twice: u8)
    requires
        2 * x <= u8::MAX,
    ensures
        twice == 2 * x,
{
    x * 2
}

/// Twice `x`. The result has to fit the type.
pub fn double_i32(x: i32) -> (twice: i32)
    requires
        i32::MIN <= 2 * x <= i32::MAX,
    ensures
        twice == 2 * x,
{
    2 * x
}

/// The text `x` followed by `" * 2"`.
pub fn double_string(x: String) -> (text: String)
    ensures
        text@ == x@ + " * 2"@,
{
    x.concat(" * 2")
}

/// The text `s` twice, followed by `" x 2"`.
pub fn double_repeated(s: String) -> (text: String)
    ensures
        text@ == s@ + s@ + " x 2"@,
{
    let r: String = s.clone();
    let tail: String = s.concat(" x 2");
    r.concat(tail.as_str())
}

/// Twice each of the ten numbers of `a`, in the same order. Each result has
/// to fit the type.
pub fn double_each(a: [u8; 10]) -> (twice: [u8; 10])
    requires
        forall|i: int| 0 <= i < 10 ==> 2 * a[i] <= u8::MAX,
    ensures
        forall|i: int| 0 <= i < 10 ==> twice[i] == 2 * a[i],
{
    let mut result: [u8; 10] = [0;10];
    let mut i: usize = 0;
    while i < 10
        invariant
            i <= 10,
            forall|j: int| 0 <= j < 10 ==> 2 * a[j] <= u8::MAX,
            forall|j: int| 0 <= j < i ==> result[j] == 2 * a[j],
        decreases 10 - i,
    {
        result[i] = 2 * a[i];
        i = i + 1;
    }
    result
}

} // verus!
