//! Picking the longer of two texts, or the bigger of two numbers.

use crate::utf8::{byte_len, len_in_bytes};
use vstd::prelude::*;
use vstd::string::StringExecFns;

verus! {

/// A borrowed text together with the name of the parameter that it was passed
/// as.
#[derive(Debug, Clone, PartialEq, Eq)]
pub struct MyString<'a> {
    pub name: String,
    pub value: &'a str,
}

impl<'a> MyString<'a> {
    /// What [`MyString::text`] returns: the name, a colon, and the value.
    pub open spec fn text_of(self) -> Seq<char> {
        self.name@ + ":"@ + self.value@
    }

    /// The name and the value as one text, with a colon between them.
    pub fn text(&self) -> (text: String)
        ensures
            text@ == self.text_of(),
    {
        let mut text = self.name.clone();
        text.append(":");
        text.append(self.value);
        text
    }
}

/// Returns the longer of the two texts, named after its parameter
/// (`"string1"` or `"string2"`), or `None` if they are of the same length.
/// Lengths are counted in bytes of the UTF-8 encoding.
pub fn longest_by_str<'a>(string1: &'a str, string2: &'a str) -> (r: Option<MyString<'a>>)
    ensures
        byte_len(string1@) > byte_len(string2@) ==> (r matches Some(m) && m.name@ == "string1"@
            && m.value@ == string1@),
        byte_len(string2@) > byte_len(string1@) ==> (r matches Some(m) && m.name@ == "string2"@
            && m.value@ == string2@),
        byte_len(string1@) == byte_len(string2@) ==> r is None,
{
    if len_in_bytes(string1) > len_in_bytes(string2) {
        return Some(MyString { name: String::from_str("string1"), value: string1 });
    }
    if len_in_bytes(string2) > len_in_bytes(string1) {
        return Some(MyString { name: String::from_str("string2"), value: string2 });
    }
    return None;
}

/// Returns the one of the two references that points at the bigger number,
/// or `None` if the numbers are equal. The call changes neither number;
/// through the reference returned the caller may change the one it points at,
/// and the other stays as it was.
pub fn bigger_by_mut_u8<'a>(i1: &'a mut u8, i2: &'a mut u8) -> (r: Option<&'a mut u8>)
    ensures
        *old(i1) > *old(i2) ==> r is Some && *r->0 == *old(i1) && *final(i1) == *final(r->0)
            && *final(i2) == *old(i2),
        *old(i2) > *old(i1) ==> r is Some && *r->0 == *old(i2) && *final(i2) == *final(r->0)
            && *final(i1) == *old(i1),
        *old(i1) == *old(i2) ==> r is None && *final(i1) == *old(i1) && *final(i2) == *old(i2),
{
    if *i1 > *i2 {
        return Some(i1);
    }
    if *i2 > *i1 {
        return Some(i2);
    }
    return None;
}

/// Returns the longer of the two texts, or `None` if they are of the same
/// length. Lengths are counted in bytes of the UTF-8 encoding.
pub fn longest_by_string(string1: String, string2: String) -> (r: Option<String>)
    ensures
        byte_len(string1@) > byte_len(string2@) ==> (r matches Some(s) && s@ == string1@),
        byte_len(string2@) > byte_len(string1@) ==> (r matches Some(s) && s@ == string2@),
        byte_len(string1@) == byte_len(string2@) ==> r is None,
{
    if len_in_bytes(string1.as_str()) > len_in_bytes(string2.as_str()) {
        return Some(string1);
    }
    if len_in_bytes(string2.as_str()) > len_in_bytes(string1.as_str()) {
        return Some(string2);
    }
    return None;
}

} // verus!
