//! What this crate takes on trust of functions of the standard library
//! that `vstd` does not specify.

use vstd::prelude::*;
use vstd::string::StringSliceAdditionalSpecFns;
use vstd::utf8::valid_utf8;

verus! {

/// The text that `String::from_utf8_lossy` makes of bytes: each part that
/// is not UTF-8 gives way to U+FFFD.
pub uninterp spec fn utf8_lossy(bytes: Seq<u8>) -> Seq<char>;

/// `core::str::from_utf8`: the bytes as a string slice, where they are
/// valid UTF-8.
#[verifier::external_body]
pub(crate) fn str_from_utf8(bytes: &[u8]) -> (text: Option<&str>)
    ensures
        text is Some == valid_utf8(bytes@),
        text matches Some(s) ==> s.spec_bytes() == bytes@,
{
    match core::str::from_utf8(bytes) {
        Ok(s) => Some(s),
        Err(_) => None,
    }
}

/// `String::from_utf8_lossy`, as an owned string.
#[verifier::external_body]
pub(crate) fn string_from_utf8_lossy(bytes: &[u8]) -> (text: String)
    ensures
        text@ == utf8_lossy(bytes@),
{
    String::from_utf8_lossy(bytes).into_owned()
}

/// `str::rsplit_once` at a `.`: what stands before the last `.` and what
/// stands behind it, where the text holds one.
#[verifier::external_body]
pub(crate) fn rsplit_once_dot(text: &str) -> (parts: Option<(&str, &str)>)
    ensures
        parts is Some == text@.contains('.'),
        parts matches Some(p) ==> text@ == p.0@ + seq!['.'] + p.1@ && !p.1@.contains('.'),
{
    text.rsplit_once('.')
}

/// `String::into_boxed_str`: the same text in a box.
#[verifier::external_body]
pub(crate) fn string_into_boxed_str(text: String) -> (boxed: Box<str>)
    ensures
        boxed@ == text@,
{
    text.into_boxed_str()
}

/// `<Box<str> as Clone>::clone`: a box with the same text.
pub assume_specification[ <Box<str> as Clone>::clone ](boxed: &Box<str>) -> (copy: Box<str>)
    ensures
        copy@ == boxed@,
;

} // verus!
