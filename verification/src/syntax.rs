//! The byte-level grammar of the fields that a header block is made of.

use vstd::prelude::*;

verus! {

/// Longest header name, in bytes.
pub const MAX_HEADER_NAME_LEN: usize = 65535;

/// A `tchar` of HTTP: a letter, a digit, or one of ``!#$%&'*+-.^_`|~``.
pub open spec fn is_token_byte(b: u8) -> bool {
    ||| 0x30 <= b <= 0x39
    ||| 0x41 <= b <= 0x5a
    ||| 0x61 <= b <= 0x7a
    ||| b == 0x21
    ||| 0x23 <= b <= 0x27
    ||| b == 0x2a
    ||| b == 0x2b
    ||| b == 0x2d
    ||| b == 0x2e
    ||| b == 0x5e
    ||| b == 0x5f
    ||| b == 0x60
    ||| b == 0x7c
    ||| b == 0x7e
}

/// A `token` of HTTP: one or more `tchar`s.
pub open spec fn is_token(s: Seq<u8>) -> bool {
    &&& s.len() > 0
    &&& forall|i: int| 0 <= i < s.len() ==> is_token_byte(#[trigger] s[i])
}

/// A header name as it may be written on the wire, in any casing.
pub open spec fn is_header_name(s: Seq<u8>) -> bool {
    &&& is_token(s)
    &&& s.len() <= MAX_HEADER_NAME_LEN
}

/// An ASCII upper-case letter becomes its lower-case letter; every other byte
/// stays.
pub open spec fn lower_byte(b: u8) -> u8 {
    if 0x41 <= b <= 0x5a {
        (b + 0x20) as u8
    } else {
        b
    }
}

/// The normalized form of a header name: each byte in lower case.
pub open spec fn lowercase(s: Seq<u8>) -> Seq<u8> {
    Seq::new(s.len(), |i: int| lower_byte(s[i]))
}

/// A byte that may stand in a header value: a tab, or any byte from 32 on
/// but DEL.
pub open spec fn is_header_value_byte(b: u8) -> bool {
    (b >= 32 && b != 127) || b == 9
}

/// A header value: any number of header value bytes.
pub open spec fn is_header_value(s: Seq<u8>) -> bool {
    forall|i: int| 0 <= i < s.len() ==> is_header_value_byte(#[trigger] s[i])
}

/// A status code that a response can carry.
pub open spec fn is_status_code(code: u16) -> bool {
    100 <= code <= 999
}

/// The part of a request target that stays: what stands before the first
/// `#`, the whole where there is none.
pub open spec fn without_fragment(target: Seq<u8>) -> Seq<u8> {
    match target.index_of_first(0x23u8) {
        Some(i) => target.subrange(0, i),
        None => target,
    }
}

/// The path-and-query text that a parsed target shows: the target without
/// its fragment, and `/` where that leaves nothing.
pub open spec fn shown_target(target: Seq<u8>) -> Seq<u8> {
    let kept = without_fragment(target);
    if kept.len() == 0 {
        seq![0x2fu8]
    } else {
        kept
    }
}

/// The path of a path-and-query text: what stands before the first `?`, and
/// `/` where that is nothing.
pub open spec fn path_of(text: Seq<u8>) -> Seq<u8> {
    let path = match text.index_of_first(0x3fu8) {
        Some(i) => text.subrange(0, i),
        None => text,
    };
    if path.len() == 0 {
        seq![0x2fu8]
    } else {
        path
    }
}

/// Lower-casing keeps a header name a header name, and changes nothing in a
/// name that is already in lower case.
pub proof fn lemma_lowercase_is_header_name(s: Seq<u8>)
    requires
        is_header_name(s),
    ensures
        is_header_name(lowercase(s)),
        lowercase(lowercase(s)) == lowercase(s),
{
    assert forall|i: int| 0 <= i < s.len() implies is_token_byte(#[trigger] lowercase(s)[i]) by {
        assert(is_token_byte(s[i]));
    }
    assert(lowercase(lowercase(s)) =~= lowercase(s));
}

/// A target that holds no `#` is shown as it is, unless it is empty.
pub proof fn lemma_shown_target_without_fragment(target: Seq<u8>)
    requires
        target.len() > 0,
        !target.contains(0x23u8),
    ensures
        shown_target(target) == target,
{
    target.index_of_first_ensures(0x23u8);
}

} // verus!
