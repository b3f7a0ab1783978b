//! The validated fields of a message head: method, target, status code,
//! protocol version and header name.
//!
//! Each type holds plain text or a number that the `http` crate has
//! accepted; none can be made of anything else.

use crate::http_specs::checked_method;
use crate::http_specs::checked_status;
use crate::http_specs::normalized_header_name;
use crate::http_specs::parsed_target;
use crate::http_specs::target_accepted;
use crate::syntax::is_header_name;
use crate::syntax::is_status_code;
use crate::syntax::is_token;
use crate::syntax::lemma_lowercase_is_header_name;
use crate::syntax::lowercase;
use crate::syntax::path_of;
use crate::syntax::shown_target;
use vstd::prelude::*;
use vstd::string::StringSliceAdditionalSpecFns;
use vstd::utf8::encode_utf8;

verus! {

/// A request method: a token, case-sensitive.
#[derive(Debug)]
pub struct Method {
    token: Vec<u8>,
}

impl View for Method {
    type V = Seq<u8>;

    closed spec fn view(&self) -> Seq<u8> {
        self.token@
    }
}

impl Method {
    #[verifier::type_invariant]
    spec fn valid(self) -> bool {
        is_token(self.token@)
    }

    /// The method that `src` spells, where `src` is a token.
    pub fn from_bytes(src: &[u8]) -> (method: Option<Method>)
        ensures
            method is Some == is_token(src@),
            method matches Some(m) ==> m@ == src@,
    {
        match checked_method(src) {
            Some(token) => Some(Method { token }),
            None => None,
        }
    }

    /// The method `GET`.
    pub fn get() -> (method: Method)
        ensures
            method@ == seq![0x47u8, 0x45u8, 0x54u8],
    {
        let token: Vec<u8> = vec![0x47u8, 0x45u8, 0x54u8];
        Method { token }
    }

    /// The bytes of the method.
    pub fn as_bytes(&self) -> (bytes: &[u8])
        ensures
            bytes@ == self@,
            is_token(bytes@),
    {
        proof {
            use_type_invariant(self);
        }
        self.token.as_slice()
    }
}

impl Clone for Method {
    fn clone(&self) -> (copy: Self)
        ensures
            copy@ == self@,
    {
        proof {
            use_type_invariant(self);
        }
        Method { token: self.token.clone() }
    }
}

/// A request target in origin form: a path, and a query where there is
/// one.
#[derive(Debug)]
pub struct Uri {
    text: String,
    path: String,
}

impl View for Uri {
    type V = Seq<u8>;

    /// The bytes of the path and query.
    closed spec fn view(&self) -> Seq<u8> {
        encode_utf8(self.text@)
    }
}

impl Uri {
    #[verifier::type_invariant]
    spec fn valid(self) -> bool {
        encode_utf8(self.path@) == path_of(encode_utf8(self.text@))
    }

    /// The text of the path.
    pub closed spec fn path_text(&self) -> Seq<char> {
        self.path@
    }

    /// Whether the path is the part of the path and query that stands
    /// before the first `?`, or `/` where that is nothing. It is, in every
    /// target that this type hands out.
    pub open spec fn has_path_of_text(&self) -> bool {
        encode_utf8(self.path_text()) == path_of(self@)
    }

    /// The target that `text` spells, where it is accepted as a path and
    /// query. A fragment is cut off; where nothing is left, the target is
    /// `/`.
    pub fn from_path_and_query(text: &str) -> (uri: Option<Uri>)
        ensures
            uri is Some == target_accepted(text.spec_bytes()),
            uri matches Some(u) ==> {
                &&& u@ == shown_target(text.spec_bytes())
                &&& u.has_path_of_text()
            },
    {
        match parsed_target(text) {
            Some((text, path)) => Some(Uri { text, path }),
            None => None,
        }
    }

    /// The text of a target is valid UTF-8.
    pub proof fn lemma_text_is_utf8(&self)
        ensures
            vstd::utf8::valid_utf8(self@),
    {
        vstd::utf8::encode_utf8_valid_utf8(self.text@);
    }

    /// The target `/`.
    pub fn root() -> (uri: Uri)
        ensures
            uri@ == seq![0x2fu8],
            uri.has_path_of_text(),
    {
        let text = "/".to_owned();
        let path = "/".to_owned();
        proof {
            lemma_slash();
        }
        Uri { text, path }
    }

    /// The path and query.
    pub fn as_str(&self) -> (text: &str)
        ensures
            text.spec_bytes() == self@,
    {
        self.text.as_str()
    }

    /// The path.
    pub fn path(&self) -> (path: &str)
        ensures
            path@ == self.path_text(),
            self.has_path_of_text(),
    {
        proof {
            use_type_invariant(self);
        }
        self.path.as_str()
    }
}

/// The text `/` is the one byte 0x2f, and is its own path.
proof fn lemma_slash()
    ensures
        encode_utf8("/"@) == seq![0x2fu8],
        path_of(seq![0x2fu8]) == seq![0x2fu8],
{
    reveal_strlit("/");
    assert("/"@ =~= seq!['/']);
    vstd::utf8::is_ascii_chars_encode_utf8("/"@);
    assert(encode_utf8("/"@) =~= seq![0x2fu8]);
    seq![0x2fu8].index_of_first_ensures(0x3fu8);
}

impl Clone for Uri {
    fn clone(&self) -> (copy: Self)
        ensures
            copy@ == self@,
            copy.path_text() == self.path_text(),
            copy.has_path_of_text(),
    {
        proof {
            use_type_invariant(self);
        }
        Uri { text: self.text.clone(), path: self.path.clone() }
    }
}

/// A status code: a number from 100 to 999.
#[derive(Debug, Clone, Copy, PartialEq, Eq, Structural)]
pub struct StatusCode {
    code: u16,
}

impl View for StatusCode {
    type V = u16;

    closed spec fn view(&self) -> u16 {
        self.code
    }
}

impl StatusCode {
    #[verifier::type_invariant]
    spec fn valid(self) -> bool {
        is_status_code(self.code)
    }

    /// The status with the number `code`, where that is from 100 to 999.
    pub fn from_u16(code: u16) -> (status: Option<StatusCode>)
        ensures
            status is Some == is_status_code(code),
            status matches Some(s) ==> s@ == code,
    {
        match checked_status(code) {
            Some(code) => Some(StatusCode { code }),
            None => None,
        }
    }

    /// The status 200.
    pub fn ok() -> (status: StatusCode)
        ensures
            status@ == 200,
    {
        StatusCode { code: 200 }
    }

    /// The number of the status.
    pub fn as_u16(&self) -> (code: u16)
        ensures
            code == self@,
            is_status_code(code),
    {
        proof {
            use_type_invariant(self);
        }
        self.code
    }
}

/// A version of the protocol.
#[derive(Debug, Clone, Copy, PartialEq, Eq, Structural)]
pub enum Version {
    Http09,
    Http10,
    Http11,
    Http2,
    Http3,
}

/// A header name in its normalized form: a token in lower case.
#[derive(Debug)]
pub struct HeaderName {
    text: Vec<u8>,
}

impl View for HeaderName {
    type V = Seq<u8>;

    closed spec fn view(&self) -> Seq<u8> {
        self.text@
    }
}

impl HeaderName {
    #[verifier::type_invariant]
    spec fn valid(self) -> bool {
        is_header_name(self.text@) && lowercase(self.text@) == self.text@
    }

    /// The name that `src` spells in any casing, where `src` is a token of
    /// at most 65535 bytes.
    pub fn from_bytes(src: &[u8]) -> (name: Option<HeaderName>)
        ensures
            name is Some == is_header_name(src@),
            name matches Some(n) ==> n@ == lowercase(src@),
    {
        match normalized_header_name(src) {
            Some(text) => {
                proof {
                    lemma_lowercase_is_header_name(src@);
                }
                Some(HeaderName { text })
            },
            None => None,
        }
    }

    /// The bytes of the name.
    pub fn as_bytes(&self) -> (bytes: &[u8])
        ensures
            bytes@ == self@,
            is_header_name(bytes@),
            lowercase(bytes@) == bytes@,
    {
        proof {
            use_type_invariant(self);
        }
        self.text.as_slice()
    }
}

impl Clone for HeaderName {
    fn clone(&self) -> (copy: Self)
        ensures
            copy@ == self@,
    {
        proof {
            use_type_invariant(self);
        }
        HeaderName { text: self.text.clone() }
    }
}

} // verus!
