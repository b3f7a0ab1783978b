//! The spelling of a header name as it was received, and the title-case
//! spelling of the names that are well known.

use crate::bytes_specs::bytes_as_slice;
use crate::bytes_specs::bytes_contents;
use crate::bytes_specs::bytes_copy_from_slice;
use crate::bytes_specs::bytes_from_static;
use crate::fields::HeaderName;
use bytes::Bytes;
use vstd::prelude::*;
use vstd::string::StringSliceAdditionalSpecFns;
use vstd::utf8::encode_utf8;

verus! {

/// The spelling of one header name, byte for byte as it was given. The
/// bytes are not checked here.
#[derive(Debug, Clone)]
pub struct CaseHttpHeaders(Bytes);

impl View for CaseHttpHeaders {
    type V = Seq<u8>;

    closed spec fn view(&self) -> Seq<u8> {
        bytes_contents(self.0)
    }
}

impl CaseHttpHeaders {
    /// The spelling that `name` holds.
    pub fn new(name: String) -> (case: Self)
        ensures
            case@ == encode_utf8(name@),
    {
        CaseHttpHeaders(bytes_copy_from_slice(name.as_str().as_bytes()))
    }

    /// The bytes of the spelling.
    pub fn as_slice(&self) -> (bytes: &[u8])
        ensures
            bytes@ == self@,
    {
        bytes_as_slice(&self.0)
    }

    /// The spelling that `buf` holds.
    pub fn from_slice(buf: &[u8]) -> (case: Self)
        ensures
            case@ == buf@,
    {
        CaseHttpHeaders(bytes_copy_from_slice(buf))
    }

    /// The buffer of the spelling.
    pub(crate) fn into_bytes(self) -> (bytes: Bytes)
        ensures
            bytes_contents(bytes) == self@,
    {
        self.0
    }
}

/// What can serve as the spelling of a header name.
pub trait IntoCaseHeader: Sized {
    /// The bytes of the spelling.
    spec fn case_bytes(&self) -> Seq<u8>;

    /// The spelling.
    fn into_case_header_name(self) -> (case: CaseHttpHeaders)
        ensures
            case@ == self.case_bytes(),
    ;
}

impl IntoCaseHeader for CaseHttpHeaders {
    open spec fn case_bytes(&self) -> Seq<u8> {
        self@
    }

    fn into_case_header_name(self) -> (case: CaseHttpHeaders) {
        self
    }
}

impl IntoCaseHeader for String {
    open spec fn case_bytes(&self) -> Seq<u8> {
        encode_utf8(self@)
    }

    fn into_case_header_name(self) -> (case: CaseHttpHeaders) {
        CaseHttpHeaders::new(self)
    }
}

impl IntoCaseHeader for &'static str {
    open spec fn case_bytes(&self) -> Seq<u8> {
        self.spec_bytes()
    }

    fn into_case_header_name(self) -> (case: CaseHttpHeaders) {
        CaseHttpHeaders(bytes_from_static(self.as_bytes()))
    }
}

/// A normalized name is spelled in title case where it is well known, and
/// as it is otherwise.
impl IntoCaseHeader for HeaderName {
    open spec fn case_bytes(&self) -> Seq<u8> {
        wire_name(self@)
    }

    fn into_case_header_name(self) -> (case: CaseHttpHeaders) {
        CaseHttpHeaders(title_header_name(&self))
    }
}

impl IntoCaseHeader for &HeaderName {
    open spec fn case_bytes(&self) -> Seq<u8> {
        wire_name(self@)
    }

    fn into_case_header_name(self) -> (case: CaseHttpHeaders) {
        CaseHttpHeaders(title_header_name(self))
    }
}

impl IntoCaseHeader for Bytes {
    open spec fn case_bytes(&self) -> Seq<u8> {
        bytes_contents(*self)
    }

    fn into_case_header_name(self) -> (case: CaseHttpHeaders) {
        CaseHttpHeaders(self)
    }
}

/// The title-case spelling of a normalized name that is well known.
pub open spec fn title_case(name: Seq<u8>) -> Option<Seq<u8>> {
    if name == "age".spec_bytes() {
        Some("Age".spec_bytes())
    } else if name == "cache-control".spec_bytes() {
        Some("Cache-Control".spec_bytes())
    } else if name == "connection".spec_bytes() {
        Some("Connection".spec_bytes())
    } else if name == "content-type".spec_bytes() {
        Some("Content-Type".spec_bytes())
    } else if name == "content-encoding".spec_bytes() {
        Some("Content-Encoding".spec_bytes())
    } else if name == "content-length".spec_bytes() {
        Some("Content-Length".spec_bytes())
    } else if name == "date".spec_bytes() {
        Some("Date".spec_bytes())
    } else if name == "transfer-encoding".spec_bytes() {
        Some("Transfer-Encoding".spec_bytes())
    } else if name == "host".spec_bytes() {
        Some("Host".spec_bytes())
    } else if name == "server".spec_bytes() {
        Some("Server".spec_bytes())
    } else {
        None
    }
}

/// The spelling under which a normalized name goes on the wire when none
/// was recorded for it: title case where the name is well known, the name
/// itself otherwise.
pub open spec fn wire_name(name: Seq<u8>) -> Seq<u8> {
    match title_case(name) {
        Some(title) => title,
        None => name,
    }
}

/// Whether two slices hold the same bytes.
pub(crate) fn bytes_eq(a: &[u8], b: &[u8]) -> (same: bool)
    ensures
        same == (a@ == b@),
{
    if a.len() != b.len() {
        return false;
    }
    let mut i: usize = 0;
    while i < a.len()
        invariant
            i <= a.len(),
            a.len() == b.len(),
            forall|j: int| 0 <= j < i ==> a@[j] == b@[j],
        decreases a.len() - i,
    {
        if a[i] != b[i] {
            return false;
        }
        i += 1;
    }
    assert(a@ =~= b@);
    true
}

/// The title-case spelling of a well-known name, as static text.
pub fn title_header_name_str(header_name: &HeaderName) -> (title: Option<&'static str>)
    ensures
        match title {
            Some(t) => title_case(header_name@) == Some(t.spec_bytes()),
            None => title_case(header_name@) is None,
        },
{
    title_str(header_name.as_bytes())
}

/// The title-case spelling of the well-known name that `name` holds in
/// its normalized form.
pub(crate) fn title_str(name: &[u8]) -> (title: Option<&'static str>)
    ensures
        match title {
            Some(t) => title_case(name@) == Some(t.spec_bytes()),
            None => title_case(name@) is None,
        },
{
    if bytes_eq(name, "age".as_bytes()) {
        Some("Age")
    } else if bytes_eq(name, "cache-control".as_bytes()) {
        Some("Cache-Control")
    } else if bytes_eq(name, "connection".as_bytes()) {
        Some("Connection")
    } else if bytes_eq(name, "content-type".as_bytes()) {
        Some("Content-Type")
    } else if bytes_eq(name, "content-encoding".as_bytes()) {
        Some("Content-Encoding")
    } else if bytes_eq(name, "content-length".as_bytes()) {
        Some("Content-Length")
    } else if bytes_eq(name, "date".as_bytes()) {
        Some("Date")
    } else if bytes_eq(name, "transfer-encoding".as_bytes()) {
        Some("Transfer-Encoding")
    } else if bytes_eq(name, "host".as_bytes()) {
        Some("Host")
    } else if bytes_eq(name, "server".as_bytes()) {
        Some("Server")
    } else {
        None
    }
}

/// The spelling under which a normalized name goes on the wire when none
/// was recorded for it.
pub fn title_header_name(header_name: &HeaderName) -> (title: Bytes)
    ensures
        bytes_contents(title) == wire_name(header_name@),
{
    match title_header_name_str(header_name) {
        Some(s) => bytes_from_static(s.as_bytes()),
        None => bytes_copy_from_slice(header_name.as_bytes()),
    }
}

} // verus!
