//! The head of a response: status code, version and headers, with the
//! spelling of each header name.

use crate::bytes_specs::bytes_contents;
use crate::error::BError;
use crate::error::Error;
use crate::error::ErrorType;
use crate::fields::StatusCode;
use crate::fields::Version;
use crate::header_model::appended;
use crate::header_model::distinct_names;
use crate::header_model::first_item;
use crate::header_model::has_name;
use crate::header_model::inserted;
use crate::header_model::removed;
use crate::header_model::Entries;
use crate::headers::append_header_value;
use crate::headers::empty_header_map;
use crate::headers::have_room;
use crate::headers::header_to_h1_write;
use crate::headers::insert_header_value;
use crate::headers::maps_have_room;
use crate::headers::remove_header;
use crate::headers::well_paired;
use crate::headers::wire_block;
use crate::headers::CaseMap;
use crate::headers::HMap;
use crate::http_header_support::IntoCaseHeader;
use crate::http_specs::checked_header_value;
use crate::http_specs::header_entries;
use crate::http_specs::header_map_clone;
use crate::http_specs::header_map_keys_len;
use crate::immut_str::ImmutStr;
use crate::syntax::is_header_name;
use crate::syntax::is_header_value;
use crate::syntax::is_status_code;
use crate::syntax::lowercase;
use bytes::Bytes;
use vstd::prelude::*;
use vstd::string::StringSliceAdditionalSpecFns;

verus! {

/// The parts of a response head that callers may read and replace freely.
#[derive(Debug)]
pub struct RespParts {
    /// The status of the response
    pub status: StatusCode,
    /// The version of the protocol
    pub version: Version,
    /// The header values, under their normalized names
    pub headers: HMap,
}

/// The head of a response.
///
/// It keeps the spelling in which each header name was given, unless it was
/// built without.
#[derive(Debug)]
pub struct ResponseHeader {
    base: RespParts,
    header_name_map: Option<CaseMap>,
}

impl AsRef<RespParts> for ResponseHeader {
    fn as_ref(&self) -> (parts: &RespParts)
        ensures
            *parts == self.parts(),
    {
        &self.base
    }
}

/// A response head of the given parts, without a casing map.
impl From<RespParts> for ResponseHeader {
    fn from(value: RespParts) -> (resp: ResponseHeader)
        ensures
            resp.parts() == value,
            resp.casing() is None,
            distinct_names(header_entries(value.headers)) ==> resp.wf(),
    {
        Self { base: value, header_name_map: None }
    }
}

impl vstd::std_specs::convert::FromSpecImpl<RespParts> for ResponseHeader {
    open spec fn obeys_from_spec() -> bool {
        true
    }

    open spec fn from_spec(value: RespParts) -> ResponseHeader {
        ResponseHeader::of_parts(value)
    }
}

/// The status, version and header values of a response head.
impl From<ResponseHeader> for RespParts {
    fn from(value: ResponseHeader) -> (parts: RespParts)
        ensures
            parts == value.parts(),
    {
        value.base
    }
}

impl vstd::std_specs::convert::FromSpecImpl<ResponseHeader> for RespParts {
    open spec fn obeys_from_spec() -> bool {
        true
    }

    open spec fn from_spec(value: ResponseHeader) -> RespParts {
        value.parts()
    }
}

impl ResponseHeader {
    /// The status, version and header values.
    pub closed spec fn parts(&self) -> RespParts {
        self.base
    }

    /// The response head of the given parts, without a casing map.
    pub closed spec fn of_parts(parts: RespParts) -> ResponseHeader {
        ResponseHeader { base: parts, header_name_map: None }
    }

    /// What the value map holds.
    pub open spec fn headers(&self) -> Entries {
        header_entries(self.parts().headers)
    }

    /// What the casing map holds, where there is one.
    pub closed spec fn casing(&self) -> Option<Entries> {
        match self.header_name_map {
            Some(m) => Some(header_entries(m)),
            None => None,
        }
    }

    /// Whether the head is sound: no header name stands twice, and the
    /// casing map, where there is one, is in lock-step with the value map.
    /// `build` and `build_no_case` make a sound head, and every method keeps
    /// it sound.
    pub open spec fn wf(&self) -> bool {
        well_paired(self.casing(), self.headers())
    }

    /// Whether one more header name can be taken.
    pub open spec fn spec_has_room(&self) -> bool {
        have_room(self.casing(), self.headers())
    }

    /// Whether two heads differ in their headers at most.
    pub open spec fn same_line(&self, other: &Self) -> bool {
        &&& self.parts().status == other.parts().status
        &&& self.parts().version == other.parts().version
    }

    /// Whether two heads hold the same headers, spelled the same.
    pub open spec fn same_headers(&self, other: &Self) -> bool {
        &&& self.headers() == other.headers()
        &&& self.casing() == other.casing()
    }

    fn new(size_hint: Option<usize>) -> (resp: Self)
        ensures
            resp.parts().status@ == 200,
            resp.parts().version == Version::Http11,
            resp.headers() == Entries::empty(),
            resp.casing() == Some(Entries::empty()),
    {
        let mut resp_header = Self::new_no_case(size_hint);
        resp_header.header_name_map = Some(
            empty_header_map(size_hint),
        );
        resp_header
    }

    fn new_no_case(size_hint: Option<usize>) -> (resp: Self)
        ensures
            resp.parts().status@ == 200,
            resp.parts().version == Version::Http11,
            resp.headers() == Entries::empty(),
            resp.casing() is None,
    {
        let base = RespParts {
            status: StatusCode::ok(),
            version: Version::Http11,
            headers: empty_header_map(size_hint),
        };
        ResponseHeader { base, header_name_map: None }
    }

    /// A response head with the given status code, that keeps the spelling
    /// of header names. The code must be from 100 to 999.
    pub fn build(code: u16, size_hint: Option<usize>) -> (res: Result<Self, BError>)
        ensures
            res is Ok == is_status_code(code),
            res matches Ok(resp) ==> {
                &&& resp.parts().status@ == code
                &&& resp.parts().version == Version::Http11
                &&& resp.headers() == Entries::empty()
                &&& resp.casing() == Some(Entries::empty())
                &&& resp.wf()
            },
            res matches Err(e) ==> e.is_explained(ErrorType::InvalidHTTPHeader, "invalid status"@),
    {
        let mut resp = Self::new(size_hint);
        resp.base.status = match StatusCode::from_u16(code) {
            Some(status) => status,
            None => {
                return Err(
                    Error::explain(
                        ErrorType::InvalidHTTPHeader,
                        ImmutStr::Static("invalid status"),
                    ),
                );
            },
        };
        Ok(resp)
    }

    /// A response head with the given status code, that keeps no spelling
    /// of header names. The code must be from 100 to 999.
    pub fn build_no_case(code: u16, size_hint: Option<usize>) -> (res: Result<Self, BError>)
        ensures
            res is Ok == is_status_code(code),
            res matches Ok(resp) ==> {
                &&& resp.parts().status@ == code
                &&& resp.parts().version == Version::Http11
                &&& resp.headers() == Entries::empty()
                &&& resp.casing() is None
                &&& resp.wf()
            },
            res matches Err(e) ==> e.is_explained(ErrorType::InvalidHTTPHeader, "invalid status"@),
    {
        let mut resp = Self::new_no_case(size_hint);
        resp.base.status = match StatusCode::from_u16(code) {
            Some(status) => status,
            None => {
                return Err(
                    Error::explain(
                        ErrorType::InvalidHTTPHeader,
                        ImmutStr::Static("invalid status"),
                    ),
                );
            },
        };
        Ok(resp)
    }

    /// Appends a header. Other values under the same name stay, and the
    /// name's spelling is recorded beside the value. Returns whether the
    /// name had values. A value or a name that is not valid is refused, and
    /// nothing is changed.
    pub fn append_header<N: IntoCaseHeader>(&mut self, name: N, value: &[u8]) -> (res: Result<
        bool,
        BError,
    >)
        requires
            old(self).has_room(),
        ensures
            res is Ok == (is_header_value(value@) && is_header_name(name.case_bytes())),
            res matches Ok(existed) ==> {
                &&& existed == has_name(old(self).headers(), lowercase(name.case_bytes()))
                &&& final(self).headers() == appended(
                    old(self).headers(),
                    lowercase(name.case_bytes()),
                    value@,
                )
                &&& final(self).casing() == match old(self).casing() {
                    Some(c) => Some(appended(c, lowercase(name.case_bytes()), name.case_bytes())),
                    None => None,
                }
            },
            res matches Err(e) ==> {
                &&& final(self).same_headers(old(self))
                &&& e.is_explained(
                    ErrorType::InvalidHTTPHeader,
                    if is_header_value(value@) {
                        "invalid http header name"@
                    } else {
                        " invalid value while append"@
                    },
                )
            },
            final(self).same_line(old(self)),
            old(self).wf() ==> final(self).wf(),
    {
        let header_value = match checked_header_value(value) {
            Some(v) => v,
            None => {
                return Err(
                    Error::explain(
                        ErrorType::InvalidHTTPHeader,
                        ImmutStr::Static(" invalid value while append"),
                    ),
                );
            },
        };
        append_header_value(
            self.header_name_map.as_mut(),
            &mut self.base.headers,
            name,
            header_value,
        )
    }

    /// Inserts a header: unlike `append_header`, the value takes the place
    /// of all values under the same name, in any casing, and the spelling
    /// the place of all spellings. Returns whether the name had values. A
    /// value or a name that is not valid is refused, and nothing is changed.
    pub fn insert_header<N: IntoCaseHeader>(&mut self, name: N, value: &[u8]) -> (res: Result<
        bool,
        BError,
    >)
        requires
            old(self).has_room(),
        ensures
            res is Ok == (is_header_value(value@) && is_header_name(name.case_bytes())),
            res matches Ok(existed) ==> {
                &&& existed == has_name(old(self).headers(), lowercase(name.case_bytes()))
                &&& final(self).headers() == inserted(
                    old(self).headers(),
                    lowercase(name.case_bytes()),
                    value@,
                )
                &&& final(self).casing() == match old(self).casing() {
                    Some(c) => Some(inserted(c, lowercase(name.case_bytes()), name.case_bytes())),
                    None => None,
                }
            },
            res matches Err(e) ==> {
                &&& final(self).same_headers(old(self))
                &&& e.is_explained(
                    ErrorType::InvalidHTTPHeader,
                    if is_header_value(value@) {
                        "invalid http header name"@
                    } else {
                        " invalid value while insert"@
                    },
                )
            },
            final(self).same_line(old(self)),
            old(self).wf() ==> final(self).wf(),
    {
        let header_value = match checked_header_value(value) {
            Some(v) => v,
            None => {
                return Err(
                    Error::explain(
                        ErrorType::InvalidHTTPHeader,
                        ImmutStr::Static(" invalid value while insert"),
                    ),
                );
            },
        };
        insert_header_value(
            self.header_name_map.as_mut(),
            &mut self.base.headers,
            name,
            header_value,
        )
    }

    /// Removes all values and spellings of a header name, given in any
    /// casing. Returns the first of the values, or nothing where the name
    /// had none; then nothing is changed.
    pub fn remove_header(&mut self, name: &str) -> (taken: Option<Bytes>)
        ensures
            is_header_name(name.spec_bytes()) ==> {
                &&& final(self).headers() == removed(
                    old(self).headers(),
                    lowercase(name.spec_bytes()),
                )
                &&& final(self).casing() == match old(self).casing() {
                    Some(c) => Some(removed(c, lowercase(name.spec_bytes()))),
                    None => None,
                }
                &&& taken is Some == has_name(old(self).headers(), lowercase(name.spec_bytes()))
                &&& taken matches Some(b) ==> Some(bytes_contents(b)) == first_item(
                    old(self).headers(),
                    lowercase(name.spec_bytes()),
                )
            },
            !is_header_name(name.spec_bytes()) ==> {
                &&& final(self).same_headers(old(self))
                &&& taken is None
            },
            final(self).same_line(old(self)),
            old(self).wf() ==> final(self).wf(),
            old(self).wf() && is_header_name(name.spec_bytes()) ==> !has_name(
                final(self).headers(),
                lowercase(name.spec_bytes()),
            ),
    {
        remove_header(self.header_name_map.as_mut(), &mut self.base.headers, name)
    }

    /// Writes the headers behind what `buf` holds, in their HTTP/1.x form:
    /// a line `name: value` and CR LF for each, and no empty line at the
    /// end.
    pub fn header_to_h1_write(&self, buf: &mut Vec<u8>)
        requires
            self.wf(),
        ensures
            final(buf)@ == old(buf)@ + wire_block(self.casing(), self.headers()),
    {
        header_to_h1_write(self.header_name_map.as_ref(), &self.base.headers, buf)
    }

    /// Sets the status of the response. A code that is not from 100 to 999
    /// is refused, and the status stays.
    pub fn set_status(&mut self, status: u16) -> (res: Result<(), BError>)
        ensures
            res is Ok == is_status_code(status),
            res is Ok ==> final(self).parts().status@ == status,
            res matches Err(e) ==> {
                &&& e.is_explained(ErrorType::InvalidHTTPHeader, "invalid status"@)
                &&& final(self).parts().status == old(self).parts().status
            },
            final(self).parts().version == old(self).parts().version,
            final(self).same_headers(old(self)),
    {
        match StatusCode::from_u16(status) {
            Some(status) => {
                self.base.status = status;
                Ok(())
            },
            None => Err(
                Error::explain(ErrorType::InvalidHTTPHeader, ImmutStr::Static("invalid status")),
            ),
        }
    }

    /// Sets the version of the protocol.
    pub fn set_version(&mut self, version: Version)
        ensures
            final(self).parts().version == version,
            final(self).parts().status == old(self).parts().status,
            final(self).same_headers(old(self)),
    {
        self.base.version = version
    }

    /// A copy of the status, version and header values, that shares
    /// nothing with this head.
    pub fn as_own_parts(&self) -> (parts: RespParts)
        ensures
            parts.status == self.parts().status,
            parts.version == self.parts().version,
            header_entries(parts.headers) == self.headers(),
    {
        clone_resp_parts(&self.base)
    }

    /// The number of header names held.
    pub fn keys_len(&self) -> (n: usize)
        ensures
            n == self.headers().len(),
    {
        header_map_keys_len(&self.base.headers)
    }

    /// Whether one more header name can be taken: `append_header` and
    /// `insert_header` ask for it.
    #[verifier::when_used_as_spec(spec_has_room)]
    pub fn has_room(&self) -> (room: bool)
        ensures
            room == self.spec_has_room(),
    {
        maps_have_room(self.header_name_map.as_ref(), &self.base.headers)
    }
}

impl Clone for ResponseHeader {
    fn clone(&self) -> (copy: Self)
        ensures
            copy.same_line(self),
            copy.same_headers(self),
            self.wf() ==> copy.wf(),
    {
        Self {
            base: self.as_own_parts(),
            header_name_map: match &self.header_name_map {
                Some(m) => Some(header_map_clone(m)),
                None => None,
            },
        }
    }
}

/// A copy of `me` that shares nothing with it.
pub(crate) fn clone_resp_parts(me: &RespParts) -> (parts: RespParts)
    ensures
        parts.status == me.status,
        parts.version == me.version,
        header_entries(parts.headers) == header_entries(me.headers),
{
    RespParts { status: me.status, version: me.version, headers: header_map_clone(&me.headers) }
}

} // verus!
