//! The head of a request: method, target, version and headers, with the
//! spelling of each header name and the exact bytes of a target that is
//! not valid UTF-8.

use crate::bytes_specs::bytes_contents;
use crate::error::BError;
use crate::error::Error;
use crate::error::ErrorType;
use crate::fields::Method;
use crate::fields::Uri;
use crate::fields::Version;
use crate::header_model::appended;
use crate::header_model::distinct_names;
use crate::header_model::first_item;
use crate::header_model::has_name;
use crate::header_model::inserted;
use crate::header_model::removed;
use crate::header_model::Entries;
use crate::headers::append_header_value;
use crate::headers::empty_header_map;
use crate::headers::have_room;
use crate::headers::header_to_h1_write;
use crate::headers::insert_header_value;
use crate::headers::maps_have_room;
use crate::headers::remove_header;
use crate::headers::well_paired;
use crate::headers::wire_block;
use crate::headers::CaseMap;
use crate::headers::HMap;
use crate::http_header_support::IntoCaseHeader;
use crate::http_specs::checked_header_value;
use crate::http_specs::header_entries;
use crate::http_specs::header_map_clone;
use crate::http_specs::header_map_keys_len;
use crate::http_specs::target_accepted;
use crate::immut_str::ImmutStr;
use crate::std_specs::rsplit_once_dot;
use crate::std_specs::str_from_utf8;
use crate::std_specs::string_from_utf8_lossy;
use crate::std_specs::string_into_boxed_str;
use crate::std_specs::utf8_lossy;
use crate::syntax::is_header_name;
use crate::syntax::is_header_value;
use crate::syntax::is_token;
use crate::syntax::lemma_shown_target_without_fragment;
use crate::syntax::lowercase;
use crate::syntax::shown_target;
use bytes::Bytes;
use vstd::prelude::*;
use vstd::slice::slice_to_vec;
use vstd::string::StringExecFns;
use vstd::string::StringSliceAdditionalSpecFns;
use vstd::utf8::decode_utf8;
use vstd::utf8::encode_utf8;
use vstd::utf8::valid_utf8;

verus! {

/// The parts of a request head that callers may read and replace freely.
#[derive(Debug)]
pub struct ReqParts {
    /// The method of the request
    pub method: Method,
    /// The target of the request
    pub uri: Uri,
    /// The version of the protocol
    pub version: Version,
    /// The header values, under their normalized names
    pub headers: HMap,
}

/// The head of a request.
///
/// It keeps the spelling in which each header name was given, unless it was
/// built without, and the exact bytes of the target where these are not
/// valid UTF-8.
#[derive(Debug)]
pub struct RequestHeader {
    base: ReqParts,
    header_name_map: Option<CaseMap>,
    // holds the target's bytes only if they are not valid UTF-8
    raw_path_fallback: Vec<u8>,
}

/// The text of which the structured target is made: the bytes of the target
/// where they are valid UTF-8, their lossy decoding otherwise.
pub open spec fn target_text(path: Seq<u8>) -> Seq<u8> {
    if valid_utf8(path) {
        path
    } else {
        encode_utf8(utf8_lossy(path))
    }
}

/// The explanation of a target that was refused.
pub open spec fn invalid_target_context(path: Seq<u8>) -> Seq<char> {
    if valid_utf8(path) {
        "invalid uri "@ + decode_utf8(path)
    } else {
        "invalid url "@ + utf8_lossy(path)
    }
}

/// Whether `i` is the place of the last `.` of `path`.
pub open spec fn is_last_dot(path: Seq<char>, i: int) -> bool {
    &&& 0 <= i < path.len()
    &&& path[i] == '.'
    &&& forall|j: int| i < j < path.len() ==> path[j] != '.'
}

/// What stands behind the last `.` of a path, where the path holds one.
pub open spec fn file_extension(path: Seq<char>) -> Option<Seq<char>> {
    if path.contains('.') {
        let i = choose|i: int| is_last_dot(path, i);
        Some(path.subrange(i + 1, path.len() as int))
    } else {
        None
    }
}

impl AsRef<ReqParts> for RequestHeader {
    fn as_ref(&self) -> (parts: &ReqParts)
        ensures
            *parts == self.parts(),
    {
        &self.base
    }
}

impl core::ops::Deref for RequestHeader {
    type Target = ReqParts;

    fn deref(&self) -> (parts: &ReqParts)
        ensures
            *parts == self.parts(),
    {
        &self.base
    }
}

impl RequestHeader {
    /// The method, target, version and header values.
    pub closed spec fn parts(&self) -> ReqParts {
        self.base
    }

    /// What the value map holds.
    pub open spec fn headers(&self) -> Entries {
        header_entries(self.parts().headers)
    }

    /// What the casing map holds, where there is one.
    pub closed spec fn casing(&self) -> Option<Entries> {
        match self.header_name_map {
            Some(m) => Some(header_entries(m)),
            None => None,
        }
    }

    /// The exact bytes of the target, kept where they are not valid UTF-8;
    /// empty otherwise.
    pub closed spec fn raw_path_fallback(&self) -> Seq<u8> {
        self.raw_path_fallback@
    }

    /// Whether the head is sound: no header name stands twice, and the
    /// casing map, where there is one, is in lock-step with the value map.
    /// `build` and `build_no_case` make a sound head, and every method keeps
    /// it sound.
    pub open spec fn wf(&self) -> bool {
        well_paired(self.casing(), self.headers())
    }

    /// Whether one more header name can be taken.
    pub open spec fn spec_has_room(&self) -> bool {
        have_room(self.casing(), self.headers())
    }

    /// The target as it goes on the wire: the exact bytes where they were
    /// kept, the text of the structured target otherwise.
    pub open spec fn raw_path_bytes(&self) -> Seq<u8> {
        if self.raw_path_fallback().len() > 0 {
            self.raw_path_fallback()
        } else {
            self.parts().uri@
        }
    }

    /// Whether the head is as `build` or `build_no_case` makes it of a
    /// method and a target: no headers yet, HTTP/1.1, the structured target
    /// read from the target's text, and the target's bytes kept where they
    /// are not valid UTF-8.
    pub open spec fn built_from(&self, method: Seq<u8>, path: Seq<u8>) -> bool {
        &&& self.parts().method@ == method
        &&& self.parts().uri@ == shown_target(target_text(path))
        &&& self.parts().uri.has_path_of_text()
        &&& self.parts().version == Version::Http11
        &&& self.headers() == Entries::empty()
        &&& self.raw_path_fallback() == if valid_utf8(path) {
            Seq::<u8>::empty()
        } else {
            path
        }
    }

    /// Whether two heads differ in their headers at most.
    pub open spec fn same_line(&self, other: &Self) -> bool {
        &&& self.parts().method == other.parts().method
        &&& self.parts().uri == other.parts().uri
        &&& self.parts().version == other.parts().version
        &&& self.raw_path_fallback() == other.raw_path_fallback()
    }

    /// Whether two heads hold the same headers, spelled the same.
    pub open spec fn same_headers(&self, other: &Self) -> bool {
        &&& self.headers() == other.headers()
        &&& self.casing() == other.casing()
    }

    fn new_no_case(size_hint: Option<usize>) -> (req: Self)
        ensures
            req.parts().method@ == seq![0x47u8, 0x45u8, 0x54u8],
            req.parts().uri@ == seq![0x2fu8],
            req.parts().version == Version::Http11,
            req.headers() == Entries::empty(),
            req.casing() is None,
            req.raw_path_fallback() == Seq::<u8>::empty(),
    {
        let base = ReqParts {
            method: Method::get(),
            uri: Uri::root(),
            version: Version::Http11,
            headers: empty_header_map(size_hint),
        };
        RequestHeader { base, header_name_map: None, raw_path_fallback: Vec::new() }
    }

    /// A request head with the given method and target, that keeps the
    /// spelling of header names.
    ///
    /// The target need not be valid UTF-8. The method must be a token, and
    /// the text of the target must be accepted as a path and query.
    pub fn build(method: &[u8], path: &[u8], size_hint: Option<usize>) -> (res: Result<
        Self,
        BError,
    >)
        ensures
            res is Ok == (is_token(method@) && target_accepted(target_text(path@))),
            res matches Ok(req) ==> {
                &&& req.built_from(method@, path@)
                &&& req.casing() == Some(Entries::empty())
                &&& req.wf()
            },
            res matches Err(e) ==> e.is_explained(
                ErrorType::InvalidHTTPHeader,
                if is_token(method@) {
                    invalid_target_context(path@)
                } else {
                    "invalid method"@
                },
            ),
    {
        let mut req = Self::build_no_case(method, path, size_hint)?;
        req.header_name_map = Some(
            empty_header_map(size_hint),
        );
        Ok(req)
    }

    /// A request head with the given method and target, that keeps no
    /// spelling of header names.
    pub fn build_no_case(method: &[u8], path: &[u8], size_hint: Option<usize>) -> (res: Result<
        Self,
        BError,
    >)
        ensures
            res is Ok == (is_token(method@) && target_accepted(target_text(path@))),
            res matches Ok(req) ==> {
                &&& req.built_from(method@, path@)
                &&& req.casing() is None
                &&& req.wf()
            },
            res matches Err(e) ==> e.is_explained(
                ErrorType::InvalidHTTPHeader,
                if is_token(method@) {
                    invalid_target_context(path@)
                } else {
                    "invalid method"@
                },
            ),
    {
        let mut req = Self::new_no_case(size_hint);
        req.base.method = match Method::from_bytes(method) {
            Some(m) => m,
            None => {
                return Err(
                    Error::explain(
                        ErrorType::InvalidHTTPHeader,
                        ImmutStr::Static("invalid method"),
                    ),
                );
            },
        };
        if let Some(p) = str_from_utf8(path) {
            let uri = match Uri::from_path_and_query(p) {
                Some(uri) => uri,
                None => {
                    proof {
                        vstd::utf8::encode_utf8_decode_utf8(p@);
                    }
                    let context = "invalid uri ".to_owned().concat(p);
                    return Err(
                        Error::explain(
                            ErrorType::InvalidHTTPHeader,
                            ImmutStr::Owned(string_into_boxed_str(context)),
                        ),
                    );
                },
            };
            req.base.uri = uri;
            // the fallback stays empty: the target is held once
        } else {
            // a lossy, valid text of the target, for reading only
            let lossy_str = string_from_utf8_lossy(path);
            let uri = match Uri::from_path_and_query(lossy_str.as_str()) {
                Some(uri) => uri,
                None => {
                    let context = "invalid url ".to_owned().concat(lossy_str.as_str());
                    return Err(
                        Error::explain(
                            ErrorType::InvalidHTTPHeader,
                            ImmutStr::Owned(string_into_boxed_str(context)),
                        ),
                    );
                },
            };
            req.base.uri = uri;
            req.raw_path_fallback = slice_to_vec(path);
        }
        Ok(req)
    }

    /// Appends a header. Other values under the same name stay, and the
    /// name's spelling is recorded beside the value. Returns whether the
    /// name had values. A value or a name that is not valid is refused, and
    /// nothing is changed.
    pub fn append_header<N: IntoCaseHeader>(&mut self, name: N, value: &[u8]) -> (res: Result<
        bool,
        BError,
    >)
        requires
            old(self).has_room(),
        ensures
            res is Ok == (is_header_value(value@) && is_header_name(name.case_bytes())),
            res matches Ok(existed) ==> {
                &&& existed == has_name(old(self).headers(), lowercase(name.case_bytes()))
                &&& final(self).headers() == appended(
                    old(self).headers(),
                    lowercase(name.case_bytes()),
                    value@,
                )
                &&& final(self).casing() == match old(self).casing() {
                    Some(c) => Some(appended(c, lowercase(name.case_bytes()), name.case_bytes())),
                    None => None,
                }
            },
            res matches Err(e) ==> {
                &&& final(self).same_headers(old(self))
                &&& e.is_explained(
                    ErrorType::InvalidHTTPHeader,
                    if is_header_value(value@) {
                        "invalid http header name"@
                    } else {
                        "invalid value to append to request header"@
                    },
                )
            },
            final(self).same_line(old(self)),
            old(self).wf() ==> final(self).wf(),
    {
        let header_value = match checked_header_value(value) {
            Some(v) => v,
            None => {
                return Err(
                    Error::explain(
                        ErrorType::InvalidHTTPHeader,
                        ImmutStr::Static("invalid value to append to request header"),
                    ),
                );
            },
        };
        append_header_value(
            self.header_name_map.as_mut(),
            &mut self.base.headers,
            name,
            header_value,
        )
    }

    /// Inserts a header: unlike `append_header`, the value takes the place
    /// of all values under the same name, in any casing, and the spelling
    /// the place of all spellings. Returns whether the name had values. A
    /// value or a name that is not valid is refused, and nothing is changed.
    pub fn insert_header<N: IntoCaseHeader>(&mut self, name: N, value: &[u8]) -> (res: Result<
        bool,
        BError,
    >)
        requires
            old(self).has_room(),
        ensures
            res is Ok == (is_header_value(value@) && is_header_name(name.case_bytes())),
            res matches Ok(existed) ==> {
                &&& existed == has_name(old(self).headers(), lowercase(name.case_bytes()))
                &&& final(self).headers() == inserted(
                    old(self).headers(),
                    lowercase(name.case_bytes()),
                    value@,
                )
                &&& final(self).casing() == match old(self).casing() {
                    Some(c) => Some(inserted(c, lowercase(name.case_bytes()), name.case_bytes())),
                    None => None,
                }
            },
            res matches Err(e) ==> {
                &&& final(self).same_headers(old(self))
                &&& e.is_explained(
                    ErrorType::InvalidHTTPHeader,
                    if is_header_value(value@) {
                        "invalid http header name"@
                    } else {
                        "invalid value to insert to request header"@
                    },
                )
            },
            final(self).same_line(old(self)),
            old(self).wf() ==> final(self).wf(),
    {
        let header_value = match checked_header_value(value) {
            Some(v) => v,
            None => {
                return Err(
                    Error::explain(
                        ErrorType::InvalidHTTPHeader,
                        ImmutStr::Static("invalid value to insert to request header"),
                    ),
                );
            },
        };
        insert_header_value(
            self.header_name_map.as_mut(),
            &mut self.base.headers,
            name,
            header_value,
        )
    }

    /// Removes all values and spellings of a header name, given in any
    /// casing. Returns the first of the values, or nothing where the name
    /// had none; then nothing is changed.
    pub fn remove_header(&mut self, name: &str) -> (taken: Option<Bytes>)
        ensures
            is_header_name(name.spec_bytes()) ==> {
                &&& final(self).headers() == removed(
                    old(self).headers(),
                    lowercase(name.spec_bytes()),
                )
                &&& final(self).casing() == match old(self).casing() {
                    Some(c) => Some(removed(c, lowercase(name.spec_bytes()))),
                    None => None,
                }
                &&& taken is Some == has_name(old(self).headers(), lowercase(name.spec_bytes()))
                &&& taken matches Some(b) ==> Some(bytes_contents(b)) == first_item(
                    old(self).headers(),
                    lowercase(name.spec_bytes()),
                )
            },
            !is_header_name(name.spec_bytes()) ==> {
                &&& final(self).same_headers(old(self))
                &&& taken is None
            },
            final(self).same_line(old(self)),
            old(self).wf() ==> final(self).wf(),
            old(self).wf() && is_header_name(name.spec_bytes()) ==> !has_name(
                final(self).headers(),
                lowercase(name.spec_bytes()),
            ),
    {
        remove_header(self.header_name_map.as_mut(), &mut self.base.headers, name)
    }

    /// Writes the headers behind what `buf` holds, in their HTTP/1.x form:
    /// a line `name: value` and CR LF for each, and no empty line at the
    /// end.
    pub fn header_to_h1_write(&self, buf: &mut Vec<u8>)
        requires
            self.wf(),
        ensures
            final(buf)@ == old(buf)@ + wire_block(self.casing(), self.headers()),
    {
        header_to_h1_write(self.header_name_map.as_ref(), &self.base.headers, buf)
    }

    /// Sets the method of the request.
    pub fn set_method(&mut self, method: Method)
        ensures
            final(self).parts().method == method,
            final(self).parts().uri == old(self).parts().uri,
            final(self).parts().version == old(self).parts().version,
            final(self).raw_path_fallback() == old(self).raw_path_fallback(),
            final(self).same_headers(old(self)),
    {
        self.base.method = method;
    }

    /// Sets the target of the request. Bytes kept of an earlier target are
    /// dropped: the new target is the only one.
    pub fn set_uri(&mut self, uri: Uri)
        ensures
            final(self).parts().uri == uri,
            final(self).raw_path_fallback() == Seq::<u8>::empty(),
            final(self).raw_path_bytes() == uri@,
            final(self).parts().method == old(self).parts().method,
            final(self).parts().version == old(self).parts().version,
            final(self).same_headers(old(self)),
    {
        self.base.uri = uri;
        self.raw_path_fallback = Vec::new();
    }

    /// The target as it goes on the wire: its exact bytes where they are
    /// not valid UTF-8, the path and query of the structured target
    /// otherwise.
    pub fn raw_path(&mut self) -> (path: &[u8])
        ensures
            path@ == old(self).raw_path_bytes(),
            *final(self) == *old(self),
    {
        if !self.raw_path_fallback.is_empty() {
            self.raw_path_fallback.as_slice()
        } else {
            self.base.uri.as_str().as_bytes()
        }
    }

    /// What stands behind the last `.` of the structured target's path.
    pub fn uri_file_extension(&self) -> (ext: Option<&str>)
        ensures
            match ext {
                Some(e) => file_extension(self.parts().uri.path_text()) == Some(e@),
                None => file_extension(self.parts().uri.path_text()) is None,
            },
    {
        let path = self.base.uri.path();
        let (_, ext) = rsplit_once_dot(path)?;
        proof {
            lemma_file_extension(path@, ext@);
        }
        Some(ext)
    }

    /// Sets the version of the protocol.
    pub fn set_version(&mut self, version: Version)
        ensures
            final(self).parts().version == version,
            final(self).parts().method == old(self).parts().method,
            final(self).parts().uri == old(self).parts().uri,
            final(self).raw_path_fallback() == old(self).raw_path_fallback(),
            final(self).same_headers(old(self)),
    {
        self.base.version = version;
    }

    /// A copy of the method, target, version and header values, that
    /// shares nothing with this head.
    pub fn as_owned_parts(&self) -> (parts: ReqParts)
        ensures
            parts.method@ == self.parts().method@,
            parts.uri@ == self.parts().uri@,
            parts.uri.path_text() == self.parts().uri.path_text(),
            parts.version == self.parts().version,
            header_entries(parts.headers) == self.headers(),
    {
        clone_req_parts(&self.base)
    }

    /// The number of header names held.
    pub fn keys_len(&self) -> (n: usize)
        ensures
            n == self.headers().len(),
    {
        header_map_keys_len(&self.base.headers)
    }

    /// Whether one more header name can be taken: `append_header` and
    /// `insert_header` ask for it.
    #[verifier::when_used_as_spec(spec_has_room)]
    pub fn has_room(&self) -> (room: bool)
        ensures
            room == self.spec_has_room(),
    {
        maps_have_room(self.header_name_map.as_ref(), &self.base.headers)
    }
}

impl Clone for RequestHeader {
    fn clone(&self) -> (copy: Self)
        ensures
            copy.parts().method@ == self.parts().method@,
            copy.parts().uri@ == self.parts().uri@,
            copy.parts().uri.path_text() == self.parts().uri.path_text(),
            copy.parts().version == self.parts().version,
            copy.raw_path_fallback() == self.raw_path_fallback(),
            copy.same_headers(self),
            copy.raw_path_bytes() == self.raw_path_bytes(),
            self.wf() ==> copy.wf(),
    {
        Self {
            base: self.as_owned_parts(),
            header_name_map: match &self.header_name_map {
                Some(m) => Some(header_map_clone(m)),
                None => None,
            },
            raw_path_fallback: self.raw_path_fallback.clone(),
        }
    }
}

/// A request head of the given parts, without a casing map.
impl From<ReqParts> for RequestHeader {
    fn from(parts: ReqParts) -> (req: RequestHeader)
        ensures
            req.parts() == parts,
            req.casing() is None,
            req.raw_path_fallback() == Seq::<u8>::empty(),
            distinct_names(header_entries(parts.headers)) ==> req.wf(),
    {
        Self { base: parts, header_name_map: None, raw_path_fallback: Vec::new() }
    }
}

/// What `from` makes is stated by `from` itself.
impl vstd::std_specs::convert::FromSpecImpl<ReqParts> for RequestHeader {
    open spec fn obeys_from_spec() -> bool {
        false
    }

    open spec fn from_spec(parts: ReqParts) -> RequestHeader {
        arbitrary()
    }
}

/// The method, target, version and header values of a request head.
impl From<RequestHeader> for ReqParts {
    fn from(value: RequestHeader) -> (parts: ReqParts)
        ensures
            parts == value.parts(),
    {
        value.base
    }
}

impl vstd::std_specs::convert::FromSpecImpl<RequestHeader> for ReqParts {
    open spec fn obeys_from_spec() -> bool {
        true
    }

    open spec fn from_spec(value: RequestHeader) -> ReqParts {
        value.parts()
    }
}

/// A copy of `me` that shares nothing with it.
pub(crate) fn clone_req_parts(me: &ReqParts) -> (parts: ReqParts)
    ensures
        parts.method@ == me.method@,
        parts.uri@ == me.uri@,
        parts.uri.path_text() == me.uri.path_text(),
        parts.version == me.version,
        header_entries(parts.headers) == header_entries(me.headers),
{
    ReqParts {
        method: me.method.clone(),
        uri: me.uri.clone(),
        version: me.version,
        headers: header_map_clone(&me.headers),
    }
}

/// Where a text is `before`, a `.` and `after`, and `after` holds no `.`,
/// `after` is the text's extension.
proof fn lemma_file_extension(path: Seq<char>, after: Seq<char>)
    requires
        exists|before: Seq<char>| path == before + seq!['.'] + after,
        !after.contains('.'),
    ensures
        file_extension(path) == Some(after),
{
    let before = choose|before: Seq<char>| path == before + seq!['.'] + after;
    let at = before.len() as int;
    assert(path[at] == '.');
    assert forall|j: int| at < j < path.len() implies path[j] != '.' by {
        assert(path[j] == after[j - at - 1]);
    }
    assert(is_last_dot(path, at));
    let i = choose|i: int| is_last_dot(path, i);
    assert(is_last_dot(path, i));
    assert(i == at);
    assert(path.subrange(at + 1, path.len() as int) =~= after);
}

/// A request head built of a target that is valid UTF-8, is not empty and
/// holds no `#` gives back, as its raw path, the very bytes of the target.
pub proof fn lemma_raw_path_round_trip(req: RequestHeader, method: Seq<u8>, path: Seq<u8>)
    requires
        req.built_from(method, path),
        valid_utf8(path),
        path.len() > 0,
        !path.contains(0x23u8),
    ensures
        req.raw_path_bytes() == path,
{
    lemma_shown_target_without_fragment(path);
}

/// A request head built of a target that is not valid UTF-8 gives back, as
/// its raw path, the very bytes of the target; and the text of its
/// structured target, which is valid UTF-8, is never those bytes.
pub proof fn lemma_raw_path_of_non_utf8(req: RequestHeader, method: Seq<u8>, path: Seq<u8>)
    requires
        req.built_from(method, path),
        !valid_utf8(path),
    ensures
        req.raw_path_bytes() == path,
        req.parts().uri@ != path,
{
    req.parts().uri.lemma_text_is_utf8();
}

} // verus!
