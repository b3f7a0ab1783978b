//! What this crate takes on trust of the `http` crate.
//!
//! Nothing here is proved: each contract restates what the named function
//! of `http` does, as its source shows it. A header map is spoken of
//! through `header_entries`, in the terms of `header_model`.

use crate::bytes_specs::bytes_contents;
use crate::header_model::appended;
use crate::header_model::first_item;
use crate::header_model::flat;
use crate::header_model::has_name;
use crate::header_model::inserted;
use crate::header_model::removed;
use crate::header_model::Entries;
use crate::header_model::Pairs;
use crate::syntax::is_header_name;
use crate::syntax::is_header_value;
use crate::syntax::is_status_code;
use crate::syntax::is_token;
use crate::syntax::lowercase;
use crate::syntax::path_of;
use crate::syntax::shown_target;
use bytes::Bytes;
use http::HeaderMap;
use vstd::prelude::*;
use vstd::string::StringSliceAdditionalSpecFns;
use vstd::utf8::encode_utf8;

verus! {

/// `http::HeaderMap`, of which the verifier sees nothing but
/// `header_entries`.
#[verifier::external_type_specification]
#[verifier::external_body]
#[verifier::reject_recursive_types(T)]
pub struct ExHeaderMap<T>(http::HeaderMap<T>);

/// Number of names below which a header map takes one more header without
/// fail. `HeaderMap` refuses to grow only when its index table has reached
/// 32768 slots and it holds at least a fifth of that many names, 6554.
pub const MAX_HEADER_NAMES: usize = 4096;

/// Largest capacity that a header map can be made with: a third more must
/// fit in 32768 slots.
pub const MAX_HEADER_MAP_CAPACITY: usize = 24576;

/// What a header map holds: one group for each name, in the order in which
/// the map is walked, each with the items under that name, oldest first.
pub uninterp spec fn header_entries(map: HeaderMap<Bytes>) -> Seq<(Seq<u8>, Seq<Seq<u8>>)>;

/// Whether `Uri::builder().path_and_query(..).build()` accepts a text as a
/// request target.
pub uninterp spec fn target_accepted(text: Seq<u8>) -> bool;

/// `HeaderMap::with_capacity`: an empty map. It panics where the capacity
/// asks for more than 32768 slots.
#[verifier::external_body]
pub(crate) fn header_map_with_capacity(capacity: usize) -> (map: HeaderMap<Bytes>)
    requires
        capacity <= MAX_HEADER_MAP_CAPACITY,
    ensures
        header_entries(map) == Entries::empty(),
{
    HeaderMap::with_capacity(capacity)
}

/// `HeaderMap::keys_len`: the number of names that the map holds.
#[verifier::external_body]
pub(crate) fn header_map_keys_len(map: &HeaderMap<Bytes>) -> (n: usize)
    ensures
        n == header_entries(*map).len(),
{
    map.keys_len()
}

/// `HeaderMap::append` under the name that `HeaderName::from_bytes` makes
/// of `name`: the item goes behind those that the name has, or the name
/// goes behind all others with this one item. Returns whether the map held
/// the name.
#[verifier::external_body]
pub(crate) fn header_map_append(map: &mut HeaderMap<Bytes>, name: &[u8], item: Bytes) -> (existed:
    bool)
    requires
        is_header_name(name@),
        header_entries(*old(map)).len() < MAX_HEADER_NAMES,
    ensures
        header_entries(*final(map)) == appended(
            header_entries(*old(map)),
            lowercase(name@),
            bytes_contents(item),
        ),
        existed == has_name(header_entries(*old(map)), lowercase(name@)),
{
    match http::HeaderName::from_bytes(name) {
        Ok(key) => map.append(key, item),
        Err(_) => false,
    }
}

/// `HeaderMap::insert` under the name that `HeaderName::from_bytes` makes
/// of `name`: the item takes the place of all that the name has, where the
/// name stands, or the name goes behind all others with this one item.
/// Returns the first of the items that the name had.
#[verifier::external_body]
pub(crate) fn header_map_insert(map: &mut HeaderMap<Bytes>, name: &[u8], item: Bytes) -> (previous:
    Option<Bytes>)
    requires
        is_header_name(name@),
        header_entries(*old(map)).len() < MAX_HEADER_NAMES,
    ensures
        header_entries(*final(map)) == inserted(
            header_entries(*old(map)),
            lowercase(name@),
            bytes_contents(item),
        ),
        previous is Some == has_name(header_entries(*old(map)), lowercase(name@)),
        previous matches Some(b) ==> Some(bytes_contents(b)) == first_item(
            header_entries(*old(map)),
            lowercase(name@),
        ),
{
    match http::HeaderName::from_bytes(name) {
        Ok(key) => map.insert(key, item),
        Err(_) => None,
    }
}

/// `HeaderMap::remove` with a `&str` key: the name is looked up in lower
/// case; its group leaves and the last group takes its place. Returns the
/// first of the items that the name had. A key that is no header name finds
/// nothing.
#[verifier::external_body]
pub(crate) fn header_map_remove(map: &mut HeaderMap<Bytes>, name: &str) -> (taken: Option<Bytes>)
    ensures
        is_header_name(name.spec_bytes()) ==> {
            &&& header_entries(*final(map)) == removed(
                header_entries(*old(map)),
                lowercase(name.spec_bytes()),
            )
            &&& taken is Some == has_name(header_entries(*old(map)), lowercase(name.spec_bytes()))
            &&& taken matches Some(b) ==> Some(bytes_contents(b)) == first_item(
                header_entries(*old(map)),
                lowercase(name.spec_bytes()),
            )
        },
        !is_header_name(name.spec_bytes()) ==> {
            &&& header_entries(*final(map)) == header_entries(*old(map))
            &&& taken is None
        },
{
    map.remove(name)
}

/// The names and items that a vector of pairs holds.
pub open spec fn pairs_view(pairs: Seq<(Vec<u8>, Vec<u8>)>) -> Pairs {
    Seq::new(pairs.len(), |i: int| (pairs[i].0@, pairs[i].1@))
}

/// `HeaderMap::iter`, each pair copied out: the name and the item of every
/// step of the walk.
#[verifier::external_body]
pub(crate) fn header_map_pairs(map: &HeaderMap<Bytes>) -> (pairs: Vec<(Vec<u8>, Vec<u8>)>)
    ensures
        pairs_view(pairs@) == flat(header_entries(*map)),
{
    map.iter().map(|(name, item)| (name.as_str().as_bytes().to_vec(), item.to_vec())).collect()
}

/// `<HeaderMap<T> as Clone>::clone`: a map that holds the same.
#[verifier::external_body]
pub(crate) fn header_map_clone(map: &HeaderMap<Bytes>) -> (copy: HeaderMap<Bytes>)
    ensures
        header_entries(copy) == header_entries(*map),
{
    map.clone()
}

/// `HeaderName::from_bytes`: accepts a token of at most 65535 bytes and
/// gives it in lower case.
#[verifier::external_body]
pub(crate) fn normalized_header_name(src: &[u8]) -> (name: Option<Vec<u8>>)
    ensures
        name is Some == is_header_name(src@),
        name matches Some(n) ==> n@ == lowercase(src@),
{
    match http::HeaderName::from_bytes(src) {
        Ok(n) => Some(n.as_str().as_bytes().to_vec()),
        Err(_) => None,
    }
}

/// `HeaderValue::from_bytes`: accepts bytes from 32 on but 127, and the
/// tab, and keeps them as they are.
#[verifier::external_body]
pub(crate) fn checked_header_value(src: &[u8]) -> (value: Option<Bytes>)
    ensures
        value is Some == is_header_value(src@),
        value matches Some(b) ==> bytes_contents(b) == src@,
{
    match http::HeaderValue::from_bytes(src) {
        Ok(v) => Some(Bytes::copy_from_slice(v.as_bytes())),
        Err(_) => None,
    }
}

/// `Method::from_bytes`: accepts a token, and keeps it as it is.
#[verifier::external_body]
pub(crate) fn checked_method(src: &[u8]) -> (method: Option<Vec<u8>>)
    ensures
        method is Some == is_token(src@),
        method matches Some(m) ==> m@ == src@,
{
    match http::Method::from_bytes(src) {
        Ok(m) => Some(m.as_str().as_bytes().to_vec()),
        Err(_) => None,
    }
}

/// `StatusCode::from_u16`: accepts 100 to 999.
#[verifier::external_body]
pub(crate) fn checked_status(code: u16) -> (status: Option<u16>)
    ensures
        status == if is_status_code(code) {
            Some(code)
        } else {
            None::<u16>
        },
{
    match http::StatusCode::from_u16(code) {
        Ok(s) => Some(s.as_u16()),
        Err(_) => None,
    }
}

/// `Uri::builder().path_and_query(text).build()`, with what
/// `PathAndQuery::as_str` and `PathAndQuery::path` show of the result: the
/// text up to its fragment, and of that the part before the first `?`;
/// each is `/` where it would be empty.
#[verifier::external_body]
pub(crate) fn parsed_target(text: &str) -> (shown: Option<(String, String)>)
    ensures
        shown is Some == target_accepted(text.spec_bytes()),
        shown matches Some(s) ==> {
            &&& encode_utf8(s.0@) == shown_target(text.spec_bytes())
            &&& encode_utf8(s.1@) == path_of(shown_target(text.spec_bytes()))
        },
{
    match http::Uri::builder().path_and_query(text).build() {
        Ok(uri) => match uri.path_and_query() {
            Some(pq) => Some((pq.as_str().to_string(), pq.path().to_string())),
            None => None,
        },
        Err(_) => None,
    }
}

} // verus!
