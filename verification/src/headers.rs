//! Operations on the pair of header maps, and their HTTP/1.x wire form.
//!
//! The casing map and the value map are only ever changed together, one
//! spelling beside one value, so that they can be walked in lock-step.

use crate::bytes_specs::bytes_contents;
use crate::bytes_specs::put_slice;
use crate::error::BError;
use crate::error::Error;
use crate::error::ErrorType;
use crate::fields::HeaderName;
use crate::header_model::aligned;
use crate::header_model::appended;
use crate::header_model::distinct_names;
use crate::header_model::first_item;
use crate::header_model::flat;
use crate::header_model::has_name;
use crate::header_model::inserted;
use crate::header_model::lemma_aligned_flat;
use crate::header_model::lemma_append_keeps_aligned;
use crate::header_model::lemma_appended_distinct;
use crate::header_model::lemma_insert_keeps_aligned;
use crate::header_model::lemma_inserted_distinct;
use crate::header_model::lemma_remove_keeps_aligned;
use crate::header_model::lemma_removed_distinct;
use crate::header_model::removed;
use crate::header_model::Entries;
use crate::header_model::Pairs;
use crate::http_header_support::title_str;
use crate::http_header_support::wire_name;
use crate::http_header_support::IntoCaseHeader;
use crate::http_specs::header_entries;
use crate::http_specs::header_map_append;
use crate::http_specs::header_map_insert;
use crate::http_specs::header_map_keys_len;
use crate::http_specs::header_map_pairs;
use crate::http_specs::header_map_remove;
use crate::http_specs::header_map_with_capacity;
use crate::http_specs::pairs_view;
use crate::http_specs::MAX_HEADER_NAMES;
use crate::immut_str::ImmutStr;
use crate::syntax::is_header_name;
use crate::syntax::lowercase;
use bytes::Bytes;
use http::HeaderMap;
use vstd::prelude::*;
use vstd::string::StringSliceAdditionalSpecFns;

verus! {

/// A map from normalized header names to header values.
pub type HMap = HeaderMap<Bytes>;

/// A map from normalized header names to the spellings of the names.
pub type CaseMap = HeaderMap<Bytes>;

/// Number of headers a map is sized for when the caller gives no hint.
pub const INIT_HEADER_SIZE: usize = 8;

/// Largest number of headers a map is ever sized for up front.
pub const MAX_HEADER_COUNT: usize = 4096;

/// The capacity that a size hint asks for: the hint, or `INIT_HEADER_SIZE`
/// without one, never less than `INIT_HEADER_SIZE` and never more than
/// `MAX_HEADER_COUNT`.
pub open spec fn header_capacity(size_hint: Option<usize>) -> usize {
    match size_hint {
        Some(n) => if n < INIT_HEADER_SIZE {
            INIT_HEADER_SIZE
        } else if n > MAX_HEADER_COUNT {
            MAX_HEADER_COUNT
        } else {
            n
        },
        None => INIT_HEADER_SIZE,
    }
}

/// Clamps a caller's expected header count before it is used to size a map:
/// a small hint must not cause needless growth, and a hostile or
/// miscalculated one must not force a large allocation.
pub fn http_header_map_upper_bound(size_hint: Option<usize>) -> (bound: usize)
    ensures
        bound == header_capacity(size_hint),
        INIT_HEADER_SIZE <= bound <= MAX_HEADER_COUNT,
{
    let wanted: usize = match size_hint {
        Some(n) => n,
        None => INIT_HEADER_SIZE,
    };
    if wanted < INIT_HEADER_SIZE {
        INIT_HEADER_SIZE
    } else if wanted > MAX_HEADER_COUNT {
        MAX_HEADER_COUNT
    } else {
        wanted
    }
}

/// An empty map, sized for the number of headers that `size_hint` asks
/// for.
pub fn empty_header_map(size_hint: Option<usize>) -> (map: HMap)
    ensures
        header_entries(map) == Entries::empty(),
{
    header_map_with_capacity(http_header_map_upper_bound(size_hint))
}

/// Whether both maps can take one more name: `append_header_value` and
/// `insert_header_value` ask for it.
pub fn maps_have_room(name_map: Option<&CaseMap>, value_map: &HMap) -> (room: bool)
    ensures
        room == have_room(
            match name_map {
                Some(m) => Some(header_entries(*m)),
                None => None,
            },
            header_entries(*value_map),
        ),
{
    let names_fit = match name_map {
        Some(m) => header_map_keys_len(m) < MAX_HEADER_NAMES,
        None => true,
    };
    names_fit && header_map_keys_len(value_map) < MAX_HEADER_NAMES
}

/// One header on the wire: the name as it is spelled, `: `, the value, and
/// the line end CR LF.
pub open spec fn header_line(name: Seq<u8>, value: Seq<u8>) -> Seq<u8> {
    name + seq![0x3au8, 0x20u8] + value + seq![0x0du8, 0x0au8]
}

/// The lines of a walk over the value map beside a walk over the casing
/// map: each value under the spelling at the same step.
pub open spec fn cased_lines(cases: Pairs, values: Pairs) -> Seq<u8>
    decreases values.len(),
{
    if values.len() == 0 {
        Seq::empty()
    } else {
        cased_lines(cases.drop_last(), values.drop_last()) + header_line(
            cases.last().1,
            values.last().1,
        )
    }
}

/// The lines of a walk over the value map alone: each value under the
/// spelling that `wire_name` gives its name.
pub open spec fn titled_lines(values: Pairs) -> Seq<u8>
    decreases values.len(),
{
    if values.len() == 0 {
        Seq::empty()
    } else {
        titled_lines(values.drop_last()) + header_line(
            wire_name(values.last().0),
            values.last().1,
        )
    }
}

/// The header block of a collection: one line for each value, in the order
/// in which the value map is walked, spelled as the casing map records it
/// where there is one. No empty line ends the block.
pub open spec fn wire_block(casing: Option<Entries>, values: Entries) -> Seq<u8> {
    match casing {
        Some(c) => cased_lines(flat(c), flat(values)),
        None => titled_lines(flat(values)),
    }
}

/// Whether both maps have room for one more name.
pub open spec fn have_room(casing: Option<Entries>, values: Entries) -> bool {
    &&& values.len() < MAX_HEADER_NAMES
    &&& casing matches Some(c) ==> c.len() < MAX_HEADER_NAMES
}

/// Whether a collection is sound: no name stands twice in the value map,
/// and the casing map, where there is one, is in lock-step with it.
pub open spec fn well_paired(casing: Option<Entries>, values: Entries) -> bool {
    &&& distinct_names(values)
    &&& casing matches Some(c) ==> aligned(c, values)
}

/// Appends `value` under the name that `name` spells, and the spelling
/// beside it in the casing map. Other values of the name stay. Returns
/// whether the name had values. A spelling that is no header name is
/// refused, and nothing is changed.
#[inline]
pub fn append_header_value<N: IntoCaseHeader>(
    name_map: Option<&mut CaseMap>,
    value_map: &mut HMap,
    name: N,
    value: Bytes,
) -> (res: Result<bool, BError>)
    requires
        header_entries(*old(value_map)).len() < MAX_HEADER_NAMES,
        name_map matches Some(m) ==> header_entries(*m).len() < MAX_HEADER_NAMES,
    ensures
        res is Ok == is_header_name(name.case_bytes()),
        res matches Ok(existed) ==> {
            &&& existed == has_name(header_entries(*old(value_map)), lowercase(name.case_bytes()))
            &&& header_entries(*final(value_map)) == appended(
                header_entries(*old(value_map)),
                lowercase(name.case_bytes()),
                bytes_contents(value),
            )
            &&& name_map matches Some(m) ==> header_entries(*final(m)) == appended(
                header_entries(*m),
                lowercase(name.case_bytes()),
                name.case_bytes(),
            )
        },
        res matches Err(e) ==> {
            &&& e.is_explained(ErrorType::InvalidHTTPHeader, "invalid http header name"@)
            &&& header_entries(*final(value_map)) == header_entries(*old(value_map))
            &&& name_map matches Some(m) ==> header_entries(*final(m)) == header_entries(*m)
        },
        distinct_names(header_entries(*old(value_map))) ==> distinct_names(
            header_entries(*final(value_map)),
        ),
        name_map matches Some(m) ==> (aligned(header_entries(*m), header_entries(*old(value_map)))
            && distinct_names(header_entries(*old(value_map))) ==> aligned(
            header_entries(*final(m)),
            header_entries(*final(value_map)),
        )),
{
    let case_header_name = name.into_case_header_name();
    let header_name = match HeaderName::from_bytes(case_header_name.as_slice()) {
        Some(n) => n,
        None => {
            return Err(
                Error::explain(
                    ErrorType::InvalidHTTPHeader,
                    ImmutStr::Static("invalid http header name"),
                ),
            );
        },
    };
    proof {
        let key = lowercase(name.case_bytes());
        let values = header_entries(*old(value_map));
        if distinct_names(values) {
            lemma_appended_distinct(values, key, bytes_contents(value));
        }
    }
    if let Some(name_map) = name_map {
        proof {
            let values = header_entries(*old(value_map));
            if aligned(header_entries(*name_map), values) && distinct_names(values) {
                lemma_append_keeps_aligned(
                    header_entries(*name_map),
                    values,
                    lowercase(name.case_bytes()),
                    name.case_bytes(),
                    bytes_contents(value),
                );
            }
        }
        header_map_append(name_map, header_name.as_bytes(), case_header_name.into_bytes());
    }
    Ok(header_map_append(value_map, header_name.as_bytes(), value))
}

/// Puts `value` in place of all values of the name that `name` spells, and
/// the spelling in place of all spellings of it. The other names keep
/// their places. Returns whether the name had values. A spelling that is
/// no header name is refused, and nothing is changed.
#[inline]
pub fn insert_header_value<N: IntoCaseHeader>(
    name_map: Option<&mut CaseMap>,
    value_map: &mut HMap,
    name: N,
    value: Bytes,
) -> (res: Result<bool, BError>)
    requires
        header_entries(*old(value_map)).len() < MAX_HEADER_NAMES,
        name_map matches Some(m) ==> header_entries(*m).len() < MAX_HEADER_NAMES,
    ensures
        res is Ok == is_header_name(name.case_bytes()),
        res matches Ok(existed) ==> {
            &&& existed == has_name(header_entries(*old(value_map)), lowercase(name.case_bytes()))
            &&& header_entries(*final(value_map)) == inserted(
                header_entries(*old(value_map)),
                lowercase(name.case_bytes()),
                bytes_contents(value),
            )
            &&& name_map matches Some(m) ==> header_entries(*final(m)) == inserted(
                header_entries(*m),
                lowercase(name.case_bytes()),
                name.case_bytes(),
            )
        },
        res matches Err(e) ==> {
            &&& e.is_explained(ErrorType::InvalidHTTPHeader, "invalid http header name"@)
            &&& header_entries(*final(value_map)) == header_entries(*old(value_map))
            &&& name_map matches Some(m) ==> header_entries(*final(m)) == header_entries(*m)
        },
        distinct_names(header_entries(*old(value_map))) ==> distinct_names(
            header_entries(*final(value_map)),
        ),
        name_map matches Some(m) ==> (aligned(header_entries(*m), header_entries(*old(value_map)))
            && distinct_names(header_entries(*old(value_map))) ==> aligned(
            header_entries(*final(m)),
            header_entries(*final(value_map)),
        )),
{
    let case_header_name = name.into_case_header_name();
    let header_name = match HeaderName::from_bytes(case_header_name.as_slice()) {
        Some(n) => n,
        None => {
            return Err(
                Error::explain(
                    ErrorType::InvalidHTTPHeader,
                    ImmutStr::Static("invalid http header name"),
                ),
            );
        },
    };
    proof {
        let key = lowercase(name.case_bytes());
        let values = header_entries(*old(value_map));
        if distinct_names(values) {
            lemma_inserted_distinct(values, key, bytes_contents(value));
        }
    }
    if let Some(name_map) = name_map {
        proof {
            let values = header_entries(*old(value_map));
            if aligned(header_entries(*name_map), values) && distinct_names(values) {
                lemma_insert_keeps_aligned(
                    header_entries(*name_map),
                    values,
                    lowercase(name.case_bytes()),
                    name.case_bytes(),
                    bytes_contents(value),
                );
            }
        }
        header_map_insert(name_map, header_name.as_bytes(), case_header_name.into_bytes());
    }
    Ok(header_map_insert(value_map, header_name.as_bytes(), value).is_some())
}

/// Drops all values of the name that `name` spells in any casing, and all
/// spellings of it. Returns the first of the values, or nothing where the
/// name had none; then nothing is changed.
#[inline]
pub fn remove_header(name_map: Option<&mut CaseMap>, value_map: &mut HMap, name: &str) -> (taken:
    Option<Bytes>)
    ensures
        is_header_name(name.spec_bytes()) ==> {
            &&& header_entries(*final(value_map)) == removed(
                header_entries(*old(value_map)),
                lowercase(name.spec_bytes()),
            )
            &&& name_map matches Some(m) ==> header_entries(*final(m)) == removed(
                header_entries(*m),
                lowercase(name.spec_bytes()),
            )
            &&& taken is Some == has_name(
                header_entries(*old(value_map)),
                lowercase(name.spec_bytes()),
            )
            &&& taken matches Some(b) ==> Some(bytes_contents(b)) == first_item(
                header_entries(*old(value_map)),
                lowercase(name.spec_bytes()),
            )
        },
        !is_header_name(name.spec_bytes()) ==> {
            &&& header_entries(*final(value_map)) == header_entries(*old(value_map))
            &&& name_map matches Some(m) ==> header_entries(*final(m)) == header_entries(*m)
            &&& taken is None
        },
        distinct_names(header_entries(*old(value_map))) ==> {
            &&& distinct_names(header_entries(*final(value_map)))
            &&& is_header_name(name.spec_bytes()) ==> !has_name(
                header_entries(*final(value_map)),
                lowercase(name.spec_bytes()),
            )
        },
        name_map matches Some(m) ==> (aligned(header_entries(*m), header_entries(*old(value_map)))
            && distinct_names(header_entries(*old(value_map))) ==> aligned(
            header_entries(*final(m)),
            header_entries(*final(value_map)),
        )),
{
    proof {
        let key = lowercase(name.spec_bytes());
        let values = header_entries(*old(value_map));
        if distinct_names(values) {
            lemma_removed_distinct(values, key);
        }
    }
    if let Some(name_map) = name_map {
        proof {
            let values = header_entries(*old(value_map));
            if aligned(header_entries(*name_map), values) && distinct_names(values) {
                lemma_remove_keeps_aligned(
                    header_entries(*name_map),
                    values,
                    lowercase(name.spec_bytes()),
                );
            }
        }
        header_map_remove(name_map, name);
    }
    header_map_remove(value_map, name)
}

/// Writes the header block of a collection behind what `buf` holds: for
/// each value a line `name: value` that ends in CR LF. With a casing map
/// the name is spelled as recorded there, the two maps being walked in
/// lock-step; without one, in title case where the name is well known and
/// in its normalized form otherwise.
#[inline]
pub fn header_to_h1_write(key_map: Option<&CaseMap>, value_map: &HMap, buf: &mut Vec<u8>)
    requires
        key_map matches Some(k) ==> aligned(header_entries(*k), header_entries(*value_map)),
    ensures
        final(buf)@ == old(buf)@ + wire_block(
            match key_map {
                Some(k) => Some(header_entries(*k)),
                None => None,
            },
            header_entries(*value_map),
        ),
{
    let values = header_map_pairs(value_map);
    let ghost start = buf@;
    let ghost flat_values = flat(header_entries(*value_map));
    if let Some(key_map) = key_map {
        let cases = header_map_pairs(key_map);
        let ghost flat_cases = flat(header_entries(*key_map));
        proof {
            lemma_aligned_flat(header_entries(*key_map), header_entries(*value_map));
        }
        let mut i: usize = 0;
        while i < values.len()
            invariant
                i <= values.len(),
                cases.len() == values.len(),
                pairs_view(cases@) == flat_cases,
                pairs_view(values@) == flat_values,
                buf@ == start + cased_lines(flat_cases.take(i as int), flat_values.take(i as int)),
            decreases values.len() - i,
        {
            proof {
                let n = i as int;
                assert(flat_cases.take(n + 1).drop_last() =~= flat_cases.take(n));
                assert(flat_values.take(n + 1).drop_last() =~= flat_values.take(n));
                assert(flat_cases.take(n + 1).last() == flat_cases[n]);
                assert(flat_values.take(n + 1).last() == flat_values[n]);
                assert(pairs_view(cases@)[n] == (cases@[n].0@, cases@[n].1@));
                assert(pairs_view(values@)[n] == (values@[n].0@, values@[n].1@));
            }
            let ghost before = buf@;
            put_slice(buf, cases[i].1.as_slice());
            put_slice(buf, ": ".as_bytes());
            put_slice(buf, values[i].1.as_slice());
            put_slice(buf, "\r\n".as_bytes());
            proof {
                lemma_separators();
                assert(buf@ =~= before + header_line(cases@[i as int].1@, values@[i as int].1@));
            }
            i += 1;
        }
        proof {
            assert(flat_cases.take(values.len() as int) =~= flat_cases);
            assert(flat_values.take(values.len() as int) =~= flat_values);
        }
    } else {
        let mut i: usize = 0;
        while i < values.len()
            invariant
                i <= values.len(),
                pairs_view(values@) == flat_values,
                buf@ == start + titled_lines(flat_values.take(i as int)),
            decreases values.len() - i,
        {
            proof {
                let n = i as int;
                assert(flat_values.take(n + 1).drop_last() =~= flat_values.take(n));
                assert(flat_values.take(n + 1).last() == flat_values[n]);
                assert(pairs_view(values@)[n] == (values@[n].0@, values@[n].1@));
            }
            let ghost before = buf@;
            let name = values[i].0.as_slice();
            let title_header: &[u8] = match title_str(name) {
                Some(t) => t.as_bytes(),
                None => name,
            };
            put_slice(buf, title_header);
            put_slice(buf, ": ".as_bytes());
            put_slice(buf, values[i].1.as_slice());
            put_slice(buf, "\r\n".as_bytes());
            proof {
                lemma_separators();
                assert(buf@ =~= before + header_line(
                    wire_name(values@[i as int].0@),
                    values@[i as int].1@,
                ));
            }
            i += 1;
        }
        proof {
            assert(flat_values.take(values.len() as int) =~= flat_values);
        }
    }
}

/// The bytes of the separator `: ` and of the line end.
proof fn lemma_separators()
    ensures
        ": ".spec_bytes() == seq![0x3au8, 0x20u8],
        "\r\n".spec_bytes() == seq![0x0du8, 0x0au8],
{
    reveal_strlit(": ");
    reveal_strlit("\r\n");
    assert(": "@ =~= seq![':', ' ']);
    assert("\r\n"@ =~= seq!['\r', '\n']);
    vstd::utf8::is_ascii_chars_encode_utf8(": "@);
    vstd::utf8::is_ascii_chars_encode_utf8("\r\n"@);
    assert(": ".spec_bytes() =~= seq![0x3au8, 0x20u8]);
    assert("\r\n".spec_bytes() =~= seq![0x0du8, 0x0au8]);
}

} // verus!
