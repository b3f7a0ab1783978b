//! Case-preserving HTTP request and response headers for a gateway.
//!
//! A header collection keeps two ordered multimaps in lock-step: one from the
//! normalized header name to its values, one from the normalized name to the
//! spelling in which the name was received. A request additionally keeps the
//! exact bytes of its target when they are not valid UTF-8.
//!
//! Method, target, status code, header names and header values are checked
//! by the `http` crate, and the maps are `http::HeaderMap`s. What is assumed
//! of `http`, of `bytes` and of a few functions of the standard library is
//! gathered in `http_specs`, `bytes_specs` and `std_specs`; everything else
//! is verified against those assumptions. `header_model` holds the model of
//! a header map in which the contracts are stated, with the laws of the
//! pair of maps.

pub mod bytes_specs;
pub mod error;
pub mod fields;
pub mod header_model;
pub mod headers;
pub mod http_header_support;
pub mod http_specs;
pub mod immut_str;
pub mod prelude;
pub mod request;
pub mod response;
pub mod std_specs;
pub mod syntax;

pub use error::BError;
pub use error::Error;
pub use error::ErrorSource;
pub use error::ErrorType;
pub use error::RetryType;
pub use fields::HeaderName;
pub use fields::Method;
pub use fields::StatusCode;
pub use fields::Uri;
pub use fields::Version;
pub use headers::append_header_value;
pub use headers::empty_header_map;
pub use headers::header_to_h1_write;
pub use headers::http_header_map_upper_bound;
pub use headers::insert_header_value;
pub use headers::maps_have_room;
pub use headers::remove_header;
pub use headers::CaseMap;
pub use headers::HMap;
pub use http_header_support::title_header_name;
pub use http_header_support::title_header_name_str;
pub use http_header_support::CaseHttpHeaders;
pub use http_header_support::IntoCaseHeader;
pub use immut_str::ImmutStr;
pub use request::ReqParts;
pub use request::RequestHeader;
pub use response::RespParts;
pub use response::ResponseHeader;
