//! The types that most callers need.

pub use crate::request::RequestHeader;
pub use crate::response::ResponseHeader;
