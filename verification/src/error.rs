//! The error that every fallible operation of this crate returns.

use crate::immut_str::ImmutStr;
use vstd::prelude::*;

verus! {

/// An error on the heap, as fallible operations return it.
pub type BError = Box<Error>;

/// What went wrong, who caused it, and whether trying again may help.
#[derive(Debug)]
pub struct Error {
    /// the type of the error
    pub etype: ErrorType,
    /// the source of the error: upstream, downstream or the gateway itself
    pub esource: ErrorSource,
    /// whether the failed operation may be tried again
    pub retry: RetryType,
    /// text that explains the context in which the error occurred
    pub context: Option<ImmutStr>,
}

/// The kinds of error.
#[derive(Debug, PartialEq, Eq, Clone, Structural)]
pub enum ErrorType {
    // connection errors
    ConnectionTimeout,
    ConnectionRefused,
    ConnectNoRoute,
    TLSHandshakeFailure,
    TLSHandshakeTimeout,
    InvalidCert,
    // protocol errors
    InvalidHTTPHeader,
}

/// Who caused an error.
#[derive(Debug)]
pub enum ErrorSource {
    /// The error is caused by the remote server
    Upstream,
    /// The error is caused by the remote client
    Downstream,
    /// The error is caused by the gateway's own logic
    Internal,
    /// The cause is not known
    Unset,
}

/// Whether an operation that failed may be tried again.
#[derive(Debug)]
pub enum RetryType {
    Decide(bool),
    /// try again only if the error came from a reused connection
    ReuseOnly,
}

impl RetryType {
    /// Settles a `ReuseOnly` by whether the connection was reused. A
    /// decision that was made stays.
    pub fn decide_reuse(&mut self, reused: bool)
        ensures
            *final(self) == match *old(self) {
                RetryType::ReuseOnly => RetryType::Decide(reused),
                RetryType::Decide(b) => RetryType::Decide(b),
            },
    {
        if matches!(self, RetryType::ReuseOnly) {
            *self = RetryType::Decide(reused)
        }
    }

    /// The decision. It must have been made.
    pub fn retry(&self) -> (again: bool)
        requires
            self is Decide,
        ensures
            *self == RetryType::Decide(again),
    {
        match self {
            RetryType::Decide(b) => *b,
            RetryType::ReuseOnly => unreached(),
        }
    }
}

impl Error {
    /// Whether this is an error of kind `etype` with no known source, that
    /// is not to be retried, explained by `context`.
    pub open spec fn is_explained(&self, etype: ErrorType, context: Seq<char>) -> bool {
        &&& self.etype == etype
        &&& self.esource is Unset
        &&& self.retry == RetryType::Decide(false)
        &&& self.context matches Some(c) && c@ == context
    }

    /// An error of kind `etype` with no known source, that is not to be
    /// retried, explained by `context`.
    pub fn explain(etype: ErrorType, context: ImmutStr) -> (e: BError)
        ensures
            e.is_explained(etype, context@),
    {
        Box::new(
            Error {
                etype,
                esource: ErrorSource::Unset,
                retry: RetryType::Decide(false),
                context: Some(context),
            },
        )
    }
}

} // verus!
