//! A string that is never changed once made: static text, or text owned on
//! the heap.

use vstd::prelude::*;

verus! {

/// Text that explains an error. A literal costs nothing to carry; computed
/// text is boxed.
#[derive(Debug, PartialEq, Eq, Clone)]
pub enum ImmutStr {
    Static(&'static str),
    Owned(Box<str>),
}

impl View for ImmutStr {
    type V = Seq<char>;

    open spec fn view(&self) -> Seq<char> {
        match self {
            ImmutStr::Static(s) => s@,
            ImmutStr::Owned(s) => s@,
        }
    }
}

impl ImmutStr {
    /// The text.
    #[inline]
    pub fn as_str(&self) -> (text: &str)
        ensures
            text@ == self@,
    {
        match self {
            ImmutStr::Static(s) => s,
            ImmutStr::Owned(s) => &**s,
        }
    }

    /// Whether the text is owned on the heap.
    pub fn is_owned(&self) -> (owned: bool)
        ensures
            owned == (self is Owned),
    {
        match self {
            ImmutStr::Static(_) => false,
            ImmutStr::Owned(_) => true,
        }
    }
}

} // verus!
