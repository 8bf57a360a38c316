//! A string that is either borrowed for the program's lifetime or owned.

use vstd::prelude::*;

verus! {

/// A borrowed-or-owned string.
pub enum SmallString {
    Borrowed(&'static str),
    Owned(String),
}

impl View for SmallString {
    type V = Seq<char>;

    open spec fn view(&self) -> Seq<char> {
        match self {
            SmallString::Borrowed(s) => s@,
            SmallString::Owned(s) => s@,
        }
    }
}

impl SmallString {
    /// The held characters, wherever they live.
    pub fn as_str(&self) -> (r: &str)
        ensures
            r@ == self@,
    {
        match self {
            SmallString::Borrowed(s) => s,
            SmallString::Owned(s) => s.as_str(),
        }
    }
}

} // verus!
