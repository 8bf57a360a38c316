//! A small handle standing for an interned string.

use vstd::prelude::*;

verus! {

/// The id of an interned string; the all-ones id is the reserved
/// "not yet interned" marker.
#[derive(Debug, Clone, Copy, PartialEq, Eq, Hash, Structural)]
pub struct StrId(pub u32);

impl StrId {
    /// Wraps an index as an id.
    pub fn new(id: usize) -> (r: Self)
        requires
            id < u32::MAX,
        ensures
            r.0 == id,
    {
        StrId(id as u32)
    }

    /// The marker for a slot that holds no id yet.
    pub fn uninit() -> (r: Self)
        ensures
            r.0 == u32::MAX,
    {
        StrId(u32::MAX)
    }

    /// Whether this is the marker.
    pub fn is_uninit(&self) -> (r: bool)
        ensures
            r == (self.0 == u32::MAX),
    {
        self.0 == u32::MAX
    }

    /// The id as an index.
    pub fn inner(&self) -> (r: usize)
        ensures
            r == self.0,
    {
        self.0 as usize
    }
}

} // verus!
