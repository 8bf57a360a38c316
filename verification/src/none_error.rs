//! The error that stands for an absent value.

use vstd::prelude::*;

verus! {

/// The error a missing `Option` value turns into.
#[derive(Debug, Clone, Copy, PartialEq, Eq, Structural)]
pub struct NoneError;

impl NoneError {
    /// The text the error displays.
    pub fn message(&self) -> (r: String)
        ensures
            r@ == "NoneError"@,
    {
        "NoneError".to_owned()
    }
}

} // verus!
