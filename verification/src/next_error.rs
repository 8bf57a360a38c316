//! An error chain held as plain data.

use crate::location::Location;
use vstd::prelude::*;

verus! {

/// What follows a link of an error chain: another link of this library's
/// kind, a foreign error's display text, or nothing.
pub enum NextError {
    Err2(Box<ChainError>),
    Std(String),
    Nothing,
}

/// One link of an error chain: what the error displayed, where it was
/// recorded, and what it wraps.
pub struct ChainError {
    pub display: String,
    pub location: Location,
    pub next: NextError,
}

impl ChainError {
    /// How many links of this library's kind the chain holds.
    pub open spec fn chain_len(self) -> nat
        decreases self,
    {
        match self.next {
            NextError::Err2(b) => 1 + (*b).chain_len(),
            NextError::Std(_) => 1,
            NextError::Nothing => 1,
        }
    }
}

} // verus!
