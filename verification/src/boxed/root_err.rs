//! The payload of an error that wraps nothing.

use crate::backtrace::{Backtrace, EntryView};
use vstd::prelude::*;

verus! {

/// A root error: a message with a backtrace and no wrapped source.
pub struct RootErr {
    pub display: String,
    pub backtrace: Backtrace,
}

impl RootErr {
    /// Wraps a root message, with an empty backtrace.
    pub fn new(display: String) -> (r: Self)
        ensures
            r.display@ == display@,
            r.backtrace@ =~= Seq::<EntryView>::empty(),
            r.backtrace.wf(),
    {
        RootErr { display, backtrace: Backtrace::new() }
    }
}

} // verus!
