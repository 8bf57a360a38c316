//! The payload of an error that wraps a foreign error.

use crate::backtrace::{Backtrace, EntryView, MessageView};
use crate::boxed::ErasedError;
use vstd::prelude::*;

verus! {

/// A foreign error together with the backtrace opened for it.
pub struct StdErr {
    pub source: ErasedError,
    pub backtrace: Backtrace,
}

impl StdErr {
    /// Wraps a foreign error, opening a backtrace whose head records the
    /// error's type name and display text.
    pub fn new(source: ErasedError) -> (r: Self)
        ensures
            r.source == source,
            r.backtrace@ =~= seq![
                EntryView::Message(
                    MessageView { type_label: source.type_label@, display: source.display@ },
                ),
            ],
            r.backtrace.wf(),
    {
        let backtrace = Backtrace::with_head(source.type_label.as_str(), source.display.clone());
        StdErr { source, backtrace }
    }
}

} // verus!
