//! The trait of errors that carry a backtrace.

use crate::backtrace::{pushed_error, pushed_location, Backtrace, EntryView};
use crate::extract::{extract_error_message, full_stack, join_lines};
use crate::location::Location;
use vstd::prelude::*;

verus! {

/// An error that records the messages and locations it passed through.
///
/// `bt` is the abstract value of the error's backtrace, `inv` its
/// well-formedness, and `label_spec` / `message_spec` the type name and
/// display text the error reports of itself.
pub trait Error2 {
    /// The abstract value of the error's backtrace.
    spec fn bt(&self) -> Seq<EntryView>;

    /// The error's well-formedness.
    spec fn inv(&self) -> bool;

    /// The name of the error's type, as it is recorded in backtraces.
    spec fn label_spec(&self) -> Seq<char>;

    /// The text the error displays, as it is recorded in backtraces.
    spec fn message_spec(&self) -> Seq<char>;

    /// The name of the error's type.
    fn type_label(&self) -> (r: String)
        ensures
            r@ == self.label_spec(),
    ;

    /// The text the error displays.
    fn message(&self) -> (r: String)
        ensures
            r@ == self.message_spec(),
    ;

    /// The error's backtrace.
    fn backtrace(&self) -> (r: &Backtrace)
        requires
            self.inv(),
        ensures
            r@ == self.bt(),
            r.wf(),
    ;

    /// Records one more location in the error's backtrace.
    fn backtrace_push_location(&mut self, location: Location)
        requires
            old(self).inv(),
            old(self).bt().len() > 0,
            !location@.is_uninit(),
        ensures
            final(self).inv(),
            final(self).bt() == pushed_location(old(self).bt(), location@),
            final(self).label_spec() == old(self).label_spec(),
            final(self).message_spec() == old(self).message_spec(),
    ;

    /// Records an error message and its location in the backtrace.
    fn backtrace_push_error(&mut self, type_label: &str, display: String, location: Location)
        requires
            old(self).inv(),
            !location@.is_uninit(),
        ensures
            final(self).inv(),
            final(self).bt() == pushed_error(old(self).bt(), type_label@, display@, location@),
            final(self).label_spec() == old(self).label_spec(),
            final(self).message_spec() == old(self).message_spec(),
    ;
}

/// Records that `error` passed through `location`: the error's own type
/// name and display text are recorded, followed by the location.
pub fn push_error<E: Error2>(error: &mut E, location: Location)
    requires
        old(error).inv(),
        !location@.is_uninit(),
    ensures
        final(error).inv(),
        final(error).bt() == pushed_error(
            old(error).bt(),
            old(error).label_spec(),
            old(error).message_spec(),
            location@,
        ),
        final(error).label_spec() == old(error).label_spec(),
        final(error).message_spec() == old(error).message_spec(),
{
    let display = error.message();
    let type_label = error.type_label();
    error.backtrace_push_error(type_label.as_str(), display, location);
}

/// Renders the error's whole backtrace as one newline-separated message.
pub fn error_message<E: Error2>(error: &E) -> (r: String)
    requires
        error.inv(),
    ensures
        r@ == join_lines(full_stack(error.bt()).reverse()),
{
    extract_error_message(error.backtrace())
}

impl<E: Error2> Error2 for Box<E> {
    open spec fn bt(&self) -> Seq<EntryView> {
        (**self).bt()
    }

    open spec fn inv(&self) -> bool {
        (**self).inv()
    }

    open spec fn label_spec(&self) -> Seq<char> {
        (**self).label_spec()
    }

    open spec fn message_spec(&self) -> Seq<char> {
        (**self).message_spec()
    }

    fn type_label(&self) -> (r: String) {
        (**self).type_label()
    }

    fn message(&self) -> (r: String) {
        (**self).message()
    }

    fn backtrace(&self) -> (r: &Backtrace) {
        (**self).backtrace()
    }

    fn backtrace_push_location(&mut self, location: Location) {
        (**self).backtrace_push_location(location);
    }

    fn backtrace_push_error(&mut self, type_label: &str, display: String, location: Location) {
        (**self).backtrace_push_error(type_label, display, location);
    }
}

} // verus!
