//! A ready-made erased error type.
//!
//! A [`BoxedError2`] owns one of three payloads: a root message with
//! nothing wrapped, a foreign error with the backtrace opened for it, or
//! an error of this library's own kind that carries its backtrace itself.

mod root_err;
mod std_err;

pub use root_err::RootErr;
pub use std_err::StdErr;

use crate::backtrace::{pushed_error, pushed_location, Backtrace, EntryView, MessageView};
use crate::error2::Error2;
use crate::error_wrap::ErrorHalfWrap;
use crate::location::{Location, LocationView};
use crate::none_error::NoneError;
use crate::private::ViaFull;
use crate::transform::{MiddleToTarget, SourceToTarget};
use vstd::prelude::*;

verus! {

/// A value of an arbitrary error type, read as what the library reads of
/// it: its type's identity and name, the text it displays, and the
/// backtrace it carries if it is an error of this library's kind.
pub struct ErasedError {
    pub type_code: u64,
    pub type_label: String,
    pub display: String,
    pub backtrace: Backtrace,
}

/// What a [`BoxedError2::downcast`] found: a foreign error and the
/// backtrace kept beside it, or an error that carries its own.
pub enum ErrorKind<E, B> {
    Std { source: E, backtrace: B },
    Err2 { source: E },
}

/// The payload of a [`BoxedError2`].
pub enum ErrSource {
    Root(RootErr),
    Std(StdErr),
    Err2(ErasedError),
}

/// An owned error of any shape, with a backtrace.
pub struct BoxedError2 {
    pub source: ErrSource,
}

/// The type name recorded when a `BoxedError2` itself passes a location.
pub open spec fn boxed_label() -> Seq<char> {
    "error2::BoxedError2"@
}

/// An error handed in to be wrapped: either already boxed, in which case
/// only a location is recorded, or an arbitrary erased error.
pub enum SourceError {
    Boxed(Box<BoxedError2>),
    Erased(ErasedError),
}

impl SourceError {
    /// The handed-in error is sound: a boxed error is well-formed and has
    /// a non-empty backtrace, an erased one a well-formed backtrace.
    pub open spec fn inv(&self) -> bool {
        match self {
            SourceError::Boxed(b) => b.inv() && b.bt().len() > 0,
            SourceError::Erased(e) => e.backtrace.wf(),
        }
    }
}

/// The payloads of `a` and `b` agree on everything but their backtraces.
pub open spec fn same_payload(a: BoxedError2, b: BoxedError2) -> bool {
    match (a.source, b.source) {
        (ErrSource::Root(x), ErrSource::Root(y)) => x.display@ == y.display@,
        (ErrSource::Std(x), ErrSource::Std(y)) => x.source == y.source,
        (ErrSource::Err2(x), ErrSource::Err2(y)) => {
            &&& x.type_code == y.type_code
            &&& x.type_label@ == y.type_label@
            &&& x.display@ == y.display@
        },
        _ => false,
    }
}

/// What wrapping a root message guarantees of the built error.
pub open spec fn from_msg_ens(s: Seq<char>, l: LocationView, r: BoxedError2) -> bool {
    &&& r.source matches ErrSource::Root(root) && root.display@ == s
    &&& r.bt_spec() == pushed_error(Seq::<EntryView>::empty(), boxed_label(), s, l)
    &&& r.inv_spec()
    &&& r.bt_spec().len() > 0
}

/// What wrapping a foreign error guarantees of the built error.
pub open spec fn from_std_ens(source: SourceError, l: LocationView, r: BoxedError2) -> bool {
    &&& r.inv_spec()
    &&& r.bt_spec().len() > 0
    &&& source matches SourceError::Boxed(b) ==> (same_payload(r, *b) && r.bt_spec()
        == pushed_location(b.bt_spec(), l))
    &&& source matches SourceError::Erased(e) ==> (r.source matches ErrSource::Std(s) && s.source
        == e && r.bt_spec() == pushed_error(
        seq![EntryView::Message(MessageView { type_label: e.type_label@, display: e.display@ })],
        boxed_label(),
        e.display@,
        l,
    ))
}

/// What wrapping an error of this library's kind guarantees of the built
/// error.
pub open spec fn from_err2_ens(source: SourceError, l: LocationView, r: BoxedError2) -> bool {
    &&& r.inv_spec()
    &&& r.bt_spec().len() > 0
    &&& source matches SourceError::Boxed(b) ==> (same_payload(r, *b) && r.bt_spec()
        == pushed_location(b.bt_spec(), l))
    &&& source matches SourceError::Erased(e) ==> (r.source matches ErrSource::Err2(own)
        && own.type_code == e.type_code && own.type_label@ == e.type_label@ && own.display@
        == e.display@ && r.bt_spec() == pushed_error(e.backtrace@, boxed_label(), e.display@, l))
}

impl BoxedError2 {
    /// The abstract value of the active backtrace.
    pub open spec fn bt_spec(&self) -> Seq<EntryView> {
        match self.source {
            ErrSource::Root(r) => r.backtrace@,
            ErrSource::Std(s) => s.backtrace@,
            ErrSource::Err2(e) => e.backtrace@,
        }
    }

    /// What the error displays: what its payload displays.
    pub open spec fn display_spec(&self) -> Seq<char> {
        match self.source {
            ErrSource::Root(r) => r.display@,
            ErrSource::Std(s) => s.source.display@,
            ErrSource::Err2(e) => e.display@,
        }
    }

    /// The active backtrace is well-formed.
    pub open spec fn inv_spec(&self) -> bool {
        match self.source {
            ErrSource::Root(r) => r.backtrace.wf(),
            ErrSource::Std(s) => s.backtrace.wf(),
            ErrSource::Err2(e) => e.backtrace.wf(),
        }
    }

    /// Whether the error wraps a value of the type tagged `code`.
    pub open spec fn is_spec(&self, code: u64) -> bool {
        match self.source {
            ErrSource::Root(_) => false,
            ErrSource::Std(s) => s.source.type_code == code,
            ErrSource::Err2(e) => e.type_code == code,
        }
    }

    /// Whether the error is a root error: one that wraps nothing.
    pub fn is_root(&self) -> (r: bool)
        ensures
            r == (self.source is Root),
    {
        match &self.source {
            ErrSource::Root(_) => true,
            _ => false,
        }
    }

    /// Whether the error wraps a value of the type tagged `code`, either
    /// as a foreign error or as an error of this library's kind.
    pub fn is(&self, code: u64) -> (r: bool)
        ensures
            r == self.is_spec(code),
    {
        match &self.source {
            ErrSource::Root(_) => false,
            ErrSource::Std(s) => s.source.type_code == code,
            ErrSource::Err2(e) => e.type_code == code,
        }
    }

    /// Borrows the wrapped value of the type tagged `code`, if that is
    /// what the error wraps.
    pub fn downcast_ref<'a>(&'a self, code: u64) -> (r: Option<
        ErrorKind<&'a ErasedError, &'a Backtrace>,
    >)
        ensures
            r is Some <==> self.is_spec(code),
            self.source matches ErrSource::Std(s) ==> (s.source.type_code == code ==> (r matches
                Some(ErrorKind::Std { source, backtrace }) && *source == s.source && *backtrace
                == s.backtrace)),
            self.source matches ErrSource::Err2(e) ==> (e.type_code == code ==> (r matches Some(
                ErrorKind::Err2 { source },
            ) && *source == e)),
    {
        match &self.source {
            ErrSource::Std(s) => {
                if s.source.type_code == code {
                    Some(ErrorKind::Std { source: &s.source, backtrace: &s.backtrace })
                } else {
                    None
                }
            },
            ErrSource::Err2(e) => {
                if e.type_code == code {
                    Some(ErrorKind::Err2 { source: e })
                } else {
                    None
                }
            },
            ErrSource::Root(_) => None,
        }
    }

    /// Borrows the wrapped value of the type tagged `code` mutably, if
    /// that is what the error wraps.
    pub fn downcast_mut<'a>(&'a mut self, code: u64) -> (r: Option<
        ErrorKind<&'a mut ErasedError, &'a mut Backtrace>,
    >)
        ensures
            r is Some <==> old(self).is_spec(code),
    {
        match &mut self.source {
            ErrSource::Std(s) => {
                if s.source.type_code == code {
                    Some(ErrorKind::Std { source: &mut s.source, backtrace: &mut s.backtrace })
                } else {
                    None
                }
            },
            ErrSource::Err2(e) => {
                if e.type_code == code {
                    Some(ErrorKind::Err2 { source: e })
                } else {
                    None
                }
            },
            ErrSource::Root(_) => None,
        }
    }

    /// Takes the wrapped value of the type tagged `code` out, or hands the
    /// error back unchanged.
    pub fn downcast(self, code: u64) -> (r: Result<ErrorKind<ErasedError, Backtrace>, Self>)
        ensures
            r is Ok <==> self.is_spec(code),
            self.source matches ErrSource::Std(s) ==> (s.source.type_code == code ==> (r matches
                Ok(ErrorKind::Std { source, backtrace }) && source == s.source && backtrace
                == s.backtrace)),
            self.source matches ErrSource::Err2(e) ==> (e.type_code == code ==> (r matches Ok(
                ErrorKind::Err2 { source },
            ) && source == e)),
            !self.is_spec(code) ==> (r matches Err(b) && b == self),
    {
        match self.source {
            ErrSource::Std(s) => {
                if s.source.type_code == code {
                    Ok(ErrorKind::Std { source: s.source, backtrace: s.backtrace })
                } else {
                    Err(BoxedError2 { source: ErrSource::Std(s) })
                }
            },
            ErrSource::Err2(e) => {
                if e.type_code == code {
                    Ok(ErrorKind::Err2 { source: e })
                } else {
                    Err(BoxedError2 { source: ErrSource::Err2(e) })
                }
            },
            ErrSource::Root(r) => Err(BoxedError2 { source: ErrSource::Root(r) }),
        }
    }

    /// Records one more location in the active backtrace, leaving the
    /// payload as it is.
    pub fn record_location(&mut self, location: Location)
        requires
            old(self).inv_spec(),
            old(self).bt_spec().len() > 0,
            !location@.is_uninit(),
        ensures
            final(self).inv_spec(),
            final(self).bt_spec() == pushed_location(old(self).bt_spec(), location@),
            same_payload(*final(self), *old(self)),
    {
        let mut taken = ErrSource::Root(RootErr::new(String::new()));
        core::mem::swap(&mut self.source, &mut taken);
        let updated = match taken {
            ErrSource::Root(mut root) => {
                root.backtrace.push_location(location);
                ErrSource::Root(root)
            },
            ErrSource::Std(mut s) => {
                s.backtrace.push_location(location);
                ErrSource::Std(s)
            },
            ErrSource::Err2(mut e) => {
                e.backtrace.push_location(location);
                ErrSource::Err2(e)
            },
        };
        self.source = updated;
    }

    /// Records an error message and its location in the active backtrace,
    /// leaving the payload as it is.
    pub fn record_error(&mut self, type_label: &str, display: String, location: Location)
        requires
            old(self).inv_spec(),
            !location@.is_uninit(),
        ensures
            final(self).inv_spec(),
            final(self).bt_spec() == pushed_error(
                old(self).bt_spec(),
                type_label@,
                display@,
                location@,
            ),
            same_payload(*final(self), *old(self)),
    {
        let mut taken = ErrSource::Root(RootErr::new(String::new()));
        core::mem::swap(&mut self.source, &mut taken);
        let updated = match taken {
            ErrSource::Root(mut root) => {
                root.backtrace.push_error(type_label, display, location);
                ErrSource::Root(root)
            },
            ErrSource::Std(mut s) => {
                s.backtrace.push_error(type_label, display, location);
                ErrSource::Std(s)
            },
            ErrSource::Err2(mut e) => {
                e.backtrace.push_error(type_label, display, location);
                ErrSource::Err2(e)
            },
        };
        self.source = updated;
    }

    /// Wraps a root message, recording `location`.
    pub fn from_msg_with_location(s: String, location: Location) -> (r: BoxedError2)
        requires
            !location@.is_uninit(),
        ensures
            from_msg_ens(s@, location@, r),
    {
        let mut error = BoxedError2 { source: ErrSource::Root(RootErr::new(s)) };
        let label = error.type_label();
        let display = error.message();
        error.record_error(label.as_str(), display, location);
        error
    }

    /// Wraps an arbitrary root value's message, recording `location`.
    pub fn from_root_with_location(display: String, location: Location) -> (r: BoxedError2)
        requires
            !location@.is_uninit(),
        ensures
            from_msg_ens(display@, location@, r),
    {
        BoxedError2::from_msg_with_location(display, location)
    }

    /// Wraps a foreign error, recording `location`; an error that is
    /// already boxed only has the location recorded.
    pub fn from_std_with_location(source: SourceError, location: Location) -> (r: BoxedError2)
        requires
            source.inv(),
            !location@.is_uninit(),
        ensures
            from_std_ens(source, location@, r),
    {
        match source {
            SourceError::Boxed(b) => {
                let mut e = *b;
                e.record_location(location);
                e
            },
            SourceError::Erased(e) => {
                let mut error = BoxedError2 { source: ErrSource::Std(StdErr::new(e)) };
                let label = error.type_label();
                let display = error.message();
                error.record_error(label.as_str(), display, location);
                error
            },
        }
    }

    /// Wraps an error of this library's kind, recording `location` in the
    /// backtrace the error already carries; an error that is already boxed
    /// only has the location recorded.
    pub fn from_err2_with_location(source: SourceError, location: Location) -> (r: BoxedError2)
        requires
            source.inv(),
            !location@.is_uninit(),
        ensures
            from_err2_ens(source, location@, r),
    {
        match source {
            SourceError::Boxed(b) => {
                let mut e = *b;
                e.record_location(location);
                e
            },
            SourceError::Erased(e) => {
                let mut error = BoxedError2 { source: ErrSource::Err2(e) };
                let label = error.type_label();
                let display = error.message();
                error.record_error(label.as_str(), display, location);
                error
            },
        }
    }
}

impl Error2 for BoxedError2 {
    open spec fn bt(&self) -> Seq<EntryView> {
        self.bt_spec()
    }

    open spec fn inv(&self) -> bool {
        self.inv_spec()
    }

    open spec fn label_spec(&self) -> Seq<char> {
        boxed_label()
    }

    open spec fn message_spec(&self) -> Seq<char> {
        self.display_spec()
    }

    fn type_label(&self) -> (r: String) {
        "error2::BoxedError2".to_owned()
    }

    fn message(&self) -> (r: String) {
        match &self.source {
            ErrSource::Root(root) => root.display.clone(),
            ErrSource::Std(s) => s.source.display.clone(),
            ErrSource::Err2(e) => e.display.clone(),
        }
    }

    fn backtrace(&self) -> (r: &Backtrace) {
        match &self.source {
            ErrSource::Root(root) => &root.backtrace,
            ErrSource::Std(s) => &s.backtrace,
            ErrSource::Err2(e) => &e.backtrace,
        }
    }

    fn backtrace_push_location(&mut self, location: Location) {
        self.record_location(location);
    }

    fn backtrace_push_error(&mut self, type_label: &str, display: String, location: Location) {
        self.record_error(type_label, display, location);
    }
}

/// Wraps a plain message into a root [`BoxedError2`].
pub struct ViaNone(pub String);

impl ErrorHalfWrap<NoneError, BoxedError2> for ViaNone {
    open spec fn half_req(&self, middle: NoneError, l: LocationView) -> bool {
        !l.is_uninit()
    }

    open spec fn half_ens(&self, middle: NoneError, l: LocationView, r: BoxedError2) -> bool {
        from_msg_ens(self.0@, l, r)
    }

    fn half_wrap(self, _middle: NoneError, location: Location) -> (r: BoxedError2) {
        BoxedError2::from_msg_with_location(self.0, location)
    }
}

/// Wraps an arbitrary root value's message into a root [`BoxedError2`].
pub struct ViaRoot(pub String);

impl MiddleToTarget<NoneError, BoxedError2> for ViaRoot {
    open spec fn middle_req(&self, middle: NoneError, l: LocationView) -> bool {
        !l.is_uninit()
    }

    open spec fn middle_ens(&self, middle: NoneError, l: LocationView, r: BoxedError2) -> bool {
        from_msg_ens(self.0@, l, r)
    }

    fn middle_to_target(self, _middle: NoneError, location: Location) -> (r: BoxedError2) {
        BoxedError2::from_root_with_location(self.0, location)
    }
}

/// Wraps a foreign error into a [`BoxedError2`].
pub struct ViaStd;

impl SourceToTarget<ViaFull, SourceError, BoxedError2> for ViaStd {
    open spec fn req(&self, source: SourceError, l: LocationView) -> bool {
        source.inv() && !l.is_uninit()
    }

    open spec fn ens(&self, source: SourceError, l: LocationView, r: BoxedError2) -> bool {
        from_std_ens(source, l, r)
    }

    fn source_to_target(self, source: SourceError, location: Location) -> (r: BoxedError2) {
        BoxedError2::from_std_with_location(source, location)
    }
}

impl ErrorHalfWrap<SourceError, BoxedError2> for ViaStd {
    open spec fn half_req(&self, middle: SourceError, l: LocationView) -> bool {
        middle.inv() && !l.is_uninit()
    }

    open spec fn half_ens(&self, middle: SourceError, l: LocationView, r: BoxedError2) -> bool {
        from_std_ens(middle, l, r)
    }

    fn half_wrap(self, middle: SourceError, location: Location) -> (r: BoxedError2) {
        BoxedError2::from_std_with_location(middle, location)
    }
}

/// Wraps an error of this library's kind into a [`BoxedError2`].
pub struct ViaErr2;

impl SourceToTarget<ViaFull, SourceError, BoxedError2> for ViaErr2 {
    open spec fn req(&self, source: SourceError, l: LocationView) -> bool {
        source.inv() && !l.is_uninit()
    }

    open spec fn ens(&self, source: SourceError, l: LocationView, r: BoxedError2) -> bool {
        from_err2_ens(source, l, r)
    }

    fn source_to_target(self, source: SourceError, location: Location) -> (r: BoxedError2) {
        BoxedError2::from_err2_with_location(source, location)
    }
}

impl ErrorHalfWrap<SourceError, BoxedError2> for ViaErr2 {
    open spec fn half_req(&self, middle: SourceError, l: LocationView) -> bool {
        middle.inv() && !l.is_uninit()
    }

    open spec fn half_ens(&self, middle: SourceError, l: LocationView, r: BoxedError2) -> bool {
        from_err2_ens(middle, l, r)
    }

    fn half_wrap(self, middle: SourceError, location: Location) -> (r: BoxedError2) {
        BoxedError2::from_err2_with_location(middle, location)
    }
}

} // verus!
