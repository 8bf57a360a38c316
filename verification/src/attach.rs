//! Recording propagation locations as an error travels.

mod iter;

pub use iter::AttachIter;

use crate::backtrace::pushed_location;
use crate::error2::Error2;
use crate::location::{Location, LocationView};
use vstd::prelude::*;

verus! {

/// A value that can record one more propagation location, yielding a
/// `Wrapper` (the value itself for an error, the same result for a
/// `Result`).
pub trait Attach<Wrapper>: Sized {
    /// When a location may be recorded.
    spec fn attach_req(&self, l: LocationView) -> bool;

    /// What recording the location guarantees.
    spec fn attach_ens(&self, l: LocationView, r: Wrapper) -> bool;

    /// Records `location` in the error's backtrace.
    fn attach_location(self, location: Location) -> (r: Wrapper)
        requires
            self.attach_req(location@),
        ensures
            self.attach_ens(location@, r),
    ;
}

impl<E: Error2> Attach<E> for E {
    open spec fn attach_req(&self, l: LocationView) -> bool {
        &&& self.inv()
        &&& self.bt().len() > 0
        &&& !l.is_uninit()
    }

    open spec fn attach_ens(&self, l: LocationView, r: E) -> bool {
        &&& r.inv()
        &&& r.bt() == pushed_location(self.bt(), l)
        &&& r.label_spec() == self.label_spec()
        &&& r.message_spec() == self.message_spec()
    }

    fn attach_location(self, location: Location) -> (r: E) {
        let mut e = self;
        e.backtrace_push_location(location);
        e
    }
}

impl<T, E: Error2> Attach<Result<T, E>> for Result<T, E> {
    open spec fn attach_req(&self, l: LocationView) -> bool {
        self matches Err(e) ==> (e.inv() && e.bt().len() > 0 && !l.is_uninit())
    }

    open spec fn attach_ens(&self, l: LocationView, r: Result<T, E>) -> bool {
        &&& self matches Ok(t) ==> (r matches Ok(t2) && t2 == t)
        &&& self matches Err(e) ==> (r matches Err(e2) && e2.inv() && e2.bt() == pushed_location(
            e.bt(),
            l,
        ) && e2.label_spec() == e.label_spec() && e2.message_spec() == e.message_spec())
    }

    fn attach_location(self, location: Location) -> (r: Result<T, E>) {
        match self {
            Ok(t) => Ok(t),
            Err(e) => Err(e.attach_location(location)),
        }
    }
}

} // verus!
