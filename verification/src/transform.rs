//! Wrapping a source error into a target error, at a recorded location.
//!
//! A context value implements [`SourceToTarget`]: handed the source error
//! and a location, it builds the target error.  A context that only knows
//! how to wrap a converted, "middle" form implements [`MiddleToTarget`]
//! and is lifted by a blanket implementation.  What each context
//! guarantees is stated by its own `req` / `ens` predicates.

use crate::location::{Location, LocationView};
use crate::private::ViaPartial;
use vstd::prelude::*;

verus! {

/// Builds the target error from the middle form of a source error.
pub trait MiddleToTarget<Middle, Target>: Sized {
    /// When the context may wrap `middle`.
    spec fn middle_req(&self, middle: Middle, l: LocationView) -> bool;

    /// What the built error guarantees.
    spec fn middle_ens(&self, middle: Middle, l: LocationView, r: Target) -> bool;

    /// Wraps `middle`, recording `location`.
    fn middle_to_target(self, middle: Middle, location: Location) -> (r: Target)
        requires
            self.middle_req(middle, location@),
        ensures
            self.middle_ens(middle, location@, r),
    ;
}

/// Builds the target error straight from the source error.
pub trait SourceToTarget<M, Source, Target>: Sized {
    /// When the context may wrap `source`.
    spec fn req(&self, source: Source, l: LocationView) -> bool;

    /// What the built error guarantees.
    spec fn ens(&self, source: Source, l: LocationView, r: Target) -> bool;

    /// Wraps `source`, recording `location`.
    fn source_to_target(self, source: Source, location: Location) -> (r: Target)
        requires
            self.req(source, location@),
        ensures
            self.ens(source, location@, r),
    ;
}

impl<Middle, Target, C: MiddleToTarget<Middle, Target>> SourceToTarget<
    ViaPartial,
    Middle,
    Target,
> for C {
    open spec fn req(&self, source: Middle, l: LocationView) -> bool {
        self.middle_req(source, l)
    }

    open spec fn ens(&self, source: Middle, l: LocationView, r: Target) -> bool {
        self.middle_ens(source, l, r)
    }

    fn source_to_target(self, source: Middle, location: Location) -> (r: Target) {
        self.middle_to_target(source, location)
    }
}

} // verus!
