//! The wrapping traits of the older surface: a context wraps a source
//! error into a target error, at a recorded location.

use crate::location::{Location, LocationView};
use crate::private::ViaPartial;
use vstd::prelude::*;

verus! {

/// Wraps the middle form of a source error into the target error.
pub trait ErrorHalfWrap<Middle, Target>: Sized {
    /// When the context may wrap `middle`.
    spec fn half_req(&self, middle: Middle, l: LocationView) -> bool;

    /// What the built error guarantees.
    spec fn half_ens(&self, middle: Middle, l: LocationView, r: Target) -> bool;

    /// Wraps `middle`, recording `location`.
    fn half_wrap(self, middle: Middle, location: Location) -> (r: Target)
        requires
            self.half_req(middle, location@),
        ensures
            self.half_ens(middle, location@, r),
    ;
}

/// Wraps a source error into the target error.
pub trait ErrorFullWrap<M, Source, Target>: Sized {
    /// When the context may wrap `source`.
    spec fn full_req(&self, source: Source, l: LocationView) -> bool;

    /// What the built error guarantees.
    spec fn full_ens(&self, source: Source, l: LocationView, r: Target) -> bool;

    /// Wraps `source`, recording `location`.
    fn full_wrap(self, source: Source, location: Location) -> (r: Target)
        requires
            self.full_req(source, location@),
        ensures
            self.full_ens(source, location@, r),
    ;
}

impl<Middle, Target, C: ErrorHalfWrap<Middle, Target>> ErrorFullWrap<
    ViaPartial,
    Middle,
    Target,
> for C {
    open spec fn full_req(&self, source: Middle, l: LocationView) -> bool {
        self.half_req(source, l)
    }

    open spec fn full_ens(&self, source: Middle, l: LocationView, r: Target) -> bool {
        self.half_ens(source, l, r)
    }

    fn full_wrap(self, source: Middle, location: Location) -> (r: Target) {
        self.half_wrap(source, location)
    }
}

} // verus!
