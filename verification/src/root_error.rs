//! Building a fresh root error from a context value.

use crate::location::Location;
use crate::none_error::NoneError;
use crate::transform::SourceToTarget;
use vstd::prelude::*;

verus! {

/// A context that can build a root error on its own: there is no source
/// error, so the context wraps [`NoneError`].
pub trait RootError<M, Target>: SourceToTarget<M, NoneError, Target> {
    /// Builds the root error, recording `location`.
    fn build_with_location(self, location: Location) -> (r: Target)
        requires
            self.req(NoneError, location@),
        ensures
            self.ens(NoneError, location@, r),
    ;

    /// Builds the root error and hands it back as a failure.
    fn fail_with_location<T>(self, location: Location) -> (r: Result<T, Target>)
        requires
            self.req(NoneError, location@),
        ensures
            r matches Err(e) && self.ens(NoneError, location@, e),
    ;
}

impl<M, Target, C: SourceToTarget<M, NoneError, Target>> RootError<M, Target> for C {
    fn build_with_location(self, location: Location) -> (r: Target) {
        self.source_to_target(NoneError, location)
    }

    fn fail_with_location<T>(self, location: Location) -> (r: Result<T, Target>) {
        Err(self.build_with_location(location))
    }
}

} // verus!
