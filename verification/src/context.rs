//! Wrapping a failed computation's error into a richer one.

use crate::location::{Location, LocationView};
use crate::none_error::NoneError;
use crate::transform::SourceToTarget;
use vstd::prelude::*;

verus! {

/// A fallible value whose failure can be wrapped by a context into a
/// target error, recording the location the wrapping happened at.
pub trait Context<T, M, Source, Target, C: SourceToTarget<M, Source, Target>>: Sized {
    /// Whether this value is the failed case.
    spec fn is_failure(&self) -> bool;

    /// What holds of the result when this value succeeded.
    spec fn ok_ens(&self, r: Result<T, Target>) -> bool;

    /// When `context` may wrap this value's failure.
    spec fn ctx_req(&self, context: C, l: LocationView) -> bool;

    /// What wrapping this value guarantees.
    spec fn ctx_ens(&self, context: C, l: LocationView, r: Result<T, Target>) -> bool;

    /// Wraps the failure, if any, with `context`, recording `location`.
    fn context_and_location(self, context: C, location: Location) -> (r: Result<T, Target>)
        requires
            self.ctx_req(context, location@),
        ensures
            self.ctx_ens(context, location@, r),
    ;

    /// Wraps the failure, if any, with the context `f` builds, recording
    /// `location`.  `f` is consulted only on failure.
    fn with_context_and_location<F: FnOnce() -> C>(self, f: F, location: Location) -> (r: Result<
        T,
        Target,
    >)
        requires
            self.is_failure() ==> call_requires(f, ()),
            forall|c: C| call_ensures(f, (), c) ==> self.ctx_req(c, location@),
        ensures
            !self.is_failure() ==> self.ok_ens(r),
            self.is_failure() ==> exists|c: C|
                call_ensures(f, (), c) && self.ctx_ens(c, location@, r),
    ;
}

impl<T, M, Target, C: SourceToTarget<M, NoneError, Target>> Context<
    T,
    M,
    NoneError,
    Target,
    C,
> for Option<T> {
    open spec fn is_failure(&self) -> bool {
        self is None
    }

    open spec fn ok_ens(&self, r: Result<T, Target>) -> bool {
        self matches Some(t) ==> (r matches Ok(t2) && t2 == t)
    }

    open spec fn ctx_req(&self, context: C, l: LocationView) -> bool {
        self is None ==> context.req(NoneError, l)
    }

    open spec fn ctx_ens(&self, context: C, l: LocationView, r: Result<T, Target>) -> bool {
        &&& self matches Some(t) ==> (r matches Ok(t2) && t2 == t)
        &&& self is None ==> (r matches Err(e) && context.ens(NoneError, l, e))
    }

    fn context_and_location(self, context: C, location: Location) -> (r: Result<T, Target>) {
        match self {
            Some(t) => Ok(t),
            None => Err(context.source_to_target(NoneError, location)),
        }
    }

    fn with_context_and_location<F: FnOnce() -> C>(self, f: F, location: Location) -> (r: Result<
        T,
        Target,
    >) {
        let ghost this = self;
        match self {
            Some(t) => Ok(t),
            None => {
                let context = f();
                proof {
                    assert(this.ctx_req(context, location@));
                }
                let e = context.source_to_target(NoneError, location);
                let r = Err(e);
                proof {
                    assert(call_ensures(f, (), context) && this.ctx_ens(context, location@, r));
                }
                r
            },
        }
    }
}

impl<T, M, Source, Target, C: SourceToTarget<M, Source, Target>> Context<
    T,
    M,
    Source,
    Target,
    C,
> for Result<T, Source> {
    open spec fn is_failure(&self) -> bool {
        self is Err
    }

    open spec fn ok_ens(&self, r: Result<T, Target>) -> bool {
        self matches Ok(t) ==> (r matches Ok(t2) && t2 == t)
    }

    open spec fn ctx_req(&self, context: C, l: LocationView) -> bool {
        self matches Err(source) ==> context.req(*source, l)
    }

    open spec fn ctx_ens(&self, context: C, l: LocationView, r: Result<T, Target>) -> bool {
        &&& self matches Ok(t) ==> (r matches Ok(t2) && t2 == t)
        &&& self matches Err(source) ==> (r matches Err(e) && context.ens(*source, l, e))
    }

    fn context_and_location(self, context: C, location: Location) -> (r: Result<T, Target>) {
        match self {
            Ok(t) => Ok(t),
            Err(source) => Err(context.source_to_target(source, location)),
        }
    }

    fn with_context_and_location<F: FnOnce() -> C>(self, f: F, location: Location) -> (r: Result<
        T,
        Target,
    >) {
        let ghost this = self;
        match self {
            Ok(t) => Ok(t),
            Err(source) => {
                let context = f();
                proof {
                    assert(this.ctx_req(context, location@));
                }
                let e = context.source_to_target(source, location);
                let r = Err(e);
                proof {
                    assert(call_ensures(f, (), context) && this.ctx_ens(context, location@, r));
                }
                r
            },
        }
    }
}

} // verus!
