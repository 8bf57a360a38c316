//! Wrapping a `Result`'s error into a richer one.

use crate::error_wrap::ErrorHalfWrap;
use crate::location::Location;
use vstd::prelude::*;

verus! {

/// A fallible value whose error can be wrapped into a richer one.
pub trait ResultExt<T, E1>: Sized {
    /// The fallible value this stands for.
    spec fn result_spec(&self) -> Result<T, E1>;

    /// Wraps the error, if there is one, with `context`, recording
    /// `location`.
    fn context_and_location<C: ErrorHalfWrap<E1, E3>, E3>(
        self,
        context: C,
        location: Location,
    ) -> (r: Result<T, E3>)
        requires
            self.result_spec() matches Err(e1) ==> context.half_req(e1, location@),
        ensures
            self.result_spec() matches Ok(t) ==> (r matches Ok(t2) && t2 == t),
            self.result_spec() matches Err(e1) ==> (r matches Err(e) && context.half_ens(
                e1,
                location@,
                e,
            )),
    ;

    /// Wraps the error, if there is one, with the context `f` builds,
    /// recording `location`.  `f` is consulted only on failure.
    fn with_context_and_location<F: FnOnce() -> C, C: ErrorHalfWrap<E1, E3>, E3>(
        self,
        f: F,
        location: Location,
    ) -> (r: Result<T, E3>)
        requires
            self.result_spec() is Err ==> call_requires(f, ()),
            forall|c: C|
                call_ensures(f, (), c) ==> (self.result_spec() matches Err(e1) ==> c.half_req(
                    e1,
                    location@,
                )),
        ensures
            self.result_spec() matches Ok(t) ==> (r matches Ok(t2) && t2 == t),
            self.result_spec() matches Err(e1) ==> (r matches Err(e) && exists|c: C|
                #[trigger] call_ensures(f, (), c) && c.half_ens(e1, location@, e)),
    ;
}

impl<T, E1> ResultExt<T, E1> for Result<T, E1> {
    open spec fn result_spec(&self) -> Result<T, E1> {
        *self
    }

    fn context_and_location<C: ErrorHalfWrap<E1, E3>, E3>(
        self,
        context: C,
        location: Location,
    ) -> (r: Result<T, E3>) {
        match self {
            Ok(t) => Ok(t),
            Err(e1) => Err(context.half_wrap(e1, location)),
        }
    }

    fn with_context_and_location<F: FnOnce() -> C, C: ErrorHalfWrap<E1, E3>, E3>(
        self,
        f: F,
        location: Location,
    ) -> (r: Result<T, E3>) {
        let ghost this = self;
        match self {
            Ok(t) => Ok(t),
            Err(e1) => {
                let ghost e0 = e1;
                let context = f();
                let e = context.half_wrap(e1, location);
                proof {
                    assert(call_ensures(f, (), context) && context.half_ens(e0, location@, e));
                }
                Err(e)
            },
        }
    }
}

} // verus!
