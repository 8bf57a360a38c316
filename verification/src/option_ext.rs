//! Wrapping a missing `Option` value into an error.

use crate::error_wrap::ErrorHalfWrap;
use crate::location::Location;
use crate::none_error::NoneError;
use vstd::prelude::*;

verus! {

/// An optional value whose absence can be wrapped into an error.
pub trait OptionExt<T>: Sized {
    /// The optional value this stands for.
    spec fn value_spec(&self) -> Option<T>;

    /// Wraps the absence, if the value is missing, with `context`,
    /// recording `location`.
    fn context_and_location<C: ErrorHalfWrap<NoneError, E>, E>(
        self,
        context: C,
        location: Location,
    ) -> (r: Result<T, E>)
        requires
            self.value_spec() is None ==> context.half_req(NoneError, location@),
        ensures
            self.value_spec() matches Some(t) ==> (r matches Ok(t2) && t2 == t),
            self.value_spec() is None ==> (r matches Err(e) && context.half_ens(
                NoneError,
                location@,
                e,
            )),
    ;

    /// Wraps the absence, if the value is missing, with the context `f`
    /// builds, recording `location`.  `f` is consulted only on absence.
    fn with_context_and_location<F: FnOnce() -> C, C: ErrorHalfWrap<NoneError, E>, E>(
        self,
        f: F,
        location: Location,
    ) -> (r: Result<T, E>)
        requires
            self.value_spec() is None ==> call_requires(f, ()),
            forall|c: C|
                call_ensures(f, (), c) ==> (self.value_spec() is None ==> c.half_req(
                    NoneError,
                    location@,
                )),
        ensures
            self.value_spec() matches Some(t) ==> (r matches Ok(t2) && t2 == t),
            self.value_spec() is None ==> (r matches Err(e) && exists|c: C|
                #[trigger] call_ensures(f, (), c) && c.half_ens(NoneError, location@, e)),
    ;
}

impl<T> OptionExt<T> for Option<T> {
    open spec fn value_spec(&self) -> Option<T> {
        *self
    }

    fn context_and_location<C: ErrorHalfWrap<NoneError, E>, E>(
        self,
        context: C,
        location: Location,
    ) -> (r: Result<T, E>) {
        match self {
            Some(t) => Ok(t),
            None => Err(context.half_wrap(NoneError, location)),
        }
    }

    fn with_context_and_location<F: FnOnce() -> C, C: ErrorHalfWrap<NoneError, E>, E>(
        self,
        f: F,
        location: Location,
    ) -> (r: Result<T, E>) {
        let ghost this = self;
        match self {
            Some(t) => Ok(t),
            None => {
                let context = f();
                let e = context.half_wrap(NoneError, location);
                proof {
                    assert(call_ensures(f, (), context) && context.half_ens(
                        NoneError,
                        location@,
                        e,
                    ));
                }
                Err(e)
            },
        }
    }
}

} // verus!
