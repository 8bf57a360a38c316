//! An error-handling library built around backtraces that errors collect
//! as they propagate.
//!
//! An error value carries a [`Backtrace`]: an ordered record of the error
//! messages and source locations it passed through.  The [`Error2`] trait
//! gives access to that record, the wrapping traits ([`Context`],
//! [`OptionExt`], [`ResultExt`], [`RootError`], [`Attach`]) fold source
//! errors into richer ones at recorded locations, and [`BoxedError2`] is
//! a ready-made erased error type.
//!
//! The [`codegen`] module holds the rules by which implementations are
//! synthesized for user-defined error types: it validates a declaration's
//! shape — `source` and `backtrace` fields mark what the type wraps —
//! parses the `error2` attributes, infers trait bounds, and decides
//! exactly what is emitted.

mod attach;
mod backtrace;
mod boxed;
pub mod codegen;
mod context;
mod decimal;
mod error2;
mod error_ext;
mod error_wrap;
mod extract;
mod interner;
mod location;
mod locations;
mod next_error;
mod none_error;
mod option_ext;
mod private;
mod result_ext;
mod root_error;
mod small_string;
mod str_id;
mod strings;
mod transform;

pub use attach::{Attach, AttachIter};
pub use backtrace::{Backtrace, BacktraceEntry, DoubleLocations, Message};
pub use context::Context;
pub use boxed::{
    BoxedError2, ErasedError, ErrSource, ErrorKind, RootErr, SourceError, StdErr, ViaErr2,
    ViaNone, ViaRoot, ViaStd,
};
pub use error_ext::{error_stack, ErrorExt};
pub use error_wrap::{ErrorFullWrap, ErrorHalfWrap};
pub use next_error::{ChainError, NextError};
pub use private::{ViaFull, ViaPartial};
pub use transform::{MiddleToTarget, SourceToTarget};
pub use decimal::u32_to_dec;
pub use error2::{error_message, push_error, Error2};
pub use extract::{extract_error_message, extract_error_stack};
pub use interner::Interner;
pub use location::Location;
pub use locations::Locations;
pub use none_error::NoneError;
pub use option_ext::OptionExt;
pub use result_ext::ResultExt;
pub use root_error::RootError;
pub use small_string::SmallString;
pub use str_id::StrId;
