//! The small value types the code generator decides with.

use vstd::prelude::*;

verus! {

/// The structural category of an error declaration: wrapping nothing,
/// wrapping a foreign error, or wrapping an error of this library's kind.
#[derive(Debug, Clone, Copy, PartialEq, Eq, Structural)]
pub enum ErrorKind {
    Root,
    Std,
    Err2,
}

impl ErrorKind {
    /// Whether the declaration wraps nothing.
    pub fn is_root(&self) -> (r: bool)
        ensures
            r == (*self is Root),
    {
        match self {
            ErrorKind::Root => true,
            _ => false,
        }
    }
}

/// Whether a context is generated for a struct or for an enum variant.
#[derive(Debug, Clone, Copy, PartialEq, Eq, Structural)]
pub enum ContextKind {
    Struct,
    Variant,
}

impl ContextKind {
    /// The word used for this kind in diagnostics.
    pub fn as_str(&self) -> (r: &'static str)
        ensures
            *self is Struct ==> r@ == "struct"@,
            *self is Variant ==> r@ == "variant"@,
    {
        match self {
            ContextKind::Struct => "struct",
            ContextKind::Variant => "variant",
        }
    }
}

/// The `display` attribute found on a type: absent, explicitly disabled,
/// or enabled with format tokens.
#[derive(Debug)]
pub enum TypeDisplayAttr {
    Unset,
    Disabled,
    Enabled(String),
}

impl TypeDisplayAttr {
    /// Whether no `display` attribute was given.
    pub fn is_unset(&self) -> (r: bool)
        ensures
            r == (*self is Unset),
    {
        match self {
            TypeDisplayAttr::Unset => true,
            _ => false,
        }
    }
}

/// The traits whose implementations are conditioned on inferred bounds.
#[derive(Debug, Clone, Copy, PartialEq, Eq, Structural)]
pub enum Trait {
    Debug,
    Display,
}

impl Trait {
    /// The trait's path, as it is written into bounds.
    pub fn render(&self) -> (r: &'static str)
        ensures
            *self is Debug ==> r@ == "::core::fmt::Debug"@,
            *self is Display ==> r@ == "::core::fmt::Display"@,
    {
        match self {
            Trait::Debug => "::core::fmt::Debug",
            Trait::Display => "::core::fmt::Display",
        }
    }
}

} // verus!
