//! Marker types that keep the blanket wrapper implementations apart.

use vstd::prelude::*;

verus! {

/// Marks a wrapper reached through a partial, middle-to-target conversion.
#[derive(Debug, Clone, Copy)]
pub struct ViaPartial;

/// Marks a wrapper that converts straight from the source.
#[derive(Debug, Clone, Copy)]
pub struct ViaFull;

} // verus!
