//! A pair of location slots, so that a run of propagation locations costs
//! no more space than a message entry.

use crate::location::{Location, LocationView};
use vstd::prelude::*;

verus! {

/// One or two locations, stored in two fixed slots.
///
/// The first slot is always occupied; the second holds the
/// unoccupied-slot marker until a second location is pushed.
pub struct DoubleLocations {
    pub first: Location,
    pub second: Location,
}

impl View for DoubleLocations {
    type V = Seq<LocationView>;

    open spec fn view(&self) -> Seq<LocationView> {
        if self.second@.is_uninit() {
            seq![self.first@]
        } else {
            seq![self.first@, self.second@]
        }
    }
}

impl DoubleLocations {
    /// Whether the first slot holds a real location.
    pub open spec fn wf(&self) -> bool {
        !self.first@.is_uninit()
    }

    /// Starts a pair with one location.
    pub fn new(location: Location) -> (r: Self)
        requires
            !location@.is_uninit(),
        ensures
            r@ =~= seq![location@],
            r.wf(),
    {
        DoubleLocations { first: location, second: Location::uninit() }
    }

    /// Whether both slots are occupied.
    pub fn is_full(&self) -> (r: bool)
        requires
            self.wf(),
        ensures
            r == (self@.len() == 2),
    {
        !self.second.is_uninit()
    }

    /// Stores `location` in the second slot if it is free; otherwise hands
    /// `location` back.
    pub fn push(&mut self, location: Location) -> (r: Option<Location>)
        requires
            old(self).wf(),
            !location@.is_uninit(),
        ensures
            final(self).wf(),
            old(self)@.len() == 1 ==> {
                &&& final(self)@ =~= old(self)@.push(location@)
                &&& r is None
            },
            old(self)@.len() == 2 ==> {
                &&& final(self)@ =~= old(self)@
                &&& r matches Some(l) && l@ == location@
            },
    {
        if self.second.is_uninit() {
            self.second = location;
            None
        } else {
            Some(location)
        }
    }

    /// Both slots, the second possibly the unoccupied-slot marker.
    pub fn inner(&self) -> (r: (&Location, &Location))
        ensures
            r.0@ == self.first@,
            r.1@ == self.second@,
    {
        (&self.first, &self.second)
    }
}

} // verus!
