//! An ordered, append-only list of the locations an error passed through.

use crate::location::{Location, LocationView};
use vstd::prelude::*;

verus! {

/// The ordered record of source positions attached to an error.
pub struct Locations(pub Vec<Location>);

impl View for Locations {
    type V = Seq<LocationView>;

    open spec fn view(&self) -> Seq<LocationView> {
        self.0@.map_values(|l: Location| l@)
    }
}

impl Locations {
    /// Starts the record with the location the error was created at.
    pub fn new(location: Location) -> (r: Self)
        ensures
            r@ =~= seq![location@],
    {
        Locations(vec![location])
    }

    /// The recorded locations, oldest first.
    pub fn inner(&self) -> (r: &[Location])
        ensures
            r@ == self.0@,
            r@.map_values(|l: Location| l@) == self@,
    {
        self.0.as_slice()
    }

    /// Gives the record up.
    pub fn into_inner(self) -> (r: Vec<Location>)
        ensures
            r@ == self.0@,
            r@.map_values(|l: Location| l@) == self@,
    {
        self.0
    }

    /// Appends one more location to the record.
    pub fn attach_location(&mut self, location: Location)
        ensures
            final(self)@ =~= old(self)@.push(location@),
    {
        self.0.push(location);
        proof {
            assert(self@ =~= old(self)@.push(location@));
        }
    }
}

} // verus!
