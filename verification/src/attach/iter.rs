//! Attaching one location to each item of a sequence of results.

use crate::attach::Attach;
use crate::location::Location;
use core::marker::PhantomData;
use vstd::prelude::*;

verus! {

/// Hands the items of a sequence out one by one, recording the same
/// location in each.
pub struct AttachIter<T, W> {
    pub items: Vec<T>,
    pub location: Location,
    pub phantom: PhantomData<W>,
}

impl<T: Attach<W>, W> AttachIter<T, W> {
    /// The location may be recorded in every remaining item.
    pub open spec fn wf(&self) -> bool {
        forall|i: int|
            0 <= i < self.items@.len() ==> (#[trigger] self.items@[i]).attach_req(self.location@)
    }

    /// Starts walking `items`, recording `location` in each.
    pub fn new(items: Vec<T>, location: Location) -> (r: Self)
        ensures
            r.items@ == items@,
            r.location@ == location@,
    {
        AttachIter { items, location, phantom: PhantomData }
    }

    /// Hands out the next item with the location recorded, or `None` when
    /// all items are spent.
    pub fn next(&mut self) -> (r: Option<W>)
        requires
            old(self).wf(),
        ensures
            final(self).wf(),
            final(self).location@ == old(self).location@,
            old(self).items@.len() == 0 ==> r is None && final(self).items@ == old(self).items@,
            old(self).items@.len() > 0 ==> (r matches Some(w) && old(self).items@[0].attach_ens(
                old(self).location@,
                w,
            ) && final(self).items@ == old(self).items@.skip(1)),
    {
        if self.items.len() == 0 {
            None
        } else {
            let item = self.items.remove(0);
            let location = self.location.clone();
            let r = Some(item.attach_location(location));
            proof {
                assert(self.items@ =~= old(self).items@.skip(1));
                assert forall|i: int|
                    0 <= i < self.items@.len() implies (#[trigger] self.items@[i]).attach_req(
                    self.location@,
                ) by {
                    assert(self.items@[i] == old(self).items@[i + 1]);
                }
            }
            r
        }
    }
}

} // verus!
