//! The record of messages and locations an error collects as it propagates.

mod double_locations;
mod message;

pub use double_locations::DoubleLocations;
pub use message::{Message, MessageView};

use crate::location::{Location, LocationView};
use vstd::pervasive::unreached;
use vstd::prelude::*;

verus! {

/// The mathematical value of one backtrace entry.
pub ghost enum EntryView {
    Message(MessageView),
    Locations(Seq<LocationView>),
}

/// One entry of a backtrace: an error message, or a pair of propagation
/// locations belonging to the message before it.
pub enum BacktraceEntry {
    Message(Message),
    Locations(DoubleLocations),
}

impl View for BacktraceEntry {
    type V = EntryView;

    open spec fn view(&self) -> EntryView {
        match self {
            BacktraceEntry::Message(m) => EntryView::Message(m@),
            BacktraceEntry::Locations(d) => EntryView::Locations(d@),
        }
    }
}

/// The views of a sequence of entries.
pub open spec fn entries_view(s: Seq<BacktraceEntry>) -> Seq<EntryView> {
    s.map_values(|e: BacktraceEntry| e@)
}

/// Whether a sequence of entry views starts with a head message: a message
/// that no location run belongs to, recorded for the foreign error at the
/// root of the chain.
pub open spec fn has_head(s: Seq<EntryView>) -> bool {
    &&& s.len() > 0
    &&& s[0] is Message
    &&& (s.len() == 1 || s[1] is Message)
}

/// The ordered record of the messages an error reported and the locations
/// it passed through.
pub struct Backtrace {
    pub entries: Vec<BacktraceEntry>,
}

impl View for Backtrace {
    type V = Seq<EntryView>;

    open spec fn view(&self) -> Seq<EntryView> {
        entries_view(self.entries@)
    }
}

impl Backtrace {
    /// Every entry is sound: the record starts with a message, and every
    /// location run holds one or two real locations.
    pub open spec fn wf(&self) -> bool {
        &&& self@.len() > 0 ==> self@[0] is Message
        &&& entry_views_wf(self@)
    }

    /// An empty backtrace.
    pub fn new() -> (r: Self)
        ensures
            r@ =~= Seq::<EntryView>::empty(),
            r.wf(),
    {
        let r = Backtrace { entries: Vec::new() };
        proof {
            assert(r@ =~= Seq::<EntryView>::empty());
        }
        r
    }

    /// A backtrace whose first entry records the foreign error the chain
    /// started from.
    pub fn with_head(type_label: &str, display: String) -> (r: Self)
        ensures
            r@ =~= seq![
                EntryView::Message(MessageView { type_label: type_label@, display: display@ }),
            ],
            r.wf(),
    {
        let mut entries: Vec<BacktraceEntry> = Vec::new();
        entries.push(BacktraceEntry::Message(Message::new(type_label, display)));
        let r = Backtrace { entries };
        proof {
            assert(r@ =~= seq![
                EntryView::Message(MessageView { type_label: type_label@, display: display@ }),
            ]);
        }
        r
    }

    /// Records that the error of type `type_label`, displaying `display`,
    /// passed through `location`.
    pub fn push_error(&mut self, type_label: &str, display: String, location: Location)
        requires
            old(self).wf(),
            !location@.is_uninit(),
        ensures
            final(self).wf(),
            final(self)@ =~= pushed_error(old(self)@, type_label@, display@, location@),
    {
        self.entries.push(BacktraceEntry::Message(Message::new(type_label, display)));
        self.entries.push(BacktraceEntry::Locations(DoubleLocations::new(location)));
        proof {
            assert(final(self)@ =~= old(self)@ + seq![
                EntryView::Message(MessageView { type_label: type_label@, display: display@ }),
                EntryView::Locations(seq![location@]),
            ]);
        }
    }

    /// Records one more location for the most recent message, filling the
    /// open slot of the last location run if it has one and opening a new
    /// run otherwise.
    pub fn push_location(&mut self, location: Location)
        requires
            old(self).wf(),
            old(self)@.len() > 0,
            !location@.is_uninit(),
        ensures
            final(self).wf(),
            final(self)@ =~= pushed_location(old(self)@, location@),
    {
        let n = self.entries.len();
        let mut extend_last = false;
        match &self.entries[n - 1] {
            BacktraceEntry::Locations(d) => {
                proof {
                    assert(entries_view(self.entries@)[n - 1] == self.entries@[n - 1]@);
                    assert(self@[n - 1]->Locations_0 == d@);
                    assert(locations_entry_wf(self@[n - 1]->Locations_0));
                    assert(!d@[0].is_uninit());
                    assert(d.wf());
                }
                if !d.is_full() {
                    extend_last = true;
                }
            },
            BacktraceEntry::Message(_) => {},
        }
        if extend_last {
            let last = self.entries.pop();
            match last {
                Some(BacktraceEntry::Locations(mut d)) => {
                    proof {
                        assert(entries_view(old(self).entries@)[n - 1] == old(self).entries@[n
                            - 1]@);
                        assert(old(self)@[n - 1]->Locations_0 == d@);
                        assert(locations_entry_wf(old(self)@[n - 1]->Locations_0));
                        assert(!d@[0].is_uninit());
                        assert(d.wf());
                    }
                    let leftover = d.push(location);
                    proof {
                        assert(leftover is None);
                    }
                    self.entries.push(BacktraceEntry::Locations(d));
                },
                _ => {
                    unreached::<()>();
                },
            }
            proof {
                let lsv = old(self)@.last()->Locations_0;
                assert(final(self)@ =~= old(self)@.update(
                    old(self)@.len() - 1,
                    EntryView::Locations(lsv.push(location@)),
                ));
            }
        } else {
            self.entries.push(BacktraceEntry::Locations(DoubleLocations::new(location)));
            proof {
                assert(final(self)@ =~= old(self)@.push(EntryView::Locations(seq![location@])));
            }
        }
    }

    /// Empties the backtrace, handing its record over.
    pub fn take(&mut self) -> (r: Self)
        ensures
            r@ == old(self)@,
            final(self)@ =~= Seq::<EntryView>::empty(),
    {
        let mut out = Backtrace { entries: Vec::new() };
        core::mem::swap(self, &mut out);
        proof {
            assert(final(self)@ =~= Seq::<EntryView>::empty());
        }
        out
    }

    /// Splits the record into its head message, if any, and the remaining
    /// entries.
    pub fn head_and_entries(&self) -> (r: (Option<&Message>, &[BacktraceEntry]))
        requires
            self.wf(),
        ensures
            r.0 is Some <==> has_head(self@),
            r.0 matches Some(m) ==> EntryView::Message(m@) == self@[0],
            entries_view(r.1@) =~= (if has_head(self@) {
                self@.skip(1)
            } else {
                self@
            }),
    {
        let entries = self.entries.as_slice();
        let n = entries.len();
        if n == 0 {
            return (None, entries);
        }
        let head_like = match &entries[0] {
            BacktraceEntry::Message(_) => {
                if n == 1 {
                    true
                } else {
                    match &entries[1] {
                        BacktraceEntry::Message(_) => true,
                        BacktraceEntry::Locations(_) => false,
                    }
                }
            },
            BacktraceEntry::Locations(_) => unreached::<bool>(),
        };
        if head_like {
            let (first, rest) = entries.split_at(1);
            match &first[0] {
                BacktraceEntry::Message(m) => {
                    proof {
                        assert(entries_view(rest@) =~= self@.skip(1));
                    }
                    (Some(m), rest)
                },
                BacktraceEntry::Locations(_) => unreached::<(Option<&Message>, &[BacktraceEntry])>(),
            }
        } else {
            (None, entries)
        }
    }
}

/// A location run holds one or two real locations.
pub open spec fn locations_entry_wf(ls: Seq<LocationView>) -> bool {
    &&& 1 <= ls.len() <= 2
    &&& forall|j: int| 0 <= j < ls.len() ==> !(#[trigger] ls[j]).is_uninit()
}

/// What a backtrace's entries become when one more location is recorded:
/// the open slot of a trailing location run is filled, or a new run opens.
pub open spec fn pushed_location(s: Seq<EntryView>, l: LocationView) -> Seq<EntryView> {
    if s.len() > 0 && s.last() is Locations && s.last()->Locations_0.len() == 1 {
        s.update(s.len() - 1, EntryView::Locations(s.last()->Locations_0.push(l)))
    } else {
        s.push(EntryView::Locations(seq![l]))
    }
}

/// What a backtrace's entries become when an error is recorded: its
/// message, then a fresh location run.
pub open spec fn pushed_error(
    s: Seq<EntryView>,
    type_label: Seq<char>,
    display: Seq<char>,
    l: LocationView,
) -> Seq<EntryView> {
    s + seq![
        EntryView::Message(MessageView { type_label, display }),
        EntryView::Locations(seq![l]),
    ]
}

/// Every location run among `s` holds one or two real locations.
pub open spec fn entry_views_wf(s: Seq<EntryView>) -> bool {
    forall|i: int|
        0 <= i < s.len() && s[i] is Locations ==> locations_entry_wf(
            #[trigger] s[i]->Locations_0,
        )
}

} // verus!
