//! Interning strings: each distinct string is stored once and handed out
//! as a small id.
//!
//! The storage is an append-only vector of the strings in id order, and a
//! concurrent index from string to id.  Both are outside collections; the
//! interning logic over them is verified against named contents.

use crate::str_id::StrId;
use std::collections::hash_map::RandomState;
use vstd::prelude::*;

verus! {

#[verifier::external_type_specification]
#[verifier::external_body]
#[verifier::reject_recursive_types(K)]
#[verifier::reject_recursive_types(V)]
#[verifier::reject_recursive_types(H)]
pub struct ExHashIndex<K, V, H>(scc::HashIndex<K, V, H>) where H: core::hash::BuildHasher;

#[verifier::external_type_specification]
#[verifier::external_body]
#[verifier::reject_recursive_types(T)]
pub struct ExAppendOnlyVec<T>(append_only_vec::AppendOnlyVec<T>);

/// What the index holds: the id each interned string maps to.
pub uninterp spec fn map_entries(
    m: scc::HashIndex<String, u32, RandomState>,
) -> Map<Seq<char>, u32>;

/// What the storage holds: the interned strings, in id order.
pub uninterp spec fn vec_entries(v: append_only_vec::AppendOnlyVec<String>) -> Seq<Seq<char>>;

/// The contents of an index that holds nothing.
pub open spec fn no_entries() -> Map<Seq<char>, u32> {
    Map::empty()
}

/// Relies on `scc::HashIndex::default`: a fresh index holds nothing.
#[verifier::external_body]
fn map_new() -> (r: scc::HashIndex<String, u32, RandomState>)
    ensures
        map_entries(r) == no_entries(),
{
    scc::HashIndex::default()
}

/// Relies on `scc::HashIndex::peek_with`: reads the entry of the key, if
/// the key is present.
#[verifier::external_body]
fn map_get(
    m: &scc::HashIndex<String, u32, RandomState>,
    s: &str,
) -> (r: Option<u32>)
    ensures
        r matches Some(id) ==> map_entries(*m).contains_key(s@) && map_entries(*m)[s@] == id,
        r is None ==> !map_entries(*m).contains_key(s@),
{
    m.peek_with(s, |_, v| *v)
}

/// Relies on `scc::HashIndex::insert_sync`: inserts the pair unless the
/// key is already present, in which case nothing changes.
#[verifier::external_body]
fn map_insert(
    m: &mut scc::HashIndex<String, u32, RandomState>,
    s: &str,
    id: u32,
) -> (r: bool)
    ensures
        map_entries(*old(m)).contains_key(s@) ==> !r && map_entries(*final(m)) == map_entries(
            *old(m),
        ),
        !map_entries(*old(m)).contains_key(s@) ==> r && map_entries(*final(m)) == map_entries(
            *old(m),
        ).insert(s@, id),
{
    m.insert_sync(s.to_string(), id).is_ok()
}

/// Relies on `append_only_vec::AppendOnlyVec::new`: a fresh vector holds
/// nothing.
#[verifier::external_body]
fn vec_new() -> (r: append_only_vec::AppendOnlyVec<String>)
    ensures
        vec_entries(r) == Seq::<Seq<char>>::empty(),
{
    append_only_vec::AppendOnlyVec::new()
}

/// Relies on `append_only_vec::AppendOnlyVec::push_mut`: appends the
/// value and returns the index it was written at.
#[verifier::external_body]
fn vec_push(v: &mut append_only_vec::AppendOnlyVec<String>, s: String) -> (r: usize)
    ensures
        vec_entries(*final(v)) == vec_entries(*old(v)).push(s@),
        r == vec_entries(*old(v)).len(),
{
    v.push_mut(s)
}

/// Relies on `Index<usize>` for `append_only_vec::AppendOnlyVec`.
#[verifier::external_body]
fn vec_get<'a>(v: &'a append_only_vec::AppendOnlyVec<String>, i: usize) -> (r: &'a str)
    requires
        i < vec_entries(*v).len(),
    ensures
        r@ == vec_entries(*v)[i as int],
{
    v[i].as_str()
}

/// The intern table.
pub struct Interner {
    pub vec: append_only_vec::AppendOnlyVec<String>,
    pub map: scc::HashIndex<String, u32, RandomState>,
}

impl Interner {
    /// The interned strings, in id order.
    pub open spec fn entries(&self) -> Seq<Seq<char>> {
        vec_entries(self.vec)
    }

    /// The storage and the index agree: each stored string's id leads
    /// back to it, every indexed string is stored at its id, and ids fit.
    pub open spec fn wf(&self) -> bool {
        &&& self.entries().len() < u32::MAX
        &&& forall|i: int|
            0 <= i < self.entries().len() ==> map_entries(self.map).contains_key(
                #[trigger] self.entries()[i],
            ) && map_entries(self.map)[self.entries()[i]] == i as u32
        &&& forall|s: Seq<char>|
            #[trigger] map_entries(self.map).contains_key(s) ==> map_entries(self.map)[s]
                < self.entries().len() && self.entries()[map_entries(self.map)[s] as int] == s
    }

    /// An empty intern table.
    pub fn new() -> (r: Self)
        ensures
            r.wf(),
            r.entries() =~= Seq::<Seq<char>>::empty(),
    {
        Interner { vec: vec_new(), map: map_new() }
    }

    /// Interns `s`: hands back the id it already has, or stores it under
    /// the next id.
    pub fn intern_normal(&mut self, s: &str) -> (r: StrId)
        requires
            old(self).wf(),
            old(self).entries().len() + 1 < u32::MAX,
        ensures
            final(self).wf(),
            r.0 < final(self).entries().len(),
            final(self).entries()[r.0 as int] == s@,
            old(self).entries().contains(s@) ==> final(self).entries() == old(self).entries()
                && old(self).entries()[r.0 as int] == s@,
            !old(self).entries().contains(s@) ==> final(self).entries() == old(
                self,
            ).entries().push(s@) && r.0 == old(self).entries().len(),
    {
        match map_get(&self.map, s) {
            Some(id) => {
                proof {
                    assert(self.entries()[id as int] == s@);
                    assert(self.entries().contains(s@));
                }
                StrId(id)
            },
            None => {
                proof {
                    if self.entries().contains(s@) {
                        let i = choose|i: int|
                            0 <= i < self.entries().len() && self.entries()[i] == s@;
                        assert(map_entries(self.map).contains_key(self.entries()[i]));
                        assert(false);
                    }
                }
                let ghost pre = *self;
                let id = vec_push(&mut self.vec, s.to_owned());
                let inserted = map_insert(&mut self.map, s, id as u32);
                proof {
                    assert(inserted);
                    assert(self.entries() == pre.entries().push(s@));
                    assert forall|i: int|
                        0 <= i < self.entries().len() implies map_entries(
                        self.map,
                    ).contains_key(#[trigger] self.entries()[i]) && map_entries(
                        self.map,
                    ).index(self.entries()[i]) == i as u32 by {
                        if i < pre.entries().len() {
                            assert(self.entries()[i] == pre.entries()[i]);
                            assert(pre.entries()[i] != s@);
                        } else {
                            assert(self.entries()[i] == s@);
                        }
                    }
                }
                StrId::new(id)
            },
        }
    }

    /// Interns a string that lives for the program's lifetime.
    pub fn intern_static(&mut self, s: &'static str) -> (r: StrId)
        requires
            old(self).wf(),
            old(self).entries().len() + 1 < u32::MAX,
        ensures
            final(self).wf(),
            r.0 < final(self).entries().len(),
            final(self).entries()[r.0 as int] == s@,
            old(self).entries().contains(s@) ==> final(self).entries() == old(self).entries(),
            !old(self).entries().contains(s@) ==> final(self).entries() == old(
                self,
            ).entries().push(s@) && r.0 == old(self).entries().len(),
    {
        self.intern_normal(s)
    }

    /// The string an id was handed out for.
    pub fn lookup(&self, id: &StrId) -> (r: &str)
        requires
            self.wf(),
            id.0 < self.entries().len(),
        ensures
            r@ == self.entries()[id.0 as int],
    {
        vec_get(&self.vec, id.inner())
    }
}

} // verus!
