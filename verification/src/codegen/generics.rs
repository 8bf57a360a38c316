//! Inferring trait bounds for the generated implementations.

use crate::codegen::ast::{GenericsModel, Predicate, TypeModel};
use crate::extract::{lemma_strings_view_push, lemma_take_push, strings_view};
use crate::strings::str_eq;
use vstd::prelude::*;

verus! {

/// The view of one inferred predicate: the type's text and its bounds.
pub open spec fn pred_view(p: Predicate) -> (Seq<char>, Seq<Seq<char>>) {
    (p.ty@, strings_view(p.bounds@))
}

/// The views of a list of predicates.
pub open spec fn preds_view(s: Seq<Predicate>) -> Seq<(Seq<char>, Seq<Seq<char>>)> {
    s.map_values(|p: Predicate| pred_view(p))
}

/// Mapping to views commutes with appending one predicate.
pub proof fn lemma_preds_view_push(s: Seq<Predicate>, x: Predicate)
    ensures
        preds_view(s.push(x)) == preds_view(s).push(pred_view(x)),
{
    assert(s.push(x).len() == s.len() + 1);
    assert(preds_view(s.push(x)).len() == s.len() + 1);
    assert forall|k: int| 0 <= k < s.len() + 1 implies preds_view(s.push(x))[k] == preds_view(
        s,
    ).push(pred_view(x))[k] by {
        if k < s.len() {
            assert(s.push(x)[k] == s[k]);
        } else {
            assert(s.push(x)[k] == x);
        }
    }
    assert(preds_view(s.push(x)) =~= preds_view(s).push(pred_view(x)));
}

/// Whether a type parameter in scope occurs in the type: as the bare head
/// of a path, or anywhere among the angle-bracketed arguments or the
/// qualified self type.
pub open spec fn occurs(names: Seq<Seq<char>>, t: TypeModel) -> bool
    decreases t,
{
    match t {
        TypeModel::Other => false,
        TypeModel::Path { qself, segments } => {
            let head = match qself {
                Some(q) => occurs(names, *q),
                None => segments@.len() > 0 && segments@[0].args@.len() == 0 && names.contains(
                    segments@[0].name@,
                ),
            };
            head || exists|i: int, j: int|
                0 <= i < segments@.len() && 0 <= j < segments@[i].args@.len() && occurs(
                    names,
                    #[trigger] segments@[i].args@[j],
                )
        },
    }
}

/// The type parameter names a declaration has in scope.
pub struct ParamsInScope {
    pub names: Vec<String>,
}

impl ParamsInScope {
    /// Collects the declaration's type parameter names.
    pub fn new(generics: &GenericsModel) -> (r: Self)
        ensures
            strings_view(r.names@) == strings_view(generics.params@),
    {
        let mut names: Vec<String> = Vec::new();
        let mut i: usize = 0;
        while i < generics.params.len()
            invariant
                i <= generics.params@.len(),
                strings_view(names@) == strings_view(generics.params@).take(i as int),
            decreases generics.params@.len() - i,
        {
            let ghost before = names@;
            let v = generics.params[i].clone();
            names.push(v);
            proof {
                lemma_strings_view_push(before, v);
                assert(strings_view(generics.params@)[i as int] == generics.params@[i as int]@);
                lemma_take_push(strings_view(generics.params@), i as int);
            }
            i = i + 1;
        }
        proof {
            assert(strings_view(generics.params@).take(generics.params@.len() as int)
                =~= strings_view(generics.params@));
        }
        ParamsInScope { names }
    }

    /// Whether one of the names in scope occurs in `ty`.
    pub fn intersects(&self, ty: &TypeModel) -> (r: bool)
        ensures
            r == occurs(strings_view(self.names@), *ty),
    {
        let mut found = false;
        crawl(self, ty, &mut found);
        found
    }

    fn contains_name(&self, name: &str) -> (r: bool)
        ensures
            r == strings_view(self.names@).contains(name@),
    {
        let mut i: usize = 0;
        while i < self.names.len()
            invariant
                i <= self.names@.len(),
                forall|k: int| 0 <= k < i ==> strings_view(self.names@)[k] != name@,
            decreases self.names@.len() - i,
        {
            if str_eq(self.names[i].as_str(), name) {
                proof {
                    assert(strings_view(self.names@)[i as int] == name@);
                }
                return true;
            }
            i = i + 1;
        }
        proof {
            if strings_view(self.names@).contains(name@) {
                let k = choose|k: int|
                    0 <= k < strings_view(self.names@).len() && strings_view(self.names@)[k]
                        == name@;
                assert(false);
            }
        }
        false
    }
}

/// Walks `t`, setting `found` when a name in scope occurs in it.
fn crawl(scope: &ParamsInScope, t: &TypeModel, found: &mut bool)
    ensures
        *final(found) == (*old(found) || occurs(strings_view(scope.names@), *t)),
    decreases *t,
{
    let ghost names = strings_view(scope.names@);
    match t {
        TypeModel::Other => {},
        TypeModel::Path { qself, segments } => {
            proof {
                assert(t->Path_segments == *segments);
            }
            match qself {
                Some(q) => {
                    proof {
                        assert(t->Path_qself == Some(*q));
                    }
                    crawl(scope, q, found);
                },
                None => {
                    proof {
                        assert(t->Path_qself is None);
                    }
                    if segments.len() > 0 {
                        let front = &segments[0];
                        if front.args.len() == 0 && scope.contains_name(front.name.as_str()) {
                            *found = true;
                        }
                    }
                },
            }
            let ghost head = match t->Path_qself {
                Some(q) => occurs(names, *q),
                None => segments@.len() > 0 && segments@[0].args@.len() == 0 && names.contains(
                    segments@[0].name@,
                ),
            };
            let ghost pre = *old(found);
            proof {
                assert(*found == (pre || head));
            }
            let ghost mid = *found;
            let mut i: usize = 0;
            while i < segments.len()
                invariant
                    i <= segments@.len(),
                    *t matches TypeModel::Path { qself: _, segments: segs } && segs@ == segments@,
                    *found == (mid || exists|a: int, b: int|
                        0 <= a < i && 0 <= b < segments@[a].args@.len() && occurs(
                            names,
                            #[trigger] segments@[a].args@[b],
                        )),
                    names == strings_view(scope.names@),
                decreases segments@.len() - i,
            {
                let ghost loop_in = *found;
                let seg = &segments[i];
                let mut j: usize = 0;
                while j < seg.args.len()
                    invariant
                        j <= seg.args@.len(),
                        *seg == segments@[i as int],
                        i < segments@.len(),
                        *t matches TypeModel::Path { qself: _, segments: segs } && segs@
                            == segments@,
                        *found == (loop_in || exists|b: int|
                            0 <= b < j && occurs(names, #[trigger] seg.args@[b])),
                        names == strings_view(scope.names@),
                    decreases seg.args@.len() - j,
                {
                    proof {
                        assert(seg.args@[j as int] == t->Path_segments@[i as int].args@[j as int]);
                        assert(decreases_to!(*t => t->Path_segments));
                        assert(decreases_to!(t->Path_segments => t->Path_segments@));
                        assert(decreases_to!(t->Path_segments@ => t->Path_segments@[i as int]));
                        assert(decreases_to!(
                            t->Path_segments@[i as int] => t->Path_segments@[i as int].args));
                        assert(decreases_to!(
                            t->Path_segments@[i as int].args => t->Path_segments@[i as int].args@));
                        assert(decreases_to!(
                            t->Path_segments@[i as int].args@ =>
                            t->Path_segments@[i as int].args@[j as int]));
                    }
                    crawl(scope, &seg.args[j], found);
                    j = j + 1;
                }
                proof {
                    assert(*found == (mid || exists|a: int, b: int|
                        0 <= a < i + 1 && 0 <= b < segments@[a].args@.len() && occurs(
                            names,
                            #[trigger] segments@[a].args@[b],
                        ))) by {
                        if *found && !loop_in {
                            let b = choose|b: int|
                                0 <= b < seg.args@.len() && occurs(names, #[trigger] seg.args@[b]);
                            assert(occurs(names, segments@[i as int].args@[b]));
                        }
                        if !*found {
                            assert forall|a: int, b: int|
                                0 <= a < i + 1 && 0 <= b < segments@[a].args@.len() implies !occurs(
                                names,
                                #[trigger] segments@[a].args@[b],
                            ) by {
                                if a == i {
                                    assert(segments@[a].args@[b] == seg.args@[b]);
                                }
                            }
                        }
                    }
                }
                i = i + 1;
            }
            proof {
                assert(*found == (pre || occurs(names, *t)));
            }
        },
    }
}

/// The bounds the generator inferred, keyed by the type's text, in first
/// insertion order and without repeated bounds.
pub struct InferredBounds {
    pub entries: Vec<Predicate>,
}

/// What inserting one bound does to the inferred set: the first entry for
/// the type gains the bound unless it already holds it; a type without an
/// entry gains one at the end.
pub open spec fn insert_pred(
    s: Seq<(Seq<char>, Seq<Seq<char>>)>,
    ty: Seq<char>,
    bound: Seq<char>,
) -> Seq<(Seq<char>, Seq<Seq<char>>)>
    decreases s.len(),
{
    if s.len() == 0 {
        seq![(ty, seq![bound])]
    } else if s[0].0 == ty {
        if s[0].1.contains(bound) {
            s
        } else {
            seq![(s[0].0, s[0].1.push(bound))] + s.skip(1)
        }
    } else {
        seq![s[0]] + insert_pred(s.skip(1), ty, bound)
    }
}

/// Inserting each bound in turn, for one type.
pub open spec fn insert_all(
    s: Seq<(Seq<char>, Seq<Seq<char>>)>,
    ty: Seq<char>,
    bounds: Seq<Seq<char>>,
) -> Seq<(Seq<char>, Seq<Seq<char>>)>
    decreases bounds.len(),
{
    if bounds.len() == 0 {
        s
    } else {
        insert_all(insert_pred(s, ty, bounds[0]), ty, bounds.skip(1))
    }
}

/// Merging another inferred set: its entries are inserted in order.
pub open spec fn merge_preds(
    s: Seq<(Seq<char>, Seq<Seq<char>>)>,
    other: Seq<(Seq<char>, Seq<Seq<char>>)>,
) -> Seq<(Seq<char>, Seq<Seq<char>>)>
    decreases other.len(),
{
    if other.len() == 0 {
        s
    } else {
        merge_preds(insert_all(s, other[0].0, other[0].1), other.skip(1))
    }
}

impl InferredBounds {
    /// An empty set, with room for `capacity` entries.
    pub fn with_capacity(capacity: usize) -> (r: Self)
        ensures
            preds_view(r.entries@) =~= Seq::<(Seq<char>, Seq<Seq<char>>)>::empty(),
    {
        let entries: Vec<Predicate> = Vec::with_capacity(capacity);
        InferredBounds { entries }
    }

    /// Records that `ty` needs `bound`.
    pub fn insert(&mut self, ty: &str, bound: &str)
        ensures
            preds_view(final(self).entries@) == insert_pred(
                preds_view(old(self).entries@),
                ty@,
                bound@,
            ),
    {
        let ghost s0 = preds_view(self.entries@);
        let mut i: usize = 0;
        while i < self.entries.len()
            invariant
                i <= self.entries@.len(),
                s0 == preds_view(self.entries@),
                s0 == preds_view(old(self).entries@),
                forall|k: int| 0 <= k < i ==> s0[k].0 != ty@,
            decreases self.entries@.len() - i,
        {
            proof {
                assert(s0[i as int] == pred_view(self.entries@[i as int]));
            }
            if str_eq(self.entries[i].ty.as_str(), ty) {
                let mut already = false;
                let entry_bounds_len = self.entries[i].bounds.len();
                let mut j: usize = 0;
                proof {
                    assert(s0[i as int].1 == strings_view(self.entries@[i as int].bounds@));
                }
                while j < entry_bounds_len
                    invariant
                        j <= s0[i as int].1.len(),
                        entry_bounds_len == s0[i as int].1.len(),
                        i < s0.len(),
                        s0 == preds_view(self.entries@),
                        s0[i as int].1 == strings_view(self.entries@[i as int].bounds@),
                        already == exists|k: int| 0 <= k < j && s0[i as int].1[k] == bound@,
                    decreases entry_bounds_len - j,
                {
                    proof {
                        assert(s0[i as int].1[j as int] == self.entries@[i as int].bounds@[j
                            as int]@);
                    }
                    if str_eq(self.entries[i].bounds[j].as_str(), bound) {
                        already = true;
                    }
                    j = j + 1;
                }
                proof {
                    lemma_insert_pred_prefix(s0, ty@, bound@, i as int);
                    assert(s0.skip(i as int)[0] == s0[i as int]);
                }
                if !already {
                    let ghost pre = self.entries@;
                    let mut taken = self.entries.remove(i);
                    taken.bounds.push(bound.to_owned());
                    self.entries.insert(i, taken);
                    proof {
                        assert(self.entries@ =~= pre.update(i as int, taken));
                        lemma_strings_view_push(pre[i as int].bounds@, taken.bounds@.last());
                        assert(pred_view(taken) == (s0[i as int].0, s0[i as int].1.push(bound@)));
                        assert(s0.skip(i as int).skip(1) =~= s0.skip(i + 1));
                        assert(insert_pred(s0.skip(i as int), ty@, bound@) == seq![
                            (s0[i as int].0, s0[i as int].1.push(bound@)),
                        ] + s0.skip(i + 1));
                        assert(preds_view(self.entries@) =~= s0.take(i as int) + (seq![
                            (s0[i as int].0, s0[i as int].1.push(bound@)),
                        ] + s0.skip(i + 1)));
                    }
                } else {
                    proof {
                        assert(s0[i as int].1.contains(bound@));
                        assert(insert_pred(s0.skip(i as int), ty@, bound@) == s0.skip(i as int));
                        assert(s0.take(i as int) + s0.skip(i as int) =~= s0);
                    }
                }
                proof {
                    assert(preds_view(self.entries@) == insert_pred(s0, ty@, bound@));
                }
                return ;
            }
            i = i + 1;
        }
        let ghost pre = self.entries@;
        let bounds = vec![bound.to_owned()];
        self.entries.push(Predicate { ty: ty.to_owned(), bounds });
        proof {
            lemma_insert_pred_prefix(s0, ty@, bound@, s0.len() as int);
            assert(s0.skip(s0.len() as int) =~= Seq::<(Seq<char>, Seq<Seq<char>>)>::empty());
            assert(s0.take(s0.len() as int) =~= s0);
            lemma_preds_view_push(pre, self.entries@.last());
            assert(pred_view(self.entries@.last()) == (ty@, seq![bound@]));
            assert(preds_view(self.entries@) =~= s0 + seq![(ty@, seq![bound@])]);
            assert(insert_pred(s0, ty@, bound@) =~= s0 + seq![(ty@, seq![bound@])]);
        }
    }

    /// Merges `other`'s entries into this set, in order.
    pub fn merge(&mut self, other: &InferredBounds)
        ensures
            preds_view(final(self).entries@) == merge_preds(
                preds_view(old(self).entries@),
                preds_view(other.entries@),
            ),
    {
        let ghost s0 = preds_view(self.entries@);
        let ghost o = preds_view(other.entries@);
        proof {
            assert(o.skip(0) =~= o);
        }
        let mut i: usize = 0;
        while i < other.entries.len()
            invariant
                i <= other.entries@.len(),
                o == preds_view(other.entries@),
                merge_preds(preds_view(self.entries@), o.skip(i as int)) == merge_preds(s0, o),
            decreases other.entries@.len() - i,
        {
            let ghost before = preds_view(self.entries@);
            proof {
                assert(o[i as int] == pred_view(other.entries@[i as int]));
                assert(o[i as int].1 == strings_view(other.entries@[i as int].bounds@));
                assert(o[i as int].1.skip(0) =~= o[i as int].1);
            }
            let entry_bounds_len = other.entries[i].bounds.len();
            let mut j: usize = 0;
            while j < entry_bounds_len
                invariant
                    j <= o[i as int].1.len(),
                    i < o.len(),
                    i < other.entries@.len(),
                    entry_bounds_len == o[i as int].1.len(),
                    o == preds_view(other.entries@),
                    o[i as int].1 == strings_view(other.entries@[i as int].bounds@),
                    insert_all(preds_view(self.entries@), o[i as int].0, o[i as int].1.skip(
                        j as int,
                    )) == insert_all(before, o[i as int].0, o[i as int].1),
                decreases entry_bounds_len - j,
            {
                let ty = other.entries[i].ty.clone();
                let bound = other.entries[i].bounds[j].clone();
                proof {
                    assert(ty@ == o[i as int].0);
                    assert(bound@ == o[i as int].1[j as int]);
                }
                let ghost mid = preds_view(self.entries@);
                self.insert(ty.as_str(), bound.as_str());
                proof {
                    assert(o[i as int].1.skip(j as int)[0] == o[i as int].1[j as int]);
                    assert(o[i as int].1.skip(j as int).skip(1) =~= o[i as int].1.skip(j + 1));
                    assert(insert_all(mid, o[i as int].0, o[i as int].1.skip(j as int))
                        == insert_all(
                        insert_pred(mid, o[i as int].0, o[i as int].1[j as int]),
                        o[i as int].0,
                        o[i as int].1.skip(j + 1),
                    ));
                }
                j = j + 1;
            }
            proof {
                assert(o[i as int].1.skip(entry_bounds_len as int) =~= Seq::<Seq<char>>::empty());
                assert(insert_all(preds_view(self.entries@), o[i as int].0, o[i as int].1.skip(
                    entry_bounds_len as int,
                )) == preds_view(self.entries@));
                assert(o.skip(i as int)[0] == o[i as int]);
                assert(o.skip(i as int).skip(1) =~= o.skip(i + 1));
                assert(merge_preds(before, o.skip(i as int)) == merge_preds(
                    insert_all(before, o[i as int].0, o[i as int].1),
                    o.skip(i + 1),
                ));
            }
            i = i + 1;
        }
        proof {
            assert(o.skip(o.len() as int) =~= Seq::<(Seq<char>, Seq<Seq<char>>)>::empty());
        }
    }

    /// Appends this set's entries to a declared where clause.
    pub fn augment_where_clause(&self, where_preds: Vec<Predicate>) -> (r: Vec<Predicate>)
        ensures
            preds_view(r@) == preds_view(where_preds@) + preds_view(self.entries@),
    {
        let ghost w = preds_view(where_preds@);
        let ghost e = preds_view(self.entries@);
        let mut r = where_preds;
        let mut i: usize = 0;
        proof {
            assert(preds_view(r@) =~= w + e.take(0));
        }
        while i < self.entries.len()
            invariant
                i <= self.entries@.len(),
                e == preds_view(self.entries@),
                preds_view(r@) == w + e.take(i as int),
            decreases self.entries@.len() - i,
        {
            let ghost before = r@;
            r.push(clone_predicate(&self.entries[i]));
            proof {
                lemma_preds_view_push(before, r@.last());
                assert(pred_view(r@.last()) == e[i as int]);
                assert((w + e.take(i as int)).push(e[i as int]) =~= w + e.take(i + 1));
            }
            i = i + 1;
        }
        proof {
            assert(e.take(e.len() as int) =~= e);
        }
        r
    }
}

/// Clones one predicate, keeping its text.
pub fn clone_predicate(p: &Predicate) -> (r: Predicate)
    ensures
        pred_view(r) == pred_view(*p),
{
    let ty = p.ty.clone();
    let mut bounds: Vec<String> = Vec::new();
    let mut i: usize = 0;
    while i < p.bounds.len()
        invariant
            i <= p.bounds@.len(),
            strings_view(bounds@) == strings_view(p.bounds@).take(i as int),
        decreases p.bounds@.len() - i,
    {
        let ghost before = bounds@;
        let b = p.bounds[i].clone();
        bounds.push(b);
        proof {
            lemma_strings_view_push(before, b);
            assert(strings_view(p.bounds@)[i as int] == p.bounds@[i as int]@);
            lemma_take_push(strings_view(p.bounds@), i as int);
        }
        i = i + 1;
    }
    proof {
        assert(strings_view(p.bounds@).take(p.bounds@.len() as int) =~= strings_view(p.bounds@));
    }
    Predicate { ty, bounds }
}

/// Inserting leaves a prefix of entries for other types unchanged: with
/// the first `k` entries not for `ty`, the insertion happens past them.
pub proof fn lemma_insert_pred_prefix(
    s: Seq<(Seq<char>, Seq<Seq<char>>)>,
    ty: Seq<char>,
    bound: Seq<char>,
    k: int,
)
    requires
        0 <= k <= s.len(),
        forall|m: int| 0 <= m < k ==> s[m].0 != ty,
    ensures
        insert_pred(s, ty, bound) == s.take(k) + insert_pred(s.skip(k), ty, bound),
    decreases k,
{
    if k == 0 {
        assert(s.take(0) =~= Seq::<(Seq<char>, Seq<Seq<char>>)>::empty());
        assert(s.skip(0) =~= s);
        assert(s.take(0) + insert_pred(s, ty, bound) =~= insert_pred(s, ty, bound));
    } else {
        assert(s.len() > 0 && s[0].0 != ty);
        lemma_insert_pred_prefix(s.skip(1), ty, bound, k - 1);
        assert(s.skip(1).take(k - 1) =~= s.take(k).skip(1));
        assert(s.skip(1).skip(k - 1) =~= s.skip(k));
        assert(seq![s[0]] + (s.take(k).skip(1) + insert_pred(s.skip(k), ty, bound)) =~= s.take(k)
            + insert_pred(s.skip(k), ty, bound));
    }
}

} // verus!
