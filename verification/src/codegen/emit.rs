//! Deciding what is emitted for a declaration.
//!
//! The structural rules: a `source` field together with a `backtrace`
//! field marks an error that wraps a foreign error; `source` alone marks
//! one that wraps an error of this library's kind; `backtrace` alone
//! marks a root error; neither is an error.

use crate::codegen::ast::{
    DataModel, DeriveInputModel, FieldModel, FieldsModel, GenericsModel, Predicate, VariantModel,
    VisModel,
};
use crate::codegen::generics::{
    clone_predicate, lemma_insert_pred_prefix, merge_preds, insert_pred, occurs, pred_view,
    preds_view, InferredBounds, ParamsInScope,
};
use crate::codegen::messages::incorrect_def_msg;
use crate::codegen::messages::{
    at_least_one_field_msg, at_least_one_variant_msg, display_tokens_not_on_enum_msg,
    missing_display_on_variant_msg, supported_types_msg,
};
use crate::codegen::parser::{
    context_vis_of, mod_vis_of, parse_type_attr, parse_variant_attr, type_attrs_fold,
    type_state0, variant_attrs_fold, variant_state0, TypeAttr, VariantAttrState,
};
use crate::codegen::types::TypeDisplayAttr;
use crate::codegen::types::ErrorKind;
use crate::decimal::{dec_rep, lemma_dec_rep_injective, u32_to_dec};
use crate::extract::{lemma_strings_view_push, strings_view};
use crate::strings::str_eq;
use vstd::prelude::*;

verus! {

/// The category a field shape falls under, if any: `source` and
/// `backtrace` wrap a foreign error, `source` alone wraps an error of
/// this library's kind, `backtrace` alone marks a root error, and
/// neither is refused.
pub open spec fn classify(has_source: bool, has_backtrace: bool) -> Option<ErrorKind> {
    if !has_source && !has_backtrace {
        Option::None
    } else if !has_source {
        Option::Some(ErrorKind::Root)
    } else if !has_backtrace {
        Option::Some(ErrorKind::Err2)
    } else {
        Option::Some(ErrorKind::Std)
    }
}

/// Whether a field is carried into the generated context: any field but
/// `source` and `backtrace`.
pub open spec fn is_carried(f: FieldModel) -> bool {
    f.name@ != "source"@ && f.name@ != "backtrace"@
}

/// Whether some field bears the name.
pub open spec fn has_named(fs: Seq<FieldModel>, n: Seq<char>) -> bool {
    exists|k: int| 0 <= k < fs.len() && (#[trigger] fs[k]).name@ == n
}

/// The index of the last field bearing the name, `-1` when there is none.
pub open spec fn last_named(fs: Seq<FieldModel>, n: Seq<char>) -> int
    decreases fs.len(),
{
    if fs.len() == 0 {
        -1
    } else if fs.last().name@ == n {
        fs.len() - 1
    } else {
        last_named(fs.drop_last(), n)
    }
}

/// The carried fields among the first `n`, each with its index.
pub open spec fn carried_upto(fs: Seq<FieldModel>, n: int) -> Seq<(int, FieldModel)>
    decreases n,
{
    if n <= 0 {
        Seq::empty()
    } else {
        carried_upto(fs, n - 1) + (if is_carried(fs[n - 1]) {
            seq![(n - 1, fs[n - 1])]
        } else {
            Seq::empty()
        })
    }
}

/// All carried fields, each with its index.
pub open spec fn carried(fs: Seq<FieldModel>) -> Seq<(int, FieldModel)> {
    carried_upto(fs, fs.len() as int)
}

/// The generic parameter standing for the carried field at index `i`.
pub open spec fn generic_name(i: int) -> Seq<char> {
    "__T"@ + dec_rep(i as nat)
}

/// The conversion bound a carried field puts on its generic parameter.
pub open spec fn into_bound_text(f: FieldModel) -> Seq<char> {
    "::core::convert::Into<"@ + f.ty_text@ + ">"@
}

/// The bound inferred for a generic `source` field type.
pub open spec fn err2_bound_text() -> Seq<char> {
    "::error2::Error2 + 'static"@
}

/// The bound entries the carried fields contribute, one per field.
pub open spec fn carried_bound_entries(cf: Seq<(int, FieldModel)>) -> Seq<
    (Seq<char>, Seq<Seq<char>>),
> {
    cf.map_values(|p: (int, FieldModel)| (generic_name(p.0), seq![into_bound_text(p.1)]))
}

proof fn lemma_generic_name_injective(a: int, b: int)
    requires
        a >= 0,
        b >= 0,
        a != b,
    ensures
        generic_name(a) != generic_name(b),
{
    reveal_strlit("__T");
    lemma_dec_rep_injective(a as nat, b as nat);
    assert(generic_name(a).skip("__T"@.len() as int) =~= dec_rep(a as nat));
    assert(generic_name(b).skip("__T"@.len() as int) =~= dec_rep(b as nat));
}

/// Carried indices lie below the scanned prefix.
proof fn lemma_carried_upto_bounds(fs: Seq<FieldModel>, n: int)
    requires
        0 <= n,
    ensures
        forall|m: int|
            0 <= m < carried_upto(fs, n).len() ==> 0 <= (#[trigger] carried_upto(fs, n)[m]).0 < n,
    decreases n,
{
    if n > 0 {
        lemma_carried_upto_bounds(fs, n - 1);
        let prev = carried_upto(fs, n - 1);
        assert forall|m: int|
            0 <= m < carried_upto(fs, n).len() implies 0 <= (#[trigger] carried_upto(fs, n)[m]).0
            < n by {
            if m < prev.len() {
                assert(carried_upto(fs, n)[m] == prev[m]);
            } else {
                assert(carried_upto(fs, n)[m] == (n - 1, fs[n - 1]));
            }
        }
    }
}

proof fn lemma_has_named_step(fs: Seq<FieldModel>, i: int, n: Seq<char>)
    requires
        0 <= i < fs.len(),
    ensures
        has_named(fs.take(i + 1), n) == (has_named(fs.take(i), n) || fs[i].name@ == n),
{
    if has_named(fs.take(i + 1), n) {
        let k = choose|k: int| 0 <= k < fs.take(i + 1).len() && (#[trigger] fs.take(i + 1)[k]).name@ == n;
        if k < i {
            assert(fs.take(i)[k].name@ == n);
        }
    }
    if has_named(fs.take(i), n) {
        let k = choose|k: int| 0 <= k < fs.take(i).len() && (#[trigger] fs.take(i)[k]).name@ == n;
        assert(fs.take(i + 1)[k].name@ == n);
    }
    if fs[i].name@ == n {
        assert(fs.take(i + 1)[i].name@ == n);
    }
}

/// The last field bearing a present name is a real index.
pub proof fn lemma_last_named_bounds(fs: Seq<FieldModel>, n: Seq<char>)
    requires
        has_named(fs, n),
    ensures
        0 <= last_named(fs, n) < fs.len(),
    decreases fs.len(),
{
    if fs.last().name@ != n {
        let k = choose|k: int| 0 <= k < fs.len() && (#[trigger] fs[k]).name@ == n;
        assert(fs.drop_last()[k].name@ == n);
        lemma_last_named_bounds(fs.drop_last(), n);
    }
}

/// What a scan of the fields found: where the `source` field is, whether
/// a `backtrace` field exists, the carried fields' names, their generic
/// parameters, and the conversion bounds those parameters need.
pub struct ScanOut {
    pub source_idx: Option<usize>,
    pub has_backtrace: bool,
    pub carried_names: Vec<String>,
    pub carried_generics: Vec<String>,
    pub bounds: InferredBounds,
}

/// Walks the fields once, partitioning them as the generator reads them.
pub fn scan_fields(fields: &Vec<FieldModel>) -> (r: ScanOut)
    requires
        fields@.len() < u32::MAX,
    ensures
        r.source_idx is Some <==> has_named(fields@, "source"@),
        r.source_idx matches Some(k) ==> k == last_named(fields@, "source"@),
        r.has_backtrace == has_named(fields@, "backtrace"@),
        strings_view(r.carried_names@) == carried(fields@).map_values(
            |p: (int, FieldModel)| p.1.name@,
        ),
        strings_view(r.carried_generics@) == carried(fields@).map_values(
            |p: (int, FieldModel)| generic_name(p.0),
        ),
        preds_view(r.bounds.entries@) == carried_bound_entries(carried(fields@)),
{
    let mut source_idx: Option<usize> = None;
    let mut has_backtrace = false;
    let mut carried_names: Vec<String> = Vec::new();
    let mut carried_generics: Vec<String> = Vec::new();
    let mut bounds = InferredBounds::with_capacity(fields.len());
    let mut i: usize = 0;
    proof {
        assert(fields@.take(0) =~= Seq::<FieldModel>::empty());
        assert(strings_view(carried_names@) =~= Seq::<Seq<char>>::empty());
        assert(strings_view(carried_generics@) =~= Seq::<Seq<char>>::empty());
        assert(carried_upto(fields@, 0).map_values(|p: (int, FieldModel)| p.1.name@) =~= Seq::<
            Seq<char>,
        >::empty());
        assert(carried_upto(fields@, 0).map_values(|p: (int, FieldModel)| generic_name(p.0))
            =~= Seq::<Seq<char>>::empty());
        assert(carried_bound_entries(carried_upto(fields@, 0)) =~= Seq::<
            (Seq<char>, Seq<Seq<char>>),
        >::empty());
    }
    while i < fields.len()
        invariant
            i <= fields@.len(),
            fields@.len() < u32::MAX,
            source_idx is Some <==> has_named(fields@.take(i as int), "source"@),
            source_idx matches Some(k) ==> k == last_named(fields@.take(i as int), "source"@),
            has_backtrace == has_named(fields@.take(i as int), "backtrace"@),
            strings_view(carried_names@) == carried_upto(fields@, i as int).map_values(
                |p: (int, FieldModel)| p.1.name@,
            ),
            strings_view(carried_generics@) == carried_upto(fields@, i as int).map_values(
                |p: (int, FieldModel)| generic_name(p.0),
            ),
            preds_view(bounds.entries@) == carried_bound_entries(carried_upto(fields@, i as int)),
        decreases fields@.len() - i,
    {
        let ghost cf = carried_upto(fields@, i as int);
        let f = &fields[i];
        proof {
            reveal_strlit("source");
            reveal_strlit("backtrace");
            assert("source"@.len() == 6 && "backtrace"@.len() == 9);
            assert("source"@ != "backtrace"@);
            lemma_has_named_step(fields@, i as int, "source"@);
            lemma_has_named_step(fields@, i as int, "backtrace"@);
            assert(fields@.take(i + 1).last() == fields@[i as int]);
            assert(fields@.take(i + 1).drop_last() =~= fields@.take(i as int));
        }
        if str_eq(f.name.as_str(), "source") {
            source_idx = Some(i);
            proof {
                assert(carried_upto(fields@, i + 1) =~= cf);
            }
        } else if str_eq(f.name.as_str(), "backtrace") {
            has_backtrace = true;
            proof {
                assert(carried_upto(fields@, i + 1) =~= cf);
            }
        } else {
            let ghost names_before = carried_names@;
            let ghost generics_before = carried_generics@;
            carried_names.push(f.name.clone());
            let mut g = "__T".to_owned();
            let dec = u32_to_dec(i as u32);
            g.append(dec.as_str());
            proof {
                assert(g@ == generic_name(i as int));
            }
            let mut b = "::core::convert::Into<".to_owned();
            b.append(f.ty_text.as_str());
            b.append(">");
            proof {
                assert(b@ =~= into_bound_text(fields@[i as int]));
            }
            carried_generics.push(g.clone());
            let ghost bview = preds_view(bounds.entries@);
            bounds.insert(g.as_str(), b.as_str());
            proof {
                lemma_strings_view_push(names_before, carried_names@.last());
                lemma_strings_view_push(generics_before, carried_generics@.last());
                assert(carried_upto(fields@, i + 1) =~= cf + seq![
                    (i as int, fields@[i as int]),
                ]);
                lemma_carried_upto_bounds(fields@, i as int);
                assert forall|m: int| 0 <= m < bview.len() implies (#[trigger] bview[m]).0 != g@ by {
                    assert(bview[m] == carried_bound_entries(cf)[m]);
                    assert(bview[m].0 == generic_name(cf[m].0));
                    lemma_generic_name_injective(cf[m].0, i as int);
                }
                lemma_insert_pred_prefix(bview, g@, b@, bview.len() as int);
                assert(bview.take(bview.len() as int) =~= bview);
                assert(bview.skip(bview.len() as int) =~= Seq::<
                    (Seq<char>, Seq<Seq<char>>),
                >::empty());
                assert(preds_view(bounds.entries@) =~= bview + seq![(g@, seq![b@])]);
                assert(strings_view(carried_names@) =~= carried_upto(fields@, i + 1).map_values(
                    |p: (int, FieldModel)| p.1.name@,
                ));
                assert(strings_view(carried_generics@) =~= carried_upto(
                    fields@,
                    i + 1,
                ).map_values(|p: (int, FieldModel)| generic_name(p.0)));
                assert(preds_view(bounds.entries@) =~= carried_bound_entries(
                    carried_upto(fields@, i + 1),
                ));
            }
        }
        i = i + 1;
    }
    proof {
        assert(fields@.take(fields@.len() as int) =~= fields@);
    }
    ScanOut { source_idx, has_backtrace, carried_names, carried_generics, bounds }
}

/// Clones a declared where clause.
pub fn clone_predicates(v: &Vec<Predicate>) -> (r: Vec<Predicate>)
    ensures
        preds_view(r@) == preds_view(v@),
{
    let mut r: Vec<Predicate> = Vec::new();
    let mut i: usize = 0;
    proof {
        assert(preds_view(r@) =~= preds_view(v@).take(0));
    }
    while i < v.len()
        invariant
            i <= v@.len(),
            preds_view(r@) == preds_view(v@).take(i as int),
        decreases v@.len() - i,
    {
        let ghost before = r@;
        r.push(clone_predicate(&v[i]));
        proof {
            crate::codegen::generics::lemma_preds_view_push(before, r@.last());
            assert(preds_view(v@).take(i as int).push(pred_view(r@.last())) =~= preds_view(
                v@,
            ).take(i + 1));
        }
        i = i + 1;
    }
    proof {
        assert(preds_view(v@).take(v@.len() as int) =~= preds_view(v@));
    }
    r
}

/// The parts joined by commas, as in a generic argument list.
pub open spec fn joined_comma(parts: Seq<Seq<char>>) -> Seq<char>
    decreases parts.len(),
{
    if parts.len() == 0 {
        Seq::empty()
    } else if parts.len() == 1 {
        parts[0]
    } else {
        parts[0] + seq![',', ' '] + joined_comma(parts.skip(1))
    }
}

proof fn lemma_joined_comma_snoc(parts: Seq<Seq<char>>, x: Seq<char>)
    requires
        parts.len() > 0,
    ensures
        joined_comma(parts.push(x)) == joined_comma(parts) + seq![',', ' '] + x,
    decreases parts.len(),
{
    if parts.len() == 1 {
        assert(parts.push(x).skip(1) =~= seq![x]);
        assert(joined_comma(seq![x]) == x);
        assert(joined_comma(parts.push(x)) == parts.push(x)[0] + seq![',', ' '] + joined_comma(
            parts.push(x).skip(1),
        ));
        assert(joined_comma(parts.push(x)) =~= parts[0] + seq![',', ' '] + x);
    } else {
        assert(parts.push(x).skip(1) =~= parts.skip(1).push(x));
        lemma_joined_comma_snoc(parts.skip(1), x);
        assert(joined_comma(parts.push(x)) == parts.push(x)[0] + seq![',', ' '] + joined_comma(
            parts.push(x).skip(1),
        ));
        assert(joined_comma(parts.push(x)) =~= joined_comma(parts) + seq![',', ' '] + x);
    }
}

/// The printed form of the declared type applied to its parameters, as
/// it stands in inferred bounds.
pub open spec fn self_ty_text(ident: Seq<char>, params: Seq<Seq<char>>) -> Seq<char> {
    if params.len() == 0 {
        ident
    } else {
        ident + seq!['<'] + joined_comma(params) + seq!['>']
    }
}

fn render_self_ty(ident: &str, params: &Vec<String>) -> (r: String)
    ensures
        r@ == self_ty_text(ident@, strings_view(params@)),
{
    proof {
        reveal_strlit("<");
        reveal_strlit(">");
        reveal_strlit(", ");
    }
    if params.len() == 0 {
        proof {
            assert(strings_view(params@).len() == 0);
        }
        return ident.to_owned();
    }
    let ghost ps = strings_view(params@);
    let mut buf = ident.to_owned();
    buf.append("<");
    let mut i: usize = 0;
    while i < params.len()
        invariant
            0 < params@.len(),
            i <= params@.len(),
            ps == strings_view(params@),
            "<"@ == seq!['<'],
            ", "@ == seq![',', ' '],
            buf@ == ident@ + seq!['<'] + joined_comma(ps.take(i as int)),
        decreases params@.len() - i,
    {
        if i > 0 {
            buf.append(", ");
        }
        buf.append(params[i].as_str());
        proof {
            assert(params@[i as int]@ == ps[i as int]);
            if i > 0 {
                lemma_joined_comma_snoc(ps.take(i as int), ps[i as int]);
            } else {
                assert(joined_comma(ps.take(0)) =~= Seq::<char>::empty());
                assert(joined_comma(seq![ps[0]]) == ps[0]);
            }
            assert(ps.take(i as int).push(ps[i as int]) =~= ps.take(i + 1));
            assert(buf@ =~= ident@ + seq!['<'] + joined_comma(ps.take(i + 1)));
        }
        i = i + 1;
    }
    buf.append(">");
    proof {
        assert(ps.take(ps.len() as int) =~= ps);
        assert(buf@ =~= self_ty_text(ident@, ps));
    }
    buf
}

/// The name the snake_case module wrapping the expansion gets.
pub uninterp spec fn snake_of(s: Seq<char>) -> Seq<char>;

/// Relies on heck's `ToSnakeCase` for `str`: the snake_case form of an
/// identifier, a function of its characters alone.
#[verifier::external_body]
fn to_snake_case(s: &str) -> (r: String)
    ensures
        r@ == snake_of(s@),
{
    heck::ToSnakeCase::to_snake_case(s)
}

/// The display implementation emitted for a declaration: none, one at
/// the type level, or one arm per variant.
#[derive(Debug)]
pub enum DisplayGen {
    Omitted,
    TypeLevel(String),
    PerVariant(Vec<(String, String)>),
}

/// One generated context type: the builder callers hand to the wrapping
/// traits.
#[derive(Debug)]
pub struct ContextDef {
    pub name: String,
    pub vis: VisModel,
    pub kind: ErrorKind,
    pub fields: Vec<String>,
    pub field_generics: Vec<String>,
    pub has_root_methods: bool,
    pub where_preds: Vec<Predicate>,
}

/// Everything the generator decides to emit for a declaration.
#[derive(Debug)]
pub struct Generated {
    pub type_ident: String,
    pub contexts: Vec<ContextDef>,
    pub display: DisplayGen,
    pub kinds: Vec<(String, ErrorKind)>,
    pub error_where: Vec<Predicate>,
    pub module: Option<VisModel>,
    pub module_ident: Option<String>,
}

/// Builds the context type for one struct or variant.
pub fn generate_context_def(
    ident: &str,
    vis: VisModel,
    kind: ErrorKind,
    carried_names: Vec<String>,
    carried_generics: Vec<String>,
    all_bounds: InferredBounds,
    generics_model: &GenericsModel,
) -> (r: ContextDef)
    ensures
        r.name@ == ident@ + "2"@,
        r.vis == vis,
        r.kind == kind,
        r.fields == carried_names,
        r.field_generics == carried_generics,
        r.has_root_methods == (kind is Root),
        preds_view(r.where_preds@) == preds_view(generics_model.where_preds@) + preds_view(
            all_bounds.entries@,
        ),
{
    let mut name = ident.to_owned();
    name.append("2");
    proof {
        assert(name@ =~= ident@ + "2"@);
    }
    let where_preds = all_bounds.augment_where_clause(
        clone_predicates(&generics_model.where_preds),
    );
    let has_root_methods = kind.is_root();
    ContextDef {
        name,
        vis,
        kind,
        fields: carried_names,
        field_generics: carried_generics,
        has_root_methods,
        where_preds,
    }
}

/// What the `source` field's generic bound adds to the inferred set for
/// one struct or variant of the given kind.
pub open spec fn ebs_with_source(
    e: Seq<(Seq<char>, Seq<Seq<char>>)>,
    names: Seq<Seq<char>>,
    fields: Seq<FieldModel>,
    kind: ErrorKind,
) -> Seq<(Seq<char>, Seq<Seq<char>>)> {
    if kind is Err2 && occurs(names, fields[last_named(fields, "source"@)].ty) {
        insert_pred(e, fields[last_named(fields, "source"@)].ty_text@, err2_bound_text())
    } else {
        e
    }
}

/// What generating a struct guarantees of its result.
pub open spec fn struct_post(
    type_attr: TypeAttr,
    ident: Seq<char>,
    generics_preds: Seq<(Seq<char>, Seq<Seq<char>>)>,
    names: Seq<Seq<char>>,
    fields: Seq<FieldModel>,
    ebs0: Seq<(Seq<char>, Seq<Seq<char>>)>,
    r: Result<Generated, Vec<String>>,
) -> bool {
    let has_s = has_named(fields, "source"@);
    let has_b = has_named(fields, "backtrace"@);
    let cf = carried(fields);
    &&& classify(has_s, has_b) is None ==> (r matches Err(es) && strings_view(es@) == seq![
        incorrect_def_msg("struct"@),
    ])
    &&& classify(has_s, has_b) matches Some(kind) ==> (r matches Ok(g) && {
        let ebs = ebs_with_source(ebs0, names, fields, kind);
        &&& g.type_ident@ == ident
        &&& g.contexts@.len() == 1
        &&& g.contexts@[0].name@ == ident + "2"@
        &&& g.contexts@[0].vis == type_attr.context_vis
        &&& g.contexts@[0].kind == kind
        &&& strings_view(g.contexts@[0].fields@) == cf.map_values(
            |p: (int, FieldModel)| p.1.name@,
        )
        &&& strings_view(g.contexts@[0].field_generics@) == cf.map_values(
            |p: (int, FieldModel)| generic_name(p.0),
        )
        &&& g.contexts@[0].has_root_methods == (kind is Root)
        &&& preds_view(g.contexts@[0].where_preds@) == generics_preds + merge_preds(
            carried_bound_entries(cf),
            ebs,
        )
        &&& preds_view(g.error_where@) == generics_preds + ebs
        &&& (match type_attr.display {
            TypeDisplayAttr::Enabled(t) => g.display matches DisplayGen::TypeLevel(t2) && t2 == t,
            _ => g.display is Omitted,
        })
        &&& g.kinds@.len() == 1
        &&& g.kinds@[0].0@ == ident
        &&& g.kinds@[0].1 == kind
        &&& g.module == type_attr.mod_vis
        &&& (type_attr.mod_vis is Some ==> (g.module_ident matches Some(mi) && mi@ == snake_of(
            ident,
        )))
        &&& (type_attr.mod_vis is None ==> g.module_ident is None)
    })
}

/// Generates everything for a struct declaration: classifies its field
/// shape, infers the bounds, and lays out the context and trait
/// implementations to emit.
pub fn generate_struct(
    type_attr: TypeAttr,
    ident: &String,
    generics_model: &GenericsModel,
    fields: &Vec<FieldModel>,
    scope: &ParamsInScope,
    error_bounds: InferredBounds,
) -> (r: Result<Generated, Vec<String>>)
    requires
        fields@.len() < u32::MAX,
    ensures
        struct_post(
            type_attr,
            ident@,
            preds_view(generics_model.where_preds@),
            strings_view(scope.names@),
            fields@,
            preds_view(error_bounds.entries@),
            r,
        ),
{
    let ghost ebs0 = preds_view(error_bounds.entries@);
    let TypeAttr { display: type_display, context_vis, mod_vis } = type_attr;
    let scan = scan_fields(fields);
    let kind: ErrorKind = match (&scan.source_idx, scan.has_backtrace) {
        (None, false) => {
            let mut es: Vec<String> = Vec::new();
            es.push(crate::codegen::messages::incorrect_def(
                crate::codegen::types::ContextKind::Struct,
            ));
            proof {
                assert(strings_view(es@) =~= seq![incorrect_def_msg("struct"@)]);
            }
            return Err(es);
        },
        (None, true) => ErrorKind::Root,
        (Some(_), false) => ErrorKind::Err2,
        (Some(_), true) => ErrorKind::Std,
    };
    let mut error_bounds = error_bounds;
    if let Some(si) = scan.source_idx {
        match kind {
            ErrorKind::Err2 => {
                proof {
                    lemma_last_named_bounds(fields@, "source"@);
                }
                let sf = &fields[si];
                if scope.intersects(&sf.ty) {
                    error_bounds.insert(sf.ty_text.as_str(), "::error2::Error2 + 'static");
                }
            },
            _ => {},
        }
    }
    proof {
        assert(preds_view(error_bounds.entries@) == ebs_with_source(
            ebs0,
            strings_view(scope.names@),
            fields@,
            kind,
        ));
    }
    let mut merged = scan.bounds;
    merged.merge(&error_bounds);
    let ctx = generate_context_def(
        ident.as_str(),
        context_vis,
        kind,
        scan.carried_names,
        scan.carried_generics,
        merged,
        generics_model,
    );
    let error_where = error_bounds.augment_where_clause(
        clone_predicates(&generics_model.where_preds),
    );
    let display: DisplayGen = match type_display {
        TypeDisplayAttr::Enabled(t) => DisplayGen::TypeLevel(t),
        _ => DisplayGen::Omitted,
    };
    let module_ident: Option<String> = match &mod_vis {
        Some(_) => Some(to_snake_case(ident.as_str())),
        None => None,
    };
    let mut contexts: Vec<ContextDef> = Vec::new();
    contexts.push(ctx);
    let mut kinds: Vec<(String, ErrorKind)> = Vec::new();
    kinds.push((ident.clone(), kind));
    let g = Generated {
        type_ident: ident.clone(),
        contexts,
        display,
        kinds,
        error_where,
        module: mod_vis,
        module_ident,
    };
    Ok(g)
}

/// The attribute fold of one variant.
pub open spec fn v_state(v: VariantModel) -> VariantAttrState {
    variant_attrs_fold(variant_state0(), v.attrs@)
}

/// A variant's named fields.
pub open spec fn v_fields(v: VariantModel) -> Seq<FieldModel> {
    match v.fields {
        FieldsModel::Named(fs) => fs@,
        _ => Seq::empty(),
    }
}

/// A variant's structural category, if its shape has one.
pub open spec fn v_kind(v: VariantModel) -> Option<ErrorKind> {
    classify(has_named(v_fields(v), "source"@), has_named(v_fields(v), "backtrace"@))
}

/// Whether a variant passes attribute parsing and classification.
pub open spec fn v_ok(v: VariantModel) -> bool {
    v_state(v).errors.len() == 0 && v_kind(v) is Some
}

/// What the first pass reports for one variant.
pub open spec fn first_error_of(v: VariantModel) -> Seq<Seq<char>> {
    if v_state(v).errors.len() > 0 {
        v_state(v).errors
    } else if v_kind(v) is None {
        seq![incorrect_def_msg("variant"@)]
    } else {
        Seq::empty()
    }
}

/// Everything the first pass reports, in variant order.
pub open spec fn first_errors(vs: Seq<VariantModel>) -> Seq<Seq<char>>
    decreases vs.len(),
{
    if vs.len() == 0 {
        Seq::empty()
    } else {
        first_error_of(vs[0]) + first_errors(vs.skip(1))
    }
}

/// Whether any variant that parses carries a `display` attribute.
pub open spec fn exist_display(vs: Seq<VariantModel>) -> bool {
    exists|k: int|
        0 <= k < vs.len() && (#[trigger] v_state(vs[k])).errors.len() == 0 && v_state(
            vs[k],
        ).display is Some
}

/// The variants the second pass works on: those the first pass accepted.
pub open spec fn inputs_of(vs: Seq<VariantModel>) -> Seq<VariantModel>
    decreases vs.len(),
{
    if vs.len() == 0 {
        Seq::empty()
    } else {
        (if v_ok(vs[0]) {
            seq![vs[0]]
        } else {
            Seq::empty()
        }) + inputs_of(vs.skip(1))
    }
}

/// The missing-display reports of the second pass, over the accepted
/// variants in order.
pub open spec fn miss_errors(ins: Seq<VariantModel>) -> Seq<Seq<char>>
    decreases ins.len(),
{
    if ins.len() == 0 {
        Seq::empty()
    } else {
        (if v_state(ins[0]).display is None {
            seq![missing_display_on_variant_msg()]
        } else {
            Seq::empty()
        }) + miss_errors(ins.skip(1))
    }
}

/// What one variant adds to the inferred source bounds.
pub open spec fn ebs_step(
    e: Seq<(Seq<char>, Seq<Seq<char>>)>,
    names: Seq<Seq<char>>,
    v: VariantModel,
) -> Seq<(Seq<char>, Seq<Seq<char>>)> {
    if v_ok(v) {
        ebs_with_source(e, names, v_fields(v), v_kind(v)->0)
    } else {
        e
    }
}

/// The inferred source bounds after every variant was seen.
pub open spec fn ebs_after(
    e: Seq<(Seq<char>, Seq<Seq<char>>)>,
    names: Seq<Seq<char>>,
    vs: Seq<VariantModel>,
) -> Seq<(Seq<char>, Seq<Seq<char>>)>
    decreases vs.len(),
{
    if vs.len() == 0 {
        e
    } else {
        ebs_after(ebs_step(e, names, vs[0]), names, vs.skip(1))
    }
}

proof fn lemma_first_errors_snoc(vs: Seq<VariantModel>, v: VariantModel)
    ensures
        first_errors(vs.push(v)) == first_errors(vs) + first_error_of(v),
    decreases vs.len(),
{
    if vs.len() == 0 {
        assert(vs.push(v).skip(1) =~= Seq::<VariantModel>::empty());
        assert(first_errors(vs) =~= Seq::<Seq<char>>::empty());
        assert(first_errors(vs.push(v)) == first_error_of(v) + first_errors(vs.push(v).skip(1)));
        assert(first_errors(vs.push(v)) =~= first_errors(vs) + first_error_of(v));
    } else {
        assert(vs.push(v).skip(1) =~= vs.skip(1).push(v));
        lemma_first_errors_snoc(vs.skip(1), v);
        assert(first_errors(vs.push(v)) == first_error_of(vs[0]) + first_errors(
            vs.skip(1).push(v),
        ));
        assert(first_errors(vs.push(v)) =~= first_errors(vs) + first_error_of(v));
    }
}

proof fn lemma_inputs_of_snoc(vs: Seq<VariantModel>, v: VariantModel)
    ensures
        inputs_of(vs.push(v)) == inputs_of(vs) + (if v_ok(v) {
            seq![v]
        } else {
            Seq::<VariantModel>::empty()
        }),
    decreases vs.len(),
{
    if vs.len() == 0 {
        reveal_with_fuel(inputs_of, 2);
        assert(vs.push(v)[0] == v);
        assert(vs.push(v).skip(1) =~= Seq::<VariantModel>::empty());
        assert(inputs_of(vs.push(v)) =~= inputs_of(vs) + (if v_ok(v) {
            seq![v]
        } else {
            Seq::<VariantModel>::empty()
        }));
    } else {
        assert(vs.push(v)[0] == vs[0]);
        assert(vs.push(v).skip(1) =~= vs.skip(1).push(v));
        lemma_inputs_of_snoc(vs.skip(1), v);
        assert(inputs_of(vs.push(v)) == (if v_ok(vs[0]) {
            seq![vs[0]]
        } else {
            Seq::<VariantModel>::empty()
        }) + inputs_of(vs.skip(1).push(v)));
        assert(inputs_of(vs.push(v)) =~= inputs_of(vs) + (if v_ok(v) {
            seq![v]
        } else {
            Seq::<VariantModel>::empty()
        }));
    }
}

proof fn lemma_ebs_after_snoc(
    e: Seq<(Seq<char>, Seq<Seq<char>>)>,
    names: Seq<Seq<char>>,
    vs: Seq<VariantModel>,
    v: VariantModel,
)
    ensures
        ebs_after(e, names, vs.push(v)) == ebs_step(ebs_after(e, names, vs), names, v),
    decreases vs.len(),
{
    if vs.len() == 0 {
        reveal_with_fuel(ebs_after, 2);
        assert(vs.push(v)[0] == v);
        assert(vs.push(v).skip(1) =~= Seq::<VariantModel>::empty());
    } else {
        assert(vs.push(v)[0] == vs[0]);
        assert(vs.push(v).skip(1) =~= vs.skip(1).push(v));
        lemma_ebs_after_snoc(ebs_step(e, names, vs[0]), names, vs.skip(1), v);
        assert(ebs_after(e, names, vs.push(v)) == ebs_after(
            ebs_step(e, names, vs[0]),
            names,
            vs.skip(1).push(v),
        ));
    }
}

proof fn lemma_exist_display_snoc(vs: Seq<VariantModel>, v: VariantModel)
    ensures
        exist_display(vs.push(v)) == (exist_display(vs) || (v_state(v).errors.len() == 0
            && v_state(v).display is Some)),
{
    if exist_display(vs.push(v)) {
        let k = choose|k: int|
            0 <= k < vs.push(v).len() && (#[trigger] v_state(vs.push(v)[k])).errors.len() == 0
                && v_state(vs.push(v)[k]).display is Some;
        if k < vs.len() {
            assert(vs.push(v)[k] == vs[k]);
            assert(v_state(vs[k]).errors.len() == 0 && v_state(vs[k]).display is Some);
        } else {
            assert(vs.push(v)[k] == v);
        }
    }
    if exist_display(vs) {
        let k = choose|k: int|
            0 <= k < vs.len() && (#[trigger] v_state(vs[k])).errors.len() == 0 && v_state(
                vs[k],
            ).display is Some;
        assert(vs.push(v)[k] == vs[k]);
        assert(v_state(vs.push(v)[k]).errors.len() == 0 && v_state(vs.push(v)[k]).display
            is Some);
    }
    if v_state(v).errors.len() == 0 && v_state(v).display is Some {
        assert(vs.push(v)[vs.len() as int] == v);
        assert(v_state(vs.push(v)[vs.len() as int]).errors.len() == 0);
    }
}

proof fn lemma_first_errors_all_ok(vs: Seq<VariantModel>)
    requires
        first_errors(vs).len() == 0,
    ensures
        forall|k: int| 0 <= k < vs.len() ==> v_ok(#[trigger] vs[k]),
        inputs_of(vs) == vs,
    decreases vs.len(),
{
    if vs.len() > 0 {
        lemma_first_errors_all_ok(vs.skip(1));
        assert forall|k: int| 0 <= k < vs.len() implies v_ok(#[trigger] vs[k]) by {
            if k > 0 {
                assert(vs[k] == vs.skip(1)[k - 1]);
            }
        }
        assert(inputs_of(vs) =~= vs);
    } else {
        assert(inputs_of(vs) =~= vs);
    }
}

proof fn lemma_miss_errors_snoc(ins: Seq<VariantModel>, v: VariantModel)
    ensures
        miss_errors(ins.push(v)) == miss_errors(ins) + (if v_state(v).display is None {
            seq![missing_display_on_variant_msg()]
        } else {
            Seq::<Seq<char>>::empty()
        }),
    decreases ins.len(),
{
    if ins.len() == 0 {
        reveal_with_fuel(miss_errors, 2);
        assert(ins.push(v)[0] == v);
        assert(ins.push(v).skip(1) =~= Seq::<VariantModel>::empty());
        assert(miss_errors(ins.push(v)) =~= miss_errors(ins) + (if v_state(v).display is None {
            seq![missing_display_on_variant_msg()]
        } else {
            Seq::<Seq<char>>::empty()
        }));
    } else {
        assert(ins.push(v)[0] == ins[0]);
        assert(ins.push(v).skip(1) =~= ins.skip(1).push(v));
        lemma_miss_errors_snoc(ins.skip(1), v);
        assert(miss_errors(ins.push(v)) == (if v_state(ins[0]).display is None {
            seq![missing_display_on_variant_msg()]
        } else {
            Seq::<Seq<char>>::empty()
        }) + miss_errors(ins.skip(1).push(v)));
        assert(miss_errors(ins.push(v)) =~= miss_errors(ins) + (if v_state(v).display is None {
            seq![missing_display_on_variant_msg()]
        } else {
            Seq::<Seq<char>>::empty()
        }));
    }
}

/// What one generated context must look like for its variant.
pub open spec fn context_matches(
    c: ContextDef,
    v: VariantModel,
    vis: VisModel,
    generics_preds: Seq<(Seq<char>, Seq<Seq<char>>)>,
    ebs: Seq<(Seq<char>, Seq<Seq<char>>)>,
) -> bool {
    let cf = carried(v_fields(v));
    &&& c.name@ == v.name@ + "2"@
    &&& c.vis == vis
    &&& Option::Some(c.kind) == v_kind(v)
    &&& strings_view(c.fields@) == cf.map_values(|p: (int, FieldModel)| p.1.name@)
    &&& strings_view(c.field_generics@) == cf.map_values(|p: (int, FieldModel)| generic_name(p.0))
    &&& c.has_root_methods == (v_kind(v) == Option::Some(ErrorKind::Root))
    &&& preds_view(c.where_preds@) == generics_preds + merge_preds(carried_bound_entries(cf), ebs)
}

/// What generating an enum guarantees of its result.
pub open spec fn enum_post(
    type_attr: TypeAttr,
    ident: Seq<char>,
    generics_preds: Seq<(Seq<char>, Seq<Seq<char>>)>,
    names: Seq<Seq<char>>,
    vs: Seq<VariantModel>,
    ebs0: Seq<(Seq<char>, Seq<Seq<char>>)>,
    r: Result<Generated, Vec<String>>,
) -> bool {
    let fe = first_errors(vs);
    let se = if exist_display(vs) {
        miss_errors(inputs_of(vs))
    } else {
        Seq::<Seq<char>>::empty()
    };
    &&& type_attr.display is Enabled ==> (r matches Err(es) && strings_view(es@) == seq![
        display_tokens_not_on_enum_msg(),
    ])
    &&& !(type_attr.display is Enabled) ==> {
        &&& fe.len() + se.len() > 0 ==> (r matches Err(es) && strings_view(es@) == fe + se)
        &&& fe.len() + se.len() == 0 ==> (r matches Ok(g) && {
            let ebs = ebs_after(ebs0, names, vs);
            &&& g.type_ident@ == ident
            &&& g.contexts@.len() == vs.len()
            &&& forall|k: int|
                0 <= k < vs.len() ==> context_matches(
                    #[trigger] g.contexts@[k],
                    vs[k],
                    type_attr.context_vis,
                    generics_preds,
                    ebs,
                )
            &&& g.kinds@.len() == vs.len()
            &&& forall|k: int|
                0 <= k < vs.len() ==> ((#[trigger] g.kinds@[k]).0@ == vs[k].name@ && Option::Some(
                    g.kinds@[k].1,
                ) == v_kind(vs[k]))
            &&& preds_view(g.error_where@) == generics_preds + ebs
            &&& (exist_display(vs) ==> (g.display matches DisplayGen::PerVariant(arms)
                && arms@.len() == vs.len() && forall|k: int|
                0 <= k < vs.len() ==> ((#[trigger] arms@[k]).0@ == vs[k].name@ && Option::Some(
                    arms@[k].1,
                ) == v_state(vs[k]).display)))
            &&& (!exist_display(vs) ==> g.display is Omitted)
            &&& g.module == type_attr.mod_vis
            &&& (type_attr.mod_vis is Some ==> (g.module_ident matches Some(mi) && mi@
                == snake_of(ident)))
            &&& (type_attr.mod_vis is None ==> g.module_ident is None)
        })
    }
}

/// One variant the first pass accepted, carried into the second.
pub struct VariantInput {
    pub ident: String,
    pub kind: ErrorKind,
    pub carried_names: Vec<String>,
    pub carried_generics: Vec<String>,
    pub bounds: InferredBounds,
    pub display: Option<String>,
}

/// The carried input stands for the variant.
pub open spec fn input_matches(inp: VariantInput, v: VariantModel) -> bool {
    let cf = carried(v_fields(v));
    &&& inp.ident@ == v.name@
    &&& Option::Some(inp.kind) == v_kind(v)
    &&& strings_view(inp.carried_names@) == cf.map_values(|p: (int, FieldModel)| p.1.name@)
    &&& strings_view(inp.carried_generics@) == cf.map_values(
        |p: (int, FieldModel)| generic_name(p.0),
    )
    &&& preds_view(inp.bounds.entries@) == carried_bound_entries(cf)
    &&& inp.display == v_state(v).display
}

/// Builds the pieces emitted for one accepted variant: its context and
/// its entry in the category table, plus its display arm if it has one.
pub fn generate_variant(
    inp: VariantInput,
    vis: VisModel,
    error_bounds: &InferredBounds,
    generics_model: &GenericsModel,
) -> (r: (ContextDef, (String, ErrorKind), Option<(String, String)>))
    ensures
        r.0.name@ == inp.ident@ + "2"@,
        r.0.vis == vis,
        r.0.kind == inp.kind,
        r.0.fields == inp.carried_names,
        r.0.field_generics == inp.carried_generics,
        r.0.has_root_methods == (inp.kind is Root),
        preds_view(r.0.where_preds@) == preds_view(generics_model.where_preds@) + merge_preds(
            preds_view(inp.bounds.entries@),
            preds_view(error_bounds.entries@),
        ),
        r.1.0@ == inp.ident@,
        r.1.1 == inp.kind,
        inp.display matches Some(t) ==> (r.2 matches Some(p) && p.0@ == inp.ident@ && p.1 == t),
        inp.display is None ==> r.2 is None,
{
    let VariantInput { ident, kind, carried_names, carried_generics, bounds, display } = inp;
    let mut merged = bounds;
    merged.merge(error_bounds);
    let ctx = generate_context_def(
        ident.as_str(),
        vis,
        kind,
        carried_names,
        carried_generics,
        merged,
        generics_model,
    );
    let arm: Option<(String, String)> = match display {
        Some(t) => Some((ident.clone(), t)),
        None => None,
    };
    (ctx, (ident, kind), arm)
}

/// Generates everything for an enum declaration: validates the display
/// attributes, classifies every variant's field shape, infers the
/// bounds, and lays out the contexts and trait implementations to emit.
pub fn generate_enum(
    type_attr: TypeAttr,
    ident: &String,
    generics_model: &GenericsModel,
    variants: &Vec<VariantModel>,
    scope: &ParamsInScope,
    error_bounds: InferredBounds,
) -> (r: Result<Generated, Vec<String>>)
    requires
        forall|k: int| 0 <= k < variants@.len() ==> (#[trigger] variants@[k]).fields is Named,
        forall|k: int|
            0 <= k < variants@.len() ==> v_fields(#[trigger] variants@[k]).len() < u32::MAX,
    ensures
        enum_post(
            type_attr,
            ident@,
            preds_view(generics_model.where_preds@),
            strings_view(scope.names@),
            variants@,
            preds_view(error_bounds.entries@),
            r,
        ),
{
    let ghost names = strings_view(scope.names@);
    let ghost ebs0 = preds_view(error_bounds.entries@);
    let ghost vsg = variants@;
    let ghost gp = preds_view(generics_model.where_preds@);
    let TypeAttr { display: type_display, context_vis, mod_vis } = type_attr;
    match &type_display {
        TypeDisplayAttr::Enabled(_) => {
            let mut es: Vec<String> = Vec::new();
            es.push(crate::codegen::messages::display_tokens_not_on_enum().to_owned());
            proof {
                assert(strings_view(es@) =~= seq![display_tokens_not_on_enum_msg()]);
            }
            return Err(es);
        },
        _ => {},
    }
    let mut errors: Vec<String> = Vec::new();
    let mut inputs: Vec<VariantInput> = Vec::new();
    let mut exist = false;
    let mut error_bounds = error_bounds;
    let mut i: usize = 0;
    proof {
        assert(vsg.take(0) =~= Seq::<VariantModel>::empty());
        assert(strings_view(errors@) =~= Seq::<Seq<char>>::empty());
        assert(first_errors(vsg.take(0)) =~= Seq::<Seq<char>>::empty());
        assert(inputs_of(vsg.take(0)) =~= Seq::<VariantModel>::empty());
    }
    while i < variants.len()
        invariant
            i <= vsg.len(),
            vsg == variants@,
            names == strings_view(scope.names@),
            forall|k: int| 0 <= k < vsg.len() ==> (#[trigger] vsg[k]).fields is Named,
            forall|k: int| 0 <= k < vsg.len() ==> v_fields(#[trigger] vsg[k]).len() < u32::MAX,
            strings_view(errors@) == first_errors(vsg.take(i as int)),
            exist == exist_display(vsg.take(i as int)),
            preds_view(error_bounds.entries@) == ebs_after(ebs0, names, vsg.take(i as int)),
            inputs@.len() == inputs_of(vsg.take(i as int)).len(),
            forall|m: int|
                0 <= m < inputs@.len() ==> input_matches(
                    #[trigger] inputs@[m],
                    inputs_of(vsg.take(i as int))[m],
                ),
        decreases vsg.len() - i,
    {
        let ghost pre_take = vsg.take(i as int);
        let ghost pre_inputs = inputs@;
        let v = &variants[i];
        proof {
            assert(vsg.take(i as int).push(vsg[i as int]) =~= vsg.take(i + 1));
            lemma_first_errors_snoc(pre_take, vsg[i as int]);
            lemma_inputs_of_snoc(pre_take, vsg[i as int]);
            lemma_ebs_after_snoc(ebs0, names, pre_take, vsg[i as int]);
            lemma_exist_display_snoc(pre_take, vsg[i as int]);
        }
        match parse_variant_attr(&v.attrs) {
            Err(mut es) => {
                proof {
                    assert(v_state(vsg[i as int]).errors == strings_view(es@));
                    assert(v_state(vsg[i as int]).errors.len() > 0);
                }
                let ghost before = errors@;
                let ghost esg = es@;
                errors.append(&mut es);
                proof {
                    crate::extract::lemma_strings_view_concat(before, esg);
                    assert(strings_view(errors@) == first_errors(vsg.take(i + 1)));
                }
            },
            Ok(va) => {
                proof {
                    assert(v_state(vsg[i as int]).errors.len() == 0);
                    assert(va.display == v_state(vsg[i as int]).display);
                }
                if va.display.is_some() {
                    exist = true;
                }
                match &v.fields {
                    FieldsModel::Named(fs) => {
                        proof {
                            assert(v_fields(vsg[i as int]) == fs@);
                        }
                        let scan = scan_fields(fs);
                        let kind_opt: Option<ErrorKind> = match (
                            &scan.source_idx,
                            scan.has_backtrace,
                        ) {
                            (None, false) => None,
                            (None, true) => Some(ErrorKind::Root),
                            (Some(_), false) => Some(ErrorKind::Err2),
                            (Some(_), true) => Some(ErrorKind::Std),
                        };
                        match kind_opt {
                            None => {
                                let ghost before = errors@;
                                errors.push(crate::codegen::messages::incorrect_def(
                                    crate::codegen::types::ContextKind::Variant,
                                ));
                                proof {
                                    lemma_strings_view_push(before, errors@.last());
                                    assert(v_kind(vsg[i as int]) is None);
                                    assert(strings_view(errors@) == first_errors(
                                        vsg.take(i + 1),
                                    ));
                                }
                            },
                            Some(kind) => {
                                proof {
                                    assert(v_kind(vsg[i as int]) == Option::Some(kind));
                                    assert(v_ok(vsg[i as int]));
                                }
                                if let Some(si) = scan.source_idx {
                                    match kind {
                                        ErrorKind::Err2 => {
                                            proof {
                                                lemma_last_named_bounds(fs@, "source"@);
                                            }
                                            let sf = &fs[si];
                                            if scope.intersects(&sf.ty) {
                                                error_bounds.insert(
                                                    sf.ty_text.as_str(),
                                                    "::error2::Error2 + 'static",
                                                );
                                            }
                                        },
                                        _ => {},
                                    }
                                }
                                proof {
                                    assert(preds_view(error_bounds.entries@) == ebs_after(
                                        ebs0,
                                        names,
                                        vsg.take(i + 1),
                                    ));
                                }
                                let inp = VariantInput {
                                    ident: v.name.clone(),
                                    kind,
                                    carried_names: scan.carried_names,
                                    carried_generics: scan.carried_generics,
                                    bounds: scan.bounds,
                                    display: va.display,
                                };
                                inputs.push(inp);
                                proof {
                                    assert(inputs_of(vsg.take(i + 1)) =~= inputs_of(
                                        pre_take,
                                    ).push(vsg[i as int]));
                                    assert(input_matches(inputs@.last(), vsg[i as int]));
                                    assert forall|m: int|
                                        0 <= m < inputs@.len() implies input_matches(
                                        #[trigger] inputs@[m],
                                        inputs_of(vsg.take(i + 1))[m],
                                    ) by {
                                        if m < pre_inputs.len() {
                                            assert(inputs@[m] == pre_inputs[m]);
                                            assert(inputs_of(vsg.take(i + 1))[m] == inputs_of(
                                                pre_take,
                                            )[m]);
                                        } else {
                                            assert(inputs@[m] == inputs@.last());
                                        }
                                    }
                                }
                            },
                        }
                    },
                    _ => {
                        vstd::pervasive::unreached::<()>();
                    },
                }
            },
        }
        i = i + 1;
    }
    proof {
        assert(vsg.take(vsg.len() as int) =~= vsg);
    }
    let ghost ins = inputs_of(vsg);
    let ghost ebs = ebs_after(ebs0, names, vsg);
    let ghost fe = first_errors(vsg);
    let ghost total = inputs@.len();
    let mut contexts: Vec<ContextDef> = Vec::new();
    let mut kinds: Vec<(String, ErrorKind)> = Vec::new();
    let mut arms: Vec<(String, String)> = Vec::new();
    proof {
        assert(ins.take(0) =~= Seq::<VariantModel>::empty());
        assert(miss_errors(ins.take(0)) =~= Seq::<Seq<char>>::empty());
    }
    while inputs.len() > 0
        invariant
            total == ins.len(),
            inputs@.len() <= total,
            vsg == variants@,
            exist == exist_display(vsg),
            fe == first_errors(vsg),
            ins == inputs_of(vsg),
            ebs == ebs_after(ebs0, names, vsg),
            names == strings_view(scope.names@),
            gp == preds_view(generics_model.where_preds@),
            preds_view(error_bounds.entries@) == ebs,
            forall|m: int|
                0 <= m < inputs@.len() ==> input_matches(
                    #[trigger] inputs@[m],
                    ins[total - inputs@.len() + m],
                ),
            strings_view(errors@) == fe + (if exist {
                miss_errors(ins.take(total - inputs@.len()))
            } else {
                Seq::<Seq<char>>::empty()
            }),
            (fe.len() == 0 && (!exist || miss_errors(ins.take(total - inputs@.len())).len()
                == 0)) ==> ({
                let done = total - inputs@.len();
                &&& contexts@.len() == done
                &&& forall|m: int|
                    0 <= m < done ==> context_matches(
                        #[trigger] contexts@[m],
                        ins[m],
                        context_vis,
                        gp,
                        ebs,
                    )
                &&& kinds@.len() == done
                &&& forall|m: int|
                    0 <= m < done ==> ((#[trigger] kinds@[m]).0@ == ins[m].name@ && Option::Some(
                        kinds@[m].1,
                    ) == v_kind(ins[m]))
                &&& (exist ==> arms@.len() == done && forall|m: int|
                    0 <= m < done ==> ((#[trigger] arms@[m]).0@ == ins[m].name@ && Option::Some(
                        arms@[m].1,
                    ) == v_state(ins[m]).display))
            }),
        decreases inputs@.len(),
    {
        let ghost done = total - inputs@.len();
        let ghost pre_inputs = inputs@;
        let inp = inputs.remove(0);
        proof {
            assert(inputs@ =~= pre_inputs.skip(1));
            assert(inp == pre_inputs[0]);
            assert(input_matches(inp, ins[done]));
            assert(ins.take(done).push(ins[done]) =~= ins.take(done + 1));
            lemma_miss_errors_snoc(ins.take(done), ins[done]);
            assert forall|m: int|
                0 <= m < inputs@.len() implies input_matches(
                #[trigger] inputs@[m],
                ins[done + 1 + m],
            ) by {
                assert(inputs@[m] == pre_inputs[m + 1]);
            }
        }
        let skip_this = exist && inp.display.is_none();
        if skip_this {
            let ghost before = errors@;
            errors.push(crate::codegen::messages::missing_display_on_variant().to_owned());
            proof {
                lemma_strings_view_push(before, errors@.last());
                assert(v_state(ins[done]).display is None);
                assert(miss_errors(ins.take(done + 1)) =~= miss_errors(ins.take(done)) + seq![
                    missing_display_on_variant_msg(),
                ]);
                assert(strings_view(errors@) =~= fe + miss_errors(ins.take(done + 1)));
            }
        } else {
            let ghost pre_contexts = contexts@;
            let ghost pre_kinds = kinds@;
            let ghost pre_arms = arms@;
            let ghost inp_g = inp;
            let (ctx, kp, arm) = generate_variant(inp, context_vis, &error_bounds, generics_model);
            contexts.push(ctx);
            kinds.push(kp);
            let had_arm = match arm {
                Some(a) => {
                    arms.push(a);
                    true
                },
                None => false,
            };
            proof {
                if exist {
                    assert(v_state(ins[done]).display is Some);
                    assert(miss_errors(ins.take(done + 1)) =~= miss_errors(ins.take(done)));
                }
                if fe.len() == 0 && (!exist || miss_errors(ins.take(done + 1)).len() == 0) {
                    assert(context_matches(contexts@.last(), ins[done], context_vis, gp, ebs));
                    assert forall|m: int|
                        0 <= m < done + 1 implies context_matches(
                        #[trigger] contexts@[m],
                        ins[m],
                        context_vis,
                        gp,
                        ebs,
                    ) by {
                        if m < done {
                            assert(contexts@[m] == pre_contexts[m]);
                        } else {
                            assert(contexts@[m] == contexts@.last());
                        }
                    }
                    assert forall|m: int|
                        0 <= m < done + 1 implies ((#[trigger] kinds@[m]).0@ == ins[m].name@
                        && Option::Some(kinds@[m].1) == v_kind(ins[m])) by {
                        if m < done {
                            assert(kinds@[m] == pre_kinds[m]);
                        } else {
                            assert(kinds@[m] == kinds@.last());
                        }
                    }
                    if exist {
                        assert(had_arm);
                        assert forall|m: int|
                            0 <= m < done + 1 implies ((#[trigger] arms@[m]).0@ == ins[m].name@
                            && Option::Some(arms@[m].1) == v_state(ins[m]).display) by {
                            if m < done {
                                assert(arms@[m] == pre_arms[m]);
                            } else {
                                assert(arms@[m] == arms@.last());
                            }
                        }
                    }
                }
            }
        }
    }
    proof {
        assert(ins.take(total as int) =~= ins);
    }
    if errors.len() > 0 {
        return Err(errors);
    }
    proof {
        assert(strings_view(errors@) =~= Seq::<Seq<char>>::empty());
        assert(fe.len() == 0);
        if exist {
            assert(miss_errors(ins).len() == 0);
        }
        lemma_first_errors_all_ok(vsg);
        assert(ins == vsg);
        assert(total == vsg.len());
    }
    let display: DisplayGen = if exist {
        DisplayGen::PerVariant(arms)
    } else {
        DisplayGen::Omitted
    };
    let error_where = error_bounds.augment_where_clause(
        clone_predicates(&generics_model.where_preds),
    );
    let module_ident: Option<String> = match &mod_vis {
        Some(_) => Some(to_snake_case(ident.as_str())),
        None => None,
    };
    let g = Generated {
        type_ident: ident.clone(),
        contexts,
        display,
        kinds,
        error_where,
        module: mod_vis,
        module_ident,
    };
    Ok(g)
}

/// The bounds set up before the declaration's body is examined: a
/// declaration with type parameters needs its own type to be printable.
pub open spec fn initial_ebs(ident: Seq<char>, params: Seq<Seq<char>>) -> Seq<
    (Seq<char>, Seq<Seq<char>>),
> {
    if params.len() == 0 {
        Seq::empty()
    } else {
        insert_pred(
            insert_pred(Seq::empty(), self_ty_text(ident, params), "::core::fmt::Debug"@),
            self_ty_text(ident, params),
            "::core::fmt::Display"@,
        )
    }
}

/// What the shape check reports for one variant.
pub open spec fn shape_error_of(v: VariantModel) -> Seq<Seq<char>> {
    match v.fields {
        FieldsModel::Named(fs) => if fs@.len() == 0 {
            seq![at_least_one_field_msg()]
        } else {
            Seq::empty()
        },
        _ => seq![supported_types_msg()],
    }
}

/// Everything the shape check reports, in variant order.
pub open spec fn shape_errors(vs: Seq<VariantModel>) -> Seq<Seq<char>>
    decreases vs.len(),
{
    if vs.len() == 0 {
        Seq::empty()
    } else {
        shape_error_of(vs[0]) + shape_errors(vs.skip(1))
    }
}

proof fn lemma_shape_errors_snoc(vs: Seq<VariantModel>, v: VariantModel)
    ensures
        shape_errors(vs.push(v)) == shape_errors(vs) + shape_error_of(v),
    decreases vs.len(),
{
    if vs.len() == 0 {
        reveal_with_fuel(shape_errors, 2);
        assert(vs.push(v)[0] == v);
        assert(vs.push(v).skip(1) =~= Seq::<VariantModel>::empty());
        assert(shape_errors(vs.push(v)) =~= shape_errors(vs) + shape_error_of(v));
    } else {
        assert(vs.push(v)[0] == vs[0]);
        assert(vs.push(v).skip(1) =~= vs.skip(1).push(v));
        lemma_shape_errors_snoc(vs.skip(1), v);
        assert(shape_errors(vs.push(v)) == shape_error_of(vs[0]) + shape_errors(
            vs.skip(1).push(v),
        ));
        assert(shape_errors(vs.push(v)) =~= shape_errors(vs) + shape_error_of(v));
    }
}

proof fn lemma_shape_errors_all_ok(vs: Seq<VariantModel>)
    requires
        shape_errors(vs).len() == 0,
    ensures
        forall|k: int|
            0 <= k < vs.len() ==> ((#[trigger] vs[k]).fields is Named && v_fields(vs[k]).len()
                > 0),
    decreases vs.len(),
{
    if vs.len() > 0 {
        lemma_shape_errors_all_ok(vs.skip(1));
        assert forall|k: int|
            0 <= k < vs.len() implies ((#[trigger] vs[k]).fields is Named && v_fields(
            vs[k],
        ).len() > 0) by {
            if k > 0 {
                assert(vs[k] == vs.skip(1)[k - 1]);
            }
        }
    }
}

/// The declaration is small enough for the generator's index arithmetic.
pub open spec fn input_size_ok(input: DeriveInputModel) -> bool {
    match input.data {
        DataModel::Struct(FieldsModel::Named(fs)) => fs@.len() < u32::MAX,
        DataModel::Enum(vs) => forall|k: int|
            0 <= k < vs@.len() ==> v_fields(#[trigger] vs@[k]).len() < u32::MAX,
        _ => true,
    }
}

/// What generating from a whole declaration guarantees: attribute
/// diagnostics come first, then the body's shape is validated, then the
/// struct or enum rules decide the result.
pub open spec fn gen_post(input: DeriveInputModel, r: Result<Generated, Vec<String>>) -> bool {
    let ta = type_attrs_fold(type_state0(), input.attrs@);
    let names = strings_view(input.generics.params@);
    let gp = preds_view(input.generics.where_preds@);
    let ebs0 = initial_ebs(input.name@, names);
    let tav = TypeAttr {
        display: ta.display,
        context_vis: context_vis_of(ta),
        mod_vis: mod_vis_of(ta),
    };
    &&& ta.errors.len() > 0 ==> (r matches Err(es) && strings_view(es@) == ta.errors)
    &&& ta.errors.len() == 0 ==> (match input.data {
        DataModel::Union => r matches Err(es) && strings_view(es@) == seq![supported_types_msg()],
        DataModel::Struct(fm) => match fm {
            FieldsModel::Unit => r matches Err(es) && strings_view(es@) == seq![
                supported_types_msg(),
            ],
            FieldsModel::Unnamed => r matches Err(es) && strings_view(es@) == seq![
                supported_types_msg(),
            ],
            FieldsModel::Named(fs) => if fs@.len() == 0 {
                r matches Err(es) && strings_view(es@) == seq![at_least_one_field_msg()]
            } else {
                struct_post(tav, input.name@, gp, names, fs@, ebs0, r)
            },
        },
        DataModel::Enum(vs) => if vs@.len() == 0 {
            r matches Err(es) && strings_view(es@) == seq![at_least_one_variant_msg()]
        } else if shape_errors(vs@).len() > 0 {
            r matches Err(es) && strings_view(es@) == shape_errors(vs@)
        } else {
            enum_post(tav, input.name@, gp, names, vs@, ebs0, r)
        },
    })
}

/// Reads a whole declaration and decides what is emitted for it.
pub fn generate(input: DeriveInputModel) -> (r: Result<Generated, Vec<String>>)
    requires
        input_size_ok(input),
    ensures
        gen_post(input, r),
{
    let DeriveInputModel { name: ident, attrs, generics: generics_model, data } = input;
    let scope = ParamsInScope::new(&generics_model);
    let mut error_bounds = InferredBounds::with_capacity(3);
    if generics_model.params.len() > 0 {
        let ty = render_self_ty(ident.as_str(), &generics_model.params);
        error_bounds.insert(ty.as_str(), crate::codegen::types::Trait::Debug.render());
        error_bounds.insert(ty.as_str(), crate::codegen::types::Trait::Display.render());
    }
    proof {
        if generics_model.params@.len() == 0 {
            assert(preds_view(error_bounds.entries@) =~= initial_ebs(
                ident@,
                strings_view(generics_model.params@),
            ));
        } else {
            assert(strings_view(generics_model.params@).len() > 0);
            assert(preds_view(error_bounds.entries@) == initial_ebs(
                ident@,
                strings_view(generics_model.params@),
            ));
        }
    }
    let type_attr = match parse_type_attr(&attrs) {
        Err(es) => {
            return Err(es);
        },
        Ok(ta) => ta,
    };
    match data {
        DataModel::Union => {
            let mut es: Vec<String> = Vec::new();
            es.push(crate::codegen::messages::supported_types().to_owned());
            proof {
                assert(strings_view(es@) =~= seq![supported_types_msg()]);
            }
            Err(es)
        },
        DataModel::Struct(fm) => {
            match fm {
                FieldsModel::Unit => {
                    let mut es: Vec<String> = Vec::new();
                    es.push(crate::codegen::messages::supported_types().to_owned());
                    proof {
                        assert(strings_view(es@) =~= seq![supported_types_msg()]);
                    }
                    Err(es)
                },
                FieldsModel::Unnamed => {
                    let mut es: Vec<String> = Vec::new();
                    es.push(crate::codegen::messages::supported_types().to_owned());
                    proof {
                        assert(strings_view(es@) =~= seq![supported_types_msg()]);
                    }
                    Err(es)
                },
                FieldsModel::Named(fs) => {
                    if fs.len() == 0 {
                        let mut es: Vec<String> = Vec::new();
                        es.push(crate::codegen::messages::at_least_one_field().to_owned());
                        proof {
                            assert(strings_view(es@) =~= seq![at_least_one_field_msg()]);
                        }
                        Err(es)
                    } else {
                        generate_struct(
                            type_attr,
                            &ident,
                            &generics_model,
                            &fs,
                            &scope,
                            error_bounds,
                        )
                    }
                },
            }
        },
        DataModel::Enum(vs) => {
            if vs.len() == 0 {
                let mut es: Vec<String> = Vec::new();
                es.push(crate::codegen::messages::at_least_one_variant().to_owned());
                proof {
                    assert(strings_view(es@) =~= seq![at_least_one_variant_msg()]);
                }
                return Err(es);
            }
            let mut serrs: Vec<String> = Vec::new();
            let mut i: usize = 0;
            proof {
                assert(vs@.take(0) =~= Seq::<VariantModel>::empty());
                assert(strings_view(serrs@) =~= Seq::<Seq<char>>::empty());
                assert(shape_errors(vs@.take(0)) =~= Seq::<Seq<char>>::empty());
            }
            while i < vs.len()
                invariant
                    i <= vs@.len(),
                    strings_view(serrs@) == shape_errors(vs@.take(i as int)),
                decreases vs@.len() - i,
            {
                let ghost before = serrs@;
                proof {
                    assert(vs@.take(i as int).push(vs@[i as int]) =~= vs@.take(i + 1));
                    lemma_shape_errors_snoc(vs@.take(i as int), vs@[i as int]);
                }
                match &vs[i].fields {
                    FieldsModel::Named(fs) => {
                        if fs.len() == 0 {
                            serrs.push(crate::codegen::messages::at_least_one_field().to_owned());
                            proof {
                                lemma_strings_view_push(before, serrs@.last());
                                assert(strings_view(serrs@) =~= shape_errors(vs@.take(i + 1)));
                            }
                        } else {
                            proof {
                                assert(shape_error_of(vs@[i as int]) =~= Seq::<Seq<char>>::empty());
                                assert(strings_view(serrs@) =~= shape_errors(vs@.take(i + 1)));
                            }
                        }
                    },
                    _ => {
                        serrs.push(crate::codegen::messages::supported_types().to_owned());
                        proof {
                            lemma_strings_view_push(before, serrs@.last());
                            assert(strings_view(serrs@) =~= shape_errors(vs@.take(i + 1)));
                        }
                    },
                }
                i = i + 1;
            }
            proof {
                assert(vs@.take(vs@.len() as int) =~= vs@);
            }
            if serrs.len() > 0 {
                return Err(serrs);
            }
            proof {
                lemma_shape_errors_all_ok(vs@);
            }
            generate_enum(type_attr, &ident, &generics_model, &vs, &scope, error_bounds)
        },
    }
}

} // verus!
