//! Parsing the `error2` attributes on types, variants and fields.
//!
//! Each parser folds over the attribute items in order, keeping what it
//! has seen and collecting diagnostics; the fold is the specification and
//! the executable parser is proved to follow it.

use crate::codegen::ast::{AttrModel, ListPayload, Meta, MetaValue, VisModel};
use crate::codegen::messages::{
    disable_display_must_on_type, disable_display_must_on_type_msg, display_must_in_meta_list,
    display_must_in_meta_list_msg, expected_ident, expected_ident_msg, invalid_vis,
    invalid_vis_msg, malformed_attr, malformed_attr_msg, module_must_in_path,
    module_must_in_path_msg, specified_multiple_times, specified_multiple_times_msg,
    std_must_in_path, std_must_in_path_msg, unknown_single_attr, unknown_single_attr_msg,
    unknown_type_attr, unknown_type_attr_msg, vis_must_in_meta_list, vis_must_in_meta_list_msg,
};
use crate::codegen::types::TypeDisplayAttr;
use crate::extract::{lemma_strings_view_push, strings_view};
use crate::strings::str_eq;
use vstd::prelude::*;

verus! {

/// The type-level attributes, once parsed.
#[derive(Debug)]
pub struct TypeAttr {
    pub display: TypeDisplayAttr,
    pub context_vis: VisModel,
    pub mod_vis: Option<VisModel>,
}

/// The variant-level attributes, once parsed.
#[derive(Debug)]
pub struct VariantAttr {
    pub display: Option<String>,
}

/// The field-level attributes, once parsed.
#[derive(Debug)]
pub struct FieldAttr {
    pub from_std: bool,
}

/// What the type-attribute fold has seen so far.
pub ghost struct TypeAttrState {
    pub display: TypeDisplayAttr,
    pub vis: Option<VisModel>,
    pub module: bool,
    pub errors: Seq<Seq<char>>,
}

/// The fold's starting point: nothing seen.
pub open spec fn type_state0() -> TypeAttrState {
    TypeAttrState {
        display: TypeDisplayAttr::Unset,
        vis: Option::None,
        module: false,
        errors: Seq::empty(),
    }
}

/// One type-level meta item folded into the state.
pub open spec fn type_meta_step(st: TypeAttrState, m: Meta) -> TypeAttrState {
    match m.name {
        Option::None => TypeAttrState { errors: st.errors.push(expected_ident_msg()), ..st },
        Option::Some(name) => {
            if name@ == "display"@ {
                match m.value {
                    MetaValue::List(p) => {
                        if !(st.display is Unset) {
                            TypeAttrState {
                                errors: st.errors.push(specified_multiple_times_msg("display"@)),
                                ..st
                            }
                        } else if p.as_bool == Option::Some(false) {
                            TypeAttrState { display: TypeDisplayAttr::Disabled, ..st }
                        } else {
                            TypeAttrState { display: TypeDisplayAttr::Enabled(p.tokens), ..st }
                        }
                    },
                    _ => TypeAttrState {
                        errors: st.errors.push(display_must_in_meta_list_msg()),
                        ..st
                    },
                }
            } else if name@ == "vis"@ {
                match m.value {
                    MetaValue::List(p) => {
                        if st.vis is Some {
                            TypeAttrState {
                                errors: st.errors.push(specified_multiple_times_msg("vis"@)),
                                ..st
                            }
                        } else {
                            match p.as_vis {
                                Option::Some(v) => TypeAttrState { vis: Option::Some(v), ..st },
                                Option::None => TypeAttrState {
                                    errors: st.errors.push(invalid_vis_msg()),
                                    ..st
                                },
                            }
                        }
                    },
                    _ => TypeAttrState {
                        errors: st.errors.push(vis_must_in_meta_list_msg()),
                        ..st
                    },
                }
            } else if name@ == "module"@ {
                match m.value {
                    MetaValue::Path => {
                        if st.module {
                            TypeAttrState {
                                errors: st.errors.push(specified_multiple_times_msg("module"@)),
                                ..st
                            }
                        } else {
                            TypeAttrState { module: true, ..st }
                        }
                    },
                    _ => TypeAttrState {
                        errors: st.errors.push(module_must_in_path_msg()),
                        ..st
                    },
                }
            } else {
                TypeAttrState { errors: st.errors.push(unknown_type_attr_msg(name@)), ..st }
            }
        },
    }
}

/// A sequence of meta items folded in order.
pub open spec fn type_metas_fold(st: TypeAttrState, ms: Seq<Meta>) -> TypeAttrState
    decreases ms.len(),
{
    if ms.len() == 0 {
        st
    } else {
        type_metas_fold(type_meta_step(st, ms[0]), ms.skip(1))
    }
}

/// One whole attribute folded into the state: attributes not named
/// `error2` are skipped, one whose arguments do not parse reports that,
/// and otherwise its meta items are folded in order.
pub open spec fn type_attr_step(st: TypeAttrState, a: AttrModel) -> TypeAttrState {
    if a.name@ != "error2"@ {
        st
    } else {
        match a.parsed {
            Option::None => TypeAttrState { errors: st.errors.push(malformed_attr_msg()), ..st },
            Option::Some(ms) => type_metas_fold(st, ms@),
        }
    }
}

/// All attributes folded in order.
pub open spec fn type_attrs_fold(st: TypeAttrState, attrs: Seq<AttrModel>) -> TypeAttrState
    decreases attrs.len(),
{
    if attrs.len() == 0 {
        st
    } else {
        type_attrs_fold(type_attr_step(st, attrs[0]), attrs.skip(1))
    }
}

proof fn lemma_type_metas_fold_concat(st: TypeAttrState, a: Seq<Meta>, b: Seq<Meta>)
    ensures
        type_metas_fold(st, a + b) == type_metas_fold(type_metas_fold(st, a), b),
    decreases a.len(),
{
    if a.len() == 0 {
        assert(a + b =~= b);
    } else {
        assert((a + b)[0] == a[0]);
        assert((a + b).skip(1) =~= a.skip(1) + b);
        lemma_type_metas_fold_concat(type_meta_step(st, a[0]), a.skip(1), b);
    }
}

proof fn lemma_type_metas_fold_one(st: TypeAttrState, m: Meta)
    ensures
        type_metas_fold(st, seq![m]) == type_meta_step(st, m),
{
    reveal_with_fuel(type_metas_fold, 2);
    assert(seq![m][0] == m);
    assert(seq![m].skip(1) =~= Seq::<Meta>::empty());
}

proof fn lemma_type_attrs_fold_one(st: TypeAttrState, a: AttrModel)
    ensures
        type_attrs_fold(st, seq![a]) == type_attr_step(st, a),
{
    reveal_with_fuel(type_attrs_fold, 2);
    assert(seq![a][0] == a);
    assert(seq![a].skip(1) =~= Seq::<AttrModel>::empty());
}

proof fn lemma_type_attrs_fold_concat(st: TypeAttrState, a: Seq<AttrModel>, b: Seq<AttrModel>)
    ensures
        type_attrs_fold(st, a + b) == type_attrs_fold(type_attrs_fold(st, a), b),
    decreases a.len(),
{
    if a.len() == 0 {
        assert(a + b =~= b);
    } else {
        assert((a + b)[0] == a[0]);
        assert((a + b).skip(1) =~= a.skip(1) + b);
        lemma_type_attrs_fold_concat(type_attr_step(st, a[0]), a.skip(1), b);
    }
}

/// The context visibility the parsed attributes settle on.
pub open spec fn context_vis_of(st: TypeAttrState) -> VisModel {
    match st.vis {
        Option::None => if st.module {
            VisModel::PubSuper
        } else {
            VisModel::Inherited
        },
        Option::Some(v) => v,
    }
}

/// The module visibility the parsed attributes settle on.
pub open spec fn mod_vis_of(st: TypeAttrState) -> Option<VisModel> {
    if !st.module {
        Option::None
    } else {
        match st.vis {
            Option::None => Option::Some(VisModel::Inherited),
            Option::Some(v) => Option::Some(v),
        }
    }
}

/// Parses the type-level `error2` attributes.
pub fn parse_type_attr(attrs: &Vec<AttrModel>) -> (r: Result<TypeAttr, Vec<String>>)
    ensures
        ({
            let st = type_attrs_fold(type_state0(), attrs@);
            &&& st.errors.len() == 0 ==> (r matches Ok(ta) && ta.display == st.display
                && ta.context_vis == context_vis_of(st) && ta.mod_vis == mod_vis_of(st))
            &&& st.errors.len() > 0 ==> (r matches Err(es) && strings_view(es@) == st.errors)
        }),
{
    let mut display = TypeDisplayAttr::Unset;
    let mut vis: Option<VisModel> = None;
    let mut module = false;
    let mut errors: Vec<String> = Vec::new();
    let ghost st0 = type_state0();
    let mut i: usize = 0;
    proof {
        assert(attrs@.take(0) =~= Seq::<AttrModel>::empty());
        assert(strings_view(errors@) =~= Seq::<Seq<char>>::empty());
        assert(type_attrs_fold(st0, attrs@.take(0)) == st0);
    }
    while i < attrs.len()
        invariant
            i <= attrs@.len(),
            type_attrs_fold(st0, attrs@.take(i as int)) == (TypeAttrState {
                display,
                vis,
                module,
                errors: strings_view(errors@),
            }),
            st0 == type_state0(),
        decreases attrs@.len() - i,
    {
        let ghost st_in = TypeAttrState { display, vis, module, errors: strings_view(errors@) };
        let a = &attrs[i];
        if str_eq(a.name.as_str(), "error2") {
            match &a.parsed {
                None => {
                    let ghost before = errors@;
                    errors.push(malformed_attr().to_owned());
                    proof {
                        lemma_strings_view_push(before, errors@.last());
                    }
                },
                Some(ms) => {
                    let mut j: usize = 0;
                    proof {
                        assert(ms@.take(0) =~= Seq::<Meta>::empty());
                    }
                    while j < ms.len()
                        invariant
                            j <= ms@.len(),
                            type_metas_fold(st_in, ms@.take(j as int)) == (TypeAttrState {
                                display,
                                vis,
                                module,
                                errors: strings_view(errors@),
                            }),
                        decreases ms@.len() - j,
                    {
                        let ghost mid = TypeAttrState {
                            display,
                            vis,
                            module,
                            errors: strings_view(errors@),
                        };
                        let m = &ms[j];
                        match &m.name {
                            None => {
                                let ghost before = errors@;
                                errors.push(expected_ident().to_owned());
                                proof {
                                    lemma_strings_view_push(before, errors@.last());
                                }
                            },
                            Some(name) => {
                                if str_eq(name.as_str(), "display") {
                                    match &m.value {
                                        MetaValue::List(p) => {
                                            if !display.is_unset() {
                                                let ghost before = errors@;
                                                errors.push(specified_multiple_times("display"));
                                                proof {
                                                    lemma_strings_view_push(
                                                        before,
                                                        errors@.last(),
                                                    );
                                                }
                                            } else {
                                                let disabled = match &p.as_bool {
                                                    Some(b) => !*b,
                                                    None => false,
                                                };
                                                if disabled {
                                                    display = TypeDisplayAttr::Disabled;
                                                } else {
                                                    display = TypeDisplayAttr::Enabled(
                                                        p.tokens.clone(),
                                                    );
                                                }
                                            }
                                        },
                                        _ => {
                                            let ghost before = errors@;
                                            errors.push(display_must_in_meta_list().to_owned());
                                            proof {
                                                lemma_strings_view_push(before, errors@.last());
                                            }
                                        },
                                    }
                                } else if str_eq(name.as_str(), "vis") {
                                    match &m.value {
                                        MetaValue::List(p) => {
                                            if vis.is_some() {
                                                let ghost before = errors@;
                                                errors.push(specified_multiple_times("vis"));
                                                proof {
                                                    lemma_strings_view_push(
                                                        before,
                                                        errors@.last(),
                                                    );
                                                }
                                            } else {
                                                match &p.as_vis {
                                                    Some(v) => {
                                                        vis = Some(*v);
                                                    },
                                                    None => {
                                                        let ghost before = errors@;
                                                        errors.push(invalid_vis().to_owned());
                                                        proof {
                                                            lemma_strings_view_push(
                                                                before,
                                                                errors@.last(),
                                                            );
                                                        }
                                                    },
                                                }
                                            }
                                        },
                                        _ => {
                                            let ghost before = errors@;
                                            errors.push(vis_must_in_meta_list().to_owned());
                                            proof {
                                                lemma_strings_view_push(before, errors@.last());
                                            }
                                        },
                                    }
                                } else if str_eq(name.as_str(), "module") {
                                    match &m.value {
                                        MetaValue::Path => {
                                            if module {
                                                let ghost before = errors@;
                                                errors.push(specified_multiple_times("module"));
                                                proof {
                                                    lemma_strings_view_push(
                                                        before,
                                                        errors@.last(),
                                                    );
                                                }
                                            } else {
                                                module = true;
                                            }
                                        },
                                        _ => {
                                            let ghost before = errors@;
                                            errors.push(module_must_in_path().to_owned());
                                            proof {
                                                lemma_strings_view_push(before, errors@.last());
                                            }
                                        },
                                    }
                                } else {
                                    let ghost before = errors@;
                                    errors.push(unknown_type_attr(name.as_str()));
                                    proof {
                                        lemma_strings_view_push(before, errors@.last());
                                    }
                                }
                            },
                        }
                        proof {
                            assert(ms@.take(j as int).push(ms@[j as int]) =~= ms@.take(j + 1));
                            assert(ms@.take(j as int) + seq![ms@[j as int]] =~= ms@.take(j + 1));
                            lemma_type_metas_fold_concat(
                                st_in,
                                ms@.take(j as int),
                                seq![ms@[j as int]],
                            );
                            lemma_type_metas_fold_one(mid, ms@[j as int]);
                            assert(type_metas_fold(st_in, ms@.take(j + 1)) == type_meta_step(
                                mid,
                                ms@[j as int],
                            ));
                            assert(type_meta_step(mid, ms@[j as int]) == (TypeAttrState {
                                display,
                                vis,
                                module,
                                errors: strings_view(errors@),
                            }));
                        }
                        j = j + 1;
                    }
                    proof {
                        assert(ms@.take(ms@.len() as int) =~= ms@);
                    }
                },
            }
        }
        proof {
            assert(attrs@.take(i as int) + seq![attrs@[i as int]] =~= attrs@.take(i + 1));
            lemma_type_attrs_fold_concat(st0, attrs@.take(i as int), seq![attrs@[i as int]]);
            lemma_type_attrs_fold_one(st_in, attrs@[i as int]);
            assert(type_attrs_fold(st0, attrs@.take(i + 1)) == type_attr_step(
                st_in,
                attrs@[i as int],
            ));
            assert(type_attr_step(st_in, attrs@[i as int]) == (TypeAttrState {
                display,
                vis,
                module,
                errors: strings_view(errors@),
            }));
        }
        i = i + 1;
    }
    proof {
        assert(attrs@.take(attrs@.len() as int) =~= attrs@);
    }
    if errors.len() > 0 {
        return Err(errors);
    }
    let (context_vis, mod_vis): (VisModel, Option<VisModel>) = match (&vis, module) {
        (None, false) => (VisModel::Inherited, None),
        (None, true) => (VisModel::PubSuper, Some(VisModel::Inherited)),
        (Some(v), false) => (*v, None),
        (Some(v), true) => (*v, Some(*v)),
    };
    Ok(TypeAttr { display, context_vis, mod_vis })
}

/// What the variant-attribute fold has seen so far.
pub ghost struct VariantAttrState {
    pub display: Option<String>,
    pub errors: Seq<Seq<char>>,
}

/// The fold's starting point: nothing seen.
pub open spec fn variant_state0() -> VariantAttrState {
    VariantAttrState { display: Option::None, errors: Seq::empty() }
}

/// One variant-level meta item folded into the state.
pub open spec fn variant_meta_step(st: VariantAttrState, m: Meta) -> VariantAttrState {
    match m.name {
        Option::None => VariantAttrState { errors: st.errors.push(expected_ident_msg()), ..st },
        Option::Some(name) => {
            if name@ == "display"@ {
                match m.value {
                    MetaValue::List(p) => {
                        if st.display is Some {
                            VariantAttrState {
                                errors: st.errors.push(specified_multiple_times_msg("display"@)),
                                ..st
                            }
                        } else if p.as_bool == Option::Some(false) {
                            VariantAttrState {
                                errors: st.errors.push(disable_display_must_on_type_msg()),
                                ..st
                            }
                        } else {
                            VariantAttrState { display: Option::Some(p.tokens), ..st }
                        }
                    },
                    _ => VariantAttrState {
                        errors: st.errors.push(display_must_in_meta_list_msg()),
                        ..st
                    },
                }
            } else {
                VariantAttrState {
                    errors: st.errors.push(unknown_single_attr_msg(name@, "display"@)),
                    ..st
                }
            }
        },
    }
}

/// A sequence of meta items folded in order.
pub open spec fn variant_metas_fold(st: VariantAttrState, ms: Seq<Meta>) -> VariantAttrState
    decreases ms.len(),
{
    if ms.len() == 0 {
        st
    } else {
        variant_metas_fold(variant_meta_step(st, ms[0]), ms.skip(1))
    }
}

/// One whole attribute folded into the state.
pub open spec fn variant_attr_step(st: VariantAttrState, a: AttrModel) -> VariantAttrState {
    if a.name@ != "error2"@ {
        st
    } else {
        match a.parsed {
            Option::None => VariantAttrState {
                errors: st.errors.push(malformed_attr_msg()),
                ..st
            },
            Option::Some(ms) => variant_metas_fold(st, ms@),
        }
    }
}

/// All attributes folded in order.
pub open spec fn variant_attrs_fold(st: VariantAttrState, attrs: Seq<AttrModel>) -> VariantAttrState
    decreases attrs.len(),
{
    if attrs.len() == 0 {
        st
    } else {
        variant_attrs_fold(variant_attr_step(st, attrs[0]), attrs.skip(1))
    }
}

proof fn lemma_variant_metas_fold_concat(st: VariantAttrState, a: Seq<Meta>, b: Seq<Meta>)
    ensures
        variant_metas_fold(st, a + b) == variant_metas_fold(variant_metas_fold(st, a), b),
    decreases a.len(),
{
    if a.len() == 0 {
        assert(a + b =~= b);
    } else {
        assert((a + b)[0] == a[0]);
        assert((a + b).skip(1) =~= a.skip(1) + b);
        lemma_variant_metas_fold_concat(variant_meta_step(st, a[0]), a.skip(1), b);
    }
}

proof fn lemma_variant_metas_fold_one(st: VariantAttrState, m: Meta)
    ensures
        variant_metas_fold(st, seq![m]) == variant_meta_step(st, m),
{
    reveal_with_fuel(variant_metas_fold, 2);
    assert(seq![m][0] == m);
    assert(seq![m].skip(1) =~= Seq::<Meta>::empty());
}

proof fn lemma_variant_attrs_fold_one(st: VariantAttrState, a: AttrModel)
    ensures
        variant_attrs_fold(st, seq![a]) == variant_attr_step(st, a),
{
    reveal_with_fuel(variant_attrs_fold, 2);
    assert(seq![a][0] == a);
    assert(seq![a].skip(1) =~= Seq::<AttrModel>::empty());
}

proof fn lemma_variant_attrs_fold_concat(
    st: VariantAttrState,
    a: Seq<AttrModel>,
    b: Seq<AttrModel>,
)
    ensures
        variant_attrs_fold(st, a + b) == variant_attrs_fold(variant_attrs_fold(st, a), b),
    decreases a.len(),
{
    if a.len() == 0 {
        assert(a + b =~= b);
    } else {
        assert((a + b)[0] == a[0]);
        assert((a + b).skip(1) =~= a.skip(1) + b);
        lemma_variant_attrs_fold_concat(variant_attr_step(st, a[0]), a.skip(1), b);
    }
}

/// Parses the variant-level `error2` attributes.
pub fn parse_variant_attr(attrs: &Vec<AttrModel>) -> (r: Result<VariantAttr, Vec<String>>)
    ensures
        ({
            let st = variant_attrs_fold(variant_state0(), attrs@);
            &&& st.errors.len() == 0 ==> (r matches Ok(va) && va.display == st.display)
            &&& st.errors.len() > 0 ==> (r matches Err(es) && strings_view(es@) == st.errors)
        }),
{
    let mut display: Option<String> = None;
    let mut errors: Vec<String> = Vec::new();
    let ghost st0 = variant_state0();
    let mut i: usize = 0;
    proof {
        assert(attrs@.take(0) =~= Seq::<AttrModel>::empty());
        assert(strings_view(errors@) =~= Seq::<Seq<char>>::empty());
        assert(variant_attrs_fold(st0, attrs@.take(0)) == st0);
    }
    while i < attrs.len()
        invariant
            i <= attrs@.len(),
            variant_attrs_fold(st0, attrs@.take(i as int)) == (VariantAttrState {
                display,
                errors: strings_view(errors@),
            }),
            st0 == variant_state0(),
        decreases attrs@.len() - i,
    {
        let ghost st_in = VariantAttrState { display, errors: strings_view(errors@) };
        let a = &attrs[i];
        if str_eq(a.name.as_str(), "error2") {
            match &a.parsed {
                None => {
                    let ghost before = errors@;
                    errors.push(malformed_attr().to_owned());
                    proof {
                        lemma_strings_view_push(before, errors@.last());
                    }
                },
                Some(ms) => {
                    let mut j: usize = 0;
                    proof {
                        assert(ms@.take(0) =~= Seq::<Meta>::empty());
                    }
                    while j < ms.len()
                        invariant
                            j <= ms@.len(),
                            variant_metas_fold(st_in, ms@.take(j as int)) == (VariantAttrState {
                                display,
                                errors: strings_view(errors@),
                            }),
                        decreases ms@.len() - j,
                    {
                        let ghost mid = VariantAttrState {
                            display,
                            errors: strings_view(errors@),
                        };
                        let m = &ms[j];
                        match &m.name {
                            None => {
                                let ghost before = errors@;
                                errors.push(expected_ident().to_owned());
                                proof {
                                    lemma_strings_view_push(before, errors@.last());
                                }
                            },
                            Some(name) => {
                                if str_eq(name.as_str(), "display") {
                                    match &m.value {
                                        MetaValue::List(p) => {
                                            if display.is_some() {
                                                let ghost before = errors@;
                                                errors.push(specified_multiple_times("display"));
                                                proof {
                                                    lemma_strings_view_push(
                                                        before,
                                                        errors@.last(),
                                                    );
                                                }
                                            } else {
                                                let disabled = match &p.as_bool {
                                                    Some(b) => !*b,
                                                    None => false,
                                                };
                                                if disabled {
                                                    let ghost before = errors@;
                                                    errors.push(
                                                        disable_display_must_on_type().to_owned(),
                                                    );
                                                    proof {
                                                        lemma_strings_view_push(
                                                            before,
                                                            errors@.last(),
                                                        );
                                                    }
                                                } else {
                                                    display = Some(p.tokens.clone());
                                                }
                                            }
                                        },
                                        _ => {
                                            let ghost before = errors@;
                                            errors.push(display_must_in_meta_list().to_owned());
                                            proof {
                                                lemma_strings_view_push(before, errors@.last());
                                            }
                                        },
                                    }
                                } else {
                                    let ghost before = errors@;
                                    errors.push(unknown_single_attr(name.as_str(), "display"));
                                    proof {
                                        lemma_strings_view_push(before, errors@.last());
                                    }
                                }
                            },
                        }
                        proof {
                            assert(ms@.take(j as int) + seq![ms@[j as int]] =~= ms@.take(j + 1));
                            lemma_variant_metas_fold_concat(
                                st_in,
                                ms@.take(j as int),
                                seq![ms@[j as int]],
                            );
                            lemma_variant_metas_fold_one(mid, ms@[j as int]);
                            assert(variant_meta_step(mid, ms@[j as int]) == (VariantAttrState {
                                display,
                                errors: strings_view(errors@),
                            }));
                        }
                        j = j + 1;
                    }
                    proof {
                        assert(ms@.take(ms@.len() as int) =~= ms@);
                    }
                },
            }
        }
        proof {
            assert(attrs@.take(i as int) + seq![attrs@[i as int]] =~= attrs@.take(i + 1));
            lemma_variant_attrs_fold_concat(st0, attrs@.take(i as int), seq![attrs@[i as int]]);
            lemma_variant_attrs_fold_one(st_in, attrs@[i as int]);
            assert(variant_attr_step(st_in, attrs@[i as int]) == (VariantAttrState {
                display,
                errors: strings_view(errors@),
            }));
        }
        i = i + 1;
    }
    proof {
        assert(attrs@.take(attrs@.len() as int) =~= attrs@);
    }
    if errors.len() > 0 {
        return Err(errors);
    }
    Ok(VariantAttr { display })
}

/// What the field-attribute fold has seen so far.
pub ghost struct FieldAttrState {
    pub from_std: bool,
    pub errors: Seq<Seq<char>>,
}

/// The fold's starting point: nothing seen.
pub open spec fn field_state0() -> FieldAttrState {
    FieldAttrState { from_std: false, errors: Seq::empty() }
}

/// One field-level meta item folded into the state.
pub open spec fn field_meta_step(st: FieldAttrState, m: Meta) -> FieldAttrState {
    match m.name {
        Option::None => FieldAttrState { errors: st.errors.push(expected_ident_msg()), ..st },
        Option::Some(name) => {
            if name@ == "std"@ {
                match m.value {
                    MetaValue::Path => {
                        if st.from_std {
                            FieldAttrState {
                                errors: st.errors.push(specified_multiple_times_msg("std"@)),
                                ..st
                            }
                        } else {
                            FieldAttrState { from_std: true, ..st }
                        }
                    },
                    _ => FieldAttrState { errors: st.errors.push(std_must_in_path_msg()), ..st },
                }
            } else {
                FieldAttrState {
                    errors: st.errors.push(unknown_single_attr_msg(name@, "std"@)),
                    ..st
                }
            }
        },
    }
}

/// A sequence of meta items folded in order.
pub open spec fn field_metas_fold(st: FieldAttrState, ms: Seq<Meta>) -> FieldAttrState
    decreases ms.len(),
{
    if ms.len() == 0 {
        st
    } else {
        field_metas_fold(field_meta_step(st, ms[0]), ms.skip(1))
    }
}

/// One whole attribute folded into the state.
pub open spec fn field_attr_step(st: FieldAttrState, a: AttrModel) -> FieldAttrState {
    if a.name@ != "error2"@ {
        st
    } else {
        match a.parsed {
            Option::None => FieldAttrState { errors: st.errors.push(malformed_attr_msg()), ..st },
            Option::Some(ms) => field_metas_fold(st, ms@),
        }
    }
}

/// All attributes folded in order.
pub open spec fn field_attrs_fold(st: FieldAttrState, attrs: Seq<AttrModel>) -> FieldAttrState
    decreases attrs.len(),
{
    if attrs.len() == 0 {
        st
    } else {
        field_attrs_fold(field_attr_step(st, attrs[0]), attrs.skip(1))
    }
}

proof fn lemma_field_metas_fold_concat(st: FieldAttrState, a: Seq<Meta>, b: Seq<Meta>)
    ensures
        field_metas_fold(st, a + b) == field_metas_fold(field_metas_fold(st, a), b),
    decreases a.len(),
{
    if a.len() == 0 {
        assert(a + b =~= b);
    } else {
        assert((a + b)[0] == a[0]);
        assert((a + b).skip(1) =~= a.skip(1) + b);
        lemma_field_metas_fold_concat(field_meta_step(st, a[0]), a.skip(1), b);
    }
}

proof fn lemma_field_metas_fold_one(st: FieldAttrState, m: Meta)
    ensures
        field_metas_fold(st, seq![m]) == field_meta_step(st, m),
{
    reveal_with_fuel(field_metas_fold, 2);
    assert(seq![m][0] == m);
    assert(seq![m].skip(1) =~= Seq::<Meta>::empty());
}

proof fn lemma_field_attrs_fold_one(st: FieldAttrState, a: AttrModel)
    ensures
        field_attrs_fold(st, seq![a]) == field_attr_step(st, a),
{
    reveal_with_fuel(field_attrs_fold, 2);
    assert(seq![a][0] == a);
    assert(seq![a].skip(1) =~= Seq::<AttrModel>::empty());
}

proof fn lemma_field_attrs_fold_concat(st: FieldAttrState, a: Seq<AttrModel>, b: Seq<AttrModel>)
    ensures
        field_attrs_fold(st, a + b) == field_attrs_fold(field_attrs_fold(st, a), b),
    decreases a.len(),
{
    if a.len() == 0 {
        assert(a + b =~= b);
    } else {
        assert((a + b)[0] == a[0]);
        assert((a + b).skip(1) =~= a.skip(1) + b);
        lemma_field_attrs_fold_concat(field_attr_step(st, a[0]), a.skip(1), b);
    }
}

/// Parses the field-level `error2` attributes.
pub fn parse_field_attr(attrs: &Vec<AttrModel>) -> (r: Result<FieldAttr, Vec<String>>)
    ensures
        ({
            let st = field_attrs_fold(field_state0(), attrs@);
            &&& st.errors.len() == 0 ==> (r matches Ok(fa) && fa.from_std == st.from_std)
            &&& st.errors.len() > 0 ==> (r matches Err(es) && strings_view(es@) == st.errors)
        }),
{
    let mut from_std = false;
    let mut errors: Vec<String> = Vec::new();
    let ghost st0 = field_state0();
    let mut i: usize = 0;
    proof {
        assert(attrs@.take(0) =~= Seq::<AttrModel>::empty());
        assert(strings_view(errors@) =~= Seq::<Seq<char>>::empty());
        assert(field_attrs_fold(st0, attrs@.take(0)) == st0);
    }
    while i < attrs.len()
        invariant
            i <= attrs@.len(),
            field_attrs_fold(st0, attrs@.take(i as int)) == (FieldAttrState {
                from_std,
                errors: strings_view(errors@),
            }),
            st0 == field_state0(),
        decreases attrs@.len() - i,
    {
        let ghost st_in = FieldAttrState { from_std, errors: strings_view(errors@) };
        let a = &attrs[i];
        if str_eq(a.name.as_str(), "error2") {
            match &a.parsed {
                None => {
                    let ghost before = errors@;
                    errors.push(malformed_attr().to_owned());
                    proof {
                        lemma_strings_view_push(before, errors@.last());
                    }
                },
                Some(ms) => {
                    let mut j: usize = 0;
                    proof {
                        assert(ms@.take(0) =~= Seq::<Meta>::empty());
                    }
                    while j < ms.len()
                        invariant
                            j <= ms@.len(),
                            field_metas_fold(st_in, ms@.take(j as int)) == (FieldAttrState {
                                from_std,
                                errors: strings_view(errors@),
                            }),
                        decreases ms@.len() - j,
                    {
                        let ghost mid = FieldAttrState {
                            from_std,
                            errors: strings_view(errors@),
                        };
                        let m = &ms[j];
                        match &m.name {
                            None => {
                                let ghost before = errors@;
                                errors.push(expected_ident().to_owned());
                                proof {
                                    lemma_strings_view_push(before, errors@.last());
                                }
                            },
                            Some(name) => {
                                if str_eq(name.as_str(), "std") {
                                    match &m.value {
                                        MetaValue::Path => {
                                            if from_std {
                                                let ghost before = errors@;
                                                errors.push(specified_multiple_times("std"));
                                                proof {
                                                    lemma_strings_view_push(
                                                        before,
                                                        errors@.last(),
                                                    );
                                                }
                                            } else {
                                                from_std = true;
                                            }
                                        },
                                        _ => {
                                            let ghost before = errors@;
                                            errors.push(std_must_in_path().to_owned());
                                            proof {
                                                lemma_strings_view_push(before, errors@.last());
                                            }
                                        },
                                    }
                                } else {
                                    let ghost before = errors@;
                                    errors.push(unknown_single_attr(name.as_str(), "std"));
                                    proof {
                                        lemma_strings_view_push(before, errors@.last());
                                    }
                                }
                            },
                        }
                        proof {
                            assert(ms@.take(j as int) + seq![ms@[j as int]] =~= ms@.take(j + 1));
                            lemma_field_metas_fold_concat(
                                st_in,
                                ms@.take(j as int),
                                seq![ms@[j as int]],
                            );
                            lemma_field_metas_fold_one(mid, ms@[j as int]);
                            assert(field_meta_step(mid, ms@[j as int]) == (FieldAttrState {
                                from_std,
                                errors: strings_view(errors@),
                            }));
                        }
                        j = j + 1;
                    }
                    proof {
                        assert(ms@.take(ms@.len() as int) =~= ms@);
                    }
                },
            }
        }
        proof {
            assert(attrs@.take(i as int) + seq![attrs@[i as int]] =~= attrs@.take(i + 1));
            lemma_field_attrs_fold_concat(st0, attrs@.take(i as int), seq![attrs@[i as int]]);
            lemma_field_attrs_fold_one(st_in, attrs@[i as int]);
            assert(field_attr_step(st_in, attrs@[i as int]) == (FieldAttrState {
                from_std,
                errors: strings_view(errors@),
            }));
        }
        i = i + 1;
    }
    proof {
        assert(attrs@.take(attrs@.len() as int) =~= attrs@);
    }
    if errors.len() > 0 {
        return Err(errors);
    }
    Ok(FieldAttr { from_std })
}

} // verus!
