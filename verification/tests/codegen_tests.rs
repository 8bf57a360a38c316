use error2::codegen::{
    generate, parse_field_attr, parse_type_attr, parse_variant_attr, scan_fields, AttrModel,
    ContextKind, DataModel, DeriveInputModel, DisplayGen, ErrorKind, FieldModel, FieldsModel,
    GenericsModel, InferredBounds, ListPayload, Meta, MetaValue, ParamsInScope, Trait, TypeModel,
    TypeSegment, VariantModel, VisModel,
};

fn field(name: &str, ty_text: &str) -> FieldModel {
    FieldModel {
        name: String::from(name),
        ty: TypeModel::Other,
        ty_text: String::from(ty_text),
        attrs: Vec::new(),
    }
}

fn generic_field(name: &str, param: &str) -> FieldModel {
    FieldModel {
        name: String::from(name),
        ty: TypeModel::Path {
            qself: None,
            segments: vec![TypeSegment { name: String::from(param), args: Vec::new() }],
        },
        ty_text: String::from(param),
        attrs: Vec::new(),
    }
}

fn plain_generics() -> GenericsModel {
    GenericsModel { params: Vec::new(), where_preds: Vec::new() }
}

fn input(name: &str, data: DataModel) -> DeriveInputModel {
    DeriveInputModel {
        name: String::from(name),
        attrs: Vec::new(),
        generics: plain_generics(),
        data,
    }
}

fn display_attr(tokens: &str) -> AttrModel {
    AttrModel {
        name: String::from("error2"),
        parsed: Some(vec![Meta {
            name: Some(String::from("display")),
            value: MetaValue::List(ListPayload {
                tokens: String::from(tokens),
                as_bool: None,
                as_vis: None,
            }),
        }]),
    }
}

#[test]
fn test_struct_source_and_backtrace_is_std() {
    let fields = vec![field("source", "io::Error"), field("backtrace", "Backtrace")];
    let g = generate(input("MyError", DataModel::Struct(FieldsModel::Named(fields)))).unwrap();
    assert_eq!(g.type_ident, "MyError");
    assert_eq!(g.contexts.len(), 1);
    assert_eq!(g.contexts[0].name, "MyError2");
    assert!(matches!(g.contexts[0].kind, ErrorKind::Std));
    assert!(g.contexts[0].fields.is_empty());
    assert!(!g.contexts[0].has_root_methods);
}

#[test]
fn test_struct_source_alone_is_err2() {
    let fields = vec![field("source", "inner::Error")];
    let g = generate(input("Wrap", DataModel::Struct(FieldsModel::Named(fields)))).unwrap();
    assert!(matches!(g.contexts[0].kind, ErrorKind::Err2));
}

#[test]
fn test_struct_backtrace_alone_is_root() {
    let fields = vec![field("backtrace", "Backtrace")];
    let g = generate(input("Rooty", DataModel::Struct(FieldsModel::Named(fields)))).unwrap();
    assert!(matches!(g.contexts[0].kind, ErrorKind::Root));
    assert!(g.contexts[0].has_root_methods);
}

#[test]
fn test_struct_neither_field_is_refused() {
    let fields = vec![field("other", "u32")];
    let es = generate(input("Bad", DataModel::Struct(FieldsModel::Named(fields)))).unwrap_err();
    assert_eq!(es.len(), 1);
    assert!(es[0].starts_with("this struct has neither `source` nor `backtrace` fields."));
}

#[test]
fn test_union_and_shapes_are_refused() {
    let es = generate(input("U", DataModel::Union)).unwrap_err();
    assert_eq!(
        es,
        vec![String::from(
            "`Error2` can only be derived for structs and enums with named fields"
        )]
    );
    let es = generate(input("T", DataModel::Struct(FieldsModel::Unnamed))).unwrap_err();
    assert_eq!(es.len(), 1);
    let es = generate(input("T", DataModel::Struct(FieldsModel::Unit))).unwrap_err();
    assert_eq!(es.len(), 1);
    let es =
        generate(input("E", DataModel::Struct(FieldsModel::Named(Vec::new())))).unwrap_err();
    assert_eq!(es, vec![String::from("must have at least one field")]);
    let es = generate(input("E", DataModel::Enum(Vec::new()))).unwrap_err();
    assert_eq!(es, vec![String::from("must have at least one variant")]);
}

#[test]
fn test_carried_fields_get_generics_and_bounds() {
    let fields = vec![
        field("code", "u32"),
        field("source", "io::Error"),
        field("backtrace", "Backtrace"),
        field("hint", "String"),
    ];
    let g = generate(input("MyError", DataModel::Struct(FieldsModel::Named(fields)))).unwrap();
    let c = &g.contexts[0];
    assert_eq!(c.fields, vec![String::from("code"), String::from("hint")]);
    assert_eq!(c.field_generics, vec![String::from("__T0"), String::from("__T3")]);
    assert_eq!(c.where_preds.len(), 2);
    assert_eq!(c.where_preds[0].ty, "__T0");
    assert_eq!(c.where_preds[0].bounds, vec![String::from("::core::convert::Into<u32>")]);
    assert_eq!(c.where_preds[1].ty, "__T3");
    assert_eq!(c.where_preds[1].bounds, vec![String::from("::core::convert::Into<String>")]);
}

#[test]
fn test_generic_source_gets_inferred_bounds() {
    let fields = vec![generic_field("source", "E")];
    let mut inp = input("Wrap", DataModel::Struct(FieldsModel::Named(fields)));
    inp.generics = GenericsModel { params: vec![String::from("E")], where_preds: Vec::new() };
    let g = generate(inp).unwrap();
    assert_eq!(g.error_where.len(), 2);
    assert_eq!(g.error_where[0].ty, "Wrap<E>");
    assert_eq!(
        g.error_where[0].bounds,
        vec![String::from("::core::fmt::Debug"), String::from("::core::fmt::Display")]
    );
    assert_eq!(g.error_where[1].ty, "E");
    assert_eq!(g.error_where[1].bounds, vec![String::from("::error2::Error2 + 'static")]);
}

#[test]
fn test_module_attr_wraps_in_snake_case_module() {
    let fields = vec![field("backtrace", "Backtrace")];
    let mut inp = input("MyHttpError", DataModel::Struct(FieldsModel::Named(fields)));
    inp.attrs = vec![AttrModel {
        name: String::from("error2"),
        parsed: Some(vec![Meta { name: Some(String::from("module")), value: MetaValue::Path }]),
    }];
    let g = generate(inp).unwrap();
    assert!(matches!(g.module, Some(VisModel::Inherited)));
    assert_eq!(g.module_ident.as_deref(), Some("my_http_error"));
    assert!(matches!(g.contexts[0].vis, VisModel::PubSuper));
}

#[test]
fn test_type_display_attr_becomes_type_level_display() {
    let fields = vec![field("backtrace", "Backtrace")];
    let mut inp = input("D", DataModel::Struct(FieldsModel::Named(fields)));
    inp.attrs = vec![display_attr("\"boom {code}\"")];
    let g = generate(inp).unwrap();
    match &g.display {
        DisplayGen::TypeLevel(t) => assert_eq!(t, "\"boom {code}\""),
        _ => panic!("expected a type-level display"),
    }
}

#[test]
fn test_display_tokens_refused_on_enum() {
    let variants = vec![VariantModel {
        name: String::from("A"),
        attrs: Vec::new(),
        fields: FieldsModel::Named(vec![field("backtrace", "Backtrace")]),
    }];
    let mut inp = input("E", DataModel::Enum(variants));
    inp.attrs = vec![display_attr("\"x\"")];
    let es = generate(inp).unwrap_err();
    assert_eq!(
        es,
        vec![String::from(
            "enums can only omit the `display` attribute or use `#[error2(display(false))]`"
        )]
    );
}

#[test]
fn test_enum_variants_classified_separately() {
    let variants = vec![
        VariantModel {
            name: String::from("Io"),
            attrs: Vec::new(),
            fields: FieldsModel::Named(vec![
                field("source", "io::Error"),
                field("backtrace", "Backtrace"),
            ]),
        },
        VariantModel {
            name: String::from("Missing"),
            attrs: Vec::new(),
            fields: FieldsModel::Named(vec![field("backtrace", "Backtrace")]),
        },
    ];
    let g = generate(input("AppError", DataModel::Enum(variants))).unwrap();
    assert_eq!(g.contexts.len(), 2);
    assert_eq!(g.contexts[0].name, "Io2");
    assert!(matches!(g.contexts[0].kind, ErrorKind::Std));
    assert_eq!(g.contexts[1].name, "Missing2");
    assert!(matches!(g.contexts[1].kind, ErrorKind::Root));
    assert_eq!(g.kinds.len(), 2);
    assert!(matches!(g.display, DisplayGen::Omitted));
}

#[test]
fn test_missing_display_on_one_variant_is_refused() {
    let variants = vec![
        VariantModel {
            name: String::from("A"),
            attrs: vec![display_attr("\"a\"")],
            fields: FieldsModel::Named(vec![field("backtrace", "Backtrace")]),
        },
        VariantModel {
            name: String::from("B"),
            attrs: Vec::new(),
            fields: FieldsModel::Named(vec![field("backtrace", "Backtrace")]),
        },
    ];
    let es = generate(input("E", DataModel::Enum(variants))).unwrap_err();
    assert_eq!(es, vec![String::from("missing `#[error2(display(...))]` attribute")]);
}

#[test]
fn test_enum_per_variant_display() {
    let variants = vec![
        VariantModel {
            name: String::from("A"),
            attrs: vec![display_attr("\"a\"")],
            fields: FieldsModel::Named(vec![field("backtrace", "Backtrace")]),
        },
        VariantModel {
            name: String::from("B"),
            attrs: vec![display_attr("\"b\"")],
            fields: FieldsModel::Named(vec![field("source", "io::Error")]),
        },
    ];
    let g = generate(input("E", DataModel::Enum(variants))).unwrap();
    match &g.display {
        DisplayGen::PerVariant(arms) => {
            assert_eq!(arms.len(), 2);
            assert_eq!(arms[0].0, "A");
            assert_eq!(arms[0].1, "\"a\"");
            assert_eq!(arms[1].1, "\"b\"");
        },
        _ => panic!("expected per-variant display"),
    }
}

#[test]
fn test_parse_type_attr_duplicate_display() {
    let attrs = vec![display_attr("\"a\""), display_attr("\"b\"")];
    let es = parse_type_attr(&attrs).unwrap_err();
    assert_eq!(es, vec![String::from("`display` attribute specified multiple times")]);
}

#[test]
fn test_parse_type_attr_unknown_name() {
    let attrs = vec![AttrModel {
        name: String::from("error2"),
        parsed: Some(vec![Meta { name: Some(String::from("color")), value: MetaValue::Path }]),
    }];
    let es = parse_type_attr(&attrs).unwrap_err();
    assert_eq!(
        es,
        vec![String::from(
            "unknown attribute `color`, only `display`, `vis` and `module` are supported"
        )]
    );
}

#[test]
fn test_parse_variant_attr_display_false_refused() {
    let attrs = vec![AttrModel {
        name: String::from("error2"),
        parsed: Some(vec![Meta {
            name: Some(String::from("display")),
            value: MetaValue::List(ListPayload {
                tokens: String::from("false"),
                as_bool: Some(false),
                as_vis: None,
            }),
        }]),
    }];
    let es = parse_variant_attr(&attrs).unwrap_err();
    assert_eq!(es, vec![String::from("`display(false)` can only appear on the type")]);
}

#[test]
fn test_parse_field_attr_std() {
    let attrs = vec![AttrModel {
        name: String::from("error2"),
        parsed: Some(vec![Meta { name: Some(String::from("std")), value: MetaValue::Path }]),
    }];
    let fa = parse_field_attr(&attrs).unwrap();
    assert!(fa.from_std);
    let fa = parse_field_attr(&Vec::new()).unwrap();
    assert!(!fa.from_std);
}

#[test]
fn test_parse_field_attr_unknown_name() {
    let attrs = vec![AttrModel {
        name: String::from("error2"),
        parsed: Some(vec![Meta { name: Some(String::from("boxed")), value: MetaValue::Path }]),
    }];
    let es = parse_field_attr(&attrs).unwrap_err();
    assert_eq!(es, vec![String::from("unknown attribute `boxed`, only `std` is supported")]);
}

#[test]
fn test_params_in_scope_intersects() {
    let generics = GenericsModel {
        params: vec![String::from("T")],
        where_preds: Vec::new(),
    };
    let scope = ParamsInScope::new(&generics);
    let bare = TypeModel::Path {
        qself: None,
        segments: vec![TypeSegment { name: String::from("T"), args: Vec::new() }],
    };
    assert!(scope.intersects(&bare));
    let nested = TypeModel::Path {
        qself: None,
        segments: vec![TypeSegment { name: String::from("Vec"), args: vec![bare] }],
    };
    assert!(scope.intersects(&nested));
    let unrelated = TypeModel::Path {
        qself: None,
        segments: vec![TypeSegment { name: String::from("U"), args: Vec::new() }],
    };
    assert!(!scope.intersects(&unrelated));
}

#[test]
fn test_inferred_bounds_dedupe_and_order() {
    let mut b = InferredBounds::with_capacity(2);
    b.insert("T", "Debug");
    b.insert("T", "Display");
    b.insert("T", "Debug");
    b.insert("U", "Clone");
    let preds = b.augment_where_clause(Vec::new());
    assert_eq!(preds.len(), 2);
    assert_eq!(preds[0].ty, "T");
    assert_eq!(preds[0].bounds, vec![String::from("Debug"), String::from("Display")]);
    assert_eq!(preds[1].ty, "U");
}

#[test]
fn test_inferred_bounds_merge() {
    let mut a = InferredBounds::with_capacity(1);
    a.insert("T", "Debug");
    let mut b = InferredBounds::with_capacity(1);
    b.insert("T", "Display");
    b.insert("V", "Send");
    a.merge(&b);
    let preds = a.augment_where_clause(Vec::new());
    assert_eq!(preds[0].bounds, vec![String::from("Debug"), String::from("Display")]);
    assert_eq!(preds[1].ty, "V");
}

#[test]
fn test_scan_fields_finds_last_source() {
    let fields = vec![field("a", "u8"), field("source", "E1"), field("source", "E2")];
    let scan = scan_fields(&fields);
    assert_eq!(scan.source_idx, Some(2));
    assert!(!scan.has_backtrace);
    assert_eq!(scan.carried_names, vec![String::from("a")]);
}

#[test]
fn test_context_kind_words() {
    assert_eq!(ContextKind::Struct.as_str(), "struct");
    assert_eq!(ContextKind::Variant.as_str(), "variant");
    assert!(ErrorKind::Root.is_root());
    assert!(!ErrorKind::Std.is_root());
    assert_eq!(Trait::Debug.render(), "::core::fmt::Debug");
    assert_eq!(Trait::Display.render(), "::core::fmt::Display");
}
