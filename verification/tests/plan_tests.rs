use row_binding::attr::{AttrToken, ColumnAttr, RawAttr};
use row_binding::plan::{
    AccessExpr, CompileError, FieldBinding, FieldSlot, Mode, NamedFieldDesc, RecordDescriptor,
    ResultErrorKind, compile_plan, compile_record, extract_bindings,
};

fn column(tokens: Vec<AttrToken>) -> RawAttr {
    RawAttr { path: "column".to_owned(), tokens }
}

fn plain_field(name: &str) -> NamedFieldDesc {
    NamedFieldDesc { name: name.to_owned(), attrs: Vec::new() }
}

fn attributed_field(name: &str, tokens: Vec<AttrToken>) -> NamedFieldDesc {
    NamedFieldDesc { name: name.to_owned(), attrs: vec![column(tokens)] }
}

fn rename_tokens(key: &str) -> Vec<AttrToken> {
    vec![
        AttrToken::Ident("rename".to_owned()),
        AttrToken::Punct('='),
        AttrToken::Lit(key.to_owned()),
    ]
}

#[test]
fn plain_named_record_reads_declared_names_in_order() {
    let desc = RecordDescriptor::Named(vec![plain_field("id"), plain_field("name")]);
    let plan = compile_record(&desc, Mode::Infallible).unwrap();
    assert_eq!(plan.mode, Mode::Infallible);
    assert_eq!(
        plan.accesses,
        vec![
            AccessExpr::ByKey("id".to_owned()),
            AccessExpr::ByKey("name".to_owned()),
        ]
    );
    assert_eq!(plan.error_kind, ResultErrorKind::Native);
}

#[test]
fn renamed_field_targets_the_key_not_the_name() {
    let desc = RecordDescriptor::Named(vec![
        plain_field("id"),
        attributed_field("name", rename_tokens("full_name")),
    ]);
    let plan = compile_record(&desc, Mode::Infallible).unwrap();
    assert_eq!(plan.accesses[1], AccessExpr::ByKey("full_name".to_owned()));
    assert!(plan.accesses[1] != AccessExpr::ByKey("name".to_owned()));
}

#[test]
fn skipped_field_compiles_to_default_access() {
    let desc = RecordDescriptor::Named(vec![
        attributed_field("a", vec![AttrToken::Ident("skip".to_owned())]),
        plain_field("b"),
    ]);
    let plan = compile_record(&desc, Mode::Fallible).unwrap();
    assert_eq!(plan.accesses[0], AccessExpr::UseDefault);
    assert_eq!(plan.accesses[1], AccessExpr::ByKey("b".to_owned()));
}

#[test]
fn flatten_makes_the_error_kind_opaque() {
    let desc = RecordDescriptor::Named(vec![
        plain_field("id"),
        attributed_field("profile", vec![AttrToken::Ident("flatten".to_owned())]),
    ]);
    let plan = compile_record(&desc, Mode::Fallible).unwrap();
    assert_eq!(plan.accesses[1], AccessExpr::NestedRow);
    assert_eq!(plan.error_kind, ResultErrorKind::Opaque);
}

#[test]
fn no_flatten_keeps_the_error_kind_native() {
    let desc = RecordDescriptor::Named(vec![
        plain_field("id"),
        attributed_field("a", vec![AttrToken::Ident("skip".to_owned())]),
        attributed_field("n", rename_tokens("other")),
    ]);
    let plan = compile_record(&desc, Mode::Fallible).unwrap();
    assert_eq!(plan.error_kind, ResultErrorKind::Native);
}

#[test]
fn positional_record_reads_by_index_in_order() {
    let desc = RecordDescriptor::Positional(3);
    let plan = compile_record(&desc, Mode::Fallible).unwrap();
    assert_eq!(
        plan.accesses,
        vec![
            AccessExpr::ByIndex(0),
            AccessExpr::ByIndex(1),
            AccessExpr::ByIndex(2),
        ]
    );
    assert_eq!(plan.error_kind, ResultErrorKind::Native);
}

#[test]
fn unit_record_compiles_to_an_empty_plan() {
    let desc = RecordDescriptor::Unit;
    let plan = compile_record(&desc, Mode::Infallible).unwrap();
    assert!(plan.accesses.is_empty());
    assert_eq!(plan.error_kind, ResultErrorKind::Native);
}

#[test]
fn enum_record_is_rejected() {
    let desc = RecordDescriptor::Enumeration;
    assert_eq!(
        compile_record(&desc, Mode::Infallible),
        Err(CompileError::UnsupportedRecordKind)
    );
}

#[test]
fn union_record_is_rejected() {
    let desc = RecordDescriptor::Union;
    assert_eq!(
        compile_record(&desc, Mode::Fallible),
        Err(CompileError::UnsupportedRecordKind)
    );
}

#[test]
fn compiling_twice_yields_identical_plans() {
    let make = || {
        RecordDescriptor::Named(vec![
            plain_field("id"),
            attributed_field("name", rename_tokens("full_name")),
            attributed_field("a", vec![AttrToken::Ident("skip".to_owned())]),
            attributed_field("profile", vec![AttrToken::Ident("flatten".to_owned())]),
        ])
    };
    let first = compile_record(&make(), Mode::Fallible).unwrap();
    let second = compile_record(&make(), Mode::Fallible).unwrap();
    assert_eq!(first, second);
}

#[test]
fn extracted_bindings_pair_slots_with_strategies() {
    let desc = RecordDescriptor::Named(vec![
        plain_field("id"),
        attributed_field("a", vec![AttrToken::Ident("skip".to_owned())]),
    ]);
    let bindings = extract_bindings(&desc).unwrap();
    assert_eq!(
        bindings,
        vec![
            FieldBinding {
                slot: FieldSlot::Named("id".to_owned()),
                attr: ColumnAttr::Unannotated,
            },
            FieldBinding {
                slot: FieldSlot::Named("a".to_owned()),
                attr: ColumnAttr::Skip,
            },
        ]
    );
}

#[test]
fn compile_plan_keeps_the_requested_mode() {
    let bindings = vec![FieldBinding {
        slot: FieldSlot::Positional(0),
        attr: ColumnAttr::Unannotated,
    }];
    let plan = compile_plan(&bindings, Mode::Fallible);
    assert_eq!(plan.mode, Mode::Fallible);
    assert_eq!(plan.accesses, vec![AccessExpr::ByIndex(0)]);
}
