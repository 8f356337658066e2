use row_binding::attr::AttrToken;
use row_binding::attr::RawAttr;
use row_binding::convert::{
    AccessError, Column, ConvertError, OpaqueError, Row, Value, convert_fallible,
    convert_infallible,
};
use row_binding::plan::{Mode, NamedFieldDesc, RecordDescriptor, compile_record};

fn column_attr(tokens: Vec<AttrToken>) -> RawAttr {
    RawAttr { path: "column".to_owned(), tokens }
}

fn plain_field(name: &str) -> NamedFieldDesc {
    NamedFieldDesc { name: name.to_owned(), attrs: Vec::new() }
}

fn attributed_field(name: &str, tokens: Vec<AttrToken>) -> NamedFieldDesc {
    NamedFieldDesc { name: name.to_owned(), attrs: vec![column_attr(tokens)] }
}

fn rename_tokens(key: &str) -> Vec<AttrToken> {
    vec![
        AttrToken::Ident("rename".to_owned()),
        AttrToken::Punct('='),
        AttrToken::Lit(key.to_owned()),
    ]
}

fn row(cols: Vec<(&str, Value)>) -> Row {
    Row {
        cols: cols
            .into_iter()
            .map(|(name, value)| Column { name: name.to_owned(), value })
            .collect(),
    }
}

#[test]
fn infallible_conversion_with_rename() {
    let desc = RecordDescriptor::Named(vec![
        plain_field("id"),
        attributed_field("name", rename_tokens("full_name")),
    ]);
    let plan = compile_record(&desc, Mode::Infallible).unwrap();
    let r = row(vec![
        ("id", Value::Int(1)),
        ("full_name", Value::Text("Ann".to_owned())),
    ]);
    let record = convert_infallible(&plan, &r, Vec::new());
    assert_eq!(record, vec![Value::Int(1), Value::Text("Ann".to_owned())]);
}

#[test]
fn skipped_field_gets_the_default_and_reads_no_column() {
    let desc = RecordDescriptor::Named(vec![
        attributed_field("a", vec![AttrToken::Ident("skip".to_owned())]),
        plain_field("b"),
    ]);
    let plan = compile_record(&desc, Mode::Infallible).unwrap();
    // the row has no column "a" at all, so no access can have been made for it
    let r = row(vec![("b", Value::Int(5))]);
    let record = convert_infallible(&plan, &r, Vec::new());
    assert_eq!(record, vec![Value::Null, Value::Int(5)]);
}

#[test]
fn skipped_field_ignores_a_column_of_the_same_name() {
    let desc = RecordDescriptor::Named(vec![
        attributed_field("a", vec![AttrToken::Ident("skip".to_owned())]),
    ]);
    let plan = compile_record(&desc, Mode::Fallible).unwrap();
    let r = row(vec![("a", Value::Int(9))]);
    let record = convert_fallible(&plan, &r, Vec::new()).unwrap();
    assert_eq!(record, vec![Value::Null]);
}

#[test]
fn fallible_conversion_returns_values_in_field_order() {
    let desc = RecordDescriptor::Named(vec![plain_field("x"), plain_field("y")]);
    let plan = compile_record(&desc, Mode::Fallible).unwrap();
    let r = row(vec![("y", Value::Int(2)), ("x", Value::Int(1))]);
    let record = convert_fallible(&plan, &r, Vec::new()).unwrap();
    assert_eq!(record, vec![Value::Int(1), Value::Int(2)]);
}

#[test]
fn missing_column_without_flatten_is_a_native_error() {
    let desc = RecordDescriptor::Named(vec![plain_field("id")]);
    let plan = compile_record(&desc, Mode::Fallible).unwrap();
    let r = row(vec![("other", Value::Int(3))]);
    let e = convert_fallible(&plan, &r, Vec::new()).unwrap_err();
    assert_eq!(e, ConvertError::Native(AccessError::MissingKey("id".to_owned())));
}

#[test]
fn first_failing_field_wins() {
    let desc = RecordDescriptor::Named(vec![plain_field("a"), plain_field("b")]);
    let plan = compile_record(&desc, Mode::Fallible).unwrap();
    let r = row(vec![]);
    let e = convert_fallible(&plan, &r, Vec::new()).unwrap_err();
    assert_eq!(e, ConvertError::Native(AccessError::MissingKey("a".to_owned())));
}

#[test]
fn missing_column_with_flatten_is_an_opaque_access_error() {
    let desc = RecordDescriptor::Named(vec![
        plain_field("id"),
        attributed_field("profile", vec![AttrToken::Ident("flatten".to_owned())]),
    ]);
    let plan = compile_record(&desc, Mode::Fallible).unwrap();
    let r = row(vec![]);
    let e = convert_fallible(&plan, &r, vec![Ok(Value::Null)]).unwrap_err();
    assert_eq!(
        e,
        ConvertError::Opaque(OpaqueError::Access(AccessError::MissingKey("id".to_owned())))
    );
}

#[test]
fn failed_nested_conversion_is_wrapped_opaque() {
    // the nested record wants a column the row does not have
    let inner_desc = RecordDescriptor::Named(vec![plain_field("age")]);
    let inner_plan = compile_record(&inner_desc, Mode::Fallible).unwrap();
    let r = row(vec![("id", Value::Int(1))]);
    let inner_err = convert_fallible(&inner_plan, &r, Vec::new()).unwrap_err();
    assert_eq!(
        inner_err,
        ConvertError::Native(AccessError::MissingKey("age".to_owned()))
    );

    let outer_desc = RecordDescriptor::Named(vec![
        plain_field("id"),
        attributed_field("profile", vec![AttrToken::Ident("flatten".to_owned())]),
    ]);
    let outer_plan = compile_record(&outer_desc, Mode::Fallible).unwrap();
    let e = convert_fallible(&outer_plan, &r, vec![Err(inner_err)]).unwrap_err();
    assert_eq!(
        e,
        ConvertError::Opaque(OpaqueError::Nested(Box::new(ConvertError::Native(
            AccessError::MissingKey("age".to_owned())
        ))))
    );
}

#[test]
fn successful_nested_conversion_fills_the_field() {
    let desc = RecordDescriptor::Named(vec![
        plain_field("id"),
        attributed_field("profile", vec![AttrToken::Ident("flatten".to_owned())]),
    ]);
    let plan = compile_record(&desc, Mode::Fallible).unwrap();
    let r = row(vec![("id", Value::Int(1))]);
    let record = convert_fallible(&plan, &r, vec![Ok(Value::Int(7))]).unwrap();
    assert_eq!(record, vec![Value::Int(1), Value::Int(7)]);
}

#[test]
fn infallible_nested_value_fills_the_field() {
    let desc = RecordDescriptor::Named(vec![
        plain_field("id"),
        attributed_field("profile", vec![AttrToken::Ident("flatten".to_owned())]),
    ]);
    let plan = compile_record(&desc, Mode::Infallible).unwrap();
    let r = row(vec![("id", Value::Int(1))]);
    let record = convert_infallible(&plan, &r, vec![Value::Int(7)]);
    assert_eq!(record, vec![Value::Int(1), Value::Int(7)]);
}

#[test]
fn positional_conversion_reads_by_index() {
    let desc = RecordDescriptor::Positional(2);
    let plan = compile_record(&desc, Mode::Fallible).unwrap();
    let r = row(vec![("first", Value::Int(10)), ("second", Value::Int(20))]);
    let record = convert_fallible(&plan, &r, Vec::new()).unwrap();
    assert_eq!(record, vec![Value::Int(10), Value::Int(20)]);
}

#[test]
fn short_row_gives_a_missing_index_error() {
    let desc = RecordDescriptor::Positional(2);
    let plan = compile_record(&desc, Mode::Fallible).unwrap();
    let r = row(vec![("only", Value::Int(10))]);
    let e = convert_fallible(&plan, &r, Vec::new()).unwrap_err();
    assert_eq!(e, ConvertError::Native(AccessError::MissingIndex(1)));
}

#[test]
fn unit_record_converts_to_an_empty_record() {
    let plan = compile_record(&RecordDescriptor::Unit, Mode::Fallible).unwrap();
    let r = row(vec![("anything", Value::Int(1))]);
    let record = convert_fallible(&plan, &r, Vec::new()).unwrap();
    assert!(record.is_empty());
}

#[test]
fn try_get_key_returns_the_first_match() {
    let r = row(vec![("k", Value::Int(1)), ("k", Value::Int(2))]);
    assert_eq!(r.try_get_key(&"k".to_owned()), Some(Value::Int(1)));
    assert_eq!(r.try_get_key(&"absent".to_owned()), None);
}

#[test]
fn try_get_index_respects_bounds() {
    let r = row(vec![("k", Value::Int(1))]);
    assert_eq!(r.try_get_index(0), Some(Value::Int(1)));
    assert_eq!(r.try_get_index(1), None);
}

#[test]
fn default_value_is_null() {
    assert_eq!(Value::default(), Value::Null);
}
