use row_binding::attr::{AttrToken, ColumnAttr, RawAttr, column_attr};

fn column(tokens: Vec<AttrToken>) -> RawAttr {
    RawAttr { path: "column".to_owned(), tokens }
}

fn rename_tokens(key: &str) -> Vec<AttrToken> {
    vec![
        AttrToken::Ident("rename".to_owned()),
        AttrToken::Punct('='),
        AttrToken::Lit(key.to_owned()),
    ]
}

#[test]
fn skip_marker_resolves() {
    let attrs = vec![column(vec![AttrToken::Ident("skip".to_owned())])];
    assert_eq!(column_attr(&attrs), ColumnAttr::Skip);
}

#[test]
fn flatten_marker_resolves() {
    let attrs = vec![column(vec![AttrToken::Ident("flatten".to_owned())])];
    assert_eq!(column_attr(&attrs), ColumnAttr::Flatten);
}

#[test]
fn rename_marker_resolves() {
    let attrs = vec![column(rename_tokens("full_name"))];
    assert_eq!(column_attr(&attrs), ColumnAttr::Rename("full_name".to_owned()));
}

#[test]
fn no_annotation_resolves_to_unannotated() {
    let attrs: Vec<RawAttr> = Vec::new();
    assert_eq!(column_attr(&attrs), ColumnAttr::Unannotated);
}

#[test]
fn other_path_is_ignored() {
    let attrs = vec![RawAttr {
        path: "serde".to_owned(),
        tokens: vec![AttrToken::Ident("skip".to_owned())],
    }];
    assert_eq!(column_attr(&attrs), ColumnAttr::Unannotated);
}

#[test]
fn unknown_marker_is_ignored() {
    let attrs = vec![column(vec![AttrToken::Ident("other".to_owned())])];
    assert_eq!(column_attr(&attrs), ColumnAttr::Unannotated);
}

#[test]
fn rename_without_arguments_is_ignored() {
    let attrs = vec![column(vec![AttrToken::Ident("rename".to_owned())])];
    assert_eq!(column_attr(&attrs), ColumnAttr::Unannotated);
}

#[test]
fn rename_without_literal_is_ignored() {
    let attrs = vec![column(vec![
        AttrToken::Ident("rename".to_owned()),
        AttrToken::Punct('='),
        AttrToken::Ident("key".to_owned()),
    ])];
    assert_eq!(column_attr(&attrs), ColumnAttr::Unannotated);
}

#[test]
fn rename_with_wrong_punct_is_ignored() {
    let attrs = vec![column(vec![
        AttrToken::Ident("rename".to_owned()),
        AttrToken::Punct(':'),
        AttrToken::Lit("key".to_owned()),
    ])];
    assert_eq!(column_attr(&attrs), ColumnAttr::Unannotated);
}

#[test]
fn first_recognized_marker_wins() {
    let attrs = vec![
        column(vec![AttrToken::Ident("skip".to_owned())]),
        column(vec![AttrToken::Ident("flatten".to_owned())]),
    ];
    assert_eq!(column_attr(&attrs), ColumnAttr::Skip);
}

#[test]
fn malformed_rename_falls_through_to_later_marker() {
    let attrs = vec![
        column(vec![AttrToken::Ident("rename".to_owned()), AttrToken::Punct('=')]),
        column(vec![AttrToken::Ident("skip".to_owned())]),
    ];
    assert_eq!(column_attr(&attrs), ColumnAttr::Skip);
}
