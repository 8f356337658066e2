//! Field annotations and their resolution.
//!
//! A record field may carry annotations; each annotation has a path and a
//! list of argument tokens. An annotation whose path is `column` selects a
//! binding strategy for the field: `skip`, `flatten`, or `rename = <key>`.
//! The first recognized annotation wins; a malformed `rename` argument list
//! is treated as if the annotation were absent.

use vstd::prelude::*;

use crate::model::seq_model;

verus! {

/// One argument token of a field annotation.
#[derive(Debug, PartialEq, Eq)]
pub enum AttrToken {
    /// A bare word, such as `skip` or `rename`.
    Ident(String),
    /// A punctuation character, such as `=`.
    Punct(char),
    /// A literal; for a string literal the payload is its text without quotes.
    Lit(String),
    /// A bracketed token group; never part of a recognized marker.
    Group,
}

/// Mathematical image of an `AttrToken`.
pub enum AttrTokenModel {
    Ident(Seq<char>),
    Punct(char),
    Lit(Seq<char>),
    Group,
}

impl View for AttrToken {
    type V = AttrTokenModel;

    open spec fn view(&self) -> AttrTokenModel {
        match self {
            AttrToken::Ident(s) => AttrTokenModel::Ident(s@),
            AttrToken::Punct(c) => AttrTokenModel::Punct(*c),
            AttrToken::Lit(s) => AttrTokenModel::Lit(s@),
            AttrToken::Group => AttrTokenModel::Group,
        }
    }
}

/// One annotation attached to a field: a path and its argument tokens.
#[derive(Debug, PartialEq, Eq)]
pub struct RawAttr {
    /// The first segment of the annotation's path.
    pub path: String,
    /// The argument tokens of the annotation.
    pub tokens: Vec<AttrToken>,
}

/// Mathematical image of a `RawAttr`.
#[verifier::ext_equal]
pub struct RawAttrModel {
    pub path: Seq<char>,
    pub tokens: Seq<AttrTokenModel>,
}

impl View for RawAttr {
    type V = RawAttrModel;

    open spec fn view(&self) -> RawAttrModel {
        RawAttrModel { path: self.path@, tokens: self.tokens@.map_values(|t: AttrToken| t@) }
    }
}

/// The resolved binding strategy of one field.
#[derive(Debug, PartialEq, Eq)]
pub enum ColumnAttr {
    /// No recognized annotation: bind by the field's own name or index.
    Unannotated,
    /// Bind by an explicit column key instead of the field's own name.
    Rename(String),
    /// Do not read the row; populate the field with the default value.
    Skip,
    /// Convert the entire row into the field's own record type.
    Flatten,
}

/// Mathematical image of a `ColumnAttr`.
pub enum ColumnAttrModel {
    Unannotated,
    Rename(Seq<char>),
    Skip,
    Flatten,
}

impl View for ColumnAttr {
    type V = ColumnAttrModel;

    open spec fn view(&self) -> ColumnAttrModel {
        match self {
            ColumnAttr::Unannotated => ColumnAttrModel::Unannotated,
            ColumnAttr::Rename(k) => ColumnAttrModel::Rename(k@),
            ColumnAttr::Skip => ColumnAttrModel::Skip,
            ColumnAttr::Flatten => ColumnAttrModel::Flatten,
        }
    }
}

/// View of a sequence of annotations.
pub open spec fn attrs_model(s: Seq<RawAttr>) -> Seq<RawAttrModel> {
    seq_model(s)
}

/// The strategy one annotation selects, or `None` when it is not a
/// recognized `column` marker. A `rename` whose arguments are not an `=`
/// followed by a literal is not recognized.
pub open spec fn attr_marker(a: RawAttrModel) -> Option<ColumnAttrModel> {
    if a.path != "column"@ {
        None
    } else if a.tokens.len() == 0 {
        None
    } else {
        match a.tokens[0] {
            AttrTokenModel::Ident(s) => {
                if s == "skip"@ {
                    Some(ColumnAttrModel::Skip)
                } else if s == "flatten"@ {
                    Some(ColumnAttrModel::Flatten)
                } else if s == "rename"@ {
                    if a.tokens.len() >= 3 && a.tokens[1] == AttrTokenModel::Punct('=')
                        && a.tokens[2] is Lit {
                        Some(ColumnAttrModel::Rename(a.tokens[2]->Lit_0))
                    } else {
                        None
                    }
                } else {
                    None
                }
            },
            _ => None,
        }
    }
}

/// The strategy a whole annotation list resolves to: the first annotation
/// recognized in a left-to-right scan wins; an exhausted list yields
/// `Unannotated`.
pub open spec fn resolved_attr(attrs: Seq<RawAttrModel>) -> ColumnAttrModel
    decreases attrs.len(),
{
    if attrs.len() == 0 {
        ColumnAttrModel::Unannotated
    } else {
        match attr_marker(attrs[0]) {
            Some(c) => c,
            None => resolved_attr(attrs.drop_first()),
        }
    }
}

/// True exactly when the string holds the given word.
fn word_eq(s: &String, w: &str) -> (r: bool)
    ensures
        r == (s@ == w@),
{
    let t: String = w.to_owned();
    *s == t
}

/// The strategy one annotation selects, or `None` when it is not recognized.
pub fn recognize_attr(a: &RawAttr) -> (r: Option<ColumnAttr>)
    ensures
        match r {
            Some(c) => attr_marker(a@) == Some(c@),
            None => attr_marker(a@) is None,
        },
{
    if !word_eq(&a.path, "column") {
        return None;
    }
    if a.tokens.len() == 0 {
        return None;
    }
    match &a.tokens[0] {
        AttrToken::Ident(s) => {
            if word_eq(s, "skip") {
                Some(ColumnAttr::Skip)
            } else if word_eq(s, "flatten") {
                Some(ColumnAttr::Flatten)
            } else if word_eq(s, "rename") {
                if a.tokens.len() >= 3 {
                    let is_assign = match &a.tokens[1] {
                        AttrToken::Punct(c) => *c == '=',
                        _ => false,
                    };
                    if is_assign {
                        match &a.tokens[2] {
                            AttrToken::Lit(lit) => Some(ColumnAttr::Rename(lit.clone())),
                            _ => None,
                        }
                    } else {
                        None
                    }
                } else {
                    None
                }
            } else {
                None
            }
        },
        _ => None,
    }
}

/// Scans a field's annotations left to right and returns the strategy the
/// first recognized one selects, or `Unannotated` when none is recognized.
pub fn column_attr(attrs: &Vec<RawAttr>) -> (r: ColumnAttr)
    ensures
        r@ == resolved_attr(attrs_model(attrs@)),
{
    let ghost m = attrs_model(attrs@);
    proof {
        assert(m.skip(0) =~= m);
    }
    let mut i: usize = 0;
    while i < attrs.len()
        invariant
            0 <= i <= attrs@.len(),
            m == attrs_model(attrs@),
            resolved_attr(m) == resolved_attr(m.skip(i as int)),
        decreases attrs@.len() - i,
    {
        let r = recognize_attr(&attrs[i]);
        proof {
            assert(m.skip(i as int).len() > 0);
            assert(m.skip(i as int)[0] == m[i as int]);
            assert(m.skip(i as int).drop_first() =~= m.skip(i as int + 1));
        }
        match r {
            Some(c) => {
                return c;
            },
            None => {},
        }
        i = i + 1;
    }
    proof {
        assert(m.skip(attrs@.len() as int) =~= Seq::<RawAttrModel>::empty());
    }
    ColumnAttr::Unannotated
}

} // verus!
