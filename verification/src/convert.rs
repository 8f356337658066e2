//! Interpretation of conversion plans over a row of plain values.
//!
//! A row is an ordered list of named columns. A compiled plan is interpreted
//! field by field: a key or index access reads the row, a default access
//! touches no column, and a nested access consumes the outcome of the
//! field's own conversion of the same row, which the caller supplies. The
//! fallible entry point returns the first failure, wrapped in the plan's
//! unified error classification; the infallible entry point requires every
//! access to succeed.

use vstd::prelude::*;

use crate::model::{lemma_seq_model_push, seq_model};
use crate::plan::{AccessExpr, AccessExprModel, ConversionPlan, ResultErrorKind};

verus! {

/// A plain column value.
#[derive(Debug, PartialEq, Eq)]
pub enum Value {
    /// The zero/default value.
    Null,
    Int(i64),
    Text(String),
}

/// Mathematical image of a `Value`.
pub enum ValueModel {
    Null,
    Int(int),
    Text(Seq<char>),
}

impl View for Value {
    type V = ValueModel;

    open spec fn view(&self) -> ValueModel {
        match self {
            Value::Null => ValueModel::Null,
            Value::Int(n) => ValueModel::Int(*n as int),
            Value::Text(s) => ValueModel::Text(s@),
        }
    }
}

impl Clone for Value {
    fn clone(&self) -> (r: Self)
        ensures
            r@ == self@,
    {
        match self {
            Value::Null => Value::Null,
            Value::Int(n) => Value::Int(*n),
            Value::Text(s) => Value::Text(s.clone()),
        }
    }
}

impl Default for Value {
    /// The zero/default value a skipped field is populated with.
    fn default() -> (r: Self)
        ensures
            r@ is Null,
    {
        Value::Null
    }
}

/// One named column of a row.
#[derive(Debug, PartialEq, Eq)]
pub struct Column {
    pub name: String,
    pub value: Value,
}

/// Mathematical image of a `Column`.
#[verifier::ext_equal]
pub struct ColumnModel {
    pub name: Seq<char>,
    pub value: ValueModel,
}

impl View for Column {
    type V = ColumnModel;

    open spec fn view(&self) -> ColumnModel {
        ColumnModel { name: self.name@, value: self.value@ }
    }
}

/// An ordered, keyed tabular value supplying accessible columns.
#[derive(Debug, PartialEq, Eq)]
pub struct Row {
    pub cols: Vec<Column>,
}

impl View for Row {
    type V = Seq<ColumnModel>;

    open spec fn view(&self) -> Seq<ColumnModel> {
        seq_model(self.cols@)
    }
}

/// A failed row access: the requested column is absent.
#[derive(Debug, PartialEq, Eq)]
pub enum AccessError {
    MissingKey(String),
    MissingIndex(usize),
}

/// Mathematical image of an `AccessError`.
pub enum AccessErrorModel {
    MissingKey(Seq<char>),
    MissingIndex(int),
}

impl View for AccessError {
    type V = AccessErrorModel;

    open spec fn view(&self) -> AccessErrorModel {
        match self {
            AccessError::MissingKey(k) => AccessErrorModel::MissingKey(k@),
            AccessError::MissingIndex(i) => AccessErrorModel::MissingIndex(*i as int),
        }
    }
}

/// The error of a fallible conversion, in the plan's unified classification.
#[derive(Debug, PartialEq, Eq)]
pub enum ConvertError {
    /// The row source's own error, returned as it is.
    Native(AccessError),
    /// A dynamically-typed error, boxed because the plan's record flattens.
    Opaque(OpaqueError),
}

/// The payload of an opaque error.
#[derive(Debug, PartialEq, Eq)]
pub enum OpaqueError {
    /// This record's own access failure, boxed into the opaque kind.
    Access(AccessError),
    /// A nested conversion's failure, boxed into the opaque kind.
    Nested(Box<ConvertError>),
}

/// Mathematical image of a `ConvertError`.
pub enum ConvertErrorModel {
    Native(AccessErrorModel),
    Opaque(OpaqueErrorModel),
}

/// Mathematical image of an `OpaqueError`.
pub enum OpaqueErrorModel {
    Access(AccessErrorModel),
    Nested(Box<ConvertErrorModel>),
}

/// The image of a `ConvertError`.
pub open spec fn convert_error_model(e: ConvertError) -> ConvertErrorModel
    decreases e,
{
    match e {
        ConvertError::Native(a) => ConvertErrorModel::Native(a@),
        ConvertError::Opaque(o) => ConvertErrorModel::Opaque(
            match o {
                OpaqueError::Access(a) => OpaqueErrorModel::Access(a@),
                OpaqueError::Nested(b) => OpaqueErrorModel::Nested(
                    Box::new(convert_error_model(*b)),
                ),
            },
        ),
    }
}

impl View for ConvertError {
    type V = ConvertErrorModel;

    open spec fn view(&self) -> ConvertErrorModel {
        convert_error_model(*self)
    }
}

/// The value of the first column with the given name, if any.
pub open spec fn lookup_key(cols: Seq<ColumnModel>, key: Seq<char>) -> Option<ValueModel>
    decreases cols.len(),
{
    if cols.len() == 0 {
        None
    } else if cols[0].name == key {
        Some(cols[0].value)
    } else {
        lookup_key(cols.drop_first(), key)
    }
}

/// A name lookup passes over a prefix of columns with other names.
proof fn lemma_lookup_key_skip(cols: Seq<ColumnModel>, key: Seq<char>, i: int)
    requires
        0 <= i <= cols.len(),
        forall|j: int| 0 <= j < i ==> (#[trigger] cols[j].name) != key,
    ensures
        lookup_key(cols, key) == lookup_key(cols.skip(i), key),
    decreases i,
{
    if i > 0 {
        assert(cols[0].name != key);
        lemma_lookup_key_skip(cols.drop_first(), key, i - 1);
        assert(cols.drop_first().skip(i - 1) =~= cols.skip(i));
    } else {
        assert(cols.skip(0) =~= cols);
    }
}

impl Row {
    /// Reports the value of the first column with the given name, or `None`
    /// when no column carries it.
    pub fn try_get_key(&self, key: &String) -> (r: Option<Value>)
        ensures
            match r {
                Some(v) => lookup_key(self@, key@) == Some(v@),
                None => lookup_key(self@, key@) is None,
            },
    {
        let mut i: usize = 0;
        while i < self.cols.len()
            invariant
                0 <= i <= self.cols@.len(),
                forall|j: int| 0 <= j < i ==> (#[trigger] self@[j].name) != key@,
            decreases self.cols@.len() - i,
        {
            if self.cols[i].name == *key {
                proof {
                    lemma_lookup_key_skip(self@, key@, i as int);
                    assert(self@.skip(i as int)[0] == self@[i as int]);
                }
                return Some(self.cols[i].value.clone());
            }
            i = i + 1;
        }
        proof {
            lemma_lookup_key_skip(self@, key@, self.cols@.len() as int);
            assert(self@.skip(self.cols@.len() as int) =~= Seq::<ColumnModel>::empty());
        }
        None
    }

    /// Reports the value of the column at the given position, or `None` when
    /// the row is too short.
    pub fn try_get_index(&self, idx: usize) -> (r: Option<Value>)
        ensures
            idx < self@.len() ==> (r matches Some(v) && v@ == self@[idx as int].value),
            idx >= self@.len() ==> r is None,
    {
        if idx < self.cols.len() {
            Some(self.cols[idx].value.clone())
        } else {
            None
        }
    }

    /// Reads the first column with the given name, which must be present.
    pub fn get_key(&self, key: &String) -> (r: Value)
        requires
            lookup_key(self@, key@) is Some,
        ensures
            Some(r@) == lookup_key(self@, key@),
    {
        match self.try_get_key(key) {
            Some(v) => v,
            None => {
                proof {
                    assert(false);
                }
                Value::Null
            },
        }
    }

    /// Reads the column at the given position, which must exist.
    pub fn get_index(&self, idx: usize) -> (r: Value)
        requires
            idx < self@.len(),
        ensures
            r@ == self@[idx as int].value,
    {
        match self.try_get_index(idx) {
            Some(v) => v,
            None => {
                proof {
                    assert(false);
                }
                Value::Null
            },
        }
    }
}

/// An access error wrapped in the plan's unified error classification.
pub open spec fn wrap_access(ek: ResultErrorKind, a: AccessErrorModel) -> ConvertErrorModel {
    match ek {
        ResultErrorKind::Native => ConvertErrorModel::Native(a),
        ResultErrorKind::Opaque => ConvertErrorModel::Opaque(OpaqueErrorModel::Access(a)),
    }
}

/// A nested conversion's error, boxed into the opaque kind.
pub open spec fn wrap_nested(e: ConvertErrorModel) -> ConvertErrorModel {
    ConvertErrorModel::Opaque(OpaqueErrorModel::Nested(Box::new(e)))
}

/// How many accesses of the list consume a nested conversion outcome.
pub open spec fn nested_count(acc: Seq<AccessExprModel>) -> nat
    decreases acc.len(),
{
    if acc.len() == 0 {
        0
    } else {
        (if acc[0] is NestedRow {
            1nat
        } else {
            0nat
        }) + nested_count(acc.drop_first())
    }
}

/// The outcome of interpreting the access list over the row in fallible
/// mode: the field values in order, or the first failure, wrapped in the
/// given error classification. `nested` holds the outcomes of the flattened
/// fields' own conversions, in field order.
pub open spec fn fallible_spec(
    acc: Seq<AccessExprModel>,
    ek: ResultErrorKind,
    row: Seq<ColumnModel>,
    nested: Seq<Result<ValueModel, ConvertErrorModel>>,
) -> Result<Seq<ValueModel>, ConvertErrorModel>
    decreases acc.len(),
{
    if acc.len() == 0 {
        Ok(Seq::empty())
    } else {
        let head: Result<ValueModel, ConvertErrorModel> = match acc[0] {
            AccessExprModel::ByKey(k) => match lookup_key(row, k) {
                Some(v) => Ok(v),
                None => Err(wrap_access(ek, AccessErrorModel::MissingKey(k))),
            },
            AccessExprModel::ByIndex(i) => if 0 <= i < row.len() {
                Ok(row[i].value)
            } else {
                Err(wrap_access(ek, AccessErrorModel::MissingIndex(i)))
            },
            AccessExprModel::UseDefault => Ok(ValueModel::Null),
            AccessExprModel::NestedRow => if nested.len() > 0 {
                match nested[0] {
                    Ok(v) => Ok(v),
                    Err(e) => Err(wrap_nested(e)),
                }
            } else {
                Ok(ValueModel::Null)
            },
        };
        let rest_nested = if acc[0] is NestedRow {
            nested.drop_first()
        } else {
            nested
        };
        match head {
            Ok(v) => match fallible_spec(acc.drop_first(), ek, row, rest_nested) {
                Ok(vs) => Ok(seq![v] + vs),
                Err(e) => Err(e),
            },
            Err(e) => Err(e),
        }
    }
}

/// The field values of interpreting the access list over the row in
/// infallible mode, assuming every access succeeds.
pub open spec fn infallible_spec(
    acc: Seq<AccessExprModel>,
    row: Seq<ColumnModel>,
    nested: Seq<ValueModel>,
) -> Seq<ValueModel>
    decreases acc.len(),
{
    if acc.len() == 0 {
        Seq::empty()
    } else {
        let head = match acc[0] {
            AccessExprModel::ByKey(k) => match lookup_key(row, k) {
                Some(v) => v,
                None => ValueModel::Null,
            },
            AccessExprModel::ByIndex(i) => if 0 <= i < row.len() {
                row[i].value
            } else {
                ValueModel::Null
            },
            AccessExprModel::UseDefault => ValueModel::Null,
            AccessExprModel::NestedRow => if nested.len() > 0 {
                nested[0]
            } else {
                ValueModel::Null
            },
        };
        let rest_nested = if acc[0] is NestedRow {
            nested.drop_first()
        } else {
            nested
        };
        seq![head] + infallible_spec(acc.drop_first(), row, rest_nested)
    }
}

/// True when every key and index access of the list succeeds on the row.
pub open spec fn accesses_present(acc: Seq<AccessExprModel>, row: Seq<ColumnModel>) -> bool {
    forall|i: int|
        0 <= i < acc.len() ==> (match #[trigger] acc[i] {
            AccessExprModel::ByKey(k) => lookup_key(row, k) is Some,
            AccessExprModel::ByIndex(ix) => 0 <= ix < row.len(),
            AccessExprModel::UseDefault => true,
            AccessExprModel::NestedRow => true,
        })
}

/// View of a sequence of nested conversion outcomes.
pub open spec fn nested_results_model(s: Seq<Result<Value, ConvertError>>) -> Seq<
    Result<ValueModel, ConvertErrorModel>,
> {
    s.map_values(
        |r: Result<Value, ConvertError>|
            match r {
                Ok(v) => Ok(v@),
                Err(e) => Err(e@),
            },
    )
}

/// View of a conversion outcome.
pub open spec fn output_model(r: Result<Vec<Value>, ConvertError>) -> Result<
    Seq<ValueModel>,
    ConvertErrorModel,
> {
    match r {
        Ok(vs) => Ok(seq_model(vs@)),
        Err(e) => Err(e@),
    }
}

/// A prefix of already-converted values in front of a remaining outcome.
spec fn prepend_ok(pre: Seq<ValueModel>, r: Result<Seq<ValueModel>, ConvertErrorModel>) -> Result<
    Seq<ValueModel>,
    ConvertErrorModel,
> {
    match r {
        Ok(vs) => Ok(pre + vs),
        Err(e) => Err(e),
    }
}

proof fn lemma_prepend_step(
    pre: Seq<ValueModel>,
    v: ValueModel,
    r: Result<Seq<ValueModel>, ConvertErrorModel>,
)
    ensures
        prepend_ok(
            pre,
            match r {
                Ok(vs) => Ok(seq![v] + vs),
                Err(e) => Err(e),
            },
        ) == prepend_ok(pre.push(v), r),
{
    match r {
        Ok(vs) => {
            assert(pre + (seq![v] + vs) =~= pre.push(v) + vs);
        },
        Err(_) => {},
    }
}

proof fn lemma_concat_push(pre: Seq<ValueModel>, v: ValueModel, rest: Seq<ValueModel>)
    ensures
        pre + (seq![v] + rest) == pre.push(v) + rest,
{
    assert(pre + (seq![v] + rest) =~= pre.push(v) + rest);
}

/// Converts the row into a record's field values through a fallible plan.
/// `nested` supplies, in field order, the outcome of each flattened field's
/// own conversion of this row. The result holds the value of every field in
/// declaration order, or the first failure in field order: a missing column
/// as an access error wrapped in the plan's error classification, a failed
/// nested conversion boxed into the opaque kind. No partial record is
/// returned.
pub fn convert_fallible(
    plan: &ConversionPlan,
    row: &Row,
    nested: Vec<Result<Value, ConvertError>>,
) -> (r: Result<Vec<Value>, ConvertError>)
    requires
        plan@.mode is Fallible,
        nested@.len() == nested_count(plan@.accesses),
    ensures
        output_model(r) == fallible_spec(
            plan@.accesses,
            plan@.error_kind,
            row@,
            nested_results_model(nested@),
        ),
{
    let ghost acc = plan@.accesses;
    let ghost ek_m = plan@.error_kind;
    let ghost rowm = row@;
    let ghost nm_all = nested_results_model(nested@);
    let mut rest = nested;
    let mut out: Vec<Value> = Vec::new();
    let mut i: usize = 0;
    proof {
        assert(acc.skip(0) =~= acc);
        assert(seq_model(out@) =~= Seq::<ValueModel>::empty());
        assert(fallible_spec(acc, ek_m, rowm, nm_all) == prepend_ok(
            seq_model(out@),
            fallible_spec(acc.skip(0), ek_m, rowm, nested_results_model(rest@)),
        )) by {
            match fallible_spec(acc, ek_m, rowm, nm_all) {
                Ok(vs) => {
                    assert(seq_model(out@) + vs =~= vs);
                },
                Err(_) => {},
            }
        }
    }
    while i < plan.accesses.len()
        invariant
            0 <= i <= acc.len(),
            acc == plan@.accesses,
            ek_m == plan@.error_kind,
            rowm == row@,
            nm_all == nested_results_model(nested@),
            nested_count(acc.skip(i as int)) == rest@.len(),
            fallible_spec(acc, ek_m, rowm, nm_all) == prepend_ok(
                seq_model(out@),
                fallible_spec(acc.skip(i as int), ek_m, rowm, nested_results_model(rest@)),
            ),
        decreases acc.len() - i,
    {
        proof {
            assert(acc.skip(i as int)[0] == acc[i as int]);
            assert(acc.skip(i as int).drop_first() =~= acc.skip(i as int + 1));
        }
        let ghost outm_prev = seq_model(out@);
        let ghost nm_prev = nested_results_model(rest@);
        let a = &plan.accesses[i];
        match a {
            AccessExpr::ByKey(k) => {
                match row.try_get_key(k) {
                    Some(v) => {
                        proof {
                            lemma_seq_model_push(out@, v);
                            lemma_prepend_step(
                                outm_prev,
                                v@,
                                fallible_spec(acc.skip(i as int + 1), ek_m, rowm, nm_prev),
                            );
                        }
                        out.push(v);
                    },
                    None => {
                        let err = wrap_access_error(
                            plan.error_kind,
                            AccessError::MissingKey(k.clone()),
                        );
                        proof {
                            assert(acc[i as int] == AccessExprModel::ByKey(k@));
                            assert(fallible_spec(
                                acc.skip(i as int),
                                ek_m,
                                rowm,
                                nested_results_model(rest@),
                            ) == Err::<Seq<ValueModel>, ConvertErrorModel>(
                                wrap_access(ek_m, AccessErrorModel::MissingKey(k@)),
                            ));
                            assert(err@ == wrap_access(ek_m, AccessErrorModel::MissingKey(k@)));
                            assert(fallible_spec(acc, ek_m, rowm, nm_all)
                                == Err::<Seq<ValueModel>, ConvertErrorModel>(err@));
                        }
                        return Err(err);
                    },
                }
            },
            AccessExpr::ByIndex(ix) => {
                match row.try_get_index(*ix) {
                    Some(v) => {
                        proof {
                            lemma_seq_model_push(out@, v);
                            lemma_prepend_step(
                                outm_prev,
                                v@,
                                fallible_spec(acc.skip(i as int + 1), ek_m, rowm, nm_prev),
                            );
                        }
                        out.push(v);
                    },
                    None => {
                        let err = wrap_access_error(
                            plan.error_kind,
                            AccessError::MissingIndex(*ix),
                        );
                        proof {
                            assert(acc[i as int] == AccessExprModel::ByIndex(*ix as int));
                            assert(fallible_spec(
                                acc.skip(i as int),
                                ek_m,
                                rowm,
                                nested_results_model(rest@),
                            ) == Err::<Seq<ValueModel>, ConvertErrorModel>(
                                wrap_access(ek_m, AccessErrorModel::MissingIndex(*ix as int)),
                            ));
                            assert(err@ == wrap_access(
                                ek_m,
                                AccessErrorModel::MissingIndex(*ix as int),
                            ));
                            assert(fallible_spec(acc, ek_m, rowm, nm_all)
                                == Err::<Seq<ValueModel>, ConvertErrorModel>(err@));
                        }
                        return Err(err);
                    },
                }
            },
            AccessExpr::UseDefault => {
                let v = Value::default();
                proof {
                    lemma_seq_model_push(out@, v);
                    lemma_prepend_step(
                        outm_prev,
                        v@,
                        fallible_spec(acc.skip(i as int + 1), ek_m, rowm, nm_prev),
                    );
                }
                out.push(v);
            },
            AccessExpr::NestedRow => {
                proof {
                    assert(acc[i as int] is NestedRow);
                    assert(nested_count(acc.skip(i as int)) >= 1);
                }
                let nr = rest.remove(0);
                proof {
                    assert(nested_results_model(rest@) =~= nm_prev.drop_first());
                    assert(nm_prev[0] == (match nr {
                        Ok(v) => Ok::<ValueModel, ConvertErrorModel>(v@),
                        Err(e) => Err::<ValueModel, ConvertErrorModel>(e@),
                    }));
                }
                match nr {
                    Ok(v) => {
                        proof {
                            lemma_seq_model_push(out@, v);
                            lemma_prepend_step(
                                outm_prev,
                                v@,
                                fallible_spec(
                                    acc.skip(i as int + 1),
                                    ek_m,
                                    rowm,
                                    nested_results_model(rest@),
                                ),
                            );
                        }
                        out.push(v);
                    },
                    Err(e) => {
                        proof {
                            assert(fallible_spec(
                                acc.skip(i as int),
                                ek_m,
                                rowm,
                                nm_prev,
                            ) == Err::<Seq<ValueModel>, ConvertErrorModel>(wrap_nested(e@)));
                        }
                        let boxed = Box::new(e);
                        let out_err = ConvertError::Opaque(OpaqueError::Nested(boxed));
                        proof {
                            assert(out_err@ == wrap_nested(e@));
                            assert(fallible_spec(acc, ek_m, rowm, nm_all)
                                == Err::<Seq<ValueModel>, ConvertErrorModel>(out_err@));
                        }
                        return Err(out_err);
                    },
                }
            },
        }
        i = i + 1;
    }
    proof {
        assert(acc.skip(acc.len() as int) =~= Seq::<AccessExprModel>::empty());
        assert(seq_model(out@) + Seq::<ValueModel>::empty() =~= seq_model(out@));
    }
    Ok(out)
}

/// Wraps a row-access error in the plan's unified error classification.
fn wrap_access_error(ek: ResultErrorKind, a: AccessError) -> (r: ConvertError)
    ensures
        r@ == wrap_access(ek, a@),
{
    match ek {
        ResultErrorKind::Native => ConvertError::Native(a),
        ResultErrorKind::Opaque => ConvertError::Opaque(OpaqueError::Access(a)),
    }
}

/// Converts the row into a record's field values through an infallible
/// plan. Every key and index access must succeed on the row, and `nested`
/// supplies, in field order, the value each flattened field's own conversion
/// produced. The result holds the value of every field in declaration
/// order.
pub fn convert_infallible(plan: &ConversionPlan, row: &Row, nested: Vec<Value>) -> (r: Vec<Value>)
    requires
        plan@.mode is Infallible,
        nested@.len() == nested_count(plan@.accesses),
        accesses_present(plan@.accesses, row@),
    ensures
        seq_model(r@) == infallible_spec(plan@.accesses, row@, seq_model(nested@)),
{
    let ghost acc = plan@.accesses;
    let ghost rowm = row@;
    let ghost nm_all = seq_model(nested@);
    let mut rest = nested;
    let mut out: Vec<Value> = Vec::new();
    let mut i: usize = 0;
    proof {
        assert(acc.skip(0) =~= acc);
        assert(seq_model(out@) + infallible_spec(acc, rowm, seq_model(rest@))
            =~= infallible_spec(acc, rowm, nm_all));
    }
    while i < plan.accesses.len()
        invariant
            0 <= i <= acc.len(),
            acc == plan@.accesses,
            rowm == row@,
            accesses_present(acc, rowm),
            nm_all == seq_model(nested@),
            nested_count(acc.skip(i as int)) == rest@.len(),
            infallible_spec(acc, rowm, nm_all) == seq_model(out@) + infallible_spec(
                acc.skip(i as int),
                rowm,
                seq_model(rest@),
            ),
        decreases acc.len() - i,
    {
        proof {
            assert(acc.skip(i as int)[0] == acc[i as int]);
            assert(acc.skip(i as int).drop_first() =~= acc.skip(i as int + 1));
        }
        let ghost outm_prev = seq_model(out@);
        let ghost nm_prev = seq_model(rest@);
        let a = &plan.accesses[i];
        let v: Value = match a {
            AccessExpr::ByKey(k) => {
                proof {
                    assert(match acc[i as int] {
                        AccessExprModel::ByKey(kk) => lookup_key(rowm, kk) is Some,
                        AccessExprModel::ByIndex(ix) => 0 <= ix < rowm.len(),
                        AccessExprModel::UseDefault => true,
                        AccessExprModel::NestedRow => true,
                    });
                }
                row.get_key(k)
            },
            AccessExpr::ByIndex(ix) => {
                proof {
                    assert(match acc[i as int] {
                        AccessExprModel::ByKey(kk) => lookup_key(rowm, kk) is Some,
                        AccessExprModel::ByIndex(j) => 0 <= j < rowm.len(),
                        AccessExprModel::UseDefault => true,
                        AccessExprModel::NestedRow => true,
                    });
                }
                row.get_index(*ix)
            },
            AccessExpr::UseDefault => Value::default(),
            AccessExpr::NestedRow => {
                let nr = rest.remove(0);
                proof {
                    assert(seq_model(rest@) =~= nm_prev.drop_first());
                }
                nr
            },
        };
        proof {
            lemma_seq_model_push(out@, v);
            lemma_concat_push(
                outm_prev,
                v@,
                infallible_spec(acc.skip(i as int + 1), rowm, seq_model(rest@)),
            );
        }
        out.push(v);
        i = i + 1;
    }
    proof {
        assert(acc.skip(acc.len() as int) =~= Seq::<AccessExprModel>::empty());
        assert(seq_model(out@) + Seq::<ValueModel>::empty() =~= seq_model(out@));
    }
    out
}


/// The value a key or index access reads from the row; the default value
/// when the access reads no column or is nested.
pub open spec fn scalar_value(a: AccessExprModel, row: Seq<ColumnModel>) -> ValueModel {
    match a {
        AccessExprModel::ByKey(k) => match lookup_key(row, k) {
            Some(v) => v,
            None => ValueModel::Null,
        },
        AccessExprModel::ByIndex(i) => if 0 <= i < row.len() {
            row[i].value
        } else {
            ValueModel::Null
        },
        AccessExprModel::UseDefault => ValueModel::Null,
        AccessExprModel::NestedRow => ValueModel::Null,
    }
}

/// The infallible interpretation yields one value per access.
pub proof fn lemma_infallible_len(
    acc: Seq<AccessExprModel>,
    row: Seq<ColumnModel>,
    nested: Seq<ValueModel>,
)
    ensures
        infallible_spec(acc, row, nested).len() == acc.len(),
    decreases acc.len(),
{
    if acc.len() > 0 {
        let rest_nested = if acc[0] is NestedRow {
            nested.drop_first()
        } else {
            nested
        };
        lemma_infallible_len(acc.drop_first(), row, rest_nested);
    }
}

/// Without nested accesses, the interpreted value of each field is the
/// read its own access expression makes on the row.
pub proof fn lemma_infallible_scalar_index(
    acc: Seq<AccessExprModel>,
    row: Seq<ColumnModel>,
    nested: Seq<ValueModel>,
    i: int,
)
    requires
        0 <= i < acc.len(),
        forall|j: int| 0 <= j < acc.len() ==> !((#[trigger] acc[j]) is NestedRow),
    ensures
        infallible_spec(acc, row, nested).len() == acc.len(),
        infallible_spec(acc, row, nested)[i] == scalar_value(acc[i], row),
    decreases acc.len(),
{
    lemma_infallible_len(acc, row, nested);
    assert(!(acc[0] is NestedRow));
    if i == 0 {
    } else {
        assert forall|j: int|
            0 <= j < acc.drop_first().len() implies !((#[trigger] acc.drop_first()[j])
            is NestedRow) by {
            assert(acc.drop_first()[j] == acc[j + 1]);
        }
        lemma_infallible_scalar_index(acc.drop_first(), row, nested, i - 1);
        lemma_infallible_len(acc.drop_first(), row, nested);
    }
}

/// A default access is interpreted as the default value whatever the row
/// and the nested outcomes hold.
pub proof fn lemma_skip_infallible(
    acc: Seq<AccessExprModel>,
    row: Seq<ColumnModel>,
    nested: Seq<ValueModel>,
    i: int,
)
    requires
        0 <= i < acc.len(),
        acc[i] is UseDefault,
    ensures
        infallible_spec(acc, row, nested).len() == acc.len(),
        infallible_spec(acc, row, nested)[i] is Null,
    decreases acc.len(),
{
    lemma_infallible_len(acc, row, nested);
    let rest_nested = if acc[0] is NestedRow {
        nested.drop_first()
    } else {
        nested
    };
    if i == 0 {
    } else {
        lemma_skip_infallible(acc.drop_first(), row, rest_nested, i - 1);
        lemma_infallible_len(acc.drop_first(), row, rest_nested);
    }
}

/// A successful fallible interpretation yields one value per access.
pub proof fn lemma_fallible_ok_len(
    acc: Seq<AccessExprModel>,
    ek: ResultErrorKind,
    row: Seq<ColumnModel>,
    nested: Seq<Result<ValueModel, ConvertErrorModel>>,
)
    requires
        fallible_spec(acc, ek, row, nested) is Ok,
    ensures
        fallible_spec(acc, ek, row, nested)->Ok_0.len() == acc.len(),
    decreases acc.len(),
{
    if acc.len() > 0 {
        let rest_nested = if acc[0] is NestedRow {
            nested.drop_first()
        } else {
            nested
        };
        lemma_fallible_ok_len(acc.drop_first(), ek, row, rest_nested);
    }
}

/// In a successful fallible conversion, a default access yields the default
/// value whatever the row and the nested outcomes hold.
pub proof fn lemma_skip_fallible(
    acc: Seq<AccessExprModel>,
    ek: ResultErrorKind,
    row: Seq<ColumnModel>,
    nested: Seq<Result<ValueModel, ConvertErrorModel>>,
    i: int,
)
    requires
        0 <= i < acc.len(),
        acc[i] is UseDefault,
        fallible_spec(acc, ek, row, nested) is Ok,
    ensures
        fallible_spec(acc, ek, row, nested)->Ok_0.len() == acc.len(),
        fallible_spec(acc, ek, row, nested)->Ok_0[i] is Null,
    decreases acc.len(),
{
    lemma_fallible_ok_len(acc, ek, row, nested);
    let rest_nested = if acc[0] is NestedRow {
        nested.drop_first()
    } else {
        nested
    };
    if i == 0 {
    } else {
        lemma_skip_fallible(acc.drop_first(), ek, row, rest_nested, i - 1);
        lemma_fallible_ok_len(acc.drop_first(), ek, row, rest_nested);
    }
}

/// With the opaque classification, every failure the fallible
/// interpretation returns is of the opaque kind.
pub proof fn lemma_fallible_err_opaque(
    acc: Seq<AccessExprModel>,
    row: Seq<ColumnModel>,
    nested: Seq<Result<ValueModel, ConvertErrorModel>>,
)
    ensures
        fallible_spec(acc, ResultErrorKind::Opaque, row, nested) matches Err(e) ==> e is Opaque,
    decreases acc.len(),
{
    if acc.len() > 0 {
        let rest_nested = if acc[0] is NestedRow {
            nested.drop_first()
        } else {
            nested
        };
        lemma_fallible_err_opaque(acc.drop_first(), row, rest_nested);
    }
}

/// Without nested accesses and with the native classification, every
/// failure the fallible interpretation returns is the row source's own
/// error.
pub proof fn lemma_fallible_err_native(
    acc: Seq<AccessExprModel>,
    row: Seq<ColumnModel>,
    nested: Seq<Result<ValueModel, ConvertErrorModel>>,
)
    requires
        forall|j: int| 0 <= j < acc.len() ==> !((#[trigger] acc[j]) is NestedRow),
    ensures
        fallible_spec(acc, ResultErrorKind::Native, row, nested) matches Err(e) ==> e is Native,
    decreases acc.len(),
{
    if acc.len() > 0 {
        assert(!(acc[0] is NestedRow));
        assert forall|j: int|
            0 <= j < acc.drop_first().len() implies !((#[trigger] acc.drop_first()[j])
            is NestedRow) by {
            assert(acc.drop_first()[j] == acc[j + 1]);
        }
        lemma_fallible_err_native(acc.drop_first(), row, nested);
    }
}

} // verus!
