//! Record-level laws of the compiler and the interpreters.
//!
//! Each proof function states one property of whole records: how the
//! compiled plan reads fields, what a skipped or renamed field contributes,
//! how flattening taints the error classification, and that compilation is
//! deterministic.

use vstd::prelude::*;

use crate::attr::{ColumnAttrModel, resolved_attr};
use crate::convert::{
    ColumnModel, ConvertErrorModel, ValueModel, fallible_spec, infallible_spec,
    lemma_fallible_err_native, lemma_fallible_err_opaque, lemma_infallible_scalar_index,
    lemma_skip_fallible, lemma_skip_infallible, scalar_value,
};
use crate::plan::{
    AccessExprModel, Mode, NamedFieldModel, RecordDescriptorModel, ResultErrorKind, access_of,
    has_flatten, named_binding, named_bindings, plan_of,
};

verus! {

/// The plan of a named record holds one access per field, in declaration
/// order: the access its binding compiles to.
proof fn lemma_named_accesses(fields: Seq<NamedFieldModel>, mode: Mode)
    ensures
        plan_of(RecordDescriptorModel::Named(fields), mode) matches Ok(p) && {
            &&& p.mode == mode
            &&& p.accesses.len() == fields.len()
            &&& forall|i: int|
                0 <= i < fields.len() ==> p.accesses[i] == access_of(
                    #[trigger] named_binding(fields[i]),
                )
        },
{
    let bs = named_bindings(fields);
    let p = plan_of(RecordDescriptorModel::Named(fields), mode)->Ok_0;
    assert forall|i: int|
        0 <= i < fields.len() implies p.accesses[i] == access_of(
        #[trigger] named_binding(fields[i]),
    ) by {
        assert(bs[i] == named_binding(fields[i]));
    }
}

/// Compiling the same record description twice, in the same mode, yields
/// structurally identical plans.
pub proof fn lemma_compile_idempotent(
    d1: RecordDescriptorModel,
    m1: Mode,
    d2: RecordDescriptorModel,
    m2: Mode,
)
    requires
        d1 == d2,
        m1 == m2,
    ensures
        plan_of(d1, m1) == plan_of(d2, m2),
{
}

/// For a named record whose fields carry no recognized annotation, the
/// infallible conversion reads each field by its exact declared name, in
/// declared order.
pub proof fn lemma_plain_named_reads_declared_names(
    fields: Seq<NamedFieldModel>,
    row: Seq<ColumnModel>,
)
    requires
        forall|i: int|
            0 <= i < fields.len() ==> resolved_attr(#[trigger] fields[i].attrs) is Unannotated,
    ensures
        plan_of(RecordDescriptorModel::Named(fields), Mode::Infallible) matches Ok(p) && {
            &&& p.accesses.len() == fields.len()
            &&& forall|i: int|
                0 <= i < fields.len() ==> p.accesses[i] == AccessExprModel::ByKey(
                    (#[trigger] fields[i]).name,
                )
            &&& infallible_spec(p.accesses, row, Seq::empty()).len() == fields.len()
            &&& forall|i: int|
                0 <= i < fields.len() ==> infallible_spec(p.accesses, row, Seq::empty())[i]
                    == scalar_value(AccessExprModel::ByKey((#[trigger] fields[i]).name), row)
        },
{
    lemma_named_accesses(fields, Mode::Infallible);
    let p = plan_of(RecordDescriptorModel::Named(fields), Mode::Infallible)->Ok_0;
    assert forall|i: int|
        0 <= i < fields.len() implies p.accesses[i] == AccessExprModel::ByKey(
        (#[trigger] fields[i]).name,
    ) by {
        assert(resolved_attr(fields[i].attrs) is Unannotated);
        assert(p.accesses[i] == access_of(named_binding(fields[i])));
    }
    if fields.len() > 0 {
        assert forall|j: int|
            0 <= j < p.accesses.len() implies !((#[trigger] p.accesses[j]) is NestedRow) by {
            assert(p.accesses[j] == AccessExprModel::ByKey(fields[j].name));
        }
        lemma_infallible_scalar_index(p.accesses, row, Seq::empty(), 0);
        assert forall|i: int|
            0 <= i < fields.len() implies infallible_spec(p.accesses, row, Seq::empty())[i]
            == scalar_value(AccessExprModel::ByKey((#[trigger] fields[i]).name), row) by {
            lemma_infallible_scalar_index(p.accesses, row, Seq::empty(), i);
        }
    } else {
        assert(infallible_spec(p.accesses, row, Seq::empty()).len() == 0);
    }
}

/// A renamed field's access targets the rename key, never the field's own
/// name.
pub proof fn lemma_rename_targets_key(
    fields: Seq<NamedFieldModel>,
    mode: Mode,
    i: int,
    k: Seq<char>,
)
    requires
        0 <= i < fields.len(),
        resolved_attr(fields[i].attrs) == ColumnAttrModel::Rename(k),
    ensures
        plan_of(RecordDescriptorModel::Named(fields), mode) matches Ok(p) && {
            &&& p.accesses.len() == fields.len()
            &&& p.accesses[i] == AccessExprModel::ByKey(k)
            &&& k != fields[i].name ==> p.accesses[i] != AccessExprModel::ByKey(fields[i].name)
        },
{
    lemma_named_accesses(fields, mode);
}

/// A skipped field compiles to an access that touches no column, and in
/// either mode the field is populated with the default value, whatever the
/// row and the nested outcomes hold.
pub proof fn lemma_skip_yields_default(
    fields: Seq<NamedFieldModel>,
    mode: Mode,
    i: int,
    row: Seq<ColumnModel>,
    nested_values: Seq<ValueModel>,
    nested_outcomes: Seq<Result<ValueModel, ConvertErrorModel>>,
)
    requires
        0 <= i < fields.len(),
        resolved_attr(fields[i].attrs) is Skip,
    ensures
        plan_of(RecordDescriptorModel::Named(fields), mode) matches Ok(p) && {
            &&& p.accesses.len() == fields.len()
            &&& p.accesses[i] is UseDefault
            &&& infallible_spec(p.accesses, row, nested_values)[i] is Null
            &&& (fallible_spec(p.accesses, p.error_kind, row, nested_outcomes) matches Ok(vs)
                ==> vs[i] is Null)
        },
{
    lemma_named_accesses(fields, mode);
    let p = plan_of(RecordDescriptorModel::Named(fields), mode)->Ok_0;
    assert(p.accesses[i] == access_of(named_binding(fields[i])));
    lemma_skip_infallible(p.accesses, row, nested_values, i);
    if fallible_spec(p.accesses, p.error_kind, row, nested_outcomes) is Ok {
        lemma_skip_fallible(p.accesses, p.error_kind, row, nested_outcomes, i);
    }
}

/// The plan's error classification is opaque exactly when some field
/// flattens.
pub proof fn lemma_flatten_taints_error_kind(fields: Seq<NamedFieldModel>, mode: Mode)
    ensures
        plan_of(RecordDescriptorModel::Named(fields), mode) matches Ok(p) && {
            (p.error_kind == ResultErrorKind::Opaque <==> exists|i: int|
                0 <= i < fields.len() && resolved_attr(#[trigger] fields[i].attrs) is Flatten)
        },
{
    let bs = named_bindings(fields);
    if has_flatten(bs) {
        let i = choose|i: int| 0 <= i < bs.len() && bs[i].attr is Flatten;
        assert(bs[i] == named_binding(fields[i]));
        assert(resolved_attr(fields[i].attrs) is Flatten);
    }
    if exists|i: int|
        0 <= i < fields.len() && resolved_attr(#[trigger] fields[i].attrs) is Flatten {
        let i = choose|i: int|
            0 <= i < fields.len() && resolved_attr(#[trigger] fields[i].attrs) is Flatten;
        assert(bs[i] == named_binding(fields[i]));
        assert(bs[i].attr is Flatten);
        assert(has_flatten(bs));
    }
}

/// With no flattened field, the fallible plan's error classification is the
/// row source's native error type, and every failure the conversion returns
/// is of that kind.
pub proof fn lemma_no_flatten_native_errors(
    fields: Seq<NamedFieldModel>,
    row: Seq<ColumnModel>,
    nested: Seq<Result<ValueModel, ConvertErrorModel>>,
)
    requires
        forall|i: int|
            0 <= i < fields.len() ==> !(resolved_attr(#[trigger] fields[i].attrs) is Flatten),
    ensures
        plan_of(RecordDescriptorModel::Named(fields), Mode::Fallible) matches Ok(p) && {
            &&& p.error_kind == ResultErrorKind::Native
            &&& (fallible_spec(p.accesses, p.error_kind, row, nested) matches Err(e)
                ==> e is Native)
        },
{
    lemma_named_accesses(fields, Mode::Fallible);
    lemma_flatten_taints_error_kind(fields, Mode::Fallible);
    let p = plan_of(RecordDescriptorModel::Named(fields), Mode::Fallible)->Ok_0;
    assert forall|j: int|
        0 <= j < p.accesses.len() implies !((#[trigger] p.accesses[j]) is NestedRow) by {
        assert(p.accesses[j] == access_of(named_binding(fields[j])));
        assert(!(resolved_attr(fields[j].attrs) is Flatten));
    }
    lemma_fallible_err_native(p.accesses, row, nested);
}

/// With a flattened field present, the fallible plan's error classification
/// is opaque, and every failure the conversion returns is of the opaque
/// kind.
pub proof fn lemma_flatten_opaque_errors(
    fields: Seq<NamedFieldModel>,
    row: Seq<ColumnModel>,
    nested: Seq<Result<ValueModel, ConvertErrorModel>>,
    i: int,
)
    requires
        0 <= i < fields.len(),
        resolved_attr(fields[i].attrs) is Flatten,
    ensures
        plan_of(RecordDescriptorModel::Named(fields), Mode::Fallible) matches Ok(p) && {
            &&& p.error_kind == ResultErrorKind::Opaque
            &&& (fallible_spec(p.accesses, p.error_kind, row, nested) matches Err(e)
                ==> e is Opaque)
        },
{
    lemma_flatten_taints_error_kind(fields, Mode::Fallible);
    let p = plan_of(RecordDescriptorModel::Named(fields), Mode::Fallible)->Ok_0;
    assert(resolved_attr(fields[i].attrs) is Flatten);
    assert(p.error_kind == ResultErrorKind::Opaque);
    lemma_fallible_err_opaque(p.accesses, row, nested);
}

} // verus!
