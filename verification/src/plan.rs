//! The binding-plan compiler.
//!
//! A record descriptor lists the record's fields in declaration order:
//! either named fields, each with its annotations, or positional fields, or
//! none at all. The extractor normalizes the descriptor into one
//! `FieldBinding` per field; the compiler turns the bindings into a
//! `ConversionPlan`: one access expression per field, a conversion mode, and
//! a unified error classification. Enumerated and union record kinds are
//! rejected with `UnsupportedRecordKind`.

use vstd::prelude::*;

use crate::attr::{
    ColumnAttr, ColumnAttrModel, RawAttr, RawAttrModel, attrs_model, column_attr, resolved_attr,
};
use crate::model::{lemma_seq_model_push, lemma_take_all, lemma_take_push, seq_model};

verus! {

/// A named field of a record: its declared name and its annotations.
#[derive(Debug, PartialEq, Eq)]
pub struct NamedFieldDesc {
    pub name: String,
    pub attrs: Vec<RawAttr>,
}

/// Mathematical image of a `NamedFieldDesc`.
#[verifier::ext_equal]
pub struct NamedFieldModel {
    pub name: Seq<char>,
    pub attrs: Seq<RawAttrModel>,
}

impl View for NamedFieldDesc {
    type V = NamedFieldModel;

    open spec fn view(&self) -> NamedFieldModel {
        NamedFieldModel { name: self.name@, attrs: attrs_model(self.attrs@) }
    }
}

/// The structural description of a record type.
#[derive(Debug, PartialEq, Eq)]
pub enum RecordDescriptor {
    /// A record of named fields, in declaration order.
    Named(Vec<NamedFieldDesc>),
    /// A record of positional fields; the payload is the field count.
    /// Annotations play no part in positional bindings.
    Positional(usize),
    /// A record with no fields.
    Unit,
    /// An enumerated record kind; plans cannot be compiled for it.
    Enumeration,
    /// A union record kind; plans cannot be compiled for it.
    Union,
}

/// Mathematical image of a `RecordDescriptor`.
#[verifier::ext_equal]
pub enum RecordDescriptorModel {
    Named(Seq<NamedFieldModel>),
    Positional(int),
    Unit,
    Enumeration,
    Union,
}

/// View of a sequence of named field descriptors.
pub open spec fn fields_model(s: Seq<NamedFieldDesc>) -> Seq<NamedFieldModel> {
    seq_model(s)
}

impl View for RecordDescriptor {
    type V = RecordDescriptorModel;

    open spec fn view(&self) -> RecordDescriptorModel {
        match self {
            RecordDescriptor::Named(fs) => RecordDescriptorModel::Named(fields_model(fs@)),
            RecordDescriptor::Positional(n) => RecordDescriptorModel::Positional(*n as int),
            RecordDescriptor::Unit => RecordDescriptorModel::Unit,
            RecordDescriptor::Enumeration => RecordDescriptorModel::Enumeration,
            RecordDescriptor::Union => RecordDescriptorModel::Union,
        }
    }
}

/// Identifies a field by name or by positional index.
#[derive(Debug, PartialEq, Eq)]
pub enum FieldSlot {
    Named(String),
    Positional(usize),
}

/// Mathematical image of a `FieldSlot`.
pub enum FieldSlotModel {
    Named(Seq<char>),
    Positional(int),
}

impl View for FieldSlot {
    type V = FieldSlotModel;

    open spec fn view(&self) -> FieldSlotModel {
        match self {
            FieldSlot::Named(s) => FieldSlotModel::Named(s@),
            FieldSlot::Positional(i) => FieldSlotModel::Positional(*i as int),
        }
    }
}

/// A field paired with its resolved binding strategy.
#[derive(Debug, PartialEq, Eq)]
pub struct FieldBinding {
    pub slot: FieldSlot,
    pub attr: ColumnAttr,
}

/// Mathematical image of a `FieldBinding`.
#[verifier::ext_equal]
pub struct FieldBindingModel {
    pub slot: FieldSlotModel,
    pub attr: ColumnAttrModel,
}

impl View for FieldBinding {
    type V = FieldBindingModel;

    open spec fn view(&self) -> FieldBindingModel {
        FieldBindingModel { slot: self.slot@, attr: self.attr@ }
    }
}

/// View of a sequence of field bindings.
pub open spec fn bindings_model(s: Seq<FieldBinding>) -> Seq<FieldBindingModel> {
    seq_model(s)
}

/// The requested conversion mode of a plan.
#[derive(Clone, Copy, Debug, PartialEq, Eq, Structural)]
pub enum Mode {
    /// Row accesses are expected to succeed; a missing column is fatal.
    Infallible,
    /// Row accesses report failure as a value; the first failure is returned.
    Fallible,
}

/// The unified error classification of a fallible conversion.
#[derive(Clone, Copy, Debug, PartialEq, Eq, Structural)]
pub enum ResultErrorKind {
    /// The row source's own error type.
    Native,
    /// A dynamically-typed error, required when a nested conversion's error
    /// type is unknown at this compilation site.
    Opaque,
}

/// A per-field access expression of a compiled plan.
#[derive(Debug, PartialEq, Eq)]
pub enum AccessExpr {
    /// Read the column with the given key.
    ByKey(String),
    /// Read the column at the given position.
    ByIndex(usize),
    /// Touch no column; use the default value.
    UseDefault,
    /// Convert the entire current row through the field's own record type.
    NestedRow,
}

/// Mathematical image of an `AccessExpr`.
pub enum AccessExprModel {
    ByKey(Seq<char>),
    ByIndex(int),
    UseDefault,
    NestedRow,
}

impl View for AccessExpr {
    type V = AccessExprModel;

    open spec fn view(&self) -> AccessExprModel {
        match self {
            AccessExpr::ByKey(k) => AccessExprModel::ByKey(k@),
            AccessExpr::ByIndex(i) => AccessExprModel::ByIndex(*i as int),
            AccessExpr::UseDefault => AccessExprModel::UseDefault,
            AccessExpr::NestedRow => AccessExprModel::NestedRow,
        }
    }
}

/// View of a sequence of access expressions.
pub open spec fn accesses_model(s: Seq<AccessExpr>) -> Seq<AccessExprModel> {
    seq_model(s)
}

/// The compiled conversion plan of one record type in one mode.
#[derive(Debug, PartialEq, Eq)]
pub struct ConversionPlan {
    pub mode: Mode,
    /// One access expression per field, in declaration order.
    pub accesses: Vec<AccessExpr>,
    pub error_kind: ResultErrorKind,
}

/// Mathematical image of a `ConversionPlan`.
#[verifier::ext_equal]
pub struct PlanModel {
    pub mode: Mode,
    pub accesses: Seq<AccessExprModel>,
    pub error_kind: ResultErrorKind,
}

impl View for ConversionPlan {
    type V = PlanModel;

    open spec fn view(&self) -> PlanModel {
        PlanModel {
            mode: self.mode,
            accesses: accesses_model(self.accesses@),
            error_kind: self.error_kind,
        }
    }
}

/// A fatal plan-compilation error.
#[derive(Clone, Copy, Debug, PartialEq, Eq, Structural)]
pub enum CompileError {
    /// The record kind is not struct-like; no plan exists for it.
    UnsupportedRecordKind,
}

/// The binding of one named field: its slot and its resolved strategy.
pub open spec fn named_binding(f: NamedFieldModel) -> FieldBindingModel {
    FieldBindingModel { slot: FieldSlotModel::Named(f.name), attr: resolved_attr(f.attrs) }
}

/// The bindings of a named record, in declaration order.
pub open spec fn named_bindings(fields: Seq<NamedFieldModel>) -> Seq<FieldBindingModel> {
    fields.map_values(|f: NamedFieldModel| named_binding(f))
}

/// The bindings of a positional record: one unannotated binding per index.
pub open spec fn positional_bindings(n: int) -> Seq<FieldBindingModel> {
    Seq::new(
        n as nat,
        |i: int|
            FieldBindingModel {
                slot: FieldSlotModel::Positional(i),
                attr: ColumnAttrModel::Unannotated,
            },
    )
}

/// The normalized bindings of a record descriptor, or the compilation error
/// for an unsupported record kind.
pub open spec fn bindings_of(desc: RecordDescriptorModel) -> Result<
    Seq<FieldBindingModel>,
    CompileError,
> {
    match desc {
        RecordDescriptorModel::Named(fs) => Ok(named_bindings(fs)),
        RecordDescriptorModel::Positional(n) => Ok(positional_bindings(n)),
        RecordDescriptorModel::Unit => Ok(Seq::empty()),
        RecordDescriptorModel::Enumeration => Err(CompileError::UnsupportedRecordKind),
        RecordDescriptorModel::Union => Err(CompileError::UnsupportedRecordKind),
    }
}

/// The access expression one binding compiles to.
pub open spec fn access_of(b: FieldBindingModel) -> AccessExprModel {
    match b.attr {
        ColumnAttrModel::Unannotated => match b.slot {
            FieldSlotModel::Named(nm) => AccessExprModel::ByKey(nm),
            FieldSlotModel::Positional(i) => AccessExprModel::ByIndex(i),
        },
        ColumnAttrModel::Rename(k) => AccessExprModel::ByKey(k),
        ColumnAttrModel::Skip => AccessExprModel::UseDefault,
        ColumnAttrModel::Flatten => AccessExprModel::NestedRow,
    }
}

/// True when some binding flattens.
pub open spec fn has_flatten(bs: Seq<FieldBindingModel>) -> bool {
    exists|i: int| 0 <= i < bs.len() && bs[i].attr is Flatten
}

/// The unified error classification: opaque exactly when some field
/// flattens, the row source's native error type otherwise.
pub open spec fn error_kind_of(bs: Seq<FieldBindingModel>) -> ResultErrorKind {
    if has_flatten(bs) {
        ResultErrorKind::Opaque
    } else {
        ResultErrorKind::Native
    }
}

/// The plan a binding list compiles to in the given mode.
pub open spec fn plan_of_bindings(bs: Seq<FieldBindingModel>, mode: Mode) -> PlanModel {
    PlanModel {
        mode: mode,
        accesses: bs.map_values(|b: FieldBindingModel| access_of(b)),
        error_kind: error_kind_of(bs),
    }
}

/// The plan a record descriptor compiles to in the given mode, or the
/// compilation error for an unsupported record kind.
pub open spec fn plan_of(desc: RecordDescriptorModel, mode: Mode) -> Result<
    PlanModel,
    CompileError,
> {
    match bindings_of(desc) {
        Ok(bs) => Ok(plan_of_bindings(bs, mode)),
        Err(e) => Err(e),
    }
}

/// Normalizes a record descriptor into one `FieldBinding` per field, in
/// declaration order; fails exactly on enumerated and union record kinds.
pub fn extract_bindings(desc: &RecordDescriptor) -> (r: Result<Vec<FieldBinding>, CompileError>)
    ensures
        r is Ok <==> bindings_of(desc@) is Ok,
        r matches Ok(bs) ==> bindings_of(desc@) == Ok::<_, CompileError>(bindings_model(bs@)),
        r matches Err(e) ==> bindings_of(desc@) == Err::<Seq<FieldBindingModel>, _>(e),
{
    match desc {
        RecordDescriptor::Named(fields) => {
            let ghost fm = fields_model(fields@);
            let mut out: Vec<FieldBinding> = Vec::new();
            let mut i: usize = 0;
            while i < fields.len()
                invariant
                    0 <= i <= fields@.len(),
                    fm == fields_model(fields@),
                    bindings_model(out@) == named_bindings(fm).take(i as int),
                decreases fields@.len() - i,
            {
                let attr = column_attr(&fields[i].attrs);
                let b = FieldBinding { slot: FieldSlot::Named(fields[i].name.clone()), attr };
                let ghost prev = out@;
                out.push(b);
                proof {
                    assert(b@ == named_binding(fm[i as int]));
                    lemma_seq_model_push(prev, b);
                    assert(named_bindings(fm)[i as int] == named_binding(fm[i as int]));
                    lemma_take_push(named_bindings(fm), i as int);
                }
                i = i + 1;
            }
            proof {
                lemma_take_all(named_bindings(fm));
            }
            Ok(out)
        },
        RecordDescriptor::Positional(n) => {
            let count = *n;
            let mut out: Vec<FieldBinding> = Vec::new();
            let mut i: usize = 0;
            while i < count
                invariant
                    0 <= i <= count,
                    bindings_model(out@) == positional_bindings(count as int).take(i as int),
                decreases count - i,
            {
                let b = FieldBinding {
                    slot: FieldSlot::Positional(i),
                    attr: ColumnAttr::Unannotated,
                };
                let ghost prev = out@;
                out.push(b);
                proof {
                    assert(b@ == positional_bindings(count as int)[i as int]);
                    lemma_seq_model_push(prev, b);
                    lemma_take_push(positional_bindings(count as int), i as int);
                }
                i = i + 1;
            }
            proof {
                lemma_take_all(positional_bindings(count as int));
            }
            Ok(out)
        },
        RecordDescriptor::Unit => {
            let out: Vec<FieldBinding> = Vec::new();
            proof {
                assert(bindings_model(out@) =~= Seq::<FieldBindingModel>::empty());
            }
            Ok(out)
        },
        RecordDescriptor::Enumeration => Err(CompileError::UnsupportedRecordKind),
        RecordDescriptor::Union => Err(CompileError::UnsupportedRecordKind),
    }
}

/// Compiles a binding list into a conversion plan in the given mode: one
/// access expression per binding, in order, and the unified error
/// classification over the whole record.
pub fn compile_plan(bindings: &Vec<FieldBinding>, mode: Mode) -> (p: ConversionPlan)
    ensures
        p@ == plan_of_bindings(bindings_model(bindings@), mode),
{
    let ghost bm = bindings_model(bindings@);
    let mut accesses: Vec<AccessExpr> = Vec::new();
    let mut found_flatten: bool = false;
    let mut i: usize = 0;
    proof {
        assert(!has_flatten(bm.take(0)));
    }
    while i < bindings.len()
        invariant
            0 <= i <= bindings@.len(),
            bm == bindings_model(bindings@),
            accesses_model(accesses@) == bm.map_values(|b: FieldBindingModel| access_of(b)).take(
                i as int,
            ),
            found_flatten == has_flatten(bm.take(i as int)),
        decreases bindings@.len() - i,
    {
        let b = &bindings[i];
        let acc = match &b.attr {
            ColumnAttr::Unannotated => match &b.slot {
                FieldSlot::Named(nm) => AccessExpr::ByKey(nm.clone()),
                FieldSlot::Positional(ix) => AccessExpr::ByIndex(*ix),
            },
            ColumnAttr::Rename(k) => AccessExpr::ByKey(k.clone()),
            ColumnAttr::Skip => AccessExpr::UseDefault,
            ColumnAttr::Flatten => AccessExpr::NestedRow,
        };
        let is_flat = match &b.attr {
            ColumnAttr::Flatten => true,
            _ => false,
        };
        proof {
            assert(acc@ == access_of(bm[i as int]));
        }
        let ghost prev = accesses@;
        accesses.push(acc);
        found_flatten = found_flatten || is_flat;
        proof {
            let mapped = bm.map_values(|b: FieldBindingModel| access_of(b));
            lemma_seq_model_push(prev, acc);
            assert(mapped[i as int] == access_of(bm[i as int]));
            lemma_take_push(mapped, i as int);
            if found_flatten {
                if is_flat {
                    assert(bm.take(i as int + 1)[i as int].attr is Flatten);
                    assert(has_flatten(bm.take(i as int + 1)));
                } else {
                    let j = choose|j: int|
                        0 <= j < bm.take(i as int).len() && bm.take(i as int)[j].attr is Flatten;
                    assert(bm.take(i as int + 1)[j].attr is Flatten);
                    assert(has_flatten(bm.take(i as int + 1)));
                }
            } else {
                assert(!has_flatten(bm.take(i as int + 1))) by {
                    assert forall|j: int|
                        0 <= j < bm.take(i as int + 1).len() implies !(#[trigger] bm.take(
                        i as int + 1,
                    )[j].attr is Flatten) by {
                        if j < i as int {
                            assert(bm.take(i as int)[j] == bm.take(i as int + 1)[j]);
                            assert(!has_flatten(bm.take(i as int)));
                            assert(!(bm.take(i as int)[j].attr is Flatten));
                        }
                    }
                }
            }
        }
        i = i + 1;
    }
    proof {
        lemma_take_all(bm);
        lemma_take_all(bm.map_values(|b: FieldBindingModel| access_of(b)));
    }
    let error_kind = if found_flatten {
        ResultErrorKind::Opaque
    } else {
        ResultErrorKind::Native
    };
    let p = ConversionPlan { mode, accesses, error_kind };
    proof {
        assert(p@ =~= plan_of_bindings(bm, mode));
    }
    p
}

/// Compiles a record descriptor into a conversion plan in the given mode.
/// Succeeds on every struct-like descriptor; fails with
/// `UnsupportedRecordKind` exactly on enumerated and union record kinds,
/// never silently producing an empty plan for them.
pub fn compile_record(desc: &RecordDescriptor, mode: Mode) -> (r: Result<
    ConversionPlan,
    CompileError,
>)
    ensures
        r is Ok <==> !(desc@ is Enumeration || desc@ is Union),
        r matches Ok(p) ==> plan_of(desc@, mode) == Ok::<_, CompileError>(p@),
        r matches Err(e) ==> plan_of(desc@, mode) == Err::<PlanModel, _>(e)
            && e == CompileError::UnsupportedRecordKind,
{
    let bs = match extract_bindings(desc) {
        Ok(bs) => bs,
        Err(e) => {
            return Err(e);
        },
    };
    let p = compile_plan(&bs, mode);
    Ok(p)
}

} // verus!
