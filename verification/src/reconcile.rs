use vstd::prelude::*;

use crate::errors::PipelineError;

verus! {

/// One schema-normalization operation on one column of a lazy source.
#[derive(Clone, Copy, Debug, PartialEq, Eq, Structural)]
pub enum ColumnOp {
    /// Introduce a text-typed column holding the absent value in every row:
    /// the step for a source whose native schema lacks the optional column.
    AddNullText,
    /// Coerce the column's native values, numeric or text, to one text
    /// representation, the common intermediate encoding.
    CastToText,
    /// Rewrite every comma decimal separator to a period, then parse the
    /// text strictly as numeric; a genuinely non-numeric value must fail the
    /// run rather than vanish silently.
    ParseNumeric,
}

/// One planned step: which operation on which column.
#[derive(Clone, Debug)]
pub struct PlanStep {
    pub op: ColumnOp,
    pub column: String,
}

/// The five measurement columns whose encoding varies across files.
pub open spec fn measurement_column(i: int) -> Seq<char> {
    if i == 0 {
        "val_geracao"@
    } else if i == 1 {
        "val_geracaolimitada"@
    } else if i == 2 {
        "val_disponibilidade"@
    } else if i == 3 {
        "val_geracaoreferencia"@
    } else {
        "val_geracaoreferenciafinal"@
    }
}

/// The name of one of the five measurement columns.
pub fn measurement_column_name(i: usize) -> (r: &'static str)
    requires
        i < 5,
    ensures
        r@ == measurement_column(i as int),
{
    match i {
        0 => "val_geracao",
        1 => "val_geracaolimitada",
        2 => "val_disponibilidade",
        3 => "val_geracaoreferencia",
        _ => "val_geracaoreferenciafinal",
    }
}

/// The optional descriptive text column not present in all files.
pub fn descriptive_column_name() -> (r: &'static str)
    ensures
        r@ == "dsc_restricao"@,
{
    "dsc_restricao"
}

/// The per-source reconciliation plan. A source that lacks the optional
/// descriptive column first gains it as an absent-valued text placeholder;
/// then every measurement column is coerced to its text representation, in
/// the fixed column order. Only a plan is built: no row data is read here.
pub fn reconcile_plan(has_descriptive: bool) -> (r: Vec<PlanStep>)
    ensures
        has_descriptive ==> r@.len() == 5,
        !has_descriptive ==> r@.len() == 6 && r@[0].op == ColumnOp::AddNullText
            && r@[0].column@ == "dsc_restricao"@,
        forall|i: int|
            0 <= i < 5 ==> #[trigger] r@[r@.len() - 5 + i].op == ColumnOp::CastToText && r@[r@.len()
                - 5 + i].column@ == measurement_column(i),
{
    let mut steps: Vec<PlanStep> = Vec::new();
    if !has_descriptive {
        steps.push(
            PlanStep { op: ColumnOp::AddNullText, column: String::from_str(descriptive_column_name()) },
        );
    }
    let ghost base = steps@.len();
    let mut i: usize = 0;
    while i < 5
        invariant
            i <= 5,
            steps@.len() == base + i,
            base == if has_descriptive { 0int } else { 1int },
            base == 1 ==> steps@[0].op == ColumnOp::AddNullText && steps@[0].column@
                == "dsc_restricao"@,
            forall|k: int|
                0 <= k < i ==> #[trigger] steps@[base + k].op == ColumnOp::CastToText
                    && steps@[base + k].column@ == measurement_column(k),
        decreases 5 - i,
    {
        steps.push(
            PlanStep { op: ColumnOp::CastToText, column: String::from_str(measurement_column_name(i)) },
        );
        i += 1;
    }
    steps
}

/// The merge-stage plan, applied once to the union of the reconciled
/// sources: every measurement column has its commas rewritten to periods and
/// is parsed strictly as numeric, in the fixed column order.
pub fn merge_plan() -> (r: Vec<PlanStep>)
    ensures
        r@.len() == 5,
        forall|i: int|
            0 <= i < 5 ==> #[trigger] r@[i].op == ColumnOp::ParseNumeric && r@[i].column@
                == measurement_column(i),
{
    let mut steps: Vec<PlanStep> = Vec::new();
    let mut i: usize = 0;
    while i < 5
        invariant
            i <= 5,
            steps@.len() == i,
            forall|k: int|
                0 <= k < i ==> #[trigger] steps@[k].op == ColumnOp::ParseNumeric
                    && steps@[k].column@ == measurement_column(k),
        decreases 5 - i,
    {
        steps.push(
            PlanStep { op: ColumnOp::ParseNumeric, column: String::from_str(measurement_column_name(i)) },
        );
        i += 1;
    }
    steps
}

/// The broad classes a table-engine failure falls in, as far as the error
/// mapping needs them apart. The shell reads the engine's error into one of
/// these; the mapping to a pipeline error is fixed here.
#[derive(Clone, Copy, Debug, PartialEq, Eq, Structural)]
pub enum FailureClass {
    /// The underlying bytes could not be retrieved or read.
    Io,
    /// Column names, types or shapes disagree.
    Schema,
    /// A value could not be computed or coerced.
    Value,
}

/// Maps a failure met while resolving or aligning source schemas: an
/// unreadable source is a fetch failure, anything else a merge failure.
pub fn reconcile_failure_error(class: FailureClass) -> (r: PipelineError)
    ensures
        class == FailureClass::Io ==> r == PipelineError::Fetch,
        class != FailureClass::Io ==> r == PipelineError::Merge,
{
    match class {
        FailureClass::Io => PipelineError::Fetch,
        _ => PipelineError::Merge,
    }
}

/// Maps a failure met while running the merged plan: an unreachable source
/// is a fetch failure, a schema disagreement surviving reconciliation is a
/// merge failure, and a value that will not parse as numeric after locale
/// normalization is a reconciliation failure.
pub fn merge_failure_error(class: FailureClass) -> (r: PipelineError)
    ensures
        class == FailureClass::Io ==> r == PipelineError::Fetch,
        class == FailureClass::Schema ==> r == PipelineError::Merge,
        class == FailureClass::Value ==> r == PipelineError::SchemaReconciliation,
{
    match class {
        FailureClass::Io => PipelineError::Fetch,
        FailureClass::Schema => PipelineError::Merge,
        FailureClass::Value => PipelineError::SchemaReconciliation,
    }
}

} // verus!
