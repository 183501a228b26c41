use curtailment_pipeline::errors::PipelineError;
use curtailment_pipeline::reconcile::{
    descriptive_column_name, measurement_column_name, merge_failure_error, merge_plan,
    reconcile_failure_error, reconcile_plan, ColumnOp, FailureClass,
};

const MEASUREMENT_COLUMNS: [&str; 5] = [
    "val_geracao",
    "val_geracaolimitada",
    "val_disponibilidade",
    "val_geracaoreferencia",
    "val_geracaoreferenciafinal",
];

#[test]
fn column_names_are_the_published_ones() {
    for (i, name) in MEASUREMENT_COLUMNS.iter().enumerate() {
        assert_eq!(measurement_column_name(i), *name);
    }
    assert_eq!(descriptive_column_name(), "dsc_restricao");
}

#[test]
fn plan_for_source_with_descriptive_column_only_casts() {
    let plan = reconcile_plan(true);
    assert_eq!(plan.len(), 5);
    for (i, step) in plan.iter().enumerate() {
        assert_eq!(step.op, ColumnOp::CastToText);
        assert_eq!(step.column.as_str(), MEASUREMENT_COLUMNS[i]);
    }
}

#[test]
fn plan_for_source_without_descriptive_column_adds_placeholder_first() {
    let plan = reconcile_plan(false);
    assert_eq!(plan.len(), 6);
    assert_eq!(plan[0].op, ColumnOp::AddNullText);
    assert_eq!(plan[0].column.as_str(), "dsc_restricao");
    for (i, step) in plan[1..].iter().enumerate() {
        assert_eq!(step.op, ColumnOp::CastToText);
        assert_eq!(step.column.as_str(), MEASUREMENT_COLUMNS[i]);
    }
}

#[test]
fn merge_plan_parses_every_measurement_column() {
    let plan = merge_plan();
    assert_eq!(plan.len(), 5);
    for (i, step) in plan.iter().enumerate() {
        assert_eq!(step.op, ColumnOp::ParseNumeric);
        assert_eq!(step.column.as_str(), MEASUREMENT_COLUMNS[i]);
    }
}

#[test]
fn unreachable_source_maps_to_fetch_error() {
    assert_eq!(merge_failure_error(FailureClass::Io), PipelineError::Fetch);
    assert_eq!(reconcile_failure_error(FailureClass::Io), PipelineError::Fetch);
}

#[test]
fn schema_disagreement_maps_to_merge_error() {
    assert_eq!(merge_failure_error(FailureClass::Schema), PipelineError::Merge);
    assert_eq!(reconcile_failure_error(FailureClass::Schema), PipelineError::Merge);
    assert_eq!(reconcile_failure_error(FailureClass::Value), PipelineError::Merge);
}

#[test]
fn non_numeric_value_maps_to_reconciliation_error() {
    assert_eq!(
        merge_failure_error(FailureClass::Value),
        PipelineError::SchemaReconciliation
    );
}
