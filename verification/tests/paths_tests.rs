use curtailment_pipeline::dates::Date;
use curtailment_pipeline::errors::PipelineError;
use curtailment_pipeline::paths::{output_dir, output_path};

#[test]
fn output_path_is_derived_from_the_interval() {
    let s = Date::new(2025, 1, 1).unwrap();
    let e = Date::new(2025, 5, 17).unwrap();
    assert_eq!(
        output_path(&s, &e),
        "output/curtailment_2025-01-01_2025-05-17.parquet"
    );
}

#[test]
fn output_path_zero_pads_all_components() {
    let s = Date::new(987, 2, 3).unwrap();
    let e = Date::new(987, 12, 31).unwrap();
    assert_eq!(
        output_path(&s, &e),
        "output/curtailment_0987-02-03_0987-12-31.parquet"
    );
}

#[test]
fn same_interval_same_path() {
    let s = Date::new(2024, 11, 1).unwrap();
    let e = Date::new(2025, 2, 28).unwrap();
    assert_eq!(output_path(&s, &e), output_path(&s, &e));
}

#[test]
fn output_dir_prefixes_the_path() {
    let s = Date::new(2024, 1, 1).unwrap();
    let e = Date::new(2024, 1, 31).unwrap();
    assert!(output_path(&s, &e).starts_with(output_dir()));
}

#[test]
fn error_messages_name_the_stage() {
    assert!(PipelineError::Fetch.message().contains("retrieved"));
    assert!(PipelineError::Merge.message().contains("schema"));
    assert_ne!(
        PipelineError::SchemaReconciliation.message(),
        PipelineError::IoWrite.message()
    );
}
