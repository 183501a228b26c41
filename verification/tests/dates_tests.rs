use curtailment_pipeline::dates::{parse_month_arg, Date, MonthKey};
use curtailment_pipeline::errors::PipelineError;

#[test]
fn month_arg_parses() {
    assert_eq!(parse_month_arg("2025-02"), Ok(MonthKey { year: 2025, month: 2 }));
    assert_eq!(parse_month_arg("0001-12"), Ok(MonthKey { year: 1, month: 12 }));
}

#[test]
fn malformed_month_arg_is_rejected() {
    assert_eq!(parse_month_arg("2025-13"), Err(PipelineError::ArgumentParse));
    assert_eq!(parse_month_arg("2025-00"), Err(PipelineError::ArgumentParse));
    assert_eq!(parse_month_arg("2025/02"), Err(PipelineError::ArgumentParse));
    assert_eq!(parse_month_arg("25-02"), Err(PipelineError::ArgumentParse));
    assert_eq!(parse_month_arg("garbage"), Err(PipelineError::ArgumentParse));
    assert_eq!(parse_month_arg(""), Err(PipelineError::ArgumentParse));
}

#[test]
fn month_order_is_year_then_month() {
    let a = MonthKey { year: 2024, month: 12 };
    let b = MonthKey { year: 2025, month: 1 };
    assert!(a.lt(&b));
    assert!(a.le(&b));
    assert!(!b.le(&a));
    assert!(a.le(&a));
    assert!(!a.lt(&a));
}

#[test]
fn interval_membership_is_inclusive() {
    let s = MonthKey { year: 2025, month: 2 };
    let e = MonthKey { year: 2025, month: 5 };
    assert!(s.within(&s, &e));
    assert!(e.within(&s, &e));
    assert!(MonthKey { year: 2025, month: 3 }.within(&s, &e));
    assert!(!MonthKey { year: 2025, month: 1 }.within(&s, &e));
    assert!(!MonthKey { year: 2025, month: 6 }.within(&s, &e));
}

#[test]
fn leap_year_day_counts() {
    assert_eq!(Date::new(2024, 2, 29), Some(Date { year: 2024, month: 2, day: 29 }));
    assert_eq!(Date::new(2025, 2, 29), None);
    assert_eq!(Date::new(1900, 2, 29), None);
    assert_eq!(Date::new(2000, 2, 29), Some(Date { year: 2000, month: 2, day: 29 }));
    assert_eq!(Date::new(2025, 4, 31), None);
    assert_eq!(Date::new(2025, 1, 31), Some(Date { year: 2025, month: 1, day: 31 }));
}

#[test]
fn invalid_dates_are_rejected() {
    assert_eq!(Date::new(2025, 0, 1), None);
    assert_eq!(Date::new(2025, 13, 1), None);
    assert_eq!(Date::new(2025, 6, 0), None);
    assert_eq!(Date::new(10000, 1, 1), None);
}

#[test]
fn first_day_of_month_key() {
    let k = MonthKey { year: 2025, month: 2 };
    assert_eq!(k.first_day(), Date { year: 2025, month: 2, day: 1 });
    assert_eq!(k.first_day().month_key(), k);
}
