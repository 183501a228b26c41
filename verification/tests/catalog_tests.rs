use curtailment_pipeline::catalog::{build_catalog, build_catalog_from_hrefs};
use curtailment_pipeline::dates::MonthKey;

fn hrefs(items: &[&str]) -> Vec<String> {
    items.iter().map(|s| s.to_string()).collect()
}

#[test]
fn catalog_keeps_exactly_the_months_inside_the_interval() {
    let list = hrefs(&[
        "https://h.org/a_2025_01.parquet",
        "https://h.org/a_2025_03.parquet",
        "https://h.org/readme.txt",
        "https://h.org/a_2025_07.parquet",
    ]);
    let s = MonthKey { year: 2025, month: 1 };
    let e = MonthKey { year: 2025, month: 6 };
    let cat = build_catalog_from_hrefs(&list, &s, &e);
    assert_eq!(cat.len(), 2);
    assert_eq!(cat.month_at(0), MonthKey { year: 2025, month: 1 });
    assert_eq!(cat.href_at(0).as_str(), "https://h.org/a_2025_01.parquet");
    assert_eq!(cat.month_at(1), MonthKey { year: 2025, month: 3 });
    assert_eq!(cat.href_at(1).as_str(), "https://h.org/a_2025_03.parquet");
}

#[test]
fn duplicate_months_keep_the_last_reference_in_order() {
    let list = hrefs(&[
        "https://h.org/first_2025_02.parquet",
        "https://h.org/second_2025_02.parquet",
        "https://h.org/third_2025_02.parquet",
    ]);
    let s = MonthKey { year: 2025, month: 1 };
    let e = MonthKey { year: 2025, month: 12 };
    let cat = build_catalog_from_hrefs(&list, &s, &e);
    assert_eq!(cat.len(), 1);
    assert_eq!(cat.href_at(0).as_str(), "https://h.org/third_2025_02.parquet");
}

#[test]
fn entries_come_out_in_increasing_month_order() {
    let list = hrefs(&[
        "x_2025_06.parquet",
        "x_2024_11.parquet",
        "x_2025_01.parquet",
    ]);
    let s = MonthKey { year: 2024, month: 1 };
    let e = MonthKey { year: 2025, month: 12 };
    let cat = build_catalog_from_hrefs(&list, &s, &e);
    assert_eq!(cat.len(), 3);
    assert_eq!(cat.month_at(0), MonthKey { year: 2024, month: 11 });
    assert_eq!(cat.month_at(1), MonthKey { year: 2025, month: 1 });
    assert_eq!(cat.month_at(2), MonthKey { year: 2025, month: 6 });
    let urls = cat.hrefs_in_month_order();
    assert_eq!(urls, vec![
        "x_2024_11.parquet".to_string(),
        "x_2025_01.parquet".to_string(),
        "x_2025_06.parquet".to_string(),
    ]);
}

#[test]
fn index_document_interval_selection() {
    let doc = "<html><body><ul>\
        <li><a class=\"resource-url-analytics\" href=\"https://x.org/f/2025_01.parquet\">jan</a></li>\
        <li><a class=\"resource-url-analytics\" href=\"https://x.org/f/2025_02.parquet\">feb</a></li>\
        <li><a class=\"resource-url-analytics\" href=\"https://x.org/f/2025_06.parquet\">jun</a></li>\
        </ul></body></html>";
    let s = MonthKey { year: 2025, month: 2 };
    let e = MonthKey { year: 2025, month: 5 };
    let cat = build_catalog(doc, &s, &e).unwrap();
    assert_eq!(cat.len(), 1);
    assert_eq!(cat.month_at(0), MonthKey { year: 2025, month: 2 });
    assert_eq!(cat.href_at(0).as_str(), "https://x.org/f/2025_02.parquet");
}

#[test]
fn index_document_without_matching_anchors_yields_empty_catalog() {
    let doc = "<html><body><ul>\
        <li><a class=\"resource-url-analytics\" href=\"https://x.org/f/2025_01.parquet\">jan</a></li>\
        </ul></body></html>";
    let s = MonthKey { year: 2026, month: 1 };
    let e = MonthKey { year: 2026, month: 12 };
    let cat = build_catalog(doc, &s, &e).unwrap();
    assert!(cat.is_empty());
    assert_eq!(cat.len(), 0);
    assert_eq!(cat.hrefs_in_month_order().len(), 0);
}

#[test]
fn anchors_without_marker_class_or_extension_are_ignored() {
    let doc = "<html><body><ul>\
        <li><a href=\"https://x.org/f/2025_02.parquet\">no marker</a></li>\
        <li><a class=\"resource-url-analytics\" href=\"https://x.org/f/2025_03.csv\">wrong ext</a></li>\
        <li><a class=\"resource-url-analytics\" href=\"https://x.org/f/2025_04.parquet\">good</a></li>\
        <p><a class=\"resource-url-analytics\" href=\"https://x.org/f/2025_05.parquet\">not in li</a></p>\
        </ul></body></html>";
    let s = MonthKey { year: 2025, month: 1 };
    let e = MonthKey { year: 2025, month: 12 };
    let cat = build_catalog(doc, &s, &e).unwrap();
    assert_eq!(cat.len(), 1);
    assert_eq!(cat.month_at(0), MonthKey { year: 2025, month: 4 });
}

#[test]
fn malformed_anchor_names_are_skipped_not_fatal() {
    let doc = "<html><body><ul>\
        <li><a class=\"resource-url-analytics\" href=\"https://x.org/f/2025_99.parquet\">bad month</a></li>\
        <li><a class=\"resource-url-analytics\" href=\"https://x.org/f/2025_07.parquet\">good</a></li>\
        </ul></body></html>";
    let s = MonthKey { year: 2025, month: 1 };
    let e = MonthKey { year: 2025, month: 12 };
    let cat = build_catalog(doc, &s, &e).unwrap();
    assert_eq!(cat.len(), 1);
    assert_eq!(cat.month_at(0), MonthKey { year: 2025, month: 7 });
}

#[test]
fn document_level_duplicates_keep_last_in_document_order() {
    let doc = "<html><body><ul>\
        <li><a class=\"resource-url-analytics\" href=\"https://x.org/old/2025_02.parquet\">old</a></li>\
        <li><a class=\"resource-url-analytics\" href=\"https://x.org/new/2025_02.parquet\">new</a></li>\
        </ul></body></html>";
    let s = MonthKey { year: 2025, month: 1 };
    let e = MonthKey { year: 2025, month: 12 };
    let cat = build_catalog(doc, &s, &e).unwrap();
    assert_eq!(cat.len(), 1);
    assert_eq!(cat.href_at(0).as_str(), "https://x.org/new/2025_02.parquet");
}

#[test]
fn any_document_yields_a_catalog_never_an_error() {
    let s = MonthKey { year: 2025, month: 1 };
    let e = MonthKey { year: 2025, month: 12 };
    for doc in [
        "",
        "plain text, no markup at all",
        "<html><body><p>no anchors here</p></body></html>",
        "<li><a href=\"x_2025_03.parquet\">anchor without the marker class</a></li>",
        "<<<>>> not even close to html &&& <li><a",
    ] {
        let cat = build_catalog(doc, &s, &e).unwrap();
        assert!(cat.is_empty());
    }
}
