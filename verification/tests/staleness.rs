use chrono::Datelike;
use debtlens::analysis::coverage::{compute_coverage_gap, test_file_candidates, CoverageReport};
use debtlens::analysis::staleness::{
    adr_candidates, compute_staleness, parse_review_date, AdrRecord,
};
use debtlens::fixed::Fixed;

fn day(y: i32, m: u32, d: u32) -> i32 {
    chrono::NaiveDate::from_ymd_opt(y, m, d).unwrap().num_days_from_ce()
}

fn points(n: u64) -> Fixed {
    Fixed::from_units(n * 1_000_000)
}

#[test]
fn review_age_is_counted_in_days() {
    let today = day(2024, 3, 1);
    assert_eq!(parse_review_date("last_reviewed_at: 2024-03-01", today), Some(0));
    assert_eq!(parse_review_date("last_reviewed_at: 2024-01-01", today), Some(60));
    assert_eq!(parse_review_date("reviewed: 2023-03-01\n", today), Some(366));
    assert_eq!(parse_review_date("last-reviewed:2024-2-9", today), Some(21));
    // a review that lies ahead has a negative age
    assert_eq!(parse_review_date("reviewed: 2024-03-02", today), Some(-1));
}

#[test]
fn review_line_is_found_in_any_case_and_after_other_lines() {
    let today = day(2024, 3, 1);
    let text = "# Decision 7\n\n  Last_Reviewed_At:   2024-02-20  \nreviewed: 2020-01-01\n";
    assert_eq!(parse_review_date(text, today), Some(10));
    // a line whose date cannot be read is passed over
    let text = "reviewed: soon\nREVIEWED: 2024-02-29\n";
    assert_eq!(parse_review_date(text, today), Some(1));
}

#[test]
fn record_without_review_date_has_no_age() {
    let today = day(2024, 3, 1);
    assert_eq!(parse_review_date("", today), None);
    assert_eq!(parse_review_date("status: accepted\n", today), None);
    assert_eq!(parse_review_date("reviewed: 2024-02-30\n", today), None);
    assert_eq!(parse_review_date("was reviewed: 2024-02-20\n", today), None);
}

fn reviewed(days_ago: i32) -> (AdrRecord, i32) {
    let today = day(2024, 6, 30);
    let date = chrono::NaiveDate::from_num_days_from_ce_opt(today - days_ago).unwrap();
    (AdrRecord::Text(format!("reviewed: {}\n", date.format("%Y-%m-%d"))), today)
}

#[test]
fn staleness_rises_evenly_between_thirty_and_a_hundred_and_eighty_days() {
    let score = |days_ago: i32| {
        let (adr, today) = reviewed(days_ago);
        compute_staleness(&adr, points(0), today).units
    };
    assert_eq!(score(0), 0);
    assert_eq!(score(29), 0);
    assert_eq!(score(30), 0);
    assert_eq!(score(31), 666_666);
    assert_eq!(score(105), 50_000_000);
    assert_eq!(score(180), 100_000_000);
    assert_eq!(score(181), 100_000_000);
    assert_eq!(score(4000), 100_000_000);
}

#[test]
fn undated_or_unreadable_record_scores_fifty() {
    let today = day(2024, 6, 30);
    let undated = AdrRecord::Text("# Decision\n".to_string());
    assert_eq!(compute_staleness(&undated, points(0), today).units, 50_000_000);
    assert_eq!(compute_staleness(&AdrRecord::Unreadable, points(0), today).units, 50_000_000);
}

#[test]
fn missing_record_counts_against_complex_files_only() {
    let today = day(2024, 6, 30);
    assert_eq!(compute_staleness(&AdrRecord::Missing, points(30), today).units, 0);
    assert_eq!(
        compute_staleness(&AdrRecord::Missing, Fixed::from_units(30_000_001), today).units,
        50_000_000
    );
    assert_eq!(compute_staleness(&AdrRecord::Missing, points(100), today).units, 50_000_000);
    assert_eq!(compute_staleness(&AdrRecord::Missing, points(0), today).units, 0);
}

#[test]
fn decision_record_is_looked_for_in_three_places() {
    assert_eq!(
        adr_candidates("src/core/engine.rs", "/repo"),
        vec![
            "/repo/.debtengine/adrs/engine.adr.md".to_string(),
            "/repo/.debtengine/adrs/engine.md".to_string(),
            "/repo/src/core/engine.adr.md".to_string(),
        ]
    );
    assert_eq!(
        adr_candidates("main.py", "/repo"),
        vec![
            "/repo/.debtengine/adrs/main.adr.md".to_string(),
            "/repo/.debtengine/adrs/main.md".to_string(),
            "/repo/main.adr.md".to_string(),
        ]
    );
}

#[test]
fn test_file_is_looked_for_in_seven_places() {
    assert_eq!(
        test_file_candidates("src/util/parse.ts", "/repo"),
        vec![
            "/repo/src/util/parse.test.ts".to_string(),
            "/repo/src/util/parse.spec.ts".to_string(),
            "/repo/src/util/test_parse.ts".to_string(),
            "/repo/src/util/parse_test.ts".to_string(),
            "/repo/tests/test_parse.ts".to_string(),
            "/repo/test/parse_test.ts".to_string(),
            "/repo/src/util/__tests__/parse.test.ts".to_string(),
        ]
    );
    assert_eq!(
        test_file_candidates("app.py", "/repo/"),
        vec![
            "/repo/app.test.py".to_string(),
            "/repo/app.spec.py".to_string(),
            "/repo/test_app.py".to_string(),
            "/repo/app_test.py".to_string(),
            "/repo/tests/test_app.py".to_string(),
            "/repo/test/app_test.py".to_string(),
            "/repo/__tests__/app.test.py".to_string(),
        ]
    );
}

#[test]
fn coverage_gap_is_thirty_or_eighty() {
    let report = CoverageReport::Text("SF:src/a.rs\nend_of_record\n".to_string());
    assert_eq!(compute_coverage_gap("src/a.rs", &report, false).units, 30_000_000);
    assert_eq!(compute_coverage_gap("src/b.rs", &report, false).units, 80_000_000);
    // with a report, test files do not matter
    assert_eq!(compute_coverage_gap("src/b.rs", &report, true).units, 80_000_000);
    assert_eq!(compute_coverage_gap("src/a.rs", &CoverageReport::Unreadable, true).units, 80_000_000);
    assert_eq!(compute_coverage_gap("src/a.rs", &CoverageReport::Absent, true).units, 30_000_000);
    assert_eq!(compute_coverage_gap("src/a.rs", &CoverageReport::Absent, false).units, 80_000_000);
}
