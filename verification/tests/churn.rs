use debtlens::analysis::churn::{analyze_churn, compute_file_churn, ChurnData, CommitFacts};
use debtlens::fixed::Fixed;

fn value(x: Fixed) -> f64 {
    x.units as f64 / 1_000_000.0
}

#[test]
fn returns_zero_for_files_without_history() {
    let churn = ChurnData::new();
    assert_eq!(value(compute_file_churn(&churn, "src/lib.rs", 90)), 0.0);
}

#[test]
fn normalizes_commit_count_by_history_window() {
    let mut churn = ChurnData::new();
    churn.insert("src/lib.rs".to_string(), 45);

    let score = value(compute_file_churn(&churn, "src/lib.rs", 90));
    assert!((score - 50.0).abs() < 1e-6);
}

#[test]
fn caps_scores_at_hundred() {
    let mut churn = ChurnData::new();
    churn.insert("src/lib.rs".to_string(), 365);

    let score = value(compute_file_churn(&churn, "src/lib.rs", 30));
    assert_eq!(score, 100.0);
}

#[test]
fn churn_is_a_hundred_times_changes_per_day() {
    let mut churn = ChurnData::new();
    churn.insert("x".to_string(), 45);
    churn.insert("y".to_string(), 1);
    assert_eq!(compute_file_churn(&churn, "x", 90).units, 50_000_000);
    assert_eq!(compute_file_churn(&churn, "y", 3).units, 33_333_333);
    assert_eq!(compute_file_churn(&churn, "y", 1).units, 100_000_000);
    // a window of no days counts as one day
    assert_eq!(compute_file_churn(&churn, "y", 0).units, 100_000_000);
    assert_eq!(compute_file_churn(&churn, "z", 7).units, 0);
}

#[test]
fn churn_counts_changes_within_the_window() {
    let now = 1_700_000_000;
    let day = 86_400;
    let commits = vec![
        CommitFacts { time: now, files: vec!["a.rs".to_string(), "notes.txt".to_string()] },
        CommitFacts { time: now - 7 * day, files: vec!["a.rs".to_string()] },
        CommitFacts { time: now - 7 * day - 1, files: vec!["a.rs".to_string(), "b.rs".to_string()] },
    ];
    let churn = analyze_churn(&commits, now, 7);
    assert_eq!(churn.count("a.rs"), 2);
    assert_eq!(churn.count("notes.txt"), 1);
    assert_eq!(churn.count("b.rs"), 0);
    let all = analyze_churn(&commits, now, 8);
    assert_eq!(all.count("a.rs"), 3);
    assert_eq!(all.count("b.rs"), 1);
}
