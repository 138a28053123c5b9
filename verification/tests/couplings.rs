use debtlens::analysis::coupling::CoChangeResult;
use debtlens::analysis::import_graph::{compute_coupling_index, WorkspaceFile};
use debtlens::couplings::get_change_couplings;
use debtlens::fixed::Fixed;
use debtlens::settings::{load_effective_analysis_settings, WeightSettings};
use debtlens::table::Table;

fn co_changes(pairs: &[(&str, &str, usize)], counts: &[(&str, usize)]) -> CoChangeResult {
    let mut file_change_counts = Table::new();
    for (path, n) in counts {
        file_change_counts.insert(path.to_string(), *n);
    }
    CoChangeResult {
        pairs: pairs.iter().map(|(a, b, n)| (a.to_string(), b.to_string(), *n)).collect(),
        file_change_counts,
    }
}

fn sources(texts: &[(&str, &str)]) -> Table<String> {
    let mut t = Table::new();
    for (path, text) in texts {
        t.insert(path.to_string(), text.to_string());
    }
    t
}

#[test]
fn couplings_are_ranked_by_co_changes() {
    let co = co_changes(
        &[
            ("a.rs", "b.rs", 3),
            ("a.rs", "c.rs", 1),
            ("b.rs", "c.rs", 5),
            ("c.rs", "d.rs", 3),
            ("d.rs", "e.rs", 2),
        ],
        &[("a.rs", 10), ("b.rs", 6), ("c.rs", 5), ("d.rs", 100), ("e.rs", 50)],
    );
    let src = sources(&[("a.rs", "mod b;\nuse c::x;\n"), ("b.rs", "fn f() {}\n")]);
    let list = get_change_couplings(&co, None, &vec![], &src);
    let seen: Vec<(&str, &str, usize)> = list
        .iter()
        .map(|p| (p.file_a.as_str(), p.file_b.as_str(), p.co_change_count))
        .collect();
    // d.rs/e.rs has a ratio of 2/50, under 0.05; a.rs/c.rs changed together once only
    assert_eq!(seen, vec![("b.rs", "c.rs", 5), ("a.rs", "b.rs", 3), ("c.rs", "d.rs", 3)]);
    assert_eq!(list[0].coupling_ratio.units, 1_000_000);
    assert_eq!(list[1].coupling_ratio.units, 500_000);
    assert_eq!(list[2].coupling_ratio.units, 600_000);
    assert!(!list[0].has_import_link);
    assert!(list[1].has_import_link);
    assert!(!list[2].has_import_link);
}

#[test]
fn couplings_heed_threshold_and_known_files() {
    let co = co_changes(
        &[("a.rs", "b.rs", 3), ("c.rs", "d.rs", 4), ("e.rs", "f.rs", 2)],
        &[("a.rs", 10), ("b.rs", 6), ("c.rs", 5), ("d.rs", 100), ("e.rs", 2), ("f.rs", 2)],
    );
    let none = Table::new();
    let strict = get_change_couplings(&co, Some(Fixed::from_units(800_000)), &vec![], &none);
    assert_eq!(strict.len(), 2);
    assert_eq!(strict[0].file_a, "c.rs");
    assert_eq!(strict[1].file_a, "e.rs");
    let exact = get_change_couplings(&co, Some(Fixed::from_units(500_000)), &vec![], &none);
    assert_eq!(exact.len(), 3);
    let known = vec!["b.rs".to_string(), "e.rs".to_string()];
    let of_known = get_change_couplings(&co, None, &known, &none);
    assert_eq!(of_known.len(), 2);
    assert_eq!(of_known[0].file_b, "b.rs");
    assert_eq!(of_known[1].file_a, "e.rs");
}

#[test]
fn couplings_are_capped_at_two_hundred() {
    let names: Vec<(String, String)> =
        (0..250).map(|i| (format!("a{i}.rs"), format!("b{i}.rs"))).collect();
    let pairs: Vec<(&str, &str, usize)> = names
        .iter()
        .enumerate()
        .map(|(i, (a, b))| (a.as_str(), b.as_str(), 2 + i % 7))
        .collect();
    let co = co_changes(&pairs, &[]);
    let list = get_change_couplings(&co, None, &vec![], &Table::new());
    assert_eq!(list.len(), 200);
    for w in list.windows(2) {
        assert!(w[0].co_change_count >= w[1].co_change_count);
    }
    assert_eq!(list[0].co_change_count, 8);
    // pairs with as many co-changes keep the order of the table
    assert_eq!(list[0].file_a, "a6.rs");
    assert_eq!(list[1].file_a, "a13.rs");
}

fn ws(files: &[(&str, Option<&str>)]) -> Vec<WorkspaceFile> {
    files
        .iter()
        .map(|(p, s)| WorkspaceFile { path: p.to_string(), source: s.map(|t| t.to_string()) })
        .collect()
}

#[test]
fn coupling_index_is_the_degree_over_twice_the_largest() {
    let files = ws(&[
        ("/repo/src/app.ts", Some("import a from './util';\nimport b from './store';\n")),
        ("/repo/src/util.ts", Some("import s from './store';\n")),
        ("/repo/src/store.ts", Some("")),
        ("/repo/src/lonely.ts", Some("const x = 1;\n")),
        ("/repo/src/broken.ts", None),
    ]);
    // degrees: app 2 out; util 1 in, 1 out; store 2 in; the largest is 2
    assert_eq!(compute_coupling_index("src/app.ts", "/repo", &files).units, 50_000_000);
    assert_eq!(compute_coupling_index("src/util.ts", "/repo", &files).units, 50_000_000);
    assert_eq!(compute_coupling_index("src/store.ts", "/repo", &files).units, 50_000_000);
    assert_eq!(compute_coupling_index("src/lonely.ts", "/repo", &files).units, 0);
    assert_eq!(compute_coupling_index("src/unknown.ts", "/repo", &files).units, 0);
}

#[test]
fn coupling_index_counts_imports_that_lead_nowhere() {
    let files = ws(&[
        ("/repo/a.py", Some("import os\nimport sys\nimport b\n")),
        ("/repo/b.py", Some("")),
    ]);
    // a: 3 out; b: 1 in
    assert_eq!(compute_coupling_index("a.py", "/repo", &files).units, 50_000_000);
    assert_eq!(compute_coupling_index("b.py", "/repo", &files).units, 16_666_666);
}

#[test]
fn coupling_index_is_zero_without_imports() {
    let files = ws(&[("/repo/a.rs", Some("fn main() {}\n")), ("/repo/b.rs", None)]);
    assert_eq!(compute_coupling_index("a.rs", "/repo", &files).units, 0);
    assert_eq!(compute_coupling_index("a.rs", "/repo", &vec![]).units, 0);
}

fn no_weights() -> WeightSettings {
    WeightSettings {
        churn_rate: None,
        code_smell_density: None,
        coupling_index: None,
        change_coupling: None,
        test_coverage_gap: None,
        knowledge_concentration: None,
        cyclomatic_complexity: None,
        decision_staleness: None,
        others: Fixed::from_units(0),
    }
}

#[test]
fn history_window_is_kept_between_a_week_and_a_year() {
    let w = no_weights();
    assert_eq!(load_effective_analysis_settings(None, &w).history_days, 90);
    assert_eq!(load_effective_analysis_settings(Some(0), &w).history_days, 7);
    assert_eq!(load_effective_analysis_settings(Some(7), &w).history_days, 7);
    assert_eq!(load_effective_analysis_settings(Some(30), &w).history_days, 30);
    assert_eq!(load_effective_analysis_settings(Some(365), &w).history_days, 365);
    assert_eq!(load_effective_analysis_settings(Some(u64::MAX), &w).history_days, 365);
}

#[test]
fn weights_are_made_to_add_up_to_one() {
    let defaults = load_effective_analysis_settings(None, &no_weights()).weights;
    assert_eq!(defaults.churn_rate.units, 220_000);
    assert_eq!(defaults.decision_staleness.units, 30_000);

    let mut given = no_weights();
    given.churn_rate = Some(Fixed::from_units(1_000_000));
    // the sum is 1.78
    let w = load_effective_analysis_settings(None, &given).weights;
    assert_eq!(w.churn_rate.units, 561_797);
    assert_eq!(w.code_smell_density.units, 112_359);
    assert_eq!(w.decision_staleness.units, 16_853);

    let zero = Some(Fixed::from_units(0));
    let all_zero = WeightSettings {
        churn_rate: zero,
        code_smell_density: zero,
        coupling_index: zero,
        change_coupling: zero,
        test_coverage_gap: zero,
        knowledge_concentration: zero,
        cyclomatic_complexity: zero,
        decision_staleness: zero,
        others: Fixed::from_units(0),
    };
    let w = load_effective_analysis_settings(None, &all_zero).weights;
    assert_eq!(w.churn_rate.units, 220_000);

    let mut with_others = no_weights();
    with_others.others = Fixed::from_units(1_000_000);
    let w = load_effective_analysis_settings(None, &with_others).weights;
    assert_eq!(w.churn_rate.units, 110_000);
}
