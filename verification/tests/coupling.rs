use debtlens::analysis::churn::CommitFacts;
use debtlens::analysis::coupling::{analyze_co_changes, compute_change_coupling, CoChangeResult};
use debtlens::analysis::imports::extract_imports;
use debtlens::fixed::Fixed;
use debtlens::table::Table;

fn value(x: Fixed) -> f64 {
    x.units as f64 / 1_000_000.0
}

fn make_co_change_result(
    pairs: Vec<(String, String, usize)>,
    file_counts: Vec<(String, usize)>,
) -> CoChangeResult {
    let mut file_change_counts = Table::new();
    for (path, count) in file_counts {
        file_change_counts.insert(path, count);
    }
    CoChangeResult { pairs, file_change_counts }
}

#[test]
fn change_coupling_is_zero_when_file_has_no_pairs() {
    let result = make_co_change_result(
        vec![("a.rs".to_string(), "b.rs".to_string(), 3)],
        vec![("a.rs".to_string(), 5), ("b.rs".to_string(), 5)],
    );
    assert_eq!(value(compute_change_coupling("c.rs", &result)), 0.0);
}

#[test]
fn change_coupling_uses_spec_formula() {
    // File A changed 10 times, file B changed 5 times, they co-changed 4 times.
    // ratio = 4 / min(10, 5) = 4/5 = 0.8 => score = 80.0
    let result = make_co_change_result(
        vec![("a.rs".to_string(), "b.rs".to_string(), 4)],
        vec![("a.rs".to_string(), 10), ("b.rs".to_string(), 5)],
    );
    let score = value(compute_change_coupling("a.rs", &result));
    assert!((score - 80.0).abs() < 1e-6, "Expected 80.0, got {score}");
}

#[test]
fn change_coupling_averages_top_five() {
    // target changed 10 times, each peer changed 10 times
    // co-changes: 2, 4, 6, 8, 10, 10  => ratios: 0.2, 0.4, 0.6, 0.8, 1.0, 1.0
    // top 5 = 1.0, 1.0, 0.8, 0.6, 0.4 => avg 0.76 => score 76.0
    let result = make_co_change_result(
        vec![
            ("target.rs".to_string(), "a.rs".to_string(), 2),
            ("target.rs".to_string(), "b.rs".to_string(), 4),
            ("target.rs".to_string(), "c.rs".to_string(), 6),
            ("target.rs".to_string(), "d.rs".to_string(), 8),
            ("target.rs".to_string(), "e.rs".to_string(), 10),
            ("target.rs".to_string(), "f.rs".to_string(), 10),
        ],
        vec![
            ("target.rs".to_string(), 10),
            ("a.rs".to_string(), 10),
            ("b.rs".to_string(), 10),
            ("c.rs".to_string(), 10),
            ("d.rs".to_string(), 10),
            ("e.rs".to_string(), 10),
            ("f.rs".to_string(), 10),
        ],
    );

    let score = value(compute_change_coupling("target.rs", &result));
    assert!((score - 76.0).abs() < 1e-6, "Expected 76.0, got {score}");
    assert_eq!(compute_change_coupling("target.rs", &result).units, 76_000_000);
}

#[test]
fn extracts_imports_for_multiple_languages() {
    let js = "import x from './x';\nconst y = require(\"./y\");";
    let rust = "use crate::module::Type;";

    let js_imports = extract_imports(js, "typescript");
    let rust_imports = extract_imports(rust, "rust");

    assert_eq!(js_imports, vec!["./x".to_string(), "./y".to_string()]);
    assert_eq!(rust_imports, vec!["crate::module::Type".to_string()]);
}

#[test]
fn extracts_python_and_go_imports() {
    let py = "from os.path import join\nimport sys, re\nx = 1\n  import json\n";
    assert_eq!(
        extract_imports(py, "python"),
        vec!["os.path".to_string(), "sys".to_string(), "json".to_string()]
    );
    let go = "import \"fmt\"\n\"os/exec\"\nfunc main() {}\n";
    assert_eq!(extract_imports(go, "go"), vec!["fmt".to_string(), "os/exec".to_string()]);
}

#[test]
fn rust_imports_drop_braces_and_visibility() {
    let rust = "pub use crate::a::{B, C};\nuse std::fmt;;\nuse ;\nlet used = 1;\n";
    assert_eq!(
        extract_imports(rust, "rust"),
        vec!["crate::a".to_string(), "std::fmt".to_string()]
    );
}

#[test]
fn an_import_without_quotes_is_none() {
    assert_eq!(extract_imports("import x from y;\n", "javascript"), Vec::<String>::new());
    // a single quote does not close
    assert_eq!(extract_imports("import x from 'y;\n", "javascript"), Vec::<String>::new());
    // single quotes win over double quotes
    assert_eq!(
        extract_imports("import \"a\" from 'b';\n", "java"),
        vec!["b".to_string()]
    );
}

#[test]
fn ratio_is_capped_at_one_and_unknown_files_count_once() {
    // no change counts at all: each file counts as changed once
    let result =
        make_co_change_result(vec![("a.rs".to_string(), "b.rs".to_string(), 3)], vec![]);
    assert_eq!(compute_change_coupling("a.rs", &result).units, 100_000_000);
    assert_eq!(compute_change_coupling("b.rs", &result).units, 100_000_000);
    // a quotient is rounded down to the millionth
    let result = make_co_change_result(
        vec![("a.rs".to_string(), "b.rs".to_string(), 1)],
        vec![("a.rs".to_string(), 3), ("b.rs".to_string(), 7)],
    );
    assert_eq!(compute_change_coupling("a.rs", &result).units, 33_333_300);
}

fn commit(time: i64, files: &[&str]) -> CommitFacts {
    CommitFacts { time, files: files.iter().map(|f| f.to_string()).collect() }
}

fn pair(result: &CoChangeResult, a: &str, b: &str) -> Option<usize> {
    result.pairs.iter().find(|p| p.0 == a && p.1 == b).map(|p| p.2)
}

#[test]
fn co_changes_count_pairs_of_source_files_in_the_window() {
    let now = 1_000_000_000;
    let day = 86_400;
    let commits = vec![
        commit(now - day, &["b.rs", "a.rs", "README.md"]),
        commit(now - 2 * day, &["a.rs", "b.rs", "c.py"]),
        commit(now - 40 * day, &["a.rs", "b.rs"]),
    ];
    let result = analyze_co_changes(&commits, now, 30);
    assert_eq!(pair(&result, "a.rs", "b.rs"), Some(2));
    assert_eq!(pair(&result, "b.rs", "a.rs"), None);
    assert_eq!(pair(&result, "a.rs", "c.py"), Some(1));
    assert_eq!(pair(&result, "b.rs", "c.py"), Some(1));
    assert_eq!(result.pairs.len(), 3);
    assert_eq!(result.file_change_counts.count("a.rs"), 2);
    assert_eq!(result.file_change_counts.count("c.py"), 1);
    assert_eq!(result.file_change_counts.count("README.md"), 0);
    // a.rs: ratios 2/2 and 1/1
    assert_eq!(compute_change_coupling("a.rs", &result).units, 100_000_000);
}
