use debtlens::analysis::churn::ChurnData;
use debtlens::analysis::knowledge::{AuthorLines, BlameData};
use debtlens::analysis::summary::{run_ast_analysis, run_git_analysis, SourceFile};
use debtlens::fixed::Fixed;
use debtlens::models::file_score::{empty_components, FileScore};
use debtlens::models::workspace::WorkspaceMeta;
use debtlens::paths::is_skipped_entry;
use debtlens::store::{may_pin, FileScoreRow};

fn authors(lines: &[(&str, usize)]) -> AuthorLines {
    let mut t = AuthorLines::new();
    for (name, n) in lines {
        t.insert(name.to_string(), *n);
    }
    t
}

#[test]
fn history_summary_counts_changes_and_authors() {
    let mut churn = ChurnData::new();
    churn.insert("a.rs".to_string(), 3);
    churn.insert("b.rs".to_string(), 4);
    let mut blame = BlameData::new();
    blame.insert("a.rs".to_string(), authors(&[("Alice", 5), ("Bob", 9), ("Carol", 5)]));
    blame.insert("b.rs".to_string(), authors(&[("Bob", 1), ("Dave", 2)]));
    blame.insert("c.rs".to_string(), authors(&[]));
    let pairs = vec![("a.rs".to_string(), "b.rs".to_string(), 2)];
    let data = run_git_analysis(churn, &blame, pairs);
    assert_eq!(data.commit_count, 7);
    assert_eq!(data.author_count, 4);
    assert_eq!(data.churn.count("b.rs"), 4);
    assert_eq!(data.co_changes.len(), 1);
    assert_eq!(
        data.blame_summary.get("a.rs").unwrap(),
        &vec![("Bob".to_string(), 9), ("Alice".to_string(), 5), ("Carol".to_string(), 5)]
    );
    assert_eq!(
        data.blame_summary.get("b.rs").unwrap(),
        &vec![("Dave".to_string(), 2), ("Bob".to_string(), 1)]
    );
    assert!(data.blame_summary.get("c.rs").unwrap().is_empty());
    assert_eq!(data.blame_summary.len(), 3);
}

#[test]
fn history_summary_of_nothing() {
    let data = run_git_analysis(ChurnData::new(), &BlameData::new(), vec![]);
    assert_eq!(data.commit_count, 0);
    assert_eq!(data.author_count, 0);
    assert_eq!(data.blame_summary.len(), 0);
}

#[test]
fn commit_count_stops_at_the_largest_number() {
    let mut churn = ChurnData::new();
    churn.insert("a.rs".to_string(), usize::MAX);
    churn.insert("b.rs".to_string(), 1);
    let data = run_git_analysis(churn, &BlameData::new(), vec![]);
    assert_eq!(data.commit_count, usize::MAX);
}

#[test]
fn source_analysis_goes_by_the_path() {
    let files = vec![
        SourceFile {
            path: "/repo/a.ts".to_string(),
            source: "import x from './x';\n// TODO\nfunction f(a) {\n  if (a) {\n  }\n}\n"
                .to_string(),
        },
        SourceFile { path: "/repo/b.py".to_string(), source: "old = 1\n".to_string() },
        SourceFile { path: "/repo/b.py".to_string(), source: "import os\n".to_string() },
    ];
    let data = run_ast_analysis(&files);
    let smells = data.smells.get("/repo/a.ts").unwrap();
    assert_eq!(smells.todo_fixme, 1);
    assert_eq!(smells.loc, 6);
    let complexity = data.complexity.get("/repo/a.ts").unwrap();
    assert_eq!(complexity.functions.len(), 1);
    assert_eq!(complexity.functions[0].name, "f");
    assert_eq!(complexity.functions[0].complexity, 2);
    assert_eq!(complexity.average.units, 2_000_000);
    let imports = data.imports.get("/repo/a.ts").unwrap();
    assert_eq!(imports.imports, vec!["./x".to_string()]);
    assert!(imports.imported_by.is_empty());
    // of two files with one path the later counts
    assert_eq!(data.imports.get("/repo/b.py").unwrap().imports, vec!["os".to_string()]);
    assert_eq!(data.smells.get("/repo/b.py").unwrap().loc, 1);
    assert_eq!(data.smells.len(), 2);
    assert!(data.smells.get("/repo/c.rs").is_none());
}

#[test]
fn walk_passes_over_hidden_and_build_directories() {
    for name in [".git", ".", ".env", "node_modules", "target", "__pycache__", "vendor", "dist", "build"] {
        assert!(is_skipped_entry(name), "{name}");
    }
    for name in ["src", "", "Target", "builds", "node_module", "a.rs", "lib.target"] {
        assert!(!is_skipped_entry(name), "{name}");
    }
}

#[test]
fn workspace_is_named_after_its_directory() {
    let meta = WorkspaceMeta::describe("/home/me/debt".to_string(), Some("dev".to_string()), 12, Some(99));
    assert_eq!(meta.path, "/home/me/debt");
    assert_eq!(meta.repo_name, "debt");
    assert_eq!(meta.branch, "dev");
    assert_eq!(meta.file_count, 12);
    assert_eq!(meta.last_analysis_at, Some(99));
    let bare = WorkspaceMeta::describe("/".to_string(), None, 0, None);
    assert_eq!(bare.repo_name, "unknown");
    assert_eq!(bare.branch, "main");
    assert_eq!(bare.last_analysis_at, None);
}

fn score() -> FileScore {
    FileScore {
        path: "/tmp/example.rs".to_string(),
        relative_path: "src/example.rs".to_string(),
        composite_score: Fixed::from_units(42_500_000),
        components: empty_components(),
        loc: 100,
        language: "rust".to_string(),
        last_modified: 123,
        supervision_status: "none".to_string(),
    }
}

#[test]
fn stored_score_comes_back_as_it_was() {
    let row = FileScoreRow::from_score(score());
    assert_eq!(row.path, "/tmp/example.rs");
    assert_eq!(row.mtime_cached, 123);
    assert_eq!(row.loc, 100);
    let loaded = row.into_score();
    assert_eq!(loaded.relative_path, "src/example.rs");
    assert_eq!(loaded.composite_score, Fixed::from_units(42_500_000));
    assert_eq!(loaded.loc, 100);
    assert_eq!(loaded.path, "/tmp/example.rs");
    assert_eq!(loaded.language, "rust");
    assert_eq!(loaded.last_modified, 123);
    assert_eq!(loaded.supervision_status, "none");
}

#[test]
fn unreadable_components_give_way_to_zeros() {
    let mut row = FileScoreRow::from_score(score());
    row.components = None;
    let loaded = row.into_score();
    assert_eq!(loaded.composite_score, Fixed::from_units(42_500_000));
    let c = &loaded.components;
    for v in [
        &c.churn_rate,
        &c.code_smell_density,
        &c.coupling_index,
        &c.change_coupling,
        &c.test_coverage_gap,
        &c.knowledge_concentration,
        &c.cyclomatic_complexity,
        &c.decision_staleness,
    ] {
        assert_eq!(v.raw_score.units, 0);
        assert_eq!(v.weight.units, 0);
        assert_eq!(v.contribution.units, 0);
        assert!(v.details.is_empty());
    }
}

#[test]
fn watchlist_takes_five_files() {
    assert!(may_pin(0, false));
    assert!(may_pin(4, false));
    assert!(!may_pin(5, false));
    assert!(may_pin(5, true));
    assert!(!may_pin(6, false));
}
