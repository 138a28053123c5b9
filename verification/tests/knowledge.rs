use debtlens::analysis::knowledge::{
    analyze_knowledge, compute_knowledge_concentration, AuthorLines, BlameData, BlameHunk,
    BlamedFile,
};
use debtlens::fixed::Fixed;

fn value(x: Fixed) -> f64 {
    x.units as f64 / 1_000_000.0
}

#[test]
fn returns_zero_for_unknown_file() {
    let blame = BlameData::new();
    assert_eq!(value(compute_knowledge_concentration(&blame, "unknown.rs")), 0.0);
}

#[test]
fn returns_zero_when_balanced_two_authors() {
    let mut authors = AuthorLines::new();
    authors.insert("Alice".to_string(), 50);
    authors.insert("Bob".to_string(), 50);
    let mut blame = BlameData::new();
    blame.insert("lib.rs".to_string(), authors);

    assert_eq!(value(compute_knowledge_concentration(&blame, "lib.rs")), 0.0);
}

#[test]
fn returns_100_for_single_author() {
    let mut authors = AuthorLines::new();
    authors.insert("Alice".to_string(), 100);
    let mut blame = BlameData::new();
    blame.insert("lib.rs".to_string(), authors);

    assert_eq!(value(compute_knowledge_concentration(&blame, "lib.rs")), 100.0);
}

#[test]
fn partial_concentration() {
    // 75% concentration → (0.75 - 0.5) / 0.5 * 100 = 50.0
    let mut authors = AuthorLines::new();
    authors.insert("Alice".to_string(), 75);
    authors.insert("Bob".to_string(), 25);
    let mut blame = BlameData::new();
    blame.insert("lib.rs".to_string(), authors);

    let score = value(compute_knowledge_concentration(&blame, "lib.rs"));
    assert!((score - 50.0).abs() < 1e-6, "Expected 50.0, got {score}");
    assert_eq!(compute_knowledge_concentration(&blame, "lib.rs").units, 50_000_000);
}

#[test]
fn a_file_without_lines_scores_nothing() {
    let mut authors = AuthorLines::new();
    authors.insert("Alice".to_string(), 0);
    let mut blame = BlameData::new();
    blame.insert("lib.rs".to_string(), authors);
    blame.insert("empty.rs".to_string(), AuthorLines::new());
    assert_eq!(compute_knowledge_concentration(&blame, "lib.rs").units, 0);
    assert_eq!(compute_knowledge_concentration(&blame, "empty.rs").units, 0);
}

#[test]
fn share_of_two_thirds_scores_a_third() {
    let mut authors = AuthorLines::new();
    authors.insert("Alice".to_string(), 2);
    authors.insert("Bob".to_string(), 1);
    let mut blame = BlameData::new();
    blame.insert("lib.rs".to_string(), authors);
    // (2 * 2 - 3) / 3 * 100, rounded down to the millionth
    assert_eq!(compute_knowledge_concentration(&blame, "lib.rs").units, 33_333_333);
}

fn hunk(author: &str, lines: usize) -> BlameHunk {
    BlameHunk { author: author.to_string(), lines }
}

#[test]
fn blame_adds_up_hunks_per_author_of_source_files() {
    let files = vec![
        BlamedFile {
            path: "src/a.rs".to_string(),
            hunks: vec![hunk("Alice", 10), hunk("Bob", 5), hunk("Alice", 15)],
        },
        BlamedFile { path: "README.md".to_string(), hunks: vec![hunk("Alice", 3)] },
        BlamedFile { path: "b.py".to_string(), hunks: vec![] },
    ];
    let blame = analyze_knowledge(&files);
    let a = blame.get("src/a.rs").unwrap();
    assert_eq!(a.count("Alice"), 25);
    assert_eq!(a.count("Bob"), 5);
    assert_eq!(a.count("Carol"), 0);
    assert!(blame.get("README.md").is_none());
    assert_eq!(blame.get("b.py").unwrap().len(), 0);
    // 25 of 30 lines: (50 - 30) / 30 * 100
    assert_eq!(compute_knowledge_concentration(&blame, "src/a.rs").units, 66_666_666);
}
