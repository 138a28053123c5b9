use chrono::Datelike;
use debtlens::analysis::churn::ChurnData;
use debtlens::analysis::coupling::CoChangeResult;
use debtlens::analysis::coverage::CoverageReport;
use debtlens::analysis::import_graph::WorkspaceFile;
use debtlens::analysis::knowledge::{AuthorLines, BlameData};
use debtlens::analysis::smells::FileSmells;
use debtlens::analysis::staleness::AdrRecord;
use debtlens::fixed::Fixed;
use debtlens::models::file_score::{
    default_weights, empty_components, ComponentScore, FileScore, ScoreComponents, Weights,
};
use debtlens::scoring::{
    aggregate, build_analysis_result, composite_of, compute_complexity_score,
    compute_smell_score, progress_at, score_file, AnalysisInputs, FileFacts, RawScores,
};
use debtlens::table::Table;

fn value(x: Fixed) -> f64 {
    x.units as f64 / 1_000_000.0
}

fn fixed(x: f64) -> Fixed {
    Fixed::from_units((x * 1_000_000.0).round() as u64)
}

fn zero_component() -> ComponentScore {
    ComponentScore { raw_score: fixed(0.0), weight: fixed(0.0), contribution: fixed(0.0), details: vec![] }
}

#[test]
fn build_result_counts_high_debt_files() {
    let file = FileScore {
        path: "/tmp/repo/src/main.rs".to_string(),
        relative_path: "src/main.rs".to_string(),
        composite_score: fixed(80.0),
        components: ScoreComponents {
            churn_rate: zero_component(),
            code_smell_density: zero_component(),
            coupling_index: zero_component(),
            change_coupling: zero_component(),
            test_coverage_gap: zero_component(),
            knowledge_concentration: zero_component(),
            cyclomatic_complexity: zero_component(),
            decision_staleness: zero_component(),
        },
        loc: 1,
        language: "rust".to_string(),
        last_modified: 0,
        supervision_status: "none".to_string(),
    };

    let result = build_analysis_result(vec![file], 10);
    assert_eq!(result.file_count, 1);
    assert_eq!(result.high_debt_count, 1);
    assert_eq!(value(result.workspace_score), 80.0);
}

fn smells_with_total(total: usize, loc: usize) -> FileSmells {
    FileSmells {
        god_function: 0,
        deep_nesting: 0,
        long_param_list: 0,
        duplicate_block: 0,
        dead_import: 0,
        magic_number: 0,
        empty_catch: 0,
        todo_fixme: 0,
        total,
        loc,
    }
}

#[test]
fn smell_score_is_bounded() {
    let smells = smells_with_total(500, 10);

    assert_eq!(value(compute_smell_score(&smells, 0)), 0.0);
    assert_eq!(value(compute_smell_score(&smells, 10)), 100.0);
}

#[test]
fn smell_score_is_five_thousand_times_the_density() {
    // 42 smells in 800 lines
    assert_eq!(compute_smell_score(&smells_with_total(42, 800), 800).units, 100_000_000);
    // one smell in a hundred lines: 50 points
    assert_eq!(compute_smell_score(&smells_with_total(1, 100), 100).units, 50_000_000);
    // one smell in fifty lines: just saturated
    assert_eq!(compute_smell_score(&smells_with_total(1, 50), 50).units, 100_000_000);
    assert_eq!(compute_smell_score(&smells_with_total(1, 51), 51).units, 98_039_215);
    assert_eq!(compute_smell_score(&smells_with_total(0, 51), 51).units, 0);
}

#[test]
fn complexity_score_saturates_at_a_mean_of_twenty() {
    assert_eq!(compute_complexity_score(fixed(0.0)).units, 0);
    assert_eq!(compute_complexity_score(fixed(2.5)).units, 12_500_000);
    assert_eq!(compute_complexity_score(fixed(20.0)).units, 100_000_000);
    assert_eq!(compute_complexity_score(fixed(1e9)).units, 100_000_000);
}

fn file_with_score(path: &str, relative: &str, score: f64) -> FileScore {
    FileScore {
        path: path.to_string(),
        relative_path: relative.to_string(),
        composite_score: fixed(score),
        components: empty_components(),
        loc: 1,
        language: "rust".to_string(),
        last_modified: 0,
        supervision_status: "none".to_string(),
    }
}

#[test]
fn result_of_no_files_is_all_zero() {
    let result = build_analysis_result(vec![], 7);
    assert_eq!(result.file_count, 0);
    assert_eq!(result.high_debt_count, 0);
    assert_eq!(result.workspace_score.units, 0);
    assert_eq!(result.duration_ms, 7);
}

#[test]
fn workspace_score_is_the_mean_and_high_debt_is_above_sixty_five() {
    let files = vec![
        file_with_score("/r/a.rs", "a.rs", 65.0),
        file_with_score("/r/b.rs", "b.rs", 65.000001),
        file_with_score("/r/c.rs", "c.rs", 10.0),
    ];
    let result = build_analysis_result(files, 0);
    assert_eq!(result.file_count, 3);
    assert_eq!(result.high_debt_count, 1);
    // (65 + 65.000001 + 10) / 3, rounded down
    assert_eq!(result.workspace_score.units, 46_666_667);
    assert_eq!(result.files.len(), 3);
    assert_eq!(result.files[1].relative_path, "b.rs");
}

#[test]
fn default_weights_add_up_to_one() {
    let w = default_weights();
    assert_eq!(w.churn_rate.units, 220_000);
    assert_eq!(w.code_smell_density.units, 200_000);
    assert_eq!(w.coupling_index.units, 180_000);
    assert_eq!(w.change_coupling.units, 120_000);
    assert_eq!(w.test_coverage_gap.units, 120_000);
    assert_eq!(w.knowledge_concentration.units, 80_000);
    assert_eq!(w.cyclomatic_complexity.units, 50_000);
    assert_eq!(w.decision_staleness.units, 30_000);
    let sum = w.churn_rate.units
        + w.code_smell_density.units
        + w.coupling_index.units
        + w.change_coupling.units
        + w.test_coverage_gap.units
        + w.knowledge_concentration.units
        + w.cyclomatic_complexity.units
        + w.decision_staleness.units;
    assert_eq!(sum, 1_000_000);
}

fn contributions(c: &ScoreComponents) -> u64 {
    c.churn_rate.contribution.units
        + c.code_smell_density.contribution.units
        + c.coupling_index.contribution.units
        + c.change_coupling.contribution.units
        + c.test_coverage_gap.contribution.units
        + c.knowledge_concentration.contribution.units
        + c.cyclomatic_complexity.contribution.units
        + c.decision_staleness.contribution.units
}

#[test]
fn aggregate_weighs_each_raw_score() {
    let raw = RawScores {
        churn_rate: fixed(50.0),
        code_smell_density: fixed(100.0),
        coupling_index: fixed(0.0),
        change_coupling: fixed(76.0),
        test_coverage_gap: fixed(80.0),
        knowledge_concentration: fixed(33.333333),
        cyclomatic_complexity: fixed(12.5),
        decision_staleness: fixed(50.0),
    };
    let c = aggregate(raw, default_weights(), vec!["s".to_string()], vec!["c".to_string()]);
    assert_eq!(c.churn_rate.contribution.units, 11_000_000);
    assert_eq!(c.code_smell_density.contribution.units, 20_000_000);
    assert_eq!(c.coupling_index.contribution.units, 0);
    assert_eq!(c.change_coupling.contribution.units, 9_120_000);
    assert_eq!(c.test_coverage_gap.contribution.units, 9_600_000);
    // 33.333333 * 0.08, rounded down
    assert_eq!(c.knowledge_concentration.contribution.units, 2_666_666);
    assert_eq!(c.cyclomatic_complexity.contribution.units, 625_000);
    assert_eq!(c.decision_staleness.contribution.units, 1_500_000);
    assert_eq!(c.churn_rate.raw_score, fixed(50.0));
    assert_eq!(c.churn_rate.weight.units, 220_000);
    assert_eq!(c.code_smell_density.details, vec!["s".to_string()]);
    assert_eq!(c.cyclomatic_complexity.details, vec!["c".to_string()]);
    assert!(c.churn_rate.details.is_empty());
    assert_eq!(composite_of(&c).units, contributions(&c));
    assert_eq!(composite_of(&c).units, 54_511_666);
}

fn inputs(weights: Weights) -> AnalysisInputs {
    let mut churn = ChurnData::new();
    churn.insert("src/main.rs".to_string(), 45);
    let mut authors = AuthorLines::new();
    authors.insert("Alice".to_string(), 75);
    authors.insert("Bob".to_string(), 25);
    let mut blame = BlameData::new();
    blame.insert("src/main.rs".to_string(), authors);
    let mut counts = Table::new();
    counts.insert("src/main.rs".to_string(), 10);
    counts.insert("src/util.rs".to_string(), 5);
    let co_changes = CoChangeResult {
        pairs: vec![("src/main.rs".to_string(), "src/util.rs".to_string(), 4)],
        file_change_counts: counts,
    };
    AnalysisInputs {
        history_days: 90,
        weights,
        churn,
        blame,
        co_changes,
        workspace_files: vec![
            WorkspaceFile {
                path: "/repo/src/main.rs".to_string(),
                source: Some("use crate::util;\nfn main() {\n}\n".to_string()),
            },
            WorkspaceFile { path: "/repo/src/util.rs".to_string(), source: Some(String::new()) },
        ],
        today: chrono::NaiveDate::from_ymd_opt(2024, 3, 1).unwrap().num_days_from_ce(),
    }
}

fn facts() -> FileFacts {
    FileFacts {
        path: "/repo/src/main.rs".to_string(),
        source: "use crate::util;\nfn main() {\n    if a && b {\n        run(42);\n    }\n}\n"
            .to_string(),
        last_modified: 1_700_000_000,
        coverage: CoverageReport::Absent,
        has_test_file: true,
        adr: AdrRecord::Text("# Decision\nlast_reviewed_at: 2024-01-01\n".to_string()),
    }
}

#[test]
fn score_file_runs_the_eight_analyzers() {
    let score = score_file("/repo", &facts(), &inputs(default_weights()));
    assert_eq!(score.path, "/repo/src/main.rs");
    assert_eq!(score.relative_path, "src/main.rs");
    assert_eq!(score.language, "rust");
    assert_eq!(score.loc, 6);
    assert_eq!(score.last_modified, 1_700_000_000);
    assert_eq!(score.supervision_status, "none");
    let c = &score.components;
    // 45 changes in 90 days
    assert_eq!(c.churn_rate.raw_score.units, 50_000_000);
    // one magic number in six lines
    assert_eq!(c.code_smell_density.raw_score.units, 100_000_000);
    assert_eq!(c.code_smell_density.details, vec!["1 smells in 6 LOC".to_string()]);
    // main.rs imports util.rs: both have degree 1, the largest
    assert_eq!(c.coupling_index.raw_score.units, 50_000_000);
    // 4 co-changes, the peer changed 5 times
    assert_eq!(c.change_coupling.raw_score.units, 80_000_000);
    assert_eq!(c.test_coverage_gap.raw_score.units, 30_000_000);
    assert_eq!(c.knowledge_concentration.raw_score.units, 50_000_000);
    // one function of complexity 1 + `if ` + `&& `
    assert_eq!(c.cyclomatic_complexity.raw_score.units, 15_000_000);
    assert_eq!(c.cyclomatic_complexity.details, vec!["avg complexity: 3.0".to_string()]);
    // reviewed 60 days ago: a fifth of the way from 30 to 180 days
    assert_eq!(c.decision_staleness.raw_score.units, 20_000_000);
    assert_eq!(c.churn_rate.weight.units, 220_000);
    assert_eq!(c.churn_rate.contribution.units, 11_000_000);
    assert_eq!(score.composite_score.units, contributions(c));
    assert_eq!(
        score.composite_score.units,
        11_000_000 + 20_000_000 + 9_000_000 + 9_600_000 + 3_600_000 + 4_000_000 + 750_000 + 600_000
    );
}

#[test]
fn composite_is_the_sum_of_the_contributions_whatever_the_weights() {
    let weights = Weights {
        churn_rate: fixed(1.0),
        code_smell_density: fixed(1.0),
        coupling_index: fixed(0.333333),
        change_coupling: fixed(0.0),
        test_coverage_gap: fixed(0.5),
        knowledge_concentration: fixed(0.123456),
        cyclomatic_complexity: fixed(1.0),
        decision_staleness: fixed(0.000001),
    };
    let score = score_file("/repo", &facts(), &inputs(weights));
    assert_eq!(score.composite_score.units, contributions(&score.components));
    // weights of 1 throughout may take the composite beyond 100
    assert!(score.composite_score.units > 100_000_000);
}

#[test]
fn progress_counts_files_from_one() {
    let p = progress_at(0, 3, "/repo/a.rs");
    assert_eq!(p.current, 1);
    assert_eq!(p.total, 3);
    assert_eq!(p.current_file, "/repo/a.rs");
    assert_eq!(progress_at(2, 3, "x").current, 3);
}
