//! The score aggregator: from the raw scores of the eight analyzers to the
//! composite score of a file, and from the scores of the files to that of
//! the workspace.

use vstd::prelude::*;
use vstd::string::StringExecFns;
use crate::analysis::churn::{churn_units, compute_file_churn, ChurnData};
use crate::analysis::complexity::{function_models, mean_complexity_units, scan_complexity};
use crate::analysis::coupling::{
    change_coupling_units, compute_change_coupling, peer_ratios, CoChangeResult,
};
use crate::analysis::coverage::{compute_coverage_gap, coverage_units, CoverageReport};
use crate::analysis::import_graph::{compute_coupling_index, coupling_index_units, WorkspaceFile};
use crate::analysis::knowledge::{
    compute_knowledge_concentration, knowledge_units, most_lines, total_lines, BlameData,
};
use crate::analysis::smells::{scan_smells, smell_report, FileSmells};
use crate::analysis::staleness::{compute_staleness, staleness_units, AdrRecord};
use crate::fixed::{
    capped_ratio, lemma_product_bound, product_units, ratio_units, Fixed, FULL_SCORE, SCALE,
};
use crate::language::tag_of;
use crate::models::file_score::{
    AnalysisProgress, AnalysisResult, ComponentScore, FileScore,
    ScoreComponents, Weights, HIGH_DEBT_UNITS,
};
use crate::paths::{language_at, language_of_path, relative_path, to_relative_path};
use crate::text::{
    append, append_text, decimal, lines_of, split_lines, texts, to_chars, to_decimal, to_string,
};

verus! {

/// How many units of score one smell per line is worth: 5000 points.
pub const SMELL_FACTOR: u64 = 5_000_000_000;

/// What is known of the workspace as a whole, shared by the scoring of every
/// file of one run.
#[derive(Debug)]
pub struct AnalysisInputs {
    /// The length of the history window, in days.
    pub history_days: u32,
    /// The weights of the analyzers.
    pub weights: Weights,
    /// For each path, its changes in the history window.
    pub churn: ChurnData,
    /// For each path, its authors and their lines.
    pub blame: BlameData,
    /// The files that changed together.
    pub co_changes: CoChangeResult,
    /// The files of the workspace, with their texts.
    pub workspace_files: Vec<WorkspaceFile>,
    /// The day of the run, as a day number of the proleptic Gregorian
    /// calendar.
    pub today: i32,
}

/// What is known of one file when it is scored.
#[derive(Debug)]
pub struct FileFacts {
    /// The path of the file.
    pub path: String,
    /// The text of the file.
    pub source: String,
    /// When the file was last modified, in seconds since the epoch.
    pub last_modified: i64,
    /// The coverage report of the workspace.
    pub coverage: CoverageReport,
    /// Whether one of the places where a test of the file is looked for holds
    /// a file.
    pub has_test_file: bool,
    /// The decision record of the file.
    pub adr: AdrRecord,
}

/// The raw scores of the eight analyzers for one file.
#[derive(Clone, Copy, Debug, PartialEq, Eq, Structural)]
pub struct RawScores {
    pub churn_rate: Fixed,
    pub code_smell_density: Fixed,
    pub coupling_index: Fixed,
    pub change_coupling: Fixed,
    pub test_coverage_gap: Fixed,
    pub knowledge_concentration: Fixed,
    pub cyclomatic_complexity: Fixed,
    pub decision_staleness: Fixed,
}

impl RawScores {
    /// Whether each score is at most 100.
    pub open spec fn wf(&self) -> bool {
        &&& self.churn_rate.units <= FULL_SCORE
        &&& self.code_smell_density.units <= FULL_SCORE
        &&& self.coupling_index.units <= FULL_SCORE
        &&& self.change_coupling.units <= FULL_SCORE
        &&& self.test_coverage_gap.units <= FULL_SCORE
        &&& self.knowledge_concentration.units <= FULL_SCORE
        &&& self.cyclomatic_complexity.units <= FULL_SCORE
        &&& self.decision_staleness.units <= FULL_SCORE
    }
}

/// The smell score, in units, of a file of `loc` lines with `total` smells:
/// 5000 times the smells per line, at most 100, and 0 for a file without
/// lines.
pub open spec fn smell_units(total: usize, loc: usize) -> nat {
    if loc == 0 {
        0
    } else {
        capped_ratio(total as nat, loc as nat, SMELL_FACTOR as nat, FULL_SCORE as nat)
    }
}

/// A file without lines has a smell score of 0, however many smells are
/// counted.
pub proof fn lemma_smell_score_of_no_lines(total: usize)
    ensures
        smell_units(total, 0) == 0,
{
}

/// The smell score is 100 once there is a smell for every fifty lines.
pub proof fn lemma_smell_score_saturates(total: usize, loc: usize)
    requires
        loc > 0,
        total * 50 >= loc,
    ensures
        smell_units(total, loc) == FULL_SCORE,
{
    assert((total * 5_000_000_000) / (loc as int) >= 100_000_000) by (nonlinear_arith)
        requires
            loc > 0,
            total * 50 >= loc,
    ;
}

/// The complexity score, in units, of a file whose functions have the mean
/// complexity `average`: a mean of 20 or more scores 100.
pub open spec fn complexity_units(average: nat) -> nat {
    if average * 5 >= FULL_SCORE {
        FULL_SCORE as nat
    } else {
        average * 5
    }
}

/// The evidence of the smell score: the number of smells and of lines.
pub open spec fn smell_evidence(total: usize, loc: usize) -> Seq<char> {
    decimal(total as nat) + " smells in "@ + decimal(loc as nat) + " LOC"@
}

/// The evidence of the complexity score: the mean complexity, rounded to a
/// tenth, a half going up.
pub open spec fn complexity_evidence(average: nat) -> Seq<char> {
    let tenths = (average + 50_000) / 100_000;
    "avg complexity: "@ + decimal(tenths / 10) + "."@ + decimal(tenths % 10)
}

/// The raw scores of the file `facts` in the workspace at `root`.
pub open spec fn raw_scores_of(root: Seq<char>, facts: FileFacts, inputs: AnalysisInputs)
    -> RawScores {
    let rel = relative_path(root, facts.path@);
    let lang = language_of_path(facts.path@);
    let lines = lines_of(facts.source@);
    let smell = smell_units(
        smell_report(lines, lang, lines.len() as usize).total,
        lines.len() as usize,
    );
    RawScores {
        churn_rate: Fixed { units: churn_units(inputs.churn.count_spec(rel), inputs.history_days) as u64 },
        code_smell_density: Fixed { units: smell as u64 },
        coupling_index: Fixed {
            units: coupling_index_units(inputs.workspace_files@, root, rel) as u64,
        },
        change_coupling: Fixed {
            units: change_coupling_units(
                peer_ratios(inputs.co_changes, rel, inputs.co_changes.pairs@.len()),
            ) as u64,
        },
        test_coverage_gap: Fixed {
            units: coverage_units(facts.coverage, rel, facts.has_test_file) as u64,
        },
        knowledge_concentration: Fixed {
            units: match inputs.blame.get_spec(rel) {
                Some(authors) => knowledge_units(
                    total_lines(authors.entries@),
                    most_lines(authors.entries@),
                ),
                None => 0,
            } as u64,
        },
        cyclomatic_complexity: Fixed {
            units: complexity_units(mean_complexity_units(function_models(lines, lang))) as u64,
        },
        decision_staleness: Fixed {
            units: staleness_units(facts.adr, Fixed { units: smell as u64 }, inputs.today) as u64,
        },
    }
}

/// Whether `c` is the verdict with the raw score `raw` and the weight
/// `weight`: its contribution is their product, rounded down.
pub open spec fn is_verdict(c: ComponentScore, raw: Fixed, weight: Fixed) -> bool {
    &&& c.raw_score == raw
    &&& c.weight == weight
    &&& c.contribution.units == product_units(raw.units as nat, weight.units as nat)
}

/// Whether `c` holds the verdicts with the raw scores `raw` and the weights
/// `w`.
pub open spec fn is_aggregate_of(c: ScoreComponents, raw: RawScores, w: Weights) -> bool {
    &&& is_verdict(c.churn_rate, raw.churn_rate, w.churn_rate)
    &&& is_verdict(c.code_smell_density, raw.code_smell_density, w.code_smell_density)
    &&& is_verdict(c.coupling_index, raw.coupling_index, w.coupling_index)
    &&& is_verdict(c.change_coupling, raw.change_coupling, w.change_coupling)
    &&& is_verdict(c.test_coverage_gap, raw.test_coverage_gap, w.test_coverage_gap)
    &&& is_verdict(
        c.knowledge_concentration,
        raw.knowledge_concentration,
        w.knowledge_concentration,
    )
    &&& is_verdict(c.cyclomatic_complexity, raw.cyclomatic_complexity, w.cyclomatic_complexity)
    &&& is_verdict(c.decision_staleness, raw.decision_staleness, w.decision_staleness)
}

/// The sum of the composite scores of `files`, in units.
pub open spec fn composite_sum(files: Seq<FileScore>) -> nat
    decreases files.len(),
{
    if files.len() == 0 {
        0
    } else {
        composite_sum(files.drop_last()) + files.last().composite_score.units as nat
    }
}

/// The number of high-debt files among `files`: those with a composite score
/// above 65.
pub open spec fn high_debt_count(files: Seq<FileScore>) -> nat
    decreases files.len(),
{
    if files.len() == 0 {
        0
    } else {
        high_debt_count(files.drop_last()) + if files.last().is_high_debt() {
            1nat
        } else {
            0nat
        }
    }
}

/// The mean composite score of `files`, in units: 0 where there is none.
pub open spec fn mean_units(files: Seq<FileScore>) -> nat {
    if files.len() == 0 {
        0
    } else {
        composite_sum(files) / files.len()
    }
}

/// Whether `r` sums up the files it holds.
pub open spec fn is_summary(r: AnalysisResult) -> bool {
    &&& r.file_count == r.files@.len()
    &&& r.workspace_score.units == mean_units(r.files@)
    &&& r.high_debt_count == high_debt_count(r.files@)
}

/// The smell score of a file of `loc` lines with the smells `smells`.
pub fn compute_smell_score(smells: &FileSmells, loc: usize) -> (score: Fixed)
    ensures
        score.units == smell_units(smells.total, loc),
        score.units <= FULL_SCORE,
{
    if loc == 0 {
        return Fixed::zero();
    }
    assert(smells.total * SMELL_FACTOR <= u128::MAX) by (nonlinear_arith)
        requires
            smells.total <= u64::MAX,
            SMELL_FACTOR == 5_000_000_000,
    ;
    Fixed::from_units(ratio_units(smells.total as u128, loc as u128, SMELL_FACTOR, FULL_SCORE))
}

/// The complexity score of a file whose functions have the mean complexity
/// `average`.
pub fn compute_complexity_score(average: Fixed) -> (score: Fixed)
    ensures
        score.units == complexity_units(average.units as nat),
        score.units <= FULL_SCORE,
{
    let scaled: u128 = (average.units as u128) * 5;
    if scaled >= FULL_SCORE as u128 {
        Fixed::from_units(FULL_SCORE)
    } else {
        Fixed::from_units(scaled as u64)
    }
}

/// The verdict with the raw score `raw`, the weight `weight` and the evidence
/// `details`.
pub fn verdict(raw: Fixed, weight: Fixed, details: Vec<String>) -> (c: ComponentScore)
    requires
        raw.units <= FULL_SCORE,
        weight.units <= SCALE,
    ensures
        is_verdict(c, raw, weight),
        c.details == details,
        c.wf(),
        c.contribution.units <= raw.units,
{
    proof {
        lemma_product_bound(raw.units as nat, weight.units as nat);
    }
    let contribution = raw.times(weight);
    ComponentScore { raw_score: raw, weight, contribution, details }
}

/// Weighs the raw scores `raw` with `weights`: each verdict contributes its
/// raw score times its weight. The smell and the complexity verdict carry
/// their evidence.
pub fn aggregate(
    raw: RawScores,
    weights: Weights,
    smell_details: Vec<String>,
    complexity_details: Vec<String>,
) -> (c: ScoreComponents)
    requires
        raw.wf(),
        weights.wf(),
    ensures
        is_aggregate_of(c, raw, weights),
        c.wf(),
        c.code_smell_density.details == smell_details,
        c.cyclomatic_complexity.details == complexity_details,
        c.churn_rate.details@.len() == 0,
        c.coupling_index.details@.len() == 0,
        c.change_coupling.details@.len() == 0,
        c.test_coverage_gap.details@.len() == 0,
        c.knowledge_concentration.details@.len() == 0,
        c.decision_staleness.details@.len() == 0,
        c.contribution_sum() <= 8 * FULL_SCORE,
{
    ScoreComponents {
        churn_rate: verdict(raw.churn_rate, weights.churn_rate, Vec::new()),
        code_smell_density: verdict(
            raw.code_smell_density,
            weights.code_smell_density,
            smell_details,
        ),
        coupling_index: verdict(raw.coupling_index, weights.coupling_index, Vec::new()),
        change_coupling: verdict(raw.change_coupling, weights.change_coupling, Vec::new()),
        test_coverage_gap: verdict(raw.test_coverage_gap, weights.test_coverage_gap, Vec::new()),
        knowledge_concentration: verdict(
            raw.knowledge_concentration,
            weights.knowledge_concentration,
            Vec::new(),
        ),
        cyclomatic_complexity: verdict(
            raw.cyclomatic_complexity,
            weights.cyclomatic_complexity,
            complexity_details,
        ),
        decision_staleness: verdict(
            raw.decision_staleness,
            weights.decision_staleness,
            Vec::new(),
        ),
    }
}

/// The composite score of the verdicts `c`: the sum of their contributions.
pub fn composite_of(c: &ScoreComponents) -> (score: Fixed)
    requires
        c.contribution_sum() <= u64::MAX,
    ensures
        score.units == c.contribution_sum(),
{
    Fixed::from_units(
        c.churn_rate.contribution.units + c.code_smell_density.contribution.units
            + c.coupling_index.contribution.units + c.change_coupling.contribution.units
            + c.test_coverage_gap.contribution.units + c.knowledge_concentration.contribution.units
            + c.cyclomatic_complexity.contribution.units + c.decision_staleness.contribution.units,
    )
}

/// The evidence of the smell score.
fn smell_details(total: usize, loc: usize) -> (r: Vec<String>)
    ensures
        texts(r@) == seq![smell_evidence(total, loc)],
{
    let mut text = to_decimal(total as u64);
    append_text(&mut text, " smells in ");
    let lines = to_decimal(loc as u64);
    append(&mut text, lines.as_slice());
    append_text(&mut text, " LOC");
    let mut r: Vec<String> = Vec::new();
    r.push(to_string(text.as_slice()));
    assert(texts(r@) =~= seq![smell_evidence(total, loc)]);
    r
}

/// The evidence of the complexity score.
fn complexity_details(average: Fixed) -> (r: Vec<String>)
    ensures
        texts(r@) == seq![complexity_evidence(average.units as nat)],
{
    let tenths: u128 = (average.units as u128 + 50_000) / 100_000;
    let mut text = to_chars("avg complexity: ");
    let whole = to_decimal((tenths / 10) as u64);
    append(&mut text, whole.as_slice());
    append_text(&mut text, ".");
    let part = to_decimal((tenths % 10) as u64);
    append(&mut text, part.as_slice());
    let mut r: Vec<String> = Vec::new();
    r.push(to_string(text.as_slice()));
    assert(texts(r@) =~= seq![complexity_evidence(average.units as nat)]);
    r
}

/// Scores the file `facts` of the workspace at `workspace_path`: runs the
/// eight analyzers on it, weighs their raw scores with the weights of
/// `inputs` and adds up the contributions.
pub fn score_file(workspace_path: &str, facts: &FileFacts, inputs: &AnalysisInputs) -> (score:
    FileScore)
    requires
        inputs.weights.wf(),
    ensures
        score.path@ == facts.path@,
        score.relative_path@ == relative_path(workspace_path@, facts.path@),
        score.language@ == tag_of(language_of_path(facts.path@)),
        score.loc == lines_of(facts.source@).len(),
        score.last_modified == facts.last_modified,
        score.supervision_status@ == "none"@,
        is_aggregate_of(
            score.components,
            raw_scores_of(workspace_path@, *facts, *inputs),
            inputs.weights,
        ),
        raw_scores_of(workspace_path@, *facts, *inputs).wf(),
        score.components.wf(),
        score.is_aggregate(),
        texts(score.components.code_smell_density.details@) == seq![
            smell_evidence(
                smell_report(
                    lines_of(facts.source@),
                    language_of_path(facts.path@),
                    score.loc,
                ).total,
                score.loc,
            ),
        ],
        texts(score.components.cyclomatic_complexity.details@) == seq![
            complexity_evidence(
                mean_complexity_units(
                    function_models(lines_of(facts.source@), language_of_path(facts.path@)),
                ),
            ),
        ],
{
    let relative = to_relative_path(workspace_path, facts.path.as_str());
    let path_chars = to_chars(facts.path.as_str());
    let lang = language_at(path_chars.as_slice());
    let text = to_chars(facts.source.as_str());
    let lines = split_lines(text.as_slice());
    assert(text@.len() == text.len());
    let loc = lines.len();
    assert(loc == lines_of(facts.source@).len()) by {
        assert(crate::text::views(lines@).len() == lines@.len());
    }
    let churn_raw = compute_file_churn(&inputs.churn, relative.as_str(), inputs.history_days);
    let smells = scan_smells(&lines, lang, loc);
    let smell_raw = compute_smell_score(&smells, loc);
    let coupling_raw = compute_coupling_index(
        relative.as_str(),
        workspace_path,
        &inputs.workspace_files,
    );
    let change_coupling_raw = compute_change_coupling(relative.as_str(), &inputs.co_changes);
    let coverage_raw = compute_coverage_gap(
        relative.as_str(),
        &facts.coverage,
        facts.has_test_file,
    );
    let knowledge_raw = compute_knowledge_concentration(&inputs.blame, relative.as_str());
    let complexity = scan_complexity(&lines, lang);
    let complexity_raw = compute_complexity_score(complexity.average);
    let staleness_raw = compute_staleness(&facts.adr, smell_raw, inputs.today);
    let raw = RawScores {
        churn_rate: churn_raw,
        code_smell_density: smell_raw,
        coupling_index: coupling_raw,
        change_coupling: change_coupling_raw,
        test_coverage_gap: coverage_raw,
        knowledge_concentration: knowledge_raw,
        cyclomatic_complexity: complexity_raw,
        decision_staleness: staleness_raw,
    };
    assert(raw == raw_scores_of(workspace_path@, *facts, *inputs));
    let components = aggregate(
        raw,
        inputs.weights,
        smell_details(smells.total, loc),
        complexity_details(complexity.average),
    );
    let composite_score = composite_of(&components);
    FileScore {
        path: facts.path.clone(),
        relative_path: relative,
        composite_score,
        components,
        loc,
        language: lang.tag(),
        last_modified: facts.last_modified,
        supervision_status: String::from_str("none"),
    }
}

/// The sum of the composite scores and the number of high-debt files of
/// `files`.
fn sum_up(files: &Vec<FileScore>) -> (r: (u128, usize))
    ensures
        r.0 == composite_sum(files@),
        r.1 == high_debt_count(files@),
        r.0 <= files@.len() * u64::MAX,
{
    let mut total: u128 = 0;
    let mut high: usize = 0;
    let mut i: usize = 0;
    assert(files@.take(0) =~= Seq::empty());
    while i < files.len()
        invariant
            i <= files@.len(),
            total == composite_sum(files@.take(i as int)),
            high == high_debt_count(files@.take(i as int)),
            high <= i,
            total <= i * u64::MAX,
        decreases files@.len() - i,
    {
        proof {
            assert(files@.take(i + 1).drop_last() =~= files@.take(i as int));
            assert((i + 1) * u64::MAX == i * u64::MAX + u64::MAX) by (nonlinear_arith);
            assert(i * u64::MAX <= u64::MAX * u64::MAX) by (nonlinear_arith)
                requires
                    i <= u64::MAX,
            ;
        }
        total += files[i].composite_score.units as u128;
        if files[i].composite_score.units > HIGH_DEBT_UNITS {
            high += 1;
        }
        i += 1;
    }
    assert(files@.take(files@.len() as int) =~= files@);
    (total, high)
}

/// The mean composite score and the number of high-debt files of `files`.
pub fn summarize(files: &Vec<FileScore>) -> (r: (Fixed, usize))
    ensures
        r.0.units == mean_units(files@),
        r.1 == high_debt_count(files@),
{
    let (total, high) = sum_up(files);
    let n = files.len();
    if n == 0 {
        (Fixed::zero(), high)
    } else {
        assert(total / (n as u128) <= u64::MAX) by (nonlinear_arith)
            requires
                total <= n * u64::MAX,
                n > 0,
        ;
        (Fixed::from_units((total / (n as u128)) as u64), high)
    }
}

/// Sums up the scores `files` of a run that took `duration_ms` milliseconds.
pub fn build_analysis_result(files: Vec<FileScore>, duration_ms: u64) -> (r: AnalysisResult)
    ensures
        r.files == files,
        r.duration_ms == duration_ms,
        is_summary(r),
{
    let (workspace_score, high_debt_count) = summarize(&files);
    AnalysisResult {
        workspace_score,
        file_count: files.len(),
        high_debt_count,
        files,
        duration_ms,
    }
}

/// What to report before the file at `index` of `total` files is scored: the
/// files count from 1.
pub fn progress_at(index: usize, total: usize, file_path: &str) -> (p: AnalysisProgress)
    requires
        index < usize::MAX,
    ensures
        p.current == index + 1,
        p.total == total,
        p.current_file@ == file_path@,
{
    AnalysisProgress { current: index + 1, total, current_file: String::from_str(file_path) }
}

} // verus!
