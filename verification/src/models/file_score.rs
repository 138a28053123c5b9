//! Scores of files and what is built from them.

use vstd::prelude::*;
use crate::fixed::{product_units, Fixed, FULL_SCORE, SCALE};

verus! {

/// A composite score above this marks a high-debt file: 65 points.
pub const HIGH_DEBT_UNITS: u64 = 65_000_000;

/// The verdict of one analyzer on one file.
#[derive(Clone, Debug)]
pub struct ComponentScore {
    /// The analyzer's score, from 0 to 100.
    pub raw_score: Fixed,
    /// The weight of the analyzer, from 0 to 1.
    pub weight: Fixed,
    /// The raw score times the weight.
    pub contribution: Fixed,
    /// Evidence, in words.
    pub details: Vec<String>,
}

/// The verdicts of the eight analyzers on one file.
#[derive(Clone, Debug)]
pub struct ScoreComponents {
    pub churn_rate: ComponentScore,
    pub code_smell_density: ComponentScore,
    pub coupling_index: ComponentScore,
    pub change_coupling: ComponentScore,
    pub test_coverage_gap: ComponentScore,
    pub knowledge_concentration: ComponentScore,
    pub cyclomatic_complexity: ComponentScore,
    pub decision_staleness: ComponentScore,
}

/// The score of one file.
#[derive(Clone, Debug)]
pub struct FileScore {
    pub path: String,
    pub relative_path: String,
    pub composite_score: Fixed,
    pub components: ScoreComponents,
    pub loc: usize,
    pub language: String,
    pub last_modified: i64,
    /// One of `none`, `acceptable` and `regressed`.
    pub supervision_status: String,
}

/// A node of the heatmap: a directory with children, or a file with a score
/// and a size.
#[derive(Debug)]
pub struct HeatmapNode {
    pub name: String,
    pub path: String,
    pub score: Option<Fixed>,
    pub loc: Option<usize>,
    pub children: Option<Vec<HeatmapNode>>,
}

/// One analyzer's verdict with the analyzer's name.
#[derive(Clone, Debug)]
pub struct ComponentDetail {
    pub name: String,
    pub raw_score: Fixed,
    pub weight: Fixed,
    pub contribution: Fixed,
    pub details: Vec<String>,
}

/// The score of one file, analyzer by analyzer.
#[derive(Clone, Debug)]
pub struct FileBreakdown {
    pub path: String,
    pub composite_score: Fixed,
    pub components: Vec<ComponentDetail>,
}

/// The scores of a workspace.
#[derive(Clone, Debug)]
pub struct AnalysisResult {
    /// The mean composite score of the files, 0 where there is none.
    pub workspace_score: Fixed,
    pub file_count: usize,
    /// The number of files with a composite score above 65.
    pub high_debt_count: usize,
    pub files: Vec<FileScore>,
    pub duration_ms: u64,
}

/// How far a scan has come.
#[derive(Clone, Debug)]
pub struct AnalysisProgress {
    pub current: usize,
    pub total: usize,
    pub current_file: String,
}

/// The weights of the eight analyzers.
#[derive(Clone, Copy, Debug, PartialEq, Eq, Structural)]
pub struct Weights {
    pub churn_rate: Fixed,
    pub code_smell_density: Fixed,
    pub coupling_index: Fixed,
    pub change_coupling: Fixed,
    pub test_coverage_gap: Fixed,
    pub knowledge_concentration: Fixed,
    pub cyclomatic_complexity: Fixed,
    pub decision_staleness: Fixed,
}

/// What the engine last computed for the open workspace.
#[derive(Debug)]
pub struct AnalysisCache {
    pub workspace_path: Option<String>,
    pub result: Option<AnalysisResult>,
    pub heatmap: Option<HeatmapNode>,
}

impl ComponentScore {
    /// Whether the raw score is at most 100, the weight at most 1, and the
    /// contribution their product.
    pub open spec fn wf(&self) -> bool {
        &&& self.raw_score.units <= FULL_SCORE
        &&& self.weight.units <= SCALE
        &&& self.contribution.units == product_units(
            self.raw_score.units as nat,
            self.weight.units as nat,
        )
    }

    /// The verdict that scores nothing.
    pub fn zero() -> (c: ComponentScore)
        ensures
            c.raw_score.units == 0,
            c.weight.units == 0,
            c.contribution.units == 0,
            c.details@.len() == 0,
            c.wf(),
    {
        assert(product_units(0, 0) == 0) by (nonlinear_arith);
        ComponentScore {
            raw_score: Fixed::zero(),
            weight: Fixed::zero(),
            contribution: Fixed::zero(),
            details: Vec::new(),
        }
    }

    /// Whether the verdict scores nothing: a raw score, a weight and a
    /// contribution of 0, and no evidence.
    pub open spec fn is_zero(&self) -> bool {
        &&& self.raw_score.units == 0
        &&& self.weight.units == 0
        &&& self.contribution.units == 0
        &&& self.details@.len() == 0
    }
}

impl ScoreComponents {
    /// The sum of the eight contributions, in units.
    pub open spec fn contribution_sum(&self) -> nat {
        (self.churn_rate.contribution.units + self.code_smell_density.contribution.units
            + self.coupling_index.contribution.units + self.change_coupling.contribution.units
            + self.test_coverage_gap.contribution.units
            + self.knowledge_concentration.contribution.units
            + self.cyclomatic_complexity.contribution.units
            + self.decision_staleness.contribution.units) as nat
    }

    /// Whether each of the eight verdicts is well formed.
    pub open spec fn wf(&self) -> bool {
        &&& self.churn_rate.wf()
        &&& self.code_smell_density.wf()
        &&& self.coupling_index.wf()
        &&& self.change_coupling.wf()
        &&& self.test_coverage_gap.wf()
        &&& self.knowledge_concentration.wf()
        &&& self.cyclomatic_complexity.wf()
        &&& self.decision_staleness.wf()
    }

    /// Whether every verdict scores nothing: in each of the eight slots the
    /// raw score, the weight and the contribution are 0 and there is no
    /// evidence.
    pub open spec fn is_zero(&self) -> bool {
        &&& self.churn_rate.is_zero()
        &&& self.code_smell_density.is_zero()
        &&& self.coupling_index.is_zero()
        &&& self.change_coupling.is_zero()
        &&& self.test_coverage_gap.is_zero()
        &&& self.knowledge_concentration.is_zero()
        &&& self.cyclomatic_complexity.is_zero()
        &&& self.decision_staleness.is_zero()
    }
}

impl FileScore {
    /// Whether the composite score is the sum of the eight contributions.
    pub open spec fn is_aggregate(&self) -> bool {
        self.composite_score.units == self.components.contribution_sum()
    }

    /// Whether the file is a high-debt file.
    pub open spec fn is_high_debt(&self) -> bool {
        self.composite_score.units > HIGH_DEBT_UNITS
    }
}

impl Weights {
    /// Whether each weight is at most 1.
    pub open spec fn wf(&self) -> bool {
        &&& self.churn_rate.units <= SCALE
        &&& self.code_smell_density.units <= SCALE
        &&& self.coupling_index.units <= SCALE
        &&& self.change_coupling.units <= SCALE
        &&& self.test_coverage_gap.units <= SCALE
        &&& self.knowledge_concentration.units <= SCALE
        &&& self.cyclomatic_complexity.units <= SCALE
        &&& self.decision_staleness.units <= SCALE
    }

    /// Whether each weight is at most 1.
    pub fn is_valid(&self) -> (r: bool)
        ensures
            r == self.wf(),
    {
        self.churn_rate.units <= SCALE && self.code_smell_density.units <= SCALE
            && self.coupling_index.units <= SCALE && self.change_coupling.units <= SCALE
            && self.test_coverage_gap.units <= SCALE && self.knowledge_concentration.units <= SCALE
            && self.cyclomatic_complexity.units <= SCALE && self.decision_staleness.units <= SCALE
    }

    /// The sum of the eight weights, in units.
    pub open spec fn total(&self) -> nat {
        (self.churn_rate.units + self.code_smell_density.units + self.coupling_index.units
            + self.change_coupling.units + self.test_coverage_gap.units
            + self.knowledge_concentration.units + self.cyclomatic_complexity.units
            + self.decision_staleness.units) as nat
    }
}

/// The default weights: 0.22 for churn, 0.20 for smells, 0.18 for coupling,
/// 0.12 each for change coupling and the coverage gap, 0.08 for knowledge,
/// 0.05 for complexity and 0.03 for staleness. They add up to 1.
pub open spec fn default_weights_spec() -> Weights {
    Weights {
        churn_rate: Fixed { units: 220_000 },
        code_smell_density: Fixed { units: 200_000 },
        coupling_index: Fixed { units: 180_000 },
        change_coupling: Fixed { units: 120_000 },
        test_coverage_gap: Fixed { units: 120_000 },
        knowledge_concentration: Fixed { units: 80_000 },
        cyclomatic_complexity: Fixed { units: 50_000 },
        decision_staleness: Fixed { units: 30_000 },
    }
}

/// The default weights.
pub fn default_weights() -> (w: Weights)
    ensures
        w == default_weights_spec(),
        w.wf(),
        w.total() == SCALE,
{
    Weights {
        churn_rate: Fixed { units: 220_000 },
        code_smell_density: Fixed { units: 200_000 },
        coupling_index: Fixed { units: 180_000 },
        change_coupling: Fixed { units: 120_000 },
        test_coverage_gap: Fixed { units: 120_000 },
        knowledge_concentration: Fixed { units: 80_000 },
        cyclomatic_complexity: Fixed { units: 50_000 },
        decision_staleness: Fixed { units: 30_000 },
    }
}

/// The components of a file of which nothing is known: every verdict scores
/// nothing.
pub fn empty_components() -> (c: ScoreComponents)
    ensures
        c.is_zero(),
        c.contribution_sum() == 0,
        c.wf(),
{
    ScoreComponents {
        churn_rate: ComponentScore::zero(),
        code_smell_density: ComponentScore::zero(),
        coupling_index: ComponentScore::zero(),
        change_coupling: ComponentScore::zero(),
        test_coverage_gap: ComponentScore::zero(),
        knowledge_concentration: ComponentScore::zero(),
        cyclomatic_complexity: ComponentScore::zero(),
        decision_staleness: ComponentScore::zero(),
    }
}

impl AnalysisCache {
    /// The cache before any scan.
    pub fn new() -> (c: AnalysisCache)
        ensures
            c.workspace_path.is_none(),
            c.result.is_none(),
            c.heatmap.is_none(),
    {
        AnalysisCache { workspace_path: None, result: None, heatmap: None }
    }
}

} // verus!
