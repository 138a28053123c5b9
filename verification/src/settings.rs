//! The settings that the analysis goes by: the history window and the
//! weights.

use vstd::prelude::*;
use crate::fixed::{capped_ratio, ratio_units, Fixed, SCALE};
use crate::models::file_score::{default_weights, default_weights_spec, Weights};
use crate::text::{is_text, to_chars};
use vstd::string::StringExecFns;

verus! {

/// The shortest history window, in days.
pub const MIN_HISTORY_DAYS: u32 = 7;

/// The longest history window, in days.
pub const MAX_HISTORY_DAYS: u32 = 365;

/// The history window that holds where none is set, in days.
pub const DEFAULT_HISTORY_DAYS: u32 = 90;

/// What the analysis goes by.
#[derive(Clone, Copy, Debug, PartialEq, Eq, Structural)]
pub struct EffectiveAnalysisSettings {
    pub history_days: u32,
    pub weights: Weights,
}

/// The weights as the settings give them: each of the eight where it is
/// given, and the sum of what is given under other names.
#[derive(Clone, Copy, Debug, PartialEq, Eq, Structural)]
pub struct WeightSettings {
    pub churn_rate: Option<Fixed>,
    pub code_smell_density: Option<Fixed>,
    pub coupling_index: Option<Fixed>,
    pub change_coupling: Option<Fixed>,
    pub test_coverage_gap: Option<Fixed>,
    pub knowledge_concentration: Option<Fixed>,
    pub cyclomatic_complexity: Option<Fixed>,
    pub decision_staleness: Option<Fixed>,
    pub others: Fixed,
}

/// The history window for the setting `days`: 90 days where none is set, and
/// no fewer than 7 nor more than 365.
pub open spec fn effective_days(days: Option<u64>) -> u32 {
    match days {
        None => DEFAULT_HISTORY_DAYS,
        Some(d) => if d < MIN_HISTORY_DAYS {
            MIN_HISTORY_DAYS
        } else if d > MAX_HISTORY_DAYS {
            MAX_HISTORY_DAYS
        } else {
            d as u32
        },
    }
}

/// The weight `given`, or `default` where none is given.
pub open spec fn given_or(given: Option<Fixed>, default: Fixed) -> Fixed {
    match given {
        Some(w) => w,
        None => default,
    }
}

/// The weights that `settings` give, with the default for each that is not
/// given.
pub open spec fn merged_weights(settings: WeightSettings) -> Weights {
    let d = default_weights_spec();
    Weights {
        churn_rate: given_or(settings.churn_rate, d.churn_rate),
        code_smell_density: given_or(settings.code_smell_density, d.code_smell_density),
        coupling_index: given_or(settings.coupling_index, d.coupling_index),
        change_coupling: given_or(settings.change_coupling, d.change_coupling),
        test_coverage_gap: given_or(settings.test_coverage_gap, d.test_coverage_gap),
        knowledge_concentration: given_or(
            settings.knowledge_concentration,
            d.knowledge_concentration,
        ),
        cyclomatic_complexity: given_or(settings.cyclomatic_complexity, d.cyclomatic_complexity),
        decision_staleness: given_or(settings.decision_staleness, d.decision_staleness),
    }
}

/// The weight `w` as a share of the sum `sum`, at most 1.
pub open spec fn share(w: Fixed, sum: nat) -> Fixed {
    Fixed { units: capped_ratio(w.units as nat, sum, SCALE as nat, SCALE as nat) as u64 }
}

/// The weights `w`, each as a share of `sum`.
pub open spec fn shares(w: Weights, sum: nat) -> Weights {
    Weights {
        churn_rate: share(w.churn_rate, sum),
        code_smell_density: share(w.code_smell_density, sum),
        coupling_index: share(w.coupling_index, sum),
        change_coupling: share(w.change_coupling, sum),
        test_coverage_gap: share(w.test_coverage_gap, sum),
        knowledge_concentration: share(w.knowledge_concentration, sum),
        cyclomatic_complexity: share(w.cyclomatic_complexity, sum),
        decision_staleness: share(w.decision_staleness, sum),
    }
}

/// The weights that the analysis goes by: those that `settings` give, each as
/// a share of the sum of all that is given; the defaults where that sum is 0.
pub open spec fn effective_weights(settings: WeightSettings) -> Weights {
    let merged = merged_weights(settings);
    let sum = merged.total() + settings.others.units as nat;
    if sum > 0 {
        shares(merged, sum)
    } else {
        default_weights_spec()
    }
}

/// The weight `w` as a share of the sum `sum`.
fn share_of(w: Fixed, sum: u128) -> (r: Fixed)
    ensures
        r == share(w, sum as nat),
        r.units <= SCALE,
{
    assert(w.units * SCALE <= u128::MAX) by (nonlinear_arith)
        requires
            w.units <= u64::MAX,
            SCALE == 1_000_000,
    ;
    Fixed::from_units(ratio_units(w.units as u128, sum, SCALE, SCALE))
}

/// The weight `given`, or `default` where none is given.
fn pick(given: Option<Fixed>, default: Fixed) -> (r: Fixed)
    ensures
        r == given_or(given, default),
{
    match given {
        Some(w) => w,
        None => default,
    }
}

/// Resolves what the analysis goes by from the settings: the history window
/// `history_days`, brought between 7 and 365 days, and the weights
/// `weights`, made to add up to 1.
pub fn load_effective_analysis_settings(history_days: Option<u64>, weights: &WeightSettings) -> (r:
    EffectiveAnalysisSettings)
    ensures
        r.history_days == effective_days(history_days),
        MIN_HISTORY_DAYS <= r.history_days <= MAX_HISTORY_DAYS,
        r.weights == effective_weights(*weights),
        r.weights.wf(),
{
    let days: u32 = match history_days {
        None => DEFAULT_HISTORY_DAYS,
        Some(d) => {
            if d < MIN_HISTORY_DAYS as u64 {
                MIN_HISTORY_DAYS
            } else if d > MAX_HISTORY_DAYS as u64 {
                MAX_HISTORY_DAYS
            } else {
                d as u32
            }
        },
    };
    let merged = merge_weights(weights);
    let sum: u128 = merged.churn_rate.units as u128 + merged.code_smell_density.units as u128
        + merged.coupling_index.units as u128 + merged.change_coupling.units as u128
        + merged.test_coverage_gap.units as u128 + merged.knowledge_concentration.units as u128
        + merged.cyclomatic_complexity.units as u128 + merged.decision_staleness.units as u128
        + weights.others.units as u128;
    let effective = if sum > 0 {
        shares_of(&merged, sum)
    } else {
        default_weights()
    };
    EffectiveAnalysisSettings { history_days: days, weights: effective }
}

/// The version of the settings that this library writes.
pub const SETTINGS_SCHEMA_VERSION: i64 = 2;

/// The settings as they were read: each value where it is set and of the
/// kind that is expected.
#[derive(Debug)]
pub struct RawSettings {
    pub schema_version: Option<i64>,
    pub git_history_days: Option<u64>,
    pub churn_normalization_percentile: Option<u64>,
    pub warning_threshold: Option<u64>,
    pub critical_threshold: Option<u64>,
    pub bus_factor: Option<u64>,
    pub snapshot_retention: Option<u64>,
    pub color_scheme: Option<String>,
    pub node_label: Option<String>,
    pub snapshot_schedule: Option<String>,
    pub animations_enabled: Option<bool>,
    pub notifications_enabled: Option<bool>,
    pub weights: WeightSettings,
    /// The largest of the weights that are given under other names.
    pub largest_other_weight: Fixed,
}

/// The settings as they are kept: every value set and within its bounds.
#[derive(Debug)]
pub struct Settings {
    pub schema_version: i64,
    pub git_history_days: u64,
    pub churn_normalization_percentile: u64,
    pub warning_threshold: u64,
    pub critical_threshold: u64,
    pub bus_factor: u64,
    pub snapshot_retention: u64,
    pub color_scheme: String,
    pub node_label: String,
    pub snapshot_schedule: String,
    pub animations_enabled: bool,
    pub notifications_enabled: bool,
    pub weights: Weights,
    /// Whether the weights were given as percentages and have been divided
    /// by 100.
    pub weights_were_percentages: bool,
    /// The sum, in units, that the weights have been divided by to add up to
    /// 1; 0 where they have been left as they were.
    pub weight_divisor: u128,
}

/// The setting `value` brought between `least` and `most`, or `default` where
/// it is not set.
pub open spec fn clamped(value: Option<u64>, least: u64, most: u64, default: u64) -> u64 {
    let v = match value {
        Some(v) => v,
        None => default,
    };
    if v < least {
        least
    } else if v > most {
        most
    } else {
        v
    }
}

/// The setting `value` where it is one of the three choices, else the first
/// of them.
pub open spec fn chosen(value: Option<String>, first: Seq<char>, second: Seq<char>, third: Seq<char>)
    -> Seq<char> {
    match value {
        Some(v) => if v@ == first || v@ == second || v@ == third {
            v@
        } else {
            first
        },
        None => first,
    }
}

/// Whether the weights of `raw` are read as percentages: the settings are
/// older than version 1, and one weight, given or default, is above 1.
pub open spec fn are_percentages(raw: RawSettings) -> bool {
    let merged = merged_weights(raw.weights);
    &&& match raw.schema_version {
        Some(v) => v < 1,
        None => true,
    }
    &&& (merged.churn_rate.units > SCALE || merged.code_smell_density.units > SCALE
        || merged.coupling_index.units > SCALE || merged.change_coupling.units > SCALE
        || merged.test_coverage_gap.units > SCALE || merged.knowledge_concentration.units > SCALE
        || merged.cyclomatic_complexity.units > SCALE || merged.decision_staleness.units > SCALE
        || raw.largest_other_weight.units > SCALE)
}

/// The weight `w`, divided by 100 where `percent` holds, and then at most 1.
pub open spec fn bounded(w: Fixed, percent: bool) -> Fixed {
    let units: u64 = if percent {
        w.units / 100
    } else {
        w.units
    };
    Fixed {
        units: if units > SCALE {
            SCALE
        } else {
            units
        },
    }
}

/// The weights `w`, each bounded.
pub open spec fn bounded_weights(w: Weights, percent: bool) -> Weights {
    Weights {
        churn_rate: bounded(w.churn_rate, percent),
        code_smell_density: bounded(w.code_smell_density, percent),
        coupling_index: bounded(w.coupling_index, percent),
        change_coupling: bounded(w.change_coupling, percent),
        test_coverage_gap: bounded(w.test_coverage_gap, percent),
        knowledge_concentration: bounded(w.knowledge_concentration, percent),
        cyclomatic_complexity: bounded(w.cyclomatic_complexity, percent),
        decision_staleness: bounded(w.decision_staleness, percent),
    }
}

/// The sum that the weights of `raw` are divided by: that of the eight
/// bounded weights and of what is given under other names.
pub open spec fn weight_sum(raw: RawSettings) -> nat {
    let percent = are_percentages(raw);
    bounded_weights(merged_weights(raw.weights), percent).total() + if percent {
        (raw.weights.others.units / 100) as nat
    } else {
        raw.weights.others.units as nat
    }
}

/// The weights that are kept for `raw`: given or default, read as percentages
/// where one is above 1 in old settings, bounded by 1, and then made to add
/// up to 1 unless they add up to nothing.
pub open spec fn kept_weights(raw: RawSettings) -> Weights {
    let b = bounded_weights(merged_weights(raw.weights), are_percentages(raw));
    if weight_sum(raw) > 0 {
        shares(b, weight_sum(raw))
    } else {
        b
    }
}

/// Whether `s` is what is kept for the settings `raw`.
pub open spec fn is_sanitized(s: Settings, raw: RawSettings) -> bool {
    &&& s.schema_version == SETTINGS_SCHEMA_VERSION
    &&& s.git_history_days == clamped(raw.git_history_days, 7, 365, 90)
    &&& s.churn_normalization_percentile == clamped(raw.churn_normalization_percentile, 50, 99, 90)
    &&& s.warning_threshold == clamped(raw.warning_threshold, 30, 90, 65)
    &&& s.critical_threshold == clamped(raw.critical_threshold, 50, 100, 80)
    &&& s.bus_factor == clamped(raw.bus_factor, 50, 95, 70)
    &&& s.snapshot_retention == clamped(raw.snapshot_retention, 10, 260, 52)
    &&& s.color_scheme@ == chosen(raw.color_scheme, "default"@, "heatwave"@, "monochrome"@)
    &&& s.node_label@ == chosen(raw.node_label, "always"@, "hover"@, "never"@)
    &&& s.snapshot_schedule@ == chosen(raw.snapshot_schedule, "weekly"@, "biweekly"@, "manual"@)
    &&& s.animations_enabled == match raw.animations_enabled {
        Some(b) => b,
        None => true,
    }
    &&& s.notifications_enabled == match raw.notifications_enabled {
        Some(b) => b,
        None => true,
    }
    &&& s.weights == kept_weights(raw)
    &&& s.weights_were_percentages == are_percentages(raw)
    &&& s.weight_divisor == weight_sum(raw)
}

/// The setting `value` brought between `least` and `most`.
pub fn clamp_setting(value: Option<u64>, least: u64, most: u64, default: u64) -> (r: u64)
    ensures
        r == clamped(value, least, most, default),
{
    let v = match value {
        Some(v) => v,
        None => default,
    };
    if v < least {
        least
    } else if v > most {
        most
    } else {
        v
    }
}

/// The setting `value` where it is one of the three choices, else the first.
pub fn choose_setting(value: &Option<String>, first: &str, second: &str, third: &str) -> (r: String)
    ensures
        r@ == chosen(*value, first@, second@, third@),
{
    match value {
        Some(v) => {
            let chars = to_chars(v.as_str());
            let c = chars.as_slice();
            if is_text(c, first) || is_text(c, second) || is_text(c, third) {
                v.clone()
            } else {
                String::from_str(first)
            }
        },
        None => String::from_str(first),
    }
}

/// The weight `w`, divided by 100 where `percent` holds, and then at most 1.
fn bound(w: Fixed, percent: bool) -> (r: Fixed)
    ensures
        r == bounded(w, percent),
        r.units <= SCALE,
{
    let units = if percent {
        w.units / 100
    } else {
        w.units
    };
    if units > SCALE {
        Fixed::from_units(SCALE)
    } else {
        Fixed::from_units(units)
    }
}

/// Whether one of the weights `merged`, or `largest_other`, is above 1.
fn any_above_one(merged: &Weights, largest_other: Fixed) -> (r: bool)
    ensures
        r == (merged.churn_rate.units > SCALE || merged.code_smell_density.units > SCALE
            || merged.coupling_index.units > SCALE || merged.change_coupling.units > SCALE
            || merged.test_coverage_gap.units > SCALE || merged.knowledge_concentration.units
            > SCALE || merged.cyclomatic_complexity.units > SCALE
            || merged.decision_staleness.units > SCALE || largest_other.units > SCALE),
{
    merged.churn_rate.units > SCALE || merged.code_smell_density.units > SCALE
        || merged.coupling_index.units > SCALE || merged.change_coupling.units > SCALE
        || merged.test_coverage_gap.units > SCALE || merged.knowledge_concentration.units > SCALE
        || merged.cyclomatic_complexity.units > SCALE || merged.decision_staleness.units > SCALE
        || largest_other.units > SCALE
}

/// The weights `w`, each bounded.
fn bound_weights(w: &Weights, percent: bool) -> (b: Weights)
    ensures
        b == bounded_weights(*w, percent),
        b.wf(),
{
    Weights {
        churn_rate: bound(w.churn_rate, percent),
        code_smell_density: bound(w.code_smell_density, percent),
        coupling_index: bound(w.coupling_index, percent),
        change_coupling: bound(w.change_coupling, percent),
        test_coverage_gap: bound(w.test_coverage_gap, percent),
        knowledge_concentration: bound(w.knowledge_concentration, percent),
        cyclomatic_complexity: bound(w.cyclomatic_complexity, percent),
        decision_staleness: bound(w.decision_staleness, percent),
    }
}

/// The weights `w`, each as a share of `sum`.
fn shares_of(w: &Weights, sum: u128) -> (r: Weights)
    ensures
        r == shares(*w, sum as nat),
        r.wf(),
{
    Weights {
        churn_rate: share_of(w.churn_rate, sum),
        code_smell_density: share_of(w.code_smell_density, sum),
        coupling_index: share_of(w.coupling_index, sum),
        change_coupling: share_of(w.change_coupling, sum),
        test_coverage_gap: share_of(w.test_coverage_gap, sum),
        knowledge_concentration: share_of(w.knowledge_concentration, sum),
        cyclomatic_complexity: share_of(w.cyclomatic_complexity, sum),
        decision_staleness: share_of(w.decision_staleness, sum),
    }
}

/// The weights `settings`, with the default for each that is not given.
fn merge_weights(settings: &WeightSettings) -> (w: Weights)
    ensures
        w == merged_weights(*settings),
{
    let d = default_weights();
    Weights {
        churn_rate: pick(settings.churn_rate, d.churn_rate),
        code_smell_density: pick(settings.code_smell_density, d.code_smell_density),
        coupling_index: pick(settings.coupling_index, d.coupling_index),
        change_coupling: pick(settings.change_coupling, d.change_coupling),
        test_coverage_gap: pick(settings.test_coverage_gap, d.test_coverage_gap),
        knowledge_concentration: pick(settings.knowledge_concentration, d.knowledge_concentration),
        cyclomatic_complexity: pick(settings.cyclomatic_complexity, d.cyclomatic_complexity),
        decision_staleness: pick(settings.decision_staleness, d.decision_staleness),
    }
}

/// The weights that are kept for `raw`, whether they were read as
/// percentages, and the sum that they were divided by.
fn sanitize_weights(raw: &RawSettings) -> (r: (Weights, bool, u128))
    ensures
        r.0 == kept_weights(*raw),
        r.1 == are_percentages(*raw),
        r.2 == weight_sum(*raw),
        r.0.wf(),
{
    let merged = merge_weights(&raw.weights);
    let old = match raw.schema_version {
        Some(v) => v < 1,
        None => true,
    };
    let percent = old && any_above_one(&merged, raw.largest_other_weight);
    let b = bound_weights(&merged, percent);
    let others: u64 = if percent {
        raw.weights.others.units / 100
    } else {
        raw.weights.others.units
    };
    let sum: u128 = b.churn_rate.units as u128 + b.code_smell_density.units as u128
        + b.coupling_index.units as u128 + b.change_coupling.units as u128
        + b.test_coverage_gap.units as u128 + b.knowledge_concentration.units as u128
        + b.cyclomatic_complexity.units as u128 + b.decision_staleness.units as u128
        + others as u128;
    let weights = if sum > 0 {
        shares_of(&b, sum)
    } else {
        b
    };
    (weights, percent, sum)
}

/// Brings the settings `raw` in order: every number between its bounds, every
/// choice one of those on offer, every switch set, and the weights between 0
/// and 1 and adding up to 1. What is not set takes its default.
pub fn sanitize_settings(raw: &RawSettings) -> (s: Settings)
    ensures
        is_sanitized(s, *raw),
        s.weights.wf(),
{
    let (weights, weights_were_percentages, weight_divisor) = sanitize_weights(raw);
    Settings {
        schema_version: SETTINGS_SCHEMA_VERSION,
        git_history_days: clamp_setting(raw.git_history_days, 7, 365, 90),
        churn_normalization_percentile: clamp_setting(
            raw.churn_normalization_percentile,
            50,
            99,
            90,
        ),
        warning_threshold: clamp_setting(raw.warning_threshold, 30, 90, 65),
        critical_threshold: clamp_setting(raw.critical_threshold, 50, 100, 80),
        bus_factor: clamp_setting(raw.bus_factor, 50, 95, 70),
        snapshot_retention: clamp_setting(raw.snapshot_retention, 10, 260, 52),
        color_scheme: choose_setting(&raw.color_scheme, "default", "heatwave", "monochrome"),
        node_label: choose_setting(&raw.node_label, "always", "hover", "never"),
        snapshot_schedule: choose_setting(&raw.snapshot_schedule, "weekly", "biweekly", "manual"),
        animations_enabled: match raw.animations_enabled {
            Some(v) => v,
            None => true,
        },
        notifications_enabled: match raw.notifications_enabled {
            Some(v) => v,
            None => true,
        },
        weights,
        weights_were_percentages,
        weight_divisor,
    }
}

} // verus!
