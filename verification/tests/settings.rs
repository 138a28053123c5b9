use debtlens::fixed::Fixed;
use debtlens::settings::{
    clamp_setting, choose_setting, sanitize_settings, RawSettings, WeightSettings,
    SETTINGS_SCHEMA_VERSION,
};

fn fixed(x: f64) -> Fixed {
    Fixed::from_units((x * 1_000_000.0).round() as u64)
}

fn value(x: Fixed) -> f64 {
    x.units as f64 / 1_000_000.0
}

fn unset() -> RawSettings {
    RawSettings {
        schema_version: None,
        git_history_days: None,
        churn_normalization_percentile: None,
        warning_threshold: None,
        critical_threshold: None,
        bus_factor: None,
        snapshot_retention: None,
        color_scheme: None,
        node_label: None,
        snapshot_schedule: None,
        animations_enabled: None,
        notifications_enabled: None,
        weights: WeightSettings {
            churn_rate: None,
            code_smell_density: None,
            coupling_index: None,
            change_coupling: None,
            test_coverage_gap: None,
            knowledge_concentration: None,
            cyclomatic_complexity: None,
            decision_staleness: None,
            others: fixed(0.0),
        },
        largest_other_weight: fixed(0.0),
    }
}

#[test]
fn migrates_percentage_weights_and_normalizes() {
    let mut input = unset();
    input.schema_version = Some(0);
    input.weights = WeightSettings {
        churn_rate: Some(fixed(22.0)),
        code_smell_density: Some(fixed(20.0)),
        coupling_index: Some(fixed(18.0)),
        change_coupling: Some(fixed(12.0)),
        test_coverage_gap: Some(fixed(12.0)),
        knowledge_concentration: Some(fixed(8.0)),
        cyclomatic_complexity: Some(fixed(5.0)),
        decision_staleness: Some(fixed(3.0)),
        others: fixed(0.0),
    };

    let migrated = sanitize_settings(&input);
    let w = migrated.weights;
    let sum: f64 = [
        w.churn_rate,
        w.code_smell_density,
        w.coupling_index,
        w.change_coupling,
        w.test_coverage_gap,
        w.knowledge_concentration,
        w.cyclomatic_complexity,
        w.decision_staleness,
    ]
    .iter()
    .map(|x| value(*x))
    .sum();

    assert!((sum - 1.0).abs() < 1e-6);
    assert_eq!(migrated.schema_version, SETTINGS_SCHEMA_VERSION);
    assert!(migrated.weights_were_percentages);
    assert_eq!(w.churn_rate.units, 220_000);
    assert_eq!(w.decision_staleness.units, 30_000);
}

#[test]
fn merges_partial_settings_without_losing_existing_values() {
    let mut existing = unset();
    existing.schema_version = Some(SETTINGS_SCHEMA_VERSION);
    existing.git_history_days = Some(30);
    let migrated = sanitize_settings(&existing);

    assert_eq!(migrated.git_history_days, 30);
    assert_eq!(migrated.critical_threshold, 80);
    assert_eq!(migrated.weights.churn_rate.units, 220_000);
}

#[test]
fn unset_settings_take_their_defaults() {
    let s = sanitize_settings(&unset());
    assert_eq!(s.schema_version, 2);
    assert_eq!(s.git_history_days, 90);
    assert_eq!(s.churn_normalization_percentile, 90);
    assert_eq!(s.warning_threshold, 65);
    assert_eq!(s.critical_threshold, 80);
    assert_eq!(s.bus_factor, 70);
    assert_eq!(s.snapshot_retention, 52);
    assert_eq!(s.color_scheme, "default");
    assert_eq!(s.node_label, "always");
    assert_eq!(s.snapshot_schedule, "weekly");
    assert!(s.animations_enabled);
    assert!(s.notifications_enabled);
    assert!(!s.weights_were_percentages);
    assert_eq!(s.weight_divisor, 1_000_000);
    assert_eq!(s.weights.code_smell_density.units, 200_000);
}

#[test]
fn settings_are_brought_within_their_bounds() {
    let mut raw = unset();
    raw.git_history_days = Some(3);
    raw.churn_normalization_percentile = Some(100);
    raw.warning_threshold = Some(0);
    raw.critical_threshold = Some(1000);
    raw.bus_factor = Some(95);
    raw.snapshot_retention = Some(9);
    raw.color_scheme = Some("heatwave".to_string());
    raw.node_label = Some("sometimes".to_string());
    raw.snapshot_schedule = Some("manual".to_string());
    raw.animations_enabled = Some(false);
    let s = sanitize_settings(&raw);
    assert_eq!(s.git_history_days, 7);
    assert_eq!(s.churn_normalization_percentile, 99);
    assert_eq!(s.warning_threshold, 30);
    assert_eq!(s.critical_threshold, 100);
    assert_eq!(s.bus_factor, 95);
    assert_eq!(s.snapshot_retention, 10);
    assert_eq!(s.color_scheme, "heatwave");
    assert_eq!(s.node_label, "always");
    assert_eq!(s.snapshot_schedule, "manual");
    assert!(!s.animations_enabled);
    assert!(s.notifications_enabled);
}

#[test]
fn weights_above_one_are_percentages_in_old_settings_only() {
    let mut raw = unset();
    raw.schema_version = Some(1);
    raw.weights.churn_rate = Some(fixed(22.0));
    let s = sanitize_settings(&raw);
    assert!(!s.weights_were_percentages);
    // bounded by 1, then a share of 1.78
    assert_eq!(s.weights.churn_rate.units, 561_797);

    raw.schema_version = None;
    let s = sanitize_settings(&raw);
    assert!(s.weights_were_percentages);
    // 0.22 and the defaults divided by 100: 0.2278 in all
    assert_eq!(s.weight_divisor, 227_800);
    assert_eq!(s.weights.churn_rate.units, 965_759);
}

#[test]
fn weights_of_nothing_stay_as_they_are() {
    let mut raw = unset();
    let zero = Some(fixed(0.0));
    raw.weights = WeightSettings {
        churn_rate: zero,
        code_smell_density: zero,
        coupling_index: zero,
        change_coupling: zero,
        test_coverage_gap: zero,
        knowledge_concentration: zero,
        cyclomatic_complexity: zero,
        decision_staleness: zero,
        others: fixed(0.0),
    };
    let s = sanitize_settings(&raw);
    assert_eq!(s.weight_divisor, 0);
    assert_eq!(s.weights.churn_rate.units, 0);
    assert_eq!(s.weights.decision_staleness.units, 0);
}

#[test]
fn single_settings() {
    assert_eq!(clamp_setting(None, 7, 365, 90), 90);
    assert_eq!(clamp_setting(Some(400), 7, 365, 90), 365);
    assert_eq!(clamp_setting(Some(8), 7, 365, 90), 8);
    assert_eq!(choose_setting(&None, "a", "b", "c"), "a");
    assert_eq!(choose_setting(&Some("c".to_string()), "a", "b", "c"), "c");
    assert_eq!(choose_setting(&Some("d".to_string()), "a", "b", "c"), "a");
}
