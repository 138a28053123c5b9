use debtlens::cache::{
    copy_tree, get_file_breakdown, get_heatmap_data, patch_cached_result, plan_rescan, stamp,
    update_cache, RescanPlan,
};
use debtlens::fixed::Fixed;
use debtlens::heatmap::build_heatmap_tree;
use debtlens::models::file_score::{
    empty_components, AnalysisCache, ComponentScore, FileScore, HeatmapNode,
};
use debtlens::scoring::build_analysis_result;

fn fixed(x: f64) -> Fixed {
    Fixed::from_units((x * 1_000_000.0).round() as u64)
}

fn file(relative: &str, score: f64, loc: usize) -> FileScore {
    FileScore {
        path: format!("/repo/{relative}"),
        relative_path: relative.to_string(),
        composite_score: fixed(score),
        components: empty_components(),
        loc,
        language: "rust".to_string(),
        last_modified: 0,
        supervision_status: "none".to_string(),
    }
}

fn child<'a>(node: &'a HeatmapNode, name: &str) -> &'a HeatmapNode {
    node.children
        .as_ref()
        .unwrap()
        .iter()
        .find(|c| c.name == name)
        .unwrap()
}

fn check_chain(node: &HeatmapNode, chain: &mut Vec<String>, leaves: &mut usize) {
    match &node.children {
        None => {
            let parts: Vec<&str> = node.path.split('/').collect();
            assert_eq!(parts.len(), chain.len() + 1);
            for k in 0..chain.len() {
                assert_eq!(chain[k], parts[..=k].join("/"));
            }
            assert!(node.score.is_some());
            assert!(node.loc.is_some());
            *leaves += 1;
        }
        Some(children) => {
            assert!(node.score.is_none());
            assert!(node.loc.is_none());
            chain.push(node.path.clone());
            for c in children {
                check_chain(c, chain, leaves);
            }
            chain.pop();
        }
    }
}

#[test]
fn heatmap_folds_files_into_directories() {
    let files = vec![
        file("src/main.rs", 80.0, 10),
        file("src/util/text.rs", 20.0, 30),
        file("README.rs", 5.0, 1),
        file("src/util/path.rs", 40.0, 7),
    ];
    let root = build_heatmap_tree("/tmp/repo", &files);
    assert_eq!(root.name, "repo");
    assert_eq!(root.path, "/tmp/repo");
    assert!(root.score.is_none());
    assert!(root.loc.is_none());
    let top = root.children.as_ref().unwrap();
    assert_eq!(top.len(), 2);
    assert_eq!(top[0].name, "src");
    assert_eq!(top[1].name, "README.rs");
    let src = child(&root, "src");
    assert_eq!(src.path, "src");
    assert!(src.score.is_none());
    let main = child(src, "main.rs");
    assert_eq!(main.path, "src/main.rs");
    assert_eq!(main.score, Some(fixed(80.0)));
    assert_eq!(main.loc, Some(10));
    assert!(main.children.is_none());
    let util = child(src, "util");
    assert_eq!(util.path, "src/util");
    assert_eq!(util.children.as_ref().unwrap().len(), 2);
    assert_eq!(child(util, "path.rs").score, Some(fixed(40.0)));
}

#[test]
fn every_leaf_spells_the_chain_of_its_directories() {
    let files = vec![
        file("a/b/c/d.rs", 1.0, 1),
        file("a/b/e.rs", 2.0, 2),
        file("a//f.rs", 3.0, 3),
        file("g.rs", 4.0, 4),
        file("a/b/c/h.rs", 5.0, 5),
        file("", 6.0, 6),
    ];
    let root = build_heatmap_tree("/repo", &files);
    assert!(root.score.is_none());
    let mut leaves = 0;
    for c in root.children.as_ref().unwrap() {
        check_chain(c, &mut Vec::new(), &mut leaves);
    }
    assert_eq!(leaves, files.len());
}

#[test]
fn a_file_does_not_stand_in_for_a_directory_of_its_name() {
    let files = vec![file("x", 1.0, 1), file("x/y.rs", 2.0, 2)];
    let root = build_heatmap_tree("repo", &files);
    let top = root.children.as_ref().unwrap();
    assert_eq!(top.len(), 2);
    assert!(top[0].children.is_none());
    assert_eq!(top[1].name, "x");
    assert_eq!(top[1].children.as_ref().unwrap()[0].path, "x/y.rs");
}

#[test]
fn root_is_named_root_where_the_path_has_no_name() {
    assert_eq!(build_heatmap_tree("/", &vec![]).name, "root");
    assert_eq!(build_heatmap_tree("", &vec![]).name, "root");
    assert_eq!(build_heatmap_tree("/home/me/project/", &vec![]).name, "project");
    assert_eq!(build_heatmap_tree("/", &vec![]).children.unwrap().len(), 0);
}

#[test]
fn patch_replaces_an_empty_cache() {
    let mut cache = AnalysisCache::new();
    patch_cached_result(&mut cache, "/repo", file("src/a.rs", 70.0, 3));
    assert_eq!(cache.workspace_path.as_deref(), Some("/repo"));
    let result = cache.result.as_ref().unwrap();
    assert_eq!(result.file_count, 1);
    assert_eq!(result.high_debt_count, 1);
    assert_eq!(result.workspace_score, fixed(70.0));
    assert_eq!(result.duration_ms, 0);
    let heatmap = cache.heatmap.as_ref().unwrap();
    assert_eq!(child(child(heatmap, "src"), "a.rs").score, Some(fixed(70.0)));
}

#[test]
fn patch_upserts_by_path_or_relative_path() {
    let mut cache = AnalysisCache::new();
    let full = build_analysis_result(
        vec![file("a.rs", 10.0, 1), file("b.rs", 20.0, 2), file("c.rs", 90.0, 3)],
        1234,
    );
    update_cache(&mut cache, "/repo".to_string(), full);
    assert_eq!(cache.result.as_ref().unwrap().duration_ms, 1234);

    // same relative path, other path: replaces b.rs in place
    let mut changed = file("b.rs", 66.0, 5);
    changed.path = "/elsewhere/b.rs".to_string();
    patch_cached_result(&mut cache, "/repo", changed);
    let result = cache.result.as_ref().unwrap();
    assert_eq!(result.file_count, 3);
    assert_eq!(result.files[1].composite_score, fixed(66.0));
    assert_eq!(result.files[1].path, "/elsewhere/b.rs");
    assert_eq!(result.high_debt_count, 2);
    assert_eq!(result.workspace_score.units, 55_333_333);
    assert_eq!(result.duration_ms, 1234);

    // a new file goes to the end
    patch_cached_result(&mut cache, "/repo", file("d.rs", 0.0, 1));
    let result = cache.result.as_ref().unwrap();
    assert_eq!(result.file_count, 4);
    assert_eq!(result.files[3].relative_path, "d.rs");
    assert_eq!(result.workspace_score.units, 41_500_000);
    let heatmap = cache.heatmap.as_ref().unwrap();
    assert_eq!(heatmap.children.as_ref().unwrap().len(), 4);
    assert_eq!(child(heatmap, "b.rs").score, Some(fixed(66.0)));
}

#[test]
fn patch_is_idempotent() {
    let mut cache = AnalysisCache::new();
    patch_cached_result(&mut cache, "/repo", file("a.rs", 10.0, 1));
    patch_cached_result(&mut cache, "/repo", file("b.rs", 20.0, 2));
    patch_cached_result(&mut cache, "/repo", file("b.rs", 20.0, 2));
    let result = cache.result.as_ref().unwrap();
    assert_eq!(result.file_count, 2);
    assert_eq!(result.workspace_score, fixed(15.0));
}

#[test]
fn patch_for_another_workspace_starts_over() {
    let mut cache = AnalysisCache::new();
    patch_cached_result(&mut cache, "/repo", file("a.rs", 10.0, 1));
    patch_cached_result(&mut cache, "/other", file("z.rs", 30.0, 1));
    assert_eq!(cache.workspace_path.as_deref(), Some("/other"));
    let result = cache.result.as_ref().unwrap();
    assert_eq!(result.file_count, 1);
    assert_eq!(result.files[0].relative_path, "z.rs");
    assert_eq!(cache.heatmap.as_ref().unwrap().path, "/other");
}

#[test]
fn heatmap_data_is_a_copy_or_a_message() {
    let mut cache = AnalysisCache::new();
    assert_eq!(
        get_heatmap_data(&cache).unwrap_err(),
        "No analysis data available. Run analysis first."
    );
    patch_cached_result(&mut cache, "/repo", file("src/a.rs", 70.0, 3));
    let tree = get_heatmap_data(&cache).unwrap();
    assert_eq!(tree.name, "repo");
    assert_eq!(child(child(&tree, "src"), "a.rs").loc, Some(3));
    let again = copy_tree(&tree);
    assert_eq!(child(&again, "src").path, "src");
    assert!(again.score.is_none());
}

#[test]
fn breakdown_names_the_eight_verdicts() {
    let mut cache = AnalysisCache::new();
    assert_eq!(get_file_breakdown("a.rs", &cache).unwrap_err(), "No analysis data");
    let mut scored = file("src/a.rs", 12.5, 3);
    scored.components.code_smell_density = ComponentScore {
        raw_score: fixed(50.0),
        weight: fixed(0.2),
        contribution: fixed(10.0),
        details: vec!["3 smells in 300 LOC".to_string()],
    };
    patch_cached_result(&mut cache, "/repo", scored);
    assert_eq!(
        get_file_breakdown("src/b.rs", &cache).unwrap_err(),
        "File not found: src/b.rs"
    );
    for asked in ["src/a.rs", "/repo/src/a.rs"] {
        let b = get_file_breakdown(asked, &cache).unwrap();
        assert_eq!(b.path, "src/a.rs");
        assert_eq!(b.composite_score, fixed(12.5));
        let names: Vec<&str> = b.components.iter().map(|c| c.name.as_str()).collect();
        assert_eq!(
            names,
            vec![
                "churn_rate",
                "code_smell_density",
                "coupling_index",
                "change_coupling",
                "test_coverage_gap",
                "knowledge_concentration",
                "cyclomatic_complexity",
                "decision_staleness",
            ]
        );
        assert_eq!(b.components[1].raw_score, fixed(50.0));
        assert_eq!(b.components[1].weight, fixed(0.2));
        assert_eq!(b.components[1].contribution, fixed(10.0));
        assert_eq!(b.components[1].details, vec!["3 smells in 300 LOC".to_string()]);
        assert!(b.components[0].details.is_empty());
    }
}

#[test]
fn unchanged_file_is_not_scored_again() {
    let stored = stamp(file("a.rs", 42.5, 100), 123);
    assert_eq!(stored.last_modified, 123);
    assert_eq!(stored.composite_score, fixed(42.5));
    match plan_rescan(123, Some(stored.last_modified), Some(stored)) {
        RescanPlan::Reuse(score) => {
            assert_eq!(score.relative_path, "a.rs");
            assert_eq!(score.composite_score, fixed(42.5));
            assert_eq!(score.loc, 100);
            assert_eq!(score.last_modified, 123);
            // asked again, the same score stands
            match plan_rescan(123, Some(score.last_modified), Some(score)) {
                RescanPlan::Reuse(again) => assert_eq!(again.composite_score, fixed(42.5)),
                RescanPlan::Rescore => panic!("an unchanged file was to be scored again"),
            }
        }
        RescanPlan::Rescore => panic!("an unchanged file was to be scored again"),
    }
}

#[test]
fn new_or_changed_file_is_scored() {
    assert!(matches!(plan_rescan(5, None, None), RescanPlan::Rescore));
    assert!(matches!(plan_rescan(5, Some(4), Some(file("a.rs", 1.0, 1))), RescanPlan::Rescore));
    assert!(matches!(plan_rescan(5, Some(5), None), RescanPlan::Rescore));
    assert!(matches!(plan_rescan(5, None, Some(file("a.rs", 1.0, 1))), RescanPlan::Rescore));
}
