//! The incremental cache: what was last computed for the open workspace, and
//! how a single rescored file is patched into it.

use vstd::prelude::*;
use vstd::string::StringExecFns;
use crate::heatmap::{build_heatmap_tree, heatmap_model, lemma_models_of, model_of, models_of};
use crate::models::file_score::{
    AnalysisCache, AnalysisResult, ComponentDetail, ComponentScore, FileBreakdown, FileScore,
    HeatmapNode,
};
use crate::scoring::{is_summary, summarize};

verus! {

/// What to do about a request to rescore a file.
#[derive(Debug)]
pub enum RescanPlan {
    /// The file has not changed since it was scored: the stored score stands,
    /// and nothing is written.
    Reuse(FileScore),
    /// The file is new or has changed: it is scored again, and the score is
    /// stored.
    Rescore,
}

/// Whether `cache` is bound to the workspace at `root`.
pub open spec fn is_bound_to(cache: AnalysisCache, root: Seq<char>) -> bool {
    match cache.workspace_path {
        Some(p) => p@ == root,
        None => false,
    }
}

/// Whether `a` and `b` are scores of one file: they agree in the path or in
/// the relative path.
pub open spec fn same_file(a: FileScore, b: FileScore) -> bool {
    a.path@ == b.path@ || a.relative_path@ == b.relative_path@
}

/// The index of the first score of the file of `file` among `files`, from
/// index `from` on.
pub open spec fn match_index(files: Seq<FileScore>, file: FileScore, from: int) -> Option<int>
    decreases files.len() - from,
{
    if from < 0 || from >= files.len() {
        None
    } else if same_file(files[from], file) {
        Some(from)
    } else {
        match_index(files, file, from + 1)
    }
}

/// `files` with the score `file` in the place of the first score of the same
/// file, or at the end where there is none.
pub open spec fn upserted(files: Seq<FileScore>, file: FileScore) -> Seq<FileScore> {
    match match_index(files, file, 0) {
        Some(i) => files.update(i, file),
        None => files.push(file),
    }
}

/// The files that `cache` holds for the workspace at `root`: none where it is
/// bound to another workspace or holds no result.
pub open spec fn files_for(cache: AnalysisCache, root: Seq<char>) -> Seq<FileScore> {
    if is_bound_to(cache, root) {
        match cache.result {
            Some(r) => r.files@,
            None => Seq::empty(),
        }
    } else {
        Seq::empty()
    }
}

/// The duration that `cache` holds for the workspace at `root`: 0 where it is
/// bound to another workspace or holds no result.
pub open spec fn duration_for(cache: AnalysisCache, root: Seq<char>) -> u64 {
    if is_bound_to(cache, root) {
        match cache.result {
            Some(r) => r.duration_ms,
            None => 0,
        }
    } else {
        0
    }
}

/// Whether `cache` holds, for the workspace at `root`, the files `files` with
/// their summary and their heatmap.
pub open spec fn holds(cache: AnalysisCache, root: Seq<char>, files: Seq<FileScore>) -> bool {
    &&& is_bound_to(cache, root)
    &&& cache.result.is_some()
    &&& cache.result.unwrap().files@ == files
    &&& is_summary(cache.result.unwrap())
    &&& cache.heatmap.is_some()
    &&& model_of(cache.heatmap.unwrap()) == heatmap_model(root, files)
}

/// What follows the first score of a file is found from there on as well.
proof fn lemma_match_index(files: Seq<FileScore>, file: FileScore, from: int)
    requires
        0 <= from,
    ensures
        match match_index(files, file, from) {
            Some(i) => from <= i < files.len() && same_file(files[i], file) && forall|j: int|
                from <= j < i ==> !same_file(#[trigger] files[j], file),
            None => forall|j: int| from <= j < files.len() ==> !same_file(#[trigger] files[j], file),
        },
    decreases files.len() - from,
{
    if from < files.len() && !same_file(files[from], file) {
        lemma_match_index(files, file, from + 1);
    }
}

/// The first index from `from` on without a match before it and with a match
/// at it is what `match_index` finds.
proof fn lemma_match_index_is(files: Seq<FileScore>, file: FileScore, from: int, i: int)
    requires
        0 <= from <= i <= files.len(),
        forall|j: int| from <= j < i ==> !same_file(#[trigger] files[j], file),
        i < files.len() ==> same_file(files[i], file),
    ensures
        match_index(files, file, from) == if i < files.len() {
            Some(i)
        } else {
            None
        },
    decreases i - from,
{
    if from < i {
        assert(!same_file(files[from], file));
        lemma_match_index_is(files, file, from + 1, i);
    }
}

/// Patching is idempotent: a score that has been put among the files changes
/// nothing when it is put among them again.
pub proof fn lemma_upsert_idempotent(files: Seq<FileScore>, file: FileScore)
    ensures
        upserted(upserted(files, file), file) == upserted(files, file),
{
    lemma_match_index(files, file, 0);
    let once = upserted(files, file);
    match match_index(files, file, 0) {
        Some(i) => {
            assert forall|j: int| 0 <= j < i implies !same_file(#[trigger] once[j], file) by {
                assert(once[j] == files[j]);
            }
            lemma_match_index_is(once, file, 0, i);
            assert(once.update(i, file) =~= once);
        },
        None => {
            let i = files.len() as int;
            assert forall|j: int| 0 <= j < i implies !same_file(#[trigger] once[j], file) by {
                assert(once[j] == files[j]);
            }
            lemma_match_index_is(once, file, 0, i);
            assert(once.update(i, file) =~= once);
        },
    }
}

/// Patches of different files commute: where `files` holds a score of the
/// file of each of two scores, no score of both, and the two are not scores
/// of one file, the order in which they are put among the files does not
/// matter.
pub proof fn lemma_upsert_of_known_files_commutes(
    files: Seq<FileScore>,
    a: FileScore,
    b: FileScore,
)
    requires
        !same_file(a, b),
        !same_file(b, a),
        match_index(files, a, 0).is_some(),
        match_index(files, b, 0).is_some(),
        forall|j: int| 0 <= j < files.len() ==> !(same_file(#[trigger] files[j], a) && same_file(files[j], b)),
    ensures
        upserted(upserted(files, a), b) == upserted(upserted(files, b), a),
{
    lemma_match_index(files, a, 0);
    lemma_match_index(files, b, 0);
    let ia = match_index(files, a, 0).unwrap();
    let ib = match_index(files, b, 0).unwrap();
    assert(ia != ib);
    let fa = files.update(ia, a);
    let fb = files.update(ib, b);
    assert forall|j: int| 0 <= j < ib implies !same_file(#[trigger] fa[j], b) by {
        if j != ia {
            assert(fa[j] == files[j]);
        }
    }
    lemma_match_index_is(fa, b, 0, ib);
    assert forall|j: int| 0 <= j < ia implies !same_file(#[trigger] fb[j], a) by {
        if j != ib {
            assert(fb[j] == files[j]);
        }
    }
    lemma_match_index_is(fb, a, 0, ia);
    assert(fa.update(ib, b) =~= fb.update(ia, a));
}

/// Decides what to do about a request to rescore a file that was modified at
/// `current_mtime`, given the modification time and the score that the store
/// holds for it: the stored score stands where the store holds one with that
/// very modification time.
pub fn plan_rescan(current_mtime: i64, cached_mtime: Option<i64>, cached: Option<FileScore>) -> (plan:
    RescanPlan)
    ensures
        plan == rescan_plan(current_mtime, cached_mtime, cached),
{
    match cached_mtime {
        Some(m) => {
            if m == current_mtime {
                match cached {
                    Some(score) => RescanPlan::Reuse(score),
                    None => RescanPlan::Rescore,
                }
            } else {
                RescanPlan::Rescore
            }
        },
        None => RescanPlan::Rescore,
    }
}

/// What to do about a request to rescore a file.
pub open spec fn rescan_plan(
    current_mtime: i64,
    cached_mtime: Option<i64>,
    cached: Option<FileScore>,
) -> RescanPlan {
    if cached_mtime == Some(current_mtime) && cached.is_some() {
        RescanPlan::Reuse(cached.unwrap())
    } else {
        RescanPlan::Rescore
    }
}

/// The fresh score `fresh` of a file that was modified at `current_mtime`,
/// as it is stored: with that modification time.
pub fn stamp(fresh: FileScore, current_mtime: i64) -> (stored: FileScore)
    ensures
        stored == stamped(fresh, current_mtime),
{
    let mut stored = fresh;
    stored.last_modified = current_mtime;
    stored
}

/// `fresh` with the modification time `current_mtime`.
pub open spec fn stamped(fresh: FileScore, current_mtime: i64) -> FileScore {
    FileScore {
        path: fresh.path,
        relative_path: fresh.relative_path,
        composite_score: fresh.composite_score,
        components: fresh.components,
        loc: fresh.loc,
        language: fresh.language,
        last_modified: current_mtime,
        supervision_status: fresh.supervision_status,
    }
}

/// Rescoring an unchanged file is idempotent: once a score has been stored
/// with the modification time of the file, every further request made while
/// the file has that modification time is answered with that very score, and
/// nothing is scored or written.
pub proof fn lemma_rescan_idempotent(fresh: FileScore, mtime: i64)
    ensures
        rescan_plan(mtime, Some(stamped(fresh, mtime).last_modified), Some(stamped(fresh, mtime)))
            == RescanPlan::Reuse(stamped(fresh, mtime)),
        forall|stored: FileScore|
            rescan_plan(mtime, Some(mtime), Some(stored)) == RescanPlan::Reuse(stored),
{
}

/// A copy of the strings `v`.
fn copy_strings(v: &Vec<String>) -> (r: Vec<String>)
    ensures
        r@ == v@,
{
    let mut r: Vec<String> = Vec::new();
    let mut i: usize = 0;
    while i < v.len()
        invariant
            i <= v@.len(),
            r@ == v@.take(i as int),
        decreases v@.len() - i,
    {
        r.push(v[i].clone());
        assert(r@ =~= v@.take(i + 1));
        i += 1;
    }
    assert(v@.take(v@.len() as int) =~= v@);
    r
}

/// A copy of the tree `node`.
pub fn copy_tree(node: &HeatmapNode) -> (r: HeatmapNode)
    ensures
        model_of(r) == model_of(*node),
    decreases node,
{
    let children = match &node.children {
        None => None,
        Some(cs) => Some(copy_trees(cs)),
    };
    HeatmapNode {
        name: node.name.clone(),
        path: node.path.clone(),
        score: node.score,
        loc: node.loc,
        children,
    }
}

/// Copies of the trees `nodes`.
fn copy_trees(nodes: &Vec<HeatmapNode>) -> (copies: Vec<HeatmapNode>)
    ensures
        copies@.len() == nodes@.len(),
        models_of(copies@, copies@.len()) == models_of(nodes@, nodes@.len()),
    decreases nodes,
{
    let mut copies: Vec<HeatmapNode> = Vec::new();
    let mut i: usize = 0;
    assert(models_of(copies@, 0) =~= models_of(nodes@, 0));
    while i < nodes.len()
        invariant
            i <= nodes@.len(),
            copies@.len() == i,
            models_of(copies@, i as nat) == models_of(nodes@, i as nat),
        decreases nodes@.len() - i,
    {
        proof {
            vstd::std_specs::vec::axiom_vec_index_decreases(*nodes, i as int);
        }
        let copy = copy_tree(&nodes[i]);
        proof {
            lemma_models_of(copies@, i as nat);
            lemma_models_of(nodes@, i as nat);
            lemma_models_of(nodes@, (i + 1) as nat);
            lemma_models_of(copies@.push(copy), (i + 1) as nat);
            assert(models_of(copies@.push(copy), (i + 1) as nat) =~= models_of(
                nodes@,
                (i + 1) as nat,
            ));
        }
        copies.push(copy);
        i += 1;
    }
    copies
}

/// Whether `cache` is bound to the workspace at `workspace_path`.
fn bound_to(cache: &AnalysisCache, workspace_path: &str) -> (r: bool)
    ensures
        r == is_bound_to(*cache, workspace_path@),
{
    match &cache.workspace_path {
        Some(p) => *p == String::from_str(workspace_path),
        None => false,
    }
}

/// The index of the first score of the file of `file` among `files`.
fn find_match(files: &Vec<FileScore>, file: &FileScore) -> (r: Option<usize>)
    ensures
        match r {
            Some(i) => i < files@.len() && match_index(files@, *file, 0) == Some(i as int),
            None => match_index(files@, *file, 0).is_none(),
        },
{
    let mut i: usize = 0;
    while i < files.len()
        invariant
            i <= files@.len(),
            match_index(files@, *file, 0) == match_index(files@, *file, i as int),
        decreases files@.len() - i,
    {
        if files[i].path == file.path || files[i].relative_path == file.relative_path {
            return Some(i);
        }
        i += 1;
    }
    None
}

/// Patches the score `file` of a file of the workspace at `workspace_path`
/// into `cache`. A cache that is empty or bound to another workspace is
/// replaced by one that holds this file alone. Otherwise the score takes the
/// place of the first score of the same file, or is added at the end; the
/// summary is computed anew and the heatmap is built anew.
pub fn patch_cached_result(cache: &mut AnalysisCache, workspace_path: &str, file: FileScore)
    ensures
        holds(
            *final(cache),
            workspace_path@,
            upserted(files_for(*old(cache), workspace_path@), file),
        ),
        final(cache).result.unwrap().duration_ms == duration_for(*old(cache), workspace_path@),
{
    let same = bound_to(cache, workspace_path);
    let (mut files, duration_ms) = if same {
        match cache.result.take() {
            Some(r) => (r.files, r.duration_ms),
            None => (Vec::new(), 0),
        }
    } else {
        (Vec::new(), 0)
    };
    assert(files@ =~= files_for(*old(cache), workspace_path@));
    match find_match(&files, &file) {
        Some(i) => {
            files[i] = file;
        },
        None => {
            files.push(file);
        },
    }
    let (workspace_score, high_debt_count) = summarize(&files);
    let heatmap = build_heatmap_tree(workspace_path, &files);
    if !same {
        cache.workspace_path = Some(String::from_str(workspace_path));
    }
    cache.result = Some(
        AnalysisResult {
            workspace_score,
            file_count: files.len(),
            high_debt_count,
            files,
            duration_ms,
        },
    );
    cache.heatmap = Some(heatmap);
}

/// Replaces what `cache` holds by the result `result` of a full scan of the
/// workspace at `workspace_path`, with its heatmap.
pub fn update_cache(cache: &mut AnalysisCache, workspace_path: String, result: AnalysisResult)
    ensures
        final(cache).workspace_path == Some(workspace_path),
        final(cache).result == Some(result),
        final(cache).heatmap.is_some(),
        model_of(final(cache).heatmap.unwrap()) == heatmap_model(workspace_path@, result.files@),
{
    let heatmap = build_heatmap_tree(workspace_path.as_str(), &result.files);
    cache.workspace_path = Some(workspace_path);
    cache.heatmap = Some(heatmap);
    cache.result = Some(result);
}

/// The heatmap that `cache` holds, or the message that there is none.
pub fn get_heatmap_data(cache: &AnalysisCache) -> (r: Result<HeatmapNode, String>)
    ensures
        match r {
            Ok(tree) => cache.heatmap.is_some() && model_of(tree) == model_of(
                cache.heatmap.unwrap(),
            ),
            Err(message) => cache.heatmap.is_none() && message@
                == "No analysis data available. Run analysis first."@,
        },
{
    match &cache.heatmap {
        Some(tree) => Ok(copy_tree(tree)),
        None => Err(String::from_str("No analysis data available. Run analysis first.")),
    }
}

/// Whether `d` is the verdict `c` under the name `name`.
pub open spec fn is_detail(d: ComponentDetail, name: Seq<char>, c: ComponentScore) -> bool {
    &&& d.name@ == name
    &&& d.raw_score == c.raw_score
    &&& d.weight == c.weight
    &&& d.contribution == c.contribution
    &&& d.details@ == c.details@
}

/// Whether `b` is the breakdown of the score `file`: its relative path, its
/// composite score as stored, and the eight verdicts under their names.
pub open spec fn is_breakdown(b: FileBreakdown, file: FileScore) -> bool {
    &&& b.path@ == file.relative_path@
    &&& b.composite_score == file.composite_score
    &&& b.components@.len() == 8
    &&& is_detail(b.components@[0], "churn_rate"@, file.components.churn_rate)
    &&& is_detail(b.components@[1], "code_smell_density"@, file.components.code_smell_density)
    &&& is_detail(b.components@[2], "coupling_index"@, file.components.coupling_index)
    &&& is_detail(b.components@[3], "change_coupling"@, file.components.change_coupling)
    &&& is_detail(b.components@[4], "test_coverage_gap"@, file.components.test_coverage_gap)
    &&& is_detail(
        b.components@[5],
        "knowledge_concentration"@,
        file.components.knowledge_concentration,
    )
    &&& is_detail(b.components@[6], "cyclomatic_complexity"@, file.components.cyclomatic_complexity)
    &&& is_detail(b.components@[7], "decision_staleness"@, file.components.decision_staleness)
}

/// Whether the score `file` is asked for by `path`: `path` is its relative
/// path or its path.
pub open spec fn is_asked(file: FileScore, path: Seq<char>) -> bool {
    file.relative_path@ == path || file.path@ == path
}

/// The index of the first score among `files` that `path` asks for, from
/// index `from` on.
pub open spec fn asked_index(files: Seq<FileScore>, path: Seq<char>, from: int) -> Option<int>
    decreases files.len() - from,
{
    if from < 0 || from >= files.len() {
        None
    } else if is_asked(files[from], path) {
        Some(from)
    } else {
        asked_index(files, path, from + 1)
    }
}

/// The verdict `component` under the name `name`.
pub fn to_detail(name: &str, component: &ComponentScore) -> (d: ComponentDetail)
    ensures
        is_detail(d, name@, *component),
{
    ComponentDetail {
        name: String::from_str(name),
        raw_score: component.raw_score,
        weight: component.weight,
        contribution: component.contribution,
        details: copy_strings(&component.details),
    }
}

/// The breakdown of the score `file`.
pub fn breakdown_of(file: &FileScore) -> (b: FileBreakdown)
    ensures
        is_breakdown(b, *file),
{
    let mut components: Vec<ComponentDetail> = Vec::new();
    components.push(to_detail("churn_rate", &file.components.churn_rate));
    components.push(to_detail("code_smell_density", &file.components.code_smell_density));
    components.push(to_detail("coupling_index", &file.components.coupling_index));
    components.push(to_detail("change_coupling", &file.components.change_coupling));
    components.push(to_detail("test_coverage_gap", &file.components.test_coverage_gap));
    components.push(to_detail("knowledge_concentration", &file.components.knowledge_concentration));
    components.push(to_detail("cyclomatic_complexity", &file.components.cyclomatic_complexity));
    components.push(to_detail("decision_staleness", &file.components.decision_staleness));
    FileBreakdown {
        path: file.relative_path.clone(),
        composite_score: file.composite_score,
        components,
    }
}

/// The breakdown of the first score in `cache` that `path` asks for, by its
/// relative path or its path. Without a result the message is `No analysis
/// data`; without such a score it is `File not found: ` and the path.
pub fn get_file_breakdown(path: &str, cache: &AnalysisCache) -> (r: Result<FileBreakdown, String>)
    ensures
        match r {
            Ok(b) => cache.result.is_some() && asked_index(
                cache.result.unwrap().files@,
                path@,
                0,
            ).is_some() && is_breakdown(
                b,
                cache.result.unwrap().files@[asked_index(
                    cache.result.unwrap().files@,
                    path@,
                    0,
                ).unwrap()],
            ),
            Err(message) => match cache.result {
                None => message@ == "No analysis data"@,
                Some(result) => asked_index(result.files@, path@, 0).is_none() && message@
                    == "File not found: "@ + path@,
            },
        },
{
    let result = match &cache.result {
        Some(r) => r,
        None => {
            return Err(String::from_str("No analysis data"));
        },
    };
    let wanted = String::from_str(path);
    let mut i: usize = 0;
    while i < result.files.len()
        invariant
            i <= result.files@.len(),
            wanted@ == path@,
            cache.result == Some(*result),
            asked_index(result.files@, path@, 0) == asked_index(result.files@, path@, i as int),
        decreases result.files@.len() - i,
    {
        let file = &result.files[i];
        if file.relative_path == wanted || file.path == wanted {
            return Ok(breakdown_of(file));
        }
        i += 1;
    }
    Err(String::from_str("File not found: ").concat(path))
}

} // verus!
