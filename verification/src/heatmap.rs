//! The heatmap: the scores of the files, folded into the tree of their
//! directories.

use vstd::prelude::*;
use vstd::string::StringExecFns;
use crate::fixed::Fixed;
use crate::models::file_score::{FileScore, HeatmapNode};
use crate::paths::{file_name, name_of};
use crate::text::{
    append, copy_chars, first_where, is_char, lemma_first_where, same_chars, to_chars,
    to_string, views,
};

verus! {

/// A heatmap as a value: what a `HeatmapNode` and the nodes below it hold.
pub struct TreeModel {
    pub name: Seq<char>,
    pub path: Seq<char>,
    pub score: Option<Fixed>,
    pub loc: Option<usize>,
    pub children: Option<Seq<TreeModel>>,
}

/// What a leaf of the heatmap carries: the path, the score and the size of a
/// file.
pub struct LeafData {
    pub path: Seq<char>,
    pub score: Fixed,
    pub loc: usize,
}

/// What the node `n` and the nodes below it hold.
pub open spec fn model_of(n: HeatmapNode) -> TreeModel
    decreases n,
{
    TreeModel {
        name: n.name@,
        path: n.path@,
        score: n.score,
        loc: n.loc,
        children: match n.children {
            Some(cs) => Some(models_of(cs@, cs@.len())),
            None => None,
        },
    }
}

/// What the first `k` of the nodes `cs` hold.
pub open spec fn models_of(cs: Seq<HeatmapNode>, k: nat) -> Seq<TreeModel>
    decreases cs, k,
{
    if k == 0 || k > cs.len() {
        Seq::empty()
    } else {
        models_of(cs, (k - 1) as nat).push(model_of(cs[k - 1]))
    }
}

/// The models of some nodes are as many as the nodes, each the model of its
/// node.
pub proof fn lemma_models_of(cs: Seq<HeatmapNode>, k: nat)
    requires
        k <= cs.len(),
    ensures
        models_of(cs, k).len() == k,
        forall|i: int| 0 <= i < k ==> #[trigger] models_of(cs, k)[i] == model_of(cs[i]),
    decreases k,
{
    if k > 0 {
        lemma_models_of(cs, (k - 1) as nat);
    }
}

/// The parts of `s` between the separators `c`. There is always one part at
/// least.
pub open spec fn split_on(s: Seq<char>, c: char) -> Seq<Seq<char>>
    decreases s.len(),
{
    let i = first_where(s, is_char(c));
    if 0 <= i < s.len() {
        seq![s.take(i)] + split_on(s.skip(i + 1), c)
    } else {
        seq![s]
    }
}

/// The leaf for a file named `name`.
pub open spec fn leaf_model(name: Seq<char>, leaf: LeafData) -> TreeModel {
    TreeModel {
        name,
        path: leaf.path,
        score: Some(leaf.score),
        loc: Some(leaf.loc),
        children: None,
    }
}

/// The empty directory named `name` at `path`.
pub open spec fn dir_model(name: Seq<char>, path: Seq<char>) -> TreeModel {
    TreeModel { name, path, score: None, loc: None, children: Some(Seq::empty()) }
}

/// The path of the directory `name` in the directory at `prefix`; the root
/// has the empty prefix.
pub open spec fn child_path(prefix: Seq<char>, name: Seq<char>) -> Seq<char> {
    if prefix.len() == 0 {
        name
    } else {
        prefix + seq!['/'] + name
    }
}

/// The index of the first directory named `name` among `children`, from
/// index `from` on. A file of that name is passed over.
pub open spec fn dir_index(children: Seq<TreeModel>, name: Seq<char>, from: int) -> Option<int>
    decreases children.len() - from,
{
    if from < 0 || from >= children.len() {
        None
    } else if children[from].name == name && children[from].children.is_some() {
        Some(from)
    } else {
        dir_index(children, name, from + 1)
    }
}

/// The children of `node`, none for a leaf.
pub open spec fn children_of(node: TreeModel) -> Seq<TreeModel> {
    match node.children {
        Some(cs) => cs,
        None => Seq::empty(),
    }
}

/// `node` with the children `children`.
pub open spec fn with_children(node: TreeModel, children: Seq<TreeModel>) -> TreeModel {
    TreeModel {
        name: node.name,
        path: node.path,
        score: node.score,
        loc: node.loc,
        children: Some(children),
    }
}

/// The tree `node`, a directory at `prefix`, after the file `leaf` has been
/// put in at the path `parts` below it: the last part names the leaf, which
/// is added after the other children of its directory; each part before it
/// names a directory, which is the first one of that name or else a new one,
/// added after the other children.
pub open spec fn insert_model(
    node: TreeModel,
    parts: Seq<Seq<char>>,
    leaf: LeafData,
    prefix: Seq<char>,
) -> TreeModel
    decreases parts.len(),
{
    if parts.len() == 0 {
        node
    } else if parts.len() == 1 {
        with_children(node, children_of(node).push(leaf_model(parts[0], leaf)))
    } else {
        let children = children_of(node);
        let next = child_path(prefix, parts[0]);
        match dir_index(children, parts[0], 0) {
            Some(i) => with_children(
                node,
                children.update(i, insert_model(children[i], parts.skip(1), leaf, next)),
            ),
            None => with_children(
                node,
                children.push(insert_model(dir_model(parts[0], next), parts.skip(1), leaf, next)),
            ),
        }
    }
}

/// What the file `file` contributes to the heatmap.
pub open spec fn leaf_of(file: FileScore) -> LeafData {
    LeafData { path: file.relative_path@, score: file.composite_score, loc: file.loc }
}

/// The root of the heatmap of the workspace at `root`: named after the last
/// segment of the path, or `root` where it has none.
pub open spec fn root_model(root: Seq<char>) -> TreeModel {
    dir_model(
        match file_name(root) {
            Some(n) => n,
            None => "root"@,
        },
        root,
    )
}

/// The heatmap of the workspace at `root` with the first `k` of `files`, put
/// in one after the other.
pub open spec fn heatmap_upto(root: Seq<char>, files: Seq<FileScore>, k: nat) -> TreeModel
    decreases k,
{
    if k == 0 {
        root_model(root)
    } else {
        insert_model(
            heatmap_upto(root, files, (k - 1) as nat),
            split_on(files[k - 1].relative_path@, '/'),
            leaf_of(files[k - 1]),
            Seq::empty(),
        )
    }
}

/// The heatmap of the workspace at `root` with the files `files`.
pub open spec fn heatmap_model(root: Seq<char>, files: Seq<FileScore>) -> TreeModel {
    heatmap_upto(root, files, files.len())
}

/// The parts of `s` between the separators `c`.
pub fn split(s: &[char], c: char) -> (parts: Vec<Vec<char>>)
    ensures
        views(parts@) == split_on(s@, c),
        parts@.len() >= 1,
{
    let mut parts: Vec<Vec<char>> = Vec::new();
    let mut start: usize = 0;
    let mut i: usize = 0;
    assert(s@.skip(0) =~= s@);
    assert(views(parts@) =~= Seq::empty());
    while i < s.len()
        invariant
            start <= i <= s.len(),
            split_on(s@, c) == views(parts@) + split_on(s@.skip(start as int), c),
            forall|j: int| start <= j < i ==> s@[j] != c,
        decreases s.len() - i,
    {
        if s[i] == c {
            let part = copy_chars(vstd::slice::slice_subrange(s, start, i));
            proof {
                let rest = s@.skip(start as int);
                assert forall|j: int| 0 <= j < i - start implies !is_char(c)(#[trigger] rest[j]) by {
                    assert(rest[j] == s@[start + j]);
                }
                lemma_first_where(rest, is_char(c), i - start);
                assert(rest.take(i - start) =~= s@.subrange(start as int, i as int));
                assert(rest.skip(i - start + 1) =~= s@.skip(i + 1));
                assert(views(parts@.push(part)) =~= views(parts@).push(part@));
                assert(views(parts@).push(part@) + split_on(s@.skip(i + 1), c) =~= views(parts@) + (
                seq![part@] + split_on(s@.skip(i + 1), c)));
            }
            parts.push(part);
            start = i + 1;
        }
        i += 1;
    }
    let part = copy_chars(vstd::slice::slice_subrange(s, start, s.len()));
    proof {
        let rest = s@.skip(start as int);
        assert forall|j: int| 0 <= j < rest.len() implies !is_char(c)(#[trigger] rest[j]) by {
            assert(rest[j] == s@[start + j]);
        }
        lemma_first_where(rest, is_char(c), rest.len() as int);
        assert(rest =~= s@.subrange(start as int, s@.len() as int));
        assert(views(parts@.push(part)) =~= views(parts@).push(part@));
        assert(views(parts@).push(part@) =~= views(parts@) + seq![part@]);
    }
    parts.push(part);
    parts
}

/// The index of the first directory named `name` among `children`.
fn find_dir(children: &Vec<HeatmapNode>, name: &[char]) -> (r: Option<usize>)
    ensures
        match r {
            Some(i) => i < children@.len() && dir_index(
                models_of(children@, children@.len()),
                name@,
                0,
            ) == Some(i as int),
            None => dir_index(models_of(children@, children@.len()), name@, 0).is_none(),
        },
{
    let ghost ms = models_of(children@, children@.len());
    proof {
        lemma_models_of(children@, children@.len());
    }
    let mut i: usize = 0;
    while i < children.len()
        invariant
            i <= children@.len(),
            ms == models_of(children@, children@.len()),
            ms.len() == children@.len(),
            forall|j: int| 0 <= j < ms.len() ==> #[trigger] ms[j] == model_of(children@[j]),
            dir_index(ms, name@, 0) == dir_index(ms, name@, i as int),
        decreases children@.len() - i,
    {
        let child = &children[i];
        assert(ms[i as int] == model_of(children@[i as int]));
        let child_name = to_chars(child.name.as_str());
        if child.children.is_some() && same_chars(child_name.as_slice(), name) {
            return Some(i);
        }
        i += 1;
    }
    None
}

/// Puts the file `file` into the tree `node`, a directory at `prefix`, at the
/// path that the parts of `parts` from index `at` on spell.
pub fn insert_into_tree(
    node: HeatmapNode,
    parts: &Vec<Vec<char>>,
    at: usize,
    file: &FileScore,
    prefix: &[char],
) -> (r: HeatmapNode)
    requires
        at <= parts@.len(),
    ensures
        model_of(r) == insert_model(
            model_of(node),
            views(parts@).skip(at as int),
            leaf_of(*file),
            prefix@,
        ),
    decreases parts@.len() - at,
{
    let ghost rest = views(parts@).skip(at as int);
    if at >= parts.len() {
        return node;
    }
    assert(rest[0] == parts@[at as int]@);
    let HeatmapNode { name, path, score, loc, children } = node;
    let mut children = match children {
        Some(c) => c,
        None => Vec::new(),
    };
    let ghost before = children@;
    proof {
        lemma_models_of(before, before.len());
        assert(models_of(before, before.len()) =~= children_of(model_of(node)));
    }
    if parts.len() - at == 1 {
        let leaf = HeatmapNode {
            name: to_string(parts[at].as_slice()),
            path: file.relative_path.clone(),
            score: Some(file.composite_score),
            loc: Some(file.loc),
            children: None,
        };
        children.push(leaf);
        proof {
            lemma_models_of(children@, children@.len());
            assert(models_of(children@, children@.len()) =~= models_of(before, before.len()).push(
                leaf_model(rest[0], leaf_of(*file)),
            ));
        }
        return HeatmapNode { name, path, score, loc, children: Some(children) };
    }
    let dir_name = parts[at].as_slice();
    let mut next: Vec<char> = copy_chars(prefix);
    if prefix.len() > 0 {
        next.push('/');
        append(&mut next, dir_name);
        assert(next@ =~= child_path(prefix@, dir_name@));
    } else {
        append(&mut next, dir_name);
        assert(next@ =~= child_path(prefix@, dir_name@));
    }
    assert(rest.skip(1) =~= views(parts@).skip(at + 1));
    match find_dir(&children, dir_name) {
        Some(i) => {
            let child = children.remove(i);
            let grown = insert_into_tree(child, parts, at + 1, file, next.as_slice());
            children.insert(i, grown);
            proof {
                lemma_models_of(children@, children@.len());
                assert(children@ =~= before.update(i as int, grown));
                assert(models_of(children@, children@.len()) =~= models_of(
                    before,
                    before.len(),
                ).update(i as int, model_of(grown)));
            }
        },
        None => {
            let fresh = HeatmapNode {
                name: to_string(dir_name),
                path: to_string(next.as_slice()),
                score: None,
                loc: None,
                children: Some(Vec::new()),
            };
            proof {
                assert(models_of(Seq::<HeatmapNode>::empty(), 0) =~= Seq::<TreeModel>::empty());
                assert(model_of(fresh) == dir_model(dir_name@, next@));
            }
            let grown = insert_into_tree(fresh, parts, at + 1, file, next.as_slice());
            children.push(grown);
            proof {
                lemma_models_of(children@, children@.len());
                assert(models_of(children@, children@.len()) =~= models_of(
                    before,
                    before.len(),
                ).push(model_of(grown)));
            }
        },
    }
    HeatmapNode { name, path, score, loc, children: Some(children) }
}

/// Builds the heatmap of the workspace at `workspace_path` from the scores
/// `files`: each file becomes a leaf at its relative path, below the
/// directories that the path names. The root carries no score.
pub fn build_heatmap_tree(workspace_path: &str, files: &Vec<FileScore>) -> (root: HeatmapNode)
    ensures
        model_of(root) == heatmap_model(workspace_path@, files@),
        root.score.is_none(),
        root.path@ == workspace_path@,
{
    let ws = to_chars(workspace_path);
    let name = match name_of(ws.as_slice()) {
        Some(n) => to_string(n),
        None => String::from_str("root"),
    };
    let mut root = HeatmapNode {
        name,
        path: String::from_str(workspace_path),
        score: None,
        loc: None,
        children: Some(Vec::new()),
    };
    proof {
        assert(models_of(Seq::<HeatmapNode>::empty(), 0) =~= Seq::<TreeModel>::empty());
    }
    let empty: Vec<char> = Vec::new();
    let mut i: usize = 0;
    while i < files.len()
        invariant
            i <= files@.len(),
            empty@.len() == 0,
            model_of(root) == heatmap_upto(workspace_path@, files@, i as nat),
        decreases files@.len() - i,
    {
        let rel = to_chars(files[i].relative_path.as_str());
        let parts = split(rel.as_slice(), '/');
        assert(views(parts@).skip(0) =~= views(parts@));
        assert(empty@ =~= Seq::<char>::empty());
        root = insert_into_tree(root, &parts, 0, &files[i], empty.as_slice());
        i += 1;
    }
    proof {
        lemma_root_has_no_score(workspace_path@, files@, files@.len());
    }
    root
}

/// The first `k` of `parts`, with separators between them.
pub open spec fn joined_prefix(parts: Seq<Seq<char>>, k: nat) -> Seq<char>
    decreases k,
{
    if k == 0 {
        Seq::empty()
    } else if k == 1 {
        parts[0]
    } else {
        joined_prefix(parts, (k - 1) as nat) + seq!['/'] + parts[k - 1]
    }
}

/// Whether `chain`, the paths of the directories from below the root down to
/// a leaf, is what the path `path` of the leaf says: its parts but the last,
/// joined one more at a time.
pub open spec fn leaf_fits(path: Seq<char>, chain: Seq<Seq<char>>) -> bool {
    let parts = split_on(path, '/');
    &&& parts.len() == chain.len() + 1
    &&& forall|m: int| 0 <= m < chain.len() ==> #[trigger] chain[m] == joined_prefix(parts, (m + 1) as nat)
}

/// Whether the node `t`, which stands in the directory at `prefix` below the
/// directories at `chain`, and every node below it are in their places: a
/// directory has the path of its parent and its own name, and the path of a
/// leaf spells the chain of the directories that lead to it.
pub open spec fn well_placed(t: TreeModel, prefix: Seq<char>, chain: Seq<Seq<char>>) -> bool
    decreases t,
{
    match t.children {
        None => leaf_fits(t.path, chain),
        Some(cs) => t.path == child_path(prefix, t.name) && forall|i: int|
            0 <= i < cs.len() ==> well_placed(#[trigger] cs[i], t.path, chain.push(t.path)),
    }
}

/// Whether the heatmap `root` is in order: the root is a directory without a
/// score, and every node below it is in its place.
pub open spec fn heatmap_ok(root: TreeModel) -> bool {
    &&& root.score.is_none()
    &&& root.children.is_some()
    &&& forall|i: int|
        0 <= i < children_of(root).len() ==> well_placed(
            #[trigger] children_of(root)[i],
            Seq::empty(),
            Seq::empty(),
        )
}

/// Whether the parts of a path but the last, each joined to those before it,
/// are the paths `chain`, and `prefix` is the last of these, or empty where
/// there is none.
pub open spec fn chain_of(parts: Seq<Seq<char>>, k: nat, prefix: Seq<char>, chain: Seq<Seq<char>>)
    -> bool {
    &&& chain.len() == k
    &&& forall|m: int| 0 <= m < k ==> #[trigger] chain[m] == joined_prefix(parts, (m + 1) as nat)
    &&& prefix == joined_prefix(parts, k)
    &&& k >= 1 ==> prefix.len() > 0
}

/// Putting a file into a directory whose nodes are in their places leaves
/// them so, as long as the directory is the one that the first `k` parts of
/// the file's path name.
proof fn lemma_insert_keeps_places(
    node: TreeModel,
    parts: Seq<Seq<char>>,
    k: nat,
    leaf: LeafData,
    prefix: Seq<char>,
    chain: Seq<Seq<char>>,
)
    requires
        parts == split_on(leaf.path, '/'),
        k < parts.len(),
        parts.len() == 1 || parts[0].len() > 0,
        chain_of(parts, k, prefix, chain),
        node.children.is_some(),
        forall|i: int|
            0 <= i < children_of(node).len() ==> well_placed(
                #[trigger] children_of(node)[i],
                prefix,
                chain,
            ),
    ensures
        ({
            let r = insert_model(node, parts.skip(k as int), leaf, prefix);
            &&& r.children.is_some()
            &&& r.name == node.name
            &&& r.path == node.path
            &&& r.score == node.score
            &&& forall|i: int|
                0 <= i < children_of(r).len() ==> well_placed(
                    #[trigger] children_of(r)[i],
                    prefix,
                    chain,
                )
        }),
    decreases parts.len() - k,
{
    let rest = parts.skip(k as int);
    let children = children_of(node);
    let r = insert_model(node, rest, leaf, prefix);
    assert(rest[0] == parts[k as int]);
    if rest.len() == 1 {
        let added = leaf_model(rest[0], leaf);
        assert(children_of(r) =~= children.push(added));
        assert(well_placed(added, prefix, chain));
        assert forall|i: int| 0 <= i < children_of(r).len() implies well_placed(
            #[trigger] children_of(r)[i],
            prefix,
            chain,
        ) by {
            if i < children.len() {
                assert(children_of(r)[i] == children[i]);
            }
        }
    } else {
        let dir = rest[0];
        let next = child_path(prefix, dir);
        let longer = chain.push(next);
        assert(rest.skip(1) =~= parts.skip(k + 1 as int));
        assert(next == joined_prefix(parts, k + 1));
        assert(next.len() > 0);
        assert(chain_of(parts, k + 1, next, longer));
        match dir_index(children, dir, 0) {
            Some(i) => {
                lemma_dir_index(children, dir, 0);
                let child = children[i];
                assert(well_placed(child, prefix, chain));
                assert(child.path == next);
                assert(chain.push(child.path) == longer);
                assert forall|j: int| 0 <= j < children_of(child).len() implies well_placed(
                    #[trigger] children_of(child)[j],
                    next,
                    longer,
                ) by {
                    assert(well_placed(child.children->0[j], child.path, chain.push(child.path)));
                }
                lemma_insert_keeps_places(child, parts, k + 1, leaf, next, longer);
                let grown = insert_model(child, rest.skip(1), leaf, next);
                assert(children_of(r) =~= children.update(i, grown));
                assert(well_placed(grown, prefix, chain)) by {
                    assert(grown.path == child_path(prefix, grown.name));
                    assert forall|j: int| 0 <= j < grown.children->0.len() implies well_placed(
                        #[trigger] grown.children->0[j],
                        grown.path,
                        chain.push(grown.path),
                    ) by {
                        assert(well_placed(children_of(grown)[j], next, longer));
                    }
                }
                assert forall|j: int| 0 <= j < children_of(r).len() implies well_placed(
                    #[trigger] children_of(r)[j],
                    prefix,
                    chain,
                ) by {
                    if j != i {
                        assert(children_of(r)[j] == children[j]);
                    }
                }
            },
            None => {
                let fresh = dir_model(dir, next);
                lemma_insert_keeps_places(fresh, parts, k + 1, leaf, next, longer);
                let grown = insert_model(fresh, rest.skip(1), leaf, next);
                assert(children_of(r) =~= children.push(grown));
                assert(well_placed(grown, prefix, chain)) by {
                    assert(grown.path == child_path(prefix, grown.name));
                    assert(chain.push(grown.path) == longer);
                    assert forall|j: int| 0 <= j < grown.children->0.len() implies well_placed(
                        #[trigger] grown.children->0[j],
                        grown.path,
                        chain.push(grown.path),
                    ) by {
                        assert(well_placed(children_of(grown)[j], next, longer));
                    }
                }
                assert forall|j: int| 0 <= j < children_of(r).len() implies well_placed(
                    #[trigger] children_of(r)[j],
                    prefix,
                    chain,
                ) by {
                    if j < children.len() {
                        assert(children_of(r)[j] == children[j]);
                    }
                }
            },
        }
    }
}

/// What `dir_index` finds is a directory of the name that was asked for.
proof fn lemma_dir_index(children: Seq<TreeModel>, name: Seq<char>, from: int)
    requires
        0 <= from,
    ensures
        match dir_index(children, name, from) {
            Some(i) => from <= i < children.len() && children[i].name == name
                && children[i].children.is_some(),
            None => true,
        },
    decreases children.len() - from,
{
    if from < children.len() && !(children[from].name == name && children[from].children.is_some()) {
        lemma_dir_index(children, name, from + 1);
    }
}

/// The first part of a path that does not begin with a separator is not
/// empty, unless it is the only one.
proof fn lemma_first_part(path: Seq<char>)
    requires
        path.len() == 0 || path[0] != '/',
    ensures
        split_on(path, '/').len() >= 1,
        split_on(path, '/').len() == 1 || split_on(path, '/')[0].len() > 0,
{
    let i = first_where(path, is_char('/'));
    crate::text::lemma_first_where_props(path, is_char('/'));
    if 0 <= i < path.len() {
        assert(i > 0);
        assert(split_on(path, '/')[0] == path.take(i));
    }
}

/// In the heatmap of files whose relative paths do not begin with a
/// separator, the root has no score, and the path of every leaf, split at the
/// separators and joined again one part more at a time, gives the paths of
/// the directories that lead from the root to the leaf.
pub proof fn lemma_heatmap_invariant(root: Seq<char>, files: Seq<FileScore>)
    requires
        forall|i: int|
            0 <= i < files.len() ==> (#[trigger] files[i]).relative_path@.len() == 0
                || files[i].relative_path@[0] != '/',
    ensures
        heatmap_ok(heatmap_model(root, files)),
{
    lemma_heatmap_upto(root, files, files.len());
}

/// The same, for the heatmap of the first `k` files.
proof fn lemma_heatmap_upto(root: Seq<char>, files: Seq<FileScore>, k: nat)
    requires
        k <= files.len(),
        forall|i: int|
            0 <= i < files.len() ==> (#[trigger] files[i]).relative_path@.len() == 0
                || files[i].relative_path@[0] != '/',
    ensures
        heatmap_ok(heatmap_upto(root, files, k)),
    decreases k,
{
    if k > 0 {
        lemma_heatmap_upto(root, files, (k - 1) as nat);
        let before = heatmap_upto(root, files, (k - 1) as nat);
        let file = files[k - 1];
        let parts = split_on(file.relative_path@, '/');
        lemma_first_part(file.relative_path@);
        assert(parts.skip(0) =~= parts);
        lemma_insert_keeps_places(
            before,
            parts,
            0,
            leaf_of(file),
            Seq::empty(),
            Seq::empty(),
        );
    }
}

/// The root of a heatmap has no score, whatever the files.
pub proof fn lemma_root_has_no_score(root: Seq<char>, files: Seq<FileScore>, k: nat)
    ensures
        heatmap_upto(root, files, k).score.is_none(),
        heatmap_upto(root, files, k).path == root,
    decreases k,
{
    if k > 0 {
        lemma_root_has_no_score(root, files, (k - 1) as nat);
        let before = heatmap_upto(root, files, (k - 1) as nat);
        let parts = split_on(files[k - 1].relative_path@, '/');
        lemma_insert_keeps_root(before, parts, leaf_of(files[k - 1]), Seq::empty());
    }
}

/// Putting a file into a tree changes neither name nor path nor score of its
/// root.
proof fn lemma_insert_keeps_root(
    node: TreeModel,
    parts: Seq<Seq<char>>,
    leaf: LeafData,
    prefix: Seq<char>,
)
    ensures
        insert_model(node, parts, leaf, prefix).name == node.name,
        insert_model(node, parts, leaf, prefix).path == node.path,
        insert_model(node, parts, leaf, prefix).score == node.score,
        insert_model(node, parts, leaf, prefix).loc == node.loc,
{
}

} // verus!
