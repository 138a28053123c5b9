//! Structural coupling: how many imports lead to and from a file.

use vstd::prelude::*;
use crate::analysis::imports::{imports_in, imports_of};
use crate::analysis::smells::saturated;
use crate::fixed::{capped_ratio, ratio_units, Fixed, FULL_SCORE};
use crate::paths::{
    below_root, language_at, language_of_path, path_below, stem_of_path, stem_or_empty,
};
use crate::table::Table;
use crate::text::{copy_chars, lines_of, same_chars, split_lines, texts, to_chars, to_string};

verus! {

/// A file of the workspace: its path, and its text where it could be read.
#[derive(Clone, Debug)]
pub struct WorkspaceFile {
    pub path: String,
    pub source: Option<String>,
}

/// The path of file `g` as seen from the root.
pub open spec fn rel_of(files: Seq<WorkspaceFile>, root: Seq<char>, g: int) -> Seq<char> {
    below_root(root, files[g].path@)
}

/// The imports of file `g`: none where it could not be read.
pub open spec fn imports_at(files: Seq<WorkspaceFile>, g: int) -> Seq<Seq<char>> {
    match files[g].source {
        Some(s) => imports_of(lines_of(s@), language_of_path(files[g].path@)),
        None => Seq::empty(),
    }
}

/// Whether file `g` may be what file `f` means by `import`: another file
/// whose name without extension is that of the import.
pub open spec fn is_target(
    files: Seq<WorkspaceFile>,
    root: Seq<char>,
    f: int,
    import: Seq<char>,
    g: int,
) -> bool {
    stem_or_empty(rel_of(files, root, g)) == stem_or_empty(import) && rel_of(files, root, g)
        != rel_of(files, root, f)
}

/// The first file from `g` on that file `f` may mean by `import`.
pub open spec fn target_from(
    files: Seq<WorkspaceFile>,
    root: Seq<char>,
    f: int,
    import: Seq<char>,
    g: int,
) -> Option<int>
    decreases files.len() - g,
{
    if g < 0 || g >= files.len() {
        None
    } else if is_target(files, root, f, import, g) {
        Some(g)
    } else {
        target_from(files, root, f, import, g + 1)
    }
}

/// Whether the import `import` of file `f` leads to the path `k`.
pub open spec fn leads_to(
    files: Seq<WorkspaceFile>,
    root: Seq<char>,
    f: int,
    import: Seq<char>,
    k: Seq<char>,
) -> bool {
    match target_from(files, root, f, import, 0) {
        Some(g) => rel_of(files, root, g) == k,
        None => false,
    }
}

/// The number of the first `j` imports of file `f` that lead to the path `k`.
pub open spec fn in_row(
    files: Seq<WorkspaceFile>,
    root: Seq<char>,
    f: int,
    j: nat,
    k: Seq<char>,
) -> nat
    decreases j,
{
    if j == 0 {
        0
    } else {
        in_row(files, root, f, (j - 1) as nat, k) + if leads_to(
            files,
            root,
            f,
            imports_at(files, f)[j - 1],
            k,
        ) {
            1nat
        } else {
            0nat
        }
    }
}

/// The number of imports of the first `i` files that lead to the path `k`.
pub open spec fn in_degree_upto(files: Seq<WorkspaceFile>, root: Seq<char>, i: nat, k: Seq<char>)
    -> nat
    decreases i,
{
    if i == 0 {
        0
    } else {
        in_degree_upto(files, root, (i - 1) as nat, k) + in_row(
            files,
            root,
            i - 1,
            imports_at(files, i - 1).len(),
            k,
        )
    }
}

/// The number of imports of the last readable file with the path `k` among
/// the first `i` files.
pub open spec fn out_degree_upto(files: Seq<WorkspaceFile>, root: Seq<char>, i: nat, k: Seq<char>)
    -> nat
    decreases i,
{
    if i == 0 {
        0
    } else if files[i - 1].source.is_some() && rel_of(files, root, i - 1) == k {
        imports_at(files, i - 1).len()
    } else {
        out_degree_upto(files, root, (i - 1) as nat, k)
    }
}

/// The imports that lead to and from the path `k`. A number of imports
/// beyond the largest `usize` stands as that.
pub open spec fn degree(files: Seq<WorkspaceFile>, root: Seq<char>, k: Seq<char>) -> nat {
    saturated(in_degree_upto(files, root, files.len(), k)) as nat + saturated(
        out_degree_upto(files, root, files.len(), k),
    ) as nat
}

/// The largest degree among the first `g` files.
pub open spec fn max_degree_upto(files: Seq<WorkspaceFile>, root: Seq<char>, g: nat) -> nat
    decreases g,
{
    if g == 0 {
        0
    } else {
        let rest = max_degree_upto(files, root, (g - 1) as nat);
        let own = degree(files, root, rel_of(files, root, g - 1));
        if own > rest {
            own
        } else {
            rest
        }
    }
}

/// The coupling score, in units, of a file of degree `own` in a workspace
/// whose largest degree is `most`: the file's degree as a percentage of twice
/// the largest, at most 100; 0 in a workspace without imports.
pub open spec fn coupling_units(own: nat, most: nat) -> nat {
    capped_ratio(own, 2 * most, FULL_SCORE as nat, FULL_SCORE as nat)
}

/// The coupling score, in units, of the file at `rel`.
pub open spec fn coupling_index_units(files: Seq<WorkspaceFile>, root: Seq<char>, rel: Seq<char>)
    -> nat {
    coupling_units(degree(files, root, rel), max_degree_upto(files, root, files.len()))
}

/// The paths of `files` as seen from `root`.
fn relative_paths(files: &Vec<WorkspaceFile>, root: &[char]) -> (rels: Vec<Vec<char>>)
    ensures
        rels@.len() == files@.len(),
        forall|g: int| 0 <= g < files@.len() ==> (#[trigger] rels@[g])@ == rel_of(files@, root@, g),
{
    let mut rels: Vec<Vec<char>> = Vec::new();
    let mut g: usize = 0;
    while g < files.len()
        invariant
            g <= files@.len(),
            rels@.len() == g,
            forall|h: int| 0 <= h < g ==> (#[trigger] rels@[h])@ == rel_of(files@, root@, h),
        decreases files@.len() - g,
    {
        let path = to_chars(files[g].path.as_str());
        rels.push(copy_chars(path_below(root, path.as_slice())));
        g += 1;
    }
    rels
}

/// The names without extension of the paths `rels`.
fn stems_of(rels: &Vec<Vec<char>>) -> (stems: Vec<Vec<char>>)
    ensures
        stems@.len() == rels@.len(),
        forall|g: int| 0 <= g < rels@.len() ==> (#[trigger] stems@[g])@ == stem_or_empty(rels@[g]@),
{
    let mut stems: Vec<Vec<char>> = Vec::new();
    let mut g: usize = 0;
    while g < rels.len()
        invariant
            g <= rels@.len(),
            stems@.len() == g,
            forall|h: int| 0 <= h < g ==> (#[trigger] stems@[h])@ == stem_or_empty(rels@[h]@),
        decreases rels@.len() - g,
    {
        stems.push(stem_of_path(rels[g].as_slice()));
        g += 1;
    }
    stems
}

/// The first file that file `f` may mean by `import`.
fn resolve(
    Ghost(files): Ghost<Seq<WorkspaceFile>>,
    Ghost(root): Ghost<Seq<char>>,
    rels: &Vec<Vec<char>>,
    stems: &Vec<Vec<char>>,
    f: usize,
    import: &[char],
) -> (r: Option<usize>)
    requires
        f < files.len(),
        rels@.len() == files.len(),
        stems@.len() == files.len(),
        forall|g: int| 0 <= g < files.len() ==> (#[trigger] rels@[g])@ == rel_of(files, root, g),
        forall|g: int|
            0 <= g < files.len() ==> (#[trigger] stems@[g])@ == stem_or_empty(
                rel_of(files, root, g),
            ),
    ensures
        match r {
            Some(g) => g < files.len() && target_from(files, root, f as int, import@, 0) == Some(
                g as int,
            ),
            None => target_from(files, root, f as int, import@, 0).is_none(),
        },
{
    let wanted = stem_of_path(import);
    let mut g: usize = 0;
    while g < rels.len()
        invariant
            g <= files.len(),
            f < files.len(),
            rels@.len() == files.len(),
            stems@.len() == files.len(),
            wanted@ == stem_or_empty(import@),
            forall|h: int| 0 <= h < files.len() ==> (#[trigger] rels@[h])@ == rel_of(files, root, h),
            forall|h: int|
                0 <= h < files.len() ==> (#[trigger] stems@[h])@ == stem_or_empty(
                    rel_of(files, root, h),
                ),
            target_from(files, root, f as int, import@, 0) == target_from(
                files,
                root,
                f as int,
                import@,
                g as int,
            ),
        decreases files.len() - g,
    {
        assert(rels@[g as int]@ == rel_of(files, root, g as int));
        assert(rels@[f as int]@ == rel_of(files, root, f as int));
        assert(stems@[g as int]@ == stem_or_empty(rel_of(files, root, g as int)));
        if same_chars(stems[g].as_slice(), wanted.as_slice()) && !same_chars(
            rels[g].as_slice(),
            rels[f].as_slice(),
        ) {
            return Some(g);
        }
        g += 1;
    }
    None
}

/// The coupling score of the file at `relative_path` in the workspace at
/// `workspace_path` with the files `files`: the imports that lead to and from
/// the file, as a percentage of twice the largest such number among the
/// files. An import leads to the first other file whose name without
/// extension is that of the import.
pub fn compute_coupling_index(
    relative_path: &str,
    workspace_path: &str,
    files: &Vec<WorkspaceFile>,
) -> (score: Fixed)
    ensures
        score.units == coupling_index_units(files@, workspace_path@, relative_path@),
        score.units <= FULL_SCORE,
{
    let root = to_chars(workspace_path);
    let root = root.as_slice();
    let ghost fs = files@;
    let ghost rt = workspace_path@;
    let rels = relative_paths(files, root);
    let stems = stems_of(&rels);
    let mut out_degree: Table<usize> = Table::new();
    let mut in_degree: Table<usize> = Table::new();
    let mut i: usize = 0;
    while i < files.len()
        invariant
            i <= fs.len(),
            fs == files@,
            rt == root@,
            rels@.len() == fs.len(),
            stems@.len() == fs.len(),
            forall|g: int| 0 <= g < fs.len() ==> (#[trigger] rels@[g])@ == rel_of(fs, rt, g),
            forall|g: int|
                0 <= g < fs.len() ==> (#[trigger] stems@[g])@ == stem_or_empty(rel_of(fs, rt, g)),
            forall|k: Seq<char>|
                out_degree.count_spec(k) == out_degree_upto(fs, rt, i as nat, k),
            forall|k: Seq<char>|
                in_degree.count_spec(k) == saturated(in_degree_upto(fs, rt, i as nat, k)),
        decreases fs.len() - i,
    {
        assert(rels@[i as int]@ == rel_of(fs, rt, i as int));
        match &files[i].source {
            None => {
                assert(imports_at(fs, i as int).len() == 0);
            },
            Some(source) => {
                let path = to_chars(files[i].path.as_str());
                let lang = language_at(path.as_slice());
                let text = to_chars(source.as_str());
                let lines = split_lines(text.as_slice());
                let imports = imports_in(&lines, lang);
                assert(texts(imports@) == imports_at(fs, i as int));
                let ghost before = out_degree;
                out_degree.insert(to_string(rels[i].as_slice()), imports.len());
                proof {
                    assert(imports@.len() == texts(imports@).len());
                    assert(fs[i as int].source.is_some());
                    assert forall|k: Seq<char>|
                        out_degree.count_spec(k) == out_degree_upto(fs, rt, (i + 1) as nat, k) by {
                        assert(before.count_spec(k) == out_degree_upto(fs, rt, i as nat, k));
                    }
                }
                let mut j: usize = 0;
                while j < imports.len()
                    invariant
                        j <= imports@.len(),
                        i < fs.len(),
                        fs == files@,
                        rt == root@,
                        texts(imports@) == imports_at(fs, i as int),
                        forall|k: Seq<char>|
                            out_degree.count_spec(k) == out_degree_upto(fs, rt, (i + 1) as nat, k),
                        rels@.len() == fs.len(),
                        stems@.len() == fs.len(),
                        forall|g: int|
                            0 <= g < fs.len() ==> (#[trigger] rels@[g])@ == rel_of(fs, rt, g),
                        forall|g: int|
                            0 <= g < fs.len() ==> (#[trigger] stems@[g])@ == stem_or_empty(
                                rel_of(fs, rt, g),
                            ),
                        forall|k: Seq<char>|
                            in_degree.count_spec(k) == saturated(
                                in_degree_upto(fs, rt, i as nat, k) + in_row(
                                    fs,
                                    rt,
                                    i as int,
                                    j as nat,
                                    k,
                                ),
                            ),
                    decreases imports@.len() - j,
                {
                    let import = to_chars(imports[j].as_str());
                    assert(import@ == imports_at(fs, i as int)[j as int]) by {
                        assert(texts(imports@)[j as int] == imports@[j as int]@);
                    }
                    match resolve(Ghost(fs), Ghost(rt), &rels, &stems, i, import.as_slice()) {
                        Some(g) => {
                            assert(rels@[g as int]@ == rel_of(fs, rt, g as int));
                            let target = to_string(rels[g].as_slice());
                            in_degree.increment(target.as_str());
                        },
                        None => {},
                    }
                    j += 1;
                }
            },
        }
        i += 1;
    }
    let mut most: u128 = 0;
    let mut g: usize = 0;
    while g < rels.len()
        invariant
            g <= fs.len(),
            rels@.len() == fs.len(),
            forall|h: int| 0 <= h < fs.len() ==> (#[trigger] rels@[h])@ == rel_of(fs, rt, h),
            forall|k: Seq<char>|
                out_degree.count_spec(k) == out_degree_upto(fs, rt, fs.len(), k),
            forall|k: Seq<char>|
                in_degree.count_spec(k) == saturated(in_degree_upto(fs, rt, fs.len(), k)),
            most == max_degree_upto(fs, rt, g as nat),
            most <= 2 * usize::MAX,
        decreases fs.len() - g,
    {
        assert(rels@[g as int]@ == rel_of(fs, rt, g as int));
        let rel = to_string(rels[g].as_slice());
        let own: u128 = in_degree.count(rel.as_str()) as u128 + out_degree.count(
            rel.as_str(),
        ) as u128;
        if own > most {
            most = own;
        }
        g += 1;
    }
    let own: u128 = in_degree.count(relative_path) as u128 + out_degree.count(
        relative_path,
    ) as u128;
    assert(own * FULL_SCORE <= u128::MAX) by (nonlinear_arith)
        requires
            own <= 2 * u64::MAX,
            FULL_SCORE == 100_000_000,
    ;
    Fixed::from_units(ratio_units(own, 2 * most, FULL_SCORE, FULL_SCORE))
}

} // verus!
