//! Summaries for display: what the history and the sources of a workspace
//! say, file by file.

use vstd::prelude::*;
use crate::analysis::churn::ChurnData;
use crate::analysis::complexity::{
    function_models, functions_match, mean_complexity_units, scan_complexity, FileComplexity,
};
use crate::analysis::imports::{imports_in, imports_of, FileImports};
use crate::analysis::knowledge::{total_lines, AuthorLines, BlameData};
use crate::analysis::smells::{saturated, scan_smells, smell_report, FileSmells};
use crate::paths::{language_at, language_of_path};
use crate::table::{Entry, Table};
use crate::text::{lines_of, split_lines, texts, to_chars, views};

verus! {

/// What the history of a workspace says.
#[derive(Debug)]
pub struct GitAnalysisData {
    /// For each path, its changes in the history window.
    pub churn: ChurnData,
    /// For each file, its authors and their lines, the author of the most
    /// lines first.
    pub blame_summary: Table<Vec<(String, usize)>>,
    /// The files that changed together.
    pub co_changes: Vec<(String, String, usize)>,
    /// The number of changes to all files.
    pub commit_count: usize,
    /// The number of authors.
    pub author_count: usize,
}

/// What the sources of some files say.
#[derive(Debug)]
pub struct AstAnalysisData {
    pub smells: Table<FileSmells>,
    pub complexity: Table<FileComplexity>,
    pub imports: Table<FileImports>,
}

/// A file and its text.
#[derive(Clone, Debug)]
pub struct SourceFile {
    pub path: String,
    pub source: String,
}

/// An author and the lines attributed to them.
pub struct AuthorModel {
    pub name: Seq<char>,
    pub lines: usize,
}

/// What the list of authors `v` holds.
pub open spec fn author_models(v: Seq<(String, usize)>) -> Seq<AuthorModel> {
    v.map_values(|a: (String, usize)| AuthorModel { name: a.0@, lines: a.1 })
}

/// The index at which an author of `lines` lines goes into `ranked`: behind
/// every author of as many lines or more, from index `from` on.
pub open spec fn author_place(ranked: Seq<AuthorModel>, lines: usize, from: int) -> int
    decreases ranked.len() - from,
{
    if from < 0 || from >= ranked.len() {
        ranked.len() as int
    } else if ranked[from].lines < lines {
        from
    } else {
        author_place(ranked, lines, from + 1)
    }
}

/// The first `k` of the authors `authors`, the author of the most lines
/// first, and authors of as many lines in the order of the table.
pub open spec fn ranked_authors(authors: Seq<Entry<usize>>, k: nat) -> Seq<AuthorModel>
    decreases k,
{
    if k == 0 {
        Seq::empty()
    } else {
        let before = ranked_authors(authors, (k - 1) as nat);
        let a = authors[k - 1];
        before.insert(
            author_place(before, a.value, 0),
            AuthorModel { name: a.key@, lines: a.value },
        )
    }
}

/// Whether `names` holds the name `name`.
pub open spec fn has_name(names: Seq<Seq<char>>, name: Seq<char>) -> bool {
    exists|i: int| 0 <= i < names.len() && #[trigger] names[i] == name
}

/// `names`, and `name` after them unless they hold it.
pub open spec fn with_name(names: Seq<Seq<char>>, name: Seq<char>) -> Seq<Seq<char>> {
    if has_name(names, name) {
        names
    } else {
        names.push(name)
    }
}

/// `names`, and after them those of the first `k` of `authors` that are new.
pub open spec fn names_with(names: Seq<Seq<char>>, authors: Seq<Entry<usize>>, k: nat) -> Seq<
    Seq<char>,
>
    decreases k,
{
    if k == 0 {
        names
    } else {
        with_name(names_with(names, authors, (k - 1) as nat), authors[k - 1].key@)
    }
}

/// The names of the authors of the first `k` files of `blame`, each once.
pub open spec fn author_names(blame: Seq<Entry<AuthorLines>>, k: nat) -> Seq<Seq<char>>
    decreases k,
{
    if k == 0 {
        Seq::empty()
    } else {
        names_with(
            author_names(blame, (k - 1) as nat),
            blame[k - 1].value.entries@,
            blame[k - 1].value.entries@.len(),
        )
    }
}

/// Whether `summary` lists, for each file of `blame` in turn, its authors by
/// their lines.
pub open spec fn is_blame_summary(summary: Table<Vec<(String, usize)>>, blame: BlameData) -> bool {
    &&& summary.entries@.len() == blame.entries@.len()
    &&& forall|i: int|
        0 <= i < summary.entries@.len() ==> (#[trigger] summary.entries@[i]).key@
            == blame.entries@[i].key@ && author_models(summary.entries@[i].value@)
            == ranked_authors(blame.entries@[i].value.entries@, blame.entries@[i].value.entries@.len())
}

/// The index of the last file with the path `path` among the first `k` of
/// `files`.
pub open spec fn last_with_path(files: Seq<SourceFile>, k: nat, path: Seq<char>) -> Option<int>
    decreases k,
{
    if k == 0 {
        None
    } else if files[k - 1].path@ == path {
        Some(k - 1)
    } else {
        last_with_path(files, (k - 1) as nat, path)
    }
}

/// Whether `data` holds, for each path, what the last of the first `k` of
/// `files` with that path says: its smells with its number of lines, its
/// functions with their complexities, and its imports.
pub open spec fn is_ast_analysis(data: AstAnalysisData, files: Seq<SourceFile>, k: nat) -> bool {
    forall|path: Seq<char>|
        match last_with_path(files, k, path) {
            Some(i) => {
                let lines = lines_of(files[i].source@);
                let lang = language_of_path(path);
                &&& (#[trigger] data.smells.get_spec(path)) == Some(
                    smell_report(lines, lang, lines.len() as usize),
                )
                &&& data.complexity.get_spec(path).is_some()
                &&& functions_match(
                    data.complexity.get_spec(path).unwrap().functions@,
                    function_models(lines, lang),
                )
                &&& data.complexity.get_spec(path).unwrap().average.units == mean_complexity_units(
                    function_models(lines, lang),
                )
                &&& data.imports.get_spec(path).is_some()
                &&& texts(data.imports.get_spec(path).unwrap().imports@) == imports_of(lines, lang)
                &&& data.imports.get_spec(path).unwrap().imported_by@.len() == 0
            },
            None => (#[trigger] data.smells.get_spec(path)).is_none() && data.complexity.get_spec(
                path,
            ).is_none() && data.imports.get_spec(path).is_none(),
        }
}

/// The authors `authors`, the author of the most lines first.
fn rank_authors(authors: &AuthorLines) -> (ranked: Vec<(String, usize)>)
    ensures
        author_models(ranked@) == ranked_authors(authors.entries@, authors.entries@.len()),
{
    let mut ranked: Vec<(String, usize)> = Vec::new();
    let mut k: usize = 0;
    assert(author_models(ranked@) =~= Seq::empty());
    while k < authors.entries.len()
        invariant
            k <= authors.entries@.len(),
            author_models(ranked@) == ranked_authors(authors.entries@, k as nat),
        decreases authors.entries@.len() - k,
    {
        let lines = authors.entries[k].value;
        let ghost ms = author_models(ranked@);
        let mut at: usize = 0;
        while at < ranked.len() && ranked[at].1 >= lines
            invariant
                at <= ranked@.len(),
                ms == author_models(ranked@),
                author_place(ms, lines, 0) == author_place(ms, lines, at as int),
            decreases ranked@.len() - at,
        {
            assert(ms[at as int].lines == ranked@[at as int].1);
            at += 1;
        }
        proof {
            if at < ranked@.len() {
                assert(ms[at as int].lines == ranked@[at as int].1);
            }
        }
        let entry = (authors.entries[k].key.clone(), lines);
        let ghost before = ranked@;
        ranked.insert(at, entry);
        assert(author_models(ranked@) =~= author_models(before).insert(
            at as int,
            AuthorModel { name: entry.0@, lines },
        ));
        k += 1;
    }
    ranked
}

/// The sum of the counts of `table`, or the largest `usize` where it is
/// beyond that.
fn saturated_total(table: &Table<usize>) -> (total: usize)
    ensures
        total == saturated(total_lines(table.entries@)),
{
    let mut total: usize = 0;
    let mut i: usize = 0;
    assert(table.entries@.take(0) =~= Seq::empty());
    while i < table.entries.len()
        invariant
            i <= table.entries@.len(),
            total == saturated(total_lines(table.entries@.take(i as int))),
        decreases table.entries@.len() - i,
    {
        proof {
            assert(table.entries@.take(i + 1).drop_last() =~= table.entries@.take(i as int));
        }
        let n = table.entries[i].value;
        total = if total > usize::MAX - n {
            usize::MAX
        } else {
            total + n
        };
        i += 1;
    }
    assert(table.entries@.take(table.entries@.len() as int) =~= table.entries@);
    total
}

/// Whether `seen` holds just the names `names`, each once.
spec fn holds_names(seen: Table<usize>, names: Seq<Seq<char>>) -> bool {
    &&& seen.entries@.len() == names.len()
    &&& forall|name: Seq<char>| seen.get_spec(name).is_some() == has_name(names, name)
}

/// The names after one more are those before, and the new one.
proof fn lemma_with_name(names: Seq<Seq<char>>, name: Seq<char>, other: Seq<char>)
    ensures
        has_name(with_name(names, name), other) == (other == name || has_name(names, other)),
{
    let after = with_name(names, name);
    if has_name(names, name) {
    } else {
        if has_name(names, other) {
            let i = choose|i: int| 0 <= i < names.len() && #[trigger] names[i] == other;
            assert(after[i] == other);
        }
        if other == name {
            assert(after[names.len() as int] == other);
        }
        if has_name(after, other) {
            let i = choose|i: int| 0 <= i < after.len() && #[trigger] after[i] == other;
            if i < names.len() {
                assert(names[i] == other);
            }
        }
    }
}

/// Sums up what the history says: the changes and the co-changes as they
/// are, the authors of each file by their lines, the number of changes to all
/// files and the number of authors. A number of changes beyond the largest
/// `usize` stands as that.
pub fn run_git_analysis(
    churn: ChurnData,
    blame: &BlameData,
    co_changes: Vec<(String, String, usize)>,
) -> (data: GitAnalysisData)
    ensures
        data.churn == churn,
        data.co_changes == co_changes,
        data.commit_count == saturated(total_lines(churn.entries@)),
        data.author_count == author_names(blame.entries@, blame.entries@.len()).len(),
        is_blame_summary(data.blame_summary, *blame),
{
    let commit_count = saturated_total(&churn);
    let mut seen: Table<usize> = Table::new();
    let mut summary: Vec<Entry<Vec<(String, usize)>>> = Vec::new();
    let mut i: usize = 0;
    while i < blame.entries.len()
        invariant
            i <= blame.entries@.len(),
            holds_names(seen, author_names(blame.entries@, i as nat)),
            summary@.len() == i,
            forall|j: int|
                0 <= j < i ==> (#[trigger] summary@[j]).key@ == blame.entries@[j].key@
                    && author_models(summary@[j].value@) == ranked_authors(
                    blame.entries@[j].value.entries@,
                    blame.entries@[j].value.entries@.len(),
                ),
        decreases blame.entries@.len() - i,
    {
        let file = &blame.entries[i];
        let ghost start = author_names(blame.entries@, i as nat);
        let mut a: usize = 0;
        while a < file.value.entries.len()
            invariant
                a <= file.value.entries@.len(),
                i < blame.entries@.len(),
                *file == blame.entries@[i as int],
                start == author_names(blame.entries@, i as nat),
                holds_names(seen, names_with(start, file.value.entries@, a as nat)),
            decreases file.value.entries@.len() - a,
        {
            let ghost names = names_with(start, file.value.entries@, a as nat);
            let ghost name = file.value.entries@[a as int].key@;
            proof {
                assert forall|other: Seq<char>|
                    has_name(with_name(names, name), other) == (other == name || has_name(
                        names,
                        other,
                    )) by {
                    lemma_with_name(names, name, other);
                }
            }
            let ghost before = seen;
            seen.insert(file.value.entries[a].key.clone(), 0);
            proof {
                let after = with_name(names, name);
                assert(after == names_with(start, file.value.entries@, (a + 1) as nat));
                assert(before.get_spec(name).is_some() == has_name(names, name));
                assert(seen.entries@.len() == after.len());
                assert forall|other: Seq<char>|
                    seen.get_spec(other).is_some() == has_name(after, other) by {
                    assert(before.get_spec(other).is_some() == has_name(names, other));
                    assert(has_name(after, other) == (other == name || has_name(names, other)));
                }
            }
            a += 1;
        }
        let ranked = rank_authors(&file.value);
        summary.push(Entry { key: file.key.clone(), value: ranked });
        i += 1;
    }
    GitAnalysisData {
        churn,
        blame_summary: Table { entries: summary },
        co_changes,
        commit_count,
        author_count: seen.len(),
    }
}

/// Analyzes the sources `files`: counts the smells of each, finds its
/// functions and their complexities, and lists its imports. Of two files with
/// one path the later counts.
pub fn run_ast_analysis(files: &Vec<SourceFile>) -> (data: AstAnalysisData)
    ensures
        is_ast_analysis(data, files@, files@.len()),
{
    let mut data = AstAnalysisData {
        smells: Table::new(),
        complexity: Table::new(),
        imports: Table::new(),
    };
    let mut i: usize = 0;
    while i < files.len()
        invariant
            i <= files@.len(),
            is_ast_analysis(data, files@, i as nat),
        decreases files@.len() - i,
    {
        let file = &files[i];
        let path = to_chars(file.path.as_str());
        let lang = language_at(path.as_slice());
        let text = to_chars(file.source.as_str());
        let lines = split_lines(text.as_slice());
        assert(text@.len() == text.len());
        assert(views(lines@).len() == lines@.len());
        let loc = lines.len();
        let smells = scan_smells(&lines, lang, loc);
        let complexity = scan_complexity(&lines, lang);
        let imports = FileImports { imports: imports_in(&lines, lang), imported_by: Vec::new() };
        let ghost before = data;
        data.smells.insert(file.path.clone(), smells);
        data.complexity.insert(file.path.clone(), complexity);
        data.imports.insert(file.path.clone(), imports);
        proof {
            assert forall|p: Seq<char>|
                match last_with_path(files@, (i + 1) as nat, p) {
                    Some(k) => {
                        let ls = lines_of(files@[k].source@);
                        let l = language_of_path(p);
                        &&& (#[trigger] data.smells.get_spec(p)) == Some(
                            smell_report(ls, l, ls.len() as usize),
                        )
                        &&& data.complexity.get_spec(p).is_some()
                        &&& functions_match(
                            data.complexity.get_spec(p).unwrap().functions@,
                            function_models(ls, l),
                        )
                        &&& data.complexity.get_spec(p).unwrap().average.units
                            == mean_complexity_units(function_models(ls, l))
                        &&& data.imports.get_spec(p).is_some()
                        &&& texts(data.imports.get_spec(p).unwrap().imports@) == imports_of(ls, l)
                        &&& data.imports.get_spec(p).unwrap().imported_by@.len() == 0
                    },
                    None => (#[trigger] data.smells.get_spec(p)).is_none()
                        && data.complexity.get_spec(p).is_none() && data.imports.get_spec(
                        p,
                    ).is_none(),
                } by {
                if p != file.path@ {
                    assert(data.smells.get_spec(p) == before.smells.get_spec(p));
                    assert(data.complexity.get_spec(p) == before.complexity.get_spec(p));
                    assert(data.imports.get_spec(p) == before.imports.get_spec(p));
                }
            }
        }
        i += 1;
    }
    data
}

} // verus!
