//! Knowledge concentration: how much of a file one author wrote.

use vstd::prelude::*;
use crate::analysis::smells::saturated;
use crate::fixed::{capped_ratio, ratio_units, Fixed, FULL_SCORE};
use crate::paths::{is_source_file, is_source_path};
use crate::table::{Entry, Table};

verus! {

/// For each author of a file, the number of lines attributed to them.
pub type AuthorLines = Table<usize>;

/// For each file, its authors and their lines.
pub type BlameData = Table<AuthorLines>;

/// A run of lines that blame attributes to one author.
#[derive(Clone, Debug)]
pub struct BlameHunk {
    pub author: String,
    pub lines: usize,
}

/// What blame says of one file.
#[derive(Clone, Debug)]
pub struct BlamedFile {
    pub path: String,
    pub hunks: Vec<BlameHunk>,
}

/// The lines that the hunks `hunks` attribute to `author`.
pub open spec fn lines_by(hunks: Seq<BlameHunk>, author: Seq<char>) -> nat
    decreases hunks.len(),
{
    if hunks.len() == 0 {
        0
    } else {
        lines_by(hunks.drop_last(), author) + if hunks.last().author@ == author {
            hunks.last().lines as nat
        } else {
            0nat
        }
    }
}

/// The index of the last source file with the path `path` among the first `k`
/// of `files`.
pub open spec fn last_blamed(files: Seq<BlamedFile>, k: nat, path: Seq<char>) -> Option<int>
    decreases k,
{
    if k == 0 {
        None
    } else if files[k - 1].path@ == path && is_source_path(path) {
        Some(k - 1)
    } else {
        last_blamed(files, (k - 1) as nat, path)
    }
}

/// Whether `blame` holds, for each path, the lines per author of the last
/// source file with that path among the first `k` of `files`, a count beyond
/// the largest `usize` standing as that, and nothing for other paths.
pub open spec fn blame_matches(blame: BlameData, files: Seq<BlamedFile>, k: nat) -> bool {
    forall|path: Seq<char>|
        match last_blamed(files, k, path) {
            Some(i) => (#[trigger] blame.get_spec(path)).is_some() && forall|author: Seq<char>|
                blame.get_spec(path).unwrap().count_spec(author) == saturated(
                    lines_by(files[i].hunks@, author),
                ),
            None => blame.get_spec(path).is_none(),
        }
}

/// The sum of the counts of `es`.
pub open spec fn total_lines(es: Seq<Entry<usize>>) -> nat
    decreases es.len(),
{
    if es.len() == 0 {
        0
    } else {
        total_lines(es.drop_last()) + es.last().value as nat
    }
}

/// The largest of the counts of `es`, 0 where there is none.
pub open spec fn most_lines(es: Seq<Entry<usize>>) -> nat
    decreases es.len(),
{
    if es.len() == 0 {
        0
    } else {
        let rest = most_lines(es.drop_last());
        if es.last().value as nat > rest {
            es.last().value as nat
        } else {
            rest
        }
    }
}

/// The knowledge score, in units, of a file of `total` attributed lines of
/// which the top author wrote `most`: 0 while the top author's share is at
/// most a half, then rising evenly to 100 at a share of one.
pub open spec fn knowledge_units(total: nat, most: nat) -> nat {
    if total == 0 || 2 * most <= total {
        0
    } else {
        capped_ratio((2 * most - total) as nat, total, FULL_SCORE as nat, FULL_SCORE as nat)
    }
}

/// A file with one author scores 100, and a file whose top author wrote just
/// half of it scores 0.
pub proof fn lemma_knowledge_extremes(lines: nat)
    requires
        lines > 0,
    ensures
        knowledge_units(lines, lines) == FULL_SCORE,
        knowledge_units(2 * lines, lines) == 0,
{
    assert((lines * (FULL_SCORE as nat)) / lines == FULL_SCORE as nat) by (nonlinear_arith)
        requires
            lines > 0,
    ;
}

/// The lines per author that `hunks` add up to.
fn attribute(hunks: &Vec<BlameHunk>) -> (authors: AuthorLines)
    ensures
        forall|author: Seq<char>| authors.count_spec(author) == saturated(lines_by(hunks@, author)),
{
    let mut authors: AuthorLines = Table::new();
    let mut i: usize = 0;
    assert(hunks@.take(0) =~= Seq::empty());
    while i < hunks.len()
        invariant
            i <= hunks@.len(),
            forall|author: Seq<char>|
                authors.count_spec(author) == saturated(lines_by(hunks@.take(i as int), author)),
        decreases hunks@.len() - i,
    {
        proof {
            assert(hunks@.take(i + 1).drop_last() =~= hunks@.take(i as int));
        }
        authors.add(hunks[i].author.as_str(), hunks[i].lines);
        i += 1;
    }
    assert(hunks@.take(hunks@.len() as int) =~= hunks@);
    authors
}

/// Adds up, for each source file among `files`, the lines that blame
/// attributes to each author. Of two files with one path the later counts.
pub fn analyze_knowledge(files: &Vec<BlamedFile>) -> (blame: BlameData)
    ensures
        blame_matches(blame, files@, files@.len()),
{
    let mut blame: BlameData = Table::new();
    let mut i: usize = 0;
    while i < files.len()
        invariant
            i <= files@.len(),
            blame_matches(blame, files@, i as nat),
        decreases files@.len() - i,
    {
        let file = &files[i];
        if is_source_file(file.path.as_str()) {
            let authors = attribute(&file.hunks);
            let ghost before = blame;
            blame.insert(file.path.clone(), authors);
            proof {
                assert forall|path: Seq<char>|
                    match last_blamed(files@, (i + 1) as nat, path) {
                        Some(k) => (#[trigger] blame.get_spec(path)).is_some() && forall|
                            author: Seq<char>,
                        |
                            blame.get_spec(path).unwrap().count_spec(author) == saturated(
                                lines_by(files@[k].hunks@, author),
                            ),
                        None => blame.get_spec(path).is_none(),
                    } by {
                    if path != file.path@ {
                        assert(blame.get_spec(path) == before.get_spec(path));
                    }
                }
            }
        } else {
            proof {
                assert forall|path: Seq<char>|
                    last_blamed(files@, (i + 1) as nat, path) == last_blamed(
                        files@,
                        i as nat,
                        path,
                    ) by {}
            }
        }
        i += 1;
    }
    blame
}

/// The sum and the largest of the counts of `authors`.
fn totals(authors: &AuthorLines) -> (r: (u128, usize))
    ensures
        r.0 == total_lines(authors.entries@),
        r.1 == most_lines(authors.entries@),
        r.1 <= r.0,
{
    let mut total: u128 = 0;
    let mut most: usize = 0;
    let mut i: usize = 0;
    assert(authors.entries@.take(0) =~= Seq::empty());
    while i < authors.entries.len()
        invariant
            i <= authors.entries@.len(),
            total == total_lines(authors.entries@.take(i as int)),
            most == most_lines(authors.entries@.take(i as int)),
            most <= total,
            total <= i * usize::MAX,
        decreases authors.entries@.len() - i,
    {
        proof {
            assert(authors.entries@.take(i + 1).drop_last() =~= authors.entries@.take(i as int));
            assert((i + 1) * usize::MAX == i * usize::MAX + usize::MAX) by (nonlinear_arith);
            assert(i * usize::MAX <= u64::MAX * u64::MAX) by (nonlinear_arith)
                requires
                    i <= u64::MAX,
                    usize::MAX <= u64::MAX,
            ;
        }
        let lines = authors.entries[i].value;
        total += lines as u128;
        if lines > most {
            most = lines;
        }
        i += 1;
    }
    assert(authors.entries@.take(authors.entries@.len() as int) =~= authors.entries@);
    (total, most)
}

/// The knowledge score of the file at `relative_path`: 0 where nothing is
/// known of it or the top author wrote at most half of its lines, else twice
/// the part of the top author's share beyond a half, as a percentage.
pub fn compute_knowledge_concentration(blame_data: &BlameData, relative_path: &str) -> (score:
    Fixed)
    ensures
        score.units == match blame_data.get_spec(relative_path@) {
            Some(authors) => knowledge_units(
                total_lines(authors.entries@),
                most_lines(authors.entries@),
            ),
            None => 0,
        },
        score.units <= FULL_SCORE,
{
    match blame_data.get(relative_path) {
        None => Fixed::zero(),
        Some(authors) => {
            let (total, most) = totals(authors);
            if total == 0 || 2 * (most as u128) <= total {
                Fixed::zero()
            } else {
                let excess: u128 = 2 * (most as u128) - total;
                assert(excess * FULL_SCORE <= u128::MAX) by (nonlinear_arith)
                    requires
                        excess <= u64::MAX,
                        FULL_SCORE == 100_000_000,
                ;
                Fixed::from_units(ratio_units(excess, total, FULL_SCORE, FULL_SCORE))
            }
        },
    }
}

} // verus!
