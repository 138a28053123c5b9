//! Churn: how often a file changed within the history window.

use vstd::prelude::*;
use crate::analysis::smells::saturated;
use crate::fixed::{capped_ratio, ratio_units, Fixed, FULL_SCORE};
use crate::table::Table;

verus! {

/// The number of seconds in a day.
pub const SECONDS_PER_DAY: i64 = 86_400;

/// What the history says of one commit: its time, in seconds since the
/// epoch, and the paths of the files that it changed, relative to the
/// workspace root.
#[derive(Clone, Debug)]
pub struct CommitFacts {
    pub time: i64,
    pub files: Vec<String>,
}

/// For each path, the number of changes in the history window.
pub type ChurnData = Table<usize>;

/// Whether a commit made at `time` lies within the `days` days before `now`.
pub open spec fn in_window(time: i64, now: i64, days: u32) -> bool {
    time >= now - days * SECONDS_PER_DAY
}

/// The number of times that `path` occurs among `files`.
pub open spec fn occurrences(files: Seq<String>, path: Seq<char>) -> nat
    decreases files.len(),
{
    if files.len() == 0 {
        0
    } else {
        occurrences(files.drop_last(), path) + if files.last()@ == path {
            1nat
        } else {
            0nat
        }
    }
}

/// The number of changes to `path` in those of the first `k` commits that lie
/// within the window.
pub open spec fn changes_upto(
    commits: Seq<CommitFacts>,
    now: i64,
    days: u32,
    k: nat,
    path: Seq<char>,
) -> nat
    decreases k,
{
    if k == 0 {
        0
    } else {
        changes_upto(commits, now, days, (k - 1) as nat, path) + if in_window(
            commits[k - 1].time,
            now,
            days,
        ) {
            occurrences(commits[k - 1].files@, path)
        } else {
            0
        }
    }
}

/// The number of changes to `path` in the commits that lie within the window.
pub open spec fn changes_of(commits: Seq<CommitFacts>, now: i64, days: u32, path: Seq<char>)
    -> nat {
    changes_upto(commits, now, days, commits.len(), path)
}

/// The churn score, in units, of a file with `count` changes in `days` days:
/// 100 times the changes per day, at most 100. A window of no days counts as
/// one day.
pub open spec fn churn_units(count: nat, days: u32) -> nat {
    capped_ratio(
        count,
        if days == 0 {
            1
        } else {
            days as nat
        },
        FULL_SCORE as nat,
        FULL_SCORE as nat,
    )
}

/// Whether a commit made at `time` lies within the `days` days before `now`.
pub fn is_in_window(time: i64, now: i64, days: u32) -> (r: bool)
    ensures
        r == in_window(time, now, days),
{
    let span: i128 = (days as i128) * 86_400;
    time as i128 >= now as i128 - span
}

/// Counts, for each path, the changes to it in the commits that lie within
/// the `history_days` days before `now`. A count beyond the largest `usize`
/// stands as that.
pub fn analyze_churn(commits: &Vec<CommitFacts>, now: i64, history_days: u32) -> (churn: ChurnData)
    ensures
        forall|path: Seq<char>|
            churn.count_spec(path) == saturated(changes_of(commits@, now, history_days, path)),
        churn.is_distinct(),
{
    let mut churn: ChurnData = Table::new();
    let mut i: usize = 0;
    while i < commits.len()
        invariant
            i <= commits@.len(),
            churn.is_distinct(),
            forall|path: Seq<char>|
                churn.count_spec(path) == saturated(
                    changes_upto(commits@, now, history_days, i as nat, path),
                ),
        decreases commits@.len() - i,
    {
        let commit = &commits[i];
        if is_in_window(commit.time, now, history_days) {
            let ghost base = churn;
            let mut j: usize = 0;
            assert(commit.files@.take(0) =~= Seq::empty());
            while j < commit.files.len()
                invariant
                    j <= commit.files@.len(),
                    i < commits@.len(),
                    commit == commits@[i as int],
                    churn.is_distinct(),
                    forall|path: Seq<char>|
                        churn.count_spec(path) == saturated(
                            changes_upto(commits@, now, history_days, i as nat, path)
                                + occurrences(commit.files@.take(j as int), path),
                        ),
                decreases commit.files@.len() - j,
            {
                proof {
                    assert(commit.files@.take(j + 1).drop_last() =~= commit.files@.take(j as int));
                }
                churn.increment(commit.files[j].as_str());
                j += 1;
            }
            assert(commit.files@.take(commit.files@.len() as int) =~= commit.files@);
        }
        i += 1;
    }
    churn
}

/// The churn score of the file at `relative_path`: 100 times its changes per
/// day of the window, at most 100, and 0 for a file without history.
pub fn compute_file_churn(churn_data: &ChurnData, relative_path: &str, history_days: u32) -> (score:
    Fixed)
    ensures
        score.units == churn_units(churn_data.count_spec(relative_path@), history_days),
        score.units <= FULL_SCORE,
{
    let count = churn_data.count(relative_path);
    let days: u32 = if history_days == 0 {
        1
    } else {
        history_days
    };
    assert(count * FULL_SCORE <= u128::MAX) by (nonlinear_arith)
        requires
            count <= u64::MAX,
            FULL_SCORE == 100_000_000,
    ;
    Fixed::from_units(ratio_units(count as u128, days as u128, FULL_SCORE, FULL_SCORE))
}

} // verus!
