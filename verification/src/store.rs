//! What the durable store keeps of a score, as plain values.

use vstd::prelude::*;
use crate::fixed::Fixed;
use crate::models::file_score::{empty_components, FileScore, ScoreComponents};

verus! {

/// The row that the store keeps for one file, keyed by its path.
#[derive(Debug)]
pub struct FileScoreRow {
    pub path: String,
    pub relative_path: String,
    pub composite_score: Fixed,
    pub loc: u64,
    pub language: String,
    pub last_modified: i64,
    pub supervision_status: String,
    /// The modification time that the score was computed for.
    pub mtime_cached: i64,
    /// The components as they were written, none where what was written
    /// cannot be read as components.
    pub components: Option<ScoreComponents>,
}

/// The largest number of files that may be pinned to the watchlist.
pub const WATCHLIST_LIMIT: u64 = 5;

/// The row for the score `file`: the modification time of the file is the
/// one that the score counts as computed for.
pub open spec fn row_of(file: FileScore) -> FileScoreRow {
    FileScoreRow {
        path: file.path,
        relative_path: file.relative_path,
        composite_score: file.composite_score,
        loc: file.loc as u64,
        language: file.language,
        last_modified: file.last_modified,
        supervision_status: file.supervision_status,
        mtime_cached: file.last_modified,
        components: Some(file.components),
    }
}

/// Whether `file` is the score that the row `row` stands for: all as stored,
/// and all-zero components where those of the row cannot be read.
pub open spec fn is_restored(file: FileScore, row: FileScoreRow) -> bool {
    &&& file.path == row.path
    &&& file.relative_path == row.relative_path
    &&& file.composite_score == row.composite_score
    &&& file.loc as u64 == row.loc || (row.loc > usize::MAX && file.loc == usize::MAX)
    &&& file.language == row.language
    &&& file.last_modified == row.last_modified
    &&& file.supervision_status == row.supervision_status
    &&& match row.components {
        Some(c) => file.components == c,
        None => file.components.is_zero(),
    }
}

impl FileScoreRow {
    /// The row for the score `file`.
    pub fn from_score(file: FileScore) -> (row: FileScoreRow)
        ensures
            row == row_of(file),
    {
        FileScoreRow {
            path: file.path,
            relative_path: file.relative_path,
            composite_score: file.composite_score,
            loc: file.loc as u64,
            language: file.language,
            last_modified: file.last_modified,
            supervision_status: file.supervision_status,
            mtime_cached: file.last_modified,
            components: Some(file.components),
        }
    }

    /// The score that the row stands for. Components that cannot be read give
    /// way to all-zero components, and the load does not fail.
    pub fn into_score(self) -> (file: FileScore)
        ensures
            is_restored(file, self),
    {
        let components = match self.components {
            Some(c) => c,
            None => empty_components(),
        };
        let loc: usize = if self.loc > usize::MAX as u64 {
            usize::MAX
        } else {
            self.loc as usize
        };
        FileScore {
            path: self.path,
            relative_path: self.relative_path,
            composite_score: self.composite_score,
            components,
            loc,
            language: self.language,
            last_modified: self.last_modified,
            supervision_status: self.supervision_status,
        }
    }
}

/// A score that is stored and loaded again comes back as it was: the same
/// paths, composite score, components, line count and modification time.
pub proof fn lemma_row_round_trip(file: FileScore, loaded: FileScore)
    requires
        is_restored(loaded, row_of(file)),
    ensures
        loaded == file,
        row_of(file).mtime_cached == file.last_modified,
{
}

/// Whether one more file may be pinned to a watchlist of `pinned` files: a
/// full watchlist takes only what it holds already.
pub fn may_pin(pinned: u64, already_pinned: bool) -> (r: bool)
    ensures
        r == (pinned < WATCHLIST_LIMIT || already_pinned),
{
    pinned < WATCHLIST_LIMIT || already_pinned
}

} // verus!
