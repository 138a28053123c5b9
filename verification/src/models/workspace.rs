//! What is known of an opened workspace.

use vstd::prelude::*;
use vstd::string::StringExecFns;
use crate::paths::{file_name, name_of};
use crate::text::{to_chars, to_string};

verus! {

/// An opened workspace.
#[derive(Clone, Debug)]
pub struct WorkspaceMeta {
    pub path: String,
    pub repo_name: String,
    pub branch: String,
    pub file_count: usize,
    pub last_analysis_at: Option<i64>,
}

/// The name of the repository at `path`: the last segment of the path, or
/// `unknown` where it has none.
pub open spec fn repo_name_of(path: Seq<char>) -> Seq<char> {
    match file_name(path) {
        Some(n) => n,
        None => "unknown"@,
    }
}

/// The name of the branch, `main` where the head has none.
pub open spec fn branch_or_main(branch: Option<String>) -> Seq<char> {
    match branch {
        Some(b) => b@,
        None => "main"@,
    }
}

impl WorkspaceMeta {
    /// Describes the workspace at `path`, given the short name of its head,
    /// the number of its source files and the time of its last snapshot.
    pub fn describe(
        path: String,
        branch: Option<String>,
        file_count: usize,
        last_analysis_at: Option<i64>,
    ) -> (meta: WorkspaceMeta)
        ensures
            meta.path == path,
            meta.repo_name@ == repo_name_of(path@),
            meta.branch@ == branch_or_main(branch),
            meta.file_count == file_count,
            meta.last_analysis_at == last_analysis_at,
    {
        let chars = to_chars(path.as_str());
        let repo_name = match name_of(chars.as_slice()) {
            Some(n) => to_string(n),
            None => String::from_str("unknown"),
        };
        let branch = match branch {
            Some(b) => b,
            None => String::from_str("main"),
        };
        WorkspaceMeta { path, repo_name, branch, file_count, last_analysis_at }
    }
}

} // verus!
