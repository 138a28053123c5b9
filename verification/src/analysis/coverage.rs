//! The test-coverage gap: whether anything tests a file.

use vstd::prelude::*;
use crate::fixed::Fixed;
use crate::paths::{
    extension, extension_of_name, join, joined, name_of, parent_dir, parent_of, stem_of_name,
    stem_or_empty,
};
use crate::text::{
    append, append_text, contains, copy_chars, has_chars, texts, to_chars, to_string,
};

verus! {

/// The units of the score of a file that something tests: 30 points.
pub const COVERED_UNITS: u64 = 30_000_000;

/// The units of the score of a file that nothing tests: 80 points.
pub const UNCOVERED_UNITS: u64 = 80_000_000;

/// The coverage report of a workspace, `coverage/lcov.info` below its root.
#[derive(Clone, Debug)]
pub enum CoverageReport {
    /// There is no report.
    Absent,
    /// There is a report, and it could not be read.
    Unreadable,
    /// The text of the report.
    Text(String),
}

/// The extension of the file at `p`, empty where it has none.
pub open spec fn extension_or_empty(p: Seq<char>) -> Seq<char> {
    match extension(p) {
        Some(e) => e,
        None => Seq::empty(),
    }
}

/// The places, relative to the workspace root, at which a test of the file at
/// `rel` is looked for: beside the file as `name.test.ext`, `name.spec.ext`,
/// `test_name.ext` and `name_test.ext`; as `tests/test_name.ext` and
/// `test/name_test.ext`; and as `__tests__/name.test.ext` beside the file.
pub open spec fn test_candidates(rel: Seq<char>) -> Seq<Seq<char>> {
    let dir = parent_of(rel);
    let stem = stem_or_empty(rel);
    let ext = extension_or_empty(rel);
    seq![
        joined(dir, stem + ".test."@ + ext),
        joined(dir, stem + ".spec."@ + ext),
        joined(dir, "test_"@ + stem + "."@ + ext),
        joined(dir, stem + "_test."@ + ext),
        joined("tests"@, "test_"@ + stem + "."@ + ext),
        joined("test"@, stem + "_test."@ + ext),
        joined(joined(dir, "__tests__"@), stem + ".test."@ + ext),
    ]
}

/// The places below the root `root` at which a test of the file at `rel` is
/// looked for.
pub open spec fn test_paths(root: Seq<char>, rel: Seq<char>) -> Seq<Seq<char>> {
    test_candidates(rel).map_values(|c: Seq<char>| joined(root, c))
}

/// The coverage-gap score, in units, of the file at `rel`: with a report, 30
/// where the report mentions the file and 80 where it does not or cannot be
/// read; without a report, 30 where a test file was found and 80 where none
/// was.
pub open spec fn coverage_units(report: CoverageReport, rel: Seq<char>, has_test_file: bool)
    -> nat {
    match report {
        CoverageReport::Text(text) => if contains(text@, rel) {
            COVERED_UNITS as nat
        } else {
            UNCOVERED_UNITS as nat
        },
        CoverageReport::Unreadable => UNCOVERED_UNITS as nat,
        CoverageReport::Absent => if has_test_file {
            COVERED_UNITS as nat
        } else {
            UNCOVERED_UNITS as nat
        },
    }
}

/// `a`, `b`, `c` and `d` in a row.
fn glue(a: &[char], b: &str, c: &[char], d: &str, e: &[char]) -> (r: Vec<char>)
    ensures
        r@ == a@ + b@ + c@ + d@ + e@,
{
    let mut out = copy_chars(a);
    append_text(&mut out, b);
    append(&mut out, c);
    append_text(&mut out, d);
    append(&mut out, e);
    out
}

/// The places below the root at `workspace_path` at which a test of the file
/// at `relative_path` is looked for, in the order in which they are tried.
pub fn test_file_candidates(relative_path: &str, workspace_path: &str) -> (r: Vec<String>)
    ensures
        texts(r@) == test_paths(workspace_path@, relative_path@),
{
    let rel = to_chars(relative_path);
    let rel = rel.as_slice();
    let root = to_chars(workspace_path);
    let root = root.as_slice();
    let dir = parent_dir(rel);
    let dir = dir.as_slice();
    let none: Vec<char> = Vec::new();
    let none = none.as_slice();
    assert(none@ =~= Seq::<char>::empty());
    let (stem, ext) = match name_of(rel) {
        Some(f) => (
            stem_of_name(f),
            match extension_of_name(f) {
                Some(e) => e,
                None => none,
            },
        ),
        None => (none, none),
    };
    assert(stem@ == stem_or_empty(relative_path@));
    assert(ext@ == extension_or_empty(relative_path@));
    let tests = to_chars("tests");
    let test = to_chars("test");
    let nested = to_chars("__tests__");
    let nested_dir = join(dir, nested.as_slice());
    let dot_test = glue(stem, ".test.", ext, "", none);
    let dot_spec = glue(stem, ".spec.", ext, "", none);
    let test_under = glue(none, "test_", stem, ".", ext);
    let under_test = glue(stem, "_test.", ext, "", none);
    proof {
        assert(dot_test@ =~= stem@ + ".test."@ + ext@) by {
            assert(""@ =~= Seq::<char>::empty()) by {
                reveal_strlit("");
            }
        }
        assert(dot_spec@ =~= stem@ + ".spec."@ + ext@) by {
            assert(""@ =~= Seq::<char>::empty()) by {
                reveal_strlit("");
            }
        }
        assert(under_test@ =~= stem@ + "_test."@ + ext@) by {
            assert(""@ =~= Seq::<char>::empty()) by {
                reveal_strlit("");
            }
        }
        assert(test_under@ =~= "test_"@ + stem@ + "."@ + ext@);
    }
    let c0 = join(root, join(dir, dot_test.as_slice()).as_slice());
    let c1 = join(root, join(dir, dot_spec.as_slice()).as_slice());
    let c2 = join(root, join(dir, test_under.as_slice()).as_slice());
    let c3 = join(root, join(dir, under_test.as_slice()).as_slice());
    let c4 = join(root, join(tests.as_slice(), test_under.as_slice()).as_slice());
    let c5 = join(root, join(test.as_slice(), under_test.as_slice()).as_slice());
    let c6 = join(root, join(nested_dir.as_slice(), dot_test.as_slice()).as_slice());
    let mut out: Vec<String> = Vec::new();
    out.push(to_string(c0.as_slice()));
    out.push(to_string(c1.as_slice()));
    out.push(to_string(c2.as_slice()));
    out.push(to_string(c3.as_slice()));
    out.push(to_string(c4.as_slice()));
    out.push(to_string(c5.as_slice()));
    out.push(to_string(c6.as_slice()));
    assert(texts(out@) =~= test_paths(workspace_path@, relative_path@));
    out
}

/// The coverage-gap score of the file at `relative_path`, given the coverage
/// report of the workspace and whether one of its test-file candidates
/// exists.
pub fn compute_coverage_gap(relative_path: &str, report: &CoverageReport, has_test_file: bool) -> (score:
    Fixed)
    ensures
        score.units == coverage_units(*report, relative_path@, has_test_file),
        score.units == COVERED_UNITS || score.units == UNCOVERED_UNITS,
{
    let covered = match report {
        CoverageReport::Text(text) => {
            let all = to_chars(text.as_str());
            let rel = to_chars(relative_path);
            has_chars(all.as_slice(), rel.as_slice())
        },
        CoverageReport::Unreadable => false,
        CoverageReport::Absent => has_test_file,
    };
    if covered {
        Fixed::from_units(COVERED_UNITS)
    } else {
        Fixed::from_units(UNCOVERED_UNITS)
    }
}

} // verus!
