//! Decision staleness: how long ago the decision record of a file was
//! reviewed.

use vstd::prelude::*;
use crate::fixed::{capped_ratio, ratio_units, Fixed, FULL_SCORE};
use crate::paths::{join, joined, name_of, parent_dir, parent_of, stem_of_name, stem_or_empty};
use crate::text::{
    after_char, append_text, copy_chars, lines_of, lowercase, past_char, split_lines, starts_with,
    texts, to_chars, to_lowercase, to_string, trim, trimmed, views,
};

verus! {

/// A record reviewed fewer days ago than this is fresh.
pub const FRESH_DAYS: i64 = 30;

/// A record reviewed more days ago than this is stale.
pub const STALE_DAYS: i64 = 180;

/// The units of 30 points: a file counts as complex with a smell score above
/// this.
pub const COMPLEX_UNITS: u64 = 30_000_000;

/// The units of the score where the age of the decision is unknown: 50
/// points.
pub const UNDATED_UNITS: u64 = 50_000_000;

/// The decision record of a file.
#[derive(Clone, Debug)]
pub enum AdrRecord {
    /// No record was found.
    Missing,
    /// A record was found, and it could not be read.
    Unreadable,
    /// The text of the record that was found first.
    Text(String),
}

/// The day number of the date that `chrono::NaiveDate::parse_from_str` reads
/// from `s` with the format `%Y-%m-%d`, counted in the proleptic Gregorian
/// calendar with 1 for January 1 of the year 1; none where it reads no date.
pub uninterp spec fn parsed_day(s: Seq<char>) -> Option<i32>;

/// Calls `chrono::NaiveDate::parse_from_str` on `s` with the format
/// `%Y-%m-%d` and hands back the date's day number, as
/// `Datelike::num_days_from_ce` gives it. Nothing is claimed of which texts
/// are dates.
#[verifier::external_body]
fn parse_day(s: &str) -> (r: Option<i32>)
    ensures
        r == parsed_day(s@),
{
    match chrono::NaiveDate::parse_from_str(s, "%Y-%m-%d") {
        Ok(date) => Some(chrono::Datelike::num_days_from_ce(&date)),
        Err(_) => None,
    }
}

/// Whether `line` says when the record was reviewed: trimmed and in lower
/// case it begins with `last_reviewed_at:`, `reviewed:` or `last-reviewed:`.
pub open spec fn is_review_line(line: Seq<char>) -> bool {
    let l = lowercase(trim(line));
    "last_reviewed_at:"@.is_prefix_of(l) || "reviewed:"@.is_prefix_of(l)
        || "last-reviewed:"@.is_prefix_of(l)
}

/// The day of the review that `line` states: the date that follows its first
/// colon.
pub open spec fn review_day(line: Seq<char>) -> Option<i32> {
    if is_review_line(line) {
        parsed_day(trim(after_char(line, ':')))
    } else {
        None
    }
}

/// The day of the review that the first `k` of `lines` state: that of the
/// first line that states one.
pub open spec fn review_day_upto(lines: Seq<Seq<char>>, k: nat) -> Option<i32>
    decreases k,
{
    if k == 0 {
        None
    } else {
        match review_day_upto(lines, (k - 1) as nat) {
            Some(d) => Some(d),
            None => review_day(lines[k - 1]),
        }
    }
}

/// The number of days between the review that `content` states and the day
/// `today`.
pub open spec fn review_age(content: Seq<char>, today: i32) -> Option<int> {
    let lines = lines_of(content);
    match review_day_upto(lines, lines.len()) {
        Some(d) => Some(today - d),
        None => None,
    }
}

/// The staleness score, in units, of a decision reviewed `age` days ago: 0
/// under 30 days, 100 over 180 days, and rising evenly between.
pub open spec fn age_units(age: int) -> nat {
    if age < FRESH_DAYS {
        0
    } else if age > STALE_DAYS {
        FULL_SCORE as nat
    } else {
        capped_ratio(
            (age - FRESH_DAYS) as nat,
            (STALE_DAYS - FRESH_DAYS) as nat,
            FULL_SCORE as nat,
            FULL_SCORE as nat,
        )
    }
}

/// The staleness score, in units, of a file with the decision record `adr`
/// and the smell score `smell_score`, on the day `today`: by the age of the
/// review where the record states one, 50 where the record states none or
/// cannot be read; without a record, 50 for a file with a smell score above
/// 30 and 0 for any other.
pub open spec fn staleness_units(adr: AdrRecord, smell_score: Fixed, today: i32) -> nat {
    match adr {
        AdrRecord::Text(text) => match review_age(text@, today) {
            Some(age) => age_units(age),
            None => UNDATED_UNITS as nat,
        },
        AdrRecord::Unreadable => UNDATED_UNITS as nat,
        AdrRecord::Missing => if smell_score.units > COMPLEX_UNITS {
            UNDATED_UNITS as nat
        } else {
            0
        },
    }
}

/// The places at which the decision record of the file at `rel` is looked
/// for, below the root `root`: `name.adr.md` and `name.md` in
/// `.debtengine/adrs`, then `name.adr.md` beside the file.
pub open spec fn adr_paths(root: Seq<char>, rel: Seq<char>) -> Seq<Seq<char>> {
    let archive = joined(root, ".debtengine/adrs"@);
    let stem = stem_or_empty(rel);
    seq![
        joined(archive, stem + ".adr.md"@),
        joined(archive, stem + ".md"@),
        joined(joined(root, parent_of(rel)), stem + ".adr.md"@),
    ]
}

/// The places at which the decision record of the file at `relative_path` is
/// looked for, in the order in which they are tried.
pub fn adr_candidates(relative_path: &str, workspace_path: &str) -> (r: Vec<String>)
    ensures
        texts(r@) == adr_paths(workspace_path@, relative_path@),
{
    let rel = to_chars(relative_path);
    let rel = rel.as_slice();
    let root = to_chars(workspace_path);
    let root = root.as_slice();
    let none: Vec<char> = Vec::new();
    let stem = match name_of(rel) {
        Some(f) => stem_of_name(f),
        None => {
            assert(none@ =~= Seq::<char>::empty());
            none.as_slice()
        },
    };
    let archive_name = to_chars(".debtengine/adrs");
    let archive = join(root, archive_name.as_slice());
    let mut adr_name = copy_chars(stem);
    append_text(&mut adr_name, ".adr.md");
    let mut md_name = copy_chars(stem);
    append_text(&mut md_name, ".md");
    let dir = parent_dir(rel);
    let beside = join(root, dir.as_slice());
    let c0 = join(archive.as_slice(), adr_name.as_slice());
    let c1 = join(archive.as_slice(), md_name.as_slice());
    let c2 = join(beside.as_slice(), adr_name.as_slice());
    let mut out: Vec<String> = Vec::new();
    out.push(to_string(c0.as_slice()));
    out.push(to_string(c1.as_slice()));
    out.push(to_string(c2.as_slice()));
    assert(texts(out@) =~= adr_paths(workspace_path@, relative_path@));
    out
}

/// The day of the review that `line` states.
fn review_day_of(line: &[char]) -> (r: Option<i32>)
    ensures
        r == review_day(line@),
{
    let lower = to_lowercase(trimmed(line));
    let lower = lower.as_slice();
    if starts_with(lower, "last_reviewed_at:") || starts_with(lower, "reviewed:") || starts_with(
        lower,
        "last-reviewed:",
    ) {
        let date = to_string(trimmed(past_char(line, ':')));
        parse_day(date.as_str())
    } else {
        None
    }
}

/// The number of days between the review that `content` states and the day
/// `today`, a day number as `chrono` counts them.
pub fn parse_review_date(content: &str, today: i32) -> (r: Option<i64>)
    ensures
        match r {
            Some(age) => review_age(content@, today) == Some(age as int),
            None => review_age(content@, today).is_none(),
        },
{
    let text = to_chars(content);
    let lines = split_lines(text.as_slice());
    let ghost ls = views(lines@);
    let mut i: usize = 0;
    while i < lines.len()
        invariant
            i <= lines@.len(),
            ls == views(lines@),
            ls == lines_of(content@),
            review_day_upto(ls, i as nat).is_none(),
        decreases lines@.len() - i,
    {
        assert(ls[i as int] == lines@[i as int]@);
        match review_day_of(lines[i].as_slice()) {
            Some(day) => {
                proof {
                    lemma_first_review(ls, (i + 1) as nat, ls.len());
                }
                return Some(today as i64 - day as i64);
            },
            None => {},
        }
        i += 1;
    }
    None
}

/// Once a line has stated a review, later lines do not change it.
proof fn lemma_first_review(lines: Seq<Seq<char>>, k: nat, n: nat)
    requires
        k <= n,
        review_day_upto(lines, k).is_some(),
    ensures
        review_day_upto(lines, n) == review_day_upto(lines, k),
    decreases n - k,
{
    if k < n {
        lemma_first_review(lines, k, (n - 1) as nat);
    }
}

/// The staleness score of a file with the decision record `adr` and the
/// smell score `smell_score`, on the day `today`.
pub fn compute_staleness(adr: &AdrRecord, smell_score: Fixed, today: i32) -> (score: Fixed)
    ensures
        score.units == staleness_units(*adr, smell_score, today),
        score.units <= FULL_SCORE,
{
    match adr {
        AdrRecord::Text(text) => {
            match parse_review_date(text.as_str(), today) {
                Some(age) => {
                    if age < FRESH_DAYS {
                        Fixed::zero()
                    } else if age > STALE_DAYS {
                        Fixed::from_units(FULL_SCORE)
                    } else {
                        Fixed::from_units(
                            ratio_units(
                                (age - FRESH_DAYS) as u128,
                                (STALE_DAYS - FRESH_DAYS) as u128,
                                FULL_SCORE,
                                FULL_SCORE,
                            ),
                        )
                    }
                },
                None => Fixed::from_units(UNDATED_UNITS),
            }
        },
        AdrRecord::Unreadable => Fixed::from_units(UNDATED_UNITS),
        AdrRecord::Missing => {
            if smell_score.units > COMPLEX_UNITS {
                Fixed::from_units(UNDATED_UNITS)
            } else {
                Fixed::zero()
            }
        },
    }
}

} // verus!
