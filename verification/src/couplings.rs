//! The list of change couplings: the pairs of files that changed together
//! most often.

use vstd::prelude::*;
use crate::analysis::coupling::{coupling_ratio, CoChangeResult};
use crate::fixed::{ratio_units, Fixed, SCALE};
use crate::paths::{stem_of_path, stem_or_empty};
use crate::table::Table;
use crate::text::{contains, has_chars, to_chars};

verus! {

/// The history window of the list, in days.
pub const COUPLING_WINDOW_DAYS: u32 = 90;

/// The least number of commits that must have changed both files of a pair.
pub const MIN_CO_CHANGES: usize = 2;

/// The units of the threshold that holds where none is given: 0.05.
pub const DEFAULT_THRESHOLD_UNITS: u64 = 50_000;

/// The largest number of pairs in the list.
pub const MAX_PAIRS: usize = 200;

/// Two files that changed together.
#[derive(Clone, Debug)]
pub struct CouplingPair {
    pub file_a: String,
    pub file_b: String,
    /// The commits that changed both, divided by the changes of the file that
    /// changed less often; at most 1.
    pub coupling_ratio: Fixed,
    /// The number of commits that changed both.
    pub co_change_count: usize,
    /// Whether the text of the first file holds the name of the second,
    /// without its extension.
    pub has_import_link: bool,
}

/// What a `CouplingPair` holds.
pub struct PairModel {
    pub file_a: Seq<char>,
    pub file_b: Seq<char>,
    pub ratio: u64,
    pub count: usize,
    pub link: bool,
}

/// What the pair `p` holds.
pub open spec fn model_of(p: CouplingPair) -> PairModel {
    PairModel {
        file_a: p.file_a@,
        file_b: p.file_b@,
        ratio: p.coupling_ratio.units,
        count: p.co_change_count,
        link: p.has_import_link,
    }
}

/// What the pairs `ps` hold.
pub open spec fn models_of(ps: Seq<CouplingPair>) -> Seq<PairModel> {
    ps.map_values(|p: CouplingPair| model_of(p))
}

/// The threshold, in units: 0.05 where none is given.
pub open spec fn threshold_units(threshold: Option<Fixed>) -> u64 {
    match threshold {
        Some(t) => t.units,
        None => DEFAULT_THRESHOLD_UNITS,
    }
}

/// Whether `path` is one of `known`.
pub open spec fn is_known(known: Seq<String>, path: Seq<char>) -> bool {
    exists|i: int| 0 <= i < known.len() && (#[trigger] known[i])@ == path
}

/// What the entry `e` of the co-change table says of its two files, given the
/// texts `sources` of the files that could be read.
pub open spec fn candidate(co: CoChangeResult, e: (String, String, usize), sources: Table<String>)
    -> PairModel {
    PairModel {
        file_a: e.0@,
        file_b: e.1@,
        ratio: coupling_ratio(
            e.2,
            co.file_change_counts.get_spec(e.0@),
            co.file_change_counts.get_spec(e.1@),
        ) as u64,
        count: e.2,
        link: match sources.get_spec(e.0@) {
            Some(text) => contains(text@, stem_or_empty(e.1@)),
            None => false,
        },
    }
}

/// Whether the pair `p` belongs in the list: at least two commits changed
/// both files, the ratio reaches the threshold, and one of the files is known
/// or none is.
pub open spec fn is_listed(p: PairModel, threshold: u64, known: Seq<String>) -> bool {
    &&& p.count >= MIN_CO_CHANGES
    &&& p.ratio >= threshold
    &&& (known.len() == 0 || is_known(known, p.file_a) || is_known(known, p.file_b))
}

/// The index at which `p` goes into `sorted`: behind every pair with as many
/// co-changes or more, from index `from` on.
pub open spec fn place_of(sorted: Seq<PairModel>, p: PairModel, from: int) -> int
    decreases sorted.len() - from,
{
    if from < 0 || from >= sorted.len() {
        sorted.len() as int
    } else if sorted[from].count < p.count {
        from
    } else {
        place_of(sorted, p, from + 1)
    }
}

/// Those of the first `k` entries of the co-change table that belong in the
/// list, the pairs with more co-changes first and pairs with as many in the
/// order of the table.
pub open spec fn ranked_upto(
    co: CoChangeResult,
    threshold: u64,
    known: Seq<String>,
    sources: Table<String>,
    k: nat,
) -> Seq<PairModel>
    decreases k,
{
    if k == 0 {
        Seq::empty()
    } else {
        let before = ranked_upto(co, threshold, known, sources, (k - 1) as nat);
        let p = candidate(co, co.pairs@[k - 1], sources);
        if is_listed(p, threshold, known) {
            before.insert(place_of(before, p, 0), p)
        } else {
            before
        }
    }
}

/// The list of change couplings: the first 200 of the ranked pairs.
pub open spec fn coupling_list(
    co: CoChangeResult,
    threshold: Option<Fixed>,
    known: Seq<String>,
    sources: Table<String>,
) -> Seq<PairModel> {
    let ranked = ranked_upto(co, threshold_units(threshold), known, sources, co.pairs@.len());
    if ranked.len() > MAX_PAIRS {
        ranked.take(MAX_PAIRS as int)
    } else {
        ranked
    }
}

/// Whether `s` is in the order of the list: no pair has more co-changes than
/// a pair before it.
pub open spec fn is_ranked(s: Seq<PairModel>) -> bool {
    forall|i: int, j: int| 0 <= i < j < s.len() ==> (#[trigger] s[i]).count >= (#[trigger] s[j]).count
}

/// Where `p` goes, every pair before has as many co-changes or more, and the
/// pair there has fewer.
proof fn lemma_place_of(sorted: Seq<PairModel>, p: PairModel, from: int)
    requires
        0 <= from <= sorted.len(),
    ensures
        from <= place_of(sorted, p, from) <= sorted.len(),
        forall|j: int| from <= j < place_of(sorted, p, from) ==> (#[trigger] sorted[j]).count >= p.count,
        place_of(sorted, p, from) < sorted.len() ==> sorted[place_of(sorted, p, from)].count
            < p.count,
    decreases sorted.len() - from,
{
    if from < sorted.len() && !(sorted[from].count < p.count) {
        lemma_place_of(sorted, p, from + 1);
    }
}

/// A pair that goes into its place leaves the list in order.
proof fn lemma_insert_keeps_rank(sorted: Seq<PairModel>, p: PairModel)
    requires
        is_ranked(sorted),
    ensures
        is_ranked(sorted.insert(place_of(sorted, p, 0), p)),
{
    lemma_place_of(sorted, p, 0);
    let at = place_of(sorted, p, 0);
    let new = sorted.insert(at, p);
    assert forall|i: int, j: int| 0 <= i < j < new.len() implies (#[trigger] new[i]).count >= (
    #[trigger] new[j]).count by {
        if j < at {
            assert(new[i] == sorted[i] && new[j] == sorted[j]);
        } else if j == at {
            assert(new[i] == sorted[i]);
        } else if i < at {
            assert(new[i] == sorted[i] && new[j] == sorted[j - 1]);
        } else if i == at {
            assert(new[j] == sorted[j - 1]);
            assert(sorted[at].count >= sorted[j - 1].count || at == j - 1);
        } else {
            assert(new[i] == sorted[i - 1] && new[j] == sorted[j - 1]);
        }
    }
}

/// The ranked pairs are in the order of the list.
pub proof fn lemma_ranked(
    co: CoChangeResult,
    threshold: u64,
    known: Seq<String>,
    sources: Table<String>,
    k: nat,
)
    ensures
        is_ranked(ranked_upto(co, threshold, known, sources, k)),
        ranked_upto(co, threshold, known, sources, k).len() <= k,
        forall|i: int|
            0 <= i < ranked_upto(co, threshold, known, sources, k).len() ==> is_listed(
                #[trigger] ranked_upto(co, threshold, known, sources, k)[i],
                threshold,
                known,
            ),
    decreases k,
{
    if k > 0 {
        lemma_ranked(co, threshold, known, sources, (k - 1) as nat);
        let before = ranked_upto(co, threshold, known, sources, (k - 1) as nat);
        let p = candidate(co, co.pairs@[k - 1], sources);
        if is_listed(p, threshold, known) {
            lemma_insert_keeps_rank(before, p);
            lemma_place_of(before, p, 0);
            let at = place_of(before, p, 0);
            let new = before.insert(at, p);
            assert forall|i: int| 0 <= i < new.len() implies is_listed(
                #[trigger] new[i],
                threshold,
                known,
            ) by {
                if i < at {
                    assert(new[i] == before[i]);
                } else if i > at {
                    assert(new[i] == before[i - 1]);
                }
            }
        }
    }
}

/// The list of change couplings is in order, holds no more than 200 pairs,
/// and each of its pairs has at least two co-changes and a ratio that
/// reaches the threshold.
pub proof fn lemma_coupling_list(
    co: CoChangeResult,
    threshold: Option<Fixed>,
    known: Seq<String>,
    sources: Table<String>,
)
    ensures
        is_ranked(coupling_list(co, threshold, known, sources)),
        coupling_list(co, threshold, known, sources).len() <= MAX_PAIRS,
        forall|i: int|
            0 <= i < coupling_list(co, threshold, known, sources).len() ==> is_listed(
                #[trigger] coupling_list(co, threshold, known, sources)[i],
                threshold_units(threshold),
                known,
            ),
{
    lemma_ranked(co, threshold_units(threshold), known, sources, co.pairs@.len());
}

/// Whether `path` is one of `known`.
fn knows(known: &Vec<String>, path: &String) -> (r: bool)
    ensures
        r == is_known(known@, path@),
{
    let mut i: usize = 0;
    while i < known.len()
        invariant
            i <= known@.len(),
            forall|j: int| 0 <= j < i ==> (#[trigger] known@[j])@ != path@,
        decreases known@.len() - i,
    {
        if known[i] == *path {
            return true;
        }
        i += 1;
    }
    false
}

/// The index at which a pair with `count` co-changes goes into `sorted`.
fn find_place(sorted: &Vec<CouplingPair>, count: usize, Ghost(p): Ghost<PairModel>) -> (at: usize)
    requires
        p.count == count,
    ensures
        at == place_of(models_of(sorted@), p, 0),
        at <= sorted@.len(),
{
    let ghost ms = models_of(sorted@);
    let mut i: usize = 0;
    while i < sorted.len()
        invariant
            i <= sorted@.len(),
            ms == models_of(sorted@),
            p.count == count,
            place_of(ms, p, 0) == place_of(ms, p, i as int),
        decreases sorted@.len() - i,
    {
        assert(ms[i as int] == model_of(sorted@[i as int]));
        if sorted[i].co_change_count < count {
            return i;
        }
        i += 1;
    }
    i
}

/// Lists the change couplings of the co-change table `co_changes`: the pairs
/// with at least two co-changes and a ratio of at least `threshold`, 0.05
/// where none is given, of which one file is among `known_files` unless there
/// are none; the pairs with more co-changes first, and 200 at most. `sources`
/// holds the texts of the files that could be read.
pub fn get_change_couplings(
    co_changes: &CoChangeResult,
    threshold: Option<Fixed>,
    known_files: &Vec<String>,
    sources: &Table<String>,
) -> (list: Vec<CouplingPair>)
    ensures
        models_of(list@) == coupling_list(*co_changes, threshold, known_files@, *sources),
{
    let least: u64 = match threshold {
        Some(t) => t.units,
        None => DEFAULT_THRESHOLD_UNITS,
    };
    let mut list: Vec<CouplingPair> = Vec::new();
    let mut k: usize = 0;
    assert(models_of(list@) =~= Seq::empty());
    while k < co_changes.pairs.len()
        invariant
            k <= co_changes.pairs@.len(),
            least == threshold_units(threshold),
            models_of(list@) == ranked_upto(*co_changes, least, known_files@, *sources, k as nat),
        decreases co_changes.pairs@.len() - k,
    {
        let entry = &co_changes.pairs[k];
        let ghost p = candidate(*co_changes, *entry, *sources);
        let count = entry.2;
        let changes_a = match co_changes.file_change_counts.get(entry.0.as_str()) {
            Some(n) => *n,
            None => 1,
        };
        let changes_b = match co_changes.file_change_counts.get(entry.1.as_str()) {
            Some(n) => *n,
            None => 1,
        };
        let smaller = if changes_a <= changes_b {
            changes_a
        } else {
            changes_b
        };
        let smaller = if smaller == 0 {
            1
        } else {
            smaller
        };
        assert(count * SCALE <= u128::MAX) by (nonlinear_arith)
            requires
                count <= u64::MAX,
                SCALE == 1_000_000,
        ;
        let ratio = ratio_units(count as u128, smaller as u128, SCALE, SCALE);
        if count >= MIN_CO_CHANGES && ratio >= least && (known_files.len() == 0 || knows(
            known_files,
            &entry.0,
        ) || knows(known_files, &entry.1)) {
            let has_import_link = match sources.get(entry.0.as_str()) {
                Some(text) => {
                    let all = to_chars(text.as_str());
                    let other = to_chars(entry.1.as_str());
                    let stem = stem_of_path(other.as_slice());
                    has_chars(all.as_slice(), stem.as_slice())
                },
                None => false,
            };
            let pair = CouplingPair {
                file_a: entry.0.clone(),
                file_b: entry.1.clone(),
                coupling_ratio: Fixed::from_units(ratio),
                co_change_count: count,
                has_import_link,
            };
            assert(model_of(pair) == p);
            let at = find_place(&list, count, Ghost(p));
            let ghost before = list@;
            list.insert(at, pair);
            assert(models_of(list@) =~= models_of(before).insert(at as int, p));
        }
        k += 1;
    }
    if list.len() > MAX_PAIRS {
        list.truncate(MAX_PAIRS);
        assert(models_of(list@) =~= ranked_upto(
            *co_changes,
            least,
            known_files@,
            *sources,
            co_changes.pairs@.len(),
        ).take(MAX_PAIRS as int));
    }
    list
}

} // verus!
