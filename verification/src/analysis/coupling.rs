//! Change coupling: files that change in the same commits.

use vstd::prelude::*;
use crate::analysis::churn::{in_window, is_in_window, CommitFacts};
use crate::analysis::smells::saturated;
use crate::fixed::{capped_ratio, ratio_units, Fixed, FULL_SCORE, SCALE};
use crate::paths::{is_source_file, is_source_path};
use crate::table::Table;
use crate::text::{comes_before, is_before, texts, to_chars};

verus! {

/// The number of peers whose ratios make up the change-coupling score.
pub const TOP_PEERS: usize = 5;

/// The files that changed together, and how often each file changed.
#[derive(Debug)]
pub struct CoChangeResult {
    /// For two files, the number of commits in which both changed. The first
    /// path of an entry does not come after the second.
    pub pairs: Vec<(String, String, usize)>,
    /// For each file, the number of its changes in the history window.
    pub file_change_counts: Table<usize>,
}

/// The count that `ps` holds for the pair `(a, b)`: that of the first entry
/// with these two paths.
pub open spec fn pair_lookup(ps: Seq<(String, String, usize)>, a: Seq<char>, b: Seq<char>)
    -> Option<usize>
    decreases ps.len(),
{
    if ps.len() == 0 {
        None
    } else if ps[0].0@ == a && ps[0].1@ == b {
        Some(ps[0].2)
    } else {
        pair_lookup(ps.drop_first(), a, b)
    }
}

/// The count that `ps` holds for the pair `(a, b)`, 0 where it holds none.
pub open spec fn pair_count(ps: Seq<(String, String, usize)>, a: Seq<char>, b: Seq<char>) -> nat {
    match pair_lookup(ps, a, b) {
        Some(n) => n as nat,
        None => 0,
    }
}

/// Whether entry `e` is for the pair `(a, b)`.
pub open spec fn is_pair(e: (String, String, usize), a: Seq<char>, b: Seq<char>) -> bool {
    e.0@ == a && e.1@ == b
}

/// Whether no pair occurs twice in `ps`, and every count is at least 1.
pub open spec fn pairs_wf(ps: Seq<(String, String, usize)>) -> bool {
    &&& forall|i: int, j: int|
        0 <= i < j < ps.len() ==> !is_pair(#[trigger] ps[i], (#[trigger] ps[j]).0@, ps[j].1@)
    &&& forall|i: int| 0 <= i < ps.len() ==> (#[trigger] ps[i]).2 >= 1
}

/// Entries before the first one for a pair do not matter to that pair.
proof fn lemma_pair_skip(ps: Seq<(String, String, usize)>, a: Seq<char>, b: Seq<char>, i: int)
    requires
        0 <= i <= ps.len(),
        forall|j: int| 0 <= j < i ==> !is_pair(#[trigger] ps[j], a, b),
    ensures
        pair_lookup(ps, a, b) == pair_lookup(ps.skip(i), a, b),
    decreases i,
{
    if i == 0 {
        assert(ps.skip(0) =~= ps);
    } else {
        let t = ps.drop_first();
        assert(!is_pair(ps[0], a, b));
        assert forall|j: int| 0 <= j < i - 1 implies !is_pair(#[trigger] t[j], a, b) by {
            assert(t[j] == ps[j + 1]);
        }
        lemma_pair_skip(t, a, b, i - 1);
        assert(t.skip(i - 1) =~= ps.skip(i));
    }
}

/// Replacing the first entry for a pair changes the count of that pair, and
/// nothing else.
proof fn lemma_pair_update(
    ps: Seq<(String, String, usize)>,
    i: int,
    e: (String, String, usize),
    x: Seq<char>,
    y: Seq<char>,
)
    requires
        0 <= i < ps.len(),
        forall|j: int| 0 <= j < i ==> !is_pair(#[trigger] ps[j], e.0@, e.1@),
        is_pair(ps[i], e.0@, e.1@),
    ensures
        pair_lookup(ps.update(i, e), x, y) == if is_pair(e, x, y) {
            Some(e.2)
        } else {
            pair_lookup(ps, x, y)
        },
    decreases i,
{
    let new = ps.update(i, e);
    if i == 0 {
        assert(new.drop_first() =~= ps.drop_first());
    } else {
        let t = ps.drop_first();
        assert(!is_pair(ps[0], e.0@, e.1@));
        assert forall|j: int| 0 <= j < i - 1 implies !is_pair(#[trigger] t[j], e.0@, e.1@) by {
            assert(t[j] == ps[j + 1]);
        }
        lemma_pair_update(t, i - 1, e, x, y);
        assert(new.drop_first() =~= t.update(i - 1, e));
        assert(new[0] == ps[0]);
    }
}

/// A new entry at the end gives its pair a count, where the pair had none,
/// and changes nothing else.
proof fn lemma_pair_push(
    ps: Seq<(String, String, usize)>,
    e: (String, String, usize),
    x: Seq<char>,
    y: Seq<char>,
)
    requires
        forall|j: int| 0 <= j < ps.len() ==> !is_pair(#[trigger] ps[j], e.0@, e.1@),
    ensures
        pair_lookup(ps.push(e), x, y) == if is_pair(e, x, y) {
            Some(e.2)
        } else {
            pair_lookup(ps, x, y)
        },
    decreases ps.len(),
{
    let new = ps.push(e);
    assert(new[0] == if ps.len() == 0 {
        e
    } else {
        ps[0]
    });
    if ps.len() == 0 {
        assert(new.drop_first() =~= Seq::<(String, String, usize)>::empty());
        assert(pair_lookup(new.drop_first(), x, y).is_none());
    } else {
        let t = ps.drop_first();
        assert(!is_pair(ps[0], e.0@, e.1@));
        assert forall|j: int| 0 <= j < t.len() implies !is_pair(#[trigger] t[j], e.0@, e.1@) by {
            assert(t[j] == ps[j + 1]);
        }
        lemma_pair_push(t, e, x, y);
        assert(new.drop_first() =~= t.push(e));
    }
}

/// The two paths with the one that comes first in front.
pub open spec fn ordered_pair(x: Seq<char>, y: Seq<char>) -> (Seq<char>, Seq<char>) {
    if comes_before(x, y) {
        (x, y)
    } else {
        (y, x)
    }
}

/// The source files among `files`, in order.
pub open spec fn source_files(files: Seq<String>) -> Seq<Seq<char>>
    decreases files.len(),
{
    if files.len() == 0 {
        Seq::empty()
    } else if is_source_path(files.last()@) {
        source_files(files.drop_last()).push(files.last()@)
    } else {
        source_files(files.drop_last())
    }
}

/// The number of times that `path` occurs among `files`.
pub open spec fn times_in(files: Seq<Seq<char>>, path: Seq<char>) -> nat
    decreases files.len(),
{
    if files.len() == 0 {
        0
    } else {
        times_in(files.drop_last(), path) + if files.last() == path {
            1nat
        } else {
            0nat
        }
    }
}

/// The number of indices `t` with `i < t < j` at which `changed[i]` and
/// `changed[t]` are the pair `(a, b)`.
pub open spec fn pairs_in_row(changed: Seq<Seq<char>>, i: int, j: int, a: Seq<char>, b: Seq<char>)
    -> nat
    decreases j - i,
{
    if j <= i + 1 {
        0
    } else {
        pairs_in_row(changed, i, j - 1, a, b) + if ordered_pair(changed[i], changed[j - 1]) == (
            a,
            b,
        ) {
            1nat
        } else {
            0nat
        }
    }
}

/// The number of index pairs `s < t` with `s < i` at which `changed[s]` and
/// `changed[t]` are the pair `(a, b)`.
pub open spec fn pairs_upto(changed: Seq<Seq<char>>, i: nat, a: Seq<char>, b: Seq<char>) -> nat
    decreases i,
{
    if i == 0 {
        0
    } else {
        pairs_upto(changed, (i - 1) as nat, a, b) + pairs_in_row(
            changed,
            i - 1,
            changed.len() as int,
            a,
            b,
        )
    }
}

/// The number of times that the files of one commit pair up as `(a, b)`.
pub open spec fn pairs_in(changed: Seq<Seq<char>>, a: Seq<char>, b: Seq<char>) -> nat {
    pairs_upto(changed, changed.len(), a, b)
}

/// The number of times that `a` and `b` changed together in those of the
/// first `k` commits that lie within the window. Only source files count.
pub open spec fn co_changes_upto(
    commits: Seq<CommitFacts>,
    now: i64,
    days: u32,
    k: nat,
    a: Seq<char>,
    b: Seq<char>,
) -> nat
    decreases k,
{
    if k == 0 {
        0
    } else {
        co_changes_upto(commits, now, days, (k - 1) as nat, a, b) + if in_window(
            commits[k - 1].time,
            now,
            days,
        ) {
            pairs_in(source_files(commits[k - 1].files@), a, b)
        } else {
            0
        }
    }
}

/// The number of changes to the source file `path` in those of the first `k`
/// commits that lie within the window.
pub open spec fn source_changes_upto(
    commits: Seq<CommitFacts>,
    now: i64,
    days: u32,
    k: nat,
    path: Seq<char>,
) -> nat
    decreases k,
{
    if k == 0 {
        0
    } else {
        source_changes_upto(commits, now, days, (k - 1) as nat, path) + if in_window(
            commits[k - 1].time,
            now,
            days,
        ) {
            times_in(source_files(commits[k - 1].files@), path)
        } else {
            0
        }
    }
}

/// The source files among `files`, in order.
fn source_only(files: &Vec<String>) -> (changed: Vec<String>)
    ensures
        texts(changed@) == source_files(files@),
{
    let mut changed: Vec<String> = Vec::new();
    let mut i: usize = 0;
    assert(files@.take(0) =~= Seq::empty());
    assert(texts(changed@) =~= Seq::empty());
    while i < files.len()
        invariant
            i <= files@.len(),
            texts(changed@) == source_files(files@.take(i as int)),
        decreases files@.len() - i,
    {
        proof {
            assert(files@.take(i + 1).drop_last() =~= files@.take(i as int));
        }
        if is_source_file(files[i].as_str()) {
            let copy = files[i].clone();
            assert(texts(changed@.push(copy)) =~= texts(changed@).push(copy@));
            changed.push(copy);
        }
        i += 1;
    }
    assert(files@.take(files@.len() as int) =~= files@);
    changed
}

/// Adds one to the count of the pair `(a, b)`. A count at the largest `usize`
/// stays there.
fn bump_pair(pairs: &mut Vec<(String, String, usize)>, a: String, b: String)
    requires
        pairs_wf(old(pairs)@),
    ensures
        pairs_wf(final(pairs)@),
        forall|x: Seq<char>, y: Seq<char>|
            pair_count(final(pairs)@, x, y) == if x == a@ && y == b@ {
                if pair_count(old(pairs)@, x, y) < usize::MAX {
                    pair_count(old(pairs)@, x, y) + 1
                } else {
                    pair_count(old(pairs)@, x, y)
                }
            } else {
                pair_count(old(pairs)@, x, y)
            },
{
    let ghost before = pairs@;
    let mut i: usize = 0;
    while i < pairs.len()
        invariant
            i <= pairs@.len(),
            pairs@ == before,
            before == old(pairs)@,
            pairs_wf(before),
            forall|j: int| 0 <= j < i ==> !is_pair(#[trigger] before[j], a@, b@),
        decreases pairs@.len() - i,
    {
        if pairs[i].0 == a && pairs[i].1 == b {
            let now = pairs[i].2;
            let next = if now < usize::MAX {
                now + 1
            } else {
                now
            };
            let entry = (a, b, next);
            proof {
                lemma_pair_skip(before, a@, b@, i as int);
                assert(before.skip(i as int)[0] == before[i as int]);
                assert(pair_lookup(before, a@, b@) == Some(now));
                assert forall|x: Seq<char>, y: Seq<char>|
                    pair_lookup(before.update(i as int, entry), x, y) == if is_pair(entry, x, y) {
                        Some(next)
                    } else {
                        pair_lookup(before, x, y)
                    } by {
                    lemma_pair_update(before, i as int, entry, x, y);
                }
            }
            pairs[i] = entry;
            return ;
        }
        i += 1;
    }
    let entry = (a, b, 1usize);
    proof {
        lemma_pair_skip(before, a@, b@, before.len() as int);
        assert forall|x: Seq<char>, y: Seq<char>|
            pair_lookup(before.push(entry), x, y) == if is_pair(entry, x, y) {
                Some(1usize)
            } else {
                pair_lookup(before, x, y)
            } by {
            lemma_pair_push(before, entry, x, y);
        }
    }
    pairs.push(entry);
}

/// Finds, in the commits that lie within the `history_days` days before
/// `now`, how often each source file changed and how often each two of them
/// changed in the same commit. A count beyond the largest `usize` stands as
/// that.
pub fn analyze_co_changes(commits: &Vec<CommitFacts>, now: i64, history_days: u32) -> (r:
    CoChangeResult)
    ensures
        pairs_wf(r.pairs@),
        forall|a: Seq<char>, b: Seq<char>|
            pair_count(r.pairs@, a, b) == saturated(
                co_changes_upto(commits@, now, history_days, commits@.len(), a, b),
            ),
        forall|path: Seq<char>|
            r.file_change_counts.count_spec(path) == saturated(
                source_changes_upto(commits@, now, history_days, commits@.len(), path),
            ),
        r.file_change_counts.is_distinct(),
{
    let mut pairs: Vec<(String, String, usize)> = Vec::new();
    let mut counts: Table<usize> = Table::new();
    let mut c: usize = 0;
    while c < commits.len()
        invariant
            c <= commits@.len(),
            pairs_wf(pairs@),
            counts.is_distinct(),
            forall|a: Seq<char>, b: Seq<char>|
                pair_count(pairs@, a, b) == saturated(
                    co_changes_upto(commits@, now, history_days, c as nat, a, b),
                ),
            forall|path: Seq<char>|
                counts.count_spec(path) == saturated(
                    source_changes_upto(commits@, now, history_days, c as nat, path),
                ),
        decreases commits@.len() - c,
    {
        let commit = &commits[c];
        if is_in_window(commit.time, now, history_days) {
            let changed = source_only(&commit.files);
            let ghost ch = texts(changed@);
            let mut f: usize = 0;
            assert(ch.take(0) =~= Seq::empty());
            while f < changed.len()
                invariant
                    f <= changed@.len(),
                    ch == texts(changed@),
                    counts.is_distinct(),
                    forall|path: Seq<char>|
                        counts.count_spec(path) == saturated(
                            source_changes_upto(commits@, now, history_days, c as nat, path)
                                + times_in(ch.take(f as int), path),
                        ),
                decreases changed@.len() - f,
            {
                proof {
                    assert(ch.take(f + 1).drop_last() =~= ch.take(f as int));
                    assert(ch[f as int] == changed@[f as int]@);
                }
                counts.increment(changed[f].as_str());
                f += 1;
            }
            assert(ch.take(ch.len() as int) =~= ch);
            let mut i: usize = 0;
            while i < changed.len()
                invariant
                    i <= changed@.len(),
                    ch == texts(changed@),
                    pairs_wf(pairs@),
                    forall|a: Seq<char>, b: Seq<char>|
                        pair_count(pairs@, a, b) == saturated(
                            co_changes_upto(commits@, now, history_days, c as nat, a, b)
                                + pairs_upto(ch, i as nat, a, b),
                        ),
                decreases changed@.len() - i,
            {
                let mut j: usize = i + 1;
                while j < changed.len()
                    invariant
                        i < j <= changed@.len(),
                        ch == texts(changed@),
                        pairs_wf(pairs@),
                        forall|a: Seq<char>, b: Seq<char>|
                            pair_count(pairs@, a, b) == saturated(
                                co_changes_upto(commits@, now, history_days, c as nat, a, b)
                                    + pairs_upto(ch, i as nat, a, b) + pairs_in_row(
                                    ch,
                                    i as int,
                                    j as int,
                                    a,
                                    b,
                                ),
                            ),
                    decreases changed@.len() - j,
                {
                    let x = changed[i].clone();
                    let y = changed[j].clone();
                    let xs = to_chars(x.as_str());
                    let ys = to_chars(y.as_str());
                    proof {
                        assert(ch[i as int] == x@ && ch[j as int] == y@);
                    }
                    if is_before(xs.as_slice(), ys.as_slice()) {
                        bump_pair(&mut pairs, x, y);
                    } else {
                        bump_pair(&mut pairs, y, x);
                    }
                    j += 1;
                }
                i += 1;
            }
        }
        c += 1;
    }
    CoChangeResult { pairs, file_change_counts: counts }
}

/// The index of the largest element of `s`, the first of them where several
/// are the largest; 0 for an empty `s`.
pub open spec fn max_index(s: Seq<u64>) -> int
    decreases s.len(),
{
    if s.len() <= 1 {
        0
    } else {
        let m = max_index(s.drop_last());
        if 0 <= m < s.len() - 1 && s.last() <= s[m] {
            m
        } else {
            s.len() - 1
        }
    }
}

/// The sum of the `k` largest elements of `s`, or of all of them where `s`
/// has no more than `k`.
pub open spec fn top_sum(s: Seq<u64>, k: nat) -> nat
    decreases k,
{
    if k == 0 || s.len() == 0 {
        0
    } else {
        let m = max_index(s);
        if 0 <= m < s.len() {
            s[m] as nat + top_sum(s.remove(m), (k - 1) as nat)
        } else {
            0
        }
    }
}

/// How closely two files are coupled, in units: the commits that changed
/// both, divided by the changes of the one that changed less often, at most
/// 1. A file of unknown history counts as changed once.
pub open spec fn coupling_ratio(count: usize, changes_a: Option<usize>, changes_b: Option<usize>)
    -> nat {
    let a = match changes_a {
        Some(n) => n,
        None => 1,
    };
    let b = match changes_b {
        Some(n) => n,
        None => 1,
    };
    let least = if a <= b {
        a
    } else {
        b
    };
    capped_ratio(
        count as nat,
        if least == 0 {
            1
        } else {
            least as nat
        },
        SCALE as nat,
        SCALE as nat,
    )
}

/// The ratios of the pairs among the first `k` of `co.pairs` that `path`
/// belongs to, in order.
pub open spec fn peer_ratios(co: CoChangeResult, path: Seq<char>, k: nat) -> Seq<u64>
    decreases k,
{
    if k == 0 {
        Seq::empty()
    } else {
        let before = peer_ratios(co, path, (k - 1) as nat);
        let p = co.pairs@[k - 1];
        if p.0@ == path || p.1@ == path {
            before.push(
                coupling_ratio(
                    p.2,
                    co.file_change_counts.get_spec(p.0@),
                    co.file_change_counts.get_spec(p.1@),
                ) as u64,
            )
        } else {
            before
        }
    }
}

/// The change-coupling score, in units, of a file with the peer ratios
/// `ratios`: 100 times the mean of the five largest, at most 100; 0 for a
/// file without peers.
pub open spec fn change_coupling_units(ratios: Seq<u64>) -> nat {
    if ratios.len() == 0 {
        0
    } else {
        let k = if ratios.len() < TOP_PEERS {
            ratios.len()
        } else {
            TOP_PEERS as nat
        };
        let scaled = (top_sum(ratios, TOP_PEERS as nat) / k) * 100;
        if scaled >= FULL_SCORE {
            FULL_SCORE as nat
        } else {
            scaled
        }
    }
}

/// A file with a single peer scores 100 times the ratio that it has with
/// that peer, at most 100.
pub proof fn lemma_single_peer_score(ratio: u64)
    ensures
        change_coupling_units(seq![ratio]) == if ratio * 100 >= FULL_SCORE {
            FULL_SCORE as nat
        } else {
            (ratio * 100) as nat
        },
{
    let s = seq![ratio];
    assert(s.len() == 1 && s[0] == ratio);
    assert(max_index(s) == 0);
    assert(s.remove(0) =~= Seq::<u64>::empty());
    assert(top_sum(s.remove(0), 4) == 0);
    assert(top_sum(s, 5) == ratio as nat + top_sum(s.remove(0), 4));
    assert(top_sum(s, TOP_PEERS as nat) / 1 == ratio);
}

/// The index of the first of the largest elements of `s`.
fn index_of_max(s: &Vec<u64>) -> (m: usize)
    requires
        s@.len() > 0,
    ensures
        m == max_index(s@),
        m < s@.len(),
{
    let mut best: usize = 0;
    let mut i: usize = 1;
    assert(s@.take(1).drop_last() =~= Seq::<u64>::empty());
    while i < s.len()
        invariant
            1 <= i <= s@.len(),
            best < i,
            best == max_index(s@.take(i as int)),
        decreases s@.len() - i,
    {
        proof {
            assert(s@.take(i + 1).drop_last() =~= s@.take(i as int));
        }
        if s[i] > s[best] {
            best = i;
        }
        i += 1;
    }
    assert(s@.take(s@.len() as int) =~= s@);
    best
}

/// The change-coupling score of the file at `relative_path`: for each file
/// that changed together with it, the ratio of the commits that changed both
/// to the changes of the one that changed less often; then 100 times the mean
/// of the five largest ratios.
pub fn compute_change_coupling(relative_path: &str, co_change_result: &CoChangeResult) -> (score:
    Fixed)
    ensures
        score.units == change_coupling_units(
            peer_ratios(*co_change_result, relative_path@, co_change_result.pairs@.len()),
        ),
        score.units <= FULL_SCORE,
{
    let wanted = to_chars(relative_path);
    let mut ratios: Vec<u64> = Vec::new();
    let mut i: usize = 0;
    while i < co_change_result.pairs.len()
        invariant
            i <= co_change_result.pairs@.len(),
            wanted@ == relative_path@,
            ratios@ == peer_ratios(*co_change_result, relative_path@, i as nat),
            forall|j: int| 0 <= j < ratios@.len() ==> #[trigger] ratios@[j] <= SCALE,
        decreases co_change_result.pairs@.len() - i,
    {
        let pair = &co_change_result.pairs[i];
        let a = to_chars(pair.0.as_str());
        let b = to_chars(pair.1.as_str());
        if crate::text::same_chars(a.as_slice(), wanted.as_slice()) || crate::text::same_chars(
            b.as_slice(),
            wanted.as_slice(),
        ) {
            let changes_a = match co_change_result.file_change_counts.get(pair.0.as_str()) {
                Some(n) => *n,
                None => 1,
            };
            let changes_b = match co_change_result.file_change_counts.get(pair.1.as_str()) {
                Some(n) => *n,
                None => 1,
            };
            let least = if changes_a <= changes_b {
                changes_a
            } else {
                changes_b
            };
            let least = if least == 0 {
                1
            } else {
                least
            };
            assert(pair.2 * SCALE <= u128::MAX) by (nonlinear_arith)
                requires
                    pair.2 <= u64::MAX,
                    SCALE == 1_000_000,
            ;
            let ratio = ratio_units(pair.2 as u128, least as u128, SCALE, SCALE);
            ratios.push(ratio);
        }
        i += 1;
    }
    if ratios.len() == 0 {
        return Fixed::zero();
    }
    let ghost all = ratios@;
    let peers: usize = if ratios.len() < TOP_PEERS {
        ratios.len()
    } else {
        TOP_PEERS
    };
    let mut sum: u64 = 0;
    let mut taken: usize = 0;
    while taken < TOP_PEERS && ratios.len() > 0
        invariant
            taken <= TOP_PEERS,
            sum <= taken * SCALE,
            forall|j: int| 0 <= j < ratios@.len() ==> #[trigger] ratios@[j] <= SCALE,
            top_sum(all, TOP_PEERS as nat) == sum + top_sum(ratios@, (TOP_PEERS - taken) as nat),
        decreases TOP_PEERS - taken,
    {
        let m = index_of_max(&ratios);
        let largest = ratios.remove(m);
        sum += largest;
        taken += 1;
    }
    let scaled = (sum / (peers as u64)) * 100;
    if scaled >= FULL_SCORE {
        Fixed::from_units(FULL_SCORE)
    } else {
        Fixed::from_units(scaled)
    }
}

} // verus!
