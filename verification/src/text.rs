//! Character sequences: the searching, trimming and splitting that the
//! analyzers are built from.
//!
//! Every function here has a specification over `Seq<char>` and an executable
//! counterpart over `&[char]` that is proved against it.

use vstd::prelude::*;

verus! {

/// Whether `c` is white space: the code points with the Unicode property
/// `White_Space`.
pub open spec fn is_whitespace(c: char) -> bool {
    let u = c as u32;
    ||| 0x09 <= u <= 0x0D
    ||| u == 0x20
    ||| u == 0x85
    ||| u == 0xA0
    ||| u == 0x1680
    ||| 0x2000 <= u <= 0x200A
    ||| u == 0x2028
    ||| u == 0x2029
    ||| u == 0x202F
    ||| u == 0x205F
    ||| u == 0x3000
}

/// Whether `c` is one of the digits `0` to `9`.
pub open spec fn is_digit(c: char) -> bool {
    '0' <= c <= '9'
}

/// The number of bytes that `c` takes in UTF-8.
pub open spec fn utf8_width(c: char) -> nat {
    let u = c as u32;
    if u < 0x80 {
        1
    } else if u < 0x800 {
        2
    } else if u < 0x10000 {
        3
    } else {
        4
    }
}

/// The number of bytes that `s` takes in UTF-8.
pub open spec fn utf8_len(s: Seq<char>) -> nat
    decreases s.len(),
{
    if s.len() == 0 {
        0
    } else {
        utf8_len(s.drop_last()) + utf8_width(s.last())
    }
}

/// The predicate "is not white space".
pub open spec fn non_space() -> spec_fn(char) -> bool {
    |c: char| !is_whitespace(c)
}

/// The predicate "is white space".
pub open spec fn space() -> spec_fn(char) -> bool {
    |c: char| is_whitespace(c)
}

/// The predicate "is the character `c`".
pub open spec fn is_char(c: char) -> spec_fn(char) -> bool {
    |x: char| x == c
}

/// The index of the first element of `s` that satisfies `p`, or `s.len()`
/// where none does.
pub open spec fn first_where(s: Seq<char>, p: spec_fn(char) -> bool) -> int
    decreases s.len(),
{
    if s.len() == 0 {
        0
    } else if p(s[0]) {
        0
    } else {
        1 + first_where(s.drop_first(), p)
    }
}

/// One past the index of the last element of `s` that satisfies `p`, or 0
/// where none does.
pub open spec fn last_where(s: Seq<char>, p: spec_fn(char) -> bool) -> int
    decreases s.len(),
{
    if s.len() == 0 {
        0
    } else if p(s.last()) {
        s.len() as int
    } else {
        last_where(s.drop_last(), p)
    }
}

/// `first_where` is the one index before which nothing satisfies `p` and at
/// which something does, or the length.
pub proof fn lemma_first_where(s: Seq<char>, p: spec_fn(char) -> bool, k: int)
    requires
        0 <= k <= s.len(),
        forall|j: int| 0 <= j < k ==> !p(#[trigger] s[j]),
        k == s.len() || p(s[k]),
    ensures
        first_where(s, p) == k,
    decreases s.len(),
{
    if s.len() > 0 && k > 0 {
        let t = s.drop_first();
        assert forall|j: int| 0 <= j < k - 1 implies !p(#[trigger] t[j]) by {
            assert(t[j] == s[j + 1]);
        }
        lemma_first_where(t, p, k - 1);
    }
}

/// What `first_where` returns lies within the sequence, nothing before it
/// satisfies `p`, and the element there does.
pub proof fn lemma_first_where_props(s: Seq<char>, p: spec_fn(char) -> bool)
    ensures
        0 <= first_where(s, p) <= s.len(),
        forall|j: int| 0 <= j < first_where(s, p) ==> !p(#[trigger] s[j]),
        first_where(s, p) < s.len() ==> p(s[first_where(s, p)]),
    decreases s.len(),
{
    if s.len() > 0 && !p(s[0]) {
        let t = s.drop_first();
        lemma_first_where_props(t, p);
        assert forall|j: int| 0 <= j < first_where(s, p) implies !p(#[trigger] s[j]) by {
            if j > 0 {
                assert(s[j] == t[j - 1]);
            }
        }
    }
}

/// `last_where` is the one index from which on nothing satisfies `p` and
/// before which something does, or 0.
pub proof fn lemma_last_where(s: Seq<char>, p: spec_fn(char) -> bool, k: int)
    requires
        0 <= k <= s.len(),
        forall|j: int| k <= j < s.len() ==> !p(#[trigger] s[j]),
        k == 0 || p(s[k - 1]),
    ensures
        last_where(s, p) == k,
    decreases s.len(),
{
    if s.len() > 0 && k < s.len() {
        let t = s.drop_last();
        assert forall|j: int| k <= j < t.len() implies !p(#[trigger] t[j]) by {
            assert(t[j] == s[j]);
        }
        lemma_last_where(t, p, k);
    }
}

/// What `last_where` returns lies within the sequence, nothing from it on
/// satisfies `p`, and the element before it does.
pub proof fn lemma_last_where_props(s: Seq<char>, p: spec_fn(char) -> bool)
    ensures
        0 <= last_where(s, p) <= s.len(),
        forall|j: int| last_where(s, p) <= j < s.len() ==> !p(#[trigger] s[j]),
        last_where(s, p) > 0 ==> p(s[last_where(s, p) - 1]),
    decreases s.len(),
{
    if s.len() > 0 && !p(s.last()) {
        let t = s.drop_last();
        lemma_last_where_props(t, p);
        assert forall|j: int| last_where(s, p) <= j < s.len() implies !p(#[trigger] s[j]) by {
            if j < t.len() {
                assert(s[j] == t[j]);
            }
        }
    }
}

/// `s` without its leading white space.
pub open spec fn trim_start(s: Seq<char>) -> Seq<char> {
    s.skip(first_where(s, non_space()))
}

/// `s` without its trailing white space.
pub open spec fn trim_end(s: Seq<char>) -> Seq<char> {
    s.take(last_where(s, non_space()))
}

/// `s` without its leading and trailing white space.
pub open spec fn trim(s: Seq<char>) -> Seq<char> {
    trim_end(trim_start(s))
}

/// Whether `p` occurs in `s` at index `i`.
pub open spec fn occurs_at(s: Seq<char>, p: Seq<char>, i: int) -> bool {
    0 <= i && i + p.len() <= s.len() && s.subrange(i, i + p.len()) == p
}

/// Whether `p` occurs somewhere in `s`.
pub open spec fn contains(s: Seq<char>, p: Seq<char>) -> bool {
    exists|i: int| occurs_at(s, p, i)
}

/// The index of the first occurrence of `p` in `s`, if it occurs.
pub open spec fn find(s: Seq<char>, p: Seq<char>) -> Option<int>
    decreases s.len(),
{
    if p.is_prefix_of(s) {
        Some(0)
    } else if s.len() == 0 {
        None
    } else {
        shift(find(s.drop_first(), p), 1)
    }
}

/// The index `i` moved to the right by `by`.
pub open spec fn shift(i: Option<int>, by: int) -> Option<int> {
    match i {
        Some(i) => Some(i + by),
        None => None,
    }
}

/// The number of elements of `s` equal to `c`.
pub open spec fn count_char(s: Seq<char>, c: char) -> nat
    decreases s.len(),
{
    if s.len() == 0 {
        0
    } else {
        count_char(s.drop_last(), c) + if s.last() == c {
            1nat
        } else {
            0nat
        }
    }
}

/// The index of the first `c` in `s`, if there is one.
pub open spec fn find_char(s: Seq<char>, c: char) -> Option<int> {
    let i = first_where(s, is_char(c));
    if i < s.len() {
        Some(i)
    } else {
        None
    }
}

/// The index of the last `c` in `s`, if there is one.
pub open spec fn rfind_char(s: Seq<char>, c: char) -> Option<int> {
    let i = last_where(s, is_char(c));
    if i > 0 {
        Some(i - 1)
    } else {
        None
    }
}

/// Whether `c` is white space.
pub fn char_is_whitespace(c: char) -> (r: bool)
    ensures
        r == is_whitespace(c),
{
    let u: u32 = c as u32;
    (0x09 <= u && u <= 0x0D) || u == 0x20 || u == 0x85 || u == 0xA0 || u == 0x1680 || (0x2000 <= u
        && u <= 0x200A) || u == 0x2028 || u == 0x2029 || u == 0x202F || u == 0x205F || u == 0x3000
}

/// Whether `c` is a digit.
pub fn char_is_digit(c: char) -> (r: bool)
    ensures
        r == is_digit(c),
{
    '0' <= c && c <= '9'
}

/// The characters of `s`, in order.
pub fn to_chars(s: &str) -> (out: Vec<char>)
    ensures
        out@ == s@,
{
    let mut out: Vec<char> = Vec::new();
    for c in it: s.chars()
        invariant
            out@ == s@.take(it.index() as int),
            it.seq() == s@,
    {
        out.push(c);
    }
    out
}

/// A copy of `s`.
pub fn copy_chars(s: &[char]) -> (out: Vec<char>)
    ensures
        out@ == s@,
{
    let mut out: Vec<char> = Vec::new();
    let mut i: usize = 0;
    while i < s.len()
        invariant
            i <= s.len(),
            out@ == s@.take(i as int),
        decreases s.len() - i,
    {
        out.push(s[i]);
        i += 1;
    }
    out
}

/// Whether `a` and `b` hold the same characters.
pub fn same_chars(a: &[char], b: &[char]) -> (r: bool)
    ensures
        r == (a@ == b@),
{
    if a.len() != b.len() {
        return false;
    }
    let mut i: usize = 0;
    while i < a.len()
        invariant
            i <= a.len(),
            a.len() == b.len(),
            forall|j: int| 0 <= j < i ==> a@[j] == b@[j],
        decreases a.len() - i,
    {
        if a[i] != b[i] {
            return false;
        }
        i += 1;
    }
    assert(a@ =~= b@);
    true
}

/// Whether `s` reads `lit`.
pub fn is_text(s: &[char], lit: &str) -> (r: bool)
    ensures
        r == (s@ == lit@),
{
    let p = to_chars(lit);
    same_chars(s, p.as_slice())
}

/// Whether `p` occurs in `s` at index `i`.
pub fn matches_at(s: &[char], p: &[char], i: usize) -> (r: bool)
    ensures
        r == occurs_at(s@, p@, i as int),
{
    if p.len() > s.len() || i > s.len() - p.len() {
        return false;
    }
    let mut k: usize = 0;
    while k < p.len()
        invariant
            k <= p.len(),
            i + p.len() <= s.len(),
            forall|j: int| 0 <= j < k ==> s@[i + j] == p@[j],
        decreases p.len() - k,
    {
        if s[i + k] != p[k] {
            assert(s@.subrange(i as int, i + p.len())[k as int] == s@[i + k]);
            return false;
        }
        k += 1;
    }
    assert(s@.subrange(i as int, i + p.len()) =~= p@);
    true
}

/// Whether `s` begins with `p`.
pub fn starts_with(s: &[char], p: &str) -> (r: bool)
    ensures
        r == p@.is_prefix_of(s@),
{
    let pat = to_chars(p);
    matches_at(s, pat.as_slice(), 0)
}

/// Whether `s` begins with the character `c`.
pub fn starts_with_char(s: &[char], c: char) -> (r: bool)
    ensures
        r == (s@.len() > 0 && s@[0] == c),
{
    s.len() > 0 && s[0] == c
}

/// The index of the first occurrence of `p` in `s`.
pub fn find_chars(s: &[char], p: &[char]) -> (r: Option<usize>)
    ensures
        r.is_some() == find(s@, p@).is_some(),
        r matches Some(i) ==> find(s@, p@) == Some(i as int) && occurs_at(s@, p@, i as int),
{
    let mut i: usize = 0;
    assert(s@.skip(0) =~= s@);
    while i < s.len()
        invariant
            i <= s.len(),
            find(s@, p@) == shift(find(s@.skip(i as int), p@), i as int),
        decreases s.len() - i,
    {
        let hit = matches_at(s, p, i);
        proof {
            let rest = s@.skip(i as int);
            if p@.len() <= rest.len() {
                assert(rest.subrange(0, p@.len() as int) =~= s@.subrange(i as int, i + p@.len()));
            }
            assert(rest.drop_first() =~= s@.skip(i + 1));
        }
        if hit {
            return Some(i);
        }
        i += 1;
    }
    let hit = matches_at(s, p, i);
    proof {
        let rest = s@.skip(i as int);
        if p@.len() <= rest.len() {
            assert(rest.subrange(0, p@.len() as int) =~= s@.subrange(i as int, i + p@.len()));
        }
    }
    if hit {
        Some(i)
    } else {
        None
    }
}

/// Whether `p` occurs somewhere in `s`.
pub fn has_text(s: &[char], p: &str) -> (r: bool)
    ensures
        r == contains(s@, p@),
{
    let pat = to_chars(p);
    has_chars(s, pat.as_slice())
}

/// Whether `p` occurs somewhere in `s`.
pub fn has_chars(s: &[char], p: &[char]) -> (r: bool)
    ensures
        r == contains(s@, p@),
{
    let mut i: usize = 0;
    while i < s.len()
        invariant
            i <= s.len(),
            forall|j: int| 0 <= j < i ==> !occurs_at(s@, p@, j),
        decreases s.len() - i,
    {
        if matches_at(s, p, i) {
            return true;
        }
        i += 1;
    }
    matches_at(s, p, i)
}

/// Whether `c` occurs in `s`.
pub fn has_char(s: &[char], c: char) -> (r: bool)
    ensures
        r == find_char(s@, c).is_some(),
{
    find_first(s, c).is_some()
}

/// The index of the first `c` in `s`.
pub fn find_first(s: &[char], c: char) -> (r: Option<usize>)
    ensures
        r.is_some() == find_char(s@, c).is_some(),
        r matches Some(i) ==> find_char(s@, c) == Some(i as int) && i < s@.len() && s@[i as int]
            == c,
{
    let mut i: usize = 0;
    while i < s.len()
        invariant
            i <= s.len(),
            forall|j: int| 0 <= j < i ==> !is_char(c)(#[trigger] s@[j]),
        decreases s.len() - i,
    {
        if s[i] == c {
            proof {
                lemma_first_where(s@, is_char(c), i as int);
            }
            return Some(i);
        }
        i += 1;
    }
    proof {
        lemma_first_where(s@, is_char(c), i as int);
    }
    None
}

/// The index of the last `c` in `s`.
pub fn find_last(s: &[char], c: char) -> (r: Option<usize>)
    ensures
        r.is_some() == rfind_char(s@, c).is_some(),
        r matches Some(i) ==> rfind_char(s@, c) == Some(i as int) && i < s@.len() && s@[i as int]
            == c,
{
    let mut i: usize = s.len();
    while i > 0
        invariant
            i <= s.len(),
            forall|j: int| i <= j < s.len() ==> !is_char(c)(#[trigger] s@[j]),
        decreases i,
    {
        if s[i - 1] == c {
            proof {
                lemma_last_where(s@, is_char(c), i as int);
            }
            return Some(i - 1);
        }
        i -= 1;
    }
    proof {
        lemma_last_where(s@, is_char(c), 0);
    }
    None
}

/// The number of times `c` occurs in `s`.
pub fn count_of(s: &[char], c: char) -> (n: usize)
    ensures
        n == count_char(s@, c),
{
    let mut n: usize = 0;
    let mut i: usize = 0;
    while i < s.len()
        invariant
            i <= s.len(),
            n <= i,
            n == count_char(s@.take(i as int), c),
        decreases s.len() - i,
    {
        proof {
            assert(s@.take(i + 1).drop_last() =~= s@.take(i as int));
        }
        if s[i] == c {
            n += 1;
        }
        i += 1;
    }
    assert(s@.take(s.len() as int) =~= s@);
    n
}

/// The number of leading white-space characters of `s`.
pub fn leading_space(s: &[char]) -> (k: usize)
    ensures
        k == first_where(s@, non_space()),
        k <= s@.len(),
{
    let mut i: usize = 0;
    while i < s.len() && char_is_whitespace(s[i])
        invariant
            i <= s.len(),
            forall|j: int| 0 <= j < i ==> !non_space()(#[trigger] s@[j]),
        decreases s.len() - i,
    {
        i += 1;
    }
    proof {
        lemma_first_where(s@, non_space(), i as int);
    }
    i
}

/// `s` without its leading white space.
pub fn trimmed_start(s: &[char]) -> (r: &[char])
    ensures
        r@ == trim_start(s@),
{
    let k = leading_space(s);
    vstd::slice::slice_subrange(s, k, s.len())
}

/// `s` without its trailing white space.
pub fn trimmed_end(s: &[char]) -> (r: &[char])
    ensures
        r@ == trim_end(s@),
{
    let mut i: usize = s.len();
    while i > 0 && char_is_whitespace(s[i - 1])
        invariant
            i <= s.len(),
            forall|j: int| i <= j < s.len() ==> !non_space()(#[trigger] s@[j]),
        decreases i,
    {
        i -= 1;
    }
    proof {
        lemma_last_where(s@, non_space(), i as int);
    }
    vstd::slice::slice_subrange(s, 0, i)
}

/// `s` without its leading and trailing white space.
pub fn trimmed(s: &[char]) -> (r: &[char])
    ensures
        r@ == trim(s@),
{
    trimmed_end(trimmed_start(s))
}

/// The number of bytes that `c` takes in UTF-8.
pub fn char_width(c: char) -> (w: usize)
    ensures
        w == utf8_width(c),
        1 <= w <= 4,
{
    let u: u32 = c as u32;
    if u < 0x80 {
        1
    } else if u < 0x800 {
        2
    } else if u < 0x10000 {
        3
    } else {
        4
    }
}

/// `l` without the carriage return at its end, if it has one.
pub open spec fn strip_cr(l: Seq<char>) -> Seq<char> {
    if l.len() > 0 && l.last() == '\r' {
        l.drop_last()
    } else {
        l
    }
}

/// The lines of `s`. A line ends at a line feed, or at a carriage return
/// followed by a line feed; neither belongs to the line. What follows the last
/// line feed is a line too, unless it is empty.
pub open spec fn lines_of(s: Seq<char>) -> Seq<Seq<char>>
    decreases s.len(),
{
    if s.len() == 0 {
        Seq::empty()
    } else {
        let i = first_where(s, is_char('\n'));
        if 0 <= i < s.len() {
            seq![strip_cr(s.take(i))] + lines_of(s.skip(i + 1))
        } else {
            seq![s]
        }
    }
}

/// The sequences that a vector of vectors holds.
pub open spec fn views(v: Seq<Vec<char>>) -> Seq<Seq<char>> {
    v.map_values(|l: Vec<char>| l@)
}

/// The number of characters in all of `ls`.
pub open spec fn total_len(ls: Seq<Seq<char>>) -> nat
    decreases ls.len(),
{
    if ls.len() == 0 {
        0
    } else {
        total_len(ls.drop_last()) + ls.last().len()
    }
}

/// The first `k` of some lines hold no more characters than all of them.
pub proof fn lemma_total_len_take(ls: Seq<Seq<char>>, k: int)
    requires
        0 <= k <= ls.len(),
    ensures
        total_len(ls.take(k)) <= total_len(ls),
    decreases ls.len(),
{
    if k < ls.len() {
        lemma_total_len_take(ls.drop_last(), k);
        assert(ls.drop_last().take(k) =~= ls.take(k));
    } else {
        assert(ls.take(k) =~= ls);
    }
}

/// One more line adds its length.
pub proof fn lemma_total_len_step(ls: Seq<Seq<char>>, k: int)
    requires
        0 <= k < ls.len(),
    ensures
        total_len(ls.take(k + 1)) == total_len(ls.take(k)) + ls[k].len(),
{
    assert(ls.take(k + 1).drop_last() =~= ls.take(k));
}

/// No character occurs in a sequence more often than the sequence is long.
pub proof fn lemma_count_char_bound(s: Seq<char>, c: char)
    ensures
        count_char(s, c) <= s.len(),
    decreases s.len(),
{
    if s.len() > 0 {
        lemma_count_char_bound(s.drop_last(), c);
    }
}

/// The lines of `s`.
pub fn split_lines(s: &[char]) -> (out: Vec<Vec<char>>)
    ensures
        views(out@) == lines_of(s@),
        total_len(views(out@)) <= s@.len(),
{
    let mut out: Vec<Vec<char>> = Vec::new();
    let mut start: usize = 0;
    let mut i: usize = 0;
    assert(s@.skip(0) =~= s@);
    assert(views(out@) =~= Seq::empty());
    while i < s.len()
        invariant
            start <= i <= s.len(),
            lines_of(s@) == views(out@) + lines_of(s@.skip(start as int)),
            forall|j: int| start <= j < i ==> s@[j] != '\n',
            total_len(views(out@)) <= start,
        decreases s.len() - i,
    {
        if s[i] == '\n' {
            let end = if i > start && s[i - 1] == '\r' {
                i - 1
            } else {
                i
            };
            let line = copy_chars(vstd::slice::slice_subrange(s, start, end));
            proof {
                let rest = s@.skip(start as int);
                assert forall|j: int| 0 <= j < i - start implies !is_char('\n')(
                    #[trigger] rest[j],
                ) by {
                    assert(rest[j] == s@[start + j]);
                }
                lemma_first_where(rest, is_char('\n'), i - start);
                assert(rest.take(i - start) =~= s@.subrange(start as int, i as int));
                assert(strip_cr(s@.subrange(start as int, i as int)) =~= s@.subrange(
                    start as int,
                    end as int,
                ));
                assert(rest.skip(i - start + 1) =~= s@.skip(i + 1));
                assert(views(out@.push(line)) =~= views(out@).push(line@));
                assert(views(out@).push(line@) + lines_of(s@.skip(i + 1)) =~= views(out@) + (
                seq![line@] + lines_of(s@.skip(i + 1))));
                assert(views(out@).push(line@).drop_last() =~= views(out@));
            }
            out.push(line);
            start = i + 1;
        }
        i += 1;
    }
    if start < s.len() {
        let line = copy_chars(vstd::slice::slice_subrange(s, start, s.len()));
        proof {
            let rest = s@.skip(start as int);
            assert forall|j: int| 0 <= j < rest.len() implies !is_char('\n')(#[trigger] rest[j]) by {
                assert(rest[j] == s@[start + j]);
            }
            lemma_first_where(rest, is_char('\n'), rest.len() as int);
            assert(rest =~= s@.subrange(start as int, s@.len() as int));
            assert(views(out@.push(line)) =~= views(out@).push(line@));
            assert(views(out@).push(line@) =~= views(out@) + seq![line@]);
            assert(views(out@).push(line@).drop_last() =~= views(out@));
        }
        out.push(line);
    } else {
        assert(views(out@) + Seq::<Seq<char>>::empty() =~= views(out@));
    }
    out
}

/// The number of indices below `k` at which `p` holds.
pub open spec fn count_upto(k: nat, p: spec_fn(int) -> bool) -> nat
    decreases k,
{
    if k == 0 {
        0
    } else {
        count_upto((k - 1) as nat, p) + if p(k - 1) {
            1nat
        } else {
            0nat
        }
    }
}

/// The sum of `f` over the indices below `k`.
pub open spec fn sum_upto(k: nat, f: spec_fn(int) -> nat) -> nat
    decreases k,
{
    if k == 0 {
        0
    } else {
        sum_upto((k - 1) as nat, f) + f(k - 1)
    }
}

/// What `str::to_uppercase` returns for the text `s`: each character replaced
/// by its Unicode upper-case mapping, which may be several characters.
pub uninterp spec fn uppercase(s: Seq<char>) -> Seq<char>;

/// What `str::to_lowercase` returns for the text `s`.
pub uninterp spec fn lowercase(s: Seq<char>) -> Seq<char>;

/// Calls `str::to_uppercase` on the text `s`. Nothing is claimed of the result
/// but that it is the upper-case form that std defines for these characters.
#[verifier::external_body]
pub(crate) fn to_uppercase(s: &[char]) -> (r: Vec<char>)
    ensures
        r@ == uppercase(s@),
{
    s.iter().collect::<String>().to_uppercase().chars().collect()
}

/// Calls `str::to_lowercase` on the text `s`. Nothing is claimed of the result
/// but that it is the lower-case form that std defines for these characters.
#[verifier::external_body]
pub(crate) fn to_lowercase(s: &[char]) -> (r: Vec<char>)
    ensures
        r@ == lowercase(s@),
{
    s.iter().collect::<String>().to_lowercase().chars().collect()
}

/// Calls `String::from_iter` on the characters of `s`: the string that reads
/// `s`.
#[verifier::external_body]
pub(crate) fn to_string(s: &[char]) -> (r: String)
    ensures
        r@ == s@,
{
    String::from_iter(s.iter())
}

/// Trimming takes characters away and adds none.
pub proof fn lemma_trim_len(s: Seq<char>)
    ensures
        trim(s).len() <= s.len(),
{
    lemma_first_where_props(s, non_space());
    lemma_last_where_props(trim_start(s), non_space());
}

/// `s` with every occurrence of `p` taken out, found from left to right. An
/// empty `p` takes nothing out.
pub open spec fn remove_all(s: Seq<char>, p: Seq<char>) -> Seq<char>
    decreases s.len(),
{
    if s.len() == 0 || p.len() == 0 {
        s
    } else if p.is_prefix_of(s) {
        remove_all(s.skip(p.len() as int), p)
    } else {
        seq![s[0]] + remove_all(s.drop_first(), p)
    }
}

/// `s` up to its first `c`, or all of `s` where it holds none.
pub open spec fn before_char(s: Seq<char>, c: char) -> Seq<char> {
    s.take(first_where(s, is_char(c)))
}

/// `s` without the prefix `p`, if it begins with `p`.
pub open spec fn strip_prefix(s: Seq<char>, p: Seq<char>) -> Option<Seq<char>> {
    if p.is_prefix_of(s) {
        Some(s.skip(p.len() as int))
    } else {
        None
    }
}

/// The last word of `s`: what follows the last white space before its
/// trailing white space. Empty where `s` is blank.
pub open spec fn last_word(s: Seq<char>) -> Seq<char> {
    let e = trim_end(s);
    e.skip(last_where(e, space()))
}

/// `s` with every occurrence of `p` taken out.
pub fn without(s: &[char], p: &str) -> (out: Vec<char>)
    ensures
        out@ == remove_all(s@, p@),
{
    let pat = to_chars(p);
    let pat = pat.as_slice();
    if pat.len() == 0 {
        return copy_chars(s);
    }
    let mut out: Vec<char> = Vec::new();
    let mut i: usize = 0;
    assert(s@.skip(0) =~= s@);
    while i < s.len()
        invariant
            i <= s.len(),
            pat@.len() > 0,
            remove_all(s@, pat@) == out@ + remove_all(s@.skip(i as int), pat@),
        decreases s.len() - i,
    {
        let ghost rest = s@.skip(i as int);
        let hit = matches_at(s, pat, i);
        proof {
            if pat@.len() <= rest.len() {
                assert(rest.subrange(0, pat@.len() as int) =~= s@.subrange(
                    i as int,
                    i + pat@.len(),
                ));
            }
        }
        if hit {
            proof {
                assert(rest.skip(pat@.len() as int) =~= s@.skip(i + pat@.len()));
            }
            i += pat.len();
        } else {
            proof {
                assert(rest.drop_first() =~= s@.skip(i + 1));
                assert(out@.push(s@[i as int]) + remove_all(s@.skip(i + 1), pat@) =~= out@ + (
                seq![rest[0]] + remove_all(rest.drop_first(), pat@)));
            }
            out.push(s[i]);
            i += 1;
        }
    }
    assert(out@ + Seq::<char>::empty() =~= out@);
    out
}

/// `s` up to its first `c`.
pub fn up_to_char(s: &[char], c: char) -> (r: &[char])
    ensures
        r@ == before_char(s@, c),
{
    let end = match find_first(s, c) {
        Some(i) => i,
        None => s.len(),
    };
    proof {
        lemma_first_where_props(s@, is_char(c));
    }
    vstd::slice::slice_subrange(s, 0, end)
}

/// `s` without the prefix `p`, if it begins with `p`.
pub fn stripped_prefix<'a>(s: &'a [char], p: &str) -> (r: Option<&'a [char]>)
    ensures
        r.is_some() == strip_prefix(s@, p@).is_some(),
        r matches Some(t) ==> strip_prefix(s@, p@) == Some(t@),
{
    let pat = to_chars(p);
    if matches_at(s, pat.as_slice(), 0) {
        Some(vstd::slice::slice_subrange(s, pat.len(), s.len()))
    } else {
        None
    }
}

/// The last word of `s`.
pub fn final_word(s: &[char]) -> (r: &[char])
    ensures
        r@ == last_word(s@),
{
    let e = trimmed_end(s);
    let mut i: usize = e.len();
    while i > 0 && !char_is_whitespace(e[i - 1])
        invariant
            i <= e.len(),
            forall|j: int| i <= j < e.len() ==> !space()(#[trigger] e@[j]),
        decreases i,
    {
        i -= 1;
    }
    proof {
        lemma_last_where(e@, space(), i as int);
    }
    vstd::slice::slice_subrange(e, i, e.len())
}

/// `s` without the prefix `p`, taken off as often as `s` begins with it.
pub open spec fn strip_prefixes(s: Seq<char>, p: Seq<char>) -> Seq<char>
    decreases s.len(),
{
    if p.len() > 0 && p.is_prefix_of(s) {
        strip_prefixes(s.skip(p.len() as int), p)
    } else {
        s
    }
}

/// The predicate "is not the character `c`".
pub open spec fn other_than(c: char) -> spec_fn(char) -> bool {
    |x: char| x != c
}

/// `s` without the characters `c` that it ends with.
pub open spec fn strip_trailing(s: Seq<char>, c: char) -> Seq<char> {
    s.take(last_where(s, other_than(c)))
}

/// `s` up to the first occurrence of `p`, or all of `s` where `p` does not
/// occur.
pub open spec fn before_text(s: Seq<char>, p: Seq<char>) -> Seq<char> {
    match find(s, p) {
        Some(i) => s.take(i),
        None => s,
    }
}

/// The first word of `s`: what stands between its leading white space and
/// the next white space.
pub open spec fn first_word(s: Seq<char>) -> Seq<char> {
    let t = trim_start(s);
    t.take(first_where(t, space()))
}

/// What follows the first word of `s`.
pub open spec fn after_first_word(s: Seq<char>) -> Seq<char> {
    let t = trim_start(s);
    t.skip(first_where(t, space()))
}

/// `s` without the prefix `p`, taken off as often as `s` begins with it.
pub fn without_prefixes<'a>(s: &'a [char], p: &str) -> (r: &'a [char])
    ensures
        r@ == strip_prefixes(s@, p@),
{
    let pat = to_chars(p);
    let pat = pat.as_slice();
    if pat.len() == 0 {
        return s;
    }
    let mut i: usize = 0;
    assert(s@.skip(0) =~= s@);
    while matches_at(s, pat, i)
        invariant
            i <= s.len(),
            pat@.len() > 0,
            strip_prefixes(s@, pat@) == strip_prefixes(s@.skip(i as int), pat@),
        decreases s.len() - i,
    {
        proof {
            let rest = s@.skip(i as int);
            assert(rest.subrange(0, pat@.len() as int) =~= s@.subrange(i as int, i + pat@.len()));
            assert(rest.skip(pat@.len() as int) =~= s@.skip(i + pat@.len()));
        }
        i += pat.len();
    }
    proof {
        let rest = s@.skip(i as int);
        if pat@.len() <= rest.len() {
            assert(rest.subrange(0, pat@.len() as int) =~= s@.subrange(i as int, i + pat@.len()));
        }
    }
    vstd::slice::slice_subrange(s, i, s.len())
}

/// `s` without the characters `c` that it ends with.
pub fn without_trailing(s: &[char], c: char) -> (r: &[char])
    ensures
        r@ == strip_trailing(s@, c),
{
    let mut i: usize = s.len();
    while i > 0 && s[i - 1] == c
        invariant
            i <= s.len(),
            forall|j: int| i <= j < s.len() ==> !other_than(c)(#[trigger] s@[j]),
        decreases i,
    {
        i -= 1;
    }
    proof {
        lemma_last_where(s@, other_than(c), i as int);
    }
    vstd::slice::slice_subrange(s, 0, i)
}

/// `s` up to the first occurrence of `p`.
pub fn up_to_text<'a>(s: &'a [char], p: &str) -> (r: &'a [char])
    ensures
        r@ == before_text(s@, p@),
{
    let pat = to_chars(p);
    match find_chars(s, pat.as_slice()) {
        Some(i) => vstd::slice::slice_subrange(s, 0, i),
        None => s,
    }
}

/// The number of characters of `s` before its first white space.
pub fn word_end(s: &[char]) -> (k: usize)
    ensures
        k == first_where(s@, space()),
        k <= s@.len(),
{
    let mut i: usize = 0;
    while i < s.len() && !char_is_whitespace(s[i])
        invariant
            i <= s.len(),
            forall|j: int| 0 <= j < i ==> !space()(#[trigger] s@[j]),
        decreases s.len() - i,
    {
        i += 1;
    }
    proof {
        lemma_first_where(s@, space(), i as int);
    }
    i
}

/// The first word of `s`.
pub fn leading_word(s: &[char]) -> (r: &[char])
    ensures
        r@ == first_word(s@),
{
    let t = trimmed_start(s);
    let k = word_end(t);
    vstd::slice::slice_subrange(t, 0, k)
}

/// What follows the first word of `s`.
pub fn past_first_word(s: &[char]) -> (r: &[char])
    ensures
        r@ == after_first_word(s@),
{
    let t = trimmed_start(s);
    let k = word_end(t);
    vstd::slice::slice_subrange(t, k, t.len())
}

/// Whether `a` comes before `b` in the order of dictionaries: at the first
/// place where they differ `a` has the smaller character, or `a` ends there
/// and `b` goes on.
pub open spec fn comes_before(a: Seq<char>, b: Seq<char>) -> bool
    decreases a.len(),
{
    if b.len() == 0 {
        false
    } else if a.len() == 0 {
        true
    } else if a[0] != b[0] {
        a[0] < b[0]
    } else {
        comes_before(a.drop_first(), b.drop_first())
    }
}

/// Whether `a` comes before `b` in the order of dictionaries.
pub fn is_before(a: &[char], b: &[char]) -> (r: bool)
    ensures
        r == comes_before(a@, b@),
{
    let mut i: usize = 0;
    assert(a@.skip(0) =~= a@ && b@.skip(0) =~= b@);
    while i < a.len() && i < b.len()
        invariant
            i <= a.len(),
            i <= b.len(),
            comes_before(a@, b@) == comes_before(a@.skip(i as int), b@.skip(i as int)),
        decreases a.len() - i,
    {
        proof {
            assert(a@.skip(i as int).drop_first() =~= a@.skip(i + 1));
            assert(b@.skip(i as int).drop_first() =~= b@.skip(i + 1));
        }
        if a[i] != b[i] {
            return a[i] < b[i];
        }
        i += 1;
    }
    i < b.len()
}

/// Adds the characters of `s` to the end of `out`.
pub fn append(out: &mut Vec<char>, s: &[char])
    ensures
        final(out)@ == old(out)@ + s@,
{
    let ghost base = out@;
    let mut i: usize = 0;
    assert(base + s@.take(0) =~= base);
    while i < s.len()
        invariant
            i <= s@.len(),
            out@ == base + s@.take(i as int),
        decreases s@.len() - i,
    {
        out.push(s[i]);
        assert(s@.take(i + 1) =~= s@.take(i as int).push(s@[i as int]));
        assert(base + s@.take(i + 1) =~= (base + s@.take(i as int)).push(s@[i as int]));
        i += 1;
    }
    assert(s@.take(s@.len() as int) =~= s@);
}

/// Adds the text `s` to the end of `out`.
pub fn append_text(out: &mut Vec<char>, s: &str)
    ensures
        final(out)@ == old(out)@ + s@,
{
    let chars = to_chars(s);
    append(out, chars.as_slice());
}

/// What follows the first `c` in `s`; nothing where `s` holds no `c`.
pub open spec fn after_char(s: Seq<char>, c: char) -> Seq<char> {
    let i = first_where(s, is_char(c));
    if 0 <= i < s.len() {
        s.skip(i + 1)
    } else {
        Seq::empty()
    }
}

/// What follows the first `c` in `s`.
pub fn past_char(s: &[char], c: char) -> (r: &[char])
    ensures
        r@ == after_char(s@, c),
{
    let len = s.len();
    match find_first(s, c) {
        Some(i) => vstd::slice::slice_subrange(s, i + 1, len),
        None => {
            proof {
                lemma_first_where_props(s@, is_char(c));
            }
            vstd::slice::slice_subrange(s, len, len)
        },
    }
}

/// The character that writes the digit `d`.
pub open spec fn digit_char(d: nat) -> char {
    if d == 0 {
        '0'
    } else if d == 1 {
        '1'
    } else if d == 2 {
        '2'
    } else if d == 3 {
        '3'
    } else if d == 4 {
        '4'
    } else if d == 5 {
        '5'
    } else if d == 6 {
        '6'
    } else if d == 7 {
        '7'
    } else if d == 8 {
        '8'
    } else {
        '9'
    }
}

/// The decimal digits that write `n`, without leading zeros.
pub open spec fn decimal(n: nat) -> Seq<char>
    decreases n,
{
    if n < 10 {
        seq![digit_char(n)]
    } else {
        decimal(n / 10).push(digit_char(n % 10))
    }
}

/// The character that writes the digit `d`.
fn digit_to_char(d: u8) -> (c: char)
    requires
        d < 10,
    ensures
        c == digit_char(d as nat),
{
    if d == 0 {
        '0'
    } else if d == 1 {
        '1'
    } else if d == 2 {
        '2'
    } else if d == 3 {
        '3'
    } else if d == 4 {
        '4'
    } else if d == 5 {
        '5'
    } else if d == 6 {
        '6'
    } else if d == 7 {
        '7'
    } else if d == 8 {
        '8'
    } else {
        '9'
    }
}

/// The decimal digits that write `n`.
pub fn to_decimal(n: u64) -> (out: Vec<char>)
    ensures
        out@ == decimal(n as nat),
    decreases n,
{
    if n < 10 {
        let mut out: Vec<char> = Vec::new();
        out.push(digit_to_char(n as u8));
        out
    } else {
        let mut out = to_decimal(n / 10);
        out.push(digit_to_char((n % 10) as u8));
        out
    }
}

/// The texts that the strings `v` read.
pub open spec fn texts(v: Seq<String>) -> Seq<Seq<char>> {
    v.map_values(|s: String| s@)
}

} // verus!
