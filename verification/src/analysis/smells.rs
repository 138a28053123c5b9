//! Code-smell counters, found line by line.
//!
//! Each counter is defined over the lines of a source text; `detect_smells`
//! computes all of them in one pass.

use vstd::prelude::*;
use crate::language::{language_of, Language};
use crate::text::{
    char_is_digit, char_width, contains, count_char, count_of, count_upto, find_char, find_first,
    find_last, first_where, has_char, has_text, is_char, is_digit, is_text, last_where,
    leading_space, lemma_count_char_bound, lemma_first_where_props, lemma_total_len_step,
    lemma_total_len_take, lines_of, non_space, rfind_char, split_lines, starts_with,
    starts_with_char, sum_upto, to_chars, to_uppercase, total_len, trim, trimmed, uppercase,
    utf8_len, views,
};

verus! {

/// The smells counted in one file.
#[derive(Clone, Copy, Debug, PartialEq, Eq, Structural)]
pub struct FileSmells {
    pub god_function: usize,
    pub deep_nesting: usize,
    pub long_param_list: usize,
    pub duplicate_block: usize,
    pub dead_import: usize,
    pub magic_number: usize,
    pub empty_catch: usize,
    pub todo_fixme: usize,
    pub total: usize,
    pub loc: usize,
}

/// A function body with more lines than this is a god function.
pub const GOD_FUNCTION_LINES: usize = 60;

/// A line nested deeper than this is deeply nested.
pub const DEEP_NESTING_LEVEL: usize = 4;

/// A function with more parameters than this has a long parameter list.
pub const LONG_PARAMETER_LIST: usize = 5;

/// Whether the trimmed line `line` is a comment.
pub open spec fn is_comment(line: Seq<char>, lang: Language) -> bool {
    match lang {
        Language::Python => line.len() > 0 && line[0] == '#',
        _ => "//"@.is_prefix_of(line) || (line.len() > 0 && line[0] == '*') || "/*"@.is_prefix_of(
            line,
        ),
    }
}

/// Whether `s` holds the character `c`.
pub open spec fn holds(s: Seq<char>, c: char) -> bool {
    find_char(s, c).is_some()
}

/// Whether the trimmed line `line` opens a function.
pub open spec fn is_function_declaration(line: Seq<char>, lang: Language) -> bool {
    match lang {
        Language::TypeScript | Language::JavaScript => {
            ||| contains(line, "function "@)
            ||| contains(line, "=> {"@)
            ||| contains(line, "async "@)
            ||| (holds(line, '(') && holds(line, ')') && holds(line, '{') && !"if"@.is_prefix_of(
                line,
            ) && !"for"@.is_prefix_of(line) && !"while"@.is_prefix_of(line)
                && !"switch"@.is_prefix_of(line))
        },
        Language::Python => "def "@.is_prefix_of(line) || "async def "@.is_prefix_of(line),
        Language::Go => "func "@.is_prefix_of(line),
        Language::Rust => {
            ||| "fn "@.is_prefix_of(line)
            ||| "pub fn "@.is_prefix_of(line)
            ||| "pub(crate) fn "@.is_prefix_of(line)
            ||| "async fn "@.is_prefix_of(line)
        },
        Language::Java => {
            &&& (contains(line, "public "@) || contains(line, "private "@) || contains(
                line,
                "protected "@,
            ) || contains(line, "static "@))
            &&& holds(line, '(')
            &&& holds(line, '{')
        },
        Language::Unknown => false,
    }
}

/// Whether the trimmed line `line` is a comment that holds one of the marks
/// TODO, FIXME, HACK and XXX, in any case.
pub open spec fn is_todo_line(line: Seq<char>, lang: Language) -> bool {
    let upper = uppercase(line);
    is_comment(line, lang) && (contains(upper, "TODO"@) || contains(upper, "FIXME"@) || contains(
        upper,
        "HACK"@,
    ) || contains(upper, "XXX"@))
}

/// The number of bytes of white space that `line` begins with.
pub open spec fn indent_width(line: Seq<char>) -> nat {
    utf8_len(line.take(first_where(line, non_space())))
}

/// The nesting level of `line`: a quarter of its indent, or half of it where
/// the indent is under four.
pub open spec fn nesting_level(line: Seq<char>) -> nat {
    let indent = indent_width(line);
    if indent >= 4 {
        indent / 4
    } else {
        indent / 2
    }
}

/// Whether `line` is deeply nested. Python goes by a quarter of the indent of
/// lines that are not blank, the others by the nesting level.
pub open spec fn is_deep_line(line: Seq<char>, lang: Language) -> bool {
    if lang == Language::Python {
        indent_width(line) / 4 > DEEP_NESTING_LEVEL && trim(line).len() > 0
    } else {
        nesting_level(line) > DEEP_NESTING_LEVEL
    }
}

/// The number of parameters between the first `(` and the last `)` of `line`.
pub open spec fn parameter_count(line: Seq<char>) -> nat {
    match (find_char(line, '('), rfind_char(line, ')')) {
        (Some(open), Some(close)) => if close > open {
            let params = line.subrange(open + 1, close);
            if trim(params).len() == 0 {
                0
            } else {
                count_char(params, ',') + 1
            }
        } else {
            0
        },
        _ => 0,
    }
}

/// Whether the trimmed line `line` declares a function with a long parameter
/// list.
pub open spec fn is_long_param_line(line: Seq<char>, lang: Language) -> bool {
    is_function_declaration(line, lang) && parameter_count(line) > LONG_PARAMETER_LIST
}

/// Whether `c` can stand in a numeric literal.
pub open spec fn number_char(c: char) -> bool {
    is_digit(c) || c == '.' || c == '-'
}

/// The predicate "cannot stand in a numeric literal".
pub open spec fn non_number() -> spec_fn(char) -> bool {
    |c: char| !number_char(c)
}

/// The value of the digit `c`.
pub open spec fn digit_value(c: char) -> nat {
    if is_digit(c) {
        (c as u32 - '0' as u32) as nat
    } else {
        0
    }
}

/// The number that the digits `d` write.
pub open spec fn digits_value(d: Seq<char>) -> nat
    decreases d.len(),
{
    if d.len() == 0 {
        0
    } else {
        10 * digits_value(d.drop_last()) + digit_value(d.last())
    }
}

/// `w` without its sign.
pub open spec fn unsigned_part(w: Seq<char>) -> Seq<char> {
    if w.len() > 0 && w[0] == '-' {
        w.skip(1)
    } else {
        w
    }
}

/// Whether `w` writes a number: an optional minus sign, then digits with at
/// most one point among them, and at least one digit.
pub open spec fn is_number(w: Seq<char>) -> bool {
    let b = unsigned_part(w);
    &&& forall|i: int| 0 <= i < b.len() ==> is_digit(#[trigger] b[i]) || b[i] == '.'
    &&& count_char(b, '.') <= 1
    &&& count_char(b, '.') < b.len()
}

/// Whether the number that `w` writes is one of 0, 1, -1, 2 and 100.
pub open spec fn is_allowed_number(w: Seq<char>) -> bool {
    let b = unsigned_part(w);
    let negative = w.len() > 0 && w[0] == '-';
    let point = first_where(b, is_char('.'));
    let whole = digits_value(b.take(point));
    &&& forall|i: int| point < i < b.len() ==> #[trigger] b[i] == '0'
    &&& whole == 0 || whole == 1 || (!negative && (whole == 2 || whole == 100))
}

/// Whether `w` writes a magic number: a number outside the allowed ones.
pub open spec fn is_magic_literal(w: Seq<char>) -> bool {
    is_number(w) && !is_allowed_number(w)
}

/// Whether a run of number characters ends just before index `k` of `s`.
pub open spec fn run_ends_at(s: Seq<char>, k: int) -> bool {
    0 < k <= s.len() && number_char(s[k - 1]) && (k == s.len() || !number_char(s[k]))
}

/// The run of number characters that ends just before index `k` of `s`.
pub open spec fn run_before(s: Seq<char>, k: int) -> Seq<char> {
    s.subrange(last_where(s.take(k), non_number()), k)
}

/// The number of magic numbers among the runs of number characters that end
/// within the first `k` characters of `s`.
pub open spec fn magic_upto(s: Seq<char>, k: nat) -> nat
    decreases k,
{
    if k == 0 {
        0
    } else {
        magic_upto(s, (k - 1) as nat) + if run_ends_at(s, k as int) && is_magic_literal(
            run_before(s, k as int),
        ) {
            1nat
        } else {
            0nat
        }
    }
}

/// The number of magic numbers in `s`: of its maximal runs of digits, points
/// and minus signs, those that write a number outside the allowed ones.
pub open spec fn magic_count(s: Seq<char>) -> nat {
    magic_upto(s, s.len())
}

/// The magic numbers counted in the trimmed line `line`: none in a comment or
/// in a declaration that begins with `const`, `let` or `var`.
pub open spec fn line_magic_count(line: Seq<char>, lang: Language) -> nat {
    if "const "@.is_prefix_of(line) || "let "@.is_prefix_of(line) || "var "@.is_prefix_of(line)
        || is_comment(line, lang) {
        0
    } else {
        magic_count(line)
    }
}

/// Whether line `i` of `lines` holds `catch` and the line after it is blank or
/// a lone closing brace.
pub open spec fn is_empty_catch(lines: Seq<Seq<char>>, i: int) -> bool {
    &&& 0 <= i
    &&& i + 1 < lines.len()
    &&& contains(trim(lines[i]), "catch"@)
    &&& (trim(lines[i + 1]) == "}"@ || trim(lines[i + 1]).len() == 0)
}

/// Where the scan for function bodies stands after some lines.
pub struct BodyScan {
    /// Whether a function body is open.
    pub in_function: bool,
    /// Opening braces minus closing braces so far.
    pub depth: int,
    /// The depth at which the open function began.
    pub start_depth: int,
    /// The lines of the open function so far.
    pub body_lines: nat,
    /// The god functions that have ended.
    pub found: nat,
}

/// The scan after one more line.
pub open spec fn body_step(st: BodyScan, line: Seq<char>, lang: Language) -> BodyScan {
    let closes = count_char(line, '}');
    let depth = st.depth + count_char(line, '{') - closes;
    let begins = is_function_declaration(trim(line), lang) && !st.in_function;
    let start_depth = if begins {
        st.depth
    } else {
        st.start_depth
    };
    let before = if begins {
        0
    } else {
        st.body_lines
    };
    if st.in_function || begins {
        if depth <= start_depth && closes > 0 {
            BodyScan {
                in_function: false,
                depth,
                start_depth,
                body_lines: 0,
                found: st.found + if before + 1 > GOD_FUNCTION_LINES {
                    1nat
                } else {
                    0nat
                },
            }
        } else {
            BodyScan { in_function: true, depth, start_depth, body_lines: before + 1, found: st.found }
        }
    } else {
        BodyScan { in_function: false, depth, start_depth, body_lines: before, found: st.found }
    }
}

/// The scan after the first `k` of `lines`. A function begins at a
/// declaration outside any function and ends at the first line with a closing
/// brace that brings the depth back to where it began.
pub open spec fn body_scan(lines: Seq<Seq<char>>, lang: Language, k: nat) -> BodyScan
    decreases k,
{
    if k == 0 {
        BodyScan { in_function: false, depth: 0, start_depth: 0, body_lines: 0, found: 0 }
    } else {
        body_step(body_scan(lines, lang, (k - 1) as nat), lines[k - 1], lang)
    }
}

/// The predicate "line `i` is a marked comment".
pub open spec fn todo_lines(lines: Seq<Seq<char>>, lang: Language) -> spec_fn(int) -> bool {
    |i: int| is_todo_line(trim(lines[i]), lang)
}

/// The predicate "line `i` is deeply nested".
pub open spec fn deep_lines(lines: Seq<Seq<char>>, lang: Language) -> spec_fn(int) -> bool {
    |i: int| is_deep_line(lines[i], lang)
}

/// The predicate "line `i` declares a function with a long parameter list".
pub open spec fn long_param_lines(lines: Seq<Seq<char>>, lang: Language) -> spec_fn(int) -> bool {
    |i: int| is_long_param_line(trim(lines[i]), lang)
}

/// The predicate "line `i` opens an empty catch block".
pub open spec fn empty_catch_lines(lines: Seq<Seq<char>>) -> spec_fn(int) -> bool {
    |i: int| is_empty_catch(lines, i)
}

/// The magic numbers counted in line `i`.
pub open spec fn magic_in_lines(lines: Seq<Seq<char>>, lang: Language) -> spec_fn(int) -> nat {
    |i: int| line_magic_count(trim(lines[i]), lang)
}

/// `n`, or the largest `usize` where `n` is beyond it.
pub open spec fn saturated(n: nat) -> usize {
    if n > usize::MAX {
        usize::MAX
    } else {
        n as usize
    }
}

/// The smells of a file with the lines `lines`. `total` is the sum of the
/// eight counters; duplicate blocks and dead imports are never counted.
pub open spec fn smell_report(lines: Seq<Seq<char>>, lang: Language, loc: usize) -> FileSmells {
    let n = lines.len();
    let god = body_scan(lines, lang, n).found;
    let deep = count_upto(n, deep_lines(lines, lang));
    let long = count_upto(n, long_param_lines(lines, lang));
    let magic = sum_upto(n, magic_in_lines(lines, lang));
    let catch = count_upto(n, empty_catch_lines(lines));
    let todo = count_upto(n, todo_lines(lines, lang));
    FileSmells {
        god_function: god as usize,
        deep_nesting: deep as usize,
        long_param_list: long as usize,
        duplicate_block: 0,
        dead_import: 0,
        magic_number: magic as usize,
        empty_catch: catch as usize,
        todo_fixme: todo as usize,
        total: saturated(god + deep + long + magic + catch + todo),
        loc,
    }
}

/// Whether the trimmed line `line` is a comment.
pub fn line_is_comment(line: &[char], lang: Language) -> (r: bool)
    ensures
        r == is_comment(line@, lang),
{
    match lang {
        Language::Python => starts_with_char(line, '#'),
        _ => starts_with(line, "//") || starts_with_char(line, '*') || starts_with(line, "/*"),
    }
}

/// Whether the trimmed line `line` opens a function.
pub fn line_declares_function(line: &[char], lang: Language) -> (r: bool)
    ensures
        r == is_function_declaration(line@, lang),
{
    match lang {
        Language::TypeScript | Language::JavaScript => {
            has_text(line, "function ") || has_text(line, "=> {") || has_text(line, "async ") || (
            has_char(line, '(') && has_char(line, ')') && has_char(line, '{') && !starts_with(
                line,
                "if",
            ) && !starts_with(line, "for") && !starts_with(line, "while") && !starts_with(
                line,
                "switch",
            ))
        },
        Language::Python => starts_with(line, "def ") || starts_with(line, "async def "),
        Language::Go => starts_with(line, "func "),
        Language::Rust => starts_with(line, "fn ") || starts_with(line, "pub fn ") || starts_with(
            line,
            "pub(crate) fn ",
        ) || starts_with(line, "async fn "),
        Language::Java => (has_text(line, "public ") || has_text(line, "private ") || has_text(
            line,
            "protected ",
        ) || has_text(line, "static ")) && has_char(line, '(') && has_char(line, '{'),
        Language::Unknown => false,
    }
}

/// Whether the trimmed line `line` is a marked comment.
fn line_is_todo(line: &[char], lang: Language) -> (r: bool)
    ensures
        r == is_todo_line(line@, lang),
{
    if !line_is_comment(line, lang) {
        return false;
    }
    let upper = to_uppercase(line);
    let upper = upper.as_slice();
    has_text(upper, "TODO") || has_text(upper, "FIXME") || has_text(upper, "HACK") || has_text(
        upper,
        "XXX",
    )
}

/// The number of bytes of white space that `line` begins with.
fn indent_of(line: &[char]) -> (n: u128)
    ensures
        n == indent_width(line@),
        n <= 4 * line@.len(),
{
    let k = leading_space(line);
    let mut n: u128 = 0;
    let mut i: usize = 0;
    while i < k
        invariant
            i <= k <= line.len(),
            n == utf8_len(line@.take(i as int)),
            n <= 4 * i,
        decreases k - i,
    {
        proof {
            assert(line@.take(i + 1).drop_last() =~= line@.take(i as int));
        }
        n += char_width(line[i]) as u128;
        i += 1;
    }
    n
}

/// The nesting level of `line`.
pub fn count_nesting_level(line: &str) -> (level: usize)
    ensures
        level == nesting_level(line@),
{
    let chars = to_chars(line);
    level_of(chars.as_slice())
}

/// The nesting level of `line`.
fn level_of(line: &[char]) -> (level: usize)
    ensures
        level == nesting_level(line@),
{
    let indent = indent_of(line);
    assert(indent / 4 <= line@.len() && line.len() <= usize::MAX);
    if indent >= 4 {
        (indent / 4) as usize
    } else {
        (indent / 2) as usize
    }
}

/// Whether `line` is deeply nested.
fn line_is_deep(line: &[char], lang: Language) -> (r: bool)
    ensures
        r == is_deep_line(line@, lang),
{
    match lang {
        Language::Python => indent_of(line) / 4 > DEEP_NESTING_LEVEL as u128 && trimmed(line).len()
            > 0,
        _ => level_of(line) > DEEP_NESTING_LEVEL,
    }
}

/// The number of parameters between the first `(` and the last `)` of `line`.
pub fn count_parameters(line: &str) -> (n: usize)
    ensures
        n == parameter_count(line@),
{
    let chars = to_chars(line);
    parameters_of(chars.as_slice())
}

/// The number of parameters between the first `(` and the last `)` of `line`.
fn parameters_of(line: &[char]) -> (n: usize)
    ensures
        n == parameter_count(line@),
{
    match (find_first(line, '('), find_last(line, ')')) {
        (Some(open), Some(close)) => {
            if close > open {
                let params = vstd::slice::slice_subrange(line, open + 1, close);
                if trimmed(params).len() == 0 {
                    0
                } else {
                    proof {
                        lemma_count_char_bound(params@, ',');
                    }
                    count_of(params, ',') + 1
                }
            } else {
                0
            }
        },
        _ => 0,
    }
}

/// Whether `c` can stand in a numeric literal.
fn is_number_char(c: char) -> (r: bool)
    ensures
        r == number_char(c),
{
    char_is_digit(c) || c == '.' || c == '-'
}

/// Whether `w` writes a number.
fn writes_number(w: &[char]) -> (r: bool)
    ensures
        r == is_number(w@),
{
    let from: usize = if w.len() > 0 && w[0] == '-' {
        1
    } else {
        0
    };
    let b = vstd::slice::slice_subrange(w, from, w.len());
    assert(b@ == unsigned_part(w@));
    let mut i: usize = 0;
    while i < b.len()
        invariant
            i <= b.len(),
            b@ == unsigned_part(w@),
            forall|j: int| 0 <= j < i ==> is_digit(#[trigger] b@[j]) || b@[j] == '.',
        decreases b.len() - i,
    {
        if !(char_is_digit(b[i]) || b[i] == '.') {
            assert(!(is_digit(b@[i as int]) || b@[i as int] == '.'));
            return false;
        }
        i += 1;
    }
    let points = count_of(b, '.');
    points <= 1 && points < b.len()
}

/// The number that the digits `d` write, or 101 where that is beyond 100.
fn value_to_101(d: &[char]) -> (v: u64)
    ensures
        v == if digits_value(d@) > 100 {
            101
        } else {
            digits_value(d@)
        },
{
    let mut v: u64 = 0;
    let mut i: usize = 0;
    while i < d.len()
        invariant
            i <= d.len(),
            v <= 101,
            v == if digits_value(d@.take(i as int)) > 100 {
                101
            } else {
                digits_value(d@.take(i as int))
            },
        decreases d.len() - i,
    {
        proof {
            assert(d@.take(i + 1).drop_last() =~= d@.take(i as int));
        }
        let c = d[i];
        let digit: u64 = if char_is_digit(c) {
            (c as u32 - '0' as u32) as u64
        } else {
            0
        };
        let next = 10 * v + digit;
        v = if next > 100 {
            101
        } else {
            next
        };
        i += 1;
    }
    assert(d@.take(d.len() as int) =~= d@);
    v
}

/// Whether the number that `w` writes is one of the allowed ones.
fn writes_allowed_number(w: &[char]) -> (r: bool)
    ensures
        r == is_allowed_number(w@),
{
    let negative = w.len() > 0 && w[0] == '-';
    let from: usize = if negative {
        1
    } else {
        0
    };
    let b = vstd::slice::slice_subrange(w, from, w.len());
    assert(b@ == unsigned_part(w@));
    let point = match find_first(b, '.') {
        Some(p) => p,
        None => b.len(),
    };
    proof {
        lemma_first_where_props(b@, is_char('.'));
    }
    let len = b.len();
    let mut i: usize = point;
    while i < len && i + 1 < len
        invariant
            point <= i,
            len == b.len(),
            b@ == unsigned_part(w@),
            point == first_where(b@, is_char('.')),
            forall|j: int| point < j <= i && j < b.len() ==> #[trigger] b@[j] == '0',
        decreases len - i,
    {
        i += 1;
        if b[i] != '0' {
            assert(b@[i as int] != '0');
            return false;
        }
    }
    let whole = value_to_101(vstd::slice::slice_subrange(b, 0, point));
    assert(b@.subrange(0, point as int) =~= b@.take(point as int));
    whole == 0 || whole == 1 || (!negative && (whole == 2 || whole == 100))
}

/// The number of magic numbers in `s`.
fn magic_numbers_in(s: &[char]) -> (n: usize)
    ensures
        n == magic_count(s@),
        n <= s@.len(),
{
    let mut n: usize = 0;
    let mut start: usize = 0;
    let mut i: usize = 0;
    while i < s.len()
        invariant
            i <= s.len(),
            start <= i,
            n <= i,
            n == magic_upto(s@, i as nat),
            start == last_where(s@.take(i as int), non_number()),
        decreases s.len() - i,
    {
        proof {
            assert(s@.take(i + 1).drop_last() =~= s@.take(i as int));
        }
        if is_number_char(s[i]) {
            if i + 1 == s.len() || !is_number_char(s[i + 1]) {
                let run = vstd::slice::slice_subrange(s, start, i + 1);
                if writes_number(run) && !writes_allowed_number(run) {
                    n += 1;
                }
            }
        } else {
            start = i + 1;
        }
        i += 1;
    }
    n
}

/// The number of magic numbers in the trimmed line `line`.
pub fn count_magic_numbers(line: &str) -> (n: usize)
    ensures
        n == magic_count(line@),
{
    let chars = to_chars(line);
    magic_numbers_in(chars.as_slice())
}

/// The magic numbers counted in the trimmed line `line`.
fn line_magic(line: &[char], lang: Language) -> (n: usize)
    ensures
        n == line_magic_count(line@, lang),
        n <= line@.len(),
{
    if starts_with(line, "const ") || starts_with(line, "let ") || starts_with(line, "var ")
        || line_is_comment(line, lang) {
        0
    } else {
        magic_numbers_in(line)
    }
}

/// Whether line `i` of `lines` opens an empty catch block.
fn line_opens_empty_catch(lines: &Vec<Vec<char>>, i: usize) -> (r: bool)
    requires
        i < lines@.len(),
    ensures
        r == is_empty_catch(views(lines@), i as int),
{
    let n = lines.len();
    if i + 1 >= n {
        return false;
    }
    if !has_text(trimmed(lines[i].as_slice()), "catch") {
        return false;
    }
    let next = trimmed(lines[i + 1].as_slice());
    is_text(next, "}") || next.len() == 0
}

/// The sum of six counters, or the largest `usize` where it is beyond that.
fn saturating_total(a: usize, b: usize, c: usize, d: usize, e: usize, f: usize) -> (t: usize)
    ensures
        t == saturated((a + b + c + d + e + f) as nat),
{
    let sum: u128 = a as u128 + b as u128 + c as u128 + d as u128 + e as u128 + f as u128;
    if sum > usize::MAX as u128 {
        usize::MAX
    } else {
        sum as usize
    }
}

/// Counts the smells in `lines`.
pub(crate) fn scan_smells(lines: &Vec<Vec<char>>, lang: Language, loc: usize) -> (r: FileSmells)
    requires
        total_len(views(lines@)) <= usize::MAX,
    ensures
        r == smell_report(views(lines@), lang, loc),
{
    let ghost ls = views(lines@);
    let n = lines.len();
    let mut god: usize = 0;
    let mut deep: usize = 0;
    let mut long: usize = 0;
    let mut magic: usize = 0;
    let mut catch: usize = 0;
    let mut todo: usize = 0;
    let mut in_function = false;
    let mut depth: i128 = 0;
    let mut start_depth: i128 = 0;
    let mut body_lines: usize = 0;
    let mut i: usize = 0;
    assert(ls.take(0) =~= Seq::empty());
    while i < n
        invariant
            i <= n,
            n == lines@.len(),
            ls == views(lines@),
            total_len(ls) <= usize::MAX,
            in_function == body_scan(ls, lang, i as nat).in_function,
            depth == body_scan(ls, lang, i as nat).depth,
            start_depth == body_scan(ls, lang, i as nat).start_depth,
            body_lines == body_scan(ls, lang, i as nat).body_lines,
            god == body_scan(ls, lang, i as nat).found,
            -total_len(ls.take(i as int)) <= depth <= total_len(ls.take(i as int)),
            -total_len(ls.take(i as int)) <= start_depth <= total_len(ls.take(i as int)),
            body_lines <= i,
            god <= i,
            deep == count_upto(i as nat, deep_lines(ls, lang)),
            deep <= i,
            long == count_upto(i as nat, long_param_lines(ls, lang)),
            long <= i,
            magic == sum_upto(i as nat, magic_in_lines(ls, lang)),
            magic <= total_len(ls.take(i as int)),
            catch == count_upto(i as nat, empty_catch_lines(ls)),
            catch <= i,
            todo == count_upto(i as nat, todo_lines(ls, lang)),
            todo <= i,
        decreases n - i,
    {
        let line = lines[i].as_slice();
        let t = trimmed(line);
        proof {
            assert(ls[i as int] == line@);
            lemma_total_len_step(ls, i as int);
            lemma_total_len_take(ls, i + 1);
            lemma_count_char_bound(line@, '{');
            lemma_count_char_bound(line@, '}');
            assert(t@.len() <= line@.len()) by {
                crate::text::lemma_trim_len(line@);
            }
        }
        if line_is_todo(t, lang) {
            todo += 1;
        }
        let opens = count_of(line, '{');
        let closes = count_of(line, '}');
        let declares = line_declares_function(t, lang);
        if declares && !in_function {
            in_function = true;
            start_depth = depth;
            body_lines = 0;
        }
        depth = depth + opens as i128 - closes as i128;
        if in_function {
            body_lines += 1;
            if depth <= start_depth && closes > 0 {
                if body_lines > GOD_FUNCTION_LINES {
                    god += 1;
                }
                in_function = false;
                body_lines = 0;
            }
        }
        if line_is_deep(line, lang) {
            deep += 1;
        }
        if declares && parameters_of(t) > LONG_PARAMETER_LIST {
            long += 1;
        }
        magic += line_magic(t, lang);
        if line_opens_empty_catch(lines, i) {
            catch += 1;
        }
        i += 1;
    }
    proof {
        assert(ls.take(n as int) =~= ls);
    }
    FileSmells {
        god_function: god,
        deep_nesting: deep,
        long_param_list: long,
        duplicate_block: 0,
        dead_import: 0,
        magic_number: magic,
        empty_catch: catch,
        todo_fixme: todo,
        total: saturating_total(god, deep, long, magic, catch, todo),
        loc,
    }
}

/// Counts the smells in `source`, a file in the language that `language`
/// names. `loc` is handed on as the file's line count.
pub fn detect_smells(source: &str, language: &str, loc: usize) -> (r: FileSmells)
    ensures
        r == smell_report(lines_of(source@), language_of(language@), loc),
{
    let text = to_chars(source);
    let lines = split_lines(text.as_slice());
    assert(text@.len() == text.len());
    let lang = Language::parse(language);
    scan_smells(&lines, lang, loc)
}

} // verus!
