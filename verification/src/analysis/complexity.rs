//! Cyclomatic complexity, estimated line by line.
//!
//! A function starts at a complexity of one; every branching keyword that a
//! line of its body holds adds one, and so does a ternary expression.

use vstd::prelude::*;
use crate::analysis::smells::{holds, saturated};
use crate::fixed::{capped_ratio, ratio_units, Fixed, SCALE};
use crate::language::{language_of, Language};
use crate::text::{
    before_char, contains, count_char, count_of, final_word, has_char, has_text, last_word,
    lemma_count_char_bound, lemma_total_len_step, lemma_total_len_take, lines_of, remove_all,
    split_lines, starts_with, strip_prefix, stripped_prefix, to_chars, to_string, total_len, trim,
    trimmed, up_to_char, views, without,
};

verus! {

/// The complexity of one function.
#[derive(Debug)]
pub struct FunctionComplexity {
    pub name: String,
    pub complexity: usize,
}

/// The complexity of the functions of one file.
#[derive(Debug)]
pub struct FileComplexity {
    pub functions: Vec<FunctionComplexity>,
    /// The mean complexity of the functions, 0 where there is none.
    pub average: Fixed,
}

/// A function as the scan sees it: its name and its complexity.
pub struct FunctionModel {
    pub name: Seq<char>,
    pub complexity: nat,
}

/// Whether the trimmed line `line` opens a function.
pub open spec fn is_function_declaration(line: Seq<char>, lang: Language) -> bool {
    match lang {
        Language::TypeScript | Language::JavaScript => {
            ||| contains(line, "function "@)
            ||| (holds(line, '(') && holds(line, ')') && holds(line, '{') && !"if"@.is_prefix_of(
                line,
            ) && !"for"@.is_prefix_of(line) && !"while"@.is_prefix_of(line))
        },
        Language::Python => "def "@.is_prefix_of(line) || "async def "@.is_prefix_of(line),
        Language::Go => "func "@.is_prefix_of(line),
        Language::Rust => {
            ||| "fn "@.is_prefix_of(line)
            ||| "pub fn "@.is_prefix_of(line)
            ||| "pub(crate) fn "@.is_prefix_of(line)
        },
        Language::Java => {
            &&& (contains(line, "public "@) || contains(line, "private "@) || contains(
                line,
                "protected "@,
            ))
            &&& holds(line, '(')
            &&& holds(line, '{')
        },
        Language::Unknown => false,
    }
}

/// The name of the function that the trimmed line `line` opens.
pub open spec fn function_name(line: Seq<char>, lang: Language) -> Seq<char> {
    match lang {
        Language::Python => {
            let rest = match strip_prefix(line, "def "@) {
                Some(r) => r,
                None => match strip_prefix(line, "async def "@) {
                    Some(r) => r,
                    None => Seq::empty(),
                },
            };
            trim(before_char(rest, '('))
        },
        Language::Go => {
            let rest = match strip_prefix(line, "func "@) {
                Some(r) => r,
                None => Seq::empty(),
            };
            trim(before_char(rest, '('))
        },
        Language::Rust => {
            let bare = remove_all(
                remove_all(remove_all(line, "pub fn "@), "pub(crate) fn "@),
                "fn "@,
            );
            trim(before_char(bare, '('))
        },
        _ => {
            let word = last_word(before_char(line, '('));
            if word.len() == 0 {
                "unknown"@
            } else {
                word
            }
        },
    }
}

/// 1 where `line` holds `keyword`, else 0.
pub open spec fn hit(line: Seq<char>, keyword: Seq<char>) -> nat {
    if contains(line, keyword) {
        1
    } else {
        0
    }
}

/// The number of branching keywords of `lang` that the trimmed line `line`
/// holds, each counted once.
pub open spec fn branch_count(line: Seq<char>, lang: Language) -> nat {
    match lang {
        Language::Python => hit(line, "if "@) + hit(line, "elif "@) + hit(line, "for "@) + hit(
            line,
            "while "@,
        ) + hit(line, "except "@) + hit(line, "and "@) + hit(line, "or "@),
        Language::Go | Language::Rust => hit(line, "if "@) + hit(line, "else if "@) + hit(
            line,
            "for "@,
        ) + hit(line, "while "@) + hit(line, "match "@) + hit(line, "case "@) + hit(line, "|| "@)
            + hit(line, "&& "@),
        _ => hit(line, "if "@) + hit(line, "else if "@) + hit(line, "for "@) + hit(
            line,
            "while "@,
        ) + hit(line, "switch "@) + hit(line, "case "@) + hit(line, "catch "@) + hit(line, "|| "@)
            + hit(line, "&& "@) + hit(line, "? "@),
    }
}

/// What the trimmed line `line` adds to the complexity of the function it
/// belongs to: its branching keywords, and one more for a ternary expression.
pub open spec fn line_complexity(line: Seq<char>, lang: Language) -> nat {
    branch_count(line, lang) + if contains(line, " ? "@) && contains(line, " : "@) {
        1nat
    } else {
        0nat
    }
}

/// Where the scan for functions stands after some lines.
pub struct ComplexityScan {
    /// Whether a function is open.
    pub in_function: bool,
    /// Opening braces minus closing braces so far.
    pub depth: int,
    /// The depth at which the open function began.
    pub start_depth: int,
    /// The name of the function that was opened last.
    pub name: Seq<char>,
    /// The complexity of that function so far.
    pub complexity: nat,
    /// The functions that have ended, in order.
    pub done: Seq<FunctionModel>,
}

/// The scan after one more line. In Python no line ends a function.
pub open spec fn complexity_step(st: ComplexityScan, line: Seq<char>, lang: Language)
    -> ComplexityScan {
    let t = trim(line);
    let closes = count_char(line, '}');
    let depth = st.depth + count_char(line, '{') - closes;
    let begins = is_function_declaration(t, lang) && !st.in_function;
    let name = if begins {
        function_name(t, lang)
    } else {
        st.name
    };
    let start_depth = if begins {
        st.depth
    } else {
        st.start_depth
    };
    let before = if begins {
        1
    } else {
        st.complexity
    };
    if st.in_function || begins {
        let complexity = before + line_complexity(t, lang);
        if lang != Language::Python && depth <= start_depth && closes > 0 {
            ComplexityScan {
                in_function: false,
                depth,
                start_depth,
                name,
                complexity,
                done: st.done.push(FunctionModel { name, complexity }),
            }
        } else {
            ComplexityScan { in_function: true, depth, start_depth, name, complexity, done: st.done }
        }
    } else {
        ComplexityScan {
            in_function: false,
            depth,
            start_depth,
            name,
            complexity: before,
            done: st.done,
        }
    }
}

/// The scan after the first `k` of `lines`.
pub open spec fn complexity_scan(lines: Seq<Seq<char>>, lang: Language, k: nat) -> ComplexityScan
    decreases k,
{
    if k == 0 {
        ComplexityScan {
            in_function: false,
            depth: 0,
            start_depth: 0,
            name: Seq::empty(),
            complexity: 1,
            done: Seq::empty(),
        }
    } else {
        complexity_step(complexity_scan(lines, lang, (k - 1) as nat), lines[k - 1], lang)
    }
}

/// The functions of a file with the lines `lines`: those that ended, and the
/// one still open at the end if it has a name.
pub open spec fn function_models(lines: Seq<Seq<char>>, lang: Language) -> Seq<FunctionModel> {
    let st = complexity_scan(lines, lang, lines.len());
    if st.in_function && st.name.len() > 0 {
        st.done.push(FunctionModel { name: st.name, complexity: st.complexity })
    } else {
        st.done
    }
}

/// Whether the functions `fs` are what the models `ms` say, a complexity
/// beyond the largest `usize` standing as that.
pub open spec fn functions_match(fs: Seq<FunctionComplexity>, ms: Seq<FunctionModel>) -> bool {
    &&& fs.len() == ms.len()
    &&& forall|i: int|
        0 <= i < fs.len() ==> (#[trigger] fs[i]).name@ == ms[i].name && fs[i].complexity
            == saturated(ms[i].complexity)
}

/// The sum of the complexities of `fs`.
pub open spec fn total_complexity(fs: Seq<FunctionComplexity>) -> nat
    decreases fs.len(),
{
    if fs.len() == 0 {
        0
    } else {
        total_complexity(fs.drop_last()) + fs.last().complexity as nat
    }
}

/// The units of the mean complexity of `fs`: 0 where `fs` is empty.
pub open spec fn average_units(fs: Seq<FunctionComplexity>) -> nat {
    capped_ratio(total_complexity(fs), fs.len(), SCALE as nat, u64::MAX as nat)
}

/// The sum of the complexities of `ms`, each at most the largest `usize`.
pub open spec fn total_of_models(ms: Seq<FunctionModel>) -> nat
    decreases ms.len(),
{
    if ms.len() == 0 {
        0
    } else {
        total_of_models(ms.drop_last()) + saturated(ms.last().complexity) as nat
    }
}

/// The units of the mean complexity of the functions `ms`.
pub open spec fn mean_complexity_units(ms: Seq<FunctionModel>) -> nat {
    capped_ratio(total_of_models(ms), ms.len(), SCALE as nat, u64::MAX as nat)
}

/// Functions that are what their models say add up to what the models add
/// up to.
pub proof fn lemma_totals_match(fs: Seq<FunctionComplexity>, ms: Seq<FunctionModel>)
    requires
        functions_match(fs, ms),
    ensures
        total_complexity(fs) == total_of_models(ms),
    decreases fs.len(),
{
    if fs.len() > 0 {
        assert(fs.drop_last().len() == ms.drop_last().len());
        assert forall|i: int| 0 <= i < fs.drop_last().len() implies (#[trigger] fs.drop_last()[i]).name@
            == ms.drop_last()[i].name && fs.drop_last()[i].complexity == saturated(
            ms.drop_last()[i].complexity,
        ) by {
            assert(fs.drop_last()[i] == fs[i]);
            assert(ms.drop_last()[i] == ms[i]);
        }
        lemma_totals_match(fs.drop_last(), ms.drop_last());
        assert(fs.last() == fs[fs.len() - 1]);
    }
}

/// Whether the trimmed line `line` opens a function.
pub fn line_declares_function(line: &[char], lang: Language) -> (r: bool)
    ensures
        r == is_function_declaration(line@, lang),
{
    match lang {
        Language::TypeScript | Language::JavaScript => {
            has_text(line, "function ") || (has_char(line, '(') && has_char(line, ')') && has_char(
                line,
                '{',
            ) && !starts_with(line, "if") && !starts_with(line, "for") && !starts_with(
                line,
                "while",
            ))
        },
        Language::Python => starts_with(line, "def ") || starts_with(line, "async def "),
        Language::Go => starts_with(line, "func "),
        Language::Rust => starts_with(line, "fn ") || starts_with(line, "pub fn ") || starts_with(
            line,
            "pub(crate) fn ",
        ),
        Language::Java => (has_text(line, "public ") || has_text(line, "private ") || has_text(
            line,
            "protected ",
        )) && has_char(line, '(') && has_char(line, '{'),
        Language::Unknown => false,
    }
}

/// The name of the function that the trimmed line `line` opens.
pub fn extract_function_name(line: &[char], lang: Language) -> (name: String)
    ensures
        name@ == function_name(line@, lang),
{
    match lang {
        Language::Python => {
            let empty: Vec<char> = Vec::new();
            let rest = match stripped_prefix(line, "def ") {
                Some(r) => r,
                None => match stripped_prefix(line, "async def ") {
                    Some(r) => r,
                    None => {
                        assert(empty@ =~= Seq::<char>::empty());
                        empty.as_slice()
                    },
                },
            };
            to_string(trimmed(up_to_char(rest, '(')))
        },
        Language::Go => {
            let empty: Vec<char> = Vec::new();
            let rest = match stripped_prefix(line, "func ") {
                Some(r) => r,
                None => {
                    assert(empty@ =~= Seq::<char>::empty());
                    empty.as_slice()
                },
            };
            to_string(trimmed(up_to_char(rest, '(')))
        },
        Language::Rust => {
            let a = without(line, "pub fn ");
            let b = without(a.as_slice(), "pub(crate) fn ");
            let c = without(b.as_slice(), "fn ");
            to_string(trimmed(up_to_char(c.as_slice(), '(')))
        },
        _ => {
            let word = final_word(up_to_char(line, '('));
            if word.len() == 0 {
                let unknown = to_chars("unknown");
                to_string(unknown.as_slice())
            } else {
                to_string(word)
            }
        },
    }
}

/// 1 where `line` holds `keyword`, else 0.
fn hit_of(line: &[char], keyword: &str) -> (n: usize)
    ensures
        n == hit(line@, keyword@),
{
    if has_text(line, keyword) {
        1
    } else {
        0
    }
}

/// What the trimmed line `line` adds to the complexity of its function.
fn complexity_of(line: &[char], lang: Language) -> (n: usize)
    ensures
        n == line_complexity(line@, lang),
        n <= 11,
{
    let branches = match lang {
        Language::Python => hit_of(line, "if ") + hit_of(line, "elif ") + hit_of(line, "for ")
            + hit_of(line, "while ") + hit_of(line, "except ") + hit_of(line, "and ") + hit_of(
            line,
            "or ",
        ),
        Language::Go | Language::Rust => hit_of(line, "if ") + hit_of(line, "else if ") + hit_of(
            line,
            "for ",
        ) + hit_of(line, "while ") + hit_of(line, "match ") + hit_of(line, "case ") + hit_of(
            line,
            "|| ",
        ) + hit_of(line, "&& "),
        _ => hit_of(line, "if ") + hit_of(line, "else if ") + hit_of(line, "for ") + hit_of(
            line,
            "while ",
        ) + hit_of(line, "switch ") + hit_of(line, "case ") + hit_of(line, "catch ") + hit_of(
            line,
            "|| ",
        ) + hit_of(line, "&& ") + hit_of(line, "? "),
    };
    if has_text(line, " ? ") && has_text(line, " : ") {
        branches + 1
    } else {
        branches
    }
}

/// One more function adds its complexity to the sum.
proof fn lemma_total_complexity_push(fs: Seq<FunctionComplexity>, f: FunctionComplexity)
    ensures
        total_complexity(fs.push(f)) == total_complexity(fs) + f.complexity,
{
    assert(fs.push(f).drop_last() =~= fs);
}

/// The sum of two numbers, or the largest `usize` where it is beyond that.
fn saturating_sum(a: usize, b: usize) -> (r: usize)
    ensures
        r == saturated((a + b) as nat),
{
    if a > usize::MAX - b {
        usize::MAX
    } else {
        a + b
    }
}

/// Finds the functions in `lines` and their complexities.
pub(crate) fn scan_complexity(lines: &Vec<Vec<char>>, lang: Language) -> (r: FileComplexity)
    requires
        total_len(views(lines@)) <= usize::MAX,
    ensures
        functions_match(r.functions@, function_models(views(lines@), lang)),
        r.average.units == average_units(r.functions@),
        r.average.units == mean_complexity_units(function_models(views(lines@), lang)),
{
    let ghost ls = views(lines@);
    let n = lines.len();
    let mut functions: Vec<FunctionComplexity> = Vec::new();
    let mut name = String::new();
    let mut complexity: usize = 1;
    let mut in_function = false;
    let mut depth: i128 = 0;
    let mut start_depth: i128 = 0;
    let mut i: usize = 0;
    assert(ls.take(0) =~= Seq::empty());
    while i < n
        invariant
            i <= n,
            n == lines@.len(),
            ls == views(lines@),
            total_len(ls) <= usize::MAX,
            in_function == complexity_scan(ls, lang, i as nat).in_function,
            depth == complexity_scan(ls, lang, i as nat).depth,
            start_depth == complexity_scan(ls, lang, i as nat).start_depth,
            name@ == complexity_scan(ls, lang, i as nat).name,
            complexity == saturated(complexity_scan(ls, lang, i as nat).complexity),
            functions_match(functions@, complexity_scan(ls, lang, i as nat).done),
            -total_len(ls.take(i as int)) <= depth <= total_len(ls.take(i as int)),
            -total_len(ls.take(i as int)) <= start_depth <= total_len(ls.take(i as int)),
            total_complexity(functions@) + (if in_function {
                complexity as int
            } else {
                0
            }) <= 12 * i,
            functions@.len() <= i,
        decreases n - i,
    {
        let line = lines[i].as_slice();
        let t = trimmed(line);
        proof {
            assert(ls[i as int] == line@);
            lemma_total_len_step(ls, i as int);
            lemma_total_len_take(ls, i + 1);
            lemma_count_char_bound(line@, '{');
            lemma_count_char_bound(line@, '}');
        }
        if line_declares_function(t, lang) && !in_function {
            name = extract_function_name(t, lang);
            complexity = 1;
            in_function = true;
            start_depth = depth;
        }
        let opens = count_of(line, '{');
        let closes = count_of(line, '}');
        depth = depth + opens as i128 - closes as i128;
        if in_function {
            complexity = saturating_sum(complexity, complexity_of(t, lang));
            let ends = match lang {
                Language::Python => false,
                _ => depth <= start_depth && closes > 0,
            };
            if ends {
                let f = FunctionComplexity { name: name.clone(), complexity };
                proof {
                    lemma_total_complexity_push(functions@, f);
                }
                functions.push(f);
                in_function = false;
            }
        }
        i += 1;
    }
    if in_function && name.as_str().unicode_len() > 0 {
        let f = FunctionComplexity { name, complexity };
        proof {
            lemma_total_complexity_push(functions@, f);
        }
        functions.push(f);
    }
    let sum = sum_of(&functions);
    proof {
        lemma_totals_match(functions@, function_models(ls, lang));
    }
    let average = Fixed::from_units(ratio_units(sum, functions.len() as u128, SCALE, u64::MAX));
    FileComplexity { functions, average }
}

/// The sum of the complexities of `fs`.
fn sum_of(fs: &Vec<FunctionComplexity>) -> (sum: u128)
    ensures
        sum == total_complexity(fs@),
{
    let mut sum: u128 = 0;
    let mut i: usize = 0;
    while i < fs.len()
        invariant
            i <= fs.len(),
            sum == total_complexity(fs@.take(i as int)),
            sum <= i * usize::MAX,
        decreases fs.len() - i,
    {
        proof {
            assert(fs@.take(i + 1).drop_last() =~= fs@.take(i as int));
            assert((i + 1) * usize::MAX == i * usize::MAX + usize::MAX) by (nonlinear_arith);
            assert(i * usize::MAX <= u64::MAX * u64::MAX) by (nonlinear_arith)
                requires
                    i <= u64::MAX,
                    usize::MAX <= u64::MAX,
            ;
        }
        sum += fs[i].complexity as u128;
        i += 1;
    }
    assert(fs@.take(fs.len() as int) =~= fs@);
    sum
}

/// Finds the functions in `source`, a file in the language that `language`
/// names, and estimates the complexity of each.
pub fn analyze_complexity(source: &str, language: &str) -> (r: FileComplexity)
    ensures
        functions_match(
            r.functions@,
            function_models(lines_of(source@), language_of(language@)),
        ),
        r.average.units == average_units(r.functions@),
        r.average.units == mean_complexity_units(
            function_models(lines_of(source@), language_of(language@)),
        ),
{
    let text = to_chars(source);
    let lines = split_lines(text.as_slice());
    assert(text@.len() == text.len());
    let lang = Language::parse(language);
    scan_complexity(&lines, lang)
}

} // verus!
