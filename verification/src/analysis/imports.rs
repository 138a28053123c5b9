//! The imports that a source file names.

use vstd::prelude::*;
use crate::language::{language_of, Language};
use crate::text::{
    after_first_word, before_char, before_text, contains, find_last, first_word, has_text,
    leading_word, lines_of, past_first_word, rfind_char, split_lines, starts_with,
    starts_with_char, strip_prefix, strip_prefixes, strip_trailing, stripped_prefix, texts,
    to_chars, to_string, trim, trimmed, up_to_char, up_to_text, views, without_prefixes,
    without_trailing,
};

verus! {

/// The imports of one file, and the files that import it.
#[derive(Debug)]
pub struct FileImports {
    pub imports: Vec<String>,
    pub imported_by: Vec<String>,
}

/// What stands between the last two `quote` characters of `line`.
pub open spec fn quoted(line: Seq<char>, quote: char) -> Option<Seq<char>> {
    match rfind_char(line, quote) {
        Some(close) => match rfind_char(line.take(close), quote) {
            Some(open) => Some(line.subrange(open + 1, close)),
            None => None,
        },
        None => None,
    }
}

/// The path that `line` imports: what its last pair of single quotes holds,
/// or else its last pair of double quotes.
pub open spec fn import_path(line: Seq<char>) -> Option<Seq<char>> {
    match quoted(line, '\'') {
        Some(p) => Some(p),
        None => quoted(line, '"'),
    }
}

/// The module that the Python line `line` imports: the word after `from`, or
/// the first module after `import`.
pub open spec fn python_import(line: Seq<char>) -> Option<Seq<char>> {
    if "from "@.is_prefix_of(line) && first_word(after_first_word(line)).len() > 0 {
        Some(first_word(after_first_word(line)))
    } else {
        match strip_prefix(line, "import "@) {
            Some(rest) => Some(trim(before_char(rest, ','))),
            None => None,
        }
    }
}

/// The path that the Rust line `line` brings into scope: what follows `use`,
/// without the closing semicolons and without a braced list.
pub open spec fn rust_import(line: Seq<char>) -> Option<Seq<char>> {
    if "use "@.is_prefix_of(line) || "pub use "@.is_prefix_of(line) {
        let bare = strip_trailing(strip_prefixes(strip_prefixes(line, "pub "@), "use "@), ';');
        let path = trim(before_text(bare, "::{"@));
        if path.len() > 0 {
            Some(path)
        } else {
            None
        }
    } else {
        None
    }
}

/// What the trimmed line `line` imports, if it is an import.
pub open spec fn import_of(line: Seq<char>, lang: Language) -> Option<Seq<char>> {
    match lang {
        Language::Python => python_import(line),
        Language::Rust => rust_import(line),
        Language::Go => if "import "@.is_prefix_of(line) || (line.len() > 0 && line[0] == '"') {
            import_path(line)
        } else {
            None
        },
        _ => if "import "@.is_prefix_of(line) || contains(line, "require("@) {
            import_path(line)
        } else {
            None
        },
    }
}

/// The imports of the first `k` of `lines`, in order.
pub open spec fn imports_upto(lines: Seq<Seq<char>>, lang: Language, k: nat) -> Seq<Seq<char>>
    decreases k,
{
    if k == 0 {
        Seq::empty()
    } else {
        let before = imports_upto(lines, lang, (k - 1) as nat);
        match import_of(trim(lines[k - 1]), lang) {
            Some(p) => before.push(p),
            None => before,
        }
    }
}

/// The imports of a file with the lines `lines`.
pub open spec fn imports_of(lines: Seq<Seq<char>>, lang: Language) -> Seq<Seq<char>> {
    imports_upto(lines, lang, lines.len())
}

/// What stands between the last two `quote` characters of `line`.
fn quoted_part(line: &[char], quote: char) -> (r: Option<&[char]>)
    ensures
        r.is_some() == quoted(line@, quote).is_some(),
        r matches Some(p) ==> quoted(line@, quote) == Some(p@),
{
    match find_last(line, quote) {
        Some(close) => {
            let head = vstd::slice::slice_subrange(line, 0, close);
            assert(head@ =~= line@.take(close as int));
            match find_last(head, quote) {
                Some(open) => Some(vstd::slice::slice_subrange(line, open + 1, close)),
                None => None,
            }
        },
        None => None,
    }
}

/// The path that `line` imports.
pub fn extract_import_path(line: &[char]) -> (r: Option<String>)
    ensures
        r.is_some() == import_path(line@).is_some(),
        r matches Some(p) ==> import_path(line@) == Some(p@),
{
    match quoted_part(line, '\'') {
        Some(p) => Some(to_string(p)),
        None => match quoted_part(line, '"') {
            Some(p) => Some(to_string(p)),
            None => None,
        },
    }
}

/// The module that the Python line `line` imports.
pub fn extract_python_import(line: &[char]) -> (r: Option<String>)
    ensures
        r.is_some() == python_import(line@).is_some(),
        r matches Some(p) ==> python_import(line@) == Some(p@),
{
    if starts_with(line, "from ") {
        let second = leading_word(past_first_word(line));
        if second.len() > 0 {
            return Some(to_string(second));
        }
    }
    match stripped_prefix(line, "import ") {
        Some(rest) => Some(to_string(trimmed(up_to_char(rest, ',')))),
        None => None,
    }
}

/// The path that the Rust line `line` brings into scope.
fn extract_rust_import(line: &[char]) -> (r: Option<String>)
    ensures
        r.is_some() == rust_import(line@).is_some(),
        r matches Some(p) ==> rust_import(line@) == Some(p@),
{
    if starts_with(line, "use ") || starts_with(line, "pub use ") {
        let bare = without_trailing(without_prefixes(without_prefixes(line, "pub "), "use "), ';');
        let path = trimmed(up_to_text(bare, "::{"));
        if path.len() > 0 {
            Some(to_string(path))
        } else {
            None
        }
    } else {
        None
    }
}

/// What the trimmed line `line` imports.
fn extract_import(line: &[char], lang: Language) -> (r: Option<String>)
    ensures
        r.is_some() == import_of(line@, lang).is_some(),
        r matches Some(p) ==> import_of(line@, lang) == Some(p@),
{
    match lang {
        Language::Python => extract_python_import(line),
        Language::Rust => extract_rust_import(line),
        Language::Go => {
            if starts_with(line, "import ") || starts_with_char(line, '"') {
                extract_import_path(line)
            } else {
                None
            }
        },
        _ => {
            if starts_with(line, "import ") || has_text(line, "require(") {
                extract_import_path(line)
            } else {
                None
            }
        },
    }
}

/// The imports of a file with the lines `lines`.
pub fn imports_in(lines: &Vec<Vec<char>>, lang: Language) -> (imports: Vec<String>)
    ensures
        texts(imports@) == imports_of(views(lines@), lang),
{
    let ghost ls = views(lines@);
    let mut imports: Vec<String> = Vec::new();
    let mut i: usize = 0;
    assert(texts(imports@) =~= Seq::empty());
    while i < lines.len()
        invariant
            i <= lines@.len(),
            ls == views(lines@),
            texts(imports@) == imports_upto(ls, lang, i as nat),
        decreases lines@.len() - i,
    {
        assert(ls[i as int] == lines@[i as int]@);
        match extract_import(trimmed(lines[i].as_slice()), lang) {
            Some(p) => {
                assert(texts(imports@.push(p)) =~= texts(imports@).push(p@));
                imports.push(p);
            },
            None => {},
        }
        i += 1;
    }
    imports
}

/// The modules and paths that `source` imports, a file in the language that
/// `language` names, in the order of its lines.
pub fn extract_imports(source: &str, language: &str) -> (imports: Vec<String>)
    ensures
        texts(imports@) == imports_of(lines_of(source@), language_of(language@)),
{
    let text = to_chars(source);
    let lines = split_lines(text.as_slice());
    imports_in(&lines, Language::parse(language))
}

} // verus!
