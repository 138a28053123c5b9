//! Paths as text: segments separated by `/`.

use vstd::prelude::*;
use crate::language::{language_for_extension, Language};
use crate::text::{
    copy_chars, find_last, first_where, is_char, is_text, last_where, lemma_first_where,
    lemma_last_where_props, matches_at, other_than, strip_prefix, to_chars, to_string,
};

verus! {

/// `s` without the characters `c` that it begins with.
pub open spec fn skip_leading(s: Seq<char>, c: char) -> Seq<char> {
    s.skip(first_where(s, other_than(c)))
}

/// The last segment of `p` that names something: segments that are empty or
/// `.` at the end are passed over. There is none where `p` ends in `..`, or
/// holds nothing but separators and a leading `.`.
pub open spec fn file_name(p: Seq<char>) -> Option<Seq<char>>
    decreases p.len(),
{
    let cut = last_where(p, is_char('/'));
    let last = p.skip(cut);
    if last.len() == 0 || last == "."@ {
        if 1 <= cut <= p.len() {
            file_name(p.take(cut - 1))
        } else {
            None
        }
    } else if last == ".."@ {
        None
    } else {
        Some(last)
    }
}

/// The file name `f` without its extension. A name without a point, or with
/// its only point in front, has no extension.
pub open spec fn stem_of(f: Seq<char>) -> Seq<char> {
    let d = last_where(f, is_char('.'));
    if d <= 1 {
        f
    } else {
        f.take(d - 1)
    }
}

/// The extension of the file name `f`: what follows its last point.
pub open spec fn extension_of(f: Seq<char>) -> Option<Seq<char>> {
    let d = last_where(f, is_char('.'));
    if d <= 1 {
        None
    } else {
        Some(f.skip(d))
    }
}

/// The file name of `p` without its extension.
pub open spec fn file_stem(p: Seq<char>) -> Option<Seq<char>> {
    match file_name(p) {
        Some(f) => Some(stem_of(f)),
        None => None,
    }
}

/// The extension of the file name of `p`.
pub open spec fn extension(p: Seq<char>) -> Option<Seq<char>> {
    match file_name(p) {
        Some(f) => extension_of(f),
        None => None,
    }
}

/// The index at which the file name of `p` begins.
pub open spec fn name_start(p: Seq<char>) -> Option<int>
    decreases p.len(),
{
    let cut = last_where(p, is_char('/'));
    let last = p.skip(cut);
    if last.len() == 0 || last == "."@ {
        if 1 <= cut <= p.len() {
            name_start(p.take(cut - 1))
        } else {
            None
        }
    } else if last == ".."@ {
        None
    } else {
        Some(cut)
    }
}

/// The directory text `q` without the separators and `.` segments that it
/// ends with. A lone separator, the root, stays.
pub open spec fn dir_part(q: Seq<char>) -> Seq<char>
    decreases q.len(),
{
    if q.len() == 0 {
        q
    } else if q.last() == '/' {
        if q.len() == 1 {
            q
        } else {
            dir_part(q.drop_last())
        }
    } else if q.last() == '.' && q.len() >= 2 && q[q.len() - 2] == '/' {
        dir_part(q.drop_last())
    } else {
        q
    }
}

/// The directory of the file that `p` names: what stands before the file
/// name, without the separators at its end. Empty where `p` names no file.
pub open spec fn parent_of(p: Seq<char>) -> Seq<char> {
    match name_start(p) {
        Some(start) => dir_part(p.take(start)),
        None => Seq::empty(),
    }
}

/// The path of `name` in the directory `dir`: `name` itself where it begins
/// at the root or `dir` is empty, else the two with one separator between
/// them.
pub open spec fn joined(dir: Seq<char>, name: Seq<char>) -> Seq<char> {
    if name.len() > 0 && name[0] == '/' {
        name
    } else if dir.len() > 0 && dir.last() != '/' {
        dir.push('/') + name
    } else {
        dir + name
    }
}

/// The file name of `p` without its extension, empty where `p` has no file
/// name.
pub open spec fn stem_or_empty(p: Seq<char>) -> Seq<char> {
    match file_stem(p) {
        Some(s) => s,
        None => Seq::empty(),
    }
}

/// The language of the file at `p`, by its extension.
pub open spec fn language_of_path(p: Seq<char>) -> Language {
    language_for_extension(extension(p))
}

/// Whether the file at `p` is a source file: one in a known language.
pub open spec fn is_source_path(p: Seq<char>) -> bool {
    language_of_path(p) != Language::Unknown
}

/// `file` as seen from `root`: without the prefix `root`, where it has that
/// prefix, and without the separators in front of the rest.
pub open spec fn below_root(root: Seq<char>, file: Seq<char>) -> Seq<char> {
    let rest = match strip_prefix(file, root) {
        Some(r) => r,
        None => file,
    };
    skip_leading(rest, '/')
}

/// The path of `file` relative to `root`: as `below_root`, and without
/// leading backslashes.
pub open spec fn relative_path(root: Seq<char>, file: Seq<char>) -> Seq<char> {
    skip_leading(below_root(root, file), '\\')
}

/// `s` without the characters `c` that it begins with.
pub fn without_leading(s: &[char], c: char) -> (r: &[char])
    ensures
        r@ == skip_leading(s@, c),
{
    let mut i: usize = 0;
    while i < s.len() && s[i] == c
        invariant
            i <= s.len(),
            forall|j: int| 0 <= j < i ==> !other_than(c)(#[trigger] s@[j]),
        decreases s.len() - i,
    {
        i += 1;
    }
    proof {
        lemma_first_where(s@, other_than(c), i as int);
    }
    vstd::slice::slice_subrange(s, i, s.len())
}

/// Where the file name of `p` begins and ends.
pub fn name_bounds(p: &[char]) -> (r: Option<(usize, usize)>)
    ensures
        match r {
            Some((start, end)) => start <= end <= p@.len() && name_start(p@) == Some(start as int)
                && file_name(p@) == Some(p@.subrange(start as int, end as int)),
            None => name_start(p@).is_none() && file_name(p@).is_none(),
        },
{
    let mut end: usize = p.len();
    assert(p@.take(end as int) =~= p@);
    loop
        invariant
            end <= p.len(),
            file_name(p@) == file_name(p@.take(end as int)),
            name_start(p@) == name_start(p@.take(end as int)),
        decreases end,
    {
        let head = vstd::slice::slice_subrange(p, 0, end);
        assert(head@ =~= p@.take(end as int));
        let cut = match find_last(head, '/') {
            Some(i) => i + 1,
            None => 0,
        };
        proof {
            lemma_last_where_props(head@, is_char('/'));
        }
        let last = vstd::slice::slice_subrange(p, cut, end);
        assert(last@ =~= head@.skip(cut as int));
        if last.len() == 0 || is_text(last, ".") {
            if cut >= 1 {
                assert(head@.take(cut - 1) =~= p@.take(cut - 1));
                end = cut - 1;
            } else {
                return None;
            }
        } else if is_text(last, "..") {
            return None;
        } else {
            return Some((cut, end));
        }
    }
}

/// The last segment of `p` that names something.
pub fn name_of(p: &[char]) -> (r: Option<&[char]>)
    ensures
        r.is_some() == file_name(p@).is_some(),
        r matches Some(f) ==> file_name(p@) == Some(f@),
{
    match name_bounds(p) {
        Some((start, end)) => Some(vstd::slice::slice_subrange(p, start, end)),
        None => None,
    }
}

/// The directory text `q` without the separators and `.` segments that it
/// ends with.
pub fn dir_of(q: &[char]) -> (r: &[char])
    ensures
        r@ == dir_part(q@),
{
    let mut end: usize = q.len();
    assert(q@.take(end as int) =~= q@);
    loop
        invariant
            end <= q.len(),
            dir_part(q@) == dir_part(q@.take(end as int)),
        ensures
            end <= q.len(),
            dir_part(q@) == q@.take(end as int),
        decreases end,
    {
        let ghost head = q@.take(end as int);
        if end == 0 {
            break ;
        }
        if q[end - 1] == '/' {
            if end == 1 {
                break ;
            }
            assert(head.drop_last() =~= q@.take(end - 1));
            end -= 1;
        } else if q[end - 1] == '.' && end >= 2 && q[end - 2] == '/' {
            assert(head.drop_last() =~= q@.take(end - 1));
            end -= 1;
        } else {
            break ;
        }
    }
    vstd::slice::slice_subrange(q, 0, end)
}

/// The directory of the file that `p` names.
pub fn parent_dir(p: &[char]) -> (r: Vec<char>)
    ensures
        r@ == parent_of(p@),
{
    match name_bounds(p) {
        Some((start, _)) => {
            let head = vstd::slice::slice_subrange(p, 0, start);
            assert(head@ =~= p@.take(start as int));
            copy_chars(dir_of(head))
        },
        None => Vec::new(),
    }
}

/// The path of `name` in the directory `dir`.
pub fn join(dir: &[char], name: &[char]) -> (r: Vec<char>)
    ensures
        r@ == joined(dir@, name@),
{
    if name.len() > 0 && name[0] == '/' {
        return copy_chars(name);
    }
    let mut out = copy_chars(dir);
    if dir.len() > 0 && dir[dir.len() - 1] != '/' {
        out.push('/');
    }
    let mut i: usize = 0;
    let ghost base = out@;
    while i < name.len()
        invariant
            i <= name@.len(),
            out@ == base + name@.take(i as int),
        decreases name@.len() - i,
    {
        out.push(name[i]);
        assert(name@.take(i + 1) =~= name@.take(i as int).push(name@[i as int]));
        i += 1;
    }
    assert(name@.take(name@.len() as int) =~= name@);
    out
}

/// The file name `f` without its extension.
pub fn stem_of_name(f: &[char]) -> (r: &[char])
    ensures
        r@ == stem_of(f@),
{
    match find_last(f, '.') {
        Some(i) => {
            if i == 0 {
                f
            } else {
                vstd::slice::slice_subrange(f, 0, i)
            }
        },
        None => f,
    }
}

/// The extension of the file name `f`.
pub fn extension_of_name(f: &[char]) -> (r: Option<&[char]>)
    ensures
        r.is_some() == extension_of(f@).is_some(),
        r matches Some(e) ==> extension_of(f@) == Some(e@),
{
    let len = f.len();
    match find_last(f, '.') {
        Some(i) => {
            if i == 0 {
                None
            } else {
                Some(vstd::slice::slice_subrange(f, i + 1, len))
            }
        },
        None => None,
    }
}

/// The file name of `p` without its extension, empty where `p` has no file
/// name.
pub fn stem_of_path(p: &[char]) -> (r: Vec<char>)
    ensures
        r@ == stem_or_empty(p@),
{
    match name_of(p) {
        Some(f) => crate::text::copy_chars(stem_of_name(f)),
        None => Vec::new(),
    }
}

/// The language of the file at `p`.
pub fn language_at(p: &[char]) -> (lang: Language)
    ensures
        lang == language_of_path(p@),
{
    match name_of(p) {
        Some(f) => Language::for_extension(extension_of_name(f)),
        None => Language::Unknown,
    }
}

/// The tag of the language of the file at `path`, by its extension.
pub fn detect_language(path: &str) -> (tag: String)
    ensures
        tag@ == crate::language::tag_of(language_of_path(path@)),
{
    let p = to_chars(path);
    language_at(p.as_slice()).tag()
}

/// Whether the file at `path` is a source file.
pub fn is_source_file(path: &str) -> (r: bool)
    ensures
        r == is_source_path(path@),
{
    let p = to_chars(path);
    match language_at(p.as_slice()) {
        Language::Unknown => false,
        _ => true,
    }
}

/// `file` as seen from `root`.
pub fn path_below<'a>(root: &[char], file: &'a [char]) -> (r: &'a [char])
    ensures
        r@ == below_root(root@, file@),
{
    let rest = if matches_at(file, root, 0) {
        vstd::slice::slice_subrange(file, root.len(), file.len())
    } else {
        file
    };
    without_leading(rest, '/')
}

/// The path of the file at `file_path` relative to `workspace_path`.
pub fn to_relative_path(workspace_path: &str, file_path: &str) -> (r: String)
    ensures
        r@ == relative_path(workspace_path@, file_path@),
{
    let root = to_chars(workspace_path);
    let file = to_chars(file_path);
    let below = path_below(root.as_slice(), file.as_slice());
    to_string(without_leading(below, '\\'))
}

/// Whether a walk of the workspace passes over the entry named `name`: a
/// hidden entry, or a directory that by convention holds dependencies or what
/// a build leaves.
pub open spec fn is_skipped(name: Seq<char>) -> bool {
    ||| (name.len() > 0 && name[0] == '.')
    ||| name == "node_modules"@
    ||| name == "target"@
    ||| name == "__pycache__"@
    ||| name == "vendor"@
    ||| name == "dist"@
    ||| name == "build"@
}

/// Whether a walk of the workspace passes over the entry named `name`.
pub fn is_skipped_entry(name: &str) -> (r: bool)
    ensures
        r == is_skipped(name@),
{
    let n = to_chars(name);
    let n = n.as_slice();
    (n.len() > 0 && n[0] == '.') || is_text(n, "node_modules") || is_text(n, "target") || is_text(
        n,
        "__pycache__",
    ) || is_text(n, "vendor") || is_text(n, "dist") || is_text(n, "build")
}

} // verus!
