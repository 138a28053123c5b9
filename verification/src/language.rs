//! The languages whose sources the analyzers know.

use vstd::prelude::*;
use vstd::string::StringExecFns;
use crate::text::{is_text, to_chars};

verus! {

/// A source language. `Unknown` selects the most conservative behaviour of
/// every detector.
#[derive(Clone, Copy, Debug, PartialEq, Eq, Structural)]
pub enum Language {
    TypeScript,
    JavaScript,
    Python,
    Go,
    Rust,
    Java,
    Unknown,
}

/// The language that the tag `tag` names.
pub open spec fn language_of(tag: Seq<char>) -> Language {
    if tag == "typescript"@ {
        Language::TypeScript
    } else if tag == "javascript"@ {
        Language::JavaScript
    } else if tag == "python"@ {
        Language::Python
    } else if tag == "go"@ {
        Language::Go
    } else if tag == "rust"@ {
        Language::Rust
    } else if tag == "java"@ {
        Language::Java
    } else {
        Language::Unknown
    }
}

/// The tag of `lang`.
pub open spec fn tag_of(lang: Language) -> Seq<char> {
    match lang {
        Language::TypeScript => "typescript"@,
        Language::JavaScript => "javascript"@,
        Language::Python => "python"@,
        Language::Go => "go"@,
        Language::Rust => "rust"@,
        Language::Java => "java"@,
        Language::Unknown => "unknown"@,
    }
}

/// The language of a file with the extension `ext`.
pub open spec fn language_for_extension(ext: Option<Seq<char>>) -> Language {
    match ext {
        None => Language::Unknown,
        Some(e) => if e == "ts"@ || e == "tsx"@ {
            Language::TypeScript
        } else if e == "js"@ || e == "jsx"@ {
            Language::JavaScript
        } else if e == "py"@ {
            Language::Python
        } else if e == "go"@ {
            Language::Go
        } else if e == "rs"@ {
            Language::Rust
        } else if e == "java"@ {
            Language::Java
        } else {
            Language::Unknown
        },
    }
}

impl Language {
    /// The language that the tag names; `Unknown` for any other text.
    pub fn parse(tag: &str) -> (lang: Language)
        ensures
            lang == language_of(tag@),
    {
        let t = to_chars(tag);
        let t = t.as_slice();
        if is_text(t, "typescript") {
            Language::TypeScript
        } else if is_text(t, "javascript") {
            Language::JavaScript
        } else if is_text(t, "python") {
            Language::Python
        } else if is_text(t, "go") {
            Language::Go
        } else if is_text(t, "rust") {
            Language::Rust
        } else if is_text(t, "java") {
            Language::Java
        } else {
            Language::Unknown
        }
    }

    /// The language of a file with the extension `ext`.
    pub fn for_extension(ext: Option<&[char]>) -> (lang: Language)
        ensures
            lang == language_for_extension(
                match ext {
                    Some(e) => Some(e@),
                    None => None,
                },
            ),
    {
        match ext {
            None => Language::Unknown,
            Some(e) => {
                if is_text(e, "ts") || is_text(e, "tsx") {
                    Language::TypeScript
                } else if is_text(e, "js") || is_text(e, "jsx") {
                    Language::JavaScript
                } else if is_text(e, "py") {
                    Language::Python
                } else if is_text(e, "go") {
                    Language::Go
                } else if is_text(e, "rs") {
                    Language::Rust
                } else if is_text(e, "java") {
                    Language::Java
                } else {
                    Language::Unknown
                }
            },
        }
    }

    /// The tag of this language.
    pub fn tag(&self) -> (s: String)
        ensures
            s@ == tag_of(*self),
    {
        match self {
            Language::TypeScript => String::from_str("typescript"),
            Language::JavaScript => String::from_str("javascript"),
            Language::Python => String::from_str("python"),
            Language::Go => String::from_str("go"),
            Language::Rust => String::from_str("rust"),
            Language::Java => String::from_str("java"),
            Language::Unknown => String::from_str("unknown"),
        }
    }
}

} // verus!
