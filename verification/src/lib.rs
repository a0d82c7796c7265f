//! A mutation-testing engine: discovery of small syntactic edits in Python, Rust and
//! JavaScript-family sources, and the decisions of the executor that runs a test suite
//! against each of them.

use vstd::prelude::*;

pub mod copy_tree;
pub mod discover;
pub mod executor;
pub mod grammar;
pub mod laws;
pub mod mutants;
pub mod numeric;
pub mod operators;
pub mod parser;
pub mod parser_js;
pub mod parser_rust;
pub mod paths;
pub mod runner;
pub mod safety;
pub mod state;
pub mod text;
pub mod tree;

verus! {

/// A language whose sources can be mutated.
#[derive(Debug, Clone, Copy, PartialEq, Eq, Structural)]
pub enum Language {
    Python,
    Rust,
    JavaScript,
    TypeScript,
    Tsx,
}

/// The language that files with the given extension are written in.
pub open spec fn language_of_extension(extension: Seq<char>) -> Option<Language> {
    if extension == "py"@ {
        Some(Language::Python)
    } else if extension == "rs"@ {
        Some(Language::Rust)
    } else if extension == "js"@ || extension == "mjs"@ || extension == "cjs"@ {
        Some(Language::JavaScript)
    } else if extension == "ts"@ || extension == "mts"@ || extension == "cts"@ {
        Some(Language::TypeScript)
    } else if extension == "tsx"@ || extension == "jsx"@ {
        Some(Language::Tsx)
    } else {
        None
    }
}

/// The language that files with the given extension are written in.
pub fn detect_extension(extension: &str) -> (r: Option<Language>)
    ensures
        r == language_of_extension(extension@),
{
    if text::str_eq(extension, "py") {
        Some(Language::Python)
    } else if text::str_eq(extension, "rs") {
        Some(Language::Rust)
    } else if text::str_eq(extension, "js") || text::str_eq(extension, "mjs") || text::str_eq(
        extension,
        "cjs",
    ) {
        Some(Language::JavaScript)
    } else if text::str_eq(extension, "ts") || text::str_eq(extension, "mts") || text::str_eq(
        extension,
        "cts",
    ) {
        Some(Language::TypeScript)
    } else if text::str_eq(extension, "tsx") || text::str_eq(extension, "jsx") {
        Some(Language::Tsx)
    } else {
        None
    }
}

/// The language of a source file, told by the extension of its path; `None` where the
/// path has no extension or one that belongs to no supported language.
pub fn detect_language(path: &std::path::Path) -> (r: Option<Language>)
    ensures
        r == match paths::extension_text(path) {
            Some(extension) => language_of_extension(extension),
            None => None,
        },
{
    match paths::extension_of(path) {
        Some(extension) => detect_extension(extension),
        None => None,
    }
}

} // verus!
