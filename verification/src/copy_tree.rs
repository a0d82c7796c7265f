//! The isolated copy of a project: which entries it leaves out.

use vstd::prelude::*;
use std::path::{Path, PathBuf};
use crate::paths::{below, join, joined, owned_path, strip_prefix, to_path_buf};
use crate::text::{bytes_of, ends_with, has_suffix, str_eq};

verus! {

/// A name that is never copied: version control, dependency and build caches, and the
/// state file of this tool.
pub open spec fn is_skipped_name(name: Seq<char>) -> bool {
    ||| name == ".git"@
    ||| name == ".hg"@
    ||| name == ".svn"@
    ||| name == "node_modules"@
    ||| name == ".venv"@
    ||| name == "venv"@
    ||| name == "__pycache__"@
    ||| name == ".tox"@
    ||| name == ".mypy_cache"@
    ||| name == ".pytest_cache"@
    ||| name == ".ruff_cache"@
    ||| name == "target"@
    ||| name == "dist"@
    ||| name == "build"@
    ||| name == ".next"@
    ||| name == ".nuxt"@
    ||| name == ".mutator-state.json"@
}

/// A name with an ending that is never copied: backups and compiled bytecode.
pub open spec fn has_skipped_suffix(name: Seq<char>) -> bool {
    ||| has_suffix(bytes_of(name), bytes_of(".mutator.bak"@))
    ||| has_suffix(bytes_of(name), bytes_of(".pyc"@))
    ||| has_suffix(bytes_of(name), bytes_of(".pyo"@))
}

/// Whether the directory entry called `name` is left out of the copy.
pub fn should_skip(name: &str) -> (r: bool)
    ensures
        r == (is_skipped_name(name@) || has_skipped_suffix(name@)),
{
    str_eq(name, ".git") || str_eq(name, ".hg") || str_eq(name, ".svn") || str_eq(
        name,
        "node_modules",
    ) || str_eq(name, ".venv") || str_eq(name, "venv") || str_eq(name, "__pycache__") || str_eq(
        name,
        ".tox",
    ) || str_eq(name, ".mypy_cache") || str_eq(name, ".pytest_cache") || str_eq(
        name,
        ".ruff_cache",
    ) || str_eq(name, "target") || str_eq(name, "dist") || str_eq(name, "build") || str_eq(
        name,
        ".next",
    ) || str_eq(name, ".nuxt") || str_eq(name, ".mutator-state.json") || ends_with(
        name,
        ".mutator.bak",
    ) || ends_with(name, ".pyc") || ends_with(name, ".pyo")
}

/// The name of a file or directory that marks the root of a project.
pub open spec fn is_marker(name: Seq<char>) -> bool {
    ||| name == "pyproject.toml"@
    ||| name == "setup.py"@
    ||| name == "setup.cfg"@
    ||| name == "package.json"@
    ||| name == "Cargo.toml"@
    ||| name == "go.mod"@
    ||| name == ".git"@
}

/// Whether a file or directory called `name` marks the root of a project.
pub fn is_project_marker(name: &str) -> (r: bool)
    ensures
        r == is_marker(name@),
{
    str_eq(name, "pyproject.toml") || str_eq(name, "setup.py") || str_eq(name, "setup.cfg")
        || str_eq(name, "package.json") || str_eq(name, "Cargo.toml") || str_eq(name, "go.mod")
        || str_eq(name, ".git")
}

/// The names that mark the root of a project, in the order in which they are looked
/// for.
pub fn project_markers() -> (r: Vec<&'static str>)
    ensures
        r.deep_view() == seq![
            "pyproject.toml"@,
            "setup.py"@,
            "setup.cfg"@,
            "package.json"@,
            "Cargo.toml"@,
            "go.mod"@,
            ".git"@,
        ],
        forall|k: int| 0 <= k < r.len() ==> is_marker(#[trigger] r[k]@),
{
    let r = vec![
        "pyproject.toml",
        "setup.py",
        "setup.cfg",
        "package.json",
        "Cargo.toml",
        "go.mod",
        ".git",
    ];
    assert(r.deep_view() =~= seq![
        "pyproject.toml"@,
        "setup.py"@,
        "setup.cfg"@,
        "package.json"@,
        "Cargo.toml"@,
        "go.mod"@,
        ".git"@,
    ]);
    r
}

/// The first index that holds `true`, from `from` on.
pub open spec fn first_marked(marked: Seq<bool>, from: int) -> Option<int>
    decreases marked.len() - from,
{
    if 0 <= from < marked.len() {
        if marked[from] {
            Some(from)
        } else {
            first_marked(marked, from + 1)
        }
    } else {
        None
    }
}

/// The root of the project of a file. `marked` says of each directory above the file,
/// from the directory of the file upwards, whether it holds a marker. The root is the
/// nearest directory that holds one, given by its index; where none holds one, it is
/// the directory of the file, index 0.
pub fn find_project_root(marked: &Vec<bool>) -> (r: usize)
    ensures
        r == match first_marked(marked@, 0) {
            Some(k) => k,
            None => 0,
        },
        marked.len() > 0 ==> r < marked.len(),
{
    let mut k: usize = 0;
    while k < marked.len()
        invariant
            0 <= k <= marked.len(),
            first_marked(marked@, 0) == first_marked(marked@, k as int),
        decreases marked.len() - k,
    {
        if marked[k] {
            return k;
        }
        k = k + 1;
    }
    0
}

/// What becomes of a directory entry when a project is copied.
#[derive(Debug, Clone, Copy, PartialEq, Eq, Structural)]
pub enum EntryAction {
    /// The entry is left out.
    Skip,
    /// The entry is a directory: it is copied with what it holds.
    Descend,
    /// The entry is a file: it is copied.
    Copy,
}

/// What becomes of a directory entry: an entry with a skipped name is left out, a
/// directory is copied with what it holds, a regular file is copied, and anything
/// else, a symbolic link or a special file, is left out.
pub fn entry_action(name: &str, is_dir: bool, is_file: bool) -> (r: EntryAction)
    ensures
        r == if is_skipped_name(name@) || has_skipped_suffix(name@) {
            EntryAction::Skip
        } else if is_dir {
            EntryAction::Descend
        } else if is_file {
            EntryAction::Copy
        } else {
            EntryAction::Skip
        },
{
    if should_skip(name) {
        EntryAction::Skip
    } else if is_dir {
        EntryAction::Descend
    } else if is_file {
        EntryAction::Copy
    } else {
        EntryAction::Skip
    }
}

/// Where the files of a run lie in the copy of the project.
#[derive(Debug)]
pub struct CopyResult {
    /// The root of the copy.
    pub root: PathBuf,
    /// The source file in the copy.
    pub source_file: PathBuf,
    /// The test file in the copy.
    pub test_file: PathBuf,
}

/// The place of `file` in the copy: what lies below `project_root` is put below
/// `dest_root`; `None` where `file` does not lie below `project_root`.
pub fn remap(project_root: &Path, file: &Path, dest_root: &Path) -> (r: Option<PathBuf>)
    ensures
        r == match below(file, project_root) {
            Some(rest) => Some(joined(dest_root, rest)),
            None => None,
        },
{
    match strip_prefix(file, project_root) {
        Some(rest) => Some(join(dest_root, &rest)),
        None => None,
    }
}

/// The places of the source file and the test file in the copy of the project at
/// `dest_root`; `None` where one of them does not lie below `project_root`.
pub fn remap_files(project_root: &Path, source_file: &Path, test_file: &Path, dest_root: &Path)
    -> (r: Option<CopyResult>)
    ensures
        match (below(source_file, project_root), below(test_file, project_root)) {
            (Some(source), Some(test)) => r == Some(
                CopyResult {
                    root: owned_path(dest_root),
                    source_file: joined(dest_root, source),
                    test_file: joined(dest_root, test),
                },
            ),
            _ => r is None,
        },
{
    match (remap(project_root, source_file, dest_root), remap(project_root, test_file, dest_root)) {
        (Some(source_file), Some(test_file)) => Some(
            CopyResult { root: to_path_buf(dest_root), source_file, test_file },
        ),
        _ => None,
    }
}

} // verus!
