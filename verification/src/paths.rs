//! File-system paths, as far as the library looks into them. A path is carried as it
//! is; what is read from it or made from it is named, not computed.

use vstd::prelude::*;
use std::path::{Path, PathBuf};

verus! {

/// `std::path::Path`: a path, carried as it is.
#[verifier::external_type_specification]
#[verifier::external_body]
pub struct ExPath(Path);

/// `std::path::PathBuf`: an owned path, carried as it is.
#[verifier::external_type_specification]
#[verifier::external_body]
pub struct ExPathBuf(PathBuf);

/// The extension of a path as text: what `Path::extension` gives, where that is valid
/// Unicode.
pub uninterp spec fn extension_text(path: &Path) -> Option<Seq<char>>;

/// The file name of a path as text: what `Path::file_name` gives, read as
/// `OsStr::to_string_lossy` reads it; the empty text where the path has no file name.
pub uninterp spec fn file_name_text(path: &Path) -> Seq<char>;

/// The path that `Path::with_file_name` makes of a path and a file name.
pub uninterp spec fn sibling(path: &Path, name: Seq<char>) -> PathBuf;

/// The rest of a path below a base, as `Path::strip_prefix` gives it; `None` where
/// the path does not begin with the base.
pub uninterp spec fn below(path: &Path, base: &Path) -> Option<PathBuf>;

/// The path that `Path::join` makes of a base and a path.
pub uninterp spec fn joined(base: &Path, path: PathBuf) -> PathBuf;

/// The path buffer that `Path::to_path_buf` makes of a path.
pub uninterp spec fn owned_path(path: &Path) -> PathBuf;

/// `Path::to_path_buf` of std: an owned copy of the path.
#[verifier::external_body]
pub(crate) fn to_path_buf(path: &Path) -> (r: PathBuf)
    ensures
        r == owned_path(path),
{
    path.to_path_buf()
}

/// `Path::extension` of std, followed by `OsStr::to_str`: the part of the file name
/// after its last dot, where the name has such a part and it is valid Unicode. The
/// contract only names the result.
#[verifier::external_body]
pub(crate) fn extension_of<'a>(path: &'a Path) -> (r: Option<&'a str>)
    ensures
        match r {
            Some(text) => extension_text(path) == Some(text@),
            None => extension_text(path) is None,
        },
{
    path.extension()?.to_str()
}

/// `Path::file_name` of std, read by `OsStr::to_string_lossy`: the last component of
/// the path as text, empty where there is none. The contract only names the result.
#[verifier::external_body]
pub(crate) fn file_name_of(path: &Path) -> (r: String)
    ensures
        r@ == file_name_text(path),
{
    path.file_name().unwrap_or_default().to_string_lossy().into_owned()
}

/// `Path::with_file_name` of std: the path with its last component replaced by
/// `name`. The contract only names the result.
#[verifier::external_body]
pub(crate) fn with_file_name(path: &Path, name: &str) -> (r: PathBuf)
    ensures
        r == sibling(path, name@),
{
    path.with_file_name(name)
}

/// `Path::strip_prefix` of std: the path without the leading `base`, or `None` where
/// the path does not begin with `base`. The contract only names the result.
#[verifier::external_body]
pub(crate) fn strip_prefix(path: &Path, base: &Path) -> (r: Option<PathBuf>)
    ensures
        r == below(path, base),
{
    path.strip_prefix(base).ok().map(Path::to_path_buf)
}

/// `Path::join` of std: `path` appended to `base`. The contract only names the
/// result.
#[verifier::external_body]
pub(crate) fn join(base: &Path, path: &PathBuf) -> (r: PathBuf)
    ensures
        r == joined(base, *path),
{
    base.join(path)
}

} // verus!
