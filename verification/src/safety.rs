//! The backup file of the in-place mode.

use vstd::prelude::*;
use vstd::string::*;
use std::path::{Path, PathBuf};
use crate::paths::{file_name_of, file_name_text, sibling, with_file_name};

verus! {

/// The name of the backup of a file called `file_name`.
pub open spec fn backup_name(file_name: Seq<char>) -> Seq<char> {
    "."@ + file_name + ".mutator.bak"@
}

/// The name of the backup of a file called `file_name`: the name between a dot and
/// `.mutator.bak`.
pub fn backup_file_name(file_name: &str) -> (r: String)
    ensures
        r@ == backup_name(file_name@),
{
    let mut name = ".".to_owned();
    name.append(file_name);
    name.append(".mutator.bak");
    name
}

/// The path of the backup of a source file: beside the file, under its backup name.
pub fn backup_path(source_file: &Path) -> (r: PathBuf)
    ensures
        r == sibling(source_file, backup_name(file_name_text(source_file))),
{
    let name = backup_file_name(file_name_of(source_file).as_str());
    with_file_name(source_file, name.as_str())
}

} // verus!
