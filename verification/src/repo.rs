//! The repository validator: whether a path is the root of a working
//! copy.

use std::path::PathBuf;
use vstd::prelude::*;

verus! {

/// `std::path::PathBuf`, an owned file-system path. Its inside is not
/// looked at: values are only made and handed on.
#[verifier::external_type_specification]
#[verifier::external_body]
pub struct ExPathBuf(PathBuf);

/// Calls `PathBuf::from`, which makes the path that the string names.
#[verifier::external_body]
fn path_of(name: &str) -> (path: PathBuf) {
    PathBuf::from(name)
}

/// Calls `Path::join`, which makes the path of the entry `name` under
/// `dir`.
#[verifier::external_body]
fn entry_of(dir: &PathBuf, name: &str) -> (path: PathBuf) {
    dir.join(name)
}

/// Calls `Path::exists`, which asks the file system whether the path
/// points at anything. Nothing is known of the answer beforehand.
#[verifier::external_body]
fn exists_on_disk(path: &PathBuf) -> (found: bool) {
    path.exists()
}

/// Calls `Path::is_dir`, which asks the file system whether the path
/// points at a directory. Nothing is known of the answer beforehand.
#[verifier::external_body]
fn is_dir_on_disk(path: &PathBuf) -> (found: bool) {
    path.is_dir()
}

/// The failure reported for a path that is not on disk.
pub open spec fn path_missing_message(path: Seq<char>) -> Seq<char> {
    "Path does not exist: "@ + path
}

/// The validator's answer, given what the file system said: whether
/// `path` exists, whether an entry named `.git` exists directly under
/// it, and whether that entry is a directory. A path that is not on disk
/// is a failure; any path that is on disk gets an answer, which is
/// `true` only for a `.git` directory.
pub fn validation_outcome(
    path: &str,
    exists: bool,
    metadata_exists: bool,
    metadata_is_dir: bool,
) -> (outcome: Result<bool, String>)
    ensures
        exists ==> outcome == Ok::<bool, String>(metadata_exists && metadata_is_dir),
        !exists ==> outcome is Err && outcome->Err_0@ == path_missing_message(path@),
{
    if !exists {
        return Err(String::from_str("Path does not exist: ").concat(path));
    }
    Ok(metadata_exists && metadata_is_dir)
}

/// Whether `path` is the root of a working copy: asks the file system
/// about the path and about `.git` under it, and answers as
/// [`validation_outcome`] says. No process is run. The answers of the
/// file system are not known beforehand, so all that holds of every
/// outcome is what the one failure says.
pub fn validate_git_repo_impl(path: &str) -> (outcome: Result<bool, String>)
    ensures
        outcome is Err ==> outcome->Err_0@ == path_missing_message(path@),
{
    let root = path_of(path);
    if !exists_on_disk(&root) {
        return validation_outcome(path, false, false, false);
    }
    let metadata = entry_of(&root, ".git");
    let metadata_exists = exists_on_disk(&metadata);
    let metadata_is_dir = metadata_exists && is_dir_on_disk(&metadata);
    validation_outcome(path, true, metadata_exists, metadata_is_dir)
}

} // verus!
