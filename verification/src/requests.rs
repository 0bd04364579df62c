//! The requests that run the version-control tool: each takes what the
//! process invoker brought back and gives the typed result, or the
//! failure as a descriptive string.

use crate::content::{base64_decoding, base64_encoding, encode_content, encoded_len};
use crate::invoke::{text_of, utf8_lossy, CommandOutput, Invocation};
use crate::log::{commit_views, log_records, parse_log, CommitInfo};
use crate::status::{file_views, parse_status, status_records, ChangedFile};
use vstd::prelude::*;

verus! {

/// The failure that keeps a run from having any output to read: the
/// repository path is not on disk, or the tool could not be started for
/// `command`. `None` if the tool ran.
pub open spec fn launch_failure(repo_path: Seq<char>, command: Seq<char>, run: Invocation) -> Option<
    Seq<char>,
> {
    match run {
        Invocation::PathMissing => Some("Repository path does not exist: "@ + repo_path),
        Invocation::SpawnFailed(detail) => Some(
            "Failed to run git "@ + command + ": "@ + detail@,
        ),
        Invocation::Completed(_) => None,
    }
}

/// The output of a run of `command`, or the failure that kept the tool
/// from running.
pub fn launched(repo_path: &str, command: &str, run: Invocation) -> (outcome: Result<
    CommandOutput,
    String,
>)
    ensures
        match launch_failure(repo_path@, command@, run) {
            Some(message) => outcome is Err && outcome->Err_0@ == message,
            None => outcome == Ok::<CommandOutput, String>(run->Completed_0),
        },
{
    match run {
        Invocation::PathMissing => Err(
            String::from_str("Repository path does not exist: ").concat(repo_path),
        ),
        Invocation::SpawnFailed(detail) => Err(
            String::from_str("Failed to run git ").concat(command).concat(": ").concat(
                detail.as_str(),
            ),
        ),
        Invocation::Completed(output) => Ok(output),
    }
}

/// The changed image files of the repository at `repo_path`, read from a
/// run of the status query. A run that could not start, or that exited
/// without success, is a failure and gives no records; the failure of an
/// unsuccessful run carries what the tool wrote to standard error.
pub fn get_changed_files_impl(repo_path: &str, run: Invocation) -> (outcome: Result<
    Vec<ChangedFile>,
    String,
>)
    ensures
        match launch_failure(repo_path@, "status"@, run) {
            Some(message) => outcome is Err && outcome->Err_0@ == message,
            None => {
                let output = run->Completed_0;
                if output.success {
                    &&& outcome is Ok
                    &&& file_views(outcome->Ok_0@) == status_records(utf8_lossy(output.stdout@))
                    &&& forall|i: int|
                        0 <= i < outcome->Ok_0@.len() ==> (
                        #[trigger] outcome->Ok_0@[i])@.well_formed()
                } else {
                    &&& outcome is Err
                    &&& outcome->Err_0@ == "git status failed: "@ + utf8_lossy(output.stderr@)
                }
            },
        },
{
    let output = match launched(repo_path, "status", run) {
        Ok(output) => output,
        Err(message) => {
            return Err(message);
        },
    };
    if !output.success {
        let detail = text_of(output.stderr.as_slice());
        return Err(String::from_str("git status failed: ").concat(detail.as_str()));
    }
    let text = text_of(output.stdout.as_slice());
    Ok(parse_status(text.as_str()))
}

/// The commits of the repository at `repo_path`, most recent first as
/// the tool lists them, read from a run of the history query. A run that
/// could not start, or that exited without success, is a failure and
/// gives no records.
pub fn get_commits_impl(repo_path: &str, run: Invocation) -> (outcome: Result<
    Vec<CommitInfo>,
    String,
>)
    ensures
        match launch_failure(repo_path@, "log"@, run) {
            Some(message) => outcome is Err && outcome->Err_0@ == message,
            None => {
                let output = run->Completed_0;
                if output.success {
                    &&& outcome is Ok
                    &&& commit_views(outcome->Ok_0@) == log_records(utf8_lossy(output.stdout@))
                } else {
                    &&& outcome is Err
                    &&& outcome->Err_0@ == "git log failed: "@ + utf8_lossy(output.stderr@)
                }
            },
        },
{
    let output = match launched(repo_path, "log", run) {
        Ok(output) => output,
        Err(message) => {
            return Err(message);
        },
    };
    if !output.success {
        let detail = text_of(output.stderr.as_slice());
        return Err(String::from_str("git log failed: ").concat(detail.as_str()));
    }
    let text = text_of(output.stdout.as_slice());
    Ok(parse_log(text.as_str()))
}

/// Whether the content that a run brought back can be encoded: the
/// length of its base64 text fits `usize`. It holds of any run that
/// brought back no content.
pub open spec fn content_fits(run: Invocation) -> bool {
    run matches Invocation::Completed(output) ==> output.success ==> encoded_len(
        output.stdout@.len(),
    ) <= usize::MAX
}

/// The content of a file as checked in at the current head, as base64
/// text, read from a run of the content query. An unsuccessful run means
/// that the file is not there at the head: the failure carries what the
/// tool wrote to standard error.
pub fn get_file_at_head_impl(repo_path: &str, run: Invocation) -> (outcome: Result<String, String>)
    requires
        content_fits(run),
    ensures
        match launch_failure(repo_path@, "show"@, run) {
            Some(message) => outcome is Err && outcome->Err_0@ == message,
            None => {
                let output = run->Completed_0;
                if output.success {
                    &&& outcome is Ok
                    &&& outcome->Ok_0@ == base64_encoding(output.stdout@)
                    &&& base64_decoding(outcome->Ok_0@) == Some(output.stdout@)
                } else {
                    &&& outcome is Err
                    &&& outcome->Err_0@ == "File does not exist at HEAD: "@ + utf8_lossy(
                        output.stderr@,
                    )
                }
            },
        },
{
    let output = match launched(repo_path, "show", run) {
        Ok(output) => output,
        Err(message) => {
            return Err(message);
        },
    };
    if !output.success {
        let detail = text_of(output.stderr.as_slice());
        return Err(String::from_str("File does not exist at HEAD: ").concat(detail.as_str()));
    }
    Ok(encode_content(output.stdout.as_slice()))
}

/// The content of a file as it was at the commit `commit_hash`, as
/// base64 text, read from a run of the content query. An unsuccessful
/// run means that the file is not there at that commit: the failure
/// names the commit and carries what the tool wrote to standard error.
pub fn get_file_at_commit_impl(repo_path: &str, commit_hash: &str, run: Invocation) -> (outcome:
    Result<String, String>)
    requires
        content_fits(run),
    ensures
        match launch_failure(repo_path@, "show"@, run) {
            Some(message) => outcome is Err && outcome->Err_0@ == message,
            None => {
                let output = run->Completed_0;
                if output.success {
                    &&& outcome is Ok
                    &&& outcome->Ok_0@ == base64_encoding(output.stdout@)
                    &&& base64_decoding(outcome->Ok_0@) == Some(output.stdout@)
                } else {
                    &&& outcome is Err
                    &&& outcome->Err_0@ == "File does not exist at commit "@ + commit_hash@ + ": "@
                        + utf8_lossy(output.stderr@)
                }
            },
        },
{
    let output = match launched(repo_path, "show", run) {
        Ok(output) => output,
        Err(message) => {
            return Err(message);
        },
    };
    if !output.success {
        let detail = text_of(output.stderr.as_slice());
        return Err(
            String::from_str("File does not exist at commit ").concat(commit_hash).concat(
                ": ",
            ).concat(detail.as_str()),
        );
    }
    Ok(encode_content(output.stdout.as_slice()))
}

} // verus!
