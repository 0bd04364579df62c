//! Git working-copy inspection for an image review tool.
//!
//! The library lists the image files that have pending changes, lists
//! the commit history, and hands out the content of a file at a
//! revision as base64 text. It runs no process itself: for each request
//! it says which arguments the version-control tool is to be run with
//! ([`invoke`]), and reads what the run brought back ([`requests`]).
//! Reading is done by the status parser ([`status`]), the log parser
//! ([`log`]) and the content encoding ([`content`]); [`repo`] tells
//! whether a path is a working copy at all.

pub mod content;
pub mod invoke;
pub mod log;
pub mod repo;
pub mod requests;
pub mod status;
pub mod text;

pub use content::{encode_content, fits_encoding};
pub use invoke::{
    decimal_string, head_show_args, log_args, show_args, status_args, CommandOutput, Invocation,
};
pub use log::{parse_log, parse_log_line, CommitInfo};
pub use repo::{validate_git_repo_impl, validation_outcome};
pub use requests::{
    get_changed_files_impl, get_commits_impl, get_file_at_commit_impl, get_file_at_head_impl,
    launched,
};
pub use status::{
    classify_code, is_image_file, parse_status, parse_status_line, ChangeStatus, ChangedFile,
};
