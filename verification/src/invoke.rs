//! What is handed to the process invoker and what comes back from it.
//! The library runs no process itself: it says which arguments the
//! version-control tool is to be run with, and reads what the run gave.

use vstd::prelude::*;
use vstd::utf8::{decode_utf8, valid_utf8};

verus! {

/// What a finished run of the tool left behind.
#[derive(Clone, Debug, PartialEq, Eq)]
pub struct CommandOutput {
    /// Whether the tool exited with success.
    pub success: bool,
    /// Everything it wrote to standard output.
    pub stdout: Vec<u8>,
    /// Everything it wrote to standard error.
    pub stderr: Vec<u8>,
}

/// How an attempt to run the tool in a repository ended.
#[derive(Clone, Debug, PartialEq, Eq)]
pub enum Invocation {
    /// The repository path is not on disk; nothing was run.
    PathMissing,
    /// The tool could not be started; holds the system's description.
    SpawnFailed(String),
    /// The tool ran and exited.
    Completed(CommandOutput),
}

/// The text that bytes decode to as UTF-8 when every malformed sequence
/// is replaced by U+FFFD.
pub uninterp spec fn utf8_lossy(bytes: Seq<u8>) -> Seq<char>;

/// Calls `String::from_utf8_lossy`, which decodes the bytes as UTF-8 and
/// puts U+FFFD in place of each malformed sequence. Bytes that are
/// well-formed UTF-8 decode to the text they encode.
#[verifier::external_body]
pub(crate) fn text_of(bytes: &[u8]) -> (text: String)
    ensures
        text@ == utf8_lossy(bytes@),
        valid_utf8(bytes@) ==> text@ == decode_utf8(bytes@),
{
    String::from_utf8_lossy(bytes).into_owned()
}

/// The views of a sequence of strings.
pub open spec fn string_views(strings: Seq<String>) -> Seq<Seq<char>> {
    strings.map_values(|s: String| s@)
}

/// The character of the decimal digit `d`.
pub open spec fn digit_char(d: nat) -> char {
    (d + 48) as char
}

/// `n` written in decimal, without leading zeros.
pub open spec fn decimal(n: nat) -> Seq<char>
    decreases n,
{
    if n < 10 {
        seq![digit_char(n)]
    } else {
        decimal(n / 10).push(digit_char(n % 10))
    }
}

/// The digits of `n` before its last one: none if `n` is 0.
pub open spec fn leading_digits(n: nat) -> Seq<char> {
    if n == 0 {
        Seq::empty()
    } else {
        decimal(n)
    }
}

/// Writes `n` in decimal.
pub fn decimal_string(n: u32) -> (text: String)
    ensures
        text@ == decimal(n as nat),
{
    let mut digits: Vec<char> = Vec::new();
    digits.push(((n % 10) as u8 + 48) as char);
    let mut m: u32 = n / 10;
    proof {
        assert(decimal(n as nat) =~= leading_digits(m as nat) + digits@.reverse());
    }
    while m > 0
        invariant
            decimal(n as nat) == leading_digits(m as nat) + digits@.reverse(),
        decreases m,
    {
        let ghost before = digits@;
        digits.push(((m % 10) as u8 + 48) as char);
        proof {
            let d = digit_char((m % 10) as nat);
            assert(digits@.reverse() =~= seq![d] + before.reverse());
            assert(leading_digits(m as nat) =~= leading_digits((m / 10) as nat).push(d));
            assert(leading_digits((m / 10) as nat) + digits@.reverse() =~= leading_digits(
                m as nat,
            ) + before.reverse());
        }
        m = m / 10;
    }
    let mut text = String::new();
    let mut k: usize = digits.len();
    proof {
        assert(digits@.reverse().take(0) =~= Seq::<char>::empty());
    }
    while k > 0
        invariant
            k <= digits.len(),
            text@ == digits@.reverse().take(digits.len() - k),
        decreases k,
    {
        k -= 1;
        let ghost before = text@;
        text.push(digits[k]);
        proof {
            let r = digits@.reverse();
            assert(r[digits.len() - 1 - k] == digits@[k as int]);
            assert(r.take(digits.len() - k) =~= before.push(digits@[k as int]));
        }
    }
    proof {
        assert(digits@.reverse().take(digits.len() as int) =~= digits@.reverse());
        assert(leading_digits(0) + digits@.reverse() =~= digits@.reverse());
    }
    text
}

/// The arguments of the status query, in short, script-friendly form.
pub open spec fn status_arguments() -> Seq<Seq<char>> {
    seq!["status"@, "--porcelain"@]
}

/// The arguments of the query for a file's content at a revision.
pub open spec fn show_arguments(revision: Seq<char>, file_path: Seq<char>) -> Seq<Seq<char>> {
    seq!["show"@, revision + ":"@ + file_path]
}

/// The arguments of the history query for at most `limit` commits, one
/// line each: full hash, short hash, subject, author and author date,
/// joined by `|`.
pub open spec fn log_arguments(limit: nat) -> Seq<Seq<char>> {
    seq!["log"@, "-"@ + decimal(limit), "--format=%H|%h|%s|%an|%ai"@]
}

/// The arguments to run the tool with for the status query.
pub fn status_args() -> (args: Vec<String>)
    ensures
        string_views(args@) == status_arguments(),
{
    let mut args: Vec<String> = Vec::new();
    args.push(String::from_str("status"));
    args.push(String::from_str("--porcelain"));
    assert(string_views(args@) =~= status_arguments());
    args
}

/// The arguments to run the tool with for the content of `file_path` at
/// `revision`.
pub fn show_args(revision: &str, file_path: &str) -> (args: Vec<String>)
    ensures
        string_views(args@) == show_arguments(revision@, file_path@),
{
    let mut args: Vec<String> = Vec::new();
    args.push(String::from_str("show"));
    args.push(String::from_str(revision).concat(":").concat(file_path));
    assert(string_views(args@) =~= show_arguments(revision@, file_path@));
    args
}

/// The arguments to run the tool with for the content of `file_path` as
/// it is checked in at the current head.
pub fn head_show_args(file_path: &str) -> (args: Vec<String>)
    ensures
        string_views(args@) == show_arguments("HEAD"@, file_path@),
{
    show_args("HEAD", file_path)
}

/// The arguments to run the tool with for the history query.
pub fn log_args(limit: u32) -> (args: Vec<String>)
    ensures
        string_views(args@) == log_arguments(limit as nat),
{
    let mut args: Vec<String> = Vec::new();
    args.push(String::from_str("log"));
    let count = decimal_string(limit);
    args.push(String::from_str("-").concat(count.as_str()));
    args.push(String::from_str("--format=%H|%h|%s|%an|%ai"));
    assert(string_views(args@) =~= log_arguments(limit as nat));
    args
}

} // verus!
