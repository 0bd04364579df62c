//! The log parser: pipe-delimited commit log output to commit records.

use crate::text::{
    filter_map, find_from, first_occurrence, lemma_filter_map_first, lemma_first_occurrence,
    lemma_split_lines_first, lines, split_lines, string_of, strip_cr, to_chars, views_of,
};
use vstd::prelude::*;

verus! {

/// One historical commit.
#[derive(Clone, Debug, PartialEq, Eq)]
pub struct CommitInfo {
    /// Full revision identifier.
    pub hash: String,
    /// Abbreviated form of `hash`.
    pub short_hash: String,
    /// First line of the commit message.
    pub message: String,
    /// Author display name.
    pub author: String,
    /// Author date, as the log output gives it.
    pub date: String,
}

/// The mathematical value of a [`CommitInfo`].
pub struct CommitInfoView {
    pub hash: Seq<char>,
    pub short_hash: Seq<char>,
    pub message: Seq<char>,
    pub author: Seq<char>,
    pub date: Seq<char>,
}

impl View for CommitInfo {
    type V = CommitInfoView;

    open spec fn view(&self) -> CommitInfoView {
        CommitInfoView {
            hash: self.hash@,
            short_hash: self.short_hash@,
            message: self.message@,
            author: self.author@,
            date: self.date@,
        }
    }
}

/// `s` split at `|` into at most `limit` parts: the last part holds
/// whatever is left, further `|` included.
pub open spec fn split_fields(s: Seq<char>, limit: nat) -> Seq<Seq<char>>
    decreases limit,
{
    if limit == 0 {
        Seq::empty()
    } else {
        let n = first_occurrence(s, '|');
        if limit == 1 || n >= s.len() {
            seq![s]
        } else {
            seq![s.take(n as int)] + split_fields(s.skip(n as int + 1), (limit - 1) as nat)
        }
    }
}

/// The record that one line of log output stands for: its five fields,
/// if it splits into exactly five parts, else none.
pub open spec fn log_record(line: Seq<char>) -> Option<CommitInfoView> {
    let parts = split_fields(line, 5);
    if parts.len() == 5 {
        Some(
            CommitInfoView {
                hash: parts[0],
                short_hash: parts[1],
                message: parts[2],
                author: parts[3],
                date: parts[4],
            },
        )
    } else {
        None
    }
}

/// The records that log output stands for: those of its lines, in the
/// order of the lines.
pub open spec fn log_records(text: Seq<char>) -> Seq<CommitInfoView> {
    filter_map(split_lines(text), |line: Seq<char>| log_record(line))
}

/// The views of a sequence of commits.
pub open spec fn commit_views(commits: Seq<CommitInfo>) -> Seq<CommitInfoView> {
    commits.map_values(|commit: CommitInfo| commit@)
}

/// Splits `line` at `|` into at most `limit` parts.
pub fn split_fields_chars(line: &[char], limit: usize) -> (parts: Vec<Vec<char>>)
    ensures
        views_of(parts@) == split_fields(line@, limit as nat),
{
    let n = line.len();
    let mut parts: Vec<Vec<char>> = Vec::new();
    if limit == 0 {
        assert(views_of(parts@) =~= Seq::<Seq<char>>::empty());
        return parts;
    }
    let mut start: usize = 0;
    let mut left: usize = limit;
    proof {
        assert(line@.skip(0) =~= line@);
        assert(views_of(parts@) + split_fields(line@, limit as nat) =~= split_fields(
            line@,
            limit as nat,
        ));
    }
    loop
        invariant_except_break
            views_of(parts@) + split_fields(line@.skip(start as int), left as nat) == split_fields(
                line@,
                limit as nat,
            ),
        invariant
            start <= n == line@.len(),
            1 <= left <= limit,
        ensures
            views_of(parts@) == split_fields(line@, limit as nat),
        decreases left,
    {
        let ghost before = views_of(parts@);
        let ghost rest = line@.skip(start as int);
        let end = find_from(line, start, '|');
        if left == 1 || end >= n {
            let part = vstd::slice::slice_to_vec(vstd::slice::slice_subrange(line, start, n));
            parts.push(part);
            proof {
                assert(part@ =~= rest);
                assert(views_of(parts@) =~= before.push(rest));
                assert(split_fields(rest, left as nat) =~= seq![rest]);
                assert(views_of(parts@) =~= before + split_fields(rest, left as nat));
            }
            break;
        }
        let part = vstd::slice::slice_to_vec(vstd::slice::slice_subrange(line, start, end));
        parts.push(part);
        proof {
            assert(part@ =~= rest.take(end - start));
            assert(rest.skip(end - start + 1) =~= line@.skip(end + 1));
            assert(views_of(parts@) =~= before.push(part@));
            assert(split_fields(rest, left as nat) =~= seq![part@] + split_fields(
                line@.skip(end + 1),
                (left - 1) as nat,
            ));
            assert(views_of(parts@) + split_fields(line@.skip(end + 1), (left - 1) as nat)
                =~= before + split_fields(rest, left as nat));
        }
        start = end + 1;
        left -= 1;
    }
    parts
}

/// Reads one line of log output, given as characters.
pub fn parse_log_chars(line: &[char]) -> (record: Option<CommitInfo>)
    ensures
        record is Some <==> log_record(line@) is Some,
        record is Some ==> record->0@ == log_record(line@)->0,
{
    let parts = split_fields_chars(line, 5);
    if parts.len() != 5 {
        return None;
    }
    Some(
        CommitInfo {
            hash: string_of(parts[0].as_slice()),
            short_hash: string_of(parts[1].as_slice()),
            message: string_of(parts[2].as_slice()),
            author: string_of(parts[3].as_slice()),
            date: string_of(parts[4].as_slice()),
        },
    )
}

/// Reads one line of log output: full hash, short hash, subject, author
/// and date, joined by `|`. A line with fewer than four `|` gives no
/// record; a `|` after the fourth belongs to the date.
pub fn parse_log_line(line: &str) -> (record: Option<CommitInfo>)
    ensures
        record is Some <==> log_record(line@) is Some,
        record is Some ==> record->0@ == log_record(line@)->0,
{
    let chars = to_chars(line);
    parse_log_chars(chars.as_slice())
}

/// Reads log output: one record for each line that holds five fields,
/// in the order of the lines. Other lines are passed over.
pub fn parse_log(text: &str) -> (commits: Vec<CommitInfo>)
    ensures
        commit_views(commits@) == log_records(text@),
{
    let chars = to_chars(text);
    let all = lines(chars.as_slice());
    let ghost f = |line: Seq<char>| log_record(line);
    let mut commits: Vec<CommitInfo> = Vec::new();
    let mut k: usize = 0;
    proof {
        assert(views_of(all@).take(0) =~= Seq::<Seq<char>>::empty());
        assert(commit_views(commits@) =~= Seq::<CommitInfoView>::empty());
    }
    while k < all.len()
        invariant
            k <= all.len(),
            views_of(all@) == split_lines(text@),
            f == (|line: Seq<char>| log_record(line)),
            commit_views(commits@) == filter_map(views_of(all@).take(k as int), f),
        decreases all.len() - k,
    {
        let ghost before = commit_views(commits@);
        let ghost done = views_of(all@).take(k as int);
        let ghost line = all@[k as int]@;
        let record = parse_log_chars(all[k].as_slice());
        proof {
            let next = views_of(all@).take(k + 1);
            assert(next.drop_last() =~= done);
            assert(next.last() == line);
            assert(f(line) == log_record(line));
        }
        match record {
            Some(commit) => {
                commits.push(commit);
                assert(commit_views(commits@) =~= before.push(commit@));
            },
            None => {},
        }
        k += 1;
    }
    proof {
        assert(views_of(all@).take(k as int) =~= views_of(all@));
    }
    commits
}

/// A field without `|`, followed by `|` and anything, is split off as
/// the first part.
pub proof fn lemma_split_first_field(field: Seq<char>, rest: Seq<char>, limit: nat)
    requires
        limit >= 2,
        forall|j: int| 0 <= j < field.len() ==> field[j] != '|',
    ensures
        split_fields(field + seq!['|'] + rest, limit) == seq![field] + split_fields(
            rest,
            (limit - 1) as nat,
        ),
{
    let s = field + seq!['|'] + rest;
    lemma_first_occurrence(s, '|', field.len() as int);
    assert(s.take(field.len() as int) =~= field);
    assert(s.skip(field.len() as int + 1) =~= rest);
}

/// The line made of five fields joined by `|`.
pub open spec fn log_line(fields: CommitInfoView) -> Seq<char> {
    fields.hash + seq!['|'] + fields.short_hash + seq!['|'] + fields.message + seq!['|']
        + fields.author + seq!['|'] + fields.date
}

/// Reading a line of five fields joined by `|` gives back exactly those
/// fields, as long as none of the first four holds a `|`. The date may
/// hold one.
pub proof fn lemma_log_line_round_trip(fields: CommitInfoView)
    requires
        forall|j: int| 0 <= j < fields.hash.len() ==> fields.hash[j] != '|',
        forall|j: int| 0 <= j < fields.short_hash.len() ==> fields.short_hash[j] != '|',
        forall|j: int| 0 <= j < fields.message.len() ==> fields.message[j] != '|',
        forall|j: int| 0 <= j < fields.author.len() ==> fields.author[j] != '|',
    ensures
        log_record(log_line(fields)) == Some(fields),
{
    let bar = seq!['|'];
    let r4 = fields.date;
    let r3 = fields.author + bar + r4;
    let r2 = fields.message + bar + r3;
    let r1 = fields.short_hash + bar + r2;
    let r0 = fields.hash + bar + r1;
    assert(r0 =~= log_line(fields));
    lemma_split_first_field(fields.hash, r1, 5);
    lemma_split_first_field(fields.short_hash, r2, 4);
    lemma_split_first_field(fields.message, r3, 3);
    lemma_split_first_field(fields.author, r4, 2);
    assert(split_fields(r4, 1) =~= seq![r4]);
    let parts = split_fields(r0, 5);
    assert(parts =~= seq![fields.hash, fields.short_hash, fields.message, fields.author, r4]);
}

/// Log output that lists `commits`: the line of each, closed by a line
/// feed, in order.
pub open spec fn log_text(commits: Seq<CommitInfoView>) -> Seq<char>
    decreases commits.len(),
{
    if commits.len() == 0 {
        Seq::empty()
    } else {
        log_line(commits[0]) + seq!['\n'] + log_text(commits.drop_first())
    }
}

impl CommitInfoView {
    /// Whether the fields can stand in log output as they are: none
    /// holds a line feed, none of the first four holds a `|`, and the
    /// date does not end with a carriage return.
    pub open spec fn plain(self) -> bool {
        &&& forall|j: int| 0 <= j < self.hash.len() ==> self.hash[j] != '|' && self.hash[j] != '\n'
        &&& forall|j: int|
            0 <= j < self.short_hash.len() ==> self.short_hash[j] != '|' && self.short_hash[j]
                != '\n'
        &&& forall|j: int|
            0 <= j < self.message.len() ==> self.message[j] != '|' && self.message[j] != '\n'
        &&& forall|j: int|
            0 <= j < self.author.len() ==> self.author[j] != '|' && self.author[j] != '\n'
        &&& forall|j: int| 0 <= j < self.date.len() ==> self.date[j] != '\n'
        &&& self.date.len() > 0 ==> self.date.last() != '\r'
    }
}

/// Reading log output that lists commits with plain fields gives back
/// exactly those commits, in the order in which they are listed.
pub proof fn lemma_log_text_round_trip(commits: Seq<CommitInfoView>)
    requires
        forall|i: int| 0 <= i < commits.len() ==> (#[trigger] commits[i]).plain(),
    ensures
        log_records(log_text(commits)) == commits,
    decreases commits.len(),
{
    let f = |line: Seq<char>| log_record(line);
    if commits.len() == 0 {
        assert(log_records(log_text(commits)) =~= commits);
    } else {
        let first = commits[0];
        let rest = commits.drop_first();
        let line = log_line(first);
        assert(first.plain());
        assert forall|i: int| 0 <= i < rest.len() implies (#[trigger] rest[i]).plain() by {
            assert(rest[i] == commits[i + 1]);
        }
        lemma_log_text_round_trip(rest);
        lemma_log_line_round_trip(first);
        assert(line.len() > 0 && line.last() != '\r') by {
            if first.date.len() > 0 {
                assert(line.last() == first.date.last());
            } else {
                assert(line.last() == '|');
            }
        }
        assert(strip_cr(line) == line);
        lemma_split_lines_first(line, log_text(rest));
        lemma_filter_map_first(line, split_lines(log_text(rest)), f);
        assert(f(line) == log_record(line));
        assert(seq![first] + rest =~= commits);
    }
}

} // verus!
