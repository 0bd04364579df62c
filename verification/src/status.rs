//! The status parser: short-format change-status output to the changed
//! image files it lists.

use crate::text::{filter_map, lines, split_lines, string_of, to_chars, trim, trim_chars, views_of};
use vstd::prelude::*;

verus! {

/// What happened to a changed file.
#[derive(Clone, Copy, Debug, PartialEq, Eq, Structural)]
pub enum ChangeStatus {
    Modified,
    Added,
    Deleted,
}

impl ChangeStatus {
    /// The word under which the status is reported.
    pub open spec fn label_spec(self) -> Seq<char> {
        match self {
            ChangeStatus::Modified => "modified"@,
            ChangeStatus::Added => "added"@,
            ChangeStatus::Deleted => "deleted"@,
        }
    }

    /// The word under which the status is reported.
    pub fn label(self) -> (word: &'static str)
        ensures
            word@ == self.label_spec(),
    {
        match self {
            ChangeStatus::Modified => "modified",
            ChangeStatus::Added => "added",
            ChangeStatus::Deleted => "deleted",
        }
    }
}

/// One image asset with a pending change.
#[derive(Clone, Debug, PartialEq, Eq)]
pub struct ChangedFile {
    /// Repository-relative path, as the status output reports it.
    pub path: String,
    /// The final segment of `path`.
    pub filename: String,
    /// `"modified"`, `"added"` or `"deleted"`.
    pub status: String,
}

/// The mathematical value of a [`ChangedFile`].
pub struct ChangedFileView {
    pub path: Seq<char>,
    pub filename: Seq<char>,
    pub status: Seq<char>,
}

impl View for ChangedFile {
    type V = ChangedFileView;

    open spec fn view(&self) -> ChangedFileView {
        ChangedFileView { path: self.path@, filename: self.filename@, status: self.status@ }
    }
}

impl ChangedFileView {
    /// What holds of every record that the status parser gives out: the
    /// path names an image, the file name is its final segment, and the
    /// status is one of the three words.
    pub open spec fn well_formed(self) -> bool {
        &&& is_image_path(self.path)
        &&& self.filename == file_name(self.path)
        &&& exists|status: ChangeStatus| self.status == status.label_spec()
    }
}

/// `c` with an ASCII capital letter replaced by its small letter.
pub open spec fn fold_ascii(c: char) -> char {
    if 'A' <= c <= 'Z' {
        ((c as u8) + 32) as char
    } else {
        c
    }
}

/// Executable form of [`fold_ascii`].
pub fn fold_ascii_char(c: char) -> (folded: char)
    ensures
        folded == fold_ascii(c),
{
    if 'A' <= c && c <= 'Z' {
        ((c as u8) + 32) as char
    } else {
        c
    }
}

/// Whether `s` ends with `suffix` once the ASCII capitals of `s` are
/// folded to small letters.
pub open spec fn ends_with_folded(s: Seq<char>, suffix: Seq<char>) -> bool {
    &&& suffix.len() <= s.len()
    &&& forall|i: int|
        0 <= i < suffix.len() ==> fold_ascii(#[trigger] s[s.len() - suffix.len() + i]) == suffix[i]
}

/// Whether `path` ends with a dot and the extension `ext`, in any mix of
/// capital and small letters.
pub open spec fn has_extension(path: Seq<char>, ext: Seq<char>) -> bool {
    ends_with_folded(path, seq!['.'] + ext)
}

/// Whether `path` has one of the image extensions.
pub open spec fn is_image_path(path: Seq<char>) -> bool {
    ||| has_extension(path, "png"@)
    ||| has_extension(path, "jpg"@)
    ||| has_extension(path, "jpeg"@)
    ||| has_extension(path, "gif"@)
    ||| has_extension(path, "svg"@)
    ||| has_extension(path, "webp"@)
    ||| has_extension(path, "bmp"@)
    ||| has_extension(path, "ico"@)
}

/// The image check takes capital and small ASCII letters alike: two
/// paths of one length that agree once their ASCII capitals are folded
/// are both images or both none.
pub proof fn lemma_image_check_ignores_case(a: Seq<char>, b: Seq<char>)
    requires
        a.len() == b.len(),
        forall|i: int| 0 <= i < a.len() ==> fold_ascii(a[i]) == fold_ascii(b[i]),
    ensures
        is_image_path(a) == is_image_path(b),
{
    assert forall|ext: Seq<char>| has_extension(a, ext) == has_extension(b, ext) by {
        let suffix = seq!['.'] + ext;
        if suffix.len() <= a.len() {
            assert forall|i: int| 0 <= i < suffix.len() implies fold_ascii(
                #[trigger] a[a.len() - suffix.len() + i],
            ) == fold_ascii(b[b.len() - suffix.len() + i]) by {}
        }
    }
}

/// Whether `path` ends with a dot and `ext`, capital and small letters of
/// `path` taken alike.
pub fn path_has_extension(path: &[char], ext: &str) -> (found: bool)
    ensures
        found == has_extension(path@, ext@),
{
    let ext_chars = to_chars(ext);
    let m = ext_chars.len();
    let n = path.len();
    let ghost suffix = seq!['.'] + ext@;
    if n <= m {
        return false;
    }
    let base: usize = n - m - 1;
    if fold_ascii_char(path[base]) != '.' {
        assert(suffix[0] == '.');
        assert(path@[path@.len() - suffix.len() + 0] == path@[base as int]);
        return false;
    }
    let mut i: usize = 0;
    while i < m
        invariant
            i <= m == ext@.len(),
            n == path@.len(),
            base + 1 + m == n,
            ext_chars@ == ext@,
            suffix == seq!['.'] + ext@,
            fold_ascii(path@[base as int]) == '.',
            forall|j: int| 0 <= j < i ==> fold_ascii(#[trigger] path@[base + 1 + j]) == ext@[j],
        decreases m - i,
    {
        if fold_ascii_char(path[base + 1 + i]) != ext_chars[i] {
            assert(suffix[i + 1] == ext@[i as int]);
            assert(path@[path@.len() - suffix.len() + (i + 1)] == path@[base + 1 + i]);
            return false;
        }
        i += 1;
    }
    proof {
        assert forall|k: int| 0 <= k < suffix.len() implies fold_ascii(
            #[trigger] path@[path@.len() - suffix.len() + k],
        ) == suffix[k] by {
            if k > 0 {
                assert(fold_ascii(path@[base + 1 + (k - 1)]) == ext@[k - 1]);
            }
        }
    }
    true
}

/// Whether the characters of `path` end in an image extension.
pub fn is_image_chars(path: &[char]) -> (image: bool)
    ensures
        image == is_image_path(path@),
{
    path_has_extension(path, "png") || path_has_extension(path, "jpg") || path_has_extension(
        path,
        "jpeg",
    ) || path_has_extension(path, "gif") || path_has_extension(path, "svg") || path_has_extension(
        path,
        "webp",
    ) || path_has_extension(path, "bmp") || path_has_extension(path, "ico")
}

/// Whether `path` names an image: it ends in `.png`, `.jpg`, `.jpeg`,
/// `.gif`, `.svg`, `.webp`, `.bmp` or `.ico`, in any mix of capital and
/// small letters.
pub fn is_image_file(path: &str) -> (image: bool)
    ensures
        image == is_image_path(path@),
{
    let chars = to_chars(path);
    is_image_chars(chars.as_slice())
}

/// The index right after the last `/` of `path`, or 0 if it has none.
pub open spec fn segment_start(path: Seq<char>) -> nat
    decreases path.len(),
{
    if path.len() == 0 {
        0
    } else if path.last() == '/' {
        path.len()
    } else {
        segment_start(path.drop_last())
    }
}

/// The final segment of `path`: what follows its last `/`, or the whole
/// path if it has none.
pub open spec fn file_name(path: Seq<char>) -> Seq<char> {
    path.skip(segment_start(path) as int)
}

/// If a `/` stands right before index `k` (or `k` is 0) and none stands
/// at or after it, the final segment starts at `k`.
pub proof fn lemma_segment_start(path: Seq<char>, k: int)
    requires
        0 <= k <= path.len(),
        k > 0 ==> path[k - 1] == '/',
        forall|j: int| k <= j < path.len() ==> #[trigger] path[j] != '/',
    ensures
        segment_start(path) == k,
    decreases path.len() - k,
{
    if k < path.len() {
        lemma_segment_start(path.drop_last(), k);
    }
}

/// The final segment of `path`.
pub fn file_name_chars(path: &[char]) -> (name: &[char])
    ensures
        name@ == file_name(path@),
{
    let n = path.len();
    let mut k: usize = n;
    while k > 0 && path[k - 1] != '/'
        invariant
            k <= n == path@.len(),
            forall|j: int| k <= j < n ==> #[trigger] path@[j] != '/',
        decreases k,
    {
        k -= 1;
    }
    proof {
        lemma_segment_start(path@, k as int);
        assert(path@.subrange(k as int, n as int) =~= path@.skip(k as int));
    }
    vstd::slice::slice_subrange(path, k, n)
}

/// The status that a status code stands for, the code taken without the
/// white space around it; `None` for a code that stands for none.
pub open spec fn status_for_code(code: Seq<char>) -> Option<ChangeStatus> {
    if code =~= seq!['M'] || code =~= seq![' ', 'M'] || code =~= seq!['M', 'M'] {
        Some(ChangeStatus::Modified)
    } else if code =~= seq!['A'] || code =~= seq![' ', 'A'] || code =~= seq!['A', 'M'] {
        Some(ChangeStatus::Added)
    } else if code =~= seq!['D'] || code =~= seq![' ', 'D'] {
        Some(ChangeStatus::Deleted)
    } else if code =~= seq!['?', '?'] {
        Some(ChangeStatus::Added)
    } else if code =~= seq!['R'] || code =~= seq![' ', 'R'] {
        Some(ChangeStatus::Modified)
    } else {
        None
    }
}

/// Looks a status code up in the table of codes.
pub fn classify_code(code: &[char]) -> (status: Option<ChangeStatus>)
    ensures
        status == status_for_code(code@),
{
    if code.len() == 1 {
        let a = code[0];
        if a == 'M' || a == 'R' {
            Some(ChangeStatus::Modified)
        } else if a == 'A' {
            Some(ChangeStatus::Added)
        } else if a == 'D' {
            Some(ChangeStatus::Deleted)
        } else {
            None
        }
    } else if code.len() == 2 {
        let a = code[0];
        let b = code[1];
        if (a == ' ' || a == 'M') && b == 'M' {
            Some(ChangeStatus::Modified)
        } else if (a == ' ' && b == 'A') || (a == 'A' && b == 'M') {
            Some(ChangeStatus::Added)
        } else if a == ' ' && b == 'D' {
            Some(ChangeStatus::Deleted)
        } else if a == '?' && b == '?' {
            Some(ChangeStatus::Added)
        } else if a == ' ' && b == 'R' {
            Some(ChangeStatus::Modified)
        } else {
            None
        }
    } else {
        None
    }
}

/// The record that one line of status output stands for, if any. The
/// first two characters are the status code, the third separates, and
/// the rest, without the white space around it, is the path. A line of
/// fewer than three characters, one whose path names no image and one
/// whose code stands for no status give no record.
pub open spec fn status_record(line: Seq<char>) -> Option<ChangedFileView> {
    if line.len() < 3 {
        None
    } else {
        let path = trim(line.skip(3));
        if !is_image_path(path) {
            None
        } else {
            match status_for_code(trim(line.take(2))) {
                Some(status) => Some(
                    ChangedFileView {
                        path,
                        filename: file_name(path),
                        status: status.label_spec(),
                    },
                ),
                None => None,
            }
        }
    }
}

/// The records that status output stands for: those of its lines, in
/// the order of the lines.
pub open spec fn status_records(text: Seq<char>) -> Seq<ChangedFileView> {
    filter_map(split_lines(text), |line: Seq<char>| status_record(line))
}

/// The views of a sequence of changed files.
pub open spec fn file_views(files: Seq<ChangedFile>) -> Seq<ChangedFileView> {
    files.map_values(|file: ChangedFile| file@)
}

/// Every record of a line is well formed.
pub proof fn lemma_status_record_well_formed(line: Seq<char>)
    ensures
        status_record(line) is Some ==> status_record(line)->0.well_formed(),
{
    if status_record(line) is Some {
        let status = status_for_code(trim(line.take(2)))->0;
        assert(status_record(line)->0.status == status.label_spec());
    }
}

/// The status of a record is the one that the table gives for the
/// line's code, and a line whose code the table does not hold gives no
/// record. A line of three characters or more whose path names an image
/// gives a record exactly if the table holds its code.
pub proof fn lemma_status_follows_table(line: Seq<char>)
    ensures
        status_record(line) matches Some(record) ==> status_for_code(trim(line.take(2))) matches Some(
            status,
        ) && record.status == status.label_spec(),
        status_for_code(trim(line.take(2))) is None ==> status_record(line) is None,
        line.len() >= 3 && is_image_path(trim(line.skip(3))) ==> (status_record(line) is Some
            <==> status_for_code(trim(line.take(2))) is Some),
{
}

/// Reads one line of status output, given as characters.
pub fn parse_status_chars(line: &[char]) -> (record: Option<ChangedFile>)
    ensures
        record is Some <==> status_record(line@) is Some,
        record is Some ==> record->0@ == status_record(line@)->0,
        record is Some ==> record->0@.well_formed(),
{
    proof {
        lemma_status_record_well_formed(line@);
    }
    let n = line.len();
    if n < 3 {
        return None;
    }
    let code = trim_chars(vstd::slice::slice_subrange(line, 0, 2));
    let path = trim_chars(vstd::slice::slice_subrange(line, 3, n));
    proof {
        assert(line@.subrange(0, 2) =~= line@.take(2));
        assert(line@.subrange(3, n as int) =~= line@.skip(3));
    }
    if !is_image_chars(path) {
        return None;
    }
    match classify_code(code) {
        Some(status) => Some(
            ChangedFile {
                path: string_of(path),
                filename: string_of(file_name_chars(path)),
                status: String::from_str(status.label()),
            },
        ),
        None => None,
    }
}

/// Reads one line of status output.
pub fn parse_status_line(line: &str) -> (record: Option<ChangedFile>)
    ensures
        record is Some <==> status_record(line@) is Some,
        record is Some ==> record->0@ == status_record(line@)->0,
        record is Some ==> record->0@.well_formed(),
{
    let chars = to_chars(line);
    parse_status_chars(chars.as_slice())
}

/// Reads status output: one record for each line that stands for a
/// changed image, in the order of the lines. Lines that stand for none
/// are passed over.
pub fn parse_status(text: &str) -> (files: Vec<ChangedFile>)
    ensures
        file_views(files@) == status_records(text@),
        forall|i: int| 0 <= i < files@.len() ==> (#[trigger] files@[i])@.well_formed(),
{
    let chars = to_chars(text);
    let all = lines(chars.as_slice());
    let ghost f = |line: Seq<char>| status_record(line);
    let mut files: Vec<ChangedFile> = Vec::new();
    let mut k: usize = 0;
    proof {
        assert(views_of(all@).take(0) =~= Seq::<Seq<char>>::empty());
        assert(file_views(files@) =~= Seq::<ChangedFileView>::empty());
    }
    while k < all.len()
        invariant
            k <= all.len(),
            views_of(all@) == split_lines(text@),
            f == (|line: Seq<char>| status_record(line)),
            file_views(files@) == filter_map(views_of(all@).take(k as int), f),
            forall|i: int| 0 <= i < files@.len() ==> (#[trigger] files@[i])@.well_formed(),
        decreases all.len() - k,
    {
        let ghost before = file_views(files@);
        let ghost done = views_of(all@).take(k as int);
        let ghost line = all@[k as int]@;
        let record = parse_status_chars(all[k].as_slice());
        proof {
            let next = views_of(all@).take(k + 1);
            assert(next.drop_last() =~= done);
            assert(next.last() == line);
            assert(f(line) == status_record(line));
        }
        match record {
            Some(file) => {
                files.push(file);
                assert(file_views(files@) =~= before.push(file@));
            },
            None => {},
        }
        k += 1;
    }
    proof {
        assert(views_of(all@).take(k as int) =~= views_of(all@));
    }
    files
}

} // verus!
