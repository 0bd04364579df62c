//! Character-level building blocks shared by the parsers.

use vstd::prelude::*;

verus! {

/// `String::push` appends exactly one character to the end of the string.
pub assume_specification[ String::push ](s: &mut String, ch: char)
    ensures
        final(s)@ == old(s)@.push(ch),
;

/// The characters of `s`, in order.
pub fn to_chars(s: &str) -> (chars: Vec<char>)
    ensures
        chars@ == s@,
{
    let mut chars: Vec<char> = Vec::new();
    for c in it: s.chars()
        invariant
            it.seq() == s@,
            chars@ == s@.take(it.index() as int),
    {
        chars.push(c);
    }
    chars
}

/// A string holding exactly the characters of `chars`.
pub fn string_of(chars: &[char]) -> (s: String)
    ensures
        s@ == chars@,
{
    let mut s = String::new();
    let mut i: usize = 0;
    while i < chars.len()
        invariant
            i <= chars.len(),
            s@ == chars@.take(i as int),
        decreases chars.len() - i,
    {
        s.push(chars[i]);
        i += 1;
    }
    s
}

/// Whether `c` is white space: the code points that Unicode gives the
/// `White_Space` property.
pub open spec fn is_space(c: char) -> bool {
    let n = c as u32;
    ||| 0x09 <= n <= 0x0D
    ||| n == 0x20
    ||| n == 0x85
    ||| n == 0xA0
    ||| n == 0x1680
    ||| 0x2000 <= n <= 0x200A
    ||| n == 0x2028
    ||| n == 0x2029
    ||| n == 0x202F
    ||| n == 0x205F
    ||| n == 0x3000
}

/// Executable form of [`is_space`].
pub fn is_space_char(c: char) -> (b: bool)
    ensures
        b == is_space(c),
{
    let n: u32 = c as u32;
    (0x09 <= n && n <= 0x0D) || n == 0x20 || n == 0x85 || n == 0xA0 || n == 0x1680 || (0x2000 <= n
        && n <= 0x200A) || n == 0x2028 || n == 0x2029 || n == 0x202F || n == 0x205F || n == 0x3000
}

/// How many white-space characters `s` starts with.
pub open spec fn leading_spaces(s: Seq<char>) -> nat
    decreases s.len(),
{
    if s.len() > 0 && is_space(s[0]) {
        1 + leading_spaces(s.drop_first())
    } else {
        0
    }
}

/// How many white-space characters `s` ends with.
pub open spec fn trailing_spaces(s: Seq<char>) -> nat
    decreases s.len(),
{
    if s.len() > 0 && is_space(s.last()) {
        1 + trailing_spaces(s.drop_last())
    } else {
        0
    }
}

/// `s` without its leading and trailing white space.
pub open spec fn trim(s: Seq<char>) -> Seq<char> {
    let rest = s.skip(leading_spaces(s) as int);
    rest.take(rest.len() - trailing_spaces(rest))
}

/// A run of `n` spaces followed by a non-space (or the end) is the whole
/// leading white space.
pub proof fn lemma_leading_spaces(s: Seq<char>, n: int)
    requires
        0 <= n <= s.len(),
        forall|j: int| 0 <= j < n ==> is_space(#[trigger] s[j]),
        n < s.len() ==> !is_space(s[n]),
    ensures
        leading_spaces(s) == n,
    decreases n,
{
    if n > 0 {
        lemma_leading_spaces(s.drop_first(), n - 1);
    }
}

/// A run of `n` spaces preceded by a non-space (or the start) is the whole
/// trailing white space.
pub proof fn lemma_trailing_spaces(s: Seq<char>, n: int)
    requires
        0 <= n <= s.len(),
        forall|j: int| s.len() - n <= j < s.len() ==> is_space(#[trigger] s[j]),
        n < s.len() ==> !is_space(s[s.len() - n - 1]),
    ensures
        trailing_spaces(s) == n,
    decreases n,
{
    if n > 0 {
        lemma_trailing_spaces(s.drop_last(), n - 1);
    }
}

/// The part of `chars` that is left when leading and trailing white space
/// is taken away.
pub fn trim_chars(chars: &[char]) -> (out: &[char])
    ensures
        out@ == trim(chars@),
{
    let n = chars.len();
    let mut from: usize = 0;
    while from < n && is_space_char(chars[from])
        invariant
            from <= n == chars@.len(),
            forall|j: int| 0 <= j < from ==> is_space(#[trigger] chars@[j]),
        decreases n - from,
    {
        from += 1;
    }
    let mut to: usize = n;
    while to > from && is_space_char(chars[to - 1])
        invariant
            from <= to <= n == chars@.len(),
            forall|j: int| to <= j < n ==> is_space(#[trigger] chars@[j]),
        decreases to,
    {
        to -= 1;
    }
    proof {
        lemma_leading_spaces(chars@, from as int);
        let rest = chars@.skip(from as int);
        assert forall|j: int| rest.len() - (n - to) <= j < rest.len() implies is_space(
            #[trigger] rest[j],
        ) by {
            assert(rest[j] == chars@[j + from]);
        }
        lemma_trailing_spaces(rest, n - to);
        assert(rest.take(rest.len() - (n - to)) =~= chars@.subrange(from as int, to as int));
    }
    vstd::slice::slice_subrange(chars, from, to)
}

/// The index of the first `c` in `s`, or the length of `s` if it has
/// none.
pub open spec fn first_occurrence(s: Seq<char>, c: char) -> nat
    decreases s.len(),
{
    if s.len() == 0 || s[0] == c {
        0
    } else {
        1 + first_occurrence(s.drop_first(), c)
    }
}

/// If no `c` stands before index `n`, and one stands at `n` unless `n`
/// is the end, then `n` is the first occurrence of `c`.
pub proof fn lemma_first_occurrence(s: Seq<char>, c: char, n: int)
    requires
        0 <= n <= s.len(),
        forall|j: int| 0 <= j < n ==> #[trigger] s[j] != c,
        n < s.len() ==> s[n] == c,
    ensures
        first_occurrence(s, c) == n,
    decreases n,
{
    if n > 0 {
        lemma_first_occurrence(s.drop_first(), c, n - 1);
    }
}

/// The index of the first `c` at or after `start`, or the length of
/// `chars` if there is none.
pub fn find_from(chars: &[char], start: usize, c: char) -> (end: usize)
    requires
        start <= chars@.len(),
    ensures
        start <= end <= chars@.len(),
        end - start == first_occurrence(chars@.skip(start as int), c),
{
    let n = chars.len();
    let mut end: usize = start;
    while end < n && chars[end] != c
        invariant
            start <= end <= n == chars@.len(),
            forall|j: int| start <= j < end ==> #[trigger] chars@[j] != c,
        decreases n - end,
    {
        end += 1;
    }
    proof {
        let rest = chars@.skip(start as int);
        assert forall|j: int| 0 <= j < end - start implies #[trigger] rest[j] != c by {
            assert(rest[j] == chars@[j + start]);
        }
        lemma_first_occurrence(rest, c, end - start);
    }
    end
}

/// `s` without one trailing carriage return, if it ends with one.
pub open spec fn strip_cr(s: Seq<char>) -> Seq<char> {
    if s.len() > 0 && s.last() == '\r' {
        s.drop_last()
    } else {
        s
    }
}

/// The lines of `s`. A line ends at a line feed; a carriage return right
/// before that line feed belongs to the line ending too. The last line
/// needs no line ending, and an empty remainder after the last line feed
/// is no line.
pub open spec fn split_lines(s: Seq<char>) -> Seq<Seq<char>>
    decreases s.len(),
{
    if s.len() == 0 {
        Seq::empty()
    } else {
        let n = first_occurrence(s, '\n');
        if n >= s.len() {
            seq![s]
        } else {
            seq![strip_cr(s.take(n as int))] + split_lines(s.skip(n as int + 1))
        }
    }
}

/// A line without a line feed, followed by a line feed and more text, is
/// the first line of the whole, less a carriage return at its end.
pub proof fn lemma_split_lines_first(line: Seq<char>, rest: Seq<char>)
    requires
        forall|j: int| 0 <= j < line.len() ==> line[j] != '\n',
    ensures
        split_lines(line + seq!['\n'] + rest) == seq![strip_cr(line)] + split_lines(rest),
{
    let s = line + seq!['\n'] + rest;
    lemma_first_occurrence(s, '\n', line.len() as int);
    assert(s.take(line.len() as int) =~= line);
    assert(s.skip(line.len() as int + 1) =~= rest);
}

/// The views of a vector of character vectors.
pub open spec fn views_of(lines: Seq<Vec<char>>) -> Seq<Seq<char>> {
    lines.map_values(|line: Vec<char>| line@)
}

/// Splits `chars` into its lines.
pub fn lines(chars: &[char]) -> (out: Vec<Vec<char>>)
    ensures
        views_of(out@) == split_lines(chars@),
{
    let n = chars.len();
    let mut out: Vec<Vec<char>> = Vec::new();
    let mut start: usize = 0;
    proof {
        assert(chars@.skip(0) =~= chars@);
        assert(views_of(out@) + split_lines(chars@) =~= split_lines(chars@));
    }
    while start < n
        invariant
            start <= n == chars@.len(),
            views_of(out@) + split_lines(chars@.skip(start as int)) == split_lines(chars@),
        decreases n - start,
    {
        let end = find_from(chars, start, '\n');
        let ghost rest = chars@.skip(start as int);
        let ghost before = views_of(out@);
        let stop: usize = if end < n && end > start && chars[end - 1] == '\r' {
            end - 1
        } else {
            end
        };
        let line = vstd::slice::slice_to_vec(vstd::slice::slice_subrange(chars, start, stop));
        out.push(line);
        let next: usize = if end < n {
            end + 1
        } else {
            n
        };
        proof {
            if end < n {
                assert(rest.take(end - start) =~= chars@.subrange(start as int, end as int));
                assert(line@ =~= strip_cr(rest.take(end - start)));
                assert(rest.skip(end - start + 1) =~= chars@.skip(next as int));
            } else {
                assert(line@ =~= rest);
                assert(chars@.skip(next as int) =~= Seq::<char>::empty());
            }
            assert(views_of(out@) =~= before.push(line@));
            assert(split_lines(rest) =~= seq![line@] + split_lines(chars@.skip(next as int)));
            assert(views_of(out@) + split_lines(chars@.skip(next as int)) =~= before + split_lines(
                rest,
            ));
        }
        start = next;
    }
    proof {
        assert(chars@.skip(start as int) =~= Seq::<char>::empty());
        assert(views_of(out@) + Seq::<Seq<char>>::empty() =~= views_of(out@));
    }
    out
}

/// The values that `f` gives for the items of `s`, in order, leaving out
/// the items for which it gives none.
pub open spec fn filter_map<A, B>(s: Seq<A>, f: spec_fn(A) -> Option<B>) -> Seq<B>
    decreases s.len(),
{
    if s.len() == 0 {
        Seq::empty()
    } else {
        let rest = filter_map(s.drop_last(), f);
        match f(s.last()) {
            Some(b) => rest.push(b),
            None => rest,
        }
    }
}

/// What `filter_map` gives for a sequence is what it gives for the first
/// item, followed by what it gives for the rest.
pub proof fn lemma_filter_map_first<A, B>(first: A, rest: Seq<A>, f: spec_fn(A) -> Option<B>)
    ensures
        filter_map(seq![first] + rest, f) == match f(first) {
            Some(b) => seq![b] + filter_map(rest, f),
            None => filter_map(rest, f),
        },
    decreases rest.len(),
{
    let all = seq![first] + rest;
    if rest.len() == 0 {
        assert(all.drop_last() =~= Seq::<A>::empty());
        assert(filter_map(all.drop_last(), f) =~= Seq::<B>::empty());
        match f(first) {
            Some(b) => {
                assert(Seq::<B>::empty().push(b) =~= seq![b] + filter_map(rest, f));
            },
            None => {},
        }
    } else {
        assert(all.drop_last() =~= seq![first] + rest.drop_last());
        assert(all.last() == rest.last());
        lemma_filter_map_first(first, rest.drop_last(), f);
        let inner = filter_map(rest.drop_last(), f);
        match f(first) {
            Some(b) => {
                match f(rest.last()) {
                    Some(c) => {
                        assert((seq![b] + inner).push(c) =~= seq![b] + inner.push(c));
                    },
                    None => {},
                }
            },
            None => {},
        }
    }
}

} // verus!
