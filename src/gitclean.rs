//! Classification of git-status lines, one manifest line at a time.
use vstd::prelude::*;
use crate::text::{find_char_from, find_from, lemma_find_from, lemma_find_from_at};

verus! {

/// What a manifest line asks for.
#[derive(Debug, Clone, Copy, PartialEq, Eq, Structural)]
pub enum GitType {
    /// A bare path: nothing to restore.
    Clean,
    /// A `<status>: <path>` line: the path is to be checked out again.
    Checkout,
    /// A line that could not be classified; the rules above leave no line in this case.
    Unstable,
}

/// A path from the manifest with its classification.
#[derive(Debug)]
pub struct GitPath {
    pub git_type: GitType,
    pub path: String,
}

/// Why a line could not be classified.
#[derive(Debug, Clone, Copy, PartialEq, Eq, Structural)]
pub enum LineError {
    Unparseable,
}

/// Unicode's White_Space property, which `str::trim` strips.
pub open spec fn is_white_space(c: char) -> bool {
    ('\u{9}' <= c && c <= '\u{d}') || c == ' ' || c == '\u{85}' || c == '\u{a0}' || c
        == '\u{1680}' || ('\u{2000}' <= c && c <= '\u{200a}') || c == '\u{2028}' || c
        == '\u{2029}' || c == '\u{202f}' || c == '\u{205f}' || c == '\u{3000}'
}

/// First position at or after `i` that holds no white space, or the length.
pub open spec fn skip_white_from(s: Seq<char>, i: int) -> int
    decreases s.len() - i,
{
    if i < 0 || i >= s.len() {
        s.len() as int
    } else if is_white_space(s[i]) {
        skip_white_from(s, i + 1)
    } else {
        i
    }
}

/// Last position at or before `j` that follows a character other than white space, or zero.
pub open spec fn skip_white_back(s: Seq<char>, j: int) -> int
    decreases j,
{
    if j <= 0 {
        0
    } else if is_white_space(s[j - 1]) {
        skip_white_back(s, j - 1)
    } else {
        j
    }
}

/// `s` without its leading and trailing white space.
pub open spec fn trimmed(s: Seq<char>) -> Seq<char> {
    let a = skip_white_from(s, 0);
    let b = skip_white_back(s, s.len() as int);
    if a < b {
        s.subrange(a, b)
    } else {
        Seq::empty()
    }
}

/// Whether `c` is white space in Unicode's sense.
fn white_space(c: char) -> (r: bool)
    ensures
        r == is_white_space(c),
{
    ('\u{9}' <= c && c <= '\u{d}') || c == ' ' || c == '\u{85}' || c == '\u{a0}' || c
        == '\u{1680}' || ('\u{2000}' <= c && c <= '\u{200a}') || c == '\u{2028}' || c
        == '\u{2029}' || c == '\u{202f}' || c == '\u{205f}' || c == '\u{3000}'
}

proof fn lemma_skip_white_back_bound(s: Seq<char>, j: int)
    ensures
        j >= 0 ==> 0 <= skip_white_back(s, j) <= j,
    decreases j,
{
    if j > 0 {
        lemma_skip_white_back_bound(s, j - 1);
    }
}

/// `s` without its leading and trailing white space, as `str::trim` gives it.
pub fn trim_white_space(s: &str) -> (r: String)
    ensures
        r@ == trimmed(s@),
{
    let n = s.unicode_len();
    let mut a: usize = 0;
    while a < n && white_space(s.get_char(a))
        invariant
            a <= n,
            n == s@.len(),
            skip_white_from(s@, a as int) == skip_white_from(s@, 0),
        decreases n - a,
    {
        a = a + 1;
    }
    let mut b: usize = n;
    while b > a && white_space(s.get_char(b - 1))
        invariant
            a <= b <= n,
            n == s@.len(),
            skip_white_back(s@, b as int) == skip_white_back(s@, n as int),
        decreases b,
    {
        b = b - 1;
    }
    proof {
        lemma_skip_white_back_bound(s@, a as int);
    }
    String::from_str(s.substring_char(a, b))
}

/// Whether the line holds a `:`, that is splits into more than one token.
pub open spec fn has_status(line: Seq<char>) -> bool {
    find_from(line, ':', 0) < line.len()
}

/// The token that carries the path: the second `:`-separated token when there are several,
/// the whole line otherwise.
pub open spec fn path_token(line: Seq<char>) -> Seq<char> {
    if has_status(line) {
        let i = find_from(line, ':', 0);
        line.subrange(i + 1, find_from(line, ':', i + 1))
    } else {
        line
    }
}

/// The classification a line receives.
pub open spec fn line_type(line: Seq<char>) -> GitType {
    if has_status(line) {
        GitType::Checkout
    } else {
        GitType::Clean
    }
}

/// The path a line names.
pub open spec fn line_path(line: Seq<char>) -> Seq<char> {
    trimmed(path_token(line))
}

/// Whether `g` is the record a line is classified as.
pub open spec fn classifies(g: GitPath, line: Seq<char>) -> bool {
    g.git_type == line_type(line) && g.path@ == line_path(line)
}

/// Classifies one manifest line. Every line is classified.
pub fn parse_line(line: &str) -> (r: Result<GitPath, LineError>)
    ensures
        r is Ok,
        classifies(r->Ok_0, line@),
{
    let n = line.unicode_len();
    let i = find_char_from(line, ':', 0);
    proof {
        lemma_find_from(line@, ':', 0);
    }
    if i < n {
        let j = find_char_from(line, ':', i + 1);
        proof {
            lemma_find_from(line@, ':', i + 1);
        }
        let token = line.substring_char(i + 1, j);
        Ok(GitPath { git_type: GitType::Checkout, path: trim_white_space(token) })
    } else {
        Ok(GitPath { git_type: GitType::Clean, path: trim_white_space(line) })
    }
}

/// The lines of `s` from position `start` on, as `str::lines` splits them: at each `\n`,
/// dropping a `\r` just before it, with no empty line after a final `\n`.
pub open spec fn lines_from(s: Seq<char>, start: int) -> Seq<Seq<char>>
    decreases s.len() - start,
{
    if start < 0 || start >= s.len() {
        Seq::empty()
    } else {
        let i = find_from(s, '\n', start);
        if i < start || i >= s.len() {
            seq![s.subrange(start, s.len() as int)]
        } else {
            let e = if i > start && s[i - 1] == '\r' {
                i - 1
            } else {
                i
            };
            seq![s.subrange(start, e)] + lines_from(s, i + 1)
        }
    }
}

/// The lines of a manifest.
pub open spec fn manifest_lines(s: Seq<char>) -> Seq<Seq<char>> {
    lines_from(s, 0)
}

/// Classifies every line of a manifest, in order.
pub fn process_manifest(content: &str) -> (r: Vec<GitPath>)
    ensures
        r.len() == manifest_lines(content@).len(),
        forall|k: int| 0 <= k < r.len() ==> classifies(#[trigger] r[k], manifest_lines(content@)[k]),
{
    let n = content.unicode_len();
    let mut records: Vec<GitPath> = Vec::new();
    let mut start: usize = 0;
    let ghost done: Seq<Seq<char>> = Seq::empty();
    while start < n
        invariant
            start <= n,
            n == content@.len(),
            done + lines_from(content@, start as int) == manifest_lines(content@),
            records.len() == done.len(),
            forall|k: int| 0 <= k < records.len() ==> classifies(#[trigger] records[k], done[k]),
        decreases n - start,
    {
        let i = find_char_from(content, '\n', start);
        proof {
            lemma_find_from(content@, '\n', start as int);
        }
        let end = if i < n && i > start && content.get_char(i - 1) == '\r' {
            i - 1
        } else {
            i
        };
        let line = content.substring_char(start, end);
        let record = match parse_line(line) {
            Ok(parsed) => parsed,
            Err(_) => GitPath { git_type: GitType::Unstable, path: String::new() },
        };
        proof {
            let rest = lines_from(content@, start as int);
            assert(rest[0] == line@);
            assert(done.push(line@) + lines_from(content@, i + 1) =~= done + rest);
            done = done.push(line@);
        }
        records.push(record);
        if i >= n {
            start = n;
        } else {
            start = i + 1;
        }
    }
    assert(done =~= manifest_lines(content@));
    records
}

/// Manifest text made of the given lines, each ended by `\n`.
pub open spec fn join_lines(lines: Seq<Seq<char>>) -> Seq<char>
    decreases lines.len(),
{
    if lines.len() == 0 {
        Seq::empty()
    } else {
        lines[0] + seq!['\n'] + join_lines(lines.drop_first())
    }
}

/// Whether a line can be written into a manifest and read back as it is: it holds no `\n`
/// and does not end with `\r`.
pub open spec fn is_plain_line(line: Seq<char>) -> bool {
    &&& forall|j: int| 0 <= j < line.len() ==> line[j] != '\n'
    &&& (line.len() > 0 ==> line.last() != '\r')
}

/// Searching behind a prefix finds what searching without it finds, shifted.
proof fn lemma_find_from_shift(pre: Seq<char>, rest: Seq<char>, c: char, k: int)
    requires
        0 <= k <= rest.len(),
    ensures
        find_from(pre + rest, c, pre.len() + k) == pre.len() + find_from(rest, c, k),
    decreases rest.len() - k,
{
    if k < rest.len() {
        assert((pre + rest)[pre.len() + k] == rest[k]);
        lemma_find_from_shift(pre, rest, c, k + 1);
    }
}

/// Splitting behind a prefix gives what splitting without it gives.
proof fn lemma_lines_from_shift(pre: Seq<char>, rest: Seq<char>, k: int)
    requires
        0 <= k <= rest.len(),
    ensures
        lines_from(pre + rest, pre.len() + k) == lines_from(rest, k),
    decreases rest.len() - k,
{
    let s = pre + rest;
    let m = pre.len() as int;
    if k < rest.len() {
        lemma_find_from_shift(pre, rest, '\n', k);
        lemma_find_from(rest, '\n', k);
        let i = find_from(rest, '\n', k);
        if i < rest.len() {
            lemma_lines_from_shift(pre, rest, i + 1);
            if i > k {
                assert(s[m + i - 1] == rest[i - 1]);
            }
            let e = if i > k && rest[i - 1] == '\r' {
                i - 1
            } else {
                i
            };
            assert(s.subrange(m + k, m + e) =~= rest.subrange(k, e));
        } else {
            assert(s.subrange(m + k, s.len() as int) =~= rest.subrange(k, rest.len() as int));
        }
    }
}

/// A plain line followed by `\n` is the first line of what it starts.
proof fn lemma_lines_prepend(line: Seq<char>, rest: Seq<char>)
    requires
        is_plain_line(line),
    ensures
        manifest_lines(line + seq!['\n'] + rest) == seq![line] + manifest_lines(rest),
{
    let pre = line + seq!['\n'];
    let s = pre + rest;
    assert(line + seq!['\n'] + rest == s);
    let n = line.len() as int;
    assert(s[n] == '\n');
    lemma_find_from_at(s, '\n', 0, n);
    lemma_lines_from_shift(pre, rest, 0);
    assert(s.subrange(0, n) =~= line);
}

/// A manifest written as plain lines, each ended by `\n`, reads back as exactly those lines
/// in the same order; with `process_manifest` it gives one record per line, in line order.
pub proof fn lemma_manifest_lines_of_joined(lines: Seq<Seq<char>>)
    requires
        forall|k: int| 0 <= k < lines.len() ==> is_plain_line(#[trigger] lines[k]),
    ensures
        manifest_lines(join_lines(lines)) == lines,
    decreases lines.len(),
{
    if lines.len() > 0 {
        let tail = lines.drop_first();
        assert forall|k: int| 0 <= k < tail.len() implies is_plain_line(#[trigger] tail[k]) by {
            assert(tail[k] == lines[k + 1]);
        }
        lemma_manifest_lines_of_joined(tail);
        lemma_lines_prepend(lines[0], join_lines(tail));
        assert(seq![lines[0]] + tail =~= lines);
    } else {
        assert(lines =~= Seq::empty());
    }
}

} // verus!
