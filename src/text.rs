//! Character-level searches over strings, with their specifications.
use vstd::prelude::*;

verus! {

/// Index of the first `c` in `s` at or after `from`, or `s.len()` when there is none.
pub open spec fn find_from(s: Seq<char>, c: char, from: int) -> int
    decreases s.len() - from,
{
    if from < 0 || from >= s.len() {
        s.len() as int
    } else if s[from] == c {
        from
    } else {
        find_from(s, c, from + 1)
    }
}

/// Number of characters up to and including the last `c` before position `to`
/// (zero when there is none).
pub open spec fn prefix_through(s: Seq<char>, c: char, to: int) -> int
    decreases to,
{
    if to <= 0 {
        0
    } else if s[to - 1] == c {
        to
    } else {
        prefix_through(s, c, to - 1)
    }
}

/// What `find_from` returns: the first occurrence at or after `from`.
pub proof fn lemma_find_from(s: Seq<char>, c: char, from: int)
    requires
        0 <= from <= s.len(),
    ensures
        from <= find_from(s, c, from) <= s.len(),
        find_from(s, c, from) < s.len() ==> s[find_from(s, c, from)] == c,
        forall|j: int| from <= j < find_from(s, c, from) ==> s[j] != c,
    decreases s.len() - from,
{
    if from < s.len() && s[from] != c {
        lemma_find_from(s, c, from + 1);
    }
}

/// An occurrence with none before it, at or after `from`, is what `find_from` finds;
/// with no occurrence at all, `find_from` gives the length.
pub proof fn lemma_find_from_at(s: Seq<char>, c: char, from: int, k: int)
    requires
        0 <= from <= k <= s.len(),
        k < s.len() ==> s[k] == c,
        forall|j: int| from <= j < k ==> s[j] != c,
    ensures
        find_from(s, c, from) == k,
    decreases k - from,
{
    if from < k {
        lemma_find_from_at(s, c, from + 1, k);
    }
}

/// `prefix_through` only reads the characters before `to`.
pub proof fn lemma_prefix_through_agree(s: Seq<char>, t: Seq<char>, c: char, to: int)
    requires
        0 <= to <= s.len(),
        to <= t.len(),
        forall|j: int| 0 <= j < to ==> s[j] == t[j],
    ensures
        prefix_through(s, c, to) == prefix_through(t, c, to),
    decreases to,
{
    if to > 0 {
        lemma_prefix_through_agree(s, t, c, to - 1);
    }
}

/// What `prefix_through` returns: a position after which, up to `to`, no `c` stands.
pub proof fn lemma_prefix_through(s: Seq<char>, c: char, to: int)
    requires
        0 <= to <= s.len(),
    ensures
        0 <= prefix_through(s, c, to) <= to,
        prefix_through(s, c, to) > 0 ==> s[prefix_through(s, c, to) - 1] == c,
        forall|j: int| prefix_through(s, c, to) <= j < to ==> s[j] != c,
    decreases to,
{
    if to > 0 && s[to - 1] != c {
        lemma_prefix_through(s, c, to - 1);
    }
}

/// Position of the first `c` in `s` at or after `from`, or the length of `s`.
pub fn find_char_from(s: &str, c: char, from: usize) -> (r: usize)
    requires
        from <= s@.len(),
    ensures
        r == find_from(s@, c, from as int),
{
    let n = s.unicode_len();
    let mut i: usize = from;
    while i < n
        invariant
            from <= i <= n,
            n == s@.len(),
            find_from(s@, c, i as int) == find_from(s@, c, from as int),
        decreases n - i,
    {
        if s.get_char(i) == c {
            return i;
        }
        i = i + 1;
    }
    i
}

/// Number of characters of `s` up to and including its last `c` (zero when there is none).
pub fn prefix_through_last(s: &str, c: char) -> (r: usize)
    ensures
        r == prefix_through(s@, c, s@.len() as int),
{
    let n = s.unicode_len();
    let mut i: usize = n;
    while i > 0
        invariant
            i <= n,
            n == s@.len(),
            prefix_through(s@, c, i as int) == prefix_through(s@, c, n as int),
        decreases i,
    {
        if s.get_char(i - 1) == c {
            return i;
        }
        i = i - 1;
    }
    0
}

/// Whether two strings hold the same characters.
pub fn same_text(a: &str, b: &str) -> (r: bool)
    ensures
        r == (a@ == b@),
{
    let n = a.unicode_len();
    if n != b.unicode_len() {
        return false;
    }
    let mut i: usize = 0;
    while i < n
        invariant
            i <= n,
            n == a@.len(),
            n == b@.len(),
            forall|j: int| 0 <= j < i ==> a@[j] == b@[j],
        decreases n - i,
    {
        if a.get_char(i) != b.get_char(i) {
            return false;
        }
        i = i + 1;
    }
    assert(a@ =~= b@);
    true
}

} // verus!
