//! Names of the files written by encryption and decryption.
use vstd::prelude::*;
use crate::text::{
    find_char_from, find_from, lemma_find_from, lemma_find_from_at, lemma_prefix_through,
    lemma_prefix_through_agree, prefix_through, prefix_through_last,
};

verus! {

/// The suffix added to the name of an encrypted file.
pub open spec fn enc_suffix() -> Seq<char> {
    seq!['.', 'e', 'n', 'c']
}

/// Length of the directory part of a path: everything up to and including its last `/`.
pub open spec fn dir_len(p: Seq<char>) -> int {
    prefix_through(p, '/', p.len() as int)
}

/// Position of the first `.` of the final segment, or the path's length when it has none.
pub open spec fn first_dot(p: Seq<char>) -> int {
    find_from(p, '.', dir_len(p))
}

/// The path an encrypted file is written to: the source path with `.enc` appended.
pub open spec fn encrypted_path_of(p: Seq<char>) -> Seq<char> {
    p + enc_suffix()
}

/// The path a decrypted file is written to: the same directory, and as file name the first
/// two dot-separated tokens of the final segment joined by a dot. `None` when the final
/// segment has no dot, that is fewer than two tokens.
pub open spec fn decrypted_path_of(p: Seq<char>) -> Option<Seq<char>> {
    if first_dot(p) >= p.len() {
        None
    } else {
        Some(p.subrange(0, find_from(p, '.', first_dot(p) + 1)))
    }
}

/// Whether the final segment of the path holds exactly one `.`.
pub open spec fn has_single_dot_name(p: Seq<char>) -> bool {
    exists|k: int|
        dir_len(p) <= k < p.len() && p[k] == '.' && forall|j: int|
            dir_len(p) <= j < p.len() && j != k ==> p[j] != '.'
}

/// Path of the file that encrypting the file at `path` writes.
pub fn encrypted_path(path: &str) -> (r: String)
    ensures
        r@ == encrypted_path_of(path@),
{
    let suffix = ".enc";
    proof {
        reveal_strlit(".enc");
    }
    assert(suffix@ =~= enc_suffix());
    String::from_str(path).concat(suffix)
}

/// Path of the file that decrypting the file at `path` writes; `None` when its final
/// segment has no dot.
pub fn decrypted_path(path: &str) -> (r: Option<String>)
    ensures
        r is None <==> decrypted_path_of(path@) is None,
        r is Some ==> r->Some_0@ == decrypted_path_of(path@)->Some_0,
{
    let n = path.unicode_len();
    let dir = prefix_through_last(path, '/');
    proof {
        lemma_prefix_through(path@, '/', n as int);
    }
    let first = find_char_from(path, '.', dir);
    if first >= n {
        return None;
    }
    proof {
        lemma_find_from(path@, '.', dir as int);
    }
    let end = find_char_from(path, '.', first + 1);
    proof {
        lemma_find_from(path@, '.', first + 1);
    }
    Some(String::from_str(path.substring_char(0, end)))
}

/// Decrypting the name that encryption gives a file whose final segment holds exactly one
/// dot gives back the original path.
pub proof fn lemma_decrypted_path_inverts_encrypted(p: Seq<char>)
    requires
        has_single_dot_name(p),
    ensures
        decrypted_path_of(encrypted_path_of(p)) == Some(p),
{
    let q = encrypted_path_of(p);
    let n = p.len() as int;
    let k = choose|k: int|
        dir_len(p) <= k < p.len() && p[k] == '.' && forall|j: int|
            dir_len(p) <= j < p.len() && j != k ==> p[j] != '.';
    assert(q.len() == n + 4);
    assert(forall|j: int| 0 <= j < n ==> q[j] == p[j]);
    assert(q[n] == '.' && q[n + 1] == 'e' && q[n + 2] == 'n' && q[n + 3] == 'c');
    assert(prefix_through(q, '/', n + 4) == prefix_through(q, '/', n)) by {
        assert(prefix_through(q, '/', n + 4) == prefix_through(q, '/', n + 3));
        assert(prefix_through(q, '/', n + 3) == prefix_through(q, '/', n + 2));
        assert(prefix_through(q, '/', n + 2) == prefix_through(q, '/', n + 1));
        assert(prefix_through(q, '/', n + 1) == prefix_through(q, '/', n));
    }
    lemma_prefix_through_agree(p, q, '/', n);
    assert(dir_len(q) == dir_len(p));
    lemma_prefix_through(p, '/', n);
    lemma_find_from_at(q, '.', dir_len(q), k);
    assert(first_dot(q) == k);
    lemma_find_from_at(q, '.', k + 1, n);
    assert(q.subrange(0, n) =~= p);
}

} // verus!
