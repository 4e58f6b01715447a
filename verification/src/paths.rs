//! Path keys for language selection.
//!
//! A path offers up to two matching keys: its filename (the component after
//! the last separator) and its extension (the part of the filename after its
//! last dot, absent when the filename has no dot past its first character).

use vstd::prelude::*;
use vstd::string::*;

verus! {

/// Index of the last occurrence of `c` in `s`, or `-1` when `c` does not occur.
pub open spec fn spec_last_index(s: Seq<char>, c: char) -> int
    decreases s.len(),
{
    if s.len() == 0 {
        -1
    } else if s[s.len() - 1] == c {
        s.len() - 1
    } else {
        spec_last_index(s.drop_last(), c)
    }
}

/// The filename key of a path: everything after the last `/`, or the whole
/// path when it holds no `/`.  The key is total: a path ending in `/` offers
/// an empty filename key, and `.` or `..` offer themselves — such degenerate
/// paths then match only a suffix equal to that exact string.
pub open spec fn spec_filename(p: Seq<char>) -> Seq<char> {
    p.subrange(spec_last_index(p, '/') + 1, p.len() as int)
}

/// The extension key of a filename: everything after the last `.`, absent
/// exactly when the filename holds no `.` at all.  A bare name such as
/// `Makefile` has none; a dotfile such as `.gitignore` offers `gitignore`.
pub open spec fn spec_extension(f: Seq<char>) -> Option<Seq<char>> {
    let i = spec_last_index(f, '.');
    if i >= 0 {
        Some(f.subrange(i + 1, f.len() as int))
    } else {
        None
    }
}

/// `spec_last_index` is pinned down by its defining properties: the character
/// stands at the index and nowhere later.
pub proof fn lemma_last_index_is(s: Seq<char>, c: char, i: int)
    requires
        0 <= i < s.len(),
        s[i] == c,
        forall|j: int| i < j < s.len() ==> s[j] != c,
    ensures
        spec_last_index(s, c) == i,
    decreases s.len(),
{
    if i == s.len() - 1 {
    } else {
        assert(s[s.len() - 1] != c);
        assert(s.drop_last()[i] == c);
        lemma_last_index_is(s.drop_last(), c, i);
    }
}

pub proof fn lemma_last_index_none(s: Seq<char>, c: char)
    requires
        forall|j: int| 0 <= j < s.len() ==> s[j] != c,
    ensures
        spec_last_index(s, c) == -1,
    decreases s.len(),
{
    if s.len() != 0 {
        lemma_last_index_none(s.drop_last(), c);
    }
}

/// Index of the last occurrence of `c` in `s`, if any.
pub fn last_index_of(s: &str, c: char) -> (r: Option<usize>)
    ensures
        match r {
            Some(i) => spec_last_index(s@, c) == i && i < s@.len(),
            None => spec_last_index(s@, c) == -1,
        },
{
    let n = s.unicode_len();
    let mut i = n;
    while i > 0
        invariant
            i <= n,
            n == s@.len(),
            forall|j: int| i <= j < n ==> s@[j] != c,
        decreases i,
    {
        i = i - 1;
        if s.get_char(i) == c {
            proof {
                lemma_last_index_is(s@, c, i as int);
            }
            return Some(i);
        }
    }
    proof {
        lemma_last_index_none(s@, c);
    }
    None
}

/// Whole-key equality of two strings.
pub fn str_eq(a: &str, b: &str) -> (r: bool)
    ensures
        r == (a@ == b@),
{
    let n = a.unicode_len();
    if n != b.unicode_len() {
        return false;
    }
    let mut i: usize = 0;
    while i < n
        invariant
            i <= n,
            n == a@.len(),
            n == b@.len(),
            forall|j: int| 0 <= j < i ==> a@[j] == b@[j],
        decreases n - i,
    {
        if a.get_char(i) != b.get_char(i) {
            return false;
        }
        i = i + 1;
    }
    proof {
        assert(a@ =~= b@);
    }
    true
}

/// The filename component of `path`.
pub fn filename_of(path: &str) -> (f: &str)
    ensures
        f@ == spec_filename(path@),
{
    let n = path.unicode_len();
    match last_index_of(path, '/') {
        Some(i) => path.substring_char(i + 1, n),
        None => {
            proof {
                assert(path@.subrange(0, path@.len() as int) =~= path@);
            }
            path
        },
    }
}

/// The extension of a filename, when it has one.
pub fn extension_of(filename: &str) -> (e: Option<&str>)
    ensures
        match e {
            Some(x) => spec_extension(filename@) == Some(x@),
            None => spec_extension(filename@) is None,
        },
{
    let n = filename.unicode_len();
    match last_index_of(filename, '.') {
        Some(i) => Some(filename.substring_char(i + 1, n)),
        None => None,
    }
}

} // verus!
