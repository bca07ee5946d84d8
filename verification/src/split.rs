//! Splitting a string on a literal separator, as the upstream's
//! delimiter-joined dish list requires.

use vstd::prelude::*;
use vstd::string::{StrSliceExecFns, StringExecFns};

verus! {

/// Whether `sep` occurs in `s` at position `i`.
pub open spec fn match_at(s: Seq<char>, sep: Seq<char>, i: int) -> bool {
    &&& 0 <= i
    &&& i + sep.len() <= s.len()
    &&& s.subrange(i, i + sep.len()) == sep
}

/// The first position at or after `from` where `sep` occurs in `s`, or -1
/// when there is none.
pub open spec fn first_match_from(s: Seq<char>, sep: Seq<char>, from: int) -> int
    decreases s.len() - from + 1,
{
    if from < 0 || from + sep.len() > s.len() {
        -1
    } else if match_at(s, sep, from) {
        from
    } else {
        first_match_from(s, sep, from + 1)
    }
}

/// The pieces of `s` between the non-overlapping occurrences of `sep`,
/// leftmost occurrence first, as `str::split` yields them for a non-empty
/// literal separator.
pub open spec fn split_spec(s: Seq<char>, sep: Seq<char>) -> Seq<Seq<char>>
    decreases s.len(),
{
    let i = first_match_from(s, sep, 0);
    if sep.len() == 0 || i < 0 {
        seq![s]
    // the guard restates what a found match means, so the recursion
    // visibly consumes at least one character
    } else if i + sep.len() <= s.len() && i >= 0 && sep.len() >= 1 {
        seq![s.subrange(0, i)] + split_spec(s.subrange(i + sep.len(), s.len() as int), sep)
    } else {
        seq![s]
    }
}

/// Whether two strings hold the same characters.
pub fn str_equal(a: &str, b: &str) -> (r: bool)
    ensures
        r == (a@ == b@),
{
    let n = a.unicode_len();
    let m = b.unicode_len();
    if n != m {
        return false;
    }
    let mut i: usize = 0;
    while i < n
        invariant
            n == a@.len(),
            n == b@.len(),
            i <= n,
            forall|k: int| 0 <= k < i ==> a@[k] == b@[k],
        decreases n - i,
    {
        if a.get_char(i) != b.get_char(i) {
            return false;
        }
        i = i + 1;
    }
    proof {
        assert(a@ =~= b@);
    }
    true
}

/// Whether `sep` occurs in `s` at position `i`, checked character by
/// character.
fn check_match(s: &str, sep: &str, i: usize) -> (r: bool)
    requires
        i + sep@.len() <= s@.len(),
    ensures
        r == match_at(s@, sep@, i as int),
{
    let n = s.unicode_len();
    let m = sep.unicode_len();
    let mut j: usize = 0;
    while j < m
        invariant
            j <= m,
            m == sep@.len(),
            n == s@.len(),
            i + m <= n,
            forall|k: int| 0 <= k < j ==> s@[i + k] == sep@[k],
        decreases m - j,
    {
        if s.get_char(i + j) != sep.get_char(j) {
            proof {
                assert(s@.subrange(i as int, i + m) [j as int] == s@[i + j]);
            }
            return false;
        }
        j = j + 1;
    }
    proof {
        assert(s@.subrange(i as int, i + m) =~= sep@);
    }
    true
}

/// The position of the first occurrence of `sep` in `s`, if any.
fn find_sep(s: &str, sep: &str) -> (r: Option<usize>)
    requires
        sep@.len() >= 1,
    ensures
        r matches Some(i) ==> i == first_match_from(s@, sep@, 0) && match_at(s@, sep@, i as int),
        r is None ==> first_match_from(s@, sep@, 0) == -1,
{
    let n = s.unicode_len();
    let m = sep.unicode_len();
    if m > n {
        return None;
    }
    let mut i: usize = 0;
    while i <= n - m
        invariant
            n == s@.len(),
            m == sep@.len(),
            1 <= m <= n,
            i <= n,
            first_match_from(s@, sep@, 0) == first_match_from(s@, sep@, i as int),
        decreases n - i,
    {
        if check_match(s, sep, i) {
            return Some(i);
        }
        i = i + 1;
    }
    None
}

/// Splits `s` on each occurrence of `sep`, exactly as [`split_spec`]
/// describes.
pub fn split_str(s: &str, sep: &str) -> (r: Vec<String>)
    requires
        sep@.len() >= 1,
    ensures
        r@.map_values(|x: String| x@) == split_spec(s@, sep@),
    decreases s@.len(),
{
    let n = s.unicode_len();
    let m = sep.unicode_len();
    match find_sep(s, sep) {
        None => {
            let mut v: Vec<String> = Vec::new();
            v.push(s.to_owned());
            proof {
                assert(v@.map_values(|x: String| x@) =~= seq![s@]);
            }
            v
        },
        Some(i) => {
            let head = s.substring_char(0, i);
            let tail = s.substring_char(i + m, n);
            let mut v = split_str(tail, sep);
            let ghost old_view = v@.map_values(|x: String| x@);
            v.insert(0, head.to_owned());
            proof {
                assert(v@.map_values(|x: String| x@) =~= seq![head@] + old_view);
                assert(head@ == s@.subrange(0, i as int));
                assert(tail@ == s@.subrange(i + m, n as int));
            }
            v
        },
    }
}

} // verus!
