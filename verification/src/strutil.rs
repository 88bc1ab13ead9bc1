//! Character-wise string comparisons, verified against the character views of
//! `&str`.

use vstd::prelude::*;

verus! {

/// Whether the characters of `s` from position `from` onward are exactly the
/// characters of `pat`.
pub fn str_tail_eq(s: &str, from: usize, pat: &str) -> (r: bool)
    requires
        from <= s@.len(),
    ensures
        r == (s@.skip(from as int) == pat@),
{
    let n = s.unicode_len();
    let m = pat.unicode_len();
    if n - from != m {
        proof {
            assert(s@.skip(from as int).len() != pat@.len());
        }
        return false;
    }
    let mut i: usize = 0;
    while i < m
        invariant
            s@.len() <= usize::MAX,
            from + m <= s@.len(),
            m == pat@.len(),
            s@.len() - from == m,
            i <= m,
            forall|j: int| 0 <= j < i ==> s@[from + j] == pat@[j],
        decreases m - i,
    {
        if s.get_char(from + i) != pat.get_char(i) {
            proof {
                assert(s@.skip(from as int)[i as int] != pat@[i as int]);
            }
            return false;
        }
        i = i + 1;
    }
    proof {
        assert(s@.skip(from as int) =~= pat@);
    }
    true
}

/// Whether two strings hold the same characters.
pub fn str_eq(a: &str, b: &str) -> (r: bool)
    ensures
        r == (a@ == b@),
{
    let r = str_tail_eq(a, 0, b);
    proof {
        assert(a@.skip(0) =~= a@);
    }
    r
}

/// Whether `s` ends with the characters of `pat`.
pub fn str_ends_with(s: &str, pat: &str) -> (r: bool)
    ensures
        r == (s@.len() >= pat@.len() && s@.skip(s@.len() - pat@.len()) == pat@),
{
    let n = s.unicode_len();
    let m = pat.unicode_len();
    if m > n {
        false
    } else {
        str_tail_eq(s, n - m, pat)
    }
}

} // verus!

