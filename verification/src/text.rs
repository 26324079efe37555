//! Character-level text helpers shared by the parsers: finding a separator
//! and stripping trailing separators.

use vstd::prelude::*;

verus! {

/// Index of the first occurrence of `c` in `s`, or `s.len()` if `c` does not
/// occur.
pub open spec fn find_char(s: Seq<char>, c: char) -> nat
    decreases s.len(),
{
    if s.len() == 0 {
        0
    } else if s[0] == c {
        0
    } else {
        (1 + find_char(s.drop_first(), c)) as nat
    }
}

/// `s` with every trailing `c` removed.
pub open spec fn trim_trailing(s: Seq<char>, c: char) -> Seq<char>
    decreases s.len(),
{
    if s.len() > 0 && s[s.len() - 1] == c {
        trim_trailing(s.drop_last(), c)
    } else {
        s
    }
}

/// `find_char` points at the first occurrence: everything before it differs
/// from `c`, and it lands on `c` unless `c` is absent.
pub proof fn lemma_find_char_bounds(s: Seq<char>, c: char)
    ensures
        find_char(s, c) <= s.len(),
        find_char(s, c) < s.len() ==> s[find_char(s, c) as int] == c,
        forall|m: int| 0 <= m < find_char(s, c) ==> s[m] != c,
    decreases s.len(),
{
    if s.len() == 0 {
    } else if s[0] == c {
    } else {
        lemma_find_char_bounds(s.drop_first(), c);
        assert forall|m: int| 0 <= m < find_char(s, c) implies s[m] != c by {
            if m > 0 {
                assert(s.drop_first()[m - 1] != c);
            }
        }
    }
}

/// Any index with the first-occurrence property is `find_char`.
pub proof fn lemma_find_char_is(s: Seq<char>, c: char, k: int)
    requires
        0 <= k <= s.len(),
        forall|m: int| 0 <= m < k ==> s[m] != c,
        k < s.len() ==> s[k] == c,
    ensures
        find_char(s, c) == k,
    decreases s.len(),
{
    if s.len() == 0 {
    } else if s[0] == c {
        assert(k == 0);
    } else {
        assert(k >= 1) by {
            if k == 0 {
                assert(s[0] == c);
            }
        }
        lemma_find_char_is(s.drop_first(), c, k - 1);
    }
}

/// If everything from `j` on is `c` and the character before `j` is not,
/// trimming trailing `c`s keeps exactly the first `j` characters.
pub proof fn lemma_trim_trailing_is(s: Seq<char>, c: char, j: int)
    requires
        0 <= j <= s.len(),
        forall|m: int| j <= m < s.len() ==> s[m] == c,
        j > 0 ==> s[j - 1] != c,
    ensures
        trim_trailing(s, c) == s.take(j),
    decreases s.len(),
{
    if j == s.len() {
        assert(trim_trailing(s, c) == s);
        assert(s.take(j) =~= s);
    } else {
        assert(s[s.len() - 1] == c);
        lemma_trim_trailing_is(s.drop_last(), c, j);
        assert(s.drop_last().take(j) =~= s.take(j));
    }
}

/// Scan `s` for the first `c` at or after position `from`.
pub fn scan_char_from(s: &str, from: usize, c: char) -> (k: usize)
    requires
        from <= s@.len(),
    ensures
        from <= k <= s@.len(),
        forall|m: int| from <= m < k ==> s@[m] != c,
        k < s@.len() ==> s@[k as int] == c,
{
    let n = s.unicode_len();
    let mut i: usize = from;
    while i < n
        invariant
            from <= i <= n,
            n == s@.len(),
            forall|m: int| from <= m < i ==> s@[m] != c,
        decreases n - i,
    {
        if s.get_char(i) == c {
            return i;
        }
        i = i + 1;
    }
    n
}

/// Scan backwards from the end of `s` to the last character at or after
/// `floor` that is not `c`; returns the cut such that `s[cut..]` is all `c`.
pub fn scan_trailing(s: &str, floor: usize, c: char) -> (j: usize)
    requires
        floor <= s@.len(),
    ensures
        floor <= j <= s@.len(),
        forall|m: int| j <= m < s@.len() ==> s@[m] == c,
        j > floor ==> s@[j - 1] != c,
{
    let n = s.unicode_len();
    let mut j: usize = n;
    while j > floor && s.get_char(j - 1) == c
        invariant
            floor <= j <= n,
            n == s@.len(),
            forall|m: int| j <= m < n ==> s@[m] == c,
        decreases j,
    {
        j = j - 1;
    }
    j
}

} // verus!
