//! Verified helpers for scanning and comparing text.
//!
//! Mount specs, image references and mode arguments are plain strings, so the
//! planning logic needs a few exact string operations: equality, first
//! occurrence of a separator, suffix tests, and an ASCII-case-insensitive
//! substring search used for platform detection.

use vstd::prelude::*;
use vstd::string::*;

verus! {

/// `c` occurs somewhere in `s`.
pub open spec fn has_char(s: Seq<char>, c: char) -> bool {
    exists|i: int| 0 <= i < s.len() && s[i] == c
}

/// `i` is the index of the first occurrence of `c` in `s`.
pub open spec fn first_at(s: Seq<char>, c: char, i: int) -> bool {
    &&& 0 <= i < s.len()
    &&& s[i] == c
    &&& forall|k: int| 0 <= k < i ==> s[k] != c
}

/// Index of the first occurrence of `c` in `s`; meaningful only when
/// `has_char(s, c)` holds.
pub open spec fn first_pos(s: Seq<char>, c: char) -> int {
    choose|i: int| first_at(s, c, i)
}

/// A first occurrence exists whenever the character occurs at all, and it is
/// unique, so `first_pos` itself satisfies `first_at`.
pub proof fn lemma_first_pos(s: Seq<char>, c: char)
    requires
        has_char(s, c),
    ensures
        first_at(s, c, first_pos(s, c)),
        forall|i: int| first_at(s, c, i) ==> i == first_pos(s, c),
    decreases s.len(),
{
    if s[0] == c {
        assert(first_at(s, c, 0));
    } else {
        let t = s.skip(1);
        let w = choose|i: int| 0 <= i < s.len() && s[i] == c;
        assert(t[w - 1] == c);
        lemma_first_pos(t, c);
        let j = first_pos(t, c);
        assert(s[j + 1] == t[j]);
        assert(forall|k: int| 0 < k < j + 1 ==> s[k] == t[k - 1]);
        assert(first_at(s, c, j + 1));
    }
    let p = choose|i: int| first_at(s, c, i);
    assert forall|i: int| first_at(s, c, i) implies i == p by {
        if i < p {
            assert(s[i] != c);
        } else if p < i {
            assert(s[p] != c);
        }
    }
}

/// Finds the first occurrence of `c` in `s`, if any.
pub fn find_first(s: &str, c: char) -> (r: Option<usize>)
    ensures
        match r {
            Some(i) => first_at(s@, c, i as int),
            None => !has_char(s@, c),
        },
{
    let n = s.unicode_len();
    let mut i: usize = 0;
    while i < n
        invariant
            n == s@.len(),
            0 <= i <= n,
            forall|k: int| 0 <= k < i ==> s@[k] != c,
        decreases n - i,
    {
        if s.get_char(i) == c {
            return Some(i);
        }
        i = i + 1;
    }
    None
}

/// Exact equality of two strings, decided character by character.
pub fn str_eq(a: &str, b: &str) -> (r: bool)
    ensures
        r == (a@ == b@),
{
    let n = a.unicode_len();
    let m = b.unicode_len();
    if n != m {
        assert(a@ != b@);
        return false;
    }
    let mut i: usize = 0;
    while i < n
        invariant
            n == a@.len(),
            n == b@.len(),
            0 <= i <= n,
            forall|k: int| 0 <= k < i ==> a@[k] == b@[k],
        decreases n - i,
    {
        if a.get_char(i) != b.get_char(i) {
            return false;
        }
        i = i + 1;
    }
    assert(a@ =~= b@);
    true
}

/// `suf` is a suffix of `s`.
pub open spec fn seq_ends_with(s: Seq<char>, suf: Seq<char>) -> bool {
    suf.len() <= s.len() && s.skip(s.len() - suf.len()) == suf
}

/// Decides whether `s` ends with `suf`.
pub fn str_ends_with(s: &str, suf: &str) -> (r: bool)
    ensures
        r == seq_ends_with(s@, suf@),
{
    let n = s.unicode_len();
    let m = suf.unicode_len();
    if m > n {
        return false;
    }
    let off = n - m;
    let mut j: usize = 0;
    while j < m
        invariant
            n == s@.len(),
            m == suf@.len(),
            off == n - m,
            0 <= j <= m,
            forall|k: int| 0 <= k < j ==> s@[off + k] == suf@[k],
        decreases m - j,
    {
        if s.get_char(off + j) != suf.get_char(j) {
            assert(s@.skip(off as int)[j as int] != suf@[j as int]);
            return false;
        }
        j = j + 1;
    }
    assert(s@.skip(off as int) =~= suf@);
    true
}

/// ASCII upper-case letters fold to lower case; all other characters are kept.
pub open spec fn lower_char(c: char) -> char {
    if 65 <= c as u32 && c as u32 <= 90 {
        ((c as u8) + 32) as char
    } else {
        c
    }
}

/// The character-wise ASCII lower-casing of `s`.
pub open spec fn lower_seq(s: Seq<char>) -> Seq<char> {
    s.map_values(|c: char| lower_char(c))
}

/// The characters of `s`, ASCII-lower-cased, as a vector.
pub fn lowered_chars(s: &str) -> (r: Vec<char>)
    ensures
        r@ == lower_seq(s@),
{
    let n = s.unicode_len();
    let mut out: Vec<char> = Vec::new();
    let mut i: usize = 0;
    while i < n
        invariant
            n == s@.len(),
            0 <= i <= n,
            out@ == lower_seq(s@.take(i as int)),
        decreases n - i,
    {
        let c = s.get_char(i);
        let lc: char = if 65 <= c as u32 && c as u32 <= 90 {
            ((c as u8) + 32) as char
        } else {
            c
        };
        assert(lc == lower_char(c));
        out.push(lc);
        assert(s@.take(i + 1).map_values(|x: char| lower_char(x)) =~= s@.take(i as int).map_values(
            |x: char| lower_char(x),
        ).push(lower_char(c)));
        i = i + 1;
    }
    assert(s@.take(n as int) =~= s@);
    out
}

/// The characters of `s` as a vector.
pub fn chars_of(s: &str) -> (r: Vec<char>)
    ensures
        r@ == s@,
{
    let n = s.unicode_len();
    let mut out: Vec<char> = Vec::new();
    let mut i: usize = 0;
    while i < n
        invariant
            n == s@.len(),
            0 <= i <= n,
            out@ == s@.take(i as int),
        decreases n - i,
    {
        out.push(s.get_char(i));
        assert(s@.take(i + 1) =~= s@.take(i as int).push(s@[i as int]));
        i = i + 1;
    }
    assert(s@.take(n as int) =~= s@);
    out
}

/// `n` occurs as a contiguous subsequence of `h` starting at `i`.
pub open spec fn seq_matches_at(h: Seq<char>, n: Seq<char>, i: int) -> bool {
    0 <= i && i + n.len() <= h.len() && h.subrange(i, i + n.len()) == n
}

/// `n` occurs as a contiguous subsequence of `h`.
pub open spec fn seq_contains(h: Seq<char>, n: Seq<char>) -> bool {
    exists|i: int| seq_matches_at(h, n, i)
}

/// Decides whether the character sequence `n` occurs inside `h`.
pub fn chars_contain(h: &Vec<char>, n: &Vec<char>) -> (r: bool)
    ensures
        r == seq_contains(h@, n@),
{
    if n.len() > h.len() {
        assert(forall|i: int| !seq_matches_at(h@, n@, i));
        return false;
    }
    if n.len() == 0 {
        assert(h@.subrange(0, 0) =~= n@);
        assert(seq_matches_at(h@, n@, 0));
        return true;
    }
    let last = h.len() - n.len();
    let mut i: usize = 0;
    while i <= last
        invariant
            1 <= n@.len() <= h@.len(),
            h@.len() <= usize::MAX,
            last == h@.len() - n@.len(),
            0 <= i <= last + 1,
            forall|k: int| 0 <= k < i ==> !seq_matches_at(h@, n@, k),
        decreases last + 1 - i,
    {
        let mut j: usize = 0;
        let mut hit = true;
        while j < n.len()
            invariant
                n@.len() <= h@.len(),
                h@.len() <= usize::MAX,
                0 <= i <= h@.len() - n@.len(),
                0 <= j <= n@.len(),
                hit ==> forall|m: int| 0 <= m < j ==> h@[i + m] == n@[m],
                !hit ==> !seq_matches_at(h@, n@, i as int),
            decreases n@.len() - j,
        {
            if h[i + j] != n[j] {
                proof {
                    if seq_matches_at(h@, n@, i as int) {
                        assert(h@.subrange(i as int, i + n@.len())[j as int] == n@[j as int]);
                    }
                }
                hit = false;
                j = n.len();
            } else {
                j = j + 1;
            }
        }
        if hit {
            assert(h@.subrange(i as int, i + n@.len()) =~= n@);
            assert(seq_matches_at(h@, n@, i as int));
            return true;
        }
        i = i + 1;
    }
    assert(forall|k: int| !seq_matches_at(h@, n@, k));
    false
}

/// Decides whether `needle` occurs in `haystack` once the haystack is
/// ASCII-lower-cased; the needle is taken as written.
pub fn contains_lowered(haystack: &str, needle: &str) -> (r: bool)
    ensures
        r == seq_contains(lower_seq(haystack@), needle@),
{
    let h = lowered_chars(haystack);
    let n = chars_of(needle);
    chars_contain(&h, &n)
}

} // verus!
