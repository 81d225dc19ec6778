//! Character-level helpers for entry names: ASCII case folding,
//! extension extraction, and case-insensitive comparison.
//!
//! Entry names come from archive listings and may contain either `/` or
//! `\` as path separators; the extension is the part of the final path
//! component after its last `.`, provided that dot is neither the first
//! character of the component nor the whole name.

use vstd::prelude::*;

verus! {

/// True for the two path separators that may occur in entry names.
pub open spec fn is_sep(c: char) -> bool {
    c == '/' || c == '\\'
}

/// ASCII lower-casing of one character; non-ASCII characters are kept.
pub open spec fn lower_char(c: char) -> char {
    if 65 <= c as u32 && c as u32 <= 90 {
        (((c as u32) + 32) as u8) as char
    } else {
        c
    }
}

/// Case-insensitive equality of two character sequences, folding ASCII
/// letters only.
pub open spec fn eq_ignore_ascii_case(a: Seq<char>, b: Seq<char>) -> bool {
    a.len() == b.len() && forall|i: int|
        0 <= i < a.len() ==> lower_char(a[i]) == lower_char(b[i])
}

/// Position of the last `.` in `s` before index `i`, provided no path
/// separator stands between it and `i`.
pub open spec fn last_dot_from(s: Seq<char>, i: int) -> Option<int>
    decreases i,
{
    if i <= 0 {
        None
    } else if s[i - 1] == '.' {
        Some(i - 1)
    } else if is_sep(s[i - 1]) {
        None
    } else {
        last_dot_from(s, i - 1)
    }
}

/// The extension of an entry name: the characters of the final path
/// component after its last dot.  A name without a dot in its final
/// component has no extension, and neither does a component that is
/// nothing but `.ext` (a leading-dot name).
pub open spec fn spec_extension(s: Seq<char>) -> Option<Seq<char>> {
    match last_dot_from(s, s.len() as int) {
        Some(d) => if d > 0 && !is_sep(s[d - 1]) {
            Some(s.skip(d + 1))
        } else {
            None
        },
        None => None,
    }
}

/// Exec counterpart of [`lower_char`].
pub fn ascii_lower(c: char) -> (r: char)
    ensures
        r == lower_char(c),
{
    let u = c as u32;
    if 65 <= u && u <= 90 {
        ((u + 32) as u8) as char
    } else {
        c
    }
}

/// Compares the suffix `s[from..]` with `lit`, folding ASCII case.
pub fn suffix_eq_ignore_case(s: &str, from: usize, lit: &str) -> (r: bool)
    requires
        from <= s@.len(),
    ensures
        r == eq_ignore_ascii_case(s@.skip(from as int), lit@),
{
    let n = s.unicode_len();
    let m = lit.unicode_len();
    if n - from != m {
        return false;
    }
    let mut k: usize = 0;
    while k < m
        invariant
            from + m == n,
            n == s@.len(),
            m == lit@.len(),
            k <= m,
            forall|i: int|
                0 <= i < k ==> lower_char(s@[from + i]) == lower_char(lit@[i]),
        decreases m - k,
    {
        let a = ascii_lower(s.get_char(from + k));
        let b = ascii_lower(lit.get_char(k));
        if a != b {
            assert(lower_char(s@.skip(from as int)[k as int]) != lower_char(lit@[k as int]));
            return false;
        }
        k = k + 1;
    }
    assert forall|i: int| 0 <= i < m implies lower_char(s@.skip(from as int)[i]) == lower_char(
        lit@[i],
    ) by {
        assert(s@.skip(from as int)[i] == s@[from + i]);
    }
    true
}

/// True when `n` occurs as a contiguous run of characters in `h`.
pub open spec fn contains_substr(h: Seq<char>, n: Seq<char>) -> bool {
    exists|i: int|
        0 <= i <= h.len() - n.len() && #[trigger] h.subrange(i, i + n.len() as int) == n
}

/// Checks whether `needle` occurs as a substring of `haystack`.
pub fn str_contains(haystack: &str, needle: &str) -> (r: bool)
    ensures
        r == contains_substr(haystack@, needle@),
{
    let nh = haystack.unicode_len();
    let nn = needle.unicode_len();
    if nn > nh {
        return false;
    }
    if nn == 0 {
        proof {
            assert(haystack@.subrange(0, 0 + needle@.len() as int) =~= needle@);
        }
        return true;
    }
    let mut i: usize = 0;
    while i <= nh - nn
        invariant
            1 <= nn <= nh,
            nh == haystack@.len(),
            nn == needle@.len(),
            i <= nh - nn + 1,
            forall|ii: int|
                0 <= ii < i ==> #[trigger] haystack@.subrange(ii, ii + nn as int) != needle@,
        decreases nh - nn - i + 1,
    {
        let mut j: usize = 0;
        let mut matched = true;
        while matched && j < nn
            invariant
                i + nn <= nh,
                nh == haystack@.len(),
                nn == needle@.len(),
                j <= nn,
                matched ==> forall|k: int| 0 <= k < j ==> haystack@[i + k] == needle@[k],
                !matched ==> haystack@.subrange(i as int, i + nn as int) != needle@,
            decreases nn - j + if matched {
                1int
            } else {
                0int
            },
        {
            if haystack.get_char(i + j) != needle.get_char(j) {
                matched = false;
                proof {
                    assert(haystack@.subrange(i as int, i + nn as int)[j as int] != needle@[
                        j as int]);
                }
            } else {
                j = j + 1;
            }
        }
        if matched {
            proof {
                assert(haystack@.subrange(i as int, i as int + needle@.len() as int) =~= needle@);
            }
            return true;
        }
        i = i + 1;
    }
    false
}

/// Finds the extension of `name`, returning the index of its first
/// character, as [`spec_extension`] describes.
pub fn extension_start(name: &str) -> (r: Option<usize>)
    ensures
        match r {
            Some(p) => {
                &&& spec_extension(name@) == Some(name@.skip(p as int))
                &&& 0 < p <= name@.len()
            },
            None => spec_extension(name@) is None,
        },
{
    let n = name.unicode_len();
    let mut i: usize = n;
    while i > 0
        invariant
            i <= n,
            n == name@.len(),
            last_dot_from(name@, n as int) == last_dot_from(name@, i as int),
        decreases i,
    {
        let c = name.get_char(i - 1);
        if c == '.' {
            if i - 1 > 0 {
                let prev = name.get_char(i - 2);
                if prev != '/' && prev != '\\' {
                    return Some(i);
                }
            }
            return None;
        }
        if c == '/' || c == '\\' {
            return None;
        }
        i = i - 1;
    }
    None
}

} // verus!
