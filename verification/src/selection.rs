//! Entry-selection policy shared by every archive backend: the
//! image-extension filter, natural name ordering, and the choice of the
//! cover entry, together with the extraction size guard.

use vstd::prelude::*;
use core::cmp::Ordering;
use crate::names::{
    eq_ignore_ascii_case, extension_start, spec_extension, suffix_eq_ignore_case,
};

verus! {

/// Ceiling on the declared uncompressed size of a single entry: 32 MiB.
/// An entry above it is rejected before any decompression is attempted,
/// so the cost of an extraction is bounded by the declared size.
pub const MAX_ENTRY_SIZE: u64 = 33554432;

/// True when `e` is one of the supported image extensions, compared
/// without regard to ASCII case.
pub open spec fn is_image_extension(e: Seq<char>) -> bool {
    ||| eq_ignore_ascii_case(e, "bmp"@)
    ||| eq_ignore_ascii_case(e, "ico"@)
    ||| eq_ignore_ascii_case(e, "gif"@)
    ||| eq_ignore_ascii_case(e, "jpg"@)
    ||| eq_ignore_ascii_case(e, "jpe"@)
    ||| eq_ignore_ascii_case(e, "jfif"@)
    ||| eq_ignore_ascii_case(e, "jpeg"@)
    ||| eq_ignore_ascii_case(e, "png"@)
    ||| eq_ignore_ascii_case(e, "tif"@)
    ||| eq_ignore_ascii_case(e, "tiff"@)
    ||| eq_ignore_ascii_case(e, "webp"@)
    ||| eq_ignore_ascii_case(e, "avif"@)
}

/// True when the entry name carries a supported image extension.
pub open spec fn spec_is_image_name(s: Seq<char>) -> bool {
    match spec_extension(s) {
        Some(e) => is_image_extension(e),
        None => false,
    }
}

/// Checks whether `name` has one of the supported image extensions
/// (case-insensitively): `bmp, ico, gif, jpg, jpe, jfif, jpeg, png,
/// tif, tiff, webp, avif`.
pub fn is_image_file(name: &str) -> (r: bool)
    ensures
        r == spec_is_image_name(name@),
{
    match extension_start(name) {
        Some(p) => {
            ||| suffix_eq_ignore_case(name, p, "bmp")
            ||| suffix_eq_ignore_case(name, p, "ico")
            ||| suffix_eq_ignore_case(name, p, "gif")
            ||| suffix_eq_ignore_case(name, p, "jpg")
            ||| suffix_eq_ignore_case(name, p, "jpe")
            ||| suffix_eq_ignore_case(name, p, "jfif")
            ||| suffix_eq_ignore_case(name, p, "jpeg")
            ||| suffix_eq_ignore_case(name, p, "png")
            ||| suffix_eq_ignore_case(name, p, "tif")
            ||| suffix_eq_ignore_case(name, p, "tiff")
            ||| suffix_eq_ignore_case(name, p, "webp")
            ||| suffix_eq_ignore_case(name, p, "avif")
        },
        None => false,
    }
}

/// True for an ASCII decimal digit.
pub open spec fn is_digit(c: char) -> bool {
    48 <= c as u32 && c as u32 <= 57
}

/// End of the maximal digit run of `s` that starts at `i`.
pub open spec fn run_end(s: Seq<char>, i: int) -> int
    decreases s.len() - i,
{
    if i < 0 || i >= s.len() || !is_digit(s[i]) {
        i
    } else {
        run_end(s, i + 1)
    }
}

/// First index in `[i, end)` holding a character other than `'0'`, or
/// `end` when the whole range is zeros.
pub open spec fn zeros_end(s: Seq<char>, i: int, end: int) -> int
    decreases end - i,
{
    if i >= end || s[i] != '0' {
        i
    } else {
        zeros_end(s, i + 1, end)
    }
}

/// Lexicographic comparison of the equal-length ranges
/// `s1[i1..e1)` and `s2[i2..e2)`.
pub open spec fn digits_cmp(s1: Seq<char>, i1: int, e1: int, s2: Seq<char>, i2: int, e2: int) -> int
    decreases e1 - i1,
{
    if i1 >= e1 {
        0
    } else if (s1[i1] as u32) != (s2[i2] as u32) {
        if (s1[i1] as u32) < (s2[i2] as u32) {
            -1
        } else {
            1
        }
    } else {
        digits_cmp(s1, i1 + 1, e1, s2, i2 + 1, e2)
    }
}

/// Numeric comparison of the digit runs `s1[i1..e1)` and `s2[i2..e2)`:
/// leading zeros are ignored, a shorter remainder is the smaller
/// number, and equal-length remainders compare digit by digit.
pub open spec fn run_value_cmp(
    s1: Seq<char>,
    i1: int,
    e1: int,
    s2: Seq<char>,
    i2: int,
    e2: int,
) -> int {
    let z1 = zeros_end(s1, i1, e1);
    let z2 = zeros_end(s2, i2, e2);
    if e1 - z1 < e2 - z2 {
        -1
    } else if e1 - z1 > e2 - z2 {
        1
    } else {
        digits_cmp(s1, z1, e1, s2, z2, e2)
    }
}

/// Numeric-run-aware comparison of `a[i..]` and `b[j..]`: maximal digit
/// runs compare by numeric value, everything else by code point, and a
/// shared prefix is consumed in lock step.
pub open spec fn nat_cmp_at(a: Seq<char>, i: int, b: Seq<char>, j: int) -> int
    decreases a.len() - i + b.len() - j,
{
    if i < 0 || j < 0 {
        0
    } else if i >= a.len() && j >= b.len() {
        0
    } else if i >= a.len() {
        -1
    } else if j >= b.len() {
        1
    } else if is_digit(a[i]) && is_digit(b[j]) {
        let e1 = run_end(a, i);
        let e2 = run_end(b, j);
        let c = run_value_cmp(a, i, e1, b, j, e2);
        if c != 0 {
            c
        } else if i < e1 <= a.len() && j < e2 <= b.len() {
            nat_cmp_at(a, e1, b, e2)
        } else {
            0
        }
    } else if (a[i] as u32) != (b[j] as u32) {
        if (a[i] as u32) < (b[j] as u32) {
            -1
        } else {
            1
        }
    } else {
        nat_cmp_at(a, i + 1, b, j + 1)
    }
}

/// Plain code-point comparison of `a[i..]` and `b[j..]`, used as the
/// tie-break when the natural comparison calls two names equal.
pub open spec fn lex_cmp_at(a: Seq<char>, i: int, b: Seq<char>, j: int) -> int
    decreases a.len() - i,
{
    if i < 0 || j < 0 {
        0
    } else if i >= a.len() && j >= b.len() {
        0
    } else if i >= a.len() {
        -1
    } else if j >= b.len() {
        1
    } else if (a[i] as u32) != (b[j] as u32) {
        if (a[i] as u32) < (b[j] as u32) {
            -1
        } else {
            1
        }
    } else {
        lex_cmp_at(a, i + 1, b, j + 1)
    }
}

/// The natural order on entry names: numeric-run-aware comparison
/// first, with plain code-point comparison as the tie-break, so that
/// names that differ only in leading zeros still order consistently.
pub open spec fn spec_natural_cmp(a: Seq<char>, b: Seq<char>) -> int {
    let c = nat_cmp_at(a, 0, b, 0);
    if c != 0 {
        c
    } else {
        lex_cmp_at(a, 0, b, 0)
    }
}

/// The [`Ordering`] that corresponds to a signed comparison result.
pub open spec fn ord_of(c: int) -> Ordering {
    if c < 0 {
        Ordering::Less
    } else if c == 0 {
        Ordering::Equal
    } else {
        Ordering::Greater
    }
}

proof fn lemma_run_end_bounds(s: Seq<char>, i: int)
    requires
        0 <= i <= s.len(),
    ensures
        i <= run_end(s, i) <= s.len(),
    decreases s.len() - i,
{
    if i < s.len() && is_digit(s[i]) {
        lemma_run_end_bounds(s, i + 1);
    }
}

/// Exec counterpart of [`is_digit`].
fn digit(c: char) -> (r: bool)
    ensures
        r == is_digit(c),
{
    let u = c as u32;
    48 <= u && u <= 57
}

/// Scans the digit run of `s` that starts at `i`.
fn scan_run_end(s: &str, i: usize, n: usize) -> (e: usize)
    requires
        i <= n,
        n == s@.len(),
    ensures
        i <= e <= n,
        e == run_end(s@, i as int),
    decreases n - i,
{
    let mut cur: usize = i;
    loop
        invariant
            i <= cur <= n,
            n == s@.len(),
            run_end(s@, i as int) == run_end(s@, cur as int),
        decreases n - cur,
    {
        if cur == n {
            return cur;
        }
        if !digit(s.get_char(cur)) {
            return cur;
        }
        cur = cur + 1;
    }
}

/// Scans past the leading zeros of `s[i..end)`.
fn scan_zeros_end(s: &str, i: usize, end: usize) -> (z: usize)
    requires
        i <= end,
        end <= s@.len(),
    ensures
        i <= z <= end,
        z == zeros_end(s@, i as int, end as int),
    decreases end - i,
{
    let mut cur: usize = i;
    loop
        invariant
            i <= cur <= end,
            end <= s@.len(),
            zeros_end(s@, i as int, end as int) == zeros_end(s@, cur as int, end as int),
        decreases end - cur,
    {
        if cur == end {
            return cur;
        }
        if s.get_char(cur) != '0' {
            return cur;
        }
        cur = cur + 1;
    }
}

/// Natural (locale-free, numeric-run-aware) comparison of two names:
/// maximal runs of decimal digits compare by numeric value, so that
/// `page2` sorts before `page10`; everything else compares by code
/// point, and names the natural pass calls equal fall through to plain
/// code-point comparison.
pub fn natural_sort_cmp(a: &str, b: &str) -> (r: Ordering)
    ensures
        r == ord_of(spec_natural_cmp(a@, b@)),
{
    let na = a.unicode_len();
    let nb = b.unicode_len();
    let mut i: usize = 0;
    let mut j: usize = 0;
    while !(i == na && j == nb)
        invariant
            i <= na,
            j <= nb,
            na == a@.len(),
            nb == b@.len(),
            nat_cmp_at(a@, 0, b@, 0) == nat_cmp_at(a@, i as int, b@, j as int),
        decreases na - i + nb - j,
    {
        if i == na {
            return Ordering::Less;
        }
        if j == nb {
            return Ordering::Greater;
        }
        let ca = a.get_char(i);
        let cb = b.get_char(j);
        if digit(ca) && digit(cb) {
            let e1 = scan_run_end(a, i, na);
            let e2 = scan_run_end(b, j, nb);
            proof {
                assert(run_end(a@, i as int) == run_end(a@, i + 1));
                assert(run_end(b@, j as int) == run_end(b@, j + 1));
                lemma_run_end_bounds(a@, i + 1);
                lemma_run_end_bounds(b@, j + 1);
            }
            let z1 = scan_zeros_end(a, i, e1);
            let z2 = scan_zeros_end(b, j, e2);
            if e1 - z1 < e2 - z2 {
                proof {
                    assert(run_value_cmp(a@, i as int, e1 as int, b@, j as int, e2 as int) == -1);
                    assert(nat_cmp_at(a@, i as int, b@, j as int) == -1);
                }
                return Ordering::Less;
            }
            if e1 - z1 > e2 - z2 {
                proof {
                    assert(run_value_cmp(a@, i as int, e1 as int, b@, j as int, e2 as int) == 1);
                    assert(nat_cmp_at(a@, i as int, b@, j as int) == 1);
                }
                return Ordering::Greater;
            }
            let len: usize = e1 - z1;
            let mut k: usize = 0;
            while k < len
                invariant
                    k <= len,
                    len == e1 - z1,
                    len == e2 - z2,
                    i < e1 <= na,
                    j < e2 <= nb,
                    i <= z1,
                    j <= z2,
                    z1 + len == e1,
                    z2 + len == e2,
                    na == a@.len(),
                    nb == b@.len(),
                    is_digit(a@[i as int]),
                    is_digit(b@[j as int]),
                    e1 == run_end(a@, i as int),
                    e2 == run_end(b@, j as int),
                    z1 == zeros_end(a@, i as int, e1 as int),
                    z2 == zeros_end(b@, j as int, e2 as int),
                    nat_cmp_at(a@, 0, b@, 0) == nat_cmp_at(a@, i as int, b@, j as int),
                    digits_cmp(a@, z1 as int, e1 as int, b@, z2 as int, e2 as int) == digits_cmp(
                        a@,
                        z1 + k,
                        e1 as int,
                        b@,
                        z2 + k,
                        e2 as int,
                    ),
                decreases len - k,
            {
                let d1 = a.get_char(z1 + k);
                let d2 = b.get_char(z2 + k);
                if (d1 as u32) != (d2 as u32) {
                    proof {
                        let c = digits_cmp(a@, z1 + k, e1 as int, b@, z2 + k, e2 as int);
                        assert(c == -1 || c == 1);
                        assert(run_value_cmp(a@, i as int, e1 as int, b@, j as int, e2 as int)
                            == c);
                        assert(nat_cmp_at(a@, i as int, b@, j as int) == c);
                    }
                    if (d1 as u32) < (d2 as u32) {
                        return Ordering::Less;
                    }
                    return Ordering::Greater;
                }
                k = k + 1;
            }
            proof {
                assert(digits_cmp(a@, z1 + len, e1 as int, b@, z2 + len, e2 as int) == 0);
                assert(run_value_cmp(a@, i as int, e1 as int, b@, j as int, e2 as int) == 0);
                assert(nat_cmp_at(a@, i as int, b@, j as int) == nat_cmp_at(
                    a@,
                    e1 as int,
                    b@,
                    e2 as int,
                ));
            }
            i = e1;
            j = e2;
        } else if (ca as u32) != (cb as u32) {
            if (ca as u32) < (cb as u32) {
                return Ordering::Less;
            }
            return Ordering::Greater;
        } else {
            i = i + 1;
            j = j + 1;
        }
    }
    let mut k: usize = 0;
    loop
        invariant
            k <= na,
            k <= nb,
            na == a@.len(),
            nb == b@.len(),
            nat_cmp_at(a@, 0, b@, 0) == 0,
            lex_cmp_at(a@, 0, b@, 0) == lex_cmp_at(a@, k as int, b@, k as int),
        decreases na - k,
    {
        if k == na && k == nb {
            return Ordering::Equal;
        }
        if k == na {
            return Ordering::Less;
        }
        if k == nb {
            return Ordering::Greater;
        }
        let ca = a.get_char(k);
        let cb = b.get_char(k);
        if (ca as u32) != (cb as u32) {
            if (ca as u32) < (cb as u32) {
                return Ordering::Less;
            }
            return Ordering::Greater;
        }
        k = k + 1;
    }
}

/// The views of a sequence of owned strings.
pub open spec fn name_views(names: Seq<String>) -> Seq<Seq<char>> {
    names.map_values(|s: String| s@)
}

/// Index of the first entry at or after `i` whose name passes the
/// image-extension filter.
pub open spec fn first_image_index(v: Seq<Seq<char>>, i: int) -> Option<int>
    decreases v.len() - i,
{
    if i < 0 || i >= v.len() {
        None
    } else if spec_is_image_name(v[i]) {
        Some(i)
    } else {
        first_image_index(v, i + 1)
    }
}

/// The naturally smallest image name among `best` and the image names
/// of `v[i..]`; the earliest occurrence wins when names compare equal.
pub open spec fn min_image(v: Seq<Seq<char>>, i: int, best: Seq<char>) -> Seq<char>
    decreases v.len() - i,
{
    if i < 0 || i >= v.len() {
        best
    } else if spec_is_image_name(v[i]) && spec_natural_cmp(v[i], best) < 0 {
        min_image(v, i + 1, v[i])
    } else {
        min_image(v, i + 1, best)
    }
}

/// The entry that the selection policy picks from the name list `v`:
/// the first image name in listing order when `sort` is false, and the
/// naturally smallest image name when `sort` is true.
pub open spec fn spec_find_first_image(v: Seq<Seq<char>>, sort: bool) -> Option<Seq<char>> {
    match first_image_index(v, 0) {
        None => None,
        Some(k) => if sort {
            Some(min_image(v, k + 1, v[k]))
        } else {
            Some(v[k])
        },
    }
}

/// The continuation of the sorted scan: what the selection will return
/// given that entries before `i` produced the candidate `best`.
pub open spec fn sorted_scan_rest(v: Seq<Seq<char>>, i: int, best: Option<Seq<char>>) -> Option<
    Seq<char>,
> {
    match best {
        None => match first_image_index(v, i) {
            None => None,
            Some(k) => Some(min_image(v, k + 1, v[k])),
        },
        Some(bs) => Some(min_image(v, i, bs)),
    }
}

/// Picks the cover entry from a list of entry names.
///
/// With `sort` false, the first name in listing order that passes the
/// image-extension filter is returned as soon as it is seen.  With
/// `sort` true, the name that is smallest under [`natural_sort_cmp`]
/// is returned (the earliest of equal names).  `None` is returned
/// exactly when no name passes the filter.
pub fn find_first_image(names: &Vec<String>, sort: bool) -> (r: Option<String>)
    ensures
        match r {
            Some(s) => spec_find_first_image(name_views(names@), sort) == Some(s@),
            None => spec_find_first_image(name_views(names@), sort) is None,
        },
{
    let ghost v = name_views(names@);
    let n = names.len();
    if !sort {
        let mut i: usize = 0;
        while i < n
            invariant
                !sort,
                i <= n,
                n == names@.len(),
                v == name_views(names@),
                first_image_index(v, 0) == first_image_index(v, i as int),
            decreases n - i,
        {
            if is_image_file(names[i].as_str()) {
                proof {
                    assert(v[i as int] == names@[i as int]@);
                    assert(first_image_index(v, i as int) == Some(i as int));
                }
                return Some(names[i].clone());
            }
            i = i + 1;
        }
        return None;
    }
    let mut best: Option<usize> = None;
    let mut i: usize = 0;
    while i < n
        invariant
            i <= n,
            n == names@.len(),
            v == name_views(names@),
            match best {
                None => spec_find_first_image(v, true) == sorted_scan_rest(v, i as int, None),
                Some(bk) => {
                    &&& bk < i
                    &&& spec_find_first_image(v, true) == sorted_scan_rest(
                        v,
                        i as int,
                        Some(v[bk as int]),
                    )
                },
            },
        decreases n - i,
    {
        if is_image_file(names[i].as_str()) {
            match best {
                None => {
                    best = Some(i);
                },
                Some(bk) => {
                    let ord = natural_sort_cmp(names[i].as_str(), names[bk].as_str());
                    match ord {
                        Ordering::Less => {
                            best = Some(i);
                        },
                        _ => {},
                    }
                },
            }
        }
        i = i + 1;
    }
    match best {
        None => None,
        Some(bk) => Some(names[bk].clone()),
    }
}

/// Number of names among the first `i` of `v` that pass the image
/// filter.
pub open spec fn count_images_prefix(v: Seq<Seq<char>>, i: int) -> int
    decreases i,
{
    if i <= 0 {
        0
    } else {
        count_images_prefix(v, i - 1) + if spec_is_image_name(v[i - 1]) {
            1int
        } else {
            0int
        }
    }
}

/// Number of names in `v` that pass the image filter.
pub open spec fn count_images(v: Seq<Seq<char>>) -> int {
    count_images_prefix(v, v.len() as int)
}

proof fn lemma_count_images_prefix_bounds(v: Seq<Seq<char>>, i: int)
    requires
        0 <= i,
    ensures
        0 <= count_images_prefix(v, i) <= i,
    decreases i,
{
    if i > 0 {
        lemma_count_images_prefix_bounds(v, i - 1);
    }
}

/// Counts the entry names that pass the image-extension filter.
pub fn count_image_names(names: &Vec<String>) -> (c: usize)
    ensures
        c == count_images(name_views(names@)),
{
    let ghost v = name_views(names@);
    let n = names.len();
    let mut c: usize = 0;
    let mut i: usize = 0;
    while i < n
        invariant
            i <= n,
            n == names@.len(),
            v == name_views(names@),
            c == count_images_prefix(v, i as int),
            c <= i,
        decreases n - i,
    {
        proof {
            lemma_count_images_prefix_bounds(v, i as int);
            assert(v[i as int] == names@[i as int]@);
        }
        if is_image_file(names[i].as_str()) {
            c = c + 1;
        }
        i = i + 1;
    }
    c
}

proof fn lemma_min_image_is_image(v: Seq<Seq<char>>, i: int, best: Seq<char>)
    requires
        spec_is_image_name(best),
    ensures
        spec_is_image_name(min_image(v, i, best)),
    decreases v.len() - i,
{
    if 0 <= i < v.len() {
        if spec_is_image_name(v[i]) && spec_natural_cmp(v[i], best) < 0 {
            lemma_min_image_is_image(v, i + 1, v[i]);
        } else {
            lemma_min_image_is_image(v, i + 1, best);
        }
    }
}

/// Whatever the mode, the name that the selection policy picks always
/// passes the image filter.
pub proof fn lemma_selection_is_image(v: Seq<Seq<char>>, sort: bool)
    ensures
        spec_find_first_image(v, sort) matches Some(nm) ==> spec_is_image_name(nm),
{
    lemma_first_image_index_props(v, 0);
    match first_image_index(v, 0) {
        None => {},
        Some(k) => {
            if sort {
                lemma_min_image_is_image(v, k + 1, v[k]);
            }
        },
    }
}

proof fn lemma_min_image_in(v: Seq<Seq<char>>, i: int, best: Seq<char>)
    ensures
        min_image(v, i, best) == best || exists|k: int|
            i <= k < v.len() && v[k] == min_image(v, i, best),
    decreases v.len() - i,
{
    if 0 <= i < v.len() {
        if spec_is_image_name(v[i]) && spec_natural_cmp(v[i], best) < 0 {
            lemma_min_image_in(v, i + 1, v[i]);
        } else {
            lemma_min_image_in(v, i + 1, best);
        }
    }
}

/// The name that the selection policy picks always occurs in the
/// list it was picked from.
pub proof fn lemma_selection_in_list(v: Seq<Seq<char>>, sort: bool)
    ensures
        spec_find_first_image(v, sort) matches Some(nm) ==> exists|k: int|
            0 <= k < v.len() && v[k] == nm,
{
    lemma_first_image_index_props(v, 0);
    match first_image_index(v, 0) {
        None => {},
        Some(k) => {
            if sort {
                lemma_min_image_in(v, k + 1, v[k]);
            }
        },
    }
}

proof fn lemma_digits_cmp_antisym(s1: Seq<char>, i1: int, e1: int, s2: Seq<char>, i2: int, e2: int)
    requires
        e1 - i1 == e2 - i2,
    ensures
        digits_cmp(s1, i1, e1, s2, i2, e2) == -digits_cmp(s2, i2, e2, s1, i1, e1),
    decreases e1 - i1,
{
    if i1 < e1 && (s1[i1] as u32) == (s2[i2] as u32) {
        lemma_digits_cmp_antisym(s1, i1 + 1, e1, s2, i2 + 1, e2);
    }
}

proof fn lemma_digits_cmp_trans(
    a: Seq<char>,
    ia: int,
    ea: int,
    b: Seq<char>,
    ib: int,
    eb: int,
    c: Seq<char>,
    ic: int,
    ec: int,
)
    requires
        ea - ia == eb - ib == ec - ic,
        digits_cmp(a, ia, ea, b, ib, eb) <= 0,
        digits_cmp(b, ib, eb, c, ic, ec) <= 0,
    ensures
        digits_cmp(a, ia, ea, c, ic, ec) <= 0,
        digits_cmp(a, ia, ea, b, ib, eb) == 0 && digits_cmp(b, ib, eb, c, ic, ec) == 0
            ==> digits_cmp(a, ia, ea, c, ic, ec) == 0,
    decreases ea - ia,
{
    if ia < ea && (a[ia] as u32) == (b[ib] as u32) && (b[ib] as u32) == (c[ic] as u32) {
        lemma_digits_cmp_trans(a, ia + 1, ea, b, ib + 1, eb, c, ic + 1, ec);
    }
}

proof fn lemma_rv_antisym(s1: Seq<char>, i1: int, e1: int, s2: Seq<char>, i2: int, e2: int)
    ensures
        run_value_cmp(s1, i1, e1, s2, i2, e2) == -run_value_cmp(s2, i2, e2, s1, i1, e1),
{
    let z1 = zeros_end(s1, i1, e1);
    let z2 = zeros_end(s2, i2, e2);
    if e1 - z1 == e2 - z2 {
        lemma_digits_cmp_antisym(s1, z1, e1, s2, z2, e2);
    }
}

proof fn lemma_rv_trans(
    a: Seq<char>,
    ia: int,
    ea: int,
    b: Seq<char>,
    ib: int,
    eb: int,
    c: Seq<char>,
    ic: int,
    ec: int,
)
    requires
        run_value_cmp(a, ia, ea, b, ib, eb) <= 0,
        run_value_cmp(b, ib, eb, c, ic, ec) <= 0,
    ensures
        run_value_cmp(a, ia, ea, c, ic, ec) <= 0,
        run_value_cmp(a, ia, ea, b, ib, eb) == 0 && run_value_cmp(b, ib, eb, c, ic, ec) == 0
            ==> run_value_cmp(a, ia, ea, c, ic, ec) == 0,
{
    let za = zeros_end(a, ia, ea);
    let zb = zeros_end(b, ib, eb);
    let zc = zeros_end(c, ic, ec);
    if ea - za == eb - zb && eb - zb == ec - zc {
        lemma_digits_cmp_trans(a, za, ea, b, zb, eb, c, zc, ec);
    }
}

proof fn lemma_lex_antisym(a: Seq<char>, i: int, b: Seq<char>, j: int)
    ensures
        lex_cmp_at(a, i, b, j) == -lex_cmp_at(b, j, a, i),
    decreases a.len() - i + b.len() - j,
{
    if 0 <= i < a.len() && 0 <= j < b.len() && (a[i] as u32) == (b[j] as u32) {
        lemma_lex_antisym(a, i + 1, b, j + 1);
    }
}

proof fn lemma_lex_trans(a: Seq<char>, i: int, b: Seq<char>, j: int, c: Seq<char>, k: int)
    requires
        0 <= i,
        0 <= j,
        0 <= k,
        lex_cmp_at(a, i, b, j) <= 0,
        lex_cmp_at(b, j, c, k) <= 0,
    ensures
        lex_cmp_at(a, i, c, k) <= 0,
    decreases a.len() - i + b.len() - j + c.len() - k,
{
    if i < a.len() && j < b.len() && k < c.len() && (a[i] as u32) == (b[j] as u32) && (b[j] as u32)
        == (c[k] as u32) {
        lemma_lex_trans(a, i + 1, b, j + 1, c, k + 1);
    }
}

proof fn lemma_nat_antisym(a: Seq<char>, i: int, b: Seq<char>, j: int)
    requires
        0 <= i <= a.len(),
        0 <= j <= b.len(),
    ensures
        nat_cmp_at(a, i, b, j) == -nat_cmp_at(b, j, a, i),
    decreases a.len() - i + b.len() - j,
{
    if i < a.len() && j < b.len() {
        if is_digit(a[i]) && is_digit(b[j]) {
            let e1 = run_end(a, i);
            let e2 = run_end(b, j);
            lemma_run_end_bounds(a, i);
            lemma_run_end_bounds(b, j);
            assert(run_end(a, i) == run_end(a, i + 1));
            assert(run_end(b, j) == run_end(b, j + 1));
            lemma_run_end_bounds(a, i + 1);
            lemma_run_end_bounds(b, j + 1);
            lemma_rv_antisym(a, i, e1, b, j, e2);
            if run_value_cmp(a, i, e1, b, j, e2) == 0 {
                lemma_nat_antisym(a, e1, b, e2);
            }
        } else if (a[i] as u32) == (b[j] as u32) {
            lemma_nat_antisym(a, i + 1, b, j + 1);
        }
    }
}

proof fn lemma_nat_le_trans(a: Seq<char>, i: int, b: Seq<char>, j: int, c: Seq<char>, k: int)
    requires
        0 <= i <= a.len(),
        0 <= j <= b.len(),
        0 <= k <= c.len(),
        nat_cmp_at(a, i, b, j) <= 0,
        nat_cmp_at(b, j, c, k) <= 0,
    ensures
        nat_cmp_at(a, i, c, k) <= 0,
    decreases a.len() - i + b.len() - j + c.len() - k,
{
    if i >= a.len() {
        // a is exhausted: the comparison with c is 0 or -1.
    } else if j >= b.len() || k >= c.len() {
        // either comparison hypothesis would be 1: vacuous.
    } else {
        let da = is_digit(a[i]);
        let db = is_digit(b[j]);
        let dc = is_digit(c[k]);
        if da && db && dc {
            let e1 = run_end(a, i);
            let e2 = run_end(b, j);
            let e3 = run_end(c, k);
            lemma_run_end_bounds(a, i);
            lemma_run_end_bounds(b, j);
            lemma_run_end_bounds(c, k);
            assert(run_end(a, i) == run_end(a, i + 1));
            assert(run_end(b, j) == run_end(b, j + 1));
            assert(run_end(c, k) == run_end(c, k + 1));
            lemma_run_end_bounds(a, i + 1);
            lemma_run_end_bounds(b, j + 1);
            lemma_run_end_bounds(c, k + 1);
            let r_ab = run_value_cmp(a, i, e1, b, j, e2);
            let r_bc = run_value_cmp(b, j, e2, c, k, e3);
            lemma_rv_trans(a, i, e1, b, j, e2, c, k, e3);
            if r_ab == 0 && r_bc == 0 {
                lemma_nat_le_trans(a, e1, b, e2, c, e3);
            } else {
                // one of the run comparisons is strict; the combined
                // one cannot be 0, or antisymmetry would force both
                // back to 0.
                if run_value_cmp(a, i, e1, c, k, e3) == 0 {
                    lemma_rv_antisym(a, i, e1, c, k, e3);
                    lemma_rv_trans(c, k, e3, a, i, e1, b, j, e2);
                    lemma_rv_antisym(b, j, e2, c, k, e3);
                    lemma_rv_antisym(a, i, e1, b, j, e2);
                    lemma_rv_trans(b, j, e2, c, k, e3, a, i, e1);
                }
            }
        } else if da && db {
            // c[k] is no digit while b[j] is, so the b-c comparison is
            // by code point and strict; a non-digit above a digit lies
            // above the whole digit range.
            assert((b[j] as u32) < (c[k] as u32));
            assert((c[k] as u32) > 57);
            assert(nat_cmp_at(a, i, c, k) == -1);
        } else if da {
            // b[j] is no digit and a[i] is, so b[j] lies above the
            // digit range; c[k] can only sit higher still.
            assert((a[i] as u32) < (b[j] as u32));
            assert((b[j] as u32) > 57);
            if dc {
                assert((c[k] as u32) <= 57);
                assert(false);
            } else {
                assert((b[j] as u32) <= (c[k] as u32));
                assert(nat_cmp_at(a, i, c, k) == -1);
            }
        } else if db {
            // a[i] is no digit below a digit, so it lies below the
            // digit range.
            assert((a[i] as u32) < (b[j] as u32));
            assert((a[i] as u32) < 48);
            if dc {
                assert(nat_cmp_at(a, i, c, k) == -1);
            } else {
                assert((b[j] as u32) < (c[k] as u32));
                assert(nat_cmp_at(a, i, c, k) == -1);
            }
        } else {
            // neither a[i] nor b[j] is a digit.
            if dc {
                assert((b[j] as u32) < (c[k] as u32));
                assert((b[j] as u32) < 48);
                assert((a[i] as u32) <= (b[j] as u32));
                assert(nat_cmp_at(a, i, c, k) == -1);
            } else {
                if (a[i] as u32) == (b[j] as u32) && (b[j] as u32) == (c[k] as u32) {
                    lemma_nat_le_trans(a, i + 1, b, j + 1, c, k + 1);
                } else {
                    assert((a[i] as u32) < (c[k] as u32));
                    assert(nat_cmp_at(a, i, c, k) == -1);
                }
            }
        }
    }
}

/// The natural order is antisymmetric: swapping the arguments negates
/// the comparison.
pub proof fn lemma_natural_cmp_antisymmetric(a: Seq<char>, b: Seq<char>)
    ensures
        spec_natural_cmp(a, b) == -spec_natural_cmp(b, a),
{
    lemma_nat_antisym(a, 0, b, 0);
    lemma_lex_antisym(a, 0, b, 0);
}

/// The natural order is transitive.
pub proof fn lemma_natural_cmp_transitive(a: Seq<char>, b: Seq<char>, c: Seq<char>)
    requires
        spec_natural_cmp(a, b) <= 0,
        spec_natural_cmp(b, c) <= 0,
    ensures
        spec_natural_cmp(a, c) <= 0,
{
    let n_ab = nat_cmp_at(a, 0, b, 0);
    let n_bc = nat_cmp_at(b, 0, c, 0);
    let n_ac = nat_cmp_at(a, 0, c, 0);
    lemma_nat_le_trans(a, 0, b, 0, c, 0);
    lemma_nat_antisym(a, 0, b, 0);
    lemma_nat_antisym(b, 0, c, 0);
    lemma_nat_antisym(a, 0, c, 0);
    if n_ac == 0 {
        // the natural passes of (a,b) and (b,c) must then both be 0:
        // otherwise chaining the reversed comparisons through
        // transitivity contradicts the strict one.
        if n_ab < 0 {
            lemma_nat_le_trans(b, 0, c, 0, a, 0);
        } else if n_bc < 0 {
            lemma_nat_le_trans(c, 0, a, 0, b, 0);
        }
        lemma_lex_trans(a, 0, b, 0, c, 0);
    } else {
        if n_ab == 0 && n_bc == 0 {
            lemma_nat_le_trans(a, 0, b, 0, c, 0);
        }
    }
}

proof fn lemma_min_image_minimal(v: Seq<Seq<char>>, i: int, best: Seq<char>)
    requires
        0 <= i,
        spec_is_image_name(best),
    ensures
        spec_natural_cmp(min_image(v, i, best), best) <= 0,
        forall|k: int|
            i <= k < v.len() && spec_is_image_name(v[k]) ==> spec_natural_cmp(
                min_image(v, i, best),
                #[trigger] v[k],
            ) <= 0,
    decreases v.len() - i,
{
    if i < 0 || i >= v.len() {
        lemma_natural_cmp_reflexive(best);
    } else {
        let m = min_image(v, i, best);
        if spec_is_image_name(v[i]) && spec_natural_cmp(v[i], best) < 0 {
            lemma_min_image_minimal(v, i + 1, v[i]);
            lemma_natural_cmp_transitive(m, v[i], best);
        } else {
            lemma_min_image_minimal(v, i + 1, best);
            if spec_is_image_name(v[i]) {
                lemma_natural_cmp_antisymmetric(v[i], best);
                lemma_natural_cmp_transitive(m, best, v[i]);
            }
        }
    }
}

/// In sorted mode the selection returns a name that compares at or
/// below every image name of the list under the natural order.
pub proof fn lemma_sorted_selection_minimal(v: Seq<Seq<char>>)
    ensures
        spec_find_first_image(v, true) matches Some(nm) ==> forall|k: int|
            0 <= k < v.len() && spec_is_image_name(v[k]) ==> spec_natural_cmp(
                nm,
                #[trigger] v[k],
            ) <= 0,
{
    lemma_first_image_index_props(v, 0);
    match first_image_index(v, 0) {
        None => {},
        Some(k0) => {
            lemma_min_image_minimal(v, k0 + 1, v[k0]);
        },
    }
}

proof fn lemma_digits_cmp_reflexive(s: Seq<char>, i: int, e: int)
    ensures
        digits_cmp(s, i, e, s, i, e) == 0,
    decreases e - i,
{
    if i < e {
        lemma_digits_cmp_reflexive(s, i + 1, e);
    }
}

proof fn lemma_lex_cmp_reflexive(s: Seq<char>, i: int)
    ensures
        lex_cmp_at(s, i, s, i) == 0,
    decreases s.len() - i,
{
    if 0 <= i < s.len() {
        lemma_lex_cmp_reflexive(s, i + 1);
    }
}

proof fn lemma_nat_cmp_reflexive(s: Seq<char>, i: int)
    requires
        0 <= i <= s.len(),
    ensures
        nat_cmp_at(s, i, s, i) == 0,
    decreases s.len() - i,
{
    if i < s.len() {
        if is_digit(s[i]) {
            let e = run_end(s, i);
            lemma_run_end_bounds(s, i);
            assert(run_end(s, i) == run_end(s, i + 1));
            lemma_run_end_bounds(s, i + 1);
            lemma_digits_cmp_reflexive(s, zeros_end(s, i, e), e);
            lemma_nat_cmp_reflexive(s, e);
        } else {
            lemma_nat_cmp_reflexive(s, i + 1);
        }
    }
}

/// The natural order is reflexive: every name compares equal to itself.
pub proof fn lemma_natural_cmp_reflexive(s: Seq<char>)
    ensures
        spec_natural_cmp(s, s) == 0,
{
    lemma_nat_cmp_reflexive(s, 0);
    lemma_lex_cmp_reflexive(s, 0);
}

proof fn lemma_nat_cmp_no_digits(a: Seq<char>, i: int, b: Seq<char>, j: int)
    requires
        0 <= i <= a.len(),
        0 <= j <= b.len(),
        forall|k: int| 0 <= k < a.len() ==> !is_digit(a[k]),
        forall|k: int| 0 <= k < b.len() ==> !is_digit(b[k]),
    ensures
        nat_cmp_at(a, i, b, j) == lex_cmp_at(a, i, b, j),
    decreases a.len() - i + b.len() - j,
{
    if i < a.len() && j < b.len() && (a[i] as u32) == (b[j] as u32) {
        lemma_nat_cmp_no_digits(a, i + 1, b, j + 1);
    }
}

/// On names without decimal digits the natural order is plain
/// code-point order.
pub proof fn lemma_natural_cmp_alphabetic(a: Seq<char>, b: Seq<char>)
    requires
        forall|k: int| 0 <= k < a.len() ==> !is_digit(a[k]),
        forall|k: int| 0 <= k < b.len() ==> !is_digit(b[k]),
    ensures
        spec_natural_cmp(a, b) == lex_cmp_at(a, 0, b, 0),
{
    lemma_nat_cmp_no_digits(a, 0, b, 0);
}

proof fn lemma_first_image_index_props(v: Seq<Seq<char>>, i: int)
    requires
        0 <= i <= v.len(),
    ensures
        match first_image_index(v, i) {
            Some(k) => i <= k < v.len() && spec_is_image_name(v[k]) && forall|l: int|
                i <= l < k ==> !spec_is_image_name(v[l]),
            None => forall|l: int| i <= l < v.len() ==> !spec_is_image_name(v[l]),
        },
    decreases v.len() - i,
{
    if i < v.len() && !spec_is_image_name(v[i]) {
        lemma_first_image_index_props(v, i + 1);
    }
}

proof fn lemma_min_image_no_later_images(v: Seq<Seq<char>>, i: int, best: Seq<char>)
    requires
        0 <= i,
        forall|l: int| i <= l < v.len() ==> !spec_is_image_name(v[l]),
    ensures
        min_image(v, i, best) == best,
    decreases v.len() - i,
{
    if i < v.len() {
        lemma_min_image_no_later_images(v, i + 1, best);
    }
}

/// When exactly one entry passes the image filter, the sorted and the
/// unsorted selection agree: both return that entry.
pub proof fn lemma_single_image_selection_agrees(v: Seq<Seq<char>>)
    requires
        forall|k: int, l: int|
            0 <= k < v.len() && 0 <= l < v.len() && spec_is_image_name(v[k])
                && spec_is_image_name(v[l]) ==> k == l,
    ensures
        spec_find_first_image(v, true) == spec_find_first_image(v, false),
{
    lemma_first_image_index_props(v, 0);
    match first_image_index(v, 0) {
        None => {},
        Some(k) => {
            assert forall|l: int| k + 1 <= l < v.len() implies !spec_is_image_name(v[l]) by {
                if spec_is_image_name(v[l]) {
                    assert(l == k);
                }
            }
            lemma_min_image_no_later_images(v, k + 1, v[k]);
        },
    }
}

} // verus!
