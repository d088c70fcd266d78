//! Character-level helpers over `&str` / `String`: substring search,
//! prefix and suffix stripping, and fixed-point decimal parsing and
//! rendering used for credit balances.

use vstd::prelude::*;
use vstd::string::*;

verus! {

/// `needle` occurs in `hay` starting at position `i`.
pub open spec fn occurs_at(hay: Seq<char>, needle: Seq<char>, i: int) -> bool {
    0 <= i && i + needle.len() <= hay.len() && hay.subrange(i, i + needle.len()) == needle
}

/// `needle` occurs somewhere in `hay`.
pub open spec fn contains_seq(hay: Seq<char>, needle: Seq<char>) -> bool {
    exists|i: int| occurs_at(hay, needle, i)
}

/// Compares `hay[i .. i + needle.len()]` with `needle`.
fn match_at(hay: &str, needle: &str, i: usize, hay_len: usize, needle_len: usize) -> (r: bool)
    requires
        hay_len == hay@.len(),
        needle_len == needle@.len(),
        i + needle_len <= hay_len,
    ensures
        r == occurs_at(hay@, needle@, i as int),
{
    let mut j: usize = 0;
    while j < needle_len
        invariant
            hay_len == hay@.len(),
            needle_len == needle@.len(),
            i + needle_len <= hay_len,
            j <= needle_len,
            forall|k: int| 0 <= k < j ==> hay@[i + k] == needle@[k],
        decreases needle_len - j,
    {
        if hay.get_char(i + j) != needle.get_char(j) {
            assert(hay@.subrange(i as int, i + needle@.len()) != needle@) by {
                assert(hay@.subrange(i as int, i + needle@.len())[j as int] != needle@[j as int]);
            }
            return false;
        }
        j = j + 1;
    }
    assert(hay@.subrange(i as int, i + needle@.len()) =~= needle@);
    true
}

/// Position of the first occurrence of `needle` in `hay`, if any.
pub fn find_seq(hay: &str, needle: &str) -> (r: Option<usize>)
    ensures
        match r {
            Some(i) => occurs_at(hay@, needle@, i as int) && forall|j: int|
                0 <= j < i ==> !occurs_at(hay@, needle@, j),
            None => !contains_seq(hay@, needle@),
        },
{
    let hay_len = hay.unicode_len();
    let needle_len = needle.unicode_len();
    if needle_len == 0 {
        assert(occurs_at(hay@, needle@, 0)) by {
            assert(hay@.subrange(0, 0) =~= needle@);
        }
        return Some(0);
    }
    if needle_len > hay_len {
        assert forall|j: int| !occurs_at(hay@, needle@, j) by {
            if occurs_at(hay@, needle@, j) {
                assert(j + needle@.len() <= hay@.len());
            }
        }
        return None;
    }
    let mut i: usize = 0;
    while i <= hay_len - needle_len
        invariant
            hay_len == hay@.len(),
            needle_len == needle@.len(),
            1 <= needle_len <= hay_len,
            i <= hay_len - needle_len + 1,
            forall|j: int| 0 <= j < i ==> !occurs_at(hay@, needle@, j),
        decreases hay_len - needle_len - i + 1,
    {
        if match_at(hay, needle, i, hay_len, needle_len) {
            return Some(i);
        }
        i = i + 1;
    }
    assert forall|j: int| !occurs_at(hay@, needle@, j) by {
        if occurs_at(hay@, needle@, j) {
            assert(j + needle@.len() <= hay@.len());
            assert(j < i);
        }
    }
    None
}

/// Whether `needle` occurs in `hay`.
pub fn contains_str(hay: &str, needle: &str) -> (r: bool)
    ensures
        r == contains_seq(hay@, needle@),
{
    match find_seq(hay, needle) {
        Some(_) => true,
        None => false,
    }
}

/// Position of the first occurrence of `needle` at or after `i`, or `None`.
pub open spec fn find_from(hay: Seq<char>, needle: Seq<char>, i: int) -> Option<int>
    decreases hay.len() - i,
{
    if i < 0 || i + needle.len() > hay.len() {
        None
    } else if needle.len() == 0 {
        Some(i)
    } else if occurs_at(hay, needle, i) {
        Some(i)
    } else {
        find_from(hay, needle, i + 1)
    }
}

/// Position of the first occurrence of `needle` in `hay`, or `None`.
pub open spec fn find_first(hay: Seq<char>, needle: Seq<char>) -> Option<int> {
    find_from(hay, needle, 0)
}

proof fn lemma_find_from_some(hay: Seq<char>, needle: Seq<char>, k: int, i: int)
    requires
        k <= i,
        occurs_at(hay, needle, i),
        forall|j: int| k <= j < i ==> !occurs_at(hay, needle, j),
        0 <= k,
    ensures
        find_from(hay, needle, k) == Some(i),
    decreases i - k,
{
    if needle.len() == 0 && k + needle.len() <= hay.len() {
        assert(hay.subrange(k, k) =~= needle);
        assert(occurs_at(hay, needle, k));
    }
    if k == i {
    } else {
        lemma_find_from_some(hay, needle, k + 1, i);
    }
}

proof fn lemma_find_from_none(hay: Seq<char>, needle: Seq<char>, k: int)
    requires
        0 <= k,
        forall|j: int| k <= j ==> !occurs_at(hay, needle, j),
    ensures
        find_from(hay, needle, k) == None::<int>,
    decreases hay.len() - k,
{
    if k + needle.len() > hay.len() {
    } else {
        if needle.len() == 0 {
            assert(hay.subrange(k, k) =~= needle);
            assert(occurs_at(hay, needle, k));
        }
        lemma_find_from_none(hay, needle, k + 1);
    }
}

/// What `find_first` returning `Some(i)` or `None` means for `hay`.
pub proof fn lemma_find_first_props(hay: Seq<char>, needle: Seq<char>)
    ensures
        match find_first(hay, needle) {
            Some(i) => 0 <= i && i + needle.len() <= hay.len() && occurs_at(hay, needle, i)
                && forall|j: int| 0 <= j < i ==> !occurs_at(hay, needle, j),
            None => !contains_seq(hay, needle),
        },
{
    lemma_find_from_props(hay, needle, 0);
}

proof fn lemma_find_from_props(hay: Seq<char>, needle: Seq<char>, k: int)
    requires
        0 <= k,
    ensures
        match find_from(hay, needle, k) {
            Some(i) => k <= i && i + needle.len() <= hay.len() && occurs_at(hay, needle, i)
                && forall|j: int| k <= j < i ==> !occurs_at(hay, needle, j),
            None => forall|j: int| k <= j ==> !occurs_at(hay, needle, j),
        },
    decreases hay.len() - k,
{
    if k + needle.len() > hay.len() {
        assert forall|j: int| k <= j implies !occurs_at(hay, needle, j) by {
            if occurs_at(hay, needle, j) {
                assert(j + needle.len() <= hay.len());
            }
        }
    } else if needle.len() == 0 {
        assert(hay.subrange(k, k) =~= needle);
    } else if occurs_at(hay, needle, k) {
    } else {
        lemma_find_from_props(hay, needle, k + 1);
    }
}

/// The prefix of `hay` that precedes the first occurrence of `needle`
/// (all of `hay` when `needle` does not occur).
pub open spec fn prefix_before(hay: Seq<char>, needle: Seq<char>) -> Seq<char> {
    match find_first(hay, needle) {
        Some(i) => hay.take(i),
        None => hay,
    }
}

/// `find_seq`, with its result tied to the spec-level `find_first`.
pub fn find_str(hay: &str, needle: &str) -> (r: Option<usize>)
    ensures
        match r {
            Some(i) => find_first(hay@, needle@) == Some(i as int),
            None => find_first(hay@, needle@) == None::<int>,
        },
{
    let r = find_seq(hay, needle);
    proof {
        match r {
            Some(i) => lemma_find_from_some(hay@, needle@, 0, i as int),
            None => lemma_find_from_none(hay@, needle@, 0),
        }
    }
    r
}

/// Whether two string slices hold the same characters.
pub fn str_eq(a: &str, b: &str) -> (r: bool)
    ensures
        r == (a@ == b@),
{
    let a_len = a.unicode_len();
    let b_len = b.unicode_len();
    proof {
        assert(a@.subrange(0, a@.len() as int) =~= a@);
    }
    if a_len != b_len {
        return false;
    }
    match_at(a, b, 0, a_len, b_len)
}

/// `s` begins with `p`.
pub open spec fn starts_with_seq(s: Seq<char>, p: Seq<char>) -> bool {
    p.len() <= s.len() && s.take(p.len() as int) == p
}

/// `s` ends with `p`.
pub open spec fn ends_with_seq(s: Seq<char>, p: Seq<char>) -> bool {
    p.len() <= s.len() && s.skip(s.len() - p.len()) == p
}

/// `s` with every leading repetition of `p` removed.
pub open spec fn strip_prefix_all(s: Seq<char>, p: Seq<char>) -> Seq<char>
    decreases s.len(),
{
    if p.len() > 0 && starts_with_seq(s, p) {
        strip_prefix_all(s.skip(p.len() as int), p)
    } else {
        s
    }
}

/// `s` with every trailing repetition of `p` removed.
pub open spec fn strip_suffix_all(s: Seq<char>, p: Seq<char>) -> Seq<char>
    decreases s.len(),
{
    if p.len() > 0 && ends_with_seq(s, p) {
        strip_suffix_all(s.take(s.len() - p.len()), p)
    } else {
        s
    }
}

/// Whether `s` begins with `p`.
pub fn starts_with_str(s: &str, p: &str) -> (r: bool)
    ensures
        r == starts_with_seq(s@, p@),
{
    let s_len = s.unicode_len();
    let p_len = p.unicode_len();
    if p_len > s_len {
        return false;
    }
    let r = match_at(s, p, 0, s_len, p_len);
    proof {
        assert(s@.subrange(0, p@.len() as int) =~= s@.take(p@.len() as int));
    }
    r
}

/// Whether `s` ends with `p`.
pub fn ends_with_str(s: &str, p: &str) -> (r: bool)
    ensures
        r == ends_with_seq(s@, p@),
{
    let s_len = s.unicode_len();
    let p_len = p.unicode_len();
    if p_len > s_len {
        return false;
    }
    let r = match_at(s, p, s_len - p_len, s_len, p_len);
    proof {
        assert(s@.subrange(s@.len() - p@.len(), s@.len() - p@.len() + p@.len()) =~= s@.skip(
            s@.len() - p@.len(),
        ));
    }
    r
}

/// Removes every leading repetition of `p` from `s`, as
/// `str::trim_start_matches` does.
pub fn trim_start_matches_str<'a>(s: &'a str, p: &str) -> (r: &'a str)
    ensures
        r@ == strip_prefix_all(s@, p@),
{
    let p_len = p.unicode_len();
    if p_len == 0 {
        return s;
    }
    let mut cur: &'a str = s;
    loop
        invariant
            p_len == p@.len(),
            p_len > 0,
            strip_prefix_all(cur@, p@) == strip_prefix_all(s@, p@),
        decreases cur@.len(),
    {
        if !starts_with_str(cur, p) {
            return cur;
        }
        let cur_len = cur.unicode_len();
        cur = cur.substring_char(p_len, cur_len);
    }
}

/// Removes every trailing repetition of `p` from `s`, as
/// `str::trim_end_matches` does.
pub fn trim_end_matches_str<'a>(s: &'a str, p: &str) -> (r: &'a str)
    ensures
        r@ == strip_suffix_all(s@, p@),
{
    let p_len = p.unicode_len();
    if p_len == 0 {
        return s;
    }
    let mut cur: &'a str = s;
    loop
        invariant
            p_len == p@.len(),
            p_len > 0,
            strip_suffix_all(cur@, p@) == strip_suffix_all(s@, p@),
        decreases cur@.len(),
    {
        if !ends_with_str(cur, p) {
            return cur;
        }
        let cur_len = cur.unicode_len();
        cur = cur.substring_char(0, cur_len - p_len);
    }
}

} // verus!
