//! Canonical version tokens: normalizing a raw upstream tag at the
//! provider boundary. A `vX.Y.Z` pattern found in the tag becomes the
//! token; any other tag — including one that is already a full calendar
//! date — passes through verbatim.

use vstd::prelude::*;
use crate::version::is_digit;

verus! {

/// Two digits followed by a dot begin at `j`.
pub open spec fn two_digit_dot(s: Seq<char>, j: int) -> bool {
    &&& j + 2 < s.len()
    &&& is_digit(s[j])
    &&& is_digit(s[j + 1])
    &&& s[j + 2] == '.'
}

/// One digit followed by a dot begins at `j`.
pub open spec fn one_digit_dot(s: Seq<char>, j: int) -> bool {
    &&& j + 1 < s.len()
    &&& is_digit(s[j])
    &&& s[j + 1] == '.'
}

/// A one-or-two digit component followed by a dot begins at `j`.
pub open spec fn comp_ok(s: Seq<char>, j: int) -> bool {
    two_digit_dot(s, j) || one_digit_dot(s, j)
}

/// The length the matcher takes for the component at `j`: two digits when
/// two digits precede the dot, else one.
pub open spec fn comp_len(s: Seq<char>, j: int) -> int {
    if two_digit_dot(s, j) {
        2
    } else {
        1
    }
}

/// How many digits, up to three, begin at `j`.
pub open spec fn tail_digits(s: Seq<char>, j: int) -> int {
    if j + 2 < s.len() && is_digit(s[j]) && is_digit(s[j + 1]) && is_digit(s[j + 2]) {
        3
    } else if j + 1 < s.len() && is_digit(s[j]) && is_digit(s[j + 1]) {
        2
    } else if j < s.len() && is_digit(s[j]) {
        1
    } else {
        0
    }
}

/// The position of the last component of a `vX.Y.Z` pattern starting at
/// `i`, assuming the first two components matched.
pub open spec fn third_comp_at(s: Seq<char>, i: int) -> int {
    let j1 = i + 1;
    let j2 = j1 + comp_len(s, j1) + 1;
    j2 + comp_len(s, j2) + 1
}

/// A `vX.Y.Z` version pattern (one or two digit major and minor, one to
/// three digit patch) begins at `i`.
pub open spec fn tag_sem_at(s: Seq<char>, i: int) -> bool {
    &&& 0 <= i
    &&& i < s.len()
    &&& s[i] == 'v'
    &&& comp_ok(s, i + 1)
    &&& comp_ok(s, i + 1 + comp_len(s, i + 1) + 1)
    &&& tail_digits(s, third_comp_at(s, i)) >= 1
}

/// Where the pattern starting at `i` ends: the patch component takes as
/// many digits as it can, up to three.
pub open spec fn tag_sem_end(s: Seq<char>, i: int) -> int {
    let j3 = third_comp_at(s, i);
    j3 + tail_digits(s, j3)
}

/// A `vX.Y.Z` pattern occurs somewhere in the tag.
pub open spec fn has_tag_sem(s: Seq<char>) -> bool {
    exists|i: int| tag_sem_at(s, i)
}

/// `i` is the leftmost occurrence.
pub open spec fn is_first_tag_sem(s: Seq<char>, i: int) -> bool {
    tag_sem_at(s, i) && (forall|j: int| 0 <= j < i ==> !tag_sem_at(s, j))
}

/// The leftmost occurrence of the pattern.
pub open spec fn first_tag_sem(s: Seq<char>) -> int {
    choose|i: int| is_first_tag_sem(s, i)
}

/// The canonical version token of a raw tag: the leftmost `vX.Y.Z`
/// pattern when one occurs, the tag itself otherwise.
pub open spec fn normalize_spec(s: Seq<char>) -> Seq<char> {
    if has_tag_sem(s) {
        s.subrange(first_tag_sem(s), tag_sem_end(s, first_tag_sem(s)))
    } else {
        s
    }
}

pub proof fn lemma_first_tag_sem_unique(s: Seq<char>, i: int, j: int)
    requires
        is_first_tag_sem(s, i),
        is_first_tag_sem(s, j),
    ensures
        i == j,
{
}

fn char_digit(c: char) -> (r: bool)
    ensures
        r == is_digit(c),
{
    let u = c as u32;
    48 <= u && u <= 57
}

/// Decides whether a one-or-two digit component followed by a dot begins
/// at `j`, and gives its matched length.
fn check_comp(s: &str, j: usize, n: usize) -> (r: (bool, usize))
    requires
        n == s@.len(),
        j <= n,
    ensures
        r.0 == comp_ok(s@, j as int),
        r.0 ==> r.1 == comp_len(s@, j as int) && j + r.1 + 1 <= n,
{
    if n - j > 2 {
        if char_digit(s.get_char(j)) && char_digit(s.get_char(j + 1)) && s.get_char(j + 2) == '.' {
            return (true, 2);
        }
    }
    if n - j > 1 {
        if char_digit(s.get_char(j)) && s.get_char(j + 1) == '.' {
            return (true, 1);
        }
    }
    (false, 0)
}

/// Counts the digits, up to three, beginning at `j`.
fn count_tail(s: &str, j: usize, n: usize) -> (r: usize)
    requires
        n == s@.len(),
        j <= n,
    ensures
        r == tail_digits(s@, j as int),
        j + r <= n,
{
    if n - j > 2 && char_digit(s.get_char(j)) && char_digit(s.get_char(j + 1)) && char_digit(
        s.get_char(j + 2),
    ) {
        3
    } else if n - j > 1 && char_digit(s.get_char(j)) && char_digit(s.get_char(j + 1)) {
        2
    } else if j < n && char_digit(s.get_char(j)) {
        1
    } else {
        0
    }
}

/// Decides whether a `vX.Y.Z` pattern begins at `i`; gives its end.
fn check_tag_sem(s: &str, i: usize, n: usize) -> (r: (bool, usize))
    requires
        n == s@.len(),
        i < n,
    ensures
        r.0 == tag_sem_at(s@, i as int),
        r.0 ==> r.1 == tag_sem_end(s@, i as int) && i < r.1 <= n,
{
    if s.get_char(i) != 'v' {
        return (false, 0);
    }
    let (ok1, l1) = check_comp(s, i + 1, n);
    if !ok1 {
        return (false, 0);
    }
    let j2 = i + 1 + l1 + 1;
    let (ok2, l2) = check_comp(s, j2, n);
    if !ok2 {
        return (false, 0);
    }
    let j3 = j2 + l2 + 1;
    let t = count_tail(s, j3, n);
    if t == 0 {
        proof {
            assert(third_comp_at(s@, i as int) == j3 as int);
        }
        return (false, 0);
    }
    proof {
        assert(third_comp_at(s@, i as int) == j3 as int);
        assert(tag_sem_end(s@, i as int) == j3 + t);
    }
    (true, j3 + t)
}

/// Normalizes a raw upstream tag into the canonical version token: the
/// leftmost `vX.Y.Z` pattern in the tag if there is one, else the tag
/// verbatim (a tag that is already a plain calendar date needs no change).
pub fn normalize_tag(tag: &str) -> (r: String)
    ensures
        r@ == normalize_spec(tag@),
{
    let n = tag.unicode_len();
    let mut i: usize = 0;
    while i < n
        invariant
            n == tag@.len(),
            i <= n,
            forall|j: int| 0 <= j < i ==> !tag_sem_at(tag@, j),
        decreases n - i,
    {
        let (found, end) = check_tag_sem(tag, i, n);
        if found {
            proof {
                assert(is_first_tag_sem(tag@, i as int));
                assert(has_tag_sem(tag@));
                lemma_first_tag_sem_unique(tag@, first_tag_sem(tag@), i as int);
            }
            return tag.substring_char(i, end).to_owned();
        }
        i = i + 1;
    }
    proof {
        if has_tag_sem(tag@) {
            let j = choose|j: int| tag_sem_at(tag@, j);
        }
    }
    tag.to_owned()
}

} // verus!
