//! The version model: semantic, date-based or opaque version tokens,
//! with exact parsing and rendering specifications.

use vstd::prelude::*;

verus! {

/// A resolved package version: `Sem(major, minor, patch)`,
/// `Date(year, month, day)`, or `Unknown(raw tag)` when the tag fits
/// neither shape.
#[derive(Debug)]
pub enum Version {
    Sem(u16, u16, u16),
    Date(u16, u16, u16),
    Unknown(String),
}

/// The mathematical value of a `Version`.
pub enum VersionV {
    Sem(int, int, int),
    Date(int, int, int),
    Unknown(Seq<char>),
}

impl View for Version {
    type V = VersionV;

    open spec fn view(&self) -> VersionV {
        match self {
            Version::Sem(x, y, z) => VersionV::Sem(*x as int, *y as int, *z as int),
            Version::Date(y, m, d) => VersionV::Date(*y as int, *m as int, *d as int),
            Version::Unknown(t) => VersionV::Unknown(t@),
        }
    }
}

/// Is `c` an ASCII decimal digit?
pub open spec fn is_digit(c: char) -> bool {
    48 <= c as int && c as int <= 57
}

/// The numeric value of a digit character.
pub open spec fn digit_val(c: char) -> int {
    c as int - 48
}

/// Every character of `s` is a decimal digit.
pub open spec fn all_digits(s: Seq<char>) -> bool {
    forall|i: int| 0 <= i < s.len() ==> is_digit(#[trigger] s[i])
}

/// The numeric value of a digit string, most significant digit first.
pub open spec fn digits_val(s: Seq<char>) -> int
    decreases s.len(),
{
    if s.len() == 0 {
        0
    } else {
        digits_val(s.drop_last()) * 10 + digit_val(s.last())
    }
}

/// The digit character for a value below ten.
pub open spec fn digit_char(d: int) -> char {
    ((d + 48) as u8) as char
}

/// The decimal representation of `n`, without leading zeros.
pub open spec fn dec_rep(n: nat) -> Seq<char>
    decreases n,
{
    if n < 10 {
        seq![digit_char(n as int)]
    } else {
        dec_rep(n / 10).push(digit_char((n % 10) as int))
    }
}

/// `s` left-padded with zero characters up to width `w`.
pub open spec fn zero_pad(s: Seq<char>, w: int) -> Seq<char>
    decreases w - s.len(),
{
    if s.len() >= w {
        s
    } else {
        zero_pad(seq![digit_char(0)] + s, w)
    }
}

/// The rendered form of a version: `vX.Y.Z` for semantic versions,
/// zero-padded `YYYY-MM-DD` for dates, the raw tag otherwise.
pub open spec fn render_spec(v: VersionV) -> Seq<char> {
    match v {
        VersionV::Sem(x, y, z) => seq!['v'] + dec_rep(x as nat) + seq!['.'] + dec_rep(y as nat)
            + seq!['.'] + dec_rep(z as nat),
        VersionV::Date(y, m, d) => zero_pad(dec_rep(y as nat), 4) + seq!['-'] + zero_pad(
            dec_rep(m as nat),
            2,
        ) + seq!['-'] + zero_pad(dec_rep(d as nat), 2),
        VersionV::Unknown(t) => t,
    }
}

/// The single-character string for one decimal digit.
fn digit_str(d: u8) -> (r: &'static str)
    requires
        d < 10,
    ensures
        r@ == seq![digit_char(d as int)],
{
    proof {
        reveal_strlit("0");
        reveal_strlit("1");
        reveal_strlit("2");
        reveal_strlit("3");
        reveal_strlit("4");
        reveal_strlit("5");
        reveal_strlit("6");
        reveal_strlit("7");
        reveal_strlit("8");
        reveal_strlit("9");
    }
    match d {
        0 => "0",
        1 => "1",
        2 => "2",
        3 => "3",
        4 => "4",
        5 => "5",
        6 => "6",
        7 => "7",
        8 => "8",
        _ => "9",
    }
}

/// Renders `n` in decimal, without leading zeros.
pub fn u16_to_dec(n: u16) -> (s: String)
    ensures
        s@ == dec_rep(n as nat),
    decreases n,
{
    if n < 10 {
        digit_str(n as u8).to_owned()
    } else {
        assert(n / 10 < n) by (nonlinear_arith)
            requires
                n >= 10,
        ;
        let mut s = u16_to_dec(n / 10);
        s.append(digit_str((n % 10) as u8));
        assert(s@ == dec_rep(n as nat));
        s
    }
}

/// How many characters `dec_rep` uses for values below the usual bounds.
pub proof fn lemma_dec_rep_len(n: nat)
    ensures
        1 <= dec_rep(n).len(),
        n <= 9 ==> dec_rep(n).len() == 1,
        n <= 99 ==> dec_rep(n).len() <= 2,
        n <= 999 ==> dec_rep(n).len() <= 3,
        n <= 9999 ==> dec_rep(n).len() <= 4,
        n >= 10 ==> dec_rep(n).len() >= 2,
        n >= 100 ==> dec_rep(n).len() >= 3,
        n >= 1000 ==> dec_rep(n).len() >= 4,
        all_digits(dec_rep(n)),
    decreases n,
{
    if n >= 10 {
        lemma_dec_rep_len(n / 10);
        assert(n <= 99 ==> n / 10 <= 9) by (nonlinear_arith);
        assert(n <= 999 ==> n / 10 <= 99) by (nonlinear_arith);
        assert(n <= 9999 ==> n / 10 <= 999) by (nonlinear_arith);
        assert(n >= 100 ==> n / 10 >= 10) by (nonlinear_arith);
        assert(n >= 1000 ==> n / 10 >= 100) by (nonlinear_arith);
        let s = dec_rep(n / 10);
        let w = s.push(digit_char((n % 10) as int));
        assert(forall|i: int| 0 <= i < w.len() ==> is_digit(#[trigger] w[i])) by {
            assert(forall|i: int| 0 <= i < s.len() ==> is_digit(#[trigger] s[i]));
            assert(0 <= n % 10 < 10);
        }
    }
}

impl Clone for Version {
    fn clone(&self) -> (res: Self)
        ensures
            res@ == self@,
    {
        match self {
            Version::Sem(x, y, z) => Version::Sem(*x, *y, *z),
            Version::Date(y, m, d) => Version::Date(*y, *m, *d),
            Version::Unknown(t) => Version::Unknown(t.clone()),
        }
    }
}

/// The relative order of two versions of the same variant.
#[derive(Clone, Copy, Debug, PartialEq, Eq, Structural)]
pub enum VersionOrder {
    Less,
    Equal,
    Greater,
}

/// Lexicographic order of two numeric triples.
pub open spec fn triple_order(a1: int, a2: int, a3: int, b1: int, b2: int, b3: int) -> VersionOrder {
    if a1 < b1 {
        VersionOrder::Less
    } else if a1 > b1 {
        VersionOrder::Greater
    } else if a2 < b2 {
        VersionOrder::Less
    } else if a2 > b2 {
        VersionOrder::Greater
    } else if a3 < b3 {
        VersionOrder::Less
    } else if a3 > b3 {
        VersionOrder::Greater
    } else {
        VersionOrder::Equal
    }
}

/// Comparison is defined only within one variant: numeric triple order for
/// semantic and date versions; opaque tags compare only for equality, and
/// two distinct opaque tags have no defined order.
pub open spec fn compare_spec(a: VersionV, b: VersionV) -> Option<VersionOrder> {
    match (a, b) {
        (VersionV::Sem(a1, a2, a3), VersionV::Sem(b1, b2, b3)) => Some(
            triple_order(a1, a2, a3, b1, b2, b3),
        ),
        (VersionV::Date(a1, a2, a3), VersionV::Date(b1, b2, b3)) => Some(
            triple_order(a1, a2, a3, b1, b2, b3),
        ),
        (VersionV::Unknown(s), VersionV::Unknown(t)) => if s == t {
            Some(VersionOrder::Equal)
        } else {
            None
        },
        _ => None,
    }
}

fn cmp_u16_triple(a1: u16, a2: u16, a3: u16, b1: u16, b2: u16, b3: u16) -> (r: VersionOrder)
    ensures
        r == triple_order(a1 as int, a2 as int, a3 as int, b1 as int, b2 as int, b3 as int),
{
    if a1 < b1 {
        VersionOrder::Less
    } else if a1 > b1 {
        VersionOrder::Greater
    } else if a2 < b2 {
        VersionOrder::Less
    } else if a2 > b2 {
        VersionOrder::Greater
    } else if a3 < b3 {
        VersionOrder::Less
    } else if a3 > b3 {
        VersionOrder::Greater
    } else {
        VersionOrder::Equal
    }
}

impl Version {
    /// Do `self` and `other` denote the same version value?
    pub fn same(&self, other: &Version) -> (r: bool)
        ensures
            r == (self@ == other@),
    {
        match self {
            Version::Sem(a1, a2, a3) => match other {
                Version::Sem(b1, b2, b3) => *a1 == *b1 && *a2 == *b2 && *a3 == *b3,
                _ => false,
            },
            Version::Date(a1, a2, a3) => match other {
                Version::Date(b1, b2, b3) => *a1 == *b1 && *a2 == *b2 && *a3 == *b3,
                _ => false,
            },
            Version::Unknown(s) => match other {
                Version::Unknown(t) => *s == *t,
                _ => false,
            },
        }
    }

    /// Compares two versions; defined only within one variant (see
    /// `compare_spec`).
    pub fn compare(&self, other: &Version) -> (r: Option<VersionOrder>)
        ensures
            r == compare_spec(self@, other@),
    {
        match self {
            Version::Sem(a1, a2, a3) => match other {
                Version::Sem(b1, b2, b3) => Some(cmp_u16_triple(*a1, *a2, *a3, *b1, *b2, *b3)),
                _ => None,
            },
            Version::Date(a1, a2, a3) => match other {
                Version::Date(b1, b2, b3) => Some(cmp_u16_triple(*a1, *a2, *a3, *b1, *b2, *b3)),
                _ => None,
            },
            Version::Unknown(s) => match other {
                Version::Unknown(t) => if *s == *t {
                    Some(VersionOrder::Equal)
                } else {
                    None
                },
                _ => None,
            },
        }
    }
}

/// `digits_val` recovers the number that `dec_rep` rendered.
pub proof fn lemma_digits_val_dec_rep(n: nat)
    ensures
        digits_val(dec_rep(n)) == n,
    decreases n,
{
    if n < 10 {
        let s = dec_rep(n);
        assert(s.drop_last().len() == 0);
        assert(digits_val(s.drop_last()) == 0);
        assert(s.last() == digit_char(n as int));
        assert(digit_char(n as int) as int == n + 48);
        assert(digits_val(s) == digit_val(digit_char(n as int)));
    } else {
        lemma_digits_val_dec_rep(n / 10);
        let s = dec_rep(n / 10).push(digit_char((n % 10) as int));
        assert(s.drop_last() =~= dec_rep(n / 10));
        assert(digits_val(s) == (n / 10) * 10 + n % 10);
        assert((n / 10) * 10 + n % 10 == n) by (nonlinear_arith);
    }
}

/// Renders `n` zero-padded to at least two digits.
fn pad2(n: u16) -> (s: String)
    ensures
        s@ == zero_pad(dec_rep(n as nat), 2),
{
    proof {
        lemma_dec_rep_len(n as nat);
        reveal_strlit("0");
    }
    let d = u16_to_dec(n);
    let ghost zs = dec_rep(n as nat);
    if n < 10 {
        let mut s = String::from_str("0");
        s.append(d.as_str());
        proof {
            let z = seq![digit_char(0)];
            assert(zero_pad(zs, 2) == zero_pad(z + zs, 2));
            assert(zero_pad(z + zs, 2) == z + zs);
            assert(s@ =~= z + zs);
        }
        s
    } else {
        d
    }
}

/// Renders `n` zero-padded to at least four digits.
fn pad4(n: u16) -> (s: String)
    ensures
        s@ == zero_pad(dec_rep(n as nat), 4),
{
    proof {
        lemma_dec_rep_len(n as nat);
        reveal_strlit("000");
        reveal_strlit("00");
        reveal_strlit("0");
    }
    let d = u16_to_dec(n);
    let ghost zs = dec_rep(n as nat);
    if n < 10 {
        let mut s = String::from_str("000");
        s.append(d.as_str());
        proof {
            let z = seq![digit_char(0)];
            assert(zero_pad(zs, 4) == zero_pad(z + zs, 4));
            assert(zero_pad(z + zs, 4) == zero_pad(z + (z + zs), 4));
            assert(zero_pad(z + (z + zs), 4) == zero_pad(z + (z + (z + zs)), 4));
            assert(zero_pad(z + (z + (z + zs)), 4) == z + (z + (z + zs)));
            assert(s@ =~= z + (z + (z + zs)));
        }
        s
    } else if n < 100 {
        let mut s = String::from_str("00");
        s.append(d.as_str());
        proof {
            let z = seq![digit_char(0)];
            assert(zs.len() == 2);
            assert(zero_pad(zs, 4) == zero_pad(z + zs, 4));
            assert(zero_pad(z + zs, 4) == zero_pad(z + (z + zs), 4));
            assert(zero_pad(z + (z + zs), 4) == z + (z + zs));
            assert(s@ =~= z + (z + zs));
        }
        s
    } else if n < 1000 {
        let mut s = String::from_str("0");
        s.append(d.as_str());
        proof {
            let z = seq![digit_char(0)];
            assert(zs.len() == 3);
            assert(zero_pad(zs, 4) == zero_pad(z + zs, 4));
            assert(zero_pad(z + zs, 4) == z + zs);
            assert(s@ =~= z + zs);
        }
        s
    } else {
        proof {
            assert(zs.len() >= 4) by {
                if zs.len() <= 3 {
                    lemma_dec_rep_small(n as nat);
                }
            }
        }
        d
    }
}

/// A value whose decimal representation is short is itself small.
proof fn lemma_dec_rep_small(n: nat)
    ensures
        dec_rep(n).len() == 1 ==> n <= 9,
        dec_rep(n).len() == 2 ==> n <= 99,
        dec_rep(n).len() == 3 ==> n <= 999,
    decreases n,
{
    if n >= 10 {
        lemma_dec_rep_small(n / 10);
        lemma_dec_rep_len(n / 10);
        assert(n / 10 <= 9 ==> n <= 99) by (nonlinear_arith);
        assert(n / 10 <= 99 ==> n <= 999) by (nonlinear_arith);
    }
}

/// `pow10(n)` is ten to the `n`.
pub open spec fn pow10(n: nat) -> int
    decreases n,
{
    if n == 0 {
        1
    } else {
        10 * pow10((n - 1) as nat)
    }
}

/// A digit string of length `n` denotes a value below `pow10(n)`.
pub proof fn lemma_digits_val_bound(s: Seq<char>)
    requires
        all_digits(s),
    ensures
        0 <= digits_val(s) < pow10(s.len()),
    decreases s.len(),
{
    if s.len() > 0 {
        lemma_digits_val_bound(s.drop_last());
        let v = digits_val(s.drop_last());
        let p = pow10((s.len() - 1) as nat);
        assert(is_digit(s.last()));
        assert(v * 10 + digit_val(s.last()) < p * 10) by (nonlinear_arith)
            requires
                0 <= v < p,
                digit_val(s.last()) <= 9,
        ;
    }
}

/// `t` splits as `DIGITS{l1} '.' DIGITS{l2} '.' DIGITS{l3}` with each run one
/// or two digits long, consuming all of `t`.
pub open spec fn is_triple_split(t: Seq<char>, l1: int, l2: int, l3: int) -> bool {
    &&& 1 <= l1 <= 2
    &&& 1 <= l2 <= 2
    &&& 1 <= l3 <= 2
    &&& t.len() == l1 + 1 + l2 + 1 + l3
    &&& all_digits(t.subrange(0, l1))
    &&& t[l1] == '.'
    &&& all_digits(t.subrange(l1 + 1, l1 + 1 + l2))
    &&& t[l1 + 1 + l2] == '.'
    &&& all_digits(t.subrange(l1 + 1 + l2 + 1, t.len() as int))
}

/// `t` is exactly a bare numeric triple such as `1.22.3`.
pub open spec fn is_bare_triple(t: Seq<char>) -> bool {
    exists|l1: int, l2: int, l3: int| is_triple_split(t, l1, l2, l3)
}

/// `t` is a semantic-version suffix: a bare triple, optionally preceded by a
/// single `v`.
pub open spec fn is_sem_suffix(t: Seq<char>) -> bool {
    is_bare_triple(t) || (t.len() > 0 && t[0] == 'v' && is_bare_triple(t.skip(1)))
}

/// The digits of the triple, with an optional leading `v` removed.
pub open spec fn sem_body(t: Seq<char>) -> Seq<char> {
    if t.len() > 0 && t[0] == 'v' {
        t.skip(1)
    } else {
        t
    }
}

/// The split of a bare triple; unique when one exists.
pub open spec fn triple_split_of(t: Seq<char>) -> (int, int, int) {
    choose|l1: int, l2: int, l3: int| is_triple_split(t, l1, l2, l3)
}

/// The three numeric components of a bare triple.
pub open spec fn triple_vals(t: Seq<char>) -> (int, int, int) {
    let (l1, l2, l3) = triple_split_of(t);
    (
        digits_val(t.subrange(0, l1)),
        digits_val(t.subrange(l1 + 1, l1 + 1 + l2)),
        digits_val(t.subrange(l1 + 1 + l2 + 1, t.len() as int)),
    )
}

/// A triple has exactly one split: the dot positions are forced, because a
/// digit is never a dot.
pub proof fn lemma_triple_split_unique(
    t: Seq<char>,
    l1: int,
    l2: int,
    l3: int,
    k1: int,
    k2: int,
    k3: int,
)
    requires
        is_triple_split(t, l1, l2, l3),
        is_triple_split(t, k1, k2, k3),
    ensures
        l1 == k1,
        l2 == k2,
        l3 == k3,
{
    assert(!is_digit('.'));
    if l1 == 1 && k1 == 2 {
        assert(is_digit(t.subrange(0, 2)[1]));
        assert(t.subrange(0, 2)[1] == t[1]);
    }
    if l1 == 2 && k1 == 1 {
        assert(is_digit(t.subrange(0, 2)[1]));
        assert(t.subrange(0, 2)[1] == t[1]);
    }
    assert(l1 == k1);
    if l2 == 1 && k2 == 2 {
        assert(is_digit(t.subrange(l1 + 1, l1 + 3)[1]));
        assert(t.subrange(l1 + 1, l1 + 3)[1] == t[l1 + 2]);
    }
    if l2 == 2 && k2 == 1 {
        assert(is_digit(t.subrange(l1 + 1, l1 + 3)[1]));
        assert(t.subrange(l1 + 1, l1 + 3)[1] == t[l1 + 2]);
    }
    assert(l2 == k2);
}

/// `i` is a position of `s` whose suffix is a semantic version.
pub open spec fn sem_start_valid(s: Seq<char>, i: int) -> bool {
    0 <= i <= s.len() && is_sem_suffix(s.subrange(i, s.len() as int))
}

/// Some suffix of `s` is a semantic version.
pub open spec fn has_sem(s: Seq<char>) -> bool {
    exists|i: int| sem_start_valid(s, i)
}

/// `i` is the leftmost position whose suffix is a semantic version.
pub open spec fn is_min_sem_start(s: Seq<char>, i: int) -> bool {
    sem_start_valid(s, i) && (forall|j: int| 0 <= j < i ==> !sem_start_valid(s, j))
}

/// The leftmost semantic-version start of `s`.
pub open spec fn sem_start(s: Seq<char>) -> int {
    choose|i: int| is_min_sem_start(s, i)
}

pub proof fn lemma_min_sem_start_unique(s: Seq<char>, i: int, j: int)
    requires
        is_min_sem_start(s, i),
        is_min_sem_start(s, j),
    ensures
        i == j,
{
}

/// `s` begins with a `DDDD-DD-DD` calendar date.
pub open spec fn is_date_prefix(s: Seq<char>) -> bool {
    &&& s.len() >= 10
    &&& all_digits(s.subrange(0, 4))
    &&& s[4] == '-'
    &&& all_digits(s.subrange(5, 7))
    &&& s[7] == '-'
    &&& all_digits(s.subrange(8, 10))
}

/// What parsing a raw version string yields: the semantic triple of the
/// leftmost semantic suffix; else the leading calendar date; else the whole
/// string as an opaque tag.
pub open spec fn parse_spec(s: Seq<char>) -> VersionV {
    if has_sem(s) {
        let t = s.subrange(sem_start(s), s.len() as int);
        let (x, y, z) = triple_vals(sem_body(t));
        VersionV::Sem(x, y, z)
    } else if is_date_prefix(s) {
        VersionV::Date(
            digits_val(s.subrange(0, 4)),
            digits_val(s.subrange(5, 7)),
            digits_val(s.subrange(8, 10)),
        )
    } else {
        VersionV::Unknown(s)
    }
}

fn char_is_digit(c: char) -> (r: bool)
    ensures
        r == is_digit(c),
{
    let u = c as u32;
    48 <= u && u <= 57
}

/// Reads the number denoted by `l` digit characters starting at `a`.
fn read_num(s: &str, a: usize, l: usize) -> (x: u16)
    requires
        a + l <= s@.len(),
        a + l <= usize::MAX,
        1 <= l <= 4,
        all_digits(s@.subrange(a as int, (a + l) as int)),
    ensures
        x == digits_val(s@.subrange(a as int, (a + l) as int)),
        x < 10000,
{
    proof {
        lemma_digits_val_bound(s@.subrange(a as int, (a + l) as int));
        reveal_with_fuel(pow10, 5);
        assert(pow10(4) == 10000);
    }
    let mut x: u32 = 0;
    let mut k: usize = 0;
    while k < l
        invariant
            a + l <= s@.len(),
            a + l <= usize::MAX,
            1 <= l <= 4,
            k <= l,
            all_digits(s@.subrange(a as int, (a + l) as int)),
            x == digits_val(s@.subrange(a as int, (a + k) as int)),
            x < 10000,
        decreases l - k,
    {
        proof {
            assert(s@.subrange(a as int, (a + l) as int)[k as int] == s@[(a + k) as int]);
            let pre = s@.subrange(a as int, (a + k) as int);
            assert(all_digits(pre)) by {
                assert(forall|m: int|
                    0 <= m < pre.len() ==> pre[m] == s@.subrange(a as int, (a + l) as int)[m]);
            }
            lemma_digits_val_bound(pre);
            assert(pow10(pre.len()) <= 1000) by {
                reveal_with_fuel(pow10, 5);
            }
        }
        let c = s.get_char(a + k);
        let u = c as u32;
        proof {
            assert(is_digit(c));
            assert(u as int == c as int);
        }
        let d = u - 48;
        x = x * 10 + d;
        proof {
            let pre = s@.subrange(a as int, (a + k) as int);
            let post = s@.subrange(a as int, (a + k + 1) as int);
            assert(post.drop_last() =~= pre);
            assert(post.last() == s@[(a + k) as int]);
            let q = s@.subrange(a as int, (a + k + 1) as int);
            assert(all_digits(q)) by {
                assert(forall|m: int|
                    0 <= m < q.len() ==> q[m] == s@.subrange(a as int, (a + l) as int)[m]);
            }
            lemma_digits_val_bound(q);
            assert(pow10(q.len()) <= 10000) by {
                reveal_with_fuel(pow10, 5);
            }
        }
        k = k + 1;
    }
    proof {
        assert(s@.subrange(a as int, (a + k) as int) =~= s@.subrange(a as int, (a + l) as int));
    }
    x as u16
}

/// Decides whether `s[a..n]` is exactly a bare numeric triple.
fn check_bare_triple(s: &str, a: usize, n: usize) -> (r: bool)
    requires
        a <= n,
        n == s@.len(),
    ensures
        r == is_bare_triple(s@.subrange(a as int, n as int)),
{
    let ghost t = s@.subrange(a as int, n as int);
    proof {
        assert(!is_digit('.'));
    }
    if a >= n || !char_is_digit(s.get_char(a)) {
        proof {
            assert(!is_bare_triple(t)) by {
                if is_bare_triple(t) {
                    let (k1, k2, k3) = choose|k1: int, k2: int, k3: int|
                        is_triple_split(t, k1, k2, k3);
                    assert(is_digit(t.subrange(0, k1)[0]));
                    assert(t.subrange(0, k1)[0] == t[0]);
                    assert(t[0] == s@[a as int]);
                }
            }
        }
        return false;
    }
    if a + 1 >= n {
        proof {
            assert(!is_bare_triple(t)) by {
                if is_bare_triple(t) {
                    let (k1, k2, k3) = choose|k1: int, k2: int, k3: int|
                        is_triple_split(t, k1, k2, k3);
                }
            }
        }
        return false;
    }
    let c1 = s.get_char(a + 1);
    proof {
        assert(t[1] == s@[(a + 1) as int]);
    }
    let l1: usize;
    if c1 == '.' {
        l1 = 1;
    } else if char_is_digit(c1) {
        if a + 2 >= n || s.get_char(a + 2) != '.' {
            proof {
                assert(!is_bare_triple(t)) by {
                    if is_bare_triple(t) {
                        let (k1, k2, k3) = choose|k1: int, k2: int, k3: int|
                            is_triple_split(t, k1, k2, k3);
                        if k1 == 1 {
                            assert(t[1] == '.');
                        } else {
                            assert(t[2] == '.');
                            assert(t[2] == s@[(a + 2) as int]);
                        }
                    }
                }
            }
            return false;
        }
        l1 = 2;
    } else {
        proof {
            assert(!is_bare_triple(t)) by {
                if is_bare_triple(t) {
                    let (k1, k2, k3) = choose|k1: int, k2: int, k3: int|
                        is_triple_split(t, k1, k2, k3);
                    if k1 == 1 {
                        assert(t[1] == '.');
                    } else {
                        assert(is_digit(t.subrange(0, 2)[1]));
                        assert(t.subrange(0, 2)[1] == t[1]);
                    }
                }
            }
        }
        return false;
    }
    // t[0..l1] digits, t[l1] == '.'
    let ghost gl1 = l1 as int;
    proof {
        assert(t[gl1] == '.');
        assert(forall|k1: int, k2: int, k3: int| is_triple_split(t, k1, k2, k3) ==> k1 == gl1) by {
            assert forall|k1: int, k2: int, k3: int|
                is_triple_split(t, k1, k2, k3) implies k1 == gl1 by {
                if k1 == 1 && gl1 == 2 {
                    assert(t[1] == '.');
                }
                if k1 == 2 && gl1 == 1 {
                    assert(is_digit(t.subrange(0, 2)[1]));
                    assert(t.subrange(0, 2)[1] == t[1]);
                }
            }
        }
    }
    let b = a + l1 + 1;
    if b >= n || !char_is_digit(s.get_char(b)) {
        proof {
            assert(!is_bare_triple(t)) by {
                if is_bare_triple(t) {
                    let (k1, k2, k3) = choose|k1: int, k2: int, k3: int|
                        is_triple_split(t, k1, k2, k3);
                    assert(is_digit(t.subrange(gl1 + 1, gl1 + 1 + k2)[0]));
                    assert(t.subrange(gl1 + 1, gl1 + 1 + k2)[0] == t[gl1 + 1]);
                    assert(t[gl1 + 1] == s@[b as int]);
                }
            }
        }
        return false;
    }
    if b + 1 >= n {
        proof {
            assert(!is_bare_triple(t)) by {
                if is_bare_triple(t) {
                    let (k1, k2, k3) = choose|k1: int, k2: int, k3: int|
                        is_triple_split(t, k1, k2, k3);
                }
            }
        }
        return false;
    }
    let c2 = s.get_char(b + 1);
    proof {
        assert(t[gl1 + 2] == s@[(b + 1) as int]);
    }
    let l2: usize;
    if c2 == '.' {
        l2 = 1;
    } else if char_is_digit(c2) {
        if b + 2 >= n || s.get_char(b + 2) != '.' {
            proof {
                assert(!is_bare_triple(t)) by {
                    if is_bare_triple(t) {
                        let (k1, k2, k3) = choose|k1: int, k2: int, k3: int|
                            is_triple_split(t, k1, k2, k3);
                        if k2 == 1 {
                            assert(t[gl1 + 2] == '.');
                        } else {
                            assert(t[gl1 + 3] == '.');
                            assert(t[gl1 + 3] == s@[(b + 2) as int]);
                        }
                    }
                }
            }
            return false;
        }
        l2 = 2;
    } else {
        proof {
            assert(!is_bare_triple(t)) by {
                if is_bare_triple(t) {
                    let (k1, k2, k3) = choose|k1: int, k2: int, k3: int|
                        is_triple_split(t, k1, k2, k3);
                    if k2 == 1 {
                        assert(t[gl1 + 2] == '.');
                    } else {
                        assert(is_digit(t.subrange(gl1 + 1, gl1 + 3)[1]));
                        assert(t.subrange(gl1 + 1, gl1 + 3)[1] == t[gl1 + 2]);
                    }
                }
            }
        }
        return false;
    }
    let ghost gl2 = l2 as int;
    proof {
        assert(t[gl1 + 1 + gl2] == '.');
        assert(forall|k1: int, k2: int, k3: int| is_triple_split(t, k1, k2, k3) ==> k2 == gl2) by {
            assert forall|k1: int, k2: int, k3: int|
                is_triple_split(t, k1, k2, k3) implies k2 == gl2 by {
                if k2 == 1 && gl2 == 2 {
                    assert(t[gl1 + 2] == '.');
                }
                if k2 == 2 && gl2 == 1 {
                    assert(is_digit(t.subrange(gl1 + 1, gl1 + 3)[1]));
                    assert(t.subrange(gl1 + 1, gl1 + 3)[1] == t[gl1 + 2]);
                }
            }
        }
    }
    let c0 = b + l2 + 1;
    if c0 >= n || !char_is_digit(s.get_char(c0)) {
        proof {
            assert(!is_bare_triple(t)) by {
                if is_bare_triple(t) {
                    let (k1, k2, k3) = choose|k1: int, k2: int, k3: int|
                        is_triple_split(t, k1, k2, k3);
                    assert(is_digit(t.subrange(gl1 + 1 + gl2 + 1, t.len() as int)[0]));
                    assert(t.subrange(gl1 + 1 + gl2 + 1, t.len() as int)[0] == t[gl1 + 1 + gl2
                        + 1]);
                    assert(t[gl1 + 1 + gl2 + 1] == s@[c0 as int]);
                }
            }
        }
        return false;
    }
    let rem = n - c0;
    if rem == 1 {
        proof {
            assert(is_triple_split(t, gl1, gl2, 1)) by {
                assert(all_digits(t.subrange(0, gl1))) by {
                    assert(t.subrange(0, gl1)[0] == t[0]);
                    assert(t[0] == s@[a as int]);
                    if gl1 == 2 {
                        assert(t.subrange(0, gl1)[1] == t[1]);
                    }
                }
                assert(all_digits(t.subrange(gl1 + 1, gl1 + 1 + gl2))) by {
                    assert(t.subrange(gl1 + 1, gl1 + 1 + gl2)[0] == t[gl1 + 1]);
                    assert(t[gl1 + 1] == s@[b as int]);
                    if gl2 == 2 {
                        assert(t.subrange(gl1 + 1, gl1 + 1 + gl2)[1] == t[gl1 + 2]);
                    }
                }
                assert(all_digits(t.subrange(gl1 + 1 + gl2 + 1, t.len() as int))) by {
                    assert(t.subrange(gl1 + 1 + gl2 + 1, t.len() as int)[0] == t[gl1 + 1 + gl2
                        + 1]);
                    assert(t[gl1 + 1 + gl2 + 1] == s@[c0 as int]);
                }
            }
        }
        true
    } else if rem == 2 {
        let r = char_is_digit(s.get_char(c0 + 1));
        proof {
            assert(t[gl1 + 1 + gl2 + 2] == s@[(c0 + 1) as int]);
            if r {
                assert(is_triple_split(t, gl1, gl2, 2)) by {
                    assert(all_digits(t.subrange(0, gl1))) by {
                        assert(t.subrange(0, gl1)[0] == t[0]);
                        assert(t[0] == s@[a as int]);
                        if gl1 == 2 {
                            assert(t.subrange(0, gl1)[1] == t[1]);
                        }
                    }
                    assert(all_digits(t.subrange(gl1 + 1, gl1 + 1 + gl2))) by {
                        assert(t.subrange(gl1 + 1, gl1 + 1 + gl2)[0] == t[gl1 + 1]);
                        assert(t[gl1 + 1] == s@[b as int]);
                        if gl2 == 2 {
                            assert(t.subrange(gl1 + 1, gl1 + 1 + gl2)[1] == t[gl1 + 2]);
                        }
                    }
                    assert(all_digits(t.subrange(gl1 + 1 + gl2 + 1, t.len() as int))) by {
                        assert(t.subrange(gl1 + 1 + gl2 + 1, t.len() as int)[0] == t[gl1 + 1 + gl2
                            + 1]);
                        assert(t.subrange(gl1 + 1 + gl2 + 1, t.len() as int)[1] == t[gl1 + 1 + gl2
                            + 2]);
                        assert(t[gl1 + 1 + gl2 + 1] == s@[c0 as int]);
                    }
                }
            } else {
                assert(!is_bare_triple(t)) by {
                    if is_bare_triple(t) {
                        let (k1, k2, k3) = choose|k1: int, k2: int, k3: int|
                            is_triple_split(t, k1, k2, k3);
                        assert(k3 == 2);
                        assert(is_digit(t.subrange(gl1 + 1 + gl2 + 1, t.len() as int)[1]));
                        assert(t.subrange(gl1 + 1 + gl2 + 1, t.len() as int)[1] == t[gl1 + 1 + gl2
                            + 2]);
                    }
                }
            }
        }
        r
    } else {
        proof {
            assert(!is_bare_triple(t)) by {
                if is_bare_triple(t) {
                    let (k1, k2, k3) = choose|k1: int, k2: int, k3: int|
                        is_triple_split(t, k1, k2, k3);
                    assert(k3 == t.len() - gl1 - 1 - gl2 - 1);
                }
            }
        }
        false
    }
}

/// Decides whether the suffix of `s` starting at `i` is a semantic version.
fn check_sem_suffix(s: &str, i: usize, n: usize) -> (r: bool)
    requires
        i <= n,
        n == s@.len(),
    ensures
        r == is_sem_suffix(s@.subrange(i as int, n as int)),
{
    let ghost t = s@.subrange(i as int, n as int);
    if i < n && s.get_char(i) == 'v' {
        proof {
            assert(t[0] == s@[i as int]);
            assert(t.skip(1) =~= s@.subrange((i + 1) as int, n as int));
        }
        let rv = check_bare_triple(s, i + 1, n);
        let rb = check_bare_triple(s, i, n);
        rv || rb
    } else {
        proof {
            if t.len() > 0 {
                assert(t[0] == s@[i as int]);
            }
        }
        check_bare_triple(s, i, n)
    }
}

/// Decides whether `s` begins with a calendar date.
fn check_date_prefix(s: &str, n: usize) -> (r: bool)
    requires
        n == s@.len(),
    ensures
        r == is_date_prefix(s@),
{
    if n < 10 {
        return false;
    }
    let ghost v = s@;
    let ok = char_is_digit(s.get_char(0)) && char_is_digit(s.get_char(1)) && char_is_digit(
        s.get_char(2),
    ) && char_is_digit(s.get_char(3)) && s.get_char(4) == '-' && char_is_digit(s.get_char(5))
        && char_is_digit(s.get_char(6)) && s.get_char(7) == '-' && char_is_digit(s.get_char(8))
        && char_is_digit(s.get_char(9));
    proof {
        if ok {
            assert(all_digits(v.subrange(0, 4))) by {
                assert(v.subrange(0, 4)[0] == v[0]);
                assert(v.subrange(0, 4)[1] == v[1]);
                assert(v.subrange(0, 4)[2] == v[2]);
                assert(v.subrange(0, 4)[3] == v[3]);
            }
            assert(all_digits(v.subrange(5, 7))) by {
                assert(v.subrange(5, 7)[0] == v[5]);
                assert(v.subrange(5, 7)[1] == v[6]);
            }
            assert(all_digits(v.subrange(8, 10))) by {
                assert(v.subrange(8, 10)[0] == v[8]);
                assert(v.subrange(8, 10)[1] == v[9]);
            }
        } else {
            if is_date_prefix(v) {
                assert(v.subrange(0, 4)[0] == v[0]);
                assert(v.subrange(0, 4)[1] == v[1]);
                assert(v.subrange(0, 4)[2] == v[2]);
                assert(v.subrange(0, 4)[3] == v[3]);
                assert(v.subrange(5, 7)[0] == v[5]);
                assert(v.subrange(5, 7)[1] == v[6]);
                assert(v.subrange(8, 10)[0] == v[8]);
                assert(v.subrange(8, 10)[1] == v[9]);
            }
        }
    }
    ok
}

/// A semantic suffix is at least five characters long.
proof fn lemma_sem_suffix_len(t: Seq<char>)
    requires
        is_sem_suffix(t),
    ensures
        t.len() >= 5,
{
    if is_bare_triple(t) {
        let (k1, k2, k3) = choose|k1: int, k2: int, k3: int| is_triple_split(t, k1, k2, k3);
    } else {
        let u = t.skip(1);
        let (k1, k2, k3) = choose|k1: int, k2: int, k3: int| is_triple_split(u, k1, k2, k3);
    }
}

/// A bare triple never starts with `v`.
proof fn lemma_bare_triple_not_v(t: Seq<char>)
    requires
        is_bare_triple(t),
    ensures
        t.len() > 0,
        t[0] != 'v',
{
    let (k1, k2, k3) = choose|k1: int, k2: int, k3: int| is_triple_split(t, k1, k2, k3);
    assert(is_digit(t.subrange(0, k1)[0]));
    assert(t.subrange(0, k1)[0] == t[0]);
    assert(!is_digit('v'));
}

/// Reads the three components of the bare triple `s[a..n]`.
fn read_triple(s: &str, a: usize, n: usize) -> (v: (u16, u16, u16))
    requires
        a <= n,
        n == s@.len(),
        is_bare_triple(s@.subrange(a as int, n as int)),
    ensures
        (v.0 as int, v.1 as int, v.2 as int) == triple_vals(s@.subrange(a as int, n as int)),
        v.0 < 100 && v.1 < 100 && v.2 < 100,
{
    let ghost body = s@.subrange(a as int, n as int);
    let ghost (k1, k2, k3) = triple_split_of(body);
    proof {
        assert(is_triple_split(body, k1, k2, k3));
        assert(body[k1] == '.');
        assert(body[k1 + 1 + k2] == '.');
        assert(!is_digit('.'));
    }
    // the split is forced by the dot positions
    let c1 = s.get_char(a + 1);
    let l1: usize = if c1 == '.' {
        1
    } else {
        2
    };
    proof {
        assert(body[1] == s@[(a + 1) as int]);
        if k1 == 1 {
            assert(body[1] == '.');
        } else {
            assert(is_digit(body.subrange(0, 2)[1]));
            assert(body.subrange(0, 2)[1] == body[1]);
        }
        assert(k1 == l1 as int);
    }
    let b = a + l1 + 1;
    let c2 = s.get_char(b + 1);
    let l2: usize = if c2 == '.' {
        1
    } else {
        2
    };
    proof {
        assert(body[k1 + 2] == s@[(b + 1) as int]);
        if k2 == 1 {
            assert(body[k1 + 2] == '.');
        } else {
            assert(is_digit(body.subrange(k1 + 1, k1 + 3)[1]));
            assert(body.subrange(k1 + 1, k1 + 3)[1] == body[k1 + 2]);
        }
        assert(k2 == l2 as int);
    }
    let c0 = b + l2 + 1;
    let l3 = n - c0;
    proof {
        assert(k3 == l3 as int);
        assert(body.subrange(0, k1) =~= s@.subrange(a as int, (a + l1) as int));
        assert(body.subrange(k1 + 1, k1 + 1 + k2) =~= s@.subrange(b as int, (b + l2) as int));
        assert(body.subrange(k1 + 1 + k2 + 1, body.len() as int) =~= s@.subrange(
            c0 as int,
            (c0 + l3) as int,
        ));
        lemma_digits_val_bound(body.subrange(0, k1));
        lemma_digits_val_bound(body.subrange(k1 + 1, k1 + 1 + k2));
        lemma_digits_val_bound(body.subrange(k1 + 1 + k2 + 1, body.len() as int));
        assert(pow10(2) == 100) by {
            reveal_with_fuel(pow10, 3);
        }
        assert(pow10(1) < pow10(2)) by {
            reveal_with_fuel(pow10, 3);
        }
    }
    let x = read_num(s, a, l1);
    let y = read_num(s, b, l2);
    let z = read_num(s, c0, l3);
    (x, y, z)
}

impl Version {
    /// Parses a raw version string. Semantic patterns anchored at the end of
    /// the string win; otherwise a leading calendar date; otherwise the
    /// string is kept as an opaque tag. Parsing never fails.
    pub fn parse(s: &str) -> (v: Version)
        ensures
            v@ == parse_spec(s@),
    {
        let n = s.unicode_len();
        let mut i: usize = 0;
        while i < n
            invariant
                n == s@.len(),
                i <= n,
                forall|j: int| 0 <= j < i ==> !sem_start_valid(s@, j),
            decreases n - i,
        {
            if check_sem_suffix(s, i, n) {
                proof {
                    assert(sem_start_valid(s@, i as int));
                    assert(is_min_sem_start(s@, i as int));
                    assert(has_sem(s@));
                    lemma_min_sem_start_unique(s@, sem_start(s@), i as int);
                    assert(sem_start(s@) == i as int);
                }
                let ghost t = s@.subrange(i as int, n as int);
                proof {
                    lemma_sem_suffix_len(t);
                }
                // strip an optional leading `v`
                let a: usize;
                if s.get_char(i) == 'v' {
                    proof {
                        assert(t[0] == s@[i as int]);
                        if is_bare_triple(t) {
                            lemma_bare_triple_not_v(t);
                        }
                        assert(t.skip(1) =~= s@.subrange((i + 1) as int, n as int));
                        assert(sem_body(t) == t.skip(1));
                    }
                    a = i + 1;
                } else {
                    proof {
                        assert(t[0] == s@[i as int]);
                        assert(sem_body(t) == t);
                    }
                    a = i;
                }
                let (x, y, z) = read_triple(s, a, n);
                return Version::Sem(x, y, z);
            }
            i = i + 1;
        }
        proof {
            assert(!has_sem(s@)) by {
                if has_sem(s@) {
                    let j = choose|j: int| sem_start_valid(s@, j);
                    lemma_sem_suffix_len(s@.subrange(j, s@.len() as int));
                }
            }
        }
        if check_date_prefix(s, n) {
            proof {
                lemma_digits_val_bound(s@.subrange(0, 4));
                lemma_digits_val_bound(s@.subrange(5, 7));
                lemma_digits_val_bound(s@.subrange(8, 10));
                reveal_with_fuel(pow10, 5);
                assert(pow10(4) == 10000);
            }
            let y = read_num(s, 0, 4);
            let m = read_num(s, 5, 2);
            let d = read_num(s, 8, 2);
            Version::Date(y, m, d)
        } else {
            Version::Unknown(s.to_owned())
        }
    }
}

impl Version {
    /// Renders the version: `vX.Y.Z`, zero-padded `YYYY-MM-DD`, or the raw
    /// opaque tag.
    pub fn render(&self) -> (s: String)
        ensures
            s@ == render_spec(self@),
    {
        proof {
            reveal_strlit("v");
            reveal_strlit(".");
            reveal_strlit("-");
        }
        match self {
            Version::Sem(x, y, z) => {
                let mut s = String::from_str("v");
                s.append(u16_to_dec(*x).as_str());
                s.append(".");
                s.append(u16_to_dec(*y).as_str());
                s.append(".");
                s.append(u16_to_dec(*z).as_str());
                proof {
                    assert("v"@ =~= seq!['v']);
                    assert("."@ =~= seq!['.']);
                    assert(s@ =~= render_spec(self@));
                }
                s
            },
            Version::Date(y, m, d) => {
                let mut s = pad4(*y);
                s.append("-");
                s.append(pad2(*m).as_str());
                s.append("-");
                s.append(pad2(*d).as_str());
                proof {
                    assert("-"@ =~= seq!['-']);
                    assert(s@ =~= render_spec(self@));
                }
                s
            },
            Version::Unknown(t) => t.clone(),
        }
    }
}

/// A leading zero does not change a digit string's value.
proof fn lemma_zero_prefix_value(s: Seq<char>)
    ensures
        digits_val(seq![digit_char(0)] + s) == digits_val(s),
    decreases s.len(),
{
    let z = seq![digit_char(0)];
    if s.len() == 0 {
        assert((z + s) =~= z);
        assert(digits_val(z) == digits_val(z.drop_last()) * 10 + digit_val(z.last()));
        assert(z.drop_last().len() == 0);
        assert(digit_val(digit_char(0)) == 0) by {
            assert(digit_char(0) as int == 48);
        }
    } else {
        lemma_zero_prefix_value(s.drop_last());
        assert((z + s).drop_last() =~= z + s.drop_last());
        assert((z + s).last() == s.last());
    }
}

/// Zero padding: the length becomes the width, digits stay digits, and the
/// value is unchanged.
proof fn lemma_zero_pad_props(s: Seq<char>, w: int)
    requires
        all_digits(s),
        s.len() >= 1,
    ensures
        zero_pad(s, w).len() == (if s.len() >= w {
            s.len() as int
        } else {
            w
        }),
        all_digits(zero_pad(s, w)),
        digits_val(zero_pad(s, w)) == digits_val(s),
    decreases w - s.len(),
{
    if s.len() < w {
        let z = seq![digit_char(0)];
        assert(all_digits(z + s)) by {
            assert(is_digit(digit_char(0))) by {
                assert(digit_char(0) as int == 48);
            }
            assert(forall|i: int| 0 <= i < (z + s).len() ==> (z + s)[i] == if i == 0 {
                digit_char(0)
            } else {
                s[i - 1]
            });
        }
        lemma_zero_pad_props(z + s, w);
        lemma_zero_prefix_value(s);
    }
}

proof fn lemma_min_sem_from(s: Seq<char>, w: int)
    requires
        sem_start_valid(s, w),
    ensures
        exists|i: int| is_min_sem_start(s, i),
    decreases w,
{
    if forall|j: int| 0 <= j < w ==> !sem_start_valid(s, j) {
        assert(is_min_sem_start(s, w));
    } else {
        let j = choose|j: int| 0 <= j < w && sem_start_valid(s, j);
        lemma_min_sem_from(s, j);
    }
}

/// A string with a semantic suffix has a leftmost one, and `sem_start`
/// names it.
pub proof fn lemma_min_sem_exists(s: Seq<char>)
    requires
        has_sem(s),
    ensures
        is_min_sem_start(s, sem_start(s)),
{
    let w = choose|i: int| sem_start_valid(s, i);
    lemma_min_sem_from(s, w);
    let i = choose|i: int| is_min_sem_start(s, i);
    assert(is_min_sem_start(s, i));
}

/// The components a semantic parse yields are at most two digits wide.
pub proof fn lemma_parse_sem_bounds(s: Seq<char>)
    requires
        parse_spec(s) is Sem,
    ensures
        ({
            let v = parse_spec(s);
            match v {
                VersionV::Sem(x, y, z) => 0 <= x <= 99 && 0 <= y <= 99 && 0 <= z <= 99,
                _ => true,
            }
        }),
{
    lemma_min_sem_exists(s);
    let t = s.subrange(sem_start(s), s.len() as int);
    let b = sem_body(t);
    assert(is_bare_triple(b)) by {
        if t.len() > 0 && t[0] == 'v' {
            lemma_bare_triple_not_v_contra(t);
        }
    }
    let (l1, l2, l3) = triple_split_of(b);
    assert(is_triple_split(b, l1, l2, l3));
    lemma_digits_val_bound(b.subrange(0, l1));
    lemma_digits_val_bound(b.subrange(l1 + 1, l1 + 1 + l2));
    lemma_digits_val_bound(b.subrange(l1 + 1 + l2 + 1, b.len() as int));
    assert(pow10(1) == 10 && pow10(2) == 100) by {
        reveal_with_fuel(pow10, 3);
    }
}

/// When the suffix starts with `v`, the triple hides behind it.
proof fn lemma_bare_triple_not_v_contra(t: Seq<char>)
    requires
        t.len() > 0,
        t[0] == 'v',
        is_sem_suffix(t),
    ensures
        is_bare_triple(t.skip(1)),
        sem_body(t) == t.skip(1),
{
    if is_bare_triple(t) {
        lemma_bare_triple_not_v(t);
    }
}

/// A string without a dot has no semantic suffix.
proof fn lemma_no_dot_no_sem(s: Seq<char>)
    requires
        forall|i: int| 0 <= i < s.len() ==> s[i] != '.',
    ensures
        !has_sem(s),
{
    if has_sem(s) {
        let j = choose|j: int| sem_start_valid(s, j);
        let t = s.subrange(j, s.len() as int);
        let b = sem_body(t);
        assert(is_bare_triple(b)) by {
            if t.len() > 0 && t[0] == 'v' {
                lemma_bare_triple_not_v_contra(t);
            }
        }
        let (l1, l2, l3) = triple_split_of(b);
        assert(is_triple_split(b, l1, l2, l3));
        assert(b[l1] == '.');
        if t.len() > 0 && t[0] == 'v' {
            assert(b[l1] == s[j + 1 + l1]);
        } else {
            assert(b[l1] == s[j + l1]);
        }
    }
}

/// The canonical form `vX.Y.Z` of small components parses back to exactly
/// those components.
pub proof fn lemma_render_sem_parses_back(x: int, y: int, z: int)
    requires
        0 <= x <= 99,
        0 <= y <= 99,
        0 <= z <= 99,
    ensures
        parse_spec(render_spec(VersionV::Sem(x, y, z))) == VersionV::Sem(x, y, z),
{
    let dx = dec_rep(x as nat);
    let dy = dec_rep(y as nat);
    let dz = dec_rep(z as nat);
    lemma_dec_rep_len(x as nat);
    lemma_dec_rep_len(y as nat);
    lemma_dec_rep_len(z as nat);
    lemma_digits_val_dec_rep(x as nat);
    lemma_digits_val_dec_rep(y as nat);
    lemma_digits_val_dec_rep(z as nat);
    let r = render_spec(VersionV::Sem(x, y, z));
    let body = dx + seq!['.'] + dy + seq!['.'] + dz;
    assert(r =~= seq!['v'] + body);
    let l1 = dx.len() as int;
    let l2 = dy.len() as int;
    let l3 = dz.len() as int;
    assert(is_triple_split(body, l1, l2, l3)) by {
        assert(body.subrange(0, l1) =~= dx);
        assert(body[l1] == '.');
        assert(body.subrange(l1 + 1, l1 + 1 + l2) =~= dy);
        assert(body[l1 + 1 + l2] == '.');
        assert(body.subrange(l1 + 1 + l2 + 1, body.len() as int) =~= dz);
    }
    assert(is_bare_triple(body));
    assert(sem_start_valid(r, 0)) by {
        assert(r.subrange(0, r.len() as int) =~= r);
        assert(r[0] == 'v');
        assert(r.skip(1) =~= body);
        assert(is_sem_suffix(r));
    }
    assert(is_min_sem_start(r, 0));
    assert(has_sem(r));
    lemma_min_sem_start_unique(r, sem_start(r), 0);
    assert(sem_start(r) == 0);
    let t = r.subrange(0, r.len() as int);
    assert(t =~= r);
    assert(t[0] == 'v');
    let b = sem_body(t);
    assert(b =~= body) by {
        assert(t.skip(1) =~= body);
    }
    let (k1, k2, k3) = triple_split_of(body);
    assert(is_triple_split(body, k1, k2, k3));
    lemma_triple_split_unique(body, k1, k2, k3, l1, l2, l3);
    assert(triple_vals(body) == (x, y, z)) by {
        assert(body.subrange(0, l1) =~= dx);
        assert(body.subrange(l1 + 1, l1 + 1 + l2) =~= dy);
        assert(body.subrange(l1 + 1 + l2 + 1, body.len() as int) =~= dz);
    }
}

/// Parsing a recognized semantic version and rendering it back gives the
/// canonical `vX.Y.Z` form, which parses to the same version again: the
/// semantic round trip is lossless.
pub proof fn lemma_sem_round_trip(s: Seq<char>)
    requires
        parse_spec(s) is Sem,
    ensures
        parse_spec(render_spec(parse_spec(s))) == parse_spec(s),
{
    lemma_parse_sem_bounds(s);
    let v = parse_spec(s);
    match v {
        VersionV::Sem(x, y, z) => {
            lemma_render_sem_parses_back(x, y, z);
        },
        _ => {},
    }
}

/// The components a calendar-date parse yields fit their fields.
pub proof fn lemma_parse_date_bounds(s: Seq<char>)
    requires
        parse_spec(s) is Date,
    ensures
        ({
            let v = parse_spec(s);
            match v {
                VersionV::Date(y, m, d) => 0 <= y <= 9999 && 0 <= m <= 99 && 0 <= d <= 99,
                _ => true,
            }
        }),
{
    assert(is_date_prefix(s));
    lemma_digits_val_bound(s.subrange(0, 4));
    lemma_digits_val_bound(s.subrange(5, 7));
    lemma_digits_val_bound(s.subrange(8, 10));
    assert(pow10(2) == 100 && pow10(4) == 10000) by {
        reveal_with_fuel(pow10, 5);
    }
}

/// The zero-padded `YYYY-MM-DD` form of in-range components parses back to
/// exactly those components: the date round trip is lossless.
pub proof fn lemma_render_date_parses_back(y: int, m: int, d: int)
    requires
        0 <= y <= 9999,
        0 <= m <= 99,
        0 <= d <= 99,
    ensures
        parse_spec(render_spec(VersionV::Date(y, m, d))) == VersionV::Date(y, m, d),
{
    let py = zero_pad(dec_rep(y as nat), 4);
    let pm = zero_pad(dec_rep(m as nat), 2);
    let pd = zero_pad(dec_rep(d as nat), 2);
    lemma_dec_rep_len(y as nat);
    lemma_dec_rep_len(m as nat);
    lemma_dec_rep_len(d as nat);
    lemma_digits_val_dec_rep(y as nat);
    lemma_digits_val_dec_rep(m as nat);
    lemma_digits_val_dec_rep(d as nat);
    lemma_zero_pad_props(dec_rep(y as nat), 4);
    lemma_zero_pad_props(dec_rep(m as nat), 2);
    lemma_zero_pad_props(dec_rep(d as nat), 2);
    let r = render_spec(VersionV::Date(y, m, d));
    assert(r =~= py + seq!['-'] + pm + seq!['-'] + pd);
    assert(py.len() == 4 && pm.len() == 2 && pd.len() == 2);
    assert(r.len() == 10);
    assert(!has_sem(r)) by {
        assert(forall|i: int| 0 <= i < r.len() ==> r[i] != '.') by {
            assert(forall|i: int| 0 <= i < 4 ==> r[i] == py[i]);
            assert(r[4] == '-');
            assert(forall|i: int| 5 <= i < 7 ==> r[i] == pm[i - 5]);
            assert(r[7] == '-');
            assert(forall|i: int| 8 <= i < 10 ==> r[i] == pd[i - 8]);
            assert(!is_digit('.'));
            assert('-' != '.');
        }
        lemma_no_dot_no_sem(r);
    }
    assert(is_date_prefix(r)) by {
        assert(r.subrange(0, 4) =~= py);
        assert(r[4] == '-');
        assert(r.subrange(5, 7) =~= pm);
        assert(r[7] == '-');
        assert(r.subrange(8, 10) =~= pd);
    }
    assert(r.subrange(0, 4) =~= py);
    assert(r.subrange(5, 7) =~= pm);
    assert(r.subrange(8, 10) =~= pd);
}

/// Parsing a recognized calendar date and rendering it back gives the
/// zero-padded form, which parses to the same date again.
pub proof fn lemma_date_round_trip(s: Seq<char>)
    requires
        parse_spec(s) is Date,
    ensures
        parse_spec(render_spec(parse_spec(s))) == parse_spec(s),
{
    lemma_parse_date_bounds(s);
    let v = parse_spec(s);
    match v {
        VersionV::Date(y, m, d) => {
            lemma_render_date_parses_back(y, m, d);
        },
        _ => {},
    }
}

/// A string with no semantic suffix and no leading date parses to the
/// opaque tag holding the original string, unchanged: parsing never
/// fails, and rendering an opaque tag gives the string back.
pub proof fn lemma_unparseable_is_opaque(s: Seq<char>)
    requires
        !has_sem(s),
        !is_date_prefix(s),
    ensures
        parse_spec(s) == VersionV::Unknown(s),
        render_spec(parse_spec(s)) == s,
{
}

} // verus!
