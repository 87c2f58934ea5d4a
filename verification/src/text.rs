//! Character-level text utilities shared by the whole library.
//!
//! Lines read from external tools are turned into `Vec<char>` once and all
//! scanning, trimming and searching is done on that representation, so that
//! every step is verified against `Seq<char>` specifications.

use vstd::prelude::*;

verus! {

/// Whitespace as recognised by the scanning and trimming helpers:
/// the ASCII whitespace characters.
pub open spec fn is_ws_char(c: char) -> bool {
    c == ' ' || c == '\t' || c == '\n' || c == '\r' || c == '\u{b}' || c == '\u{c}'
}

/// Decimal digit.
pub open spec fn is_digit_char(c: char) -> bool {
    '0' <= c && c <= '9'
}

pub fn is_ws(c: char) -> (r: bool)
    ensures
        r == is_ws_char(c),
{
    c == ' ' || c == '\t' || c == '\n' || c == '\r' || c == '\u{b}' || c == '\u{c}'
}

pub fn is_digit(c: char) -> (r: bool)
    ensures
        r == is_digit_char(c),
{
    '0' <= c && c <= '9'
}

/// Turns a string slice into the vector of its characters.
pub fn chars_vec(s: &str) -> (r: Vec<char>)
    ensures
        r@ == s@,
{
    let n = s.unicode_len();
    let mut r: Vec<char> = Vec::new();
    let mut i: usize = 0;
    while i < n
        invariant
            i <= n,
            n == s@.len(),
            r@ == s@.subrange(0, i as int),
        decreases n - i,
    {
        r.push(s.get_char(i));
        i = i + 1;
    }
    assert(r@ =~= s@);
    r
}

/// Builds a `String` from a vector of characters.
///
/// Relies on `core::iter::Iterator::collect` into `String`, which
/// concatenates exactly the characters yielded by the iterator.
#[verifier::external_body]
pub(crate) fn string_from_chars(v: &Vec<char>) -> (r: String)
    ensures
        r@ == v@,
{
    v.iter().collect()
}

/// Appends all characters of `src` to `dst`.
pub fn extend_chars(dst: &mut Vec<char>, src: &Vec<char>)
    ensures
        final(dst)@ == old(dst)@ + src@,
{
    let mut i: usize = 0;
    while i < src.len()
        invariant
            i <= src.len(),
            dst@ == old(dst)@ + src@.subrange(0, i as int),
        decreases src.len() - i,
    {
        dst.push(src[i]);
        i = i + 1;
    }
    assert(dst@ =~= old(dst)@ + src@);
}

/// Appends all characters of the string slice `s` to `dst`.
pub fn extend_str(dst: &mut Vec<char>, s: &str)
    ensures
        final(dst)@ == old(dst)@ + s@,
{
    let n = s.unicode_len();
    let mut i: usize = 0;
    while i < n
        invariant
            i <= n,
            n == s@.len(),
            dst@ == old(dst)@ + s@.subrange(0, i as int),
        decreases n - i,
    {
        dst.push(s.get_char(i));
        i = i + 1;
    }
    assert(dst@ =~= old(dst)@ + s@);
}

/// The characters of `v` are exactly those of `s`.
pub fn eq_str(v: &Vec<char>, s: &str) -> (r: bool)
    ensures
        r == (v@ == s@),
{
    let n = s.unicode_len();
    if v.len() != n {
        return false;
    }
    let mut i: usize = 0;
    while i < n
        invariant
            i <= n,
            n == s@.len(),
            v@.len() == n,
            forall|k: int| 0 <= k < i ==> v@[k] == s@[k],
        decreases n - i,
    {
        if v[i] != s.get_char(i) {
            return false;
        }
        i = i + 1;
    }
    assert(v@ =~= s@);
    true
}

/// `p` occurs in `s` starting at position `i`.
pub open spec fn match_at(s: Seq<char>, p: Seq<char>, i: int) -> bool {
    0 <= i && i + p.len() <= s.len() && (forall|k: int| 0 <= k < p.len() ==> s[i + k] == p[k])
}

/// `p` occurs somewhere in `s`.
pub open spec fn contains_seq(s: Seq<char>, p: Seq<char>) -> bool {
    exists|i: int| match_at(s, p, i)
}

/// `s` starts with `p`.
pub open spec fn starts_with_seq(s: Seq<char>, p: Seq<char>) -> bool {
    match_at(s, p, 0)
}

/// `s` ends with `p`.
pub open spec fn ends_with_seq(s: Seq<char>, p: Seq<char>) -> bool {
    match_at(s, p, s.len() - p.len())
}

/// Whether `pat` occurs in `hay` starting exactly at `i`.
pub fn matches_at(hay: &Vec<char>, pat: &str, i: usize) -> (r: bool)
    requires
        i <= hay@.len(),
    ensures
        r == match_at(hay@, pat@, i as int),
{
    let m = pat.unicode_len();
    let n = hay.len();
    if m > n - i {
        return false;
    }
    let mut k: usize = 0;
    while k < m
        invariant
            k <= m,
            m == pat@.len(),
            n == hay@.len(),
            i + m <= n,
            forall|j: int| 0 <= j < k ==> hay@[i + j] == pat@[j],
        decreases m - k,
    {
        if hay[i + k] != pat.get_char(k) {
            return false;
        }
        k = k + 1;
    }
    true
}

/// Substring search: does `pat` occur anywhere in `hay`?
pub fn contains_str(hay: &Vec<char>, pat: &str) -> (r: bool)
    ensures
        r == contains_seq(hay@, pat@),
{
    match find_str(hay, pat) {
        Some(_) => true,
        None => false,
    }
}

/// First position at which `pat` occurs in `hay`, if any.
pub fn find_str(hay: &Vec<char>, pat: &str) -> (r: Option<usize>)
    ensures
        match r {
            Some(i) => match_at(hay@, pat@, i as int) && (forall|j: int|
                0 <= j < i ==> !match_at(hay@, pat@, j)),
            None => !contains_seq(hay@, pat@),
        },
{
    let n = hay.len();
    let m = pat.unicode_len();
    if m > n {
        assert(forall|j: int| !match_at(hay@, pat@, j));
        return None;
    }
    let mut i: usize = 0;
    while i <= n - m
        invariant
            i <= n - m + 1,
            m <= n,
            n == hay@.len(),
            m == pat@.len(),
            forall|j: int| 0 <= j < i ==> !match_at(hay@, pat@, j),
        decreases n - m + 1 - i,
    {
        if matches_at(hay, pat, i) {
            return Some(i);
        }
        i = i + 1;
    }
    assert(forall|j: int| !(#[trigger] match_at(hay@, pat@, j)));
    None
}

/// `hay` starts with `pat`.
pub fn starts_with_str(hay: &Vec<char>, pat: &str) -> (r: bool)
    ensures
        r == starts_with_seq(hay@, pat@),
{
    matches_at(hay, pat, 0)
}

/// `hay` ends with `pat`.
pub fn ends_with_str(hay: &Vec<char>, pat: &str) -> (r: bool)
    ensures
        r == ends_with_seq(hay@, pat@),
{
    let m = pat.unicode_len();
    if m > hay.len() {
        return false;
    }
    matches_at(hay, pat, hay.len() - m)
}

/// The two characters are equal up to ASCII case.
pub open spec fn char_eq_nocase(a: char, b: char) -> bool {
    ||| a == b
    ||| ('A' <= a && a <= 'Z' && a as int + 32 == b as int)
    ||| ('A' <= b && b <= 'Z' && b as int + 32 == a as int)
}

/// `p` occurs in `s` at position `i`, up to ASCII case.
pub open spec fn match_at_nocase(s: Seq<char>, p: Seq<char>, i: int) -> bool {
    0 <= i && i + p.len() <= s.len() && (forall|k: int|
        0 <= k < p.len() ==> char_eq_nocase(s[i + k], p[k]))
}

/// `p` occurs somewhere in `s`, up to ASCII case.
pub open spec fn contains_nocase(s: Seq<char>, p: Seq<char>) -> bool {
    exists|i: int| match_at_nocase(s, p, i)
}

fn eq_nocase(a: char, b: char) -> (r: bool)
    ensures
        r == char_eq_nocase(a, b),
{
    ||| a == b
    ||| ('A' <= a && a <= 'Z' && a as u32 + 32 == b as u32)
    ||| ('A' <= b && b <= 'Z' && b as u32 + 32 == a as u32)
}

fn matches_at_nocase(hay: &Vec<char>, pat: &str, i: usize) -> (r: bool)
    requires
        i <= hay@.len(),
    ensures
        r == match_at_nocase(hay@, pat@, i as int),
{
    let m = pat.unicode_len();
    let n = hay.len();
    if m > n - i {
        return false;
    }
    let mut k: usize = 0;
    while k < m
        invariant
            k <= m,
            m == pat@.len(),
            n == hay@.len(),
            i + m <= n,
            forall|j: int| 0 <= j < k ==> char_eq_nocase(hay@[i + j], pat@[j]),
        decreases m - k,
    {
        if !eq_nocase(hay[i + k], pat.get_char(k)) {
            return false;
        }
        k = k + 1;
    }
    true
}

/// Substring search up to ASCII case: does `pat` occur anywhere in `hay`?
pub fn contains_str_nocase(hay: &Vec<char>, pat: &str) -> (r: bool)
    ensures
        r == contains_nocase(hay@, pat@),
{
    let n = hay.len();
    let m = pat.unicode_len();
    if m > n {
        assert(forall|j: int| !(#[trigger] match_at_nocase(hay@, pat@, j)));
        return false;
    }
    let mut i: usize = 0;
    while i <= n - m
        invariant
            i <= n - m + 1,
            m <= n,
            n == hay@.len(),
            m == pat@.len(),
            forall|j: int| 0 <= j < i ==> !match_at_nocase(hay@, pat@, j),
        decreases n - m + 1 - i,
    {
        if matches_at_nocase(hay, pat, i) {
            return true;
        }
        i = i + 1;
    }
    assert(forall|j: int| !(#[trigger] match_at_nocase(hay@, pat@, j)));
    false
}

/// First position of character `c` in `s` at or after `from`.
pub fn find_char_from(s: &Vec<char>, c: char, from: usize) -> (r: Option<usize>)
    requires
        from <= s@.len(),
    ensures
        match r {
            Some(i) => from <= i < s@.len() && s@[i as int] == c && (forall|j: int|
                from <= j < i ==> s@[j] != c),
            None => forall|j: int| from <= j < s@.len() ==> s@[j] != c,
        },
{
    let mut i: usize = from;
    while i < s.len()
        invariant
            from <= i <= s@.len(),
            forall|j: int| from <= j < i ==> s@[j] != c,
        decreases s@.len() - i,
    {
        if s[i] == c {
            return Some(i);
        }
        i = i + 1;
    }
    None
}

/// Number of leading whitespace characters of `s`.
pub open spec fn leading_ws(s: Seq<char>) -> int
    decreases s.len(),
{
    if s.len() > 0 && is_ws_char(s[0]) {
        1 + leading_ws(s.drop_first())
    } else {
        0
    }
}

/// Number of trailing whitespace characters of `s`.
pub open spec fn trailing_ws(s: Seq<char>) -> int
    decreases s.len(),
{
    if s.len() > 0 && is_ws_char(s.last()) {
        1 + trailing_ws(s.drop_last())
    } else {
        0
    }
}

/// `s` with leading and trailing whitespace removed.
pub open spec fn spec_trim(s: Seq<char>) -> Seq<char> {
    let a = leading_ws(s);
    if a == s.len() {
        Seq::empty()
    } else {
        s.subrange(a, s.len() - trailing_ws(s))
    }
}

proof fn lemma_leading_ws_bounds(s: Seq<char>)
    ensures
        0 <= leading_ws(s) <= s.len(),
        forall|k: int| 0 <= k < leading_ws(s) ==> is_ws_char(s[k]),
        leading_ws(s) < s.len() ==> !is_ws_char(s[leading_ws(s)]),
    decreases s.len(),
{
    if s.len() > 0 && is_ws_char(s[0]) {
        lemma_leading_ws_bounds(s.drop_first());
        assert forall|k: int| 0 <= k < leading_ws(s) implies is_ws_char(#[trigger] s[k]) by {
            if k > 0 {
                assert(is_ws_char(s.drop_first()[k - 1]));
                assert(s.drop_first()[k - 1] == s[k]);
            }
        }
    }
}

proof fn lemma_trailing_ws_bounds(s: Seq<char>)
    ensures
        0 <= trailing_ws(s) <= s.len(),
        forall|k: int| s.len() - trailing_ws(s) <= k < s.len() ==> is_ws_char(s[k]),
        trailing_ws(s) < s.len() ==> !is_ws_char(s[s.len() - trailing_ws(s) - 1]),
    decreases s.len(),
{
    if s.len() > 0 && is_ws_char(s.last()) {
        lemma_trailing_ws_bounds(s.drop_last());
        assert(forall|k: int| 0 <= k < s.len() - 1 ==> s.drop_last()[k] == s[k]);
    }
}

proof fn lemma_leading_ws_is(s: Seq<char>, a: int)
    requires
        0 <= a <= s.len(),
        forall|k: int| 0 <= k < a ==> is_ws_char(s[k]),
        a < s.len() ==> !is_ws_char(s[a]),
    ensures
        leading_ws(s) == a,
    decreases s.len(),
{
    if a == 0 {
        if s.len() > 0 && is_ws_char(s[0]) {
            assert(!is_ws_char(s[0]));
        }
    } else {
        assert(is_ws_char(s[0]));
        let t = s.drop_first();
        assert(forall|k: int| 0 <= k < a - 1 ==> t[k] == s[k + 1]);
        assert(a - 1 < t.len() ==> !is_ws_char(t[a - 1]));
        lemma_leading_ws_is(t, a - 1);
    }
}

proof fn lemma_trailing_ws_is(s: Seq<char>, b: int)
    requires
        0 <= b <= s.len(),
        forall|k: int| s.len() - b <= k < s.len() ==> is_ws_char(s[k]),
        b < s.len() ==> !is_ws_char(s[s.len() - b - 1]),
    ensures
        trailing_ws(s) == b,
    decreases s.len(),
{
    if b == 0 {
        if s.len() > 0 && is_ws_char(s.last()) {
            assert(!is_ws_char(s[s.len() - 1]));
        }
    } else {
        assert(is_ws_char(s.last()));
        let t = s.drop_last();
        assert(forall|k: int| 0 <= k < s.len() - 1 ==> t[k] == s[k]);
        lemma_trailing_ws_is(t, b - 1);
    }
}

/// Removes leading and trailing whitespace.
pub fn trim_chars(v: &Vec<char>) -> (r: Vec<char>)
    ensures
        r@ == spec_trim(v@),
{
    let n = v.len();
    let mut a: usize = 0;
    while a < n && is_ws(v[a])
        invariant
            a <= n,
            n == v@.len(),
            forall|k: int| 0 <= k < a ==> is_ws_char(v@[k]),
        decreases n - a,
    {
        a = a + 1;
    }
    if a == n {
        proof {
            lemma_leading_ws_is(v@, n as int);
        }
        let r: Vec<char> = Vec::new();
        assert(r@ =~= spec_trim(v@));
        return r;
    }
    proof {
        lemma_leading_ws_is(v@, a as int);
    }
    let mut b: usize = n;
    while b > a && is_ws(v[b - 1])
        invariant
            a <= b <= n,
            n == v@.len(),
            a < n,
            !is_ws_char(v@[a as int]),
            forall|k: int| b <= k < n ==> is_ws_char(v@[k]),
        decreases b,
    {
        b = b - 1;
    }
    // b > a here: v[a] is not whitespace, so the backward scan stops at or after a + 1.
    proof {
        lemma_trailing_ws_is(v@, (n - b) as int);
    }
    let mut r: Vec<char> = Vec::new();
    let mut i: usize = a;
    while i < b
        invariant
            a <= i <= b <= n,
            n == v@.len(),
            r@ == v@.subrange(a as int, i as int),
        decreases b - i,
    {
        r.push(v[i]);
        i = i + 1;
    }
    assert(r@ =~= spec_trim(v@));
    r
}

/// The character for a single decimal digit value.
pub open spec fn digit_char(d: int) -> char {
    if d == 0 {
        '0'
    } else if d == 1 {
        '1'
    } else if d == 2 {
        '2'
    } else if d == 3 {
        '3'
    } else if d == 4 {
        '4'
    } else if d == 5 {
        '5'
    } else if d == 6 {
        '6'
    } else if d == 7 {
        '7'
    } else if d == 8 {
        '8'
    } else {
        '9'
    }
}

/// Numeric value of a decimal digit character.
pub open spec fn digit_val(c: char) -> int {
    c as int - '0' as int
}

/// Canonical decimal representation of `n`, most significant digit first.
pub open spec fn dec_rep(n: nat) -> Seq<char>
    decreases n,
{
    if n < 10 {
        seq![digit_char(n as int)]
    } else {
        dec_rep(n / 10).push(digit_char(n as int % 10))
    }
}

/// Value of a sequence of decimal digit characters (empty sequence: 0).
pub open spec fn digits_val(s: Seq<char>) -> int
    decreases s.len(),
{
    if s.len() == 0 {
        0
    } else {
        digits_val(s.drop_last()) * 10 + digit_val(s.last())
    }
}

pub open spec fn all_digits(s: Seq<char>) -> bool {
    forall|i: int| 0 <= i < s.len() ==> is_digit_char(s[i])
}

pub proof fn lemma_dec_rep_digits(n: nat)
    ensures
        all_digits(dec_rep(n)),
        dec_rep(n).len() >= 1,
        digits_val(dec_rep(n)) == n,
        dec_rep(n)[0] != '0' || n < 10,
    decreases n,
{
    if n < 10 {
        let r = dec_rep(n);
        assert(r =~= seq![digit_char(n as int)]);
        assert(r.last() == digit_char(n as int));
        assert(r.drop_last() =~= Seq::<char>::empty());
        assert(digits_val(r.drop_last()) == 0);
        assert(digits_val(r) == digits_val(r.drop_last()) * 10 + digit_val(r.last()));
    } else {
        lemma_dec_rep_digits(n / 10);
        let r = dec_rep(n);
        assert(r.drop_last() =~= dec_rep(n / 10));
        assert forall|i: int| 0 <= i < r.len() implies is_digit_char(#[trigger] r[i]) by {
            if i < r.len() - 1 {
                assert(r[i] == dec_rep(n / 10)[i]);
            }
        }
        assert(digits_val(r) == (n / 10) * 10 + digit_val(digit_char(n as int % 10)));
        assert(digit_val(digit_char(n as int % 10)) == n % 10) by {
            assert(0 <= n as int % 10 < 10);
        }
    }
}

fn digit_to_char(d: u64) -> (c: char)
    requires
        d < 10,
    ensures
        c == digit_char(d as int),
{
    if d == 0 {
        '0'
    } else if d == 1 {
        '1'
    } else if d == 2 {
        '2'
    } else if d == 3 {
        '3'
    } else if d == 4 {
        '4'
    } else if d == 5 {
        '5'
    } else if d == 6 {
        '6'
    } else if d == 7 {
        '7'
    } else if d == 8 {
        '8'
    } else {
        '9'
    }
}

fn digit_value(c: char) -> (d: u64)
    requires
        is_digit_char(c),
    ensures
        d == digit_val(c),
        d < 10,
{
    (c as u32 - '0' as u32) as u64
}

/// Appends the canonical decimal representation of `n` to `out`.
pub fn push_dec_u64(out: &mut Vec<char>, n: u64)
    ensures
        final(out)@ == old(out)@ + dec_rep(n as nat),
    decreases n,
{
    if n < 10 {
        out.push(digit_to_char(n));
        assert(out@ =~= old(out)@ + dec_rep(n as nat));
    } else {
        push_dec_u64(out, n / 10);
        out.push(digit_to_char(n % 10));
        assert(out@ =~= old(out)@ + dec_rep(n as nat));
    }
}

/// Decimal representation of a signed value: a minus sign for negatives.
pub open spec fn dec_rep_i64(n: int) -> Seq<char> {
    if n < 0 {
        seq!['-'] + dec_rep((-n) as nat)
    } else {
        dec_rep(n as nat)
    }
}

/// Appends the decimal representation of the signed value `n` to `out`.
pub fn push_dec_i64(out: &mut Vec<char>, n: i64)
    ensures
        final(out)@ == old(out)@ + dec_rep_i64(n as int),
{
    if n < 0 {
        out.push('-');
        let m: u64 = if n == i64::MIN {
            9223372036854775808u64
        } else {
            (-n) as u64
        };
        assert(m == -(n as int));
        push_dec_u64(out, m);
        assert(out@ =~= old(out)@ + dec_rep_i64(n as int));
    } else {
        push_dec_u64(out, n as u64);
    }
}

/// Value of the digit run `s[from..to]`, saturated at `u64::MAX`.
///
/// Returns the exact value when it fits; `u64::MAX` when the run denotes a
/// larger number.
pub fn parse_digits_saturating(s: &Vec<char>, from: usize, to: usize) -> (r: u64)
    requires
        from <= to <= s@.len(),
        forall|k: int| from <= k < to ==> is_digit_char(s@[k]),
    ensures
        digits_val(s@.subrange(from as int, to as int)) <= u64::MAX ==> r == digits_val(
            s@.subrange(from as int, to as int),
        ),
        digits_val(s@.subrange(from as int, to as int)) > u64::MAX ==> r == u64::MAX,
{
    let mut acc: u64 = 0;
    let mut sat: bool = false;
    let mut i: usize = from;
    while i < to
        invariant
            from <= i <= to <= s@.len(),
            forall|k: int| from <= k < to ==> is_digit_char(s@[k]),
            !sat ==> acc == digits_val(s@.subrange(from as int, i as int)),
            sat ==> digits_val(s@.subrange(from as int, i as int)) > u64::MAX,
            sat ==> acc == u64::MAX,
        decreases to - i,
    {
        let ghost pre = s@.subrange(from as int, i as int);
        let ghost cur = s@.subrange(from as int, i as int + 1);
        proof {
            assert(cur.drop_last() =~= pre);
            assert(cur.last() == s@[i as int]);
            assert(digits_val(cur) == digits_val(pre) * 10 + digit_val(s@[i as int]));
        }
        let d = digit_value(s[i]);
        if sat {
            proof {
                assert(digits_val(cur) >= digits_val(pre));
            }
        } else {
            if acc > (u64::MAX - d) / 10 {
                proof {
                    assert(acc * 10 + d > u64::MAX) by (nonlinear_arith)
                        requires
                            acc > (u64::MAX - d) / 10,
                            d < 10,
                    ;
                }
                sat = true;
                acc = u64::MAX;
            } else {
                proof {
                    assert(acc * 10 + d <= u64::MAX) by (nonlinear_arith)
                        requires
                            acc <= (u64::MAX - d) / 10,
                            d < 10,
                    ;
                }
                acc = acc * 10 + d;
            }
        }
        i = i + 1;
    }
    assert(s@.subrange(from as int, to as int) =~= s@.subrange(from as int, to as int));
    acc
}

/// Exact value of the digit run `s[from..to]`; `None` when it denotes a
/// number above `u64::MAX`.
pub fn parse_digits_checked(s: &Vec<char>, from: usize, to: usize) -> (r: Option<u64>)
    requires
        from <= to <= s@.len(),
        forall|k: int| from <= k < to ==> is_digit_char(s@[k]),
    ensures
        match r {
            Some(v) => v == digits_val(s@.subrange(from as int, to as int)),
            None => digits_val(s@.subrange(from as int, to as int)) > u64::MAX,
        },
{
    let mut acc: u64 = 0;
    let mut i: usize = from;
    while i < to
        invariant
            from <= i <= to <= s@.len(),
            forall|k: int| from <= k < to ==> is_digit_char(s@[k]),
            acc == digits_val(s@.subrange(from as int, i as int)),
        decreases to - i,
    {
        let ghost pre = s@.subrange(from as int, i as int);
        let ghost cur = s@.subrange(from as int, i as int + 1);
        proof {
            assert(cur.drop_last() =~= pre);
            assert(cur.last() == s@[i as int]);
            assert(digits_val(cur) == digits_val(pre) * 10 + digit_val(s@[i as int]));
        }
        let d = digit_value(s[i]);
        if acc > (u64::MAX - d) / 10 {
            proof {
                assert(acc * 10 + d > u64::MAX) by (nonlinear_arith)
                    requires
                        acc > (u64::MAX - d) / 10,
                        d < 10,
                ;
                lemma_digits_val_grows(s@, from as int, i as int + 1, to as int);
            }
            return None;
        }
        proof {
            assert(acc * 10 + d <= u64::MAX) by (nonlinear_arith)
                requires
                    acc <= (u64::MAX - d) / 10,
                    d < 10,
            ;
        }
        acc = acc * 10 + d;
        i = i + 1;
    }
    assert(s@.subrange(from as int, to as int) =~= s@.subrange(from as int, to as int));
    Some(acc)
}

/// A digit run's value never shrinks as the run extends.
proof fn lemma_digits_val_grows(s: Seq<char>, from: int, mid: int, to: int)
    requires
        0 <= from <= mid <= to <= s.len(),
        forall|k: int| from <= k < to ==> is_digit_char(s[k]),
    ensures
        digits_val(s.subrange(from, to)) >= digits_val(s.subrange(from, mid)),
    decreases to - mid,
{
    if mid < to {
        lemma_digits_val_grows(s, from, mid + 1, to);
        let a = s.subrange(from, mid);
        let b = s.subrange(from, mid + 1);
        assert(b.drop_last() =~= a);
        assert(is_digit_char(b.last()));
        assert(digits_val(b) == digits_val(a) * 10 + digit_val(b.last()));
        lemma_digits_val_nonneg(a);
    }
}

/// A digit run's value is never negative.
proof fn lemma_digits_val_nonneg(s: Seq<char>)
    requires
        forall|k: int| 0 <= k < s.len() ==> is_digit_char(s[k]),
    ensures
        digits_val(s) >= 0,
    decreases s.len(),
{
    if s.len() > 0 {
        let t = s.drop_last();
        assert(forall|k: int| 0 <= k < t.len() ==> t[k] == s[k]);
        lemma_digits_val_nonneg(t);
        assert(is_digit_char(s.last()));
    }
}

/// Last position in `s[..end]` whose character fails `is_digit_char` and is
/// not `'.'`, scanning backward; `None` when every character there is a
/// digit or a dot.
pub fn rfind_not_digit_dot(s: &Vec<char>, end: usize) -> (r: Option<usize>)
    requires
        end <= s@.len(),
    ensures
        match r {
            Some(i) => i < end && !(is_digit_char(s@[i as int]) || s@[i as int] == '.') && (forall|
                j: int,
            |
                i < j < end ==> is_digit_char(s@[j]) || s@[j] == '.'),
            None => forall|j: int| 0 <= j < end ==> is_digit_char(s@[j]) || s@[j] == '.',
        },
{
    let mut i: usize = end;
    while i > 0
        invariant
            i <= end <= s@.len(),
            forall|j: int| i <= j < end ==> is_digit_char(s@[j]) || s@[j] == '.',
        decreases i,
    {
        i = i - 1;
        let c = s[i];
        if !(is_digit(c) || c == '.') {
            return Some(i);
        }
    }
    None
}

/// Last whitespace position in `s[..end]`, scanning backward.
pub fn rfind_ws(s: &Vec<char>, end: usize) -> (r: Option<usize>)
    requires
        end <= s@.len(),
    ensures
        match r {
            Some(i) => i < end && is_ws_char(s@[i as int]) && (forall|j: int|
                i < j < end ==> !is_ws_char(s@[j])),
            None => forall|j: int| 0 <= j < end ==> !is_ws_char(s@[j]),
        },
{
    let mut i: usize = end;
    while i > 0
        invariant
            i <= end <= s@.len(),
            forall|j: int| i <= j < end ==> !is_ws_char(s@[j]),
        decreases i,
    {
        i = i - 1;
        if is_ws(s[i]) {
            return Some(i);
        }
    }
    None
}

/// The parts from position `i` on, joined by `sep`.
pub open spec fn join_with_from(parts: Seq<Seq<char>>, sep: Seq<char>, i: int) -> Seq<char>
    decreases parts.len() - i,
{
    if i < 0 || i >= parts.len() {
        Seq::empty()
    } else if i == parts.len() - 1 {
        parts[i]
    } else {
        parts[i] + sep + join_with_from(parts, sep, i + 1)
    }
}

fn join_with_rec(parts: &Vec<Vec<char>>, sep: &str, i: usize) -> (r: Vec<char>)
    requires
        i <= parts@.len(),
    ensures
        r@ == join_with_from(parts.deep_view(), sep@, i as int),
    decreases parts@.len() - i,
{
    proof {
        assert(parts.deep_view().len() == parts@.len());
    }
    if i >= parts.len() {
        Vec::new()
    } else if i == parts.len() - 1 {
        let mut r: Vec<char> = Vec::new();
        extend_chars(&mut r, &parts[i]);
        assert(r@ =~= join_with_from(parts.deep_view(), sep@, i as int));
        r
    } else {
        let mut r: Vec<char> = Vec::new();
        extend_chars(&mut r, &parts[i]);
        extend_str(&mut r, sep);
        let rest = join_with_rec(parts, sep, i + 1);
        extend_chars(&mut r, &rest);
        assert(r@ =~= join_with_from(parts.deep_view(), sep@, i as int));
        r
    }
}

/// Joins the parts with the separator `sep`.
pub fn join_with(parts: &Vec<Vec<char>>, sep: &str) -> (r: Vec<char>)
    ensures
        r@ == join_with_from(parts.deep_view(), sep@, 0),
{
    join_with_rec(parts, sep, 0)
}

/// Joins the parts from position `from` on with the separator `sep`.
pub fn join_with_suffix(parts: &Vec<Vec<char>>, sep: &str, from: usize) -> (r: Vec<char>)
    requires
        from <= parts@.len(),
    ensures
        r@ == join_with_from(parts.deep_view(), sep@, from as int),
{
    join_with_rec(parts, sep, from)
}

/// Copies `s[from..to]` into a fresh vector.
pub fn slice_chars(s: &Vec<char>, from: usize, to: usize) -> (r: Vec<char>)
    requires
        from <= to <= s@.len(),
    ensures
        r@ == s@.subrange(from as int, to as int),
{
    let mut r: Vec<char> = Vec::new();
    let mut i: usize = from;
    while i < to
        invariant
            from <= i <= to <= s@.len(),
            r@ == s@.subrange(from as int, i as int),
        decreases to - i,
    {
        r.push(s[i]);
        i = i + 1;
    }
    assert(r@ =~= s@.subrange(from as int, to as int));
    r
}

} // verus!
