//! Lexical layer of the text wire protocol: tokenisation on Unicode
//! whitespace (in its UTF-8 encoding),
//! unsigned decimal integers and the textual shape of real numbers.

use vstd::prelude::*;

verus! {

/// ASCII whitespace: space, tab, line feed, vertical tab, form feed,
/// carriage return.
pub open spec fn is_space(b: u8) -> bool {
    b == 32u8 || (9u8 <= b && b <= 13u8)
}

pub open spec fn is_digit(b: u8) -> bool {
    48u8 <= b && b <= 57u8
}

/// The two-byte UTF-8 encodings of Unicode whitespace: U+0085 and U+00A0.
pub open spec fn is_space2(a: u8, b: u8) -> bool {
    a == 0xC2u8 && (b == 0x85u8 || b == 0xA0u8)
}

/// The three-byte UTF-8 encodings of Unicode whitespace: U+1680,
/// U+2000 to U+200A, U+2028, U+2029, U+202F, U+205F and U+3000.
pub open spec fn is_space3(a: u8, b: u8, c: u8) -> bool {
    ||| a == 0xE1u8 && b == 0x9Au8 && c == 0x80u8
    ||| a == 0xE2u8 && b == 0x80u8 && ((0x80u8 <= c && c <= 0x8Au8) || c == 0xA8u8 || c
        == 0xA9u8 || c == 0xAFu8)
    ||| a == 0xE2u8 && b == 0x81u8 && c == 0x9Fu8
    ||| a == 0xE3u8 && b == 0x80u8 && c == 0x80u8
}

/// Length of the UTF-8 encoded whitespace character that starts at `j` in
/// `s` (Unicode `White_Space`, as `char::is_whitespace` has it), or 0.
pub open spec fn space_at(s: Seq<u8>, j: int) -> nat {
    if 0 <= j < s.len() && is_space(s[j]) {
        1
    } else if 0 <= j && j + 1 < s.len() && is_space2(s[j], s[j + 1]) {
        2
    } else if 0 <= j && j + 2 < s.len() && is_space3(s[j], s[j + 1], s[j + 2]) {
        3
    } else {
        0
    }
}

/// Length of the whitespace character that ends `s`, or 0.
pub open spec fn space_suffix(s: Seq<u8>) -> nat {
    let n = s.len() as int;
    if n >= 1 && is_space(s[n - 1]) {
        1
    } else if n >= 2 && is_space2(s[n - 2], s[n - 1]) {
        2
    } else if n >= 3 && is_space3(s[n - 3], s[n - 2], s[n - 1]) {
        3
    } else {
        0
    }
}

/// Scanner state after reading `s`: the completed tokens and the token
/// currently being read. Whitespace is any Unicode whitespace character in
/// its UTF-8 encoding.
pub open spec fn scan(s: Seq<u8>) -> (Seq<Seq<u8>>, Seq<u8>)
    decreases s.len(),
{
    if s.len() == 0 {
        (Seq::empty(), Seq::empty())
    } else if space_suffix(s) > 0 {
        let (done, cur) = scan(s.subrange(0, s.len() - space_suffix(s)));
        if cur.len() > 0 {
            (done.push(cur), Seq::empty())
        } else {
            (done, Seq::empty())
        }
    } else {
        let (done, cur) = scan(s.drop_last());
        (done, cur.push(s.last()))
    }
}

/// The maximal runs of `s` free of whitespace characters, in order.
pub open spec fn tokens(s: Seq<u8>) -> Seq<Seq<u8>> {
    let (done, cur) = scan(s);
    if cur.len() > 0 {
        done.push(cur)
    } else {
        done
    }
}

/// Value of a run of decimal digits.
pub open spec fn digits_value(s: Seq<u8>) -> nat
    decreases s.len(),
{
    if s.len() == 0 {
        0
    } else {
        digits_value(s.drop_last()) * 10 + (s.last() - 48u8) as nat
    }
}

pub open spec fn all_digits(s: Seq<u8>) -> bool {
    forall|i: int| 0 <= i < s.len() ==> is_digit(#[trigger] s[i])
}

/// The digits of an unsigned integer literal: an optional `+` followed by
/// at least one decimal digit.
pub open spec fn unsigned_digits(s: Seq<u8>) -> Option<Seq<u8>> {
    let d = if s.len() > 0 && s[0] == 43u8 {
        s.subrange(1, s.len() as int)
    } else {
        s
    };
    if d.len() > 0 && all_digits(d) {
        Some(d)
    } else {
        None
    }
}

/// The value of an unsigned integer literal that does not exceed `max`.
pub open spec fn parse_unsigned(s: Seq<u8>, max: nat) -> Option<nat> {
    match unsigned_digits(s) {
        Some(d) => if digits_value(d) <= max {
            Some(digits_value(d))
        } else {
            None
        },
        None => None,
    }
}

/// Canonical decimal digits of `n` (no leading zero, `0` for zero).
pub open spec fn decimal(n: nat) -> Seq<u8>
    decreases n,
{
    if n < 10 {
        seq![(48 + n) as u8]
    } else {
        decimal(n / 10).push((48 + n % 10) as u8)
    }
}

pub(crate) proof fn lemma_digits_value_step(s: Seq<u8>, b: u8)
    ensures
        digits_value(s.push(b)) == digits_value(s) * 10 + (b - 48u8) as nat,
{
    assert(s.push(b).drop_last() =~= s);
}

/// Law: the canonical decimal text of `n` is a run of digits whose value is
/// `n`, so printing then parsing an integer gives it back.
pub proof fn lemma_decimal_roundtrip(n: nat)
    ensures
        decimal(n).len() > 0,
        all_digits(decimal(n)),
        digits_value(decimal(n)) == n,
        decimal(n)[0] != 43u8,
        parse_unsigned(decimal(n), n) == Some(n),
    decreases n,
{
    if n < 10 {
        let d = decimal(n);
        assert(d.drop_last() =~= Seq::<u8>::empty());
        assert(d.len() == 1 && is_digit(d[0]));
        assert(d.last() == (48 + n) as u8);
        assert(((48 + n) as u8) as int == 48 + n);
        assert(digits_value(d) == digits_value(d.drop_last()) * 10 + (d.last() - 48u8) as nat);
        assert(digits_value(d) == n);
        assert(unsigned_digits(d) == Some(d));
    } else {
        lemma_decimal_roundtrip(n / 10);
        let d = decimal(n / 10);
        lemma_digits_value_step(d, (48 + n % 10) as u8);
        assert((n / 10) * 10 + n % 10 == n) by (nonlinear_arith);
        assert(decimal(n)[0] == d[0]);
        assert(digits_value(decimal(n)) == n);
        assert(unsigned_digits(decimal(n)) == Some(decimal(n)));
        assert forall|i: int| 0 <= i < d.push((48 + n % 10) as u8).len() implies is_digit(
            #[trigger] d.push((48 + n % 10) as u8)[i],
        ) by {
            if i < d.len() {
                assert(d.push((48 + n % 10) as u8)[i] == d[i]);
            }
        }
    }
}

/// Encodes `n` as canonical decimal text.
pub fn encode_decimal(n: u64) -> (r: Vec<u8>)
    ensures
        r@ == decimal(n as nat),
    decreases n,
{
    if n < 10 {
        let mut v = Vec::new();
        v.push((48 + n) as u8);
        proof {
            assert(v@ =~= decimal(n as nat));
        }
        v
    } else {
        let mut v = encode_decimal(n / 10);
        v.push((48 + n % 10) as u8);
        v
    }
}

/// Parses an unsigned integer literal not exceeding `max`.
pub fn parse_unsigned_literal(s: &[u8], max: u64) -> (r: Option<u64>)
    ensures
        match parse_unsigned(s@, max as nat) {
            Some(v) => r == Some(v as u64),
            None => r is None,
        },
{
    let n = s.len();
    let start: usize = if n > 0 && s[0] == 43u8 {
        1
    } else {
        0
    };
    let ghost d = if s@.len() > 0 && s@[0] == 43u8 {
        s@.subrange(1, s@.len() as int)
    } else {
        s@
    };
    if start >= n {
        proof {
            assert(d.len() == 0);
        }
        return None;
    }
    let mut value: u64 = 0;
    let mut overflow = false;
    let mut i = start;
    while i < n
        invariant
            start <= i <= n,
            n == s@.len(),
            start < n,
            d == s@.subrange(start as int, n as int),
            d == (if s@.len() > 0 && s@[0] == 43u8 {
                s@.subrange(1, s@.len() as int)
            } else {
                s@
            }),
            all_digits(s@.subrange(start as int, i as int)),
            !overflow ==> value as nat == digits_value(s@.subrange(start as int, i as int)) && value
                <= max,
            overflow ==> digits_value(s@.subrange(start as int, i as int)) > max,
        decreases n - i,
    {
        let b = s[i];
        if !(48u8 <= b && b <= 57u8) {
            proof {
                assert(d[i - start] == b);
                assert(!is_digit(d[i - start]));
                assert(!all_digits(d));
            }
            return None;
        }
        let digit = (b - 48u8) as u64;
        proof {
            let p = s@.subrange(start as int, i as int);
            let q = s@.subrange(start as int, i as int + 1);
            assert(q =~= p.push(b));
            lemma_digits_value_step(p, b);
            assert forall|k: int| 0 <= k < q.len() implies is_digit(#[trigger] q[k]) by {
                if k < p.len() {
                    assert(q[k] == p[k]);
                }
            }
        }
        if !overflow {
            if digit > max || value > (max - digit) / 10 {
                proof {
                    if digit <= max {
                        assert(value * 10 + digit > max) by (nonlinear_arith)
                            requires
                                value > (max - digit) / 10,
                                digit <= max,
                        ;
                    }
                }
                overflow = true;
            } else {
                proof {
                    assert(value * 10 + digit <= max) by (nonlinear_arith)
                        requires
                            value <= (max - digit) / 10,
                            digit <= max,
                    ;
                }
                value = value * 10 + digit;
            }
        } else {
            proof {
                let p = s@.subrange(start as int, i as int);
                assert(digits_value(p) * 10 + digit as nat > max) by (nonlinear_arith)
                    requires
                        digits_value(p) > max,
                ;
            }
        }
        i = i + 1;
    }
    proof {
        assert(s@.subrange(start as int, n as int) =~= d);
    }
    if overflow {
        None
    } else {
        Some(value)
    }
}


/// The byte contents of a list of byte vectors.
pub open spec fn views(v: Seq<Vec<u8>>) -> Seq<Seq<u8>> {
    v.map_values(|t: Vec<u8>| t@)
}

/// Length of the whitespace character that starts at `i` in `s`, or 0.
fn space_len_at(s: &[u8], i: usize) -> (k: usize)
    requires
        i < s@.len(),
    ensures
        k == space_at(s@, i as int),
{
    let n = s.len();
    let a = s[i];
    if a == 32u8 || (9u8 <= a && a <= 13u8) {
        1
    } else if n - i > 1 && a == 0xC2u8 && (s[i + 1] == 0x85u8 || s[i + 1] == 0xA0u8) {
        2
    } else if n - i > 2 {
        let b = s[i + 1];
        let c = s[i + 2];
        if (a == 0xE1u8 && b == 0x9Au8 && c == 0x80u8) || (a == 0xE2u8 && b == 0x80u8 && ((0x80u8
            <= c && c <= 0x8Au8) || c == 0xA8u8 || c == 0xA9u8 || c == 0xAFu8)) || (a == 0xE2u8
            && b == 0x81u8 && c == 0x9Fu8) || (a == 0xE3u8 && b == 0x80u8 && c == 0x80u8) {
            3
        } else {
            0
        }
    } else {
        0
    }
}

/// A whitespace character only starts at an ASCII whitespace byte or at
/// one of the lead bytes 0xC2, 0xE1, 0xE2, 0xE3; its later bytes are
/// continuation bytes, where none starts.
proof fn lemma_space_starts(s: Seq<u8>, j: int)
    ensures
        space_at(s, j) > 0 ==> (is_space(s[j]) || s[j] == 0xC2u8 || s[j] == 0xE1u8 || s[j]
            == 0xE2u8 || s[j] == 0xE3u8),
        space_at(s, j) > 1 ==> forall|k: int|
            j < k < j + space_at(s, j) ==> 0x80u8 <= #[trigger] s[k] && s[k] <= 0xBFu8,
{
}

/// Reading `s` from the front, a whitespace character found at `i` ends
/// exactly there, and a byte at `i` that starts none ends none, provided no
/// whitespace character straddles `i`.
proof fn lemma_scan_step(s: Seq<u8>, i: int)
    requires
        0 <= i < s.len(),
        forall|j: int| 0 <= j < i && space_at(s, j) > 0 ==> j + space_at(s, j) <= i,
    ensures
        space_at(s, i) > 0 ==> space_suffix(s.take(i + space_at(s, i) as int)) == space_at(s, i),
        space_at(s, i) == 0 ==> space_suffix(s.take(i + 1)) == 0,
{
    let k = space_at(s, i) as int;
    if k > 0 {
        let t = s.take(i + k);
        assert(t[i + k - 1] == s[i + k - 1]);
        if k >= 2 {
            assert(t[i + k - 2] == s[i + k - 2]);
        }
        if k == 3 {
            assert(t[i] == s[i]);
        }
    } else {
        let t = s.take(i + 1);
        assert(t[i] == s[i]);
        if i >= 1 {
            assert(t[i - 1] == s[i - 1]);
            if is_space2(s[i - 1], s[i]) {
                assert(space_at(s, i - 1) == 2);
            }
        }
        if i >= 2 {
            assert(t[i - 2] == s[i - 2]);
            if is_space3(s[i - 2], s[i - 1], s[i]) {
                assert(!is_space(s[i - 2]));
                assert(!is_space2(s[i - 2], s[i - 1]));
                assert(space_at(s, i - 2) == 3);
            }
        }
    }
}

/// Splits `s` into its maximal runs of non-whitespace bytes.
pub fn split_tokens(s: &[u8]) -> (r: Vec<Vec<u8>>)
    ensures
        views(r@) == tokens(s@),
{
    let n = s.len();
    let mut done: Vec<Vec<u8>> = Vec::new();
    let mut cur: Vec<u8> = Vec::new();
    let mut i: usize = 0;
    while i < n
        invariant
            n == s@.len(),
            i <= n,
            (views(done@), cur@) == scan(s@.take(i as int)),
            forall|j: int| 0 <= j < i && space_at(s@, j) > 0 ==> j + space_at(s@, j) <= i,
        decreases n - i,
    {
        proof {
            lemma_scan_step(s@, i as int);
        }
        let k = space_len_at(s, i);
        if k > 0 {
            proof {
                let t = s@.take(i + k);
                assert(t.subrange(0, t.len() - space_suffix(t)) =~= s@.take(i as int));
                lemma_space_starts(s@, i as int);
                assert forall|j: int|
                    0 <= j < i + k && space_at(s@, j) > 0 implies j + space_at(s@, j) <= i
                    + k by {
                    if i < j < i + k {
                        lemma_space_starts(s@, j);
                        assert(0x80u8 <= s@[j] && s@[j] <= 0xBFu8);
                    }
                }
            }
            if cur.len() > 0 {
                let ghost before = done@;
                let token = cur;
                done.push(token);
                proof {
                    assert(views(done@) =~= views(before).push(token@));
                }
                cur = Vec::new();
            }
            i = i + k;
        } else {
            proof {
                assert(s@.take(i as int + 1).drop_last() =~= s@.take(i as int));
                assert(s@.take(i as int + 1).last() == s@[i as int]);
            }
            cur.push(s[i]);
            i = i + 1;
        }
    }
    proof {
        assert(s@.take(n as int) =~= s@);
    }
    if cur.len() > 0 {
        let ghost before = done@;
        let token = cur;
        done.push(token);
        proof {
            assert(views(done@) =~= views(before).push(token@));
        }
    }
    done
}

/// Whether `t` and `w` hold the same bytes.
pub fn bytes_eq(t: &[u8], w: &[u8]) -> (r: bool)
    ensures
        r == (t@ == w@),
{
    if t.len() != w.len() {
        return false;
    }
    let mut i: usize = 0;
    while i < t.len()
        invariant
            i <= t@.len(),
            t@.len() == w@.len(),
            forall|j: int| 0 <= j < i ==> t@[j] == w@[j],
        decreases t@.len() - i,
    {
        if t[i] != w[i] {
            return false;
        }
        i = i + 1;
    }
    proof {
        assert(t@ =~= w@);
    }
    true
}

/// ASCII lower-casing of one byte.
pub open spec fn lower(b: u8) -> u8 {
    if 65u8 <= b && b <= 90u8 {
        (b + 32) as u8
    } else {
        b
    }
}

/// `s` spells the lower-case word `w`, ignoring ASCII case.
pub open spec fn eq_ignore_case(s: Seq<u8>, w: Seq<u8>) -> bool {
    s.len() == w.len() && forall|i: int| 0 <= i < s.len() ==> lower(#[trigger] s[i]) == w[i]
}

/// Index of the first byte of `s` equal to `a` or `b`.
pub open spec fn first_of(s: Seq<u8>, a: u8, b: u8) -> Option<int>
    decreases s.len(),
{
    if s.len() == 0 {
        None
    } else {
        match first_of(s.drop_last(), a, b) {
            Some(i) => Some(i),
            None => if s.last() == a || s.last() == b {
                Some(s.len() - 1)
            } else {
                None
            },
        }
    }
}

/// Decimal mantissa: digits, optionally one `.` and more digits, with at
/// least one digit in all.
pub open spec fn is_mantissa(m: Seq<u8>) -> bool {
    match first_of(m, 46u8, 46u8) {
        None => m.len() > 0 && all_digits(m),
        Some(d) => all_digits(m.subrange(0, d)) && all_digits(m.subrange(d + 1, m.len() as int))
            && m.len() > 1,
    }
}

/// Exponent digits: an optional sign then at least one digit.
pub open spec fn is_exponent(e: Seq<u8>) -> bool {
    let d = if e.len() > 0 && (e[0] == 43u8 || e[0] == 45u8) {
        e.subrange(1, e.len() as int)
    } else {
        e
    };
    d.len() > 0 && all_digits(d)
}

/// An unsigned real number: a mantissa with an optional `e`/`E` exponent.
pub open spec fn is_number(b: Seq<u8>) -> bool {
    match first_of(b, 101u8, 69u8) {
        None => is_mantissa(b),
        Some(k) => is_mantissa(b.subrange(0, k)) && is_exponent(b.subrange(k + 1, b.len() as int)),
    }
}

pub open spec fn word_inf() -> Seq<u8> {
    seq![105u8, 110u8, 102u8]
}

pub open spec fn word_infinity() -> Seq<u8> {
    seq![105u8, 110u8, 102u8, 105u8, 110u8, 105u8, 116u8, 121u8]
}

pub open spec fn word_nan() -> Seq<u8> {
    seq![110u8, 97u8, 110u8]
}

/// The text a real number (`f64`) is read from: an optional sign, then
/// `inf`, `infinity` or `nan` in any case, or a decimal number with an
/// optional exponent.
pub open spec fn is_real_text(s: Seq<u8>) -> bool {
    let b = if s.len() > 0 && (s[0] == 43u8 || s[0] == 45u8) {
        s.subrange(1, s.len() as int)
    } else {
        s
    };
    eq_ignore_case(b, word_inf()) || eq_ignore_case(b, word_infinity()) || eq_ignore_case(
        b,
        word_nan(),
    ) || is_number(b)
}

pub(crate) fn find_first_of(s: &[u8], lo: usize, hi: usize, a: u8, b: u8) -> (r: Option<usize>)
    requires
        lo <= hi <= s@.len(),
    ensures
        match first_of(s@.subrange(lo as int, hi as int), a, b) {
            Some(k) => r matches Some(i) && i == lo + k,
            None => r is None,
        },
        r matches Some(i) ==> lo <= i < hi,
{
    proof {
        lemma_first_of_bounds(s@.subrange(lo as int, hi as int), a, b);
    }
    let mut i = lo;
    while i < hi
        invariant
            lo <= i <= hi <= s@.len(),
            first_of(s@.subrange(lo as int, i as int), a, b) is None,
        decreases hi - i,
    {
        proof {
            assert(s@.subrange(lo as int, i as int + 1).drop_last() =~= s@.subrange(
                lo as int,
                i as int,
            ));
        }
        if s[i] == a || s[i] == b {
            proof {
                lemma_first_of_extend(s@, lo as int, i as int + 1, hi as int, a, b);
            }
            return Some(i);
        }
        i = i + 1;
    }
    None
}

pub(crate) proof fn lemma_first_of_bounds(s: Seq<u8>, a: u8, b: u8)
    ensures
        first_of(s, a, b) matches Some(k) ==> 0 <= k < s.len() && (s[k] == a || s[k] == b),
    decreases s.len(),
{
    if s.len() > 0 {
        lemma_first_of_bounds(s.drop_last(), a, b);
    }
}

proof fn lemma_first_of_extend(s: Seq<u8>, lo: int, k: int, hi: int, a: u8, b: u8)
    requires
        0 <= lo <= k <= hi <= s.len(),
        first_of(s.subrange(lo, k), a, b) is Some,
    ensures
        first_of(s.subrange(lo, hi), a, b) == first_of(s.subrange(lo, k), a, b),
    decreases hi - k,
{
    if k < hi {
        lemma_first_of_extend(s, lo, k, hi - 1, a, b);
        assert(s.subrange(lo, hi).drop_last() =~= s.subrange(lo, hi - 1));
    }
}

pub(crate) fn digits_in(s: &[u8], lo: usize, hi: usize) -> (r: bool)
    requires
        lo <= hi <= s@.len(),
    ensures
        r == all_digits(s@.subrange(lo as int, hi as int)),
{
    let mut i = lo;
    while i < hi
        invariant
            lo <= i <= hi <= s@.len(),
            all_digits(s@.subrange(lo as int, i as int)),
        decreases hi - i,
    {
        if !(48u8 <= s[i] && s[i] <= 57u8) {
            proof {
                assert(s@.subrange(lo as int, hi as int)[i - lo] == s@[i as int]);
            }
            return false;
        }
        proof {
            let p = s@.subrange(lo as int, i as int + 1);
            assert forall|j: int| 0 <= j < p.len() implies is_digit(#[trigger] p[j]) by {
                if j < i - lo {
                    assert(p[j] == s@.subrange(lo as int, i as int)[j]);
                }
            }
        }
        i = i + 1;
    }
    true
}

pub(crate) fn ignore_case_in(s: &[u8], lo: usize, hi: usize, w: &[u8]) -> (r: bool)
    requires
        lo <= hi <= s@.len(),
        forall|i: int| 0 <= i < w@.len() ==> !(65u8 <= #[trigger] w@[i] && w@[i] <= 90u8),
    ensures
        r == eq_ignore_case(s@.subrange(lo as int, hi as int), w@),
{
    if hi - lo != w.len() {
        return false;
    }
    let mut i: usize = 0;
    while i < w.len()
        invariant
            lo <= hi <= s@.len(),
            hi - lo == w@.len(),
            i <= w@.len(),
            forall|j: int| 0 <= j < i ==> lower(#[trigger] s@[lo + j]) == w@[j],
        decreases w@.len() - i,
    {
        let c = s[lo + i];
        let l = if 65u8 <= c && c <= 90u8 {
            c + 32
        } else {
            c
        };
        if l != w[i] {
            proof {
                assert(s@.subrange(lo as int, hi as int)[i as int] == s@[lo + i]);
            }
            return false;
        }
        i = i + 1;
    }
    proof {
        let t = s@.subrange(lo as int, hi as int);
        assert forall|j: int| 0 <= j < t.len() implies lower(#[trigger] t[j]) == w@[j] by {
            assert(t[j] == s@[lo + j]);
        }
    }
    true
}

fn mantissa_in(s: &[u8], lo: usize, hi: usize) -> (r: bool)
    requires
        lo <= hi <= s@.len(),
    ensures
        r == is_mantissa(s@.subrange(lo as int, hi as int)),
{
    let m = Ghost(s@.subrange(lo as int, hi as int));
    match find_first_of(s, lo, hi, 46u8, 46u8) {
        None => hi > lo && digits_in(s, lo, hi),
        Some(d) => {
            proof {
                assert(m@.subrange(0, d - lo) =~= s@.subrange(lo as int, d as int));
                assert(m@.subrange(d - lo + 1, m@.len() as int) =~= s@.subrange(
                    d + 1,
                    hi as int,
                ));
            }
            digits_in(s, lo, d) && digits_in(s, d + 1, hi) && hi - lo > 1
        },
    }
}

fn exponent_in(s: &[u8], lo: usize, hi: usize) -> (r: bool)
    requires
        lo <= hi <= s@.len(),
    ensures
        r == is_exponent(s@.subrange(lo as int, hi as int)),
{
    let e = Ghost(s@.subrange(lo as int, hi as int));
    let start = if hi > lo && (s[lo] == 43u8 || s[lo] == 45u8) {
        lo + 1
    } else {
        lo
    };
    proof {
        assert(e@.len() > 0 ==> e@[0] == s@[lo as int]);
        if start == lo + 1 {
            assert(e@.subrange(1, e@.len() as int) =~= s@.subrange(start as int, hi as int));
        }
    }
    hi > start && digits_in(s, start, hi)
}

/// Whether `s` is the text of a real number.
pub fn real_text(s: &[u8]) -> (r: bool)
    ensures
        r == is_real_text(s@),
{
    let n = s.len();
    let lo: usize = if n > 0 && (s[0] == 43u8 || s[0] == 45u8) {
        1
    } else {
        0
    };
    let ghost b = s@.subrange(lo as int, n as int);
    proof {
        if lo == 0 {
            assert(b =~= s@);
        }
    }
    if ignore_case_in(s, lo, n, &[105u8, 110u8, 102u8]) || ignore_case_in(
        s,
        lo,
        n,
        &[105u8, 110u8, 102u8, 105u8, 110u8, 105u8, 116u8, 121u8],
    ) || ignore_case_in(s, lo, n, &[110u8, 97u8, 110u8]) {
        return true;
    }
    match find_first_of(s, lo, n, 101u8, 69u8) {
        None => mantissa_in(s, lo, n),
        Some(k) => {
            proof {
                assert(b.subrange(0, k - lo) =~= s@.subrange(lo as int, k as int));
                assert(b.subrange(k - lo + 1, b.len() as int) =~= s@.subrange(k + 1, n as int));
            }
            mantissa_in(s, lo, k) && exponent_in(s, k + 1, n)
        },
    }
}

/// A copy of `v`.
pub fn copy_bytes(v: &Vec<u8>) -> (r: Vec<u8>)
    ensures
        r@ == v@,
{
    let r = v.clone();
    proof {
        assert(r@ =~= v@);
    }
    r
}

/// A received line with its ending (`\n` or `\r\n`) reduced to a single
/// line feed; a line without ending gets one.
pub open spec fn normalized_line(b: Seq<u8>) -> Seq<u8> {
    let b1 = if b.len() > 0 && b.last() == 10u8 {
        b.drop_last()
    } else {
        b
    };
    let b2 = if b1.len() > 0 && b1.last() == 13u8 {
        b1.drop_last()
    } else {
        b1
    };
    b2.push(10u8)
}

/// Reduces the ending of a received line to a single line feed.
pub fn normalize_line_ending(bytes: Vec<u8>) -> (r: Vec<u8>)
    ensures
        r@ == normalized_line(bytes@),
{
    let mut b = bytes;
    if b.len() > 0 && b[b.len() - 1] == 10u8 {
        b.pop();
    }
    if b.len() > 0 && b[b.len() - 1] == 13u8 {
        b.pop();
    }
    b.push(10u8);
    b
}

} // verus!
