//! Whether the text of a real number reads as a finite `f64`.
//!
//! A correctly rounded reading of decimal text overflows to an infinity
//! exactly when the magnitude it names is at least halfway between the
//! largest finite `f64` and `2^1024`. The check here decides that bound on
//! the digits themselves, without any floating-point arithmetic.

use vstd::prelude::*;
use vstd::arithmetic::div_mod::lemma_breakdown;
use vstd::arithmetic::power::{lemma_pow1, lemma_pow_adds, pow};
use vstd::arithmetic::power2::pow2;
use crate::wire::{
    all_digits, digits_value, eq_ignore_case, first_of, is_digit, is_exponent, is_mantissa,
    is_number, is_real_text, lemma_digits_value_step, find_first_of, ignore_case_in,
    lemma_first_of_bounds, real_text, word_inf, word_infinity, word_nan,
};

verus! {

/// Ten to the power `n`.
pub open spec fn pow10(n: nat) -> nat
    decreases n,
{
    if n == 0 {
        1
    } else {
        10 * pow10((n - 1) as nat)
    }
}

/// `2^1024 - 2^970`, halfway between the largest finite `f64`
/// (`(2^53 - 1) * 2^971`) and `2^1024`. Reading text whose magnitude is at
/// least this value rounds to an infinity; a smaller magnitude reads as a
/// finite value.
pub open spec fn f64_overflow_threshold() -> nat {
    179769313486231580793728971405303415079934132710037826936173778980444968292764750946649017977587207096330286416692887910946555547851940402630657488671505820681908902000708383676273854845817711531764475730270069855571366959622842914819860834936475292719074168444365510704342711559699508093042880177904174497792nat
}

/// The text with a leading sign removed.
pub open spec fn unsigned_part(s: Seq<u8>) -> Seq<u8> {
    if s.len() > 0 && (s[0] == 43u8 || s[0] == 45u8) {
        s.subrange(1, s.len() as int)
    } else {
        s
    }
}

/// `inf`, `infinity` or `nan`, in any case.
pub open spec fn is_word_form(b: Seq<u8>) -> bool {
    eq_ignore_case(b, word_inf()) || eq_ignore_case(b, word_infinity()) || eq_ignore_case(
        b,
        word_nan(),
    )
}

/// The mantissa of a decimal number: the text before its `e`/`E`.
pub open spec fn mantissa_text(b: Seq<u8>) -> Seq<u8> {
    match first_of(b, 101u8, 69u8) {
        None => b,
        Some(k) => b.subrange(0, k),
    }
}

/// The exponent of a decimal number: the text after its `e`/`E` (empty
/// when there is none).
pub open spec fn exponent_text(b: Seq<u8>) -> Seq<u8> {
    match first_of(b, 101u8, 69u8) {
        None => Seq::empty(),
        Some(k) => b.subrange(k + 1, b.len() as int),
    }
}

/// The digits of a mantissa with its decimal point removed.
pub open spec fn mantissa_digits(m: Seq<u8>) -> Seq<u8> {
    match first_of(m, 46u8, 46u8) {
        None => m,
        Some(d) => m.subrange(0, d) + m.subrange(d + 1, m.len() as int),
    }
}

/// How many digits of a mantissa follow its decimal point.
pub open spec fn fraction_len(m: Seq<u8>) -> int {
    match first_of(m, 46u8, 46u8) {
        None => 0,
        Some(d) => m.len() - d - 1,
    }
}

/// The digits of an exponent with its sign removed.
pub open spec fn exponent_digits(e: Seq<u8>) -> Seq<u8> {
    unsigned_part(e)
}

/// The value of an exponent (zero when it is empty).
pub open spec fn exponent_value(e: Seq<u8>) -> int {
    if e.len() > 0 && e[0] == 45u8 {
        -digits_value(exponent_digits(e))
    } else {
        digits_value(exponent_digits(e)) as int
    }
}

/// Whether `d * 10^p` is at least the overflow threshold.
pub open spec fn reaches_overflow(d: nat, p: int) -> bool {
    if p >= 0 {
        d * pow10(p as nat) >= f64_overflow_threshold()
    } else {
        d >= f64_overflow_threshold() * pow10((-p) as nat)
    }
}

/// The text of a real number that reads as a finite `f64`: neither an
/// infinity nor a NaN is spelled, and the magnitude named, the mantissa's
/// digits times ten to the exponent less the fraction's length, stays below
/// the overflow threshold.
pub open spec fn is_finite_real_text(s: Seq<u8>) -> bool {
    let b = unsigned_part(s);
    let m = mantissa_text(b);
    &&& is_real_text(s)
    &&& !is_word_form(b)
    &&& !reaches_overflow(
        digits_value(mantissa_digits(m)),
        exponent_value(exponent_text(b)) - fraction_len(m),
    )
}

proof fn lemma_pow10_positive(n: nat)
    ensures
        pow10(n) >= 1,
    decreases n,
{
    if n > 0 {
        lemma_pow10_positive((n - 1) as nat);
    }
}

proof fn lemma_pow10_add(a: nat, b: nat)
    ensures
        pow10(a + b) == pow10(a) * pow10(b),
    decreases b,
{
    if b == 0 {
        assert(a + b == a);
        assert(pow10(0) == 1);
        assert(pow10(a) * 1 == pow10(a));
    } else {
        let b1 = (b - 1) as nat;
        lemma_pow10_add(a, b1);
        let x = pow10(a);
        let y = pow10(b1);
        assert(a + b1 == (a + b - 1) as nat);
        assert(pow10(a + b1) == x * y);
        assert(pow10(a + b) == 10 * pow10(a + b1));
        let w = pow10(b);
        let v = pow10(a + b);
        assert(v == x * w) by (nonlinear_arith)
            requires
                v == 10 * (x * y),
                w == 10 * y,
        ;
    }
}

proof fn lemma_pow10_mono(a: nat, b: nat)
    requires
        a <= b,
    ensures
        pow10(a) <= pow10(b),
{
    lemma_pow10_add(a, (b - a) as nat);
    lemma_pow10_positive((b - a) as nat);
    assert(a + (b - a) as nat == b);
    let x = pow10(a);
    let y = pow10((b - a) as nat);
    assert(y >= 1 ==> x <= x * y) by (nonlinear_arith);
}

/// Value of a concatenation of digit runs.
proof fn lemma_digits_concat(a: Seq<u8>, b: Seq<u8>)
    ensures
        digits_value(a + b) == digits_value(a) * pow10(b.len()) + digits_value(b),
    decreases b.len(),
{
    if b.len() == 0 {
        assert(a + b =~= a);
        assert(pow10(0) == 1);
        assert(digits_value(b) == 0);
        assert(digits_value(a) * 1 == digits_value(a));
    } else {
        let bl = b.drop_last();
        lemma_digits_concat(a, bl);
        assert((a + b).drop_last() =~= a + bl);
        assert((a + b).last() == b.last());
        let x = digits_value(a);
        let y = pow10(bl.len());
        let z = digits_value(bl);
        let t = (b.last() - 48u8) as nat;
        assert(digits_value(a + bl) == x * y + z);
        assert(digits_value(a + b) == digits_value(a + bl) * 10 + t);
        assert(digits_value(b) == z * 10 + t);
        let w = pow10(b.len());
        let v = digits_value(a + b);
        let u = digits_value(b);
        assert(w == 10 * y);
        assert(v == x * w + u) by (nonlinear_arith)
            requires
                v == (x * y + z) * 10 + t,
                w == 10 * y,
                u == z * 10 + t,
        ;
    }
}

/// A run of `n` digits is worth less than `10^n`.
proof fn lemma_digits_below(s: Seq<u8>)
    requires
        all_digits(s),
    ensures
        digits_value(s) < pow10(s.len()),
    decreases s.len(),
{
    if s.len() > 0 {
        let sl = s.drop_last();
        assert(all_digits(sl)) by {
            assert forall|i: int| 0 <= i < sl.len() implies is_digit(#[trigger] sl[i]) by {
                assert(sl[i] == s[i]);
            }
        }
        lemma_digits_below(sl);
        assert(is_digit(s[s.len() - 1]));
    }
}

/// Zeros are worth nothing.
proof fn lemma_zeros_value(s: Seq<u8>)
    requires
        forall|i: int| 0 <= i < s.len() ==> #[trigger] s[i] == 48u8,
    ensures
        digits_value(s) == 0,
    decreases s.len(),
{
    if s.len() > 0 {
        let sl = s.drop_last();
        assert forall|i: int| 0 <= i < sl.len() implies #[trigger] sl[i] == 48u8 by {
            assert(sl[i] == s[i]);
        }
        lemma_zeros_value(sl);
        assert(s[s.len() - 1] == 48u8);
    }
}

/// A run of `n` digits that starts with a non-zero digit is worth at least
/// `10^(n-1)`.
proof fn lemma_digits_at_least(s: Seq<u8>)
    requires
        all_digits(s),
        s.len() > 0,
        s[0] != 48u8,
    ensures
        digits_value(s) >= pow10((s.len() - 1) as nat),
{
    let h = s.subrange(0, 1);
    let t = s.subrange(1, s.len() as int);
    assert(h + t =~= s);
    lemma_digits_concat(h, t);
    assert(h.drop_last() =~= Seq::<u8>::empty());
    assert(is_digit(s[0]));
    assert(h.last() == s[0]);
    assert(digits_value(h) == digits_value(h.drop_last()) * 10 + (h.last() - 48u8) as nat);
    assert(digits_value(h) == (s[0] - 48u8) as nat);
    assert(digits_value(h) >= 1);
    let x = digits_value(h);
    let y = pow10(t.len());
    assert(x >= 1 ==> x * y >= y) by (nonlinear_arith);
}

/// `w` decimal digits of `c`, the most significant first: the last `w`
/// digits of its decimal expansion, padded with leading zeros.
pub open spec fn fixed_digits(c: nat, w: nat) -> Seq<u8>
    decreases w,
{
    if w == 0 {
        Seq::empty()
    } else {
        fixed_digits(c / 10, (w - 1) as nat).push((48 + c % 10) as u8)
    }
}

proof fn lemma_fixed_digits(c: nat, w: nat)
    ensures
        fixed_digits(c, w).len() == w,
        all_digits(fixed_digits(c, w)),
        digits_value(fixed_digits(c, w)) == c % pow10(w),
    decreases w,
{
    if w == 0 {
        assert(pow10(0) == 1);
    } else {
        let w1 = (w - 1) as nat;
        let h = fixed_digits(c / 10, w1);
        let d = (48 + c % 10) as u8;
        lemma_fixed_digits(c / 10, w1);
        lemma_digits_value_step(h, d);
        let f = fixed_digits(c, w);
        assert(f == h.push(d));
        assert forall|i: int| 0 <= i < f.len() implies is_digit(#[trigger] f[i]) by {
            if i < h.len() {
                assert(f[i] == h[i]);
            }
        }
        lemma_pow10_positive(w1);
        lemma_breakdown(c as int, 10, pow10(w1) as int);
        assert(pow10(w) == 10 * pow10(w1));
        assert(digits_value(f) == digits_value(h) * 10 + (d - 48u8) as nat);
    }
}

proof fn lemma_pow10_18()
    ensures
        pow10(18) == 1000000000000000000nat,
{
    reveal_with_fuel(pow10, 19);
}

/// Appending an 18-digit chunk scales the value by `10^18`.
proof fn lemma_append_chunk(a: Seq<u8>, c: nat)
    requires
        c < 1000000000000000000nat,
    ensures
        digits_value(a + fixed_digits(c, 18)) == digits_value(a) * 1000000000000000000nat + c,
        (a + fixed_digits(c, 18)).len() == a.len() + 18,
        all_digits(a) ==> all_digits(a + fixed_digits(c, 18)),
{
    let f = fixed_digits(c, 18);
    lemma_fixed_digits(c, 18);
    lemma_pow10_18();
    lemma_digits_concat(a, f);
    let s = a + f;
    if all_digits(a) {
        assert forall|i: int| 0 <= i < s.len() implies is_digit(#[trigger] s[i]) by {
            if i < a.len() {
                assert(s[i] == a[i]);
            } else {
                assert(s[i] == f[i - a.len()]);
            }
        }
    }
}

/// The decimal digits of the overflow threshold.
pub open spec fn threshold_text() -> Seq<u8> {
    fixed_digits(179, 3)
        + fixed_digits(769313486231580793, 18)
        + fixed_digits(728971405303415079, 18)
        + fixed_digits(934132710037826936, 18)
        + fixed_digits(173778980444968292, 18)
        + fixed_digits(764750946649017977, 18)
        + fixed_digits(587207096330286416, 18)
        + fixed_digits(692887910946555547, 18)
        + fixed_digits(851940402630657488, 18)
        + fixed_digits(671505820681908902, 18)
        + fixed_digits(708383676273854, 18)
        + fixed_digits(845817711531764475, 18)
        + fixed_digits(730270069855571366, 18)
        + fixed_digits(959622842914819860, 18)
        + fixed_digits(834936475292719074, 18)
        + fixed_digits(168444365510704342, 18)
        + fixed_digits(711559699508093042, 18)
        + fixed_digits(880177904174497792, 18)
}

proof fn lemma_threshold_facts()
    ensures
        threshold_text().len() == 309,
        all_digits(threshold_text()),
        digits_value(threshold_text()) == f64_overflow_threshold(),
        pow10(308) <= f64_overflow_threshold(),
        f64_overflow_threshold() < pow10(309),
{
    let mut acc = fixed_digits(179, 3);
    lemma_fixed_digits(179, 3);
    reveal_with_fuel(pow10, 4);
    reveal_with_fuel(fixed_digits, 4);
    assert(acc[0] == 49u8);
    assert(pow10(3) == 1000);
    assert(digits_value(acc) == 179);
    lemma_append_chunk(acc, 769313486231580793);
    acc = acc + fixed_digits(769313486231580793, 18);
    lemma_append_chunk(acc, 728971405303415079);
    acc = acc + fixed_digits(728971405303415079, 18);
    lemma_append_chunk(acc, 934132710037826936);
    acc = acc + fixed_digits(934132710037826936, 18);
    lemma_append_chunk(acc, 173778980444968292);
    acc = acc + fixed_digits(173778980444968292, 18);
    lemma_append_chunk(acc, 764750946649017977);
    acc = acc + fixed_digits(764750946649017977, 18);
    lemma_append_chunk(acc, 587207096330286416);
    acc = acc + fixed_digits(587207096330286416, 18);
    lemma_append_chunk(acc, 692887910946555547);
    acc = acc + fixed_digits(692887910946555547, 18);
    lemma_append_chunk(acc, 851940402630657488);
    acc = acc + fixed_digits(851940402630657488, 18);
    lemma_append_chunk(acc, 671505820681908902);
    acc = acc + fixed_digits(671505820681908902, 18);
    lemma_append_chunk(acc, 708383676273854);
    acc = acc + fixed_digits(708383676273854, 18);
    lemma_append_chunk(acc, 845817711531764475);
    acc = acc + fixed_digits(845817711531764475, 18);
    lemma_append_chunk(acc, 730270069855571366);
    acc = acc + fixed_digits(730270069855571366, 18);
    lemma_append_chunk(acc, 959622842914819860);
    acc = acc + fixed_digits(959622842914819860, 18);
    lemma_append_chunk(acc, 834936475292719074);
    acc = acc + fixed_digits(834936475292719074, 18);
    lemma_append_chunk(acc, 168444365510704342);
    acc = acc + fixed_digits(168444365510704342, 18);
    lemma_append_chunk(acc, 711559699508093042);
    acc = acc + fixed_digits(711559699508093042, 18);
    lemma_append_chunk(acc, 880177904174497792);
    acc = acc + fixed_digits(880177904174497792, 18);
    assert(acc == threshold_text());
    assert(threshold_text()[0] == 49u8);
    lemma_digits_at_least(threshold_text());
    lemma_digits_below(threshold_text());
}

/// The overflow threshold is `2^1024 - 2^970`.
pub proof fn lemma_threshold_is_halfway()
    ensures
        f64_overflow_threshold() == pow2(1024) - pow2(970),
{
    lemma_pow1(2);
    lemma_pow_adds(2, 1, 1);
    assert(pow(2, 2) == 4int) by (nonlinear_arith)
        requires
            pow(2, 2) == pow(2, 1) * pow(2, 1),
            pow(2, 1) == 2int,
            pow(2, 1) == 2int,
    ;
    lemma_pow_adds(2, 2, 2);
    assert(pow(2, 4) == 16int) by (nonlinear_arith)
        requires
            pow(2, 4) == pow(2, 2) * pow(2, 2),
            pow(2, 2) == 4int,
            pow(2, 2) == 4int,
    ;
    lemma_pow_adds(2, 4, 4);
    assert(pow(2, 8) == 256int) by (nonlinear_arith)
        requires
            pow(2, 8) == pow(2, 4) * pow(2, 4),
            pow(2, 4) == 16int,
            pow(2, 4) == 16int,
    ;
    lemma_pow_adds(2, 8, 8);
    assert(pow(2, 16) == 65536int) by (nonlinear_arith)
        requires
            pow(2, 16) == pow(2, 8) * pow(2, 8),
            pow(2, 8) == 256int,
            pow(2, 8) == 256int,
    ;
    lemma_pow_adds(2, 16, 16);
    assert(pow(2, 32) == 4294967296int) by (nonlinear_arith)
        requires
            pow(2, 32) == pow(2, 16) * pow(2, 16),
            pow(2, 16) == 65536int,
            pow(2, 16) == 65536int,
    ;
    lemma_pow_adds(2, 32, 32);
    assert(pow(2, 64) == 18446744073709551616int) by (nonlinear_arith)
        requires
            pow(2, 64) == pow(2, 32) * pow(2, 32),
            pow(2, 32) == 4294967296int,
            pow(2, 32) == 4294967296int,
    ;
    lemma_pow_adds(2, 64, 64);
    assert(pow(2, 128) == 340282366920938463463374607431768211456int) by (nonlinear_arith)
        requires
            pow(2, 128) == pow(2, 64) * pow(2, 64),
            pow(2, 64) == 18446744073709551616int,
            pow(2, 64) == 18446744073709551616int,
    ;
    lemma_pow_adds(2, 128, 128);
    assert(pow(2, 256) == 115792089237316195423570985008687907853269984665640564039457584007913129639936int) by (nonlinear_arith)
        requires
            pow(2, 256) == pow(2, 128) * pow(2, 128),
            pow(2, 128) == 340282366920938463463374607431768211456int,
            pow(2, 128) == 340282366920938463463374607431768211456int,
    ;
    lemma_pow_adds(2, 256, 256);
    assert(pow(2, 512) == 13407807929942597099574024998205846127479365820592393377723561443721764030073546976801874298166903427690031858186486050853753882811946569946433649006084096int) by (nonlinear_arith)
        requires
            pow(2, 512) == pow(2, 256) * pow(2, 256),
            pow(2, 256) == 115792089237316195423570985008687907853269984665640564039457584007913129639936int,
            pow(2, 256) == 115792089237316195423570985008687907853269984665640564039457584007913129639936int,
    ;
    lemma_pow_adds(2, 512, 512);
    assert(pow(2, 1024) == 179769313486231590772930519078902473361797697894230657273430081157732675805500963132708477322407536021120113879871393357658789768814416622492847430639474124377767893424865485276302219601246094119453082952085005768838150682342462881473913110540827237163350510684586298239947245938479716304835356329624224137216int) by (nonlinear_arith)
        requires
            pow(2, 1024) == pow(2, 512) * pow(2, 512),
            pow(2, 512) == 13407807929942597099574024998205846127479365820592393377723561443721764030073546976801874298166903427690031858186486050853753882811946569946433649006084096int,
            pow(2, 512) == 13407807929942597099574024998205846127479365820592393377723561443721764030073546976801874298166903427690031858186486050853753882811946569946433649006084096int,
    ;
    lemma_pow_adds(2, 8, 2);
    assert(pow(2, 10) == 1024int) by (nonlinear_arith)
        requires
            pow(2, 10) == pow(2, 8) * pow(2, 2),
            pow(2, 8) == 256int,
            pow(2, 2) == 4int,
    ;
    lemma_pow_adds(2, 64, 10);
    assert(pow(2, 74) == 18889465931478580854784int) by (nonlinear_arith)
        requires
            pow(2, 74) == pow(2, 64) * pow(2, 10),
            pow(2, 64) == 18446744073709551616int,
            pow(2, 10) == 1024int,
    ;
    lemma_pow_adds(2, 128, 74);
    assert(pow(2, 202) == 6427752177035961102167848369364650410088811975131171341205504int) by (nonlinear_arith)
        requires
            pow(2, 202) == pow(2, 128) * pow(2, 74),
            pow(2, 128) == 340282366920938463463374607431768211456int,
            pow(2, 74) == 18889465931478580854784int,
    ;
    lemma_pow_adds(2, 256, 202);
    assert(pow(2, 458) == 744282853678701455922507579277316643178128753343813693728245963960974631028119473486019635930893891134220822124816566203939432067701407744int) by (nonlinear_arith)
        requires
            pow(2, 458) == pow(2, 256) * pow(2, 202),
            pow(2, 256) == 115792089237316195423570985008687907853269984665640564039457584007913129639936int,
            pow(2, 202) == 6427752177035961102167848369364650410088811975131171341205504int,
    ;
    lemma_pow_adds(2, 512, 458);
    assert(pow(2, 970) == 9979201547673599058281863565184192830337256302177287707512736212186059459344820328924789827463178505446712234220962476219862189941967968303695858991424157101600028364755428382587688607221814935913266783722719619966654052275604351944444276342240220787535604534378780208211792476151720049639424int) by (nonlinear_arith)
        requires
            pow(2, 970) == pow(2, 512) * pow(2, 458),
            pow(2, 512) == 13407807929942597099574024998205846127479365820592393377723561443721764030073546976801874298166903427690031858186486050853753882811946569946433649006084096int,
            pow(2, 458) == 744282853678701455922507579277316643178128753343813693728245963960974631028119473486019635930893891134220822124816566203939432067701407744int,
    ;
}

proof fn lemma_all_digits_subrange(s: Seq<u8>, lo: int, hi: int)
    requires
        all_digits(s),
        0 <= lo <= hi <= s.len(),
    ensures
        all_digits(s.subrange(lo, hi)),
{
    let t = s.subrange(lo, hi);
    assert forall|i: int| 0 <= i < t.len() implies is_digit(#[trigger] t[i]) by {
        assert(t[i] == s[lo + i]);
    }
}

/// Two digit runs of one length compare as their first differing digits do.
proof fn lemma_first_difference(a: Seq<u8>, b: Seq<u8>, i: int)
    requires
        a.len() == b.len(),
        0 <= i < a.len(),
        all_digits(a),
        all_digits(b),
        a.subrange(0, i) == b.subrange(0, i),
        a[i] > b[i],
    ensures
        digits_value(a) > digits_value(b),
{
    let n = a.len() as int;
    let ah = a.subrange(0, i + 1);
    let at = a.subrange(i + 1, n);
    let bh = b.subrange(0, i + 1);
    let bt = b.subrange(i + 1, n);
    assert(ah + at =~= a);
    assert(bh + bt =~= b);
    lemma_digits_concat(ah, at);
    lemma_digits_concat(bh, bt);
    assert(ah.drop_last() =~= a.subrange(0, i));
    assert(bh.drop_last() =~= b.subrange(0, i));
    assert(is_digit(a[i]) && is_digit(b[i]));
    assert(digits_value(ah) == digits_value(ah.drop_last()) * 10 + (ah.last() - 48u8) as nat);
    assert(digits_value(bh) == digits_value(bh.drop_last()) * 10 + (bh.last() - 48u8) as nat);
    assert(digits_value(ah) >= digits_value(bh) + 1);
    lemma_all_digits_subrange(b, i + 1, n);
    lemma_digits_below(bt);
    let p = pow10(at.len());
    let x = digits_value(ah);
    let y = digits_value(bh);
    let u = digits_value(at);
    let w = digits_value(bt);
    assert(x * p + u > y * p + w) by (nonlinear_arith)
        requires
            x >= y + 1,
            w < p,
            u >= 0,
    ;
}

/// Bound above which the exact value of an exponent no longer matters.
pub open spec fn exponent_cap() -> nat {
    36893488147419103232nat
}

/// An exponent magnitude, cut off at the cap.
pub open spec fn capped(v: nat) -> nat {
    if v >= exponent_cap() {
        exponent_cap()
    } else {
        v
    }
}

/// The first 309 digits of a run, padded with zeros when it is shorter.
pub open spec fn window(s: Seq<u8>) -> Seq<u8> {
    if s.len() <= 309 {
        s + Seq::new((309 - s.len()) as nat, |i: int| 48u8)
    } else {
        s.subrange(0, 309)
    }
}

/// A magnitude `v < 10^l` scaled by `10^p` with `l + p <= 308` stays below
/// the threshold.
proof fn lemma_below_threshold(v: nat, l: nat, p: int)
    requires
        v < pow10(l),
        l + p <= 308,
    ensures
        !reaches_overflow(v, p),
{
    lemma_threshold_facts();
    let t = f64_overflow_threshold();
    if p >= 0 {
        let pp = p as nat;
        lemma_pow10_add(l, pp);
        lemma_pow10_mono(l + pp, 308);
        lemma_pow10_positive(pp);
        let a = pow10(l);
        let c = pow10(pp);
        assert(v * c < a * c) by (nonlinear_arith)
            requires
                v < a,
                c >= 1,
        ;
    } else {
        let q = (-p) as nat;
        lemma_pow10_mono(l, 308 + q);
        lemma_pow10_add(308, q);
        lemma_pow10_positive(q);
        let a = pow10(308);
        let c = pow10(q);
        assert(a * c <= t * c) by (nonlinear_arith)
            requires
                a <= t,
                c >= 1,
        ;
    }
}

/// A magnitude `v >= 10^(l-1)` scaled by `10^p` with `l + p >= 310`
/// reaches the threshold.
proof fn lemma_above_threshold(v: nat, l: nat, p: int)
    requires
        l >= 1,
        v >= pow10((l - 1) as nat),
        l + p >= 310,
    ensures
        reaches_overflow(v, p),
{
    lemma_threshold_facts();
    let t = f64_overflow_threshold();
    let l1 = (l - 1) as nat;
    if p >= 0 {
        let pp = p as nat;
        lemma_pow10_add(l1, pp);
        lemma_pow10_mono(309, l1 + pp);
        lemma_pow10_positive(pp);
        let a = pow10(l1);
        let c = pow10(pp);
        assert(v * c >= a * c) by (nonlinear_arith)
            requires
                v >= a,
                c >= 1,
        ;
    } else {
        let q = (-p) as nat;
        lemma_pow10_mono(309 + q, l1);
        lemma_pow10_add(309, q);
        lemma_pow10_positive(q);
        let a = pow10(309);
        let c = pow10(q);
        assert(a * c > t * c) by (nonlinear_arith)
            requires
                a > t,
                c >= 1,
        ;
    }
}

/// When a run of `l` digits is scaled to 309 integer digits, it reaches the
/// threshold exactly when its 309-digit window does.
proof fn lemma_window_decides(s: Seq<u8>)
    requires
        all_digits(s),
    ensures
        reaches_overflow(digits_value(s), 309 - s.len()) == (digits_value(window(s))
            >= f64_overflow_threshold()),
{
    let t = f64_overflow_threshold();
    let l = s.len();
    if l <= 309 {
        let pp = (309 - l) as nat;
        let z = Seq::new(pp, |i: int| 48u8);
        lemma_digits_concat(s, z);
        lemma_zeros_value(z);
    } else {
        let q = (l - 309) as nat;
        let h = s.subrange(0, 309);
        let r = s.subrange(309, l as int);
        assert(h + r =~= s);
        lemma_digits_concat(h, r);
        lemma_all_digits_subrange(s, 309, l as int);
        lemma_digits_below(r);
        let x = digits_value(h);
        let c = pow10(q);
        let w = digits_value(r);
        assert(r.len() == q);
        assert((x * c + w >= t * c) == (x >= t)) by (nonlinear_arith)
            requires
                w < c,
                w >= 0,
        ;
    }
}

/// The digits of a well-formed mantissa are all decimal digits.
proof fn lemma_mantissa_digits(m: Seq<u8>)
    requires
        is_mantissa(m),
    ensures
        all_digits(mantissa_digits(m)),
{
    lemma_first_of_bounds(m, 46u8, 46u8);
    match first_of(m, 46u8, 46u8) {
        None => {},
        Some(d) => {
            let a = m.subrange(0, d);
            let c = m.subrange(d + 1, m.len() as int);
            let s = a + c;
            assert forall|i: int| 0 <= i < s.len() implies is_digit(#[trigger] s[i]) by {
                if i < a.len() {
                    assert(s[i] == a[i]);
                } else {
                    assert(s[i] == c[i - a.len()]);
                }
            }
        },
    }
}

/// Zero never reaches the threshold.
proof fn lemma_zero_never_overflows(p: int)
    ensures
        !reaches_overflow(0, p),
{
    lemma_threshold_facts();
    lemma_pow10_positive(308);
    if p < 0 {
        let q = (-p) as nat;
        lemma_pow10_positive(q);
        let t = f64_overflow_threshold();
        let c = pow10(q);
        assert(t * c >= 1) by (nonlinear_arith)
            requires
                t >= 1,
                c >= 1,
        ;
    }
}

proof fn lemma_window_at(s: Seq<u8>, i: int)
    requires
        0 <= i < 309,
    ensures
        window(s).len() == 309,
        i < s.len() ==> window(s)[i] == s[i],
        i >= s.len() ==> window(s)[i] == 48u8,
{
}

proof fn lemma_all_digits_window(s: Seq<u8>)
    requires
        all_digits(s),
    ensures
        all_digits(window(s)),
{
    let w = window(s);
    assert forall|i: int| 0 <= i < w.len() implies is_digit(#[trigger] w[i]) by {
        lemma_window_at(s, i);
    }
}

/// Leading zeros do not change the value of a run of digits.
proof fn lemma_strip_zeros(s: Seq<u8>, z: int)
    requires
        0 <= z <= s.len(),
        forall|j: int| 0 <= j < z ==> #[trigger] s[j] == 48u8,
    ensures
        digits_value(s.subrange(z, s.len() as int)) == digits_value(s),
{
    let zs = s.subrange(0, z);
    let sig = s.subrange(z, s.len() as int);
    assert(zs + sig =~= s);
    lemma_digits_concat(zs, sig);
    assert forall|j: int| 0 <= j < zs.len() implies #[trigger] zs[j] == 48u8 by {
        assert(zs[j] == s[j]);
    }
    lemma_zeros_value(zs);
}

/// The exponent magnitude of `s[lo..hi]`, a run of digits, cut off at the
/// cap.
fn exponent_magnitude(s: &[u8], lo: usize, hi: usize) -> (r: u128)
    requires
        lo <= hi <= s@.len(),
        all_digits(s@.subrange(lo as int, hi as int)),
    ensures
        r == capped(digits_value(s@.subrange(lo as int, hi as int))),
{
    let cap: u128 = 36893488147419103232;
    let mut x: u128 = 0;
    let mut i = lo;
    proof {
        assert(s@.subrange(lo as int, lo as int) =~= Seq::<u8>::empty());
    }
    while i < hi
        invariant
            lo <= i <= hi <= s@.len(),
            all_digits(s@.subrange(lo as int, hi as int)),
            x == capped(digits_value(s@.subrange(lo as int, i as int))),
            cap == exponent_cap(),
        decreases hi - i,
    {
        let ghost prev = s@.subrange(lo as int, i as int);
        proof {
            assert(s@.subrange(lo as int, i + 1) =~= prev.push(s@[i as int]));
            lemma_digits_value_step(prev, s@[i as int]);
            assert(s@.subrange(lo as int, hi as int)[i - lo] == s@[i as int]);
        }
        let d = (s[i] - 48u8) as u128;
        if x < cap {
            x = x * 10 + d;
            if x > cap {
                x = cap;
            }
        }
        i = i + 1;
    }
    x
}

/// The digits of the mantissa `s[lo..hi]` without its decimal point, and
/// the length of its fraction.
fn mantissa_digit_bytes(s: &[u8], lo: usize, hi: usize) -> (r: (Vec<u8>, usize))
    requires
        lo <= hi <= s@.len(),
    ensures
        r.0@ == mantissa_digits(s@.subrange(lo as int, hi as int)),
        r.1 as int == fraction_len(s@.subrange(lo as int, hi as int)),
{
    let ghost m = s@.subrange(lo as int, hi as int);
    let dot = find_first_of(s, lo, hi, 46u8, 46u8);
    let mid: usize = match dot {
        None => hi,
        Some(d) => d,
    };
    let mut out: Vec<u8> = Vec::new();
    let mut i = lo;
    while i < mid
        invariant
            lo <= i <= mid <= hi <= s@.len(),
            out@ == s@.subrange(lo as int, i as int),
        decreases mid - i,
    {
        out.push(s[i]);
        i = i + 1;
        proof {
            assert(out@ =~= s@.subrange(lo as int, i as int));
        }
    }
    match dot {
        None => {
            proof {
                assert(m =~= s@.subrange(lo as int, mid as int));
            }
            (out, 0)
        },
        Some(d) => {
            let ghost head = out@;
            let mut j = d + 1;
            proof {
                assert(head + s@.subrange(j as int, j as int) =~= head);
            }
            while j < hi
                invariant
                    d < j <= hi <= s@.len(),
                    out@ == head + s@.subrange(d + 1, j as int),
                decreases hi - j,
            {
                out.push(s[j]);
                j = j + 1;
                proof {
                    assert(out@ =~= head + s@.subrange(d + 1, j as int));
                }
            }
            proof {
                assert(m.subrange(0, d - lo) =~= s@.subrange(lo as int, d as int));
                assert(m.subrange(d - lo + 1, m.len() as int) =~= s@.subrange(d + 1, hi as int));
            }
            (out, hi - d - 1)
        },
    }
}

/// The digits `fixed_digits(c, w)`.
fn fixed_digit_bytes(c: u64, w: usize) -> (r: Vec<u8>)
    ensures
        r@ == fixed_digits(c as nat, w as nat),
    decreases w,
{
    if w == 0 {
        Vec::new()
    } else {
        let mut v = fixed_digit_bytes(c / 10, w - 1);
        v.push(48u8 + (c % 10) as u8);
        v
    }
}

fn append_chunk(r: &mut Vec<u8>, c: u64)
    requires
        c < 1000000000000000000u64,
    ensures
        final(r)@ == old(r)@ + fixed_digits(c as nat, 18),
{
    let mut tail = fixed_digit_bytes(c, 18);
    r.append(&mut tail);
}

/// The decimal digits of the overflow threshold, as bytes.
fn threshold_digit_bytes() -> (r: Vec<u8>)
    ensures
        r@ == threshold_text(),
{
    let mut r = fixed_digit_bytes(179, 3);
    append_chunk(&mut r, 769313486231580793);
    append_chunk(&mut r, 728971405303415079);
    append_chunk(&mut r, 934132710037826936);
    append_chunk(&mut r, 173778980444968292);
    append_chunk(&mut r, 764750946649017977);
    append_chunk(&mut r, 587207096330286416);
    append_chunk(&mut r, 692887910946555547);
    append_chunk(&mut r, 851940402630657488);
    append_chunk(&mut r, 671505820681908902);
    append_chunk(&mut r, 708383676273854);
    append_chunk(&mut r, 845817711531764475);
    append_chunk(&mut r, 730270069855571366);
    append_chunk(&mut r, 959622842914819860);
    append_chunk(&mut r, 834936475292719074);
    append_chunk(&mut r, 168444365510704342);
    append_chunk(&mut r, 711559699508093042);
    append_chunk(&mut r, 880177904174497792);
    r
}

/// The parts of the unsigned decimal number `s[lo..]`: the mantissa's
/// digits, the fraction's length, whether the exponent is negative, and the
/// exponent's magnitude cut off at the cap.
fn number_parts(s: &[u8], lo: usize) -> (r: (Vec<u8>, usize, bool, u128))
    requires
        lo <= s@.len(),
        is_number(s@.subrange(lo as int, s@.len() as int)),
    ensures
        r.0@ == mantissa_digits(mantissa_text(s@.subrange(lo as int, s@.len() as int))),
        all_digits(r.0@),
        r.1 as int == fraction_len(mantissa_text(s@.subrange(lo as int, s@.len() as int))),
        r.2 == (exponent_text(s@.subrange(lo as int, s@.len() as int)).len() > 0
            && exponent_text(s@.subrange(lo as int, s@.len() as int))[0] == 45u8),
        r.3 == capped(
            digits_value(exponent_digits(exponent_text(s@.subrange(lo as int, s@.len() as int)))),
        ),
{
    let n = s.len();
    let ghost b = s@.subrange(lo as int, n as int);
    let marker = find_first_of(s, lo, n, 101u8, 69u8);
    let k: usize = match marker {
        None => n,
        Some(k) => k,
    };
    let ghost m = mantissa_text(b);
    let ghost e = exponent_text(b);
    proof {
        lemma_first_of_bounds(b, 101u8, 69u8);
        assert(m =~= s@.subrange(lo as int, k as int));
        if k < n {
            assert(e =~= s@.subrange(k + 1, n as int));
        } else {
            assert(e =~= Seq::<u8>::empty());
        }
        lemma_mantissa_digits(m);
    }
    let (digits, frac) = mantissa_digit_bytes(s, lo, k);
    if k < n {
        let e0 = k + 1;
        let start = if e0 < n && (s[e0] == 43u8 || s[e0] == 45u8) {
            e0 + 1
        } else {
            e0
        };
        let neg = e0 < n && s[e0] == 45u8;
        proof {
            assert(is_exponent(e));
            assert(exponent_digits(e) =~= s@.subrange(start as int, n as int));
        }
        let xs = exponent_magnitude(s, start, n);
        (digits, frac, neg, xs)
    } else {
        proof {
            assert(exponent_digits(e) =~= Seq::<u8>::empty());
        }
        (digits, frac, false, 0)
    }
}

/// Whether the 309-digit window of `digits[z..]` is at least the overflow
/// threshold.
fn window_reaches_threshold(digits: &Vec<u8>, z: usize) -> (r: bool)
    requires
        z <= digits@.len(),
        all_digits(digits@),
    ensures
        r == (digits_value(window(digits@.subrange(z as int, digits@.len() as int)))
            >= f64_overflow_threshold()),
{
    let len = digits.len();
    let ghost sig = digits@.subrange(z as int, len as int);
    let ghost w = window(sig);
    let t = threshold_digit_bytes();
    proof {
        lemma_threshold_facts();
        lemma_all_digits_subrange(digits@, z as int, len as int);
        lemma_all_digits_window(sig);
    }
    let sig_len = len - z;
    let mut i: usize = 0;
    while i < 309
        invariant
            i <= 309,
            t@ == threshold_text(),
            threshold_text().len() == 309,
            all_digits(threshold_text()),
            digits_value(threshold_text()) == f64_overflow_threshold(),
            all_digits(w),
            w.len() == 309,
            sig == digits@.subrange(z as int, len as int),
            sig_len == sig.len(),
            z + sig_len == len == digits@.len(),
            w == window(sig),
            forall|j: int| 0 <= j < i ==> w[j] == threshold_text()[j],
        decreases 309 - i,
    {
        let c = if i < sig_len {
            digits[z + i]
        } else {
            48u8
        };
        proof {
            if i < sig_len {
                assert(c == sig[i as int]);
            }
            lemma_window_at(sig, i as int);
        }
        if c != t[i] {
            proof {
                assert(w.subrange(0, i as int) =~= threshold_text().subrange(0, i as int));
                if c > t[i as int] {
                    lemma_first_difference(w, threshold_text(), i as int);
                } else {
                    lemma_first_difference(threshold_text(), w, i as int);
                }
            }
            return c > t[i];
        }
        i = i + 1;
    }
    proof {
        assert(w =~= threshold_text());
    }
    true
}

/// Whether `s` is the text of a real number that reads as a finite `f64`.
pub fn finite_real_text(s: &[u8]) -> (r: bool)
    ensures
        r == is_finite_real_text(s@),
{
    if !real_text(s) {
        return false;
    }
    let n = s.len();
    let lo: usize = if n > 0 && (s[0] == 43u8 || s[0] == 45u8) {
        1
    } else {
        0
    };
    let ghost b = unsigned_part(s@);
    proof {
        assert(b =~= s@.subrange(lo as int, n as int));
    }
    if ignore_case_in(s, lo, n, &[105u8, 110u8, 102u8]) || ignore_case_in(
        s,
        lo,
        n,
        &[105u8, 110u8, 102u8, 105u8, 110u8, 105u8, 116u8, 121u8],
    ) || ignore_case_in(s, lo, n, &[110u8, 97u8, 110u8]) {
        return false;
    }
    let (digits, frac, neg, xs) = number_parts(s, lo);
    let ghost m = mantissa_text(b);
    let ghost e = exponent_text(b);
    let ghost x_abs = digits_value(exponent_digits(e));
    let ghost p = exponent_value(e) - fraction_len(m);
    let ghost dv = digits@;
    // Leading zeros carry no value.
    let len = digits.len();
    let mut z: usize = 0;
    while z < len && digits[z] == 48u8
        invariant
            z <= len == dv.len(),
            digits@ == dv,
            forall|j: int| 0 <= j < z ==> #[trigger] dv[j] == 48u8,
        decreases len - z,
    {
        z = z + 1;
    }
    let ghost sig = dv.subrange(z as int, len as int);
    proof {
        lemma_strip_zeros(dv, z as int);
        lemma_all_digits_subrange(dv, z as int, len as int);
    }
    if z == len {
        proof {
            lemma_zero_never_overflows(p);
        }
        return true;
    }
    let sig_len = len - z;
    proof {
        assert(sig[0] == dv[z as int]);
        lemma_digits_at_least(sig);
        lemma_digits_below(sig);
    }
    let frac_i = frac as i128;
    let o: i128 = if neg {
        sig_len as i128 - xs as i128 - frac_i
    } else {
        sig_len as i128 + xs as i128 - frac_i
    };
    proof {
        assert(p == (if neg { -x_abs } else { x_abs as int }) - frac);
        if x_abs < exponent_cap() {
            assert(o == sig.len() + p);
        } else if neg {
            assert(sig.len() + p <= o);
        } else {
            assert(sig.len() + p >= o);
        }
    }
    if o <= 308 {
        proof {
            lemma_below_threshold(digits_value(sig), sig.len(), p);
        }
        return true;
    }
    if o >= 310 {
        proof {
            lemma_above_threshold(digits_value(sig), sig.len(), p);
        }
        return false;
    }
    // The magnitude has exactly 309 integer digits.
    proof {
        lemma_window_decides(sig);
    }
    !window_reaches_threshold(&digits, z)
}

} // verus!
