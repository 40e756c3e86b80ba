//! OOXML color tints: a value from -1 (full darkening) to 1 (full
//! lightening) applied to a color's HLS luminance, hue and saturation kept.
//!
//! With the luminance scale 0..=255 (`HLSMAX` = 255), a tint `t` moves the
//! luminance `L` to `L * (1 + t)` when `t < 0` and to
//! `L * (1 - t) + 255 * t` otherwise. Keeping hue and saturation, each
//! channel `x` of the color becomes `L' + (x - L) * D(L') / D(L)`, where
//! `D(L) = 255 - |2 L - 255|` is the widest spread of channels that a
//! luminance allows; a black or white color (`D(L) = 0`) becomes the gray
//! `L'`. The channel is then rounded to the nearest integer, halves up.
//! The arithmetic is exact: the tint is kept as a fraction `p / q`.

use vstd::prelude::*;
use crate::numbers::{all_digits, decimal_value, digit_run, digit_run_exec, is_digit, is_sign};
use crate::style::Color;

verus! {

/// Ten to the power `k`.
pub open spec fn pow10(k: nat) -> nat
    decreases k,
{
    if k == 0 {
        1
    } else {
        10 * pow10((k - 1) as nat)
    }
}

/// The most significant digits, and the largest power of ten in a
/// denominator, that a tint may have.
pub const MAX_TINT_DIGITS: usize = 30;

/// A tint written as a decimal number: an optional sign, one or more
/// digits, optionally a point and one or more digits, and optionally an
/// exponent (`e` or `E`, an optional sign and one to four digits), as in
/// `-0.25`, `1` or `-4.9989318521683403E-2`; at most 30 digits before the
/// exponent. Its value, from -1 to 1, is the fraction `p / q` with `q` a
/// power of ten of at most 30 digits. Any other text, and any value that
/// needs a finer denominator, gives no tint.
pub open spec fn spec_tint(v: Seq<u8>) -> Option<(int, int)> {
    let neg = v.len() > 0 && v[0] == 45u8;
    let body = if v.len() > 0 && is_sign(v[0]) { v.subrange(1, v.len() as int) } else { v };
    let a = digit_run(body, 0);
    let has_dot = a < body.len() && body[a] == 46u8;
    let b = if has_dot { digit_run(body, a + 1) } else { a };
    let has_exp = b < body.len() && (body[b] == 101u8 || body[b] == 69u8);
    let c = if has_exp && b + 1 < body.len() && is_sign(body[b + 1]) { b + 2 } else { b + 1 };
    let d = if has_exp { digit_run(body, c) } else { b };
    let frac = if has_dot { body.subrange(a + 1, b) } else { Seq::<u8>::empty() };
    let exp_digits = if has_exp { body.subrange(c, d) } else { Seq::<u8>::empty() };
    let exp_neg = has_exp && c > b + 1 && body[b + 1] == 45u8;
    let well_formed = a >= 1 && (!has_dot || frac.len() >= 1) && (!has_exp || 1 <= exp_digits.len() <= 4)
        && d == body.len() && a + frac.len() <= MAX_TINT_DIGITS;
    if !well_formed {
        None
    } else {
        let n = decimal_value(body.subrange(0, a)) * pow10(frac.len()) + decimal_value(frac);
        let e = if exp_neg { -(decimal_value(exp_digits) as int) } else { decimal_value(exp_digits) as int };
        let scale = frac.len() - e;
        if scale < 0 {
            if n == 0 { Some((0, 1)) } else { None }
        } else if scale > MAX_TINT_DIGITS {
            None
        } else if n <= pow10(scale as nat) {
            Some((if neg { -n } else { n as int }, pow10(scale as nat) as int))
        } else {
            None
        }
    }
}

/// The largest and the smallest of three channels.
pub open spec fn max3(a: u8, b: u8, c: u8) -> int {
    if a >= b && a >= c {
        a as int
    } else if b >= c {
        b as int
    } else {
        c as int
    }
}

pub open spec fn min3(a: u8, b: u8, c: u8) -> int {
    if a <= b && a <= c {
        a as int
    } else if b <= c {
        b as int
    } else {
        c as int
    }
}

pub open spec fn abs(x: int) -> int {
    if x < 0 {
        -x
    } else {
        x
    }
}

/// `num / den` rounded to the nearest integer (halves up) and kept within
/// 0..=255.
pub open spec fn round_channel(num: int, den: int) -> u8 {
    let k = 2 * num + den;
    if k < 0 {
        0
    } else if k / (2 * den) > 255 {
        255
    } else {
        (k / (2 * den)) as u8
    }
}

/// Twice the tinted luminance, scaled by `q`: `2 L' q`, where `l2` is `2 L`.
pub open spec fn tinted_l2q(l2: int, p: int, q: int) -> int {
    if p < 0 {
        l2 * (q + p)
    } else {
        l2 * q + (510 - l2) * p
    }
}

/// One channel `x` of a color with `l2 = 2 L`, tinted by `p / q`.
pub open spec fn tinted_channel(x: u8, l2: int, p: int, q: int) -> u8 {
    let a = tinted_l2q(l2, p, q);
    let d = 255 - abs(l2 - 255);
    let e = 255 * q - abs(a - 255 * q);
    if d == 0 {
        round_channel(a, 2 * q)
    } else {
        round_channel(a * d + (2 * x - l2) * e, 2 * q * d)
    }
}

/// A color tinted by `p / q`; the alpha channel is kept.
pub open spec fn spec_apply_tint(c: Color, p: int, q: int) -> Color {
    let l2 = max3(c.red, c.green, c.blue) + min3(c.red, c.green, c.blue);
    Color {
        alpha: c.alpha,
        red: tinted_channel(c.red, l2, p, q),
        green: tinted_channel(c.green, l2, p, q),
        blue: tinted_channel(c.blue, l2, p, q),
    }
}

proof fn lemma_pow10_mono(k: nat, j: nat)
    requires
        k <= j,
    ensures
        1 <= pow10(k) <= pow10(j),
    decreases j,
{
    if j > k {
        lemma_pow10_mono(k, (j - 1) as nat);
    } else if k > 0 {
        lemma_pow10_mono((k - 1) as nat, (k - 1) as nat);
    }
}

proof fn lemma_pow10_bound(k: nat)
    requires
        k <= 30,
    ensures
        1 <= pow10(k) <= 1_000_000_000_000_000_000_000_000_000_000,
{
    lemma_pow10_mono(k, 30);
    assert(pow10(30) == 1_000_000_000_000_000_000_000_000_000_000) by {
        reveal_with_fuel(pow10, 31);
    }
}

/// The digits `s[i..digit_run(s, i)]` are digits, and the run stops at the
/// end or at a byte that is no digit.
proof fn lemma_digit_run(s: Seq<u8>, i: int)
    requires
        0 <= i <= s.len(),
    ensures
        i <= digit_run(s, i) <= s.len(),
        all_digits(s.subrange(i, digit_run(s, i))),
    decreases s.len() - i,
{
    if i < s.len() && is_digit(s[i]) {
        lemma_digit_run(s, i + 1);
        let r = digit_run(s, i);
        assert forall|j: int| 0 <= j < r - i implies is_digit(#[trigger] s.subrange(i, r)[j]) by {
            if j > 0 {
                assert(s.subrange(i, r)[j] == s.subrange(i + 1, r)[j - 1]);
            }
        }
    } else {
        assert forall|j: int| 0 <= j < 0 implies is_digit(#[trigger] s.subrange(i, i)[j]) by {}
    }
}

proof fn lemma_pow10_add(a: nat, b: nat)
    ensures
        pow10(a + b) == pow10(a) * pow10(b),
    decreases a,
{
    if a > 0 {
        let a1 = (a - 1) as nat;
        lemma_pow10_add(a1, b);
        let x = pow10(a1);
        let y = pow10(b);
        assert(pow10(a1 + b) == x * y);
        assert(a + b == (a1 + b) + 1);
        assert(pow10(a + b) == 10 * pow10(a1 + b));
        assert(pow10(a) == 10 * x);
        assert(10 * (x * y) == (10 * x) * y) by (nonlinear_arith);
        assert(pow10(a + b) == pow10(a) * pow10(b));
    } else {
        assert(pow10(a) == 1);
        assert(a + b == b);
        assert(pow10(a + b) == pow10(a) * pow10(b));
    }
}

/// The value of the digits `v[from..to]` (at most 30 of them).
fn digits_value(v: &[u8], from: usize, to: usize) -> (r: u128)
    requires
        from <= to <= v@.len(),
        to - from <= 30,
        all_digits(v@.subrange(from as int, to as int)),
    ensures
        r as nat == decimal_value(v@.subrange(from as int, to as int)),
        r < pow10((to - from) as nat),
{
    let mut n: u128 = 0;
    let mut i = from;
    while i < to
        invariant
            from <= i <= to <= v@.len(),
            to - from <= 30,
            all_digits(v@.subrange(from as int, to as int)),
            n as nat == decimal_value(v@.subrange(from as int, i as int)),
            n < pow10((i - from) as nat),
        decreases to - i,
    {
        let b = v[i];
        assert(v@.subrange(from as int, to as int)[i - from] == b);
        let ghost pre = v@.subrange(from as int, i + 1);
        assert(pre.drop_last() =~= v@.subrange(from as int, i as int));
        proof {
            lemma_pow10_bound((i + 1 - from) as nat);
        }
        n = n * 10 + (b - 48u8) as u128;
        i = i + 1;
    }
    n
}

/// Ten to the power `k`, for `k` up to 30.
fn pow10_exec(k: usize) -> (r: u128)
    requires
        k <= 30,
    ensures
        r as nat == pow10(k as nat),
{
    let mut r: u128 = 1;
    let mut i: usize = 0;
    while i < k
        invariant
            i <= k <= 30,
            r as nat == pow10(i as nat),
        decreases k - i,
    {
        proof {
            lemma_pow10_bound((i + 1) as nat);
        }
        r = r * 10;
        i = i + 1;
    }
    r
}

/// Reads a tint attribute's value.
#[verifier::rlimit(100)]
pub fn parse_tint(v: &[u8]) -> (r: Option<(i128, i128)>)
    ensures
        match (r, spec_tint(v@)) {
            (Some((p, q)), Some((p2, q2))) => p == p2 && q == q2,
            (None, None) => true,
            _ => false,
        },
        r matches Some((p, q)) ==> 1 <= q <= 1_000_000_000_000_000_000_000_000_000_000 && -q <= p <= q,
{
    let neg = v.len() > 0 && v[0] == 45u8;
    let start: usize = if v.len() > 0 && (v[0] == 45u8 || v[0] == 43u8) { 1 } else { 0 };
    let body: &[u8] = &v[start..v.len()];
    assert(body@ =~= (if v@.len() > 0 && is_sign(v@[0]) { v@.subrange(1, v@.len() as int) } else { v@ }));
    let len = body.len();
    proof {
        lemma_digit_run(body@, 0);
    }
    let a = digit_run_exec(body, 0);
    let has_dot = a < len && body[a] == 46u8;
    let b = if has_dot {
        proof {
            lemma_digit_run(body@, a + 1);
        }
        digit_run_exec(body, a + 1)
    } else {
        a
    };
    let has_exp = b < len && (body[b] == 101u8 || body[b] == 69u8);
    let c = if !has_exp {
        b
    } else if b + 1 < len && (body[b + 1] == 43u8 || body[b + 1] == 45u8) {
        b + 2
    } else {
        b + 1
    };
    let d = if has_exp {
        proof {
            lemma_digit_run(body@, c as int);
        }
        digit_run_exec(body, c)
    } else {
        b
    };
    let frac_len: usize = if has_dot { b - (a + 1) } else { 0 };
    let exp_len: usize = if has_exp { d - c } else { 0 };
    let exp_neg = has_exp && c > b + 1 && body[b + 1] == 45u8;
    let ghost frac = if has_dot { body@.subrange(a + 1, b as int) } else { Seq::<u8>::empty() };
    let ghost exp_digits = if has_exp { body@.subrange(c as int, d as int) } else { Seq::<u8>::empty() };
    if !(a >= 1 && (!has_dot || frac_len >= 1) && (!has_exp || (1 <= exp_len && exp_len <= 4)) && d == len
        && a <= MAX_TINT_DIGITS && frac_len <= MAX_TINT_DIGITS - a) {
        return None;
    }
    let int_value = digits_value(body, 0, a);
    let frac_value: u128 = if has_dot {
        digits_value(body, a + 1, b)
    } else {
        assert(decimal_value(frac) == 0);
        0
    };
    let exp_value: u128 = if has_exp {
        digits_value(body, c, d)
    } else {
        assert(decimal_value(exp_digits) == 0);
        0
    };
    proof {
        lemma_pow10_bound(frac_len as nat);
        lemma_pow10_bound(exp_len as nat);
        lemma_pow10_add(a as nat, frac_len as nat);
        lemma_pow10_bound((a + frac_len) as nat);
        assert(pow10(4) == 10000) by {
            reveal_with_fuel(pow10, 5);
        }
        lemma_pow10_mono(exp_len as nat, 4);
    }
    let pf = pow10_exec(frac_len);
    assert(int_value * pf + frac_value < pow10(a as nat) * pf) by (nonlinear_arith)
        requires
            int_value < pow10(a as nat),
            frac_value < pf,
    ;
    let n = int_value * pf + frac_value;
    let e: i64 = if exp_neg { -(exp_value as i64) } else { exp_value as i64 };
    let scale: i64 = frac_len as i64 - e;
    if scale < 0 {
        return if n == 0 { Some((0, 1)) } else { None };
    }
    if scale > MAX_TINT_DIGITS as i64 {
        return None;
    }
    let q = pow10_exec(scale as usize);
    proof {
        lemma_pow10_bound(scale as nat);
    }
    if n > q {
        return None;
    }
    let qi = q as i128;
    let ti = n as i128;
    Some((if neg { -ti } else { ti }, qi))
}

fn max3_exec(a: u8, b: u8, c: u8) -> (r: i128)
    ensures
        r == max3(a, b, c),
{
    if a >= b && a >= c {
        a as i128
    } else if b >= c {
        b as i128
    } else {
        c as i128
    }
}

fn min3_exec(a: u8, b: u8, c: u8) -> (r: i128)
    ensures
        r == min3(a, b, c),
{
    if a <= b && a <= c {
        a as i128
    } else if b <= c {
        b as i128
    } else {
        c as i128
    }
}

fn round_channel_exec(num: i128, den: i128) -> (r: u8)
    requires
        1 <= den <= 1_000_000_000_000_000_000_000_000_000_000_000,
        -1_000_000_000_000_000_000_000_000_000_000_000_000 <= num <= 1_000_000_000_000_000_000_000_000_000_000_000_000,
    ensures
        r == round_channel(num as int, den as int),
{
    let k = 2 * num + den;
    if k < 0 {
        0
    } else {
        let v = k / (2 * den);
        if v > 255 {
            255
        } else {
            v as u8
        }
    }
}

fn tinted_channel_exec(x: u8, l2: i128, p: i128, q: i128) -> (r: u8)
    requires
        0 <= l2 <= 510,
        1 <= q <= 1_000_000_000_000_000_000_000_000_000_000,
        -q <= p <= q,
    ensures
        r == tinted_channel(x, l2 as int, p as int, q as int),
{
    let a = if p < 0 {
        assert(0 <= l2 * (q + p) <= 510 * q) by (nonlinear_arith)
            requires
                0 <= l2 <= 510,
                -q <= p < 0,
                q >= 1,
        ;
        l2 * (q + p)
    } else {
        assert(0 <= l2 * q <= 510 * q) by (nonlinear_arith)
            requires
                0 <= l2 <= 510,
                q >= 1,
        ;
        assert(0 <= (510 - l2) * p <= (510 - l2) * q) by (nonlinear_arith)
            requires
                0 <= l2 <= 510,
                0 <= p <= q,
        ;
        assert(l2 * q + (510 - l2) * q == 510 * q) by (nonlinear_arith);
        l2 * q + (510 - l2) * p
    };
    let s = a - 255 * q;
    let abs_s = if s < 0 { -s } else { s };
    let e = 255 * q - abs_s;
    let t = l2 - 255;
    let d = 255 - if t < 0 { -t } else { t };
    assert(0 <= a <= 510 * q);
    assert(q <= 1_000_000_000_000_000_000_000_000_000_000);
    if d == 0 {
        round_channel_exec(a, 2 * q)
    } else {
        assert(0 <= e <= 255 * q);
        assert(0 < d <= 255);
        assert(0 <= a * d <= 510 * q * 255) by (nonlinear_arith)
            requires
                0 <= a <= 510 * q,
                0 < d <= 255,
        ;
        let w = 2 * (x as i128) - l2;
        assert(-510 <= w <= 510);
        assert(-(510 * e) <= w * e <= 510 * e) by (nonlinear_arith)
            requires
                -510 <= w <= 510,
                0 <= e,
        ;
        assert(2 <= 2 * q * d <= 510 * q) by (nonlinear_arith)
            requires
                1 <= q,
                0 < d <= 255,
        ;
        let ad = a * d;
        let we = w * e;
        round_channel_exec(ad + we, 2 * q * d)
    }
}

/// Applies a tint `p / q` to a color.
pub fn apply_tint(c: Color, p: i128, q: i128) -> (r: Color)
    requires
        1 <= q <= 1_000_000_000_000_000_000_000_000_000_000,
        -q <= p <= q,
    ensures
        r == spec_apply_tint(c, p as int, q as int),
{
    let l2 = max3_exec(c.red, c.green, c.blue) + min3_exec(c.red, c.green, c.blue);
    Color {
        alpha: c.alpha,
        red: tinted_channel_exec(c.red, l2, p, q),
        green: tinted_channel_exec(c.green, l2, p, q),
        blue: tinted_channel_exec(c.blue, l2, p, q),
    }
}

} // verus!
