//! Number syntax: decimal and hexadecimal integers as Rust's `str::parse`
//! and `from_str_radix` accept them, and decimal floating-point literals.

use vstd::prelude::*;

verus! {

pub open spec fn is_digit(b: u8) -> bool {
    48 <= b <= 57
}

pub open spec fn all_digits(s: Seq<u8>) -> bool {
    forall|i: int| 0 <= i < s.len() ==> is_digit(#[trigger] s[i])
}

/// The value of a string of decimal digits.
pub open spec fn decimal_value(s: Seq<u8>) -> nat
    decreases s.len(),
{
    if s.len() == 0 {
        0
    } else {
        decimal_value(s.drop_last()) * 10 + (s.last() - 48) as nat
    }
}

/// The digits of an unsigned number: Rust's integer parsing allows one leading `+`.
pub open spec fn unsigned_digits(s: Seq<u8>) -> Seq<u8> {
    if s.len() > 0 && s[0] == 43u8 {
        s.subrange(1, s.len() as int)
    } else {
        s
    }
}

/// What `str::parse` gives for an unsigned integer type whose largest value is
/// `max`: an optional `+`, then at least one decimal digit, and nothing else.
pub open spec fn spec_parse_unsigned(s: Seq<u8>, max: nat) -> Option<nat> {
    let d = unsigned_digits(s);
    if d.len() > 0 && all_digits(d) && decimal_value(d) <= max {
        Some(decimal_value(d))
    } else {
        None
    }
}

/// A prefix of a digit string is worth no more than the whole string.
pub proof fn lemma_decimal_prefix_le(s: Seq<u8>, k: int)
    requires
        all_digits(s),
        0 <= k <= s.len(),
    ensures
        decimal_value(s.subrange(0, k)) <= decimal_value(s),
    decreases s.len(),
{
    if k < s.len() {
        let t = s.drop_last();
        assert(t.subrange(0, k) =~= s.subrange(0, k));
        assert(all_digits(t)) by {
            assert forall|i: int| 0 <= i < t.len() implies is_digit(#[trigger] t[i]) by {
                assert(t[i] == s[i]);
            }
        }
        lemma_decimal_prefix_le(t, k);
    } else {
        assert(s.subrange(0, k) =~= s);
    }
}

/// Parses an unsigned decimal number bounded by `max`, as `str::parse` does.
fn parse_unsigned_bounded(s: &[u8], max: u64) -> (r: Option<u64>)
    requires
        max <= u32::MAX,
    ensures
        match r {
            Some(v) => spec_parse_unsigned(s@, max as nat) == Some(v as nat),
            None => spec_parse_unsigned(s@, max as nat) is None,
        },
{
    let start: usize = if s.len() > 0 && s[0] == 43u8 { 1 } else { 0 };
    let ghost d = unsigned_digits(s@);
    assert(d =~= s@.subrange(start as int, s@.len() as int));
    if start >= s.len() {
        return None;
    }
    let mut acc: u64 = 0;
    let mut i: usize = start;
    while i < s.len()
        invariant
            start <= i <= s.len(),
            d == s@.subrange(start as int, s@.len() as int),
            d == unsigned_digits(s@),
            max <= u32::MAX,
            acc <= max,
            acc as nat == decimal_value(d.subrange(0, i - start)),
            all_digits(d.subrange(0, i - start)),
        decreases s.len() - i,
    {
        let b = s[i];
        if b < 48u8 || b > 57u8 {
            assert(d[i - start] == s@[i as int]);
            assert(!is_digit(d[i - start]));
            assert(!all_digits(d));
            return None;
        }
        let next: u64 = acc * 10 + (b - 48u8) as u64;
        proof {
            let p = d.subrange(0, i - start + 1);
            assert(p.drop_last() =~= d.subrange(0, i - start));
            assert(p.last() == b);
            assert(all_digits(p)) by {
                assert forall|j: int| 0 <= j < p.len() implies is_digit(#[trigger] p[j]) by {
                    if j < p.len() - 1 {
                        assert(p[j] == d.subrange(0, i - start)[j]);
                    }
                }
            }
        }
        if next > max {
            proof {
                let p = d.subrange(0, i - start + 1);
                if all_digits(d) {
                    lemma_decimal_prefix_le(d, i - start + 1);
                    assert(decimal_value(p) == next);
                    assert(decimal_value(d) > max);
                }
            }
            return None;
        }
        acc = next;
        i = i + 1;
    }
    assert(d.subrange(0, i - start) =~= d);
    Some(acc)
}

/// `u8` parsing as `str::parse::<u8>` does it.
pub fn parse_u8(s: &[u8]) -> (r: Option<u8>)
    ensures
        match r {
            Some(v) => spec_parse_unsigned(s@, 255) == Some(v as nat),
            None => spec_parse_unsigned(s@, 255) is None,
        },
{
    match parse_unsigned_bounded(s, 255) {
        Some(v) => Some(v as u8),
        None => None,
    }
}

/// `u16` parsing as `str::parse::<u16>` does it.
pub fn parse_u16(s: &[u8]) -> (r: Option<u16>)
    ensures
        match r {
            Some(v) => spec_parse_unsigned(s@, 65535) == Some(v as nat),
            None => spec_parse_unsigned(s@, 65535) is None,
        },
{
    match parse_unsigned_bounded(s, 65535) {
        Some(v) => Some(v as u16),
        None => None,
    }
}

/// The value of a hexadecimal digit in either case.
pub open spec fn hex_digit_value(b: u8) -> Option<nat> {
    if 48 <= b <= 57 {
        Some((b - 48) as nat)
    } else if 97 <= b <= 102 {
        Some((b - 87) as nat)
    } else if 65 <= b <= 70 {
        Some((b - 55) as nat)
    } else {
        None
    }
}

pub open spec fn all_hex_digits(s: Seq<u8>) -> bool {
    forall|i: int| 0 <= i < s.len() ==> (#[trigger] hex_digit_value(s[i])) is Some
}

/// The value of a string of hexadecimal digits.
pub open spec fn hex_value(s: Seq<u8>) -> nat
    decreases s.len(),
{
    if s.len() == 0 {
        0
    } else {
        hex_value(s.drop_last()) * 16 + hex_digit_value(s.last()).unwrap_or(0)
    }
}

/// What `u8::from_str_radix(s, 16)` gives: an optional `+`, then at least one
/// hexadecimal digit, with a value of at most 255.
pub open spec fn spec_parse_hex_u8(s: Seq<u8>) -> Option<nat> {
    let d = unsigned_digits(s);
    if d.len() > 0 && all_hex_digits(d) && hex_value(d) <= 255 {
        Some(hex_value(d))
    } else {
        None
    }
}

fn hex_digit(b: u8) -> (r: Option<u8>)
    ensures
        match r {
            Some(v) => hex_digit_value(b) == Some(v as nat),
            None => hex_digit_value(b) is None,
        },
{
    if 48u8 <= b && b <= 57u8 {
        Some(b - 48u8)
    } else if 97u8 <= b && b <= 102u8 {
        Some(b - 87u8)
    } else if 65u8 <= b && b <= 70u8 {
        Some(b - 55u8)
    } else {
        None
    }
}

/// Parses the two bytes `hi lo` as `u8::from_str_radix` does with radix 16.
pub fn parse_hex_pair(hi: u8, lo: u8) -> (r: Option<u8>)
    ensures
        match r {
            Some(v) => spec_parse_hex_u8(seq![hi, lo]) == Some(v as nat),
            None => spec_parse_hex_u8(seq![hi, lo]) is None,
        },
{
    let ghost s = seq![hi, lo];
    if hi == 43u8 {
        let ghost d = seq![lo];
        assert(unsigned_digits(s) =~= d);
        assert(d.drop_last() =~= Seq::<u8>::empty());
        match hex_digit(lo) {
            Some(v) => {
                assert(all_hex_digits(d));
                assert(hex_value(d) == hex_value(Seq::<u8>::empty()) * 16 + v);
                Some(v)
            },
            None => {
                assert(!all_hex_digits(d)) by {
                    assert(hex_digit_value(d[0]) is None);
                }
                None
            },
        }
    } else {
        assert(unsigned_digits(s) =~= s);
        assert(s.drop_last() =~= seq![hi]);
        assert(seq![hi].drop_last() =~= Seq::<u8>::empty());
        match (hex_digit(hi), hex_digit(lo)) {
            (Some(h), Some(l)) => {
                assert(all_hex_digits(s)) by {
                    assert forall|i: int| 0 <= i < s.len() implies (#[trigger] hex_digit_value(s[i])) is Some by {
                        if i == 0 {} else {}
                    }
                }
                assert(hex_value(seq![hi]) == hex_value(Seq::<u8>::empty()) * 16 + h);
                assert(hex_value(s) == hex_value(seq![hi]) * 16 + l);
                Some(h * 16 + l)
            },
            (None, _) => {
                assert(hex_digit_value(s[0]) is None);
                None
            },
            (_, None) => {
                assert(hex_digit_value(s[1]) is None);
                None
            },
        }
    }
}

/// What `atoi_simd::parse` accepts: between one and `max_len` decimal digits
/// and nothing else (no sign), with a value of at most `max`.
pub open spec fn spec_atoi(s: Seq<u8>, max_len: nat, max: nat) -> Option<nat> {
    if 0 < s.len() <= max_len && all_digits(s) && decimal_value(s) <= max {
        Some(decimal_value(s))
    } else {
        None
    }
}

/// The longest digit string `atoi_simd::parse::<usize>` reads.
pub open spec fn atoi_usize_max_len() -> nat {
    if usize::MAX == u64::MAX {
        20
    } else {
        16
    }
}

/// `atoi_simd::parse::<usize>`, its error dropped. The crate's portable path
/// reads at most 20 digits on 64-bit targets (16 on 32-bit ones), rejects any
/// other byte, and reports values beyond `usize::MAX` as overflow; this
/// contract states that, and nothing about the error kinds.
#[verifier::external_body]
pub(crate) fn atoi_usize(s: &[u8]) -> (r: Option<usize>)
    ensures
        match r {
            Some(v) => spec_atoi(s@, atoi_usize_max_len(), usize::MAX as nat) == Some(v as nat),
            None => spec_atoi(s@, atoi_usize_max_len(), usize::MAX as nat) is None,
        },
{
    atoi_simd::parse::<usize>(s).ok()
}

/// `atoi_simd::parse::<u32>`, its error dropped. The crate's portable path
/// reads at most 16 digits, rejects any other byte and reports values beyond
/// `u32::MAX` as overflow; this contract states that, and nothing about the
/// error kinds.
#[verifier::external_body]
pub(crate) fn atoi_u32(s: &[u8]) -> (r: Option<u32>)
    ensures
        match r {
            Some(v) => spec_atoi(s@, 16, u32::MAX as nat) == Some(v as nat),
            None => spec_atoi(s@, 16, u32::MAX as nat) is None,
        },
{
    atoi_simd::parse::<u32>(s).ok()
}

pub open spec fn is_sign(b: u8) -> bool {
    b == 43u8 || b == 45u8
}

/// ASCII lower-casing of one byte.
pub open spec fn ascii_lower(b: u8) -> u8 {
    if 65 <= b <= 90 {
        (b + 32) as u8
    } else {
        b
    }
}

/// Whether `s`, lower-cased, is the lower-case keyword `kw`.
pub open spec fn eq_ignore_ascii_case(s: Seq<u8>, kw: Seq<u8>) -> bool {
    s.len() == kw.len() && forall|i: int| 0 <= i < s.len() ==> ascii_lower(#[trigger] s[i]) == kw[i]
}

/// The index of the first non-digit at or after `i` (or the length).
pub open spec fn digit_run(s: Seq<u8>, i: int) -> int
    decreases s.len() - i,
{
    if i < 0 || i >= s.len() || !is_digit(s[i]) {
        i
    } else {
        digit_run(s, i + 1)
    }
}

/// `Number ::= ( Digit+ | Digit+ '.' Digit* | Digit* '.' Digit+ ) Exp?` with
/// `Exp ::= [eE] [+-]? Digit+`.
pub open spec fn is_decimal_number(s: Seq<u8>) -> bool {
    let a = digit_run(s, 0);
    let b = if a < s.len() && s[a] == 46u8 { digit_run(s, a + 1) } else { a };
    let frac_digits = if a < s.len() && s[a] == 46u8 { b - (a + 1) } else { 0 };
    &&& a + frac_digits > 0
    &&& (b == s.len() || {
        &&& (s[b] == 101u8 || s[b] == 69u8)
        &&& {
            let c = if b + 1 < s.len() && is_sign(s[b + 1]) { b + 2 } else { b + 1 };
            digit_run(s, c) > c && digit_run(s, c) == s.len()
        }
    })
}

/// The strings that `str::parse::<f64>` accepts: an optional sign, then
/// `inf`, `infinity` or `nan` in any case, or a decimal number.
pub open spec fn is_float_literal(s: Seq<u8>) -> bool {
    let t = if s.len() > 0 && is_sign(s[0]) { s.subrange(1, s.len() as int) } else { s };
    ||| eq_ignore_ascii_case(t, seq![105u8, 110u8, 102u8])
    ||| eq_ignore_ascii_case(t, seq![105u8, 110u8, 102u8, 105u8, 110u8, 105u8, 116u8, 121u8])
    ||| eq_ignore_ascii_case(t, seq![110u8, 97u8, 110u8])
    ||| is_decimal_number(t)
}

pub(crate) fn digit_run_exec(s: &[u8], i: usize) -> (r: usize)
    requires
        i <= s.len(),
    ensures
        r as int == digit_run(s@, i as int),
        i <= r <= s.len(),
{
    let mut j = i;
    while j < s.len() && 48u8 <= s[j] && s[j] <= 57u8
        invariant
            i <= j <= s.len(),
            digit_run(s@, i as int) == digit_run(s@, j as int),
        decreases s.len() - j,
    {
        j = j + 1;
    }
    j
}

fn eq_ignore_ascii_case_exec(s: &[u8], kw: &[u8]) -> (r: bool)
    ensures
        r == eq_ignore_ascii_case(s@, kw@),
{
    if s.len() != kw.len() {
        return false;
    }
    let mut i: usize = 0;
    while i < s.len()
        invariant
            s.len() == kw.len(),
            i <= s.len(),
            forall|j: int| 0 <= j < i ==> ascii_lower(#[trigger] s@[j]) == kw@[j],
        decreases s.len() - i,
    {
        let b = s[i];
        let lower: u8 = if 65u8 <= b && b <= 90u8 { b + 32 } else { b };
        if lower != kw[i] {
            return false;
        }
        i = i + 1;
    }
    true
}

/// Whether `str::parse::<f64>` accepts the text with these UTF-8 bytes.
pub fn is_float_literal_exec(s: &[u8]) -> (r: bool)
    ensures
        r == is_float_literal(s@),
{
    let t: &[u8] = if s.len() > 0 && (s[0] == 43u8 || s[0] == 45u8) {
        &s[1..s.len()]
    } else {
        s
    };
    let inf: [u8; 3] = [105, 110, 102];
    let infinity: [u8; 8] = [105, 110, 102, 105, 110, 105, 116, 121];
    let nan: [u8; 3] = [110, 97, 110];
    assert(inf@ == seq![105u8, 110u8, 102u8]);
    assert(infinity@ == seq![105u8, 110u8, 102u8, 105u8, 110u8, 105u8, 116u8, 121u8]);
    assert(nan@ == seq![110u8, 97u8, 110u8]);
    if eq_ignore_ascii_case_exec(t, &inf) {
        return true;
    }
    if eq_ignore_ascii_case_exec(t, &infinity) {
        return true;
    }
    if eq_ignore_ascii_case_exec(t, &nan) {
        return true;
    }
    let a = digit_run_exec(t, 0);
    let mut b = a;
    let mut frac: usize = 0;
    if a < t.len() && t[a] == 46u8 {
        b = digit_run_exec(t, a + 1);
        frac = b - (a + 1);
    }
    if a + frac == 0 {
        return false;
    }
    if b == t.len() {
        return true;
    }
    if t[b] != 101u8 && t[b] != 69u8 {
        return false;
    }
    let c = if b + 1 < t.len() && (t[b + 1] == 43u8 || t[b + 1] == 45u8) { b + 2 } else { b + 1 };
    let d = digit_run_exec(t, c);
    d > c && d == t.len()
}

} // verus!
