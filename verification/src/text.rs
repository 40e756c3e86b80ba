//! Character data of XML text: decoding, end-of-line normalization and
//! entity references.

use vstd::prelude::*;
use vstd::string::StringSliceAdditionalSpecFns;
use vstd::utf8::{decode_utf8, valid_utf8};
use crate::error::{EscapeError, XlsxError};
use crate::numbers::{all_digits, all_hex_digits, decimal_value, hex_value};
use crate::xml::bytes_eq;

verus! {

/// XML 1.0 end-of-line normalization on UTF-8 bytes: `\r\n` and a lone `\r`
/// both become `\n`.
pub open spec fn normalize_eols(s: Seq<u8>) -> Seq<u8>
    decreases s.len(),
{
    if s.len() == 0 {
        s
    } else if s[0] == 13u8 {
        let rest = if s.len() > 1 && s[1] == 10u8 {
            s.subrange(2, s.len() as int)
        } else {
            s.subrange(1, s.len() as int)
        };
        seq![10u8] + normalize_eols(rest)
    } else {
        seq![s[0]] + normalize_eols(s.subrange(1, s.len() as int))
    }
}

/// The characters of a text event: its bytes with line ends normalized,
/// decoded as UTF-8 (`None` when they are not valid UTF-8).
pub open spec fn spec_text_content(raw: Seq<u8>) -> Option<Seq<char>> {
    let n = normalize_eols(raw);
    if valid_utf8(n) {
        Some(decode_utf8(n))
    } else {
        None
    }
}

/// Normalizes line ends as XML 1.0 prescribes.
pub fn normalize_eols_exec(s: &[u8]) -> (r: Vec<u8>)
    ensures
        r@ == normalize_eols(s@),
{
    let mut out: Vec<u8> = Vec::new();
    let mut i: usize = 0;
    assert(s@.subrange(0, s@.len() as int) =~= s@);
    assert(out@ + normalize_eols(s@) =~= normalize_eols(s@));
    while i < s.len()
        invariant
            i <= s.len(),
            out@ + normalize_eols(s@.subrange(i as int, s@.len() as int)) == normalize_eols(s@),
        decreases s.len() - i,
    {
        let ghost rest = s@.subrange(i as int, s@.len() as int);
        if s[i] == 13u8 {
            out.push(10u8);
            if i + 1 < s.len() && s[i + 1] == 10u8 {
                assert(rest.subrange(2, rest.len() as int) =~= s@.subrange(i + 2, s@.len() as int));
                i = i + 2;
            } else {
                assert(rest.subrange(1, rest.len() as int) =~= s@.subrange(i + 1, s@.len() as int));
                i = i + 1;
            }
        } else {
            out.push(s[i]);
            assert(rest.subrange(1, rest.len() as int) =~= s@.subrange(i + 1, s@.len() as int));
            i = i + 1;
        }
        proof {
            assert(out@ + normalize_eols(s@.subrange(i as int, s@.len() as int)) =~= normalize_eols(s@));
        }
    }
    assert(s@.subrange(i as int, s@.len() as int) =~= Seq::<u8>::empty());
    assert(out@ + normalize_eols(Seq::<u8>::empty()) =~= out@);
    out
}

/// `std::str::from_utf8`: the text when the bytes are valid UTF-8.
#[verifier::external_body]
pub(crate) fn utf8_str(bytes: &[u8]) -> (r: Option<&str>)
    ensures
        r is Some <==> valid_utf8(bytes@),
        r matches Some(s) ==> s@ == decode_utf8(bytes@) && s.spec_bytes() == bytes@,
{
    std::str::from_utf8(bytes).ok()
}

/// What `String::from_utf8_lossy` makes of a byte string: valid UTF-8
/// decoded, each invalid sequence replaced by U+FFFD.
pub uninterp spec fn spec_utf8_lossy(bytes: Seq<u8>) -> Seq<char>;

/// `String::from_utf8_lossy`, as an owned string. For valid UTF-8 the result
/// is the decoded text; for other input only the name is stated.
#[verifier::external_body]
pub(crate) fn utf8_lossy(bytes: &[u8]) -> (r: String)
    ensures
        r@ == spec_utf8_lossy(bytes@),
        valid_utf8(bytes@) ==> r@ == decode_utf8(bytes@),
{
    String::from_utf8_lossy(bytes).into_owned()
}

/// `String::push`.
#[verifier::external_body]
pub(crate) fn string_push(s: &mut String, c: char)
    ensures
        final(s)@ == old(s)@.push(c),
{
    s.push(c);
}

/// The five entities that XML predefines.
pub open spec fn spec_xml_entity(name: Seq<char>) -> Option<Seq<char>> {
    if name == seq!['l', 't'] {
        Some(seq!['<'])
    } else if name == seq!['g', 't'] {
        Some(seq!['>'])
    } else if name == seq!['a', 'm', 'p'] {
        Some(seq!['&'])
    } else if name == seq!['a', 'p', 'o', 's'] {
        Some(seq!['\''])
    } else if name == seq!['q', 'u', 'o', 't'] {
        Some(seq!['"'])
    } else {
        None
    }
}

/// `quick_xml::escape::resolve_xml_entity`: the replacement text of `lt`,
/// `gt`, `amp`, `apos` and `quot`, and nothing for any other name.
#[verifier::external_body]
fn resolve_xml_entity(name: &str) -> (r: Option<&'static str>)
    ensures
        match r {
            Some(v) => spec_xml_entity(name@) == Some(v@),
            None => spec_xml_entity(name@) is None,
        },
{
    quick_xml::escape::resolve_xml_entity(name)
}

/// Whether a number is the code of a `char` (a Unicode scalar value).
pub open spec fn is_scalar_code(code: nat) -> bool {
    code < 0xD800 || (0xE000 <= code && code <= 0x10FFFF)
}

/// The code that `u32::from_str_radix` reads from the digits of a character
/// reference, with radix 16 or 10.
pub open spec fn char_ref_code(digits: Seq<u8>, hex: bool) -> Option<nat> {
    if digits.len() == 0 || digits[0] == 43u8 || digits[0] == 45u8 {
        None
    } else if hex {
        if all_hex_digits(digits) && hex_value(digits) <= u32::MAX {
            Some(hex_value(digits))
        } else {
            None
        }
    } else {
        if all_digits(digits) && decimal_value(digits) <= u32::MAX {
            Some(decimal_value(digits))
        } else {
            None
        }
    }
}

/// A reference `#n` or `#xh` names the character with that decimal or
/// hexadecimal code (`Err` when there is no such character or the code is 0);
/// any other name is no character reference.
pub open spec fn spec_char_ref(name: Seq<u8>) -> Result<Option<char>, ()> {
    if name.len() > 0 && name[0] == 35u8 {
        let num = name.subrange(1, name.len() as int);
        let hex = num.len() > 0 && num[0] == 120u8;
        let digits = if hex { num.subrange(1, num.len() as int) } else { num };
        match char_ref_code(digits, hex) {
            Some(code) => if code != 0 && is_scalar_code(code) {
                Ok(Some(code as char))
            } else {
                Err(())
            },
            None => Err(()),
        }
    } else {
        Ok(None)
    }
}

/// `quick_xml::events::BytesRef::resolve_char_ref` on a reference with this
/// name, its error reduced to `Err(())`.
#[verifier::external_body]
fn resolve_char_ref(name: &str) -> (r: Result<Option<char>, ()>)
    ensures
        r == spec_char_ref(name.spec_bytes()),
{
    match quick_xml::events::BytesRef::new(name).resolve_char_ref() {
        Ok(c) => Ok(c),
        Err(_) => Err(()),
    }
}

/// The text that the entity or character reference `&raw;` stands for.
pub open spec fn spec_entity_text(raw: Seq<u8>) -> Result<Seq<char>, XlsxError> {
    if !valid_utf8(raw) {
        Err(XlsxError::Encoding)
    } else {
        match spec_char_ref(raw) {
            Err(_) => Err(XlsxError::Escape(EscapeError::InvalidCharRef)),
            Ok(Some(c)) => Ok(seq![c]),
            Ok(None) => match spec_xml_entity(decode_utf8(raw)) {
                Some(v) => Ok(v),
                None => Err(XlsxError::Escape(EscapeError::UnrecognizedEntity)),
            },
        }
    }
}

/// Appends the characters of a text event to `buf`.
pub fn push_text(buf: &mut String, raw: &[u8]) -> (r: Result<(), XlsxError>)
    ensures
        match spec_text_content(raw@) {
            Some(t) => r is Ok && final(buf)@ == old(buf)@ + t,
            None => r == Err::<(), XlsxError>(XlsxError::Encoding),
        },
{
    let normalized = normalize_eols_exec(raw);
    match utf8_str(normalized.as_slice()) {
        Some(s) => {
            buf.append(s);
            Ok(())
        },
        None => Err(XlsxError::Encoding),
    }
}

/// Appends the replacement text of the reference `&raw;` to `buf`.
pub fn push_entity(buf: &mut String, raw: &[u8]) -> (r: Result<(), XlsxError>)
    ensures
        match spec_entity_text(raw@) {
            Ok(t) => r is Ok && final(buf)@ == old(buf)@ + t,
            Err(e) => r == Err::<(), XlsxError>(e),
        },
{
    match utf8_str(raw) {
        None => Err(XlsxError::Encoding),
        Some(name) => match resolve_char_ref(name) {
            Err(_) => Err(XlsxError::Escape(EscapeError::InvalidCharRef)),
            Ok(Some(c)) => {
                string_push(buf, c);
                assert(old(buf)@.push(c) =~= old(buf)@ + seq![c]);
                Ok(())
            },
            Ok(None) => match resolve_xml_entity(name) {
                Some(v) => {
                    buf.append(v);
                    Ok(())
                },
                None => Err(XlsxError::Escape(EscapeError::UnrecognizedEntity)),
            },
        },
    }
}

} // verus!
