//! Parsing of the style records of `xl/styles.xml`: colors, fonts, fills,
//! borders, alignment and protection.

use vstd::prelude::*;
use vstd::string::StringSliceAdditionalSpecFns;
use vstd::utf8::encode_utf8;
use crate::text::{spec_utf8_lossy, utf8_lossy};
use crate::colors::{get_indexed_color, get_theme_color, spec_indexed_color, spec_theme_color};
use crate::error::{EofContext, Unexpected, XlsxError};
use crate::keywords::{KW_400, KW_700, KW_B, KW_BG_COLOR, KW_BOLD, KW_BORDER, KW_BOTTOM, KW_CENTER, KW_COLOR, KW_DARK_DOWN, KW_DARK_GRAY, KW_DARK_GRID, KW_DARK_HORIZONTAL, KW_DARK_TRELLIS, KW_DARK_UP, KW_DARK_VERTICAL, KW_DASHED, KW_DASH_DOT, KW_DASH_DOT_DOT, KW_DIAGONAL, KW_DIAGONAL_DOWN, KW_DIAGONAL_UP, KW_DISTRIBUTED, KW_DOTTED, KW_DOUBLE, KW_DOUBLE_ACCOUNTING, KW_FALSE, KW_FAMILY, KW_FG_COLOR, KW_FILL, KW_FONT, KW_GRAY0625, KW_GRAY125, KW_HAIR, KW_HIDDEN, KW_HORIZONTAL, KW_I, KW_INDENT, KW_INDEXED, KW_ITALIC, KW_JUSTIFY, KW_LEFT, KW_LIGHT_DOWN, KW_LIGHT_GRAY, KW_LIGHT_GRID, KW_LIGHT_HORIZONTAL, KW_LIGHT_TRELLIS, KW_LIGHT_UP, KW_LIGHT_VERTICAL, KW_LOCKED, KW_MEDIUM, KW_MEDIUM_DASHED, KW_MEDIUM_GRAY, KW_NAME, KW_NORMAL, KW_OBLIQUE, KW_ONE, KW_PATTERN_FILL, KW_PATTERN_TYPE, KW_RGB, KW_RIGHT, KW_SHRINK_TO_FIT, KW_SINGLE, KW_SINGLE_ACCOUNTING, KW_SLANT_DASH_DOT, KW_SOLID, KW_STRIKE, KW_STYLE, KW_SZ, KW_TEXT_ROTATION, KW_THEME, KW_THICK, KW_TINT, KW_THIN, KW_TOP, KW_TRUE, KW_U, KW_VAL, KW_VERTICAL, KW_WRAP_TEXT, KW_ZERO};
use crate::numbers::{is_float_literal, is_float_literal_exec, parse_hex_pair, parse_u16, parse_u8, spec_parse_hex_u8, spec_parse_unsigned};
use crate::style::{Alignment, Border, BorderStyle, Borders, Color, Fill, FillPattern, Font, FontStyle, FontView, FontWeight, HorizontalAlignment, Protection, TextRotation, UnderlineStyle, VerticalAlignment, spec_alignment_new, spec_borders_new, spec_fill_new, spec_font_new, spec_protection_new, spec_rgb};
use crate::stream::{lemma_read_text_bounds, lemma_skip_to_end_bounds, read_text, read_text_from, read_to_end, same_parse, skip_to_end_from};
use crate::tint::{apply_tint, parse_tint, spec_apply_tint, spec_tint};
use crate::xml::{attr_lookup_from, find_attribute, bytes_eq, get_attribute, spec_get_attribute, events_wf, local_name, spec_local_name, XmlAttribute, XmlElement, XmlEvent};

verus! {

/// Two hexadecimal characters as a byte.
pub open spec fn hex_byte(hi: u8, lo: u8) -> Option<u8> {
    match spec_parse_hex_u8(seq![hi, lo]) {
        Some(v) => Some(v as u8),
        None => None,
    }
}

/// The color that the attributes from index `i` on describe: the first `rgb`
/// of six (RGB) or eight (ARGB) characters, `theme` or `indexed` attribute
/// whose value parses decides; an `rgb` of six or eight characters that are
/// not hexadecimal is an error.
pub open spec fn parse_color_from(attrs: Seq<XmlAttribute>, theme_colors: Seq<Color>, i: int) -> Result<Option<Color>, XlsxError>
    decreases attrs.len() - i,
{
    if i < 0 || i >= attrs.len() {
        Ok(None)
    } else {
        let key = attrs[i].key@;
        let v = attrs[i].value@;
        if key == KW_RGB@ && v.len() == 6 {
            match (hex_byte(v[0], v[1]), hex_byte(v[2], v[3]), hex_byte(v[4], v[5])) {
                (Some(r), Some(g), Some(b)) => Ok(Some(spec_rgb(r, g, b))),
                (None, _, _) => Err(XlsxError::Unexpected(Unexpected::InvalidRedColor)),
                (_, None, _) => Err(XlsxError::Unexpected(Unexpected::InvalidGreenColor)),
                (_, _, None) => Err(XlsxError::Unexpected(Unexpected::InvalidBlueColor)),
            }
        } else if key == KW_RGB@ && v.len() == 8 {
            match (hex_byte(v[0], v[1]), hex_byte(v[2], v[3]), hex_byte(v[4], v[5]), hex_byte(v[6], v[7])) {
                (Some(a), Some(r), Some(g), Some(b)) => Ok(Some(Color { alpha: a, red: r, green: g, blue: b })),
                (None, _, _, _) => Err(XlsxError::Unexpected(Unexpected::InvalidAlphaColor)),
                (_, None, _, _) => Err(XlsxError::Unexpected(Unexpected::InvalidRedColor)),
                (_, _, None, _) => Err(XlsxError::Unexpected(Unexpected::InvalidGreenColor)),
                (_, _, _, None) => Err(XlsxError::Unexpected(Unexpected::InvalidBlueColor)),
            }
        } else if key == KW_THEME@ && spec_parse_unsigned(v, 255) is Some {
            Ok(Some(spec_theme_color(spec_parse_unsigned(v, 255).unwrap(), theme_colors)))
        } else if key == KW_INDEXED@ && spec_parse_unsigned(v, 255) is Some {
            Ok(Some(spec_indexed_color(spec_parse_unsigned(v, 255).unwrap())))
        } else {
            parse_color_from(attrs, theme_colors, i + 1)
        }
    }
}

/// The tint that the first `tint` attribute gives, if any.
pub open spec fn spec_color_tint(attrs: Seq<XmlAttribute>) -> Option<(int, int)> {
    match attr_lookup_from(attrs, KW_TINT@, 0) {
        Some(v) => spec_tint(v),
        None => None,
    }
}

/// The color that a color element's attributes describe (see
/// `parse_color_from`), with the tint of its `tint` attribute applied.
pub open spec fn spec_parse_color(attrs: Seq<XmlAttribute>, theme_colors: Seq<Color>) -> Result<Option<Color>, XlsxError> {
    match parse_color_from(attrs, theme_colors, 0) {
        Ok(Some(c)) => Ok(Some(match spec_color_tint(attrs) {
            Some((p, q)) => spec_apply_tint(c, p, q),
            None => c,
        })),
        r => r,
    }
}

fn hex_at(v: &[u8], i: usize) -> (r: Option<u8>)
    requires
        i + 1 < v@.len(),
    ensures
        r == hex_byte(v@[i as int], v@[i + 1]),
{
    parse_hex_pair(v[i], v[i + 1])
}

/// Parse color from XML attributes: `rgb`, `theme` or `indexed`, then the
/// OOXML `tint`, if any, applied to the color found.
pub fn parse_color(attributes: &[XmlAttribute], theme_colors: &[Color; 12]) -> (r: Result<Option<Color>, XlsxError>)
    ensures
        r == spec_parse_color(attributes@, theme_colors@),
{
    let k_tint = KW_TINT;
    match resolve_color(attributes, theme_colors) {
        Ok(Some(c)) => match find_attribute(attributes, &k_tint) {
            Some(v) => match parse_tint(v) {
                Some((p, q)) => Ok(Some(apply_tint(c, p, q))),
                None => Ok(Some(c)),
            },
            None => Ok(Some(c)),
        },
        r => r,
    }
}

/// The color of the first `rgb`, `theme` or `indexed` attribute that decides.
fn resolve_color(attributes: &[XmlAttribute], theme_colors: &[Color; 12]) -> (r: Result<Option<Color>, XlsxError>)
    ensures
        r == parse_color_from(attributes@, theme_colors@, 0),
{
    let mut i: usize = 0;
    while i < attributes.len()
        invariant
            i <= attributes@.len(),
            parse_color_from(attributes@, theme_colors@, 0) == parse_color_from(attributes@, theme_colors@, i as int),
        decreases attributes@.len() - i,
    {
        let key = attributes[i].key.as_slice();
        let v = attributes[i].value.as_slice();
        let rgb = KW_RGB;
        let theme = KW_THEME;
        let indexed = KW_INDEXED;
        if bytes_eq(key, &rgb) {
            if v.len() == 6 {
                let r = hex_at(v, 0);
                let g = hex_at(v, 2);
                let b = hex_at(v, 4);
                return match (r, g, b) {
                    (Some(r), Some(g), Some(b)) => Ok(Some(Color::rgb(r, g, b))),
                    (None, _, _) => Err(XlsxError::Unexpected(Unexpected::InvalidRedColor)),
                    (_, None, _) => Err(XlsxError::Unexpected(Unexpected::InvalidGreenColor)),
                    (_, _, None) => Err(XlsxError::Unexpected(Unexpected::InvalidBlueColor)),
                };
            } else if v.len() == 8 {
                let a = hex_at(v, 0);
                let r = hex_at(v, 2);
                let g = hex_at(v, 4);
                let b = hex_at(v, 6);
                return match (a, r, g, b) {
                    (Some(a), Some(r), Some(g), Some(b)) => Ok(Some(Color::new(a, r, g, b))),
                    (None, _, _, _) => Err(XlsxError::Unexpected(Unexpected::InvalidAlphaColor)),
                    (_, None, _, _) => Err(XlsxError::Unexpected(Unexpected::InvalidRedColor)),
                    (_, _, None, _) => Err(XlsxError::Unexpected(Unexpected::InvalidGreenColor)),
                    (_, _, _, None) => Err(XlsxError::Unexpected(Unexpected::InvalidBlueColor)),
                };
            }
        } else if bytes_eq(key, &theme) {
            if let Some(t) = parse_u8(v) {
                return Ok(Some(get_theme_color(t, theme_colors)));
            }
        } else if bytes_eq(key, &indexed) {
            if let Some(t) = parse_u8(v) {
                return Ok(Some(get_indexed_color(t)));
            }
        }
        i = i + 1;
    }
    Ok(None)
}

/// Font weight keyword: `bold`/`700` and `normal`/`400`, else a numeric weight
/// (bold from 600 on); anything else is normal.
pub open spec fn spec_font_weight(s: Seq<u8>) -> FontWeight {
    if s == KW_BOLD@ || s == KW_700@ {
        FontWeight::Bold
    } else if s == KW_NORMAL@ || s == KW_400@ {
        FontWeight::Normal
    } else {
        match spec_parse_unsigned(s, 65535) {
            Some(w) => if w >= 600 { FontWeight::Bold } else { FontWeight::Normal },
            None => FontWeight::Normal,
        }
    }
}

/// Parse font weight from string
pub fn parse_font_weight(s: &[u8]) -> (r: FontWeight)
    ensures
        r == spec_font_weight(s@),
{
    let bold = KW_BOLD;
    let w700 = KW_700;
    let normal = KW_NORMAL;
    let w400 = KW_400;
    if bytes_eq(s, &bold) || bytes_eq(s, &w700) {
        FontWeight::Bold
    } else if bytes_eq(s, &normal) || bytes_eq(s, &w400) {
        FontWeight::Normal
    } else {
        match parse_u16(s) {
            Some(weight) => if weight >= 600 { FontWeight::Bold } else { FontWeight::Normal },
            None => FontWeight::Normal,
        }
    }
}

/// Font style keyword: `italic` and `oblique` are italic, anything else normal.
pub open spec fn spec_font_style(s: Seq<u8>) -> FontStyle {
    if s == KW_ITALIC@ || s == KW_OBLIQUE@ {
        FontStyle::Italic
    } else {
        FontStyle::Normal
    }
}

/// Parse font style from string
pub fn parse_font_style(s: &[u8]) -> (r: FontStyle)
    ensures
        r == spec_font_style(s@),
{
    let italic = KW_ITALIC;
    let oblique = KW_OBLIQUE;
    if bytes_eq(s, &italic) || bytes_eq(s, &oblique) {
        FontStyle::Italic
    } else {
        FontStyle::Normal
    }
}

pub open spec fn spec_underline_style(s: Seq<u8>) -> UnderlineStyle {
    if s == KW_SINGLE@ {
        UnderlineStyle::Single
    } else if s == KW_DOUBLE@ {
        UnderlineStyle::Double
    } else if s == KW_SINGLE_ACCOUNTING@ {
        UnderlineStyle::SingleAccounting
    } else if s == KW_DOUBLE_ACCOUNTING@ {
        UnderlineStyle::DoubleAccounting
    } else {
        UnderlineStyle::NoUnderline
    }
}

/// Parse underline style from string
pub fn parse_underline_style(s: &[u8]) -> (r: UnderlineStyle)
    ensures
        r == spec_underline_style(s@),
{
    let single = KW_SINGLE;
    let double = KW_DOUBLE;
    let single_acc = KW_SINGLE_ACCOUNTING;
    let double_acc = KW_DOUBLE_ACCOUNTING;
    if bytes_eq(s, &single) {
        UnderlineStyle::Single
    } else if bytes_eq(s, &double) {
        UnderlineStyle::Double
    } else if bytes_eq(s, &single_acc) {
        UnderlineStyle::SingleAccounting
    } else if bytes_eq(s, &double_acc) {
        UnderlineStyle::DoubleAccounting
    } else {
        UnderlineStyle::NoUnderline
    }
}

pub open spec fn spec_horizontal_alignment(s: Seq<u8>) -> HorizontalAlignment {
    if s == KW_LEFT@ {
        HorizontalAlignment::Left
    } else if s == KW_CENTER@ {
        HorizontalAlignment::Center
    } else if s == KW_RIGHT@ {
        HorizontalAlignment::Right
    } else if s == KW_JUSTIFY@ {
        HorizontalAlignment::Justify
    } else if s == KW_DISTRIBUTED@ {
        HorizontalAlignment::Distributed
    } else if s == KW_FILL@ {
        HorizontalAlignment::Fill
    } else {
        HorizontalAlignment::General
    }
}

/// Parse horizontal alignment from string
pub fn parse_horizontal_alignment(s: &[u8]) -> (r: HorizontalAlignment)
    ensures
        r == spec_horizontal_alignment(s@),
{
    let left = KW_LEFT;
    let center = KW_CENTER;
    let right = KW_RIGHT;
    let justify = KW_JUSTIFY;
    let distributed = KW_DISTRIBUTED;
    let fill = KW_FILL;
    if bytes_eq(s, &left) {
        HorizontalAlignment::Left
    } else if bytes_eq(s, &center) {
        HorizontalAlignment::Center
    } else if bytes_eq(s, &right) {
        HorizontalAlignment::Right
    } else if bytes_eq(s, &justify) {
        HorizontalAlignment::Justify
    } else if bytes_eq(s, &distributed) {
        HorizontalAlignment::Distributed
    } else if bytes_eq(s, &fill) {
        HorizontalAlignment::Fill
    } else {
        HorizontalAlignment::General
    }
}

pub open spec fn spec_vertical_alignment(s: Seq<u8>) -> VerticalAlignment {
    if s == KW_TOP@ {
        VerticalAlignment::Top
    } else if s == KW_CENTER@ {
        VerticalAlignment::Center
    } else if s == KW_BOTTOM@ {
        VerticalAlignment::Bottom
    } else if s == KW_JUSTIFY@ {
        VerticalAlignment::Justify
    } else if s == KW_DISTRIBUTED@ {
        VerticalAlignment::Distributed
    } else {
        VerticalAlignment::Bottom
    }
}

/// Parse vertical alignment from string
pub fn parse_vertical_alignment(s: &[u8]) -> (r: VerticalAlignment)
    ensures
        r == spec_vertical_alignment(s@),
{
    let top = KW_TOP;
    let center = KW_CENTER;
    let bottom = KW_BOTTOM;
    let justify = KW_JUSTIFY;
    let distributed = KW_DISTRIBUTED;
    if bytes_eq(s, &top) {
        VerticalAlignment::Top
    } else if bytes_eq(s, &center) {
        VerticalAlignment::Center
    } else if bytes_eq(s, &bottom) {
        VerticalAlignment::Bottom
    } else if bytes_eq(s, &justify) {
        VerticalAlignment::Justify
    } else if bytes_eq(s, &distributed) {
        VerticalAlignment::Distributed
    } else {
        VerticalAlignment::Bottom
    }
}

pub open spec fn spec_fill_pattern(s: Seq<u8>) -> FillPattern {
    if s == KW_SOLID@ {
        FillPattern::Solid
    } else if s == KW_DARK_GRAY@ {
        FillPattern::DarkGray
    } else if s == KW_MEDIUM_GRAY@ {
        FillPattern::MediumGray
    } else if s == KW_LIGHT_GRAY@ {
        FillPattern::LightGray
    } else if s == KW_GRAY125@ {
        FillPattern::Gray125
    } else if s == KW_GRAY0625@ {
        FillPattern::Gray0625
    } else if s == KW_DARK_HORIZONTAL@ {
        FillPattern::DarkHorizontal
    } else if s == KW_DARK_VERTICAL@ {
        FillPattern::DarkVertical
    } else if s == KW_DARK_DOWN@ {
        FillPattern::DarkDown
    } else if s == KW_DARK_UP@ {
        FillPattern::DarkUp
    } else if s == KW_DARK_GRID@ {
        FillPattern::DarkGrid
    } else if s == KW_DARK_TRELLIS@ {
        FillPattern::DarkTrellis
    } else if s == KW_LIGHT_HORIZONTAL@ {
        FillPattern::LightHorizontal
    } else if s == KW_LIGHT_VERTICAL@ {
        FillPattern::LightVertical
    } else if s == KW_LIGHT_DOWN@ {
        FillPattern::LightDown
    } else if s == KW_LIGHT_UP@ {
        FillPattern::LightUp
    } else if s == KW_LIGHT_GRID@ {
        FillPattern::LightGrid
    } else if s == KW_LIGHT_TRELLIS@ {
        FillPattern::LightTrellis
    } else {
        FillPattern::NoFill
    }
}

/// Parse fill pattern from string
pub fn parse_fill_pattern(s: &[u8]) -> (r: FillPattern)
    ensures
        r == spec_fill_pattern(s@),
{
    let k_solid = KW_SOLID;
    let k_darkgray = KW_DARK_GRAY;
    let k_mediumgray = KW_MEDIUM_GRAY;
    let k_lightgray = KW_LIGHT_GRAY;
    let k_gray125 = KW_GRAY125;
    let k_gray0625 = KW_GRAY0625;
    let k_darkhorizontal = KW_DARK_HORIZONTAL;
    let k_darkvertical = KW_DARK_VERTICAL;
    let k_darkdown = KW_DARK_DOWN;
    let k_darkup = KW_DARK_UP;
    let k_darkgrid = KW_DARK_GRID;
    let k_darktrellis = KW_DARK_TRELLIS;
    let k_lighthorizontal = KW_LIGHT_HORIZONTAL;
    let k_lightvertical = KW_LIGHT_VERTICAL;
    let k_lightdown = KW_LIGHT_DOWN;
    let k_lightup = KW_LIGHT_UP;
    let k_lightgrid = KW_LIGHT_GRID;
    let k_lighttrellis = KW_LIGHT_TRELLIS;
    if bytes_eq(s, &k_solid) {
        FillPattern::Solid
    } else if bytes_eq(s, &k_darkgray) {
        FillPattern::DarkGray
    } else if bytes_eq(s, &k_mediumgray) {
        FillPattern::MediumGray
    } else if bytes_eq(s, &k_lightgray) {
        FillPattern::LightGray
    } else if bytes_eq(s, &k_gray125) {
        FillPattern::Gray125
    } else if bytes_eq(s, &k_gray0625) {
        FillPattern::Gray0625
    } else if bytes_eq(s, &k_darkhorizontal) {
        FillPattern::DarkHorizontal
    } else if bytes_eq(s, &k_darkvertical) {
        FillPattern::DarkVertical
    } else if bytes_eq(s, &k_darkdown) {
        FillPattern::DarkDown
    } else if bytes_eq(s, &k_darkup) {
        FillPattern::DarkUp
    } else if bytes_eq(s, &k_darkgrid) {
        FillPattern::DarkGrid
    } else if bytes_eq(s, &k_darktrellis) {
        FillPattern::DarkTrellis
    } else if bytes_eq(s, &k_lighthorizontal) {
        FillPattern::LightHorizontal
    } else if bytes_eq(s, &k_lightvertical) {
        FillPattern::LightVertical
    } else if bytes_eq(s, &k_lightdown) {
        FillPattern::LightDown
    } else if bytes_eq(s, &k_lightup) {
        FillPattern::LightUp
    } else if bytes_eq(s, &k_lightgrid) {
        FillPattern::LightGrid
    } else if bytes_eq(s, &k_lighttrellis) {
        FillPattern::LightTrellis
    } else {
        FillPattern::NoFill
    }
}

pub open spec fn spec_border_style(s: Seq<u8>) -> BorderStyle {
    if s == KW_THIN@ {
        BorderStyle::Thin
    } else if s == KW_MEDIUM@ {
        BorderStyle::Medium
    } else if s == KW_THICK@ {
        BorderStyle::Thick
    } else if s == KW_DOUBLE@ {
        BorderStyle::Double
    } else if s == KW_HAIR@ {
        BorderStyle::Hair
    } else if s == KW_DASHED@ {
        BorderStyle::Dashed
    } else if s == KW_DOTTED@ {
        BorderStyle::Dotted
    } else if s == KW_MEDIUM_DASHED@ {
        BorderStyle::MediumDashed
    } else if s == KW_DASH_DOT@ {
        BorderStyle::DashDot
    } else if s == KW_DASH_DOT_DOT@ {
        BorderStyle::DashDotDot
    } else if s == KW_SLANT_DASH_DOT@ {
        BorderStyle::SlantDashDot
    } else {
        BorderStyle::NoBorder
    }
}

/// Parse border style from string
pub fn parse_border_style(s: &[u8]) -> (r: BorderStyle)
    ensures
        r == spec_border_style(s@),
{
    let k_thin = KW_THIN;
    let k_medium = KW_MEDIUM;
    let k_thick = KW_THICK;
    let k_double = KW_DOUBLE;
    let k_hair = KW_HAIR;
    let k_dashed = KW_DASHED;
    let k_dotted = KW_DOTTED;
    let k_mediumdashed = KW_MEDIUM_DASHED;
    let k_dashdot = KW_DASH_DOT;
    let k_dashdotdot = KW_DASH_DOT_DOT;
    let k_slantdashdot = KW_SLANT_DASH_DOT;
    if bytes_eq(s, &k_thin) {
        BorderStyle::Thin
    } else if bytes_eq(s, &k_medium) {
        BorderStyle::Medium
    } else if bytes_eq(s, &k_thick) {
        BorderStyle::Thick
    } else if bytes_eq(s, &k_double) {
        BorderStyle::Double
    } else if bytes_eq(s, &k_hair) {
        BorderStyle::Hair
    } else if bytes_eq(s, &k_dashed) {
        BorderStyle::Dashed
    } else if bytes_eq(s, &k_dotted) {
        BorderStyle::Dotted
    } else if bytes_eq(s, &k_mediumdashed) {
        BorderStyle::MediumDashed
    } else if bytes_eq(s, &k_dashdot) {
        BorderStyle::DashDot
    } else if bytes_eq(s, &k_dashdotdot) {
        BorderStyle::DashDotDot
    } else if bytes_eq(s, &k_slantdashdot) {
        BorderStyle::SlantDashDot
    } else {
        BorderStyle::NoBorder
    }
}

/// `Ok(b)` for the OOXML booleans `1`/`true` and `0`/`false`.
pub open spec fn spec_ooxml_bool(value: Seq<u8>) -> Result<bool, XlsxError> {
    if value == KW_ONE@ || value == KW_TRUE@ {
        Ok(true)
    } else if value == KW_ZERO@ || value == KW_FALSE@ {
        Ok(false)
    } else {
        Err(XlsxError::Unexpected(Unexpected::InvalidOoxmlBoolean))
    }
}

/// Parses an OOXML boolean attribute value.
pub fn parse_ooxml_bool(value: &[u8]) -> (r: Result<bool, XlsxError>)
    ensures
        r == spec_ooxml_bool(value@),
{
    let one = KW_ONE;
    let t = KW_TRUE;
    let zero = KW_ZERO;
    let f = KW_FALSE;
    if bytes_eq(value, &one) || bytes_eq(value, &t) {
        Ok(true)
    } else if bytes_eq(value, &zero) || bytes_eq(value, &f) {
        Ok(false)
    } else {
        Err(XlsxError::Unexpected(Unexpected::InvalidOoxmlBoolean))
    }
}

/// Whether a value is `1` or `true` (the values that switch a flag on).
pub open spec fn spec_is_on(value: Seq<u8>) -> bool {
    value == KW_ONE@ || value == KW_TRUE@
}

fn is_on(value: &[u8]) -> (r: bool)
    ensures
        r == spec_is_on(value@),
{
    let one = KW_ONE;
    let t = KW_TRUE;
    bytes_eq(value, &one) || bytes_eq(value, &t)
}

pub open spec fn spec_is_border_side(name: Seq<u8>) -> bool {
    name == KW_LEFT@ || name == KW_RIGHT@ || name == KW_TOP@ || name == KW_BOTTOM@ || name == KW_DIAGONAL@
}

/// Whether an element name is one of the five border sides.
pub fn is_border_side(name: &[u8]) -> (r: bool)
    ensures
        r == spec_is_border_side(name@),
{
    let left = KW_LEFT;
    let right = KW_RIGHT;
    let top = KW_TOP;
    let bottom = KW_BOTTOM;
    let diagonal = KW_DIAGONAL;
    bytes_eq(name, &left) || bytes_eq(name, &right) || bytes_eq(name, &top) || bytes_eq(name, &bottom)
        || bytes_eq(name, &diagonal)
}

/// The borders after the side `side` is set to `border`. The `diagonal` side
/// sets the down and the up diagonal as the parent element's `diagonalDown`
/// and `diagonalUp` flags say; other names change nothing.
pub open spec fn spec_apply_border(borders: Borders, side: Seq<u8>, border: Border, diagonal_down: bool, diagonal_up: bool) -> Borders {
    if side == KW_LEFT@ {
        Borders { left: border, ..borders }
    } else if side == KW_RIGHT@ {
        Borders { right: border, ..borders }
    } else if side == KW_TOP@ {
        Borders { top: border, ..borders }
    } else if side == KW_BOTTOM@ {
        Borders { bottom: border, ..borders }
    } else if side == KW_DIAGONAL@ {
        Borders {
            diagonal_down: if diagonal_down { border } else { borders.diagonal_down },
            diagonal_up: if diagonal_up { border } else { borders.diagonal_up },
            ..borders
        }
    } else {
        borders
    }
}

/// Sets one side of `borders`.
pub fn apply_border(borders: &mut Borders, side: &[u8], border: Border, diagonal_down: bool, diagonal_up: bool)
    ensures
        *final(borders) == spec_apply_border(*old(borders), side@, border, diagonal_down, diagonal_up),
{
    let left = KW_LEFT;
    let right = KW_RIGHT;
    let top = KW_TOP;
    let bottom = KW_BOTTOM;
    let diagonal = KW_DIAGONAL;
    if bytes_eq(side, &left) {
        borders.left = border;
    } else if bytes_eq(side, &right) {
        borders.right = border;
    } else if bytes_eq(side, &top) {
        borders.top = border;
    } else if bytes_eq(side, &bottom) {
        borders.bottom = border;
    } else if bytes_eq(side, &diagonal) {
        if diagonal_down {
            borders.diagonal_down = border;
        }
        if diagonal_up {
            borders.diagonal_up = border;
        }
    }
}

/// The line style given by the last `style` attribute among the first `n`
/// attributes (no line when there is none).
pub open spec fn border_style_upto(attrs: Seq<XmlAttribute>, n: int) -> BorderStyle
    decreases n,
{
    if n <= 0 || n > attrs.len() {
        BorderStyle::NoBorder
    } else if attrs[n - 1].key@ == KW_STYLE@ {
        spec_border_style(attrs[n - 1].value@)
    } else {
        border_style_upto(attrs, n - 1)
    }
}

/// The border that a side element describes through its own attributes.
pub open spec fn spec_border_from_element(e: XmlElement, theme_colors: Seq<Color>) -> Result<Border, XlsxError> {
    if e.malformed_attributes {
        Err(XlsxError::XmlAttr)
    } else {
        let style = border_style_upto(e.attributes@, e.attributes@.len() as int);
        match spec_parse_color(e.attributes@, theme_colors) {
            Err(x) => Err(x),
            Ok(Some(c)) => Ok(Border { style, color: Some(c) }),
            Ok(None) => Ok(Border { style, color: None }),
        }
    }
}

/// Reads the line style and color of a border side element.
pub fn border_from_element(element: &XmlElement, theme_colors: &[Color; 12]) -> (r: Result<Border, XlsxError>)
    ensures
        r == spec_border_from_element(*element, theme_colors@),
{
    if element.malformed_attributes {
        return Err(XlsxError::XmlAttr);
    }
    let attributes = element.attributes.as_slice();
    let mut style = BorderStyle::NoBorder;
    let mut i: usize = 0;
    while i < attributes.len()
        invariant
            i <= attributes@.len(),
            attributes@ == element.attributes@,
            style == border_style_upto(attributes@, i as int),
        decreases attributes@.len() - i,
    {
        let style_key = KW_STYLE;
        if bytes_eq(attributes[i].key.as_slice(), &style_key) {
            style = parse_border_style(attributes[i].value.as_slice());
        }
        i = i + 1;
    }
    match parse_color(attributes, theme_colors) {
        Err(x) => Err(x),
        Ok(Some(color)) => Ok(Border::with_color(style, color)),
        Ok(None) => Ok(Border::new(style)),
    }
}

/// The alignment after one attribute of an `alignment` element is applied.
pub open spec fn alignment_step(a: Alignment, attr: XmlAttribute) -> Alignment {
    let key = attr.key@;
    let v = attr.value@;
    if key == KW_HORIZONTAL@ {
        Alignment { horizontal: spec_horizontal_alignment(v), ..a }
    } else if key == KW_VERTICAL@ {
        Alignment { vertical: spec_vertical_alignment(v), ..a }
    } else if key == KW_WRAP_TEXT@ && spec_is_on(v) {
        Alignment { wrap_text: true, ..a }
    } else if key == KW_TEXT_ROTATION@ && spec_parse_unsigned(v, 65535) is Some {
        Alignment { text_rotation: TextRotation::Degrees(spec_parse_unsigned(v, 65535).unwrap() as u16), ..a }
    } else if key == KW_INDENT@ && spec_parse_unsigned(v, 255) is Some {
        Alignment { indent: spec_parse_unsigned(v, 255).unwrap() as u8, ..a }
    } else if key == KW_SHRINK_TO_FIT@ && spec_is_on(v) {
        Alignment { shrink_to_fit: true, ..a }
    } else {
        a
    }
}

/// The alignment that the first `n` attributes describe, in document order.
pub open spec fn alignment_upto(attrs: Seq<XmlAttribute>, n: int) -> Alignment
    decreases n,
{
    if n <= 0 || n > attrs.len() {
        spec_alignment_new()
    } else {
        alignment_step(alignment_upto(attrs, n - 1), attrs[n - 1])
    }
}

pub open spec fn spec_parse_alignment(e: XmlElement) -> Result<Alignment, XlsxError> {
    if e.malformed_attributes {
        Err(XlsxError::XmlAttr)
    } else {
        Ok(alignment_upto(e.attributes@, e.attributes@.len() as int))
    }
}

/// Parse alignment element: `horizontal`, `vertical`, `wrapText`,
/// `textRotation`, `indent` and `shrinkToFit`; omitted or unparsable
/// properties keep their defaults.
pub fn parse_alignment(start_elem: &XmlElement) -> (r: Result<Alignment, XlsxError>)
    ensures
        r == spec_parse_alignment(*start_elem),
{
    let attributes = start_elem.attributes.as_slice();
    let mut alignment = Alignment::new();
    let mut i: usize = 0;
    while i < attributes.len()
        invariant
            i <= attributes@.len(),
            attributes@ == start_elem.attributes@,
            alignment == alignment_upto(attributes@, i as int),
        decreases attributes@.len() - i,
    {
        let horizontal = KW_HORIZONTAL;
        let vertical = KW_VERTICAL;
        let wrap = KW_WRAP_TEXT;
        let rotation = KW_TEXT_ROTATION;
        let indent = KW_INDENT;
        let shrink = KW_SHRINK_TO_FIT;
        let key = attributes[i].key.as_slice();
        let v = attributes[i].value.as_slice();
        if bytes_eq(key, &horizontal) {
            alignment.horizontal = parse_horizontal_alignment(v);
        } else if bytes_eq(key, &vertical) {
            alignment.vertical = parse_vertical_alignment(v);
        } else if bytes_eq(key, &wrap) {
            if is_on(v) {
                alignment.wrap_text = true;
            }
        } else if bytes_eq(key, &rotation) {
            if let Some(r) = parse_u16(v) {
                alignment.text_rotation = TextRotation::Degrees(r);
            }
        } else if bytes_eq(key, &indent) {
            if let Some(n) = parse_u8(v) {
                alignment.indent = n;
            }
        } else if bytes_eq(key, &shrink) {
            if is_on(v) {
                alignment.shrink_to_fit = true;
            }
        }
        i = i + 1;
    }
    if start_elem.malformed_attributes {
        Err(XlsxError::XmlAttr)
    } else {
        Ok(alignment)
    }
}

/// The protection after one attribute of a `protection` element is applied.
pub open spec fn protection_step(p: Protection, attr: XmlAttribute) -> Protection {
    if attr.key@ == KW_LOCKED@ && spec_is_on(attr.value@) {
        Protection { locked: true, ..p }
    } else if attr.key@ == KW_HIDDEN@ && spec_is_on(attr.value@) {
        Protection { hidden: true, ..p }
    } else {
        p
    }
}

pub open spec fn protection_upto(attrs: Seq<XmlAttribute>, n: int) -> Protection
    decreases n,
{
    if n <= 0 || n > attrs.len() {
        spec_protection_new()
    } else {
        protection_step(protection_upto(attrs, n - 1), attrs[n - 1])
    }
}

pub open spec fn spec_parse_protection(e: XmlElement) -> Result<Protection, XlsxError> {
    if e.malformed_attributes {
        Err(XlsxError::XmlAttr)
    } else {
        Ok(protection_upto(e.attributes@, e.attributes@.len() as int))
    }
}

/// Parse protection element: `locked` and `hidden` are switched on by `1` or `true`.
pub fn parse_protection(start_elem: &XmlElement) -> (r: Result<Protection, XlsxError>)
    ensures
        r == spec_parse_protection(*start_elem),
{
    let attributes = start_elem.attributes.as_slice();
    let mut protection = Protection::new();
    let mut i: usize = 0;
    while i < attributes.len()
        invariant
            i <= attributes@.len(),
            attributes@ == start_elem.attributes@,
            protection == protection_upto(attributes@, i as int),
        decreases attributes@.len() - i,
    {
        let locked = KW_LOCKED;
        let hidden = KW_HIDDEN;
        let key = attributes[i].key.as_slice();
        let v = attributes[i].value.as_slice();
        if bytes_eq(key, &locked) {
            if is_on(v) {
                protection.locked = true;
            }
        } else if bytes_eq(key, &hidden) {
            if is_on(v) {
                protection.hidden = true;
            }
        }
        i = i + 1;
    }
    if start_elem.malformed_attributes {
        Err(XlsxError::XmlAttr)
    } else {
        Ok(protection)
    }
}

/// The text of the element open at event `i` up to the end tag whose local
/// name is `closing`; `None` when it is empty.
pub open spec fn spec_read_string(evs: Seq<XmlEvent>, i: int, closing: Seq<u8>) -> Result<(Option<Seq<char>>, int), XlsxError> {
    match read_text_from(evs, i, closing, true, EofContext::String, Seq::empty()) {
        Ok((t, j)) => Ok((if t.len() == 0 { None } else { Some(t) }, j)),
        Err(e) => Err(e),
    }
}

/// Read string content from XML element
pub fn read_string(evs: &Vec<XmlEvent>, pos: usize, closing: &[u8]) -> (r: Result<(Option<String>, usize), XlsxError>)
    requires
        events_wf(evs@),
        pos < evs@.len(),
    ensures
        match (r, spec_read_string(evs@, pos as int, closing@)) {
            (Ok((Some(s), p)), Ok((Some(t), q))) => s@ == t && p == q && pos < p < evs@.len(),
            (Ok((None, p)), Ok((None, q))) => p == q && pos < p < evs@.len(),
            (Err(x), Err(y)) => x == y,
            _ => false,
        },
{
    match read_text(evs, pos, closing, true, EofContext::String) {
        Ok((content, p)) => {
            if content.as_str().is_empty() {
                Ok((None, p))
            } else {
                Ok((Some(content), p))
            }
        },
        Err(e) => Err(e),
    }
}

/// The pattern named by the last `patternType` among the first `n` attributes,
/// or `p` when there is none.
pub open spec fn pattern_upto(attrs: Seq<XmlAttribute>, n: int, p: FillPattern) -> FillPattern
    decreases n,
{
    if n <= 0 || n > attrs.len() {
        p
    } else if attrs[n - 1].key@ == KW_PATTERN_TYPE@ {
        spec_fill_pattern(attrs[n - 1].value@)
    } else {
        pattern_upto(attrs, n - 1, p)
    }
}

/// The fill read from event `i` up to `</fill>`: `patternFill` sets the
/// pattern, `fgColor` and `bgColor` the colors.
pub open spec fn fill_from(evs: Seq<XmlEvent>, i: int, theme_colors: Seq<Color>, fill: Fill) -> Result<(Fill, int), XlsxError>
    decreases evs.len() - i,
{
    if i < 0 || i >= evs.len() {
        Err(XlsxError::XmlEof(EofContext::Fill))
    } else {
        match evs[i] {
            XmlEvent::Start(e) => {
                let ln = spec_local_name(e.name@);
                if ln == KW_PATTERN_FILL@ {
                    if e.malformed_attributes {
                        Err(XlsxError::XmlAttr)
                    } else {
                        let pattern = pattern_upto(e.attributes@, e.attributes@.len() as int, fill.pattern);
                        fill_from(evs, i + 1, theme_colors, Fill { pattern, ..fill })
                    }
                } else if ln == KW_FG_COLOR@ || ln == KW_BG_COLOR@ {
                    if e.malformed_attributes {
                        Err(XlsxError::XmlAttr)
                    } else {
                        match spec_parse_color(e.attributes@, theme_colors) {
                            Err(x) => Err(x),
                            Ok(Some(c)) => if ln == KW_FG_COLOR@ {
                                fill_from(evs, i + 1, theme_colors, Fill { foreground_color: Some(c), ..fill })
                            } else {
                                fill_from(evs, i + 1, theme_colors, Fill { background_color: Some(c), ..fill })
                            },
                            Ok(None) => fill_from(evs, i + 1, theme_colors, fill),
                        }
                    }
                } else {
                    fill_from(evs, i + 1, theme_colors, fill)
                }
            },
            XmlEvent::End(n) => if spec_local_name(n@) == KW_FILL@ {
                Ok((fill, i + 1))
            } else {
                fill_from(evs, i + 1, theme_colors, fill)
            },
            XmlEvent::Eof => Err(XlsxError::XmlEof(EofContext::Fill)),
            XmlEvent::Error(e) => Err(XlsxError::Xml(e)),
            _ => fill_from(evs, i + 1, theme_colors, fill),
        }
    }
}

pub open spec fn spec_parse_fill(evs: Seq<XmlEvent>, i: int, theme_colors: Seq<Color>) -> Result<(Fill, int), XlsxError> {
    fill_from(evs, i, theme_colors, spec_fill_new())
}

pub proof fn lemma_fill_bounds(evs: Seq<XmlEvent>, i: int, theme_colors: Seq<Color>, fill: Fill)
    requires
        events_wf(evs),
    ensures
        fill_from(evs, i, theme_colors, fill) matches Ok((_, j)) ==> i < j < evs.len(),
    decreases evs.len() - i,
{
    if 0 <= i < evs.len() {
        match evs[i] {
            XmlEvent::Start(e) => {
                let ln = spec_local_name(e.name@);
                if ln == KW_PATTERN_FILL@ {
                    let pattern = pattern_upto(e.attributes@, e.attributes@.len() as int, fill.pattern);
                    lemma_fill_bounds(evs, i + 1, theme_colors, Fill { pattern, ..fill });
                } else if ln == KW_FG_COLOR@ || ln == KW_BG_COLOR@ {
                    match spec_parse_color(e.attributes@, theme_colors) {
                        Ok(Some(c)) => {
                            lemma_fill_bounds(evs, i + 1, theme_colors, Fill { foreground_color: Some(c), ..fill });
                            lemma_fill_bounds(evs, i + 1, theme_colors, Fill { background_color: Some(c), ..fill });
                        },
                        _ => {
                            lemma_fill_bounds(evs, i + 1, theme_colors, fill);
                        },
                    }
                } else {
                    lemma_fill_bounds(evs, i + 1, theme_colors, fill);
                }
            },
            XmlEvent::End(n) => {
                lemma_fill_bounds(evs, i + 1, theme_colors, fill);
            },
            XmlEvent::Eof => {},
            XmlEvent::Error(_) => {},
            _ => {
                lemma_fill_bounds(evs, i + 1, theme_colors, fill);
            },
        }
    }
}

/// Parse fill element: reads the events after `<fill>` (at `pos`) up to
/// `</fill>` and returns the fill and the position after `</fill>`.
pub fn parse_fill(evs: &Vec<XmlEvent>, pos: usize, theme_colors: &[Color; 12]) -> (r: Result<(Fill, usize), XlsxError>)
    requires
        events_wf(evs@),
        pos < evs@.len(),
    ensures
        same_parse(r, spec_parse_fill(evs@, pos as int, theme_colors@)),
        r matches Ok((_, p)) ==> pos < p < evs@.len(),
{
    let mut fill = Fill::new();
    let mut i = pos;
    proof {
        lemma_fill_bounds(evs@, pos as int, theme_colors@, spec_fill_new());
    }
    while i < evs.len()
        invariant
            events_wf(evs@),
            pos <= i < evs@.len(),
            spec_parse_fill(evs@, pos as int, theme_colors@) == fill_from(evs@, i as int, theme_colors@, fill),
            spec_parse_fill(evs@, pos as int, theme_colors@) matches Ok((_, j)) ==> pos < j < evs@.len(),
        decreases evs@.len() - i,
    {
        let k_pattern_fill = KW_PATTERN_FILL;
        let k_pattern_type = KW_PATTERN_TYPE;
        let k_fg = KW_FG_COLOR;
        let k_bg = KW_BG_COLOR;
        let k_fill = KW_FILL;
        match &evs[i] {
            XmlEvent::Start(e) => {
                let ln = local_name(e.name.as_slice());
                if bytes_eq(ln, &k_pattern_fill) {
                    if e.malformed_attributes {
                        return Err(XlsxError::XmlAttr);
                    }
                    let attrs = e.attributes.as_slice();
                    let mut k: usize = 0;
                    let ghost start_fill = fill;
                    while k < attrs.len()
                        invariant
                            k <= attrs@.len(),
                            attrs@ == e.attributes@,
                            fill == (Fill { pattern: pattern_upto(attrs@, k as int, start_fill.pattern), ..start_fill }),
                        decreases attrs@.len() - k,
                    {
                        let k_pattern_type = KW_PATTERN_TYPE;
                        if bytes_eq(attrs[k].key.as_slice(), &k_pattern_type) {
                            fill.pattern = parse_fill_pattern(attrs[k].value.as_slice());
                        }
                        k = k + 1;
                    }
                } else if bytes_eq(ln, &k_fg) || bytes_eq(ln, &k_bg) {
                    if e.malformed_attributes {
                        return Err(XlsxError::XmlAttr);
                    }
                    match parse_color(e.attributes.as_slice(), theme_colors) {
                        Err(x) => {
                            return Err(x);
                        },
                        Ok(Some(c)) => {
                            if bytes_eq(ln, &k_fg) {
                                fill.foreground_color = Some(c);
                            } else {
                                fill.background_color = Some(c);
                            }
                        },
                        Ok(None) => {},
                    }
                }
            },
            XmlEvent::End(n) => {
                if bytes_eq(local_name(n.as_slice()), &k_fill) {
                    return Ok((fill, i + 1));
                }
            },
            XmlEvent::Eof => {
                return Err(XlsxError::XmlEof(EofContext::Fill));
            },
            XmlEvent::Error(e) => {
                return Err(XlsxError::Xml(e.copy()));
            },
            _ => {},
        }
        i = i + 1;
    }
    Err(XlsxError::XmlEof(EofContext::Fill))
}

/// The `diagonalDown` and `diagonalUp` flags that the first `n` attributes
/// of a `border` element set (later attributes win); an error when one of
/// them is not an OOXML boolean.
pub open spec fn diagonal_flags_upto(attrs: Seq<XmlAttribute>, n: int) -> Result<(bool, bool), XlsxError>
    decreases n,
{
    if n <= 0 || n > attrs.len() {
        Ok((false, false))
    } else {
        match diagonal_flags_upto(attrs, n - 1) {
            Err(x) => Err(x),
            Ok((down, up)) => {
                let a = attrs[n - 1];
                if a.key@ == KW_DIAGONAL_DOWN@ {
                    match spec_ooxml_bool(a.value@) {
                        Ok(b) => Ok((b, up)),
                        Err(x) => Err(x),
                    }
                } else if a.key@ == KW_DIAGONAL_UP@ {
                    match spec_ooxml_bool(a.value@) {
                        Ok(b) => Ok((down, b)),
                        Err(x) => Err(x),
                    }
                } else {
                    Ok((down, up))
                }
            },
        }
    }
}

/// Once a prefix of the attributes fails, every longer prefix fails the same way.
pub proof fn lemma_diagonal_error_persists(attrs: Seq<XmlAttribute>, k: int, n: int)
    requires
        0 <= k <= n <= attrs.len(),
        diagonal_flags_upto(attrs, k) is Err,
    ensures
        diagonal_flags_upto(attrs, n) == diagonal_flags_upto(attrs, k),
    decreases n - k,
{
    if n > k {
        lemma_diagonal_error_persists(attrs, k, n - 1);
    }
}

/// The diagonal direction flags of a `border` element, `(down, up)`.
pub open spec fn spec_diagonal_flags(e: XmlElement) -> Result<(bool, bool), XlsxError> {
    match diagonal_flags_upto(e.attributes@, e.attributes@.len() as int) {
        Err(x) => Err(x),
        Ok(flags) => if e.malformed_attributes {
            Err(XlsxError::XmlAttr)
        } else {
            Ok(flags)
        },
    }
}

/// The border side read from event `i` up to the end tag named `closing`: a
/// `color` child (start or empty) replaces the color; other children are
/// skipped whole.
pub open spec fn border_side_from(evs: Seq<XmlEvent>, i: int, closing: Seq<u8>, theme_colors: Seq<Color>, border: Border) -> Result<(Border, int), XlsxError>
    decreases evs.len() - i when events_wf(evs)
{
    if i < 0 || i >= evs.len() {
        Err(XlsxError::XmlEof(EofContext::BorderSide))
    } else {
        match evs[i] {
            XmlEvent::Start(e) => {
                let is_color = spec_local_name(e.name@) == KW_COLOR@;
                if is_color && e.malformed_attributes {
                    Err(XlsxError::XmlAttr)
                } else {
                    let color = if is_color { spec_parse_color(e.attributes@, theme_colors) } else { Ok(border.color) };
                    match color {
                        Err(x) => Err(x),
                        Ok(c) => match skip_to_end_from(evs, i + 1, e.name@, 0) {
                            Err(x) => Err(x),
                            Ok(j) => {
                                proof {
                                    lemma_skip_to_end_bounds(evs, i + 1, e.name@, 0);
                                }
                                border_side_from(evs, j, closing, theme_colors, Border { color: c, ..border })
                            },
                        },
                    }
                }
            },
            XmlEvent::Empty(e) => if spec_local_name(e.name@) == KW_COLOR@ {
                if e.malformed_attributes {
                    Err(XlsxError::XmlAttr)
                } else {
                    match spec_parse_color(e.attributes@, theme_colors) {
                        Err(x) => Err(x),
                        Ok(c) => border_side_from(evs, i + 1, closing, theme_colors, Border { color: c, ..border }),
                    }
                }
            } else {
                border_side_from(evs, i + 1, closing, theme_colors, border)
            },
            XmlEvent::End(n) => if n@ == closing {
                Ok((border, i + 1))
            } else {
                border_side_from(evs, i + 1, closing, theme_colors, border)
            },
            XmlEvent::Eof => Err(XlsxError::XmlEof(EofContext::BorderSide)),
            XmlEvent::Error(e) => Err(XlsxError::Xml(e)),
            _ => border_side_from(evs, i + 1, closing, theme_colors, border),
        }
    }
}

pub proof fn lemma_border_side_bounds(evs: Seq<XmlEvent>, i: int, closing: Seq<u8>, theme_colors: Seq<Color>, border: Border)
    requires
        events_wf(evs),
    ensures
        border_side_from(evs, i, closing, theme_colors, border) matches Ok((_, j)) ==> i < j < evs.len(),
    decreases evs.len() - i,
{
    if 0 <= i < evs.len() {
        match evs[i] {
            XmlEvent::Start(e) => {
                let is_color = spec_local_name(e.name@) == KW_COLOR@;
                let color = if is_color { spec_parse_color(e.attributes@, theme_colors) } else { Ok(border.color) };
                lemma_skip_to_end_bounds(evs, i + 1, e.name@, 0);
                if let Ok(c) = color {
                    if let Ok(j) = skip_to_end_from(evs, i + 1, e.name@, 0) {
                        lemma_border_side_bounds(evs, j, closing, theme_colors, Border { color: c, ..border });
                    }
                }
            },
            XmlEvent::Empty(e) => {
                if let Ok(c) = spec_parse_color(e.attributes@, theme_colors) {
                    lemma_border_side_bounds(evs, i + 1, closing, theme_colors, Border { color: c, ..border });
                }
                lemma_border_side_bounds(evs, i + 1, closing, theme_colors, border);
            },
            XmlEvent::Eof => {},
            XmlEvent::Error(_) => {},
            _ => {
                lemma_border_side_bounds(evs, i + 1, closing, theme_colors, border);
            },
        }
    }
}

/// Reads the children of a border side element up to its end tag.
fn read_border_side(evs: &Vec<XmlEvent>, pos: usize, closing: &[u8], theme_colors: &[Color; 12], border: Border) -> (r: Result<(Border, usize), XlsxError>)
    requires
        events_wf(evs@),
        pos < evs@.len(),
    ensures
        same_parse(r, border_side_from(evs@, pos as int, closing@, theme_colors@, border)),
        r matches Ok((_, p)) ==> pos < p < evs@.len(),
{
    let mut cur = border;
    let mut i = pos;
    proof {
        lemma_border_side_bounds(evs@, pos as int, closing@, theme_colors@, border);
    }
    while i < evs.len()
        invariant
            events_wf(evs@),
            pos <= i < evs@.len(),
            border_side_from(evs@, pos as int, closing@, theme_colors@, border)
                == border_side_from(evs@, i as int, closing@, theme_colors@, cur),
            border_side_from(evs@, pos as int, closing@, theme_colors@, border) matches Ok((_, j))
                ==> pos < j < evs@.len(),
        decreases evs@.len() - i,
    {
        let k_color = KW_COLOR;
        match &evs[i] {
            XmlEvent::Start(e) => {
                let is_color = bytes_eq(local_name(e.name.as_slice()), &k_color);
                if is_color {
                    if e.malformed_attributes {
                        return Err(XlsxError::XmlAttr);
                    }
                    match parse_color(e.attributes.as_slice(), theme_colors) {
                        Err(x) => {
                            return Err(x);
                        },
                        Ok(c) => {
                            cur.color = c;
                        },
                    }
                }
                match read_to_end(evs, i + 1, e.name.as_slice()) {
                    Err(x) => {
                        return Err(x);
                    },
                    Ok(j) => {
                        i = j;
                    },
                }
            },
            XmlEvent::Empty(e) => {
                if bytes_eq(local_name(e.name.as_slice()), &k_color) {
                    if e.malformed_attributes {
                        return Err(XlsxError::XmlAttr);
                    }
                    match parse_color(e.attributes.as_slice(), theme_colors) {
                        Err(x) => {
                            return Err(x);
                        },
                        Ok(c) => {
                            cur.color = c;
                        },
                    }
                }
                i = i + 1;
            },
            XmlEvent::End(n) => {
                if bytes_eq(n.as_slice(), closing) {
                    return Ok((cur, i + 1));
                }
                i = i + 1;
            },
            XmlEvent::Eof => {
                return Err(XlsxError::XmlEof(EofContext::BorderSide));
            },
            XmlEvent::Error(e) => {
                return Err(XlsxError::Xml(e.copy()));
            },
            _ => {
                i = i + 1;
            },
        }
    }
    Err(XlsxError::XmlEof(EofContext::BorderSide))
}

/// The borders read from event `i` up to `</border>`. A side element (start
/// or empty) sets that side from its attributes and its `color` child; the
/// `diagonal` side goes to the diagonals that the flags `down`/`up` select.
pub open spec fn borders_from(evs: Seq<XmlEvent>, i: int, theme_colors: Seq<Color>, down: bool, up: bool, borders: Borders) -> Result<(Borders, int), XlsxError>
    decreases evs.len() - i when events_wf(evs)
{
    if i < 0 || i >= evs.len() {
        Err(XlsxError::XmlEof(EofContext::Border))
    } else {
        match evs[i] {
            XmlEvent::Start(e) => {
                let side = spec_local_name(e.name@);
                if spec_is_border_side(side) {
                    match spec_border_from_element(e, theme_colors) {
                        Err(x) => Err(x),
                        Ok(b) => match border_side_from(evs, i + 1, e.name@, theme_colors, b) {
                            Err(x) => Err(x),
                            Ok((b2, j)) => {
                                proof {
                                    lemma_border_side_bounds(evs, i + 1, e.name@, theme_colors, b);
                                }
                                borders_from(evs, j, theme_colors, down, up, spec_apply_border(borders, side, b2, down, up))
                            },
                        },
                    }
                } else {
                    borders_from(evs, i + 1, theme_colors, down, up, borders)
                }
            },
            XmlEvent::Empty(e) => {
                let side = spec_local_name(e.name@);
                if spec_is_border_side(side) {
                    match spec_border_from_element(e, theme_colors) {
                        Err(x) => Err(x),
                        Ok(b) => borders_from(evs, i + 1, theme_colors, down, up, spec_apply_border(borders, side, b, down, up)),
                    }
                } else {
                    borders_from(evs, i + 1, theme_colors, down, up, borders)
                }
            },
            XmlEvent::End(n) => if spec_local_name(n@) == KW_BORDER@ {
                Ok((borders, i + 1))
            } else {
                borders_from(evs, i + 1, theme_colors, down, up, borders)
            },
            XmlEvent::Eof => Err(XlsxError::XmlEof(EofContext::Border)),
            XmlEvent::Error(e) => Err(XlsxError::Xml(e)),
            _ => borders_from(evs, i + 1, theme_colors, down, up, borders),
        }
    }
}

pub proof fn lemma_borders_bounds(evs: Seq<XmlEvent>, i: int, theme_colors: Seq<Color>, down: bool, up: bool, borders: Borders)
    requires
        events_wf(evs),
    ensures
        borders_from(evs, i, theme_colors, down, up, borders) matches Ok((_, j)) ==> i < j < evs.len(),
    decreases evs.len() - i,
{
    if 0 <= i < evs.len() {
        match evs[i] {
            XmlEvent::Start(e) => {
                let side = spec_local_name(e.name@);
                if let Ok(b) = spec_border_from_element(e, theme_colors) {
                    lemma_border_side_bounds(evs, i + 1, e.name@, theme_colors, b);
                    if let Ok((b2, j)) = border_side_from(evs, i + 1, e.name@, theme_colors, b) {
                        lemma_borders_bounds(evs, j, theme_colors, down, up, spec_apply_border(borders, side, b2, down, up));
                    }
                }
                lemma_borders_bounds(evs, i + 1, theme_colors, down, up, borders);
            },
            XmlEvent::Empty(e) => {
                let side = spec_local_name(e.name@);
                if let Ok(b) = spec_border_from_element(e, theme_colors) {
                    lemma_borders_bounds(evs, i + 1, theme_colors, down, up, spec_apply_border(borders, side, b, down, up));
                }
                lemma_borders_bounds(evs, i + 1, theme_colors, down, up, borders);
            },
            XmlEvent::Eof => {},
            XmlEvent::Error(_) => {},
            _ => {
                lemma_borders_bounds(evs, i + 1, theme_colors, down, up, borders);
            },
        }
    }
}

/// What `parse_border` reads: the diagonal flags of `<border>` itself, then
/// the sides from event `i` up to `</border>`.
pub open spec fn spec_parse_border(evs: Seq<XmlEvent>, i: int, start: XmlElement, theme_colors: Seq<Color>) -> Result<(Borders, int), XlsxError> {
    match spec_diagonal_flags(start) {
        Err(x) => Err(x),
        Ok((down, up)) => borders_from(evs, i, theme_colors, down, up, spec_borders_new()),
    }
}

/// Parse border element. OOXML stores diagonal direction on the parent
/// `<border>` (`start_elem`), not on the `<diagonal>` child that carries the
/// line style and color. Reads the events after `<border>` (at `pos`) up to
/// `</border>` and returns the borders and the position after `</border>`.
pub fn parse_border(evs: &Vec<XmlEvent>, pos: usize, start_elem: &XmlElement, theme_colors: &[Color; 12]) -> (r: Result<(Borders, usize), XlsxError>)
    requires
        events_wf(evs@),
        pos < evs@.len(),
    ensures
        same_parse(r, spec_parse_border(evs@, pos as int, *start_elem, theme_colors@)),
        r matches Ok((_, p)) ==> pos < p < evs@.len(),
{
    let attrs = start_elem.attributes.as_slice();
    let mut diagonal_down = false;
    let mut diagonal_up = false;
    let mut k: usize = 0;
    while k < attrs.len()
        invariant
            k <= attrs@.len(),
            attrs@ == start_elem.attributes@,
            diagonal_flags_upto(attrs@, k as int) == Ok::<(bool, bool), XlsxError>((diagonal_down, diagonal_up)),
        decreases attrs@.len() - k,
    {
        let k_down = KW_DIAGONAL_DOWN;
        let k_up = KW_DIAGONAL_UP;
        let key = attrs[k].key.as_slice();
        if bytes_eq(key, &k_down) {
            match parse_ooxml_bool(attrs[k].value.as_slice()) {
                Ok(b) => {
                    diagonal_down = b;
                },
                Err(x) => {
                    proof {
                        lemma_diagonal_error_persists(attrs@, k + 1, attrs@.len() as int);
                    }
                    return Err(x);
                },
            }
        } else if bytes_eq(key, &k_up) {
            match parse_ooxml_bool(attrs[k].value.as_slice()) {
                Ok(b) => {
                    diagonal_up = b;
                },
                Err(x) => {
                    proof {
                        lemma_diagonal_error_persists(attrs@, k + 1, attrs@.len() as int);
                    }
                    return Err(x);
                },
            }
        }
        k = k + 1;
    }
    if start_elem.malformed_attributes {
        return Err(XlsxError::XmlAttr);
    }
    let mut borders = Borders::new();
    let mut i = pos;
    proof {
        lemma_borders_bounds(evs@, pos as int, theme_colors@, diagonal_down, diagonal_up, spec_borders_new());
    }
    while i < evs.len()
        invariant
            events_wf(evs@),
            pos <= i < evs@.len(),
            spec_parse_border(evs@, pos as int, *start_elem, theme_colors@)
                == borders_from(evs@, i as int, theme_colors@, diagonal_down, diagonal_up, borders),
            spec_parse_border(evs@, pos as int, *start_elem, theme_colors@) matches Ok((_, j))
                ==> pos < j < evs@.len(),
        decreases evs@.len() - i,
    {
        let k_border = KW_BORDER;
        match &evs[i] {
            XmlEvent::Start(e) => {
                let side = local_name(e.name.as_slice());
                if is_border_side(side) {
                    let border = match border_from_element(e, theme_colors) {
                        Ok(b) => b,
                        Err(x) => {
                            return Err(x);
                        },
                    };
                    match read_border_side(evs, i + 1, e.name.as_slice(), theme_colors, border) {
                        Err(x) => {
                            return Err(x);
                        },
                        Ok((b2, j)) => {
                            apply_border(&mut borders, side, b2, diagonal_down, diagonal_up);
                            i = j;
                        },
                    }
                } else {
                    i = i + 1;
                }
            },
            XmlEvent::Empty(e) => {
                let side = local_name(e.name.as_slice());
                if is_border_side(side) {
                    match border_from_element(e, theme_colors) {
                        Ok(b) => {
                            apply_border(&mut borders, side, b, diagonal_down, diagonal_up);
                        },
                        Err(x) => {
                            return Err(x);
                        },
                    }
                }
                i = i + 1;
            },
            XmlEvent::End(n) => {
                if bytes_eq(local_name(n.as_slice()), &k_border) {
                    return Ok((borders, i + 1));
                }
                i = i + 1;
            },
            XmlEvent::Eof => {
                return Err(XlsxError::XmlEof(EofContext::Border));
            },
            XmlEvent::Error(e) => {
                return Err(XlsxError::Xml(e.copy()));
            },
            _ => {
                i = i + 1;
            },
        }
    }
    Err(XlsxError::XmlEof(EofContext::Border))
}

/// The font after a text property (`name`, `sz` or `family`, by the
/// element's local name `ln`) is read as `t`; a size is kept only when it is
/// a number.
pub open spec fn font_with_text(font: FontView, ln: Seq<u8>, t: Seq<char>) -> FontView {
    if ln == KW_NAME@ {
        FontView { name: Some(t), ..font }
    } else if ln == KW_SZ@ {
        if is_float_literal(encode_utf8(t)) {
            FontView { size: Some(t), ..font }
        } else {
            font
        }
    } else {
        FontView { family: Some(t), ..font }
    }
}

/// The font read from event `i` up to `</font>`. `name`, `sz` and `family`
/// take their `val` attribute, else their text; `b`, `i` and `u` take their
/// `val` attribute, else bold, italic and single underline; `strike` sets
/// strikethrough; `color` sets the color.
pub open spec fn font_from(evs: Seq<XmlEvent>, i: int, theme_colors: Seq<Color>, font: FontView) -> Result<(FontView, int), XlsxError>
    decreases evs.len() - i when events_wf(evs)
{
    if i < 0 || i >= evs.len() {
        Err(XlsxError::XmlEof(EofContext::Font))
    } else {
        match evs[i] {
            XmlEvent::Start(e) => {
                let ln = spec_local_name(e.name@);
                if ln == KW_NAME@ || ln == KW_SZ@ || ln == KW_FAMILY@ {
                    match spec_get_attribute(e, KW_VAL@) {
                        Err(x) => Err(x),
                        Ok(Some(v)) => match skip_to_end_from(evs, i + 1, e.name@, 0) {
                            Err(x) => Err(x),
                            Ok(j) => {
                                proof {
                                    lemma_skip_to_end_bounds(evs, i + 1, e.name@, 0);
                                }
                                font_from(evs, j, theme_colors, font_with_text(font, ln, spec_utf8_lossy(v)))
                            },
                        },
                        Ok(None) => match read_text_from(evs, i + 1, ln, true, EofContext::String, Seq::empty()) {
                            Err(x) => Err(x),
                            Ok((t, j)) => {
                                proof {
                                    lemma_read_text_bounds(evs, i + 1, ln, true, EofContext::String, Seq::empty());
                                }
                                if t.len() == 0 {
                                    font_from(evs, j, theme_colors, font)
                                } else {
                                    font_from(evs, j, theme_colors, font_with_text(font, ln, t))
                                }
                            },
                        },
                    }
                } else if ln == KW_B@ {
                    match spec_get_attribute(e, KW_VAL@) {
                        Err(x) => Err(x),
                        Ok(Some(v)) => font_from(evs, i + 1, theme_colors, FontView { weight: spec_font_weight(v), ..font }),
                        Ok(None) => font_from(evs, i + 1, theme_colors, FontView { weight: FontWeight::Bold, ..font }),
                    }
                } else if ln == KW_I@ {
                    match spec_get_attribute(e, KW_VAL@) {
                        Err(x) => Err(x),
                        Ok(Some(v)) => font_from(evs, i + 1, theme_colors, FontView { style: spec_font_style(v), ..font }),
                        Ok(None) => font_from(evs, i + 1, theme_colors, FontView { style: FontStyle::Italic, ..font }),
                    }
                } else if ln == KW_U@ {
                    match spec_get_attribute(e, KW_VAL@) {
                        Err(x) => Err(x),
                        Ok(Some(v)) => font_from(evs, i + 1, theme_colors, FontView { underline: spec_underline_style(v), ..font }),
                        Ok(None) => font_from(evs, i + 1, theme_colors, FontView { underline: UnderlineStyle::Single, ..font }),
                    }
                } else if ln == KW_STRIKE@ {
                    font_from(evs, i + 1, theme_colors, FontView { strikethrough: true, ..font })
                } else if ln == KW_COLOR@ {
                    if e.malformed_attributes {
                        Err(XlsxError::XmlAttr)
                    } else {
                        match spec_parse_color(e.attributes@, theme_colors) {
                            Err(x) => Err(x),
                            Ok(Some(c)) => font_from(evs, i + 1, theme_colors, FontView { color: Some(c), ..font }),
                            Ok(None) => font_from(evs, i + 1, theme_colors, font),
                        }
                    }
                } else {
                    font_from(evs, i + 1, theme_colors, font)
                }
            },
            XmlEvent::End(n) => if spec_local_name(n@) == KW_FONT@ {
                Ok((font, i + 1))
            } else {
                font_from(evs, i + 1, theme_colors, font)
            },
            XmlEvent::Eof => Err(XlsxError::XmlEof(EofContext::Font)),
            XmlEvent::Error(e) => Err(XlsxError::Xml(e)),
            _ => font_from(evs, i + 1, theme_colors, font),
        }
    }
}

pub proof fn lemma_font_bounds(evs: Seq<XmlEvent>, i: int, theme_colors: Seq<Color>, font: FontView)
    requires
        events_wf(evs),
    ensures
        font_from(evs, i, theme_colors, font) matches Ok((_, j)) ==> i < j < evs.len(),
    decreases evs.len() - i,
{
    if 0 <= i < evs.len() {
        match evs[i] {
            XmlEvent::Start(e) => {
                let ln = spec_local_name(e.name@);
                lemma_skip_to_end_bounds(evs, i + 1, e.name@, 0);
                lemma_read_text_bounds(evs, i + 1, ln, true, EofContext::String, Seq::empty());
                if ln == KW_NAME@ || ln == KW_SZ@ || ln == KW_FAMILY@ {
                    match spec_get_attribute(e, KW_VAL@) {
                        Ok(Some(v)) => {
                            if let Ok(j) = skip_to_end_from(evs, i + 1, e.name@, 0) {
                                lemma_font_bounds(evs, j, theme_colors, font_with_text(font, ln, spec_utf8_lossy(v)));
                            }
                        },
                        Ok(None) => {
                            if let Ok((t, j)) = read_text_from(evs, i + 1, ln, true, EofContext::String, Seq::empty()) {
                                lemma_font_bounds(evs, j, theme_colors, font);
                                lemma_font_bounds(evs, j, theme_colors, font_with_text(font, ln, t));
                            }
                        },
                        Err(_) => {},
                    }
                } else {
                    match spec_get_attribute(e, KW_VAL@) {
                        Ok(Some(v)) => {
                            lemma_font_bounds(evs, i + 1, theme_colors, FontView { weight: spec_font_weight(v), ..font });
                            lemma_font_bounds(evs, i + 1, theme_colors, FontView { style: spec_font_style(v), ..font });
                            lemma_font_bounds(evs, i + 1, theme_colors, FontView { underline: spec_underline_style(v), ..font });
                        },
                        _ => {},
                    }
                    lemma_font_bounds(evs, i + 1, theme_colors, FontView { weight: FontWeight::Bold, ..font });
                    lemma_font_bounds(evs, i + 1, theme_colors, FontView { style: FontStyle::Italic, ..font });
                    lemma_font_bounds(evs, i + 1, theme_colors, FontView { underline: UnderlineStyle::Single, ..font });
                    lemma_font_bounds(evs, i + 1, theme_colors, FontView { strikethrough: true, ..font });
                    if let Ok(Some(c)) = spec_parse_color(e.attributes@, theme_colors) {
                        lemma_font_bounds(evs, i + 1, theme_colors, FontView { color: Some(c), ..font });
                    }
                    lemma_font_bounds(evs, i + 1, theme_colors, font);
                }
            },
            XmlEvent::Eof => {},
            XmlEvent::Error(_) => {},
            _ => {
                lemma_font_bounds(evs, i + 1, theme_colors, font);
            },
        }
    }
}

pub open spec fn spec_parse_font(evs: Seq<XmlEvent>, i: int, theme_colors: Seq<Color>) -> Result<(FontView, int), XlsxError> {
    font_from(evs, i, theme_colors, spec_font_new())
}

/// Sets a text property of `font` as `font_with_text` describes.
fn set_font_text(font: &mut Font, ln: &[u8], t: String)
    ensures
        final(font)@ == font_with_text(old(font)@, ln@, t@),
{
    let k_name = KW_NAME;
    let k_sz = KW_SZ;
    if bytes_eq(ln, &k_name) {
        font.name = Some(t);
    } else if bytes_eq(ln, &k_sz) {
        if is_float_literal_exec(t.as_str().as_bytes()) {
            font.size = Some(t);
        }
    } else {
        font.family = Some(t);
    }
}

#[verifier::rlimit(40)]
/// Parse font element: reads the events after `<font>` (at `pos`) up to
/// `</font>` and returns the font and the position after `</font>`.
pub fn parse_font(evs: &Vec<XmlEvent>, pos: usize, theme_colors: &[Color; 12]) -> (r: Result<(Font, usize), XlsxError>)
    requires
        events_wf(evs@),
        pos < evs@.len(),
    ensures
        match (r, spec_parse_font(evs@, pos as int, theme_colors@)) {
            (Ok((f, p)), Ok((g, q))) => f@ == g && p as int == q && pos < p < evs@.len(),
            (Err(x), Err(y)) => x == y,
            _ => false,
        },
{
    let mut font = Font::new();
    let mut i = pos;
    proof {
        lemma_font_bounds(evs@, pos as int, theme_colors@, spec_font_new());
    }
    while i < evs.len()
        invariant
            events_wf(evs@),
            pos <= i < evs@.len(),
            spec_parse_font(evs@, pos as int, theme_colors@) == font_from(evs@, i as int, theme_colors@, font@),
            spec_parse_font(evs@, pos as int, theme_colors@) matches Ok((_, j)) ==> pos < j < evs@.len(),
        decreases evs@.len() - i,
    {
        let k_name = KW_NAME;
        let k_sz = KW_SZ;
        let k_family = KW_FAMILY;
        let k_b = KW_B;
        let k_i = KW_I;
        let k_u = KW_U;
        let k_strike = KW_STRIKE;
        let k_color = KW_COLOR;
        let k_val = KW_VAL;
        let k_font = KW_FONT;
        match &evs[i] {
            XmlEvent::Start(e) => {
                let ln = local_name(e.name.as_slice());
                if bytes_eq(ln, &k_name) || bytes_eq(ln, &k_sz) || bytes_eq(ln, &k_family) {
                    match get_attribute(e, &k_val) {
                        Err(x) => {
                            return Err(x);
                        },
                        Ok(Some(v)) => {
                            match read_to_end(evs, i + 1, e.name.as_slice()) {
                                Err(x) => {
                                    return Err(x);
                                },
                                Ok(j) => {
                                    set_font_text(&mut font, ln, utf8_lossy(v));
                                    i = j;
                                },
                            }
                        },
                        Ok(None) => {
                            proof {
                                lemma_read_text_bounds(evs@, i + 1, ln@, true, EofContext::String, Seq::empty());
                            }
                            match read_text(evs, i + 1, ln, true, EofContext::String) {
                                Err(x) => {
                                    return Err(x);
                                },
                                Ok((t, j)) => {
                                    if !t.as_str().is_empty() {
                                        set_font_text(&mut font, ln, t);
                                    }
                                    i = j;
                                },
                            }
                        },
                    }
                } else if bytes_eq(ln, &k_b) || bytes_eq(ln, &k_i) || bytes_eq(ln, &k_u) {
                    match get_attribute(e, &k_val) {
                        Err(x) => {
                            return Err(x);
                        },
                        Ok(Some(v)) => {
                            if bytes_eq(ln, &k_b) {
                                font.weight = parse_font_weight(v);
                            } else if bytes_eq(ln, &k_i) {
                                font.style = parse_font_style(v);
                            } else {
                                font.underline = parse_underline_style(v);
                            }
                        },
                        Ok(None) => {
                            if bytes_eq(ln, &k_b) {
                                font.weight = FontWeight::Bold;
                            } else if bytes_eq(ln, &k_i) {
                                font.style = FontStyle::Italic;
                            } else {
                                font.underline = UnderlineStyle::Single;
                            }
                        },
                    }
                    i = i + 1;
                } else if bytes_eq(ln, &k_strike) {
                    font.strikethrough = true;
                    i = i + 1;
                } else if bytes_eq(ln, &k_color) {
                    if e.malformed_attributes {
                        return Err(XlsxError::XmlAttr);
                    }
                    match parse_color(e.attributes.as_slice(), theme_colors) {
                        Err(x) => {
                            return Err(x);
                        },
                        Ok(Some(c)) => {
                            font.color = Some(c);
                        },
                        Ok(None) => {},
                    }
                    i = i + 1;
                } else {
                    i = i + 1;
                }
            },
            XmlEvent::End(n) => {
                if bytes_eq(local_name(n.as_slice()), &k_font) {
                    return Ok((font, i + 1));
                }
                i = i + 1;
            },
            XmlEvent::Eof => {
                return Err(XlsxError::XmlEof(EofContext::Font));
            },
            XmlEvent::Error(e) => {
                return Err(XlsxError::Xml(e.copy()));
            },
            _ => {
                i = i + 1;
            },
        }
    }
    Err(XlsxError::XmlEof(EofContext::Font))
}

} // verus!
