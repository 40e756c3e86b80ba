//! What each keyword of the format means: every keyword names the value of
//! the same name, and every other text the default.

use vstd::prelude::*;
use crate::cells::{spec_cell_error, CellErrorType};
use crate::keywords::{KW_BOTTOM, KW_CENTER, KW_DARK_DOWN, KW_DARK_GRAY, KW_DARK_GRID, KW_DARK_HORIZONTAL, KW_DARK_TRELLIS, KW_DARK_UP, KW_DARK_VERTICAL, KW_DASHED, KW_DASH_DOT, KW_DASH_DOT_DOT, KW_DISTRIBUTED, KW_DOTTED, KW_DOUBLE, KW_DOUBLE_ACCOUNTING, KW_ERR_DIV0, KW_ERR_GETTING_DATA, KW_ERR_NA, KW_ERR_NAME, KW_ERR_NULL, KW_ERR_NUM, KW_ERR_REF, KW_ERR_VALUE, KW_FILL, KW_GRAY0625, KW_GRAY125, KW_HAIR, KW_ITALIC, KW_JUSTIFY, KW_LEFT, KW_LIGHT_DOWN, KW_LIGHT_GRAY, KW_LIGHT_GRID, KW_LIGHT_HORIZONTAL, KW_LIGHT_TRELLIS, KW_LIGHT_UP, KW_LIGHT_VERTICAL, KW_MEDIUM, KW_MEDIUM_DASHED, KW_MEDIUM_GRAY, KW_OBLIQUE, KW_RIGHT, KW_SINGLE, KW_SINGLE_ACCOUNTING, KW_SLANT_DASH_DOT, KW_SOLID, KW_THICK, KW_THIN, KW_TOP};
use crate::style::{BorderStyle, FillPattern, FontStyle, HorizontalAlignment, UnderlineStyle, VerticalAlignment};
use crate::style_parser::{spec_border_style, spec_fill_pattern, spec_font_style, spec_horizontal_alignment, spec_underline_style, spec_vertical_alignment};

verus! {

/// `horizontal` names the alignment of the same name (`left`, `center`, `right`, `justify`, `distributed`, `fill`); any other value is general.
pub proof fn horizontal_alignment_keywords(s: Seq<u8>)
    ensures
        (spec_horizontal_alignment(s) == HorizontalAlignment::Left) <==> (s == seq![108u8, 101u8, 102u8, 116u8]),
        (spec_horizontal_alignment(s) == HorizontalAlignment::Center) <==> (s == seq![99u8, 101u8, 110u8, 116u8, 101u8, 114u8]),
        (spec_horizontal_alignment(s) == HorizontalAlignment::Right) <==> (s == seq![114u8, 105u8, 103u8, 104u8, 116u8]),
        (spec_horizontal_alignment(s) == HorizontalAlignment::Justify) <==> (s == seq![106u8, 117u8, 115u8, 116u8, 105u8, 102u8, 121u8]),
        (spec_horizontal_alignment(s) == HorizontalAlignment::Distributed) <==> (s == seq![100u8, 105u8, 115u8, 116u8, 114u8, 105u8, 98u8, 117u8, 116u8, 101u8, 100u8]),
        (spec_horizontal_alignment(s) == HorizontalAlignment::Fill) <==> (s == seq![102u8, 105u8, 108u8, 108u8]),
        (spec_horizontal_alignment(s) == HorizontalAlignment::General) <==> !(s == seq![108u8, 101u8, 102u8, 116u8] || s == seq![99u8, 101u8, 110u8, 116u8, 101u8, 114u8] || s == seq![114u8, 105u8, 103u8, 104u8, 116u8] || s == seq![106u8, 117u8, 115u8, 116u8, 105u8, 102u8, 121u8] || s == seq![100u8, 105u8, 115u8, 116u8, 114u8, 105u8, 98u8, 117u8, 116u8, 101u8, 100u8] || s == seq![102u8, 105u8, 108u8, 108u8]),
{
    assert(KW_LEFT@ =~= seq![108u8, 101u8, 102u8, 116u8]);
    assert(KW_CENTER@ =~= seq![99u8, 101u8, 110u8, 116u8, 101u8, 114u8]);
    assert(KW_RIGHT@ =~= seq![114u8, 105u8, 103u8, 104u8, 116u8]);
    assert(KW_JUSTIFY@ =~= seq![106u8, 117u8, 115u8, 116u8, 105u8, 102u8, 121u8]);
    assert(KW_DISTRIBUTED@ =~= seq![100u8, 105u8, 115u8, 116u8, 114u8, 105u8, 98u8, 117u8, 116u8, 101u8, 100u8]);
    assert(KW_FILL@ =~= seq![102u8, 105u8, 108u8, 108u8]);
}

/// `vertical` names the alignment of the same name (`top`, `center`, `bottom`, `justify`, `distributed`); any other value is bottom.
pub proof fn vertical_alignment_keywords(s: Seq<u8>)
    ensures
        (spec_vertical_alignment(s) == VerticalAlignment::Top) <==> (s == seq![116u8, 111u8, 112u8]),
        (spec_vertical_alignment(s) == VerticalAlignment::Center) <==> (s == seq![99u8, 101u8, 110u8, 116u8, 101u8, 114u8]),
        (spec_vertical_alignment(s) == VerticalAlignment::Bottom) <==> (s == seq![98u8, 111u8, 116u8, 116u8, 111u8, 109u8] || !(s == seq![116u8, 111u8, 112u8] || s == seq![99u8, 101u8, 110u8, 116u8, 101u8, 114u8] || s == seq![106u8, 117u8, 115u8, 116u8, 105u8, 102u8, 121u8] || s == seq![100u8, 105u8, 115u8, 116u8, 114u8, 105u8, 98u8, 117u8, 116u8, 101u8, 100u8])),
        (spec_vertical_alignment(s) == VerticalAlignment::Justify) <==> (s == seq![106u8, 117u8, 115u8, 116u8, 105u8, 102u8, 121u8]),
        (spec_vertical_alignment(s) == VerticalAlignment::Distributed) <==> (s == seq![100u8, 105u8, 115u8, 116u8, 114u8, 105u8, 98u8, 117u8, 116u8, 101u8, 100u8]),
{
    assert(KW_TOP@ =~= seq![116u8, 111u8, 112u8]);
    assert(KW_CENTER@ =~= seq![99u8, 101u8, 110u8, 116u8, 101u8, 114u8]);
    assert(KW_BOTTOM@ =~= seq![98u8, 111u8, 116u8, 116u8, 111u8, 109u8]);
    assert(KW_JUSTIFY@ =~= seq![106u8, 117u8, 115u8, 116u8, 105u8, 102u8, 121u8]);
    assert(KW_DISTRIBUTED@ =~= seq![100u8, 105u8, 115u8, 116u8, 114u8, 105u8, 98u8, 117u8, 116u8, 101u8, 100u8]);
}

/// An underline `val` names the underline of the same name (`single`, `double`, `singleAccounting`, `doubleAccounting`); any other value is no underline.
pub proof fn underline_keywords(s: Seq<u8>)
    ensures
        (spec_underline_style(s) == UnderlineStyle::Single) <==> (s == seq![115u8, 105u8, 110u8, 103u8, 108u8, 101u8]),
        (spec_underline_style(s) == UnderlineStyle::Double) <==> (s == seq![100u8, 111u8, 117u8, 98u8, 108u8, 101u8]),
        (spec_underline_style(s) == UnderlineStyle::SingleAccounting) <==> (s == seq![115u8, 105u8, 110u8, 103u8, 108u8, 101u8, 65u8, 99u8, 99u8, 111u8, 117u8, 110u8, 116u8, 105u8, 110u8, 103u8]),
        (spec_underline_style(s) == UnderlineStyle::DoubleAccounting) <==> (s == seq![100u8, 111u8, 117u8, 98u8, 108u8, 101u8, 65u8, 99u8, 99u8, 111u8, 117u8, 110u8, 116u8, 105u8, 110u8, 103u8]),
        (spec_underline_style(s) == UnderlineStyle::NoUnderline) <==> !(s == seq![115u8, 105u8, 110u8, 103u8, 108u8, 101u8] || s == seq![100u8, 111u8, 117u8, 98u8, 108u8, 101u8] || s == seq![115u8, 105u8, 110u8, 103u8, 108u8, 101u8, 65u8, 99u8, 99u8, 111u8, 117u8, 110u8, 116u8, 105u8, 110u8, 103u8] || s == seq![100u8, 111u8, 117u8, 98u8, 108u8, 101u8, 65u8, 99u8, 99u8, 111u8, 117u8, 110u8, 116u8, 105u8, 110u8, 103u8]),
{
    assert(KW_SINGLE@ =~= seq![115u8, 105u8, 110u8, 103u8, 108u8, 101u8]);
    assert(KW_DOUBLE@ =~= seq![100u8, 111u8, 117u8, 98u8, 108u8, 101u8]);
    assert(KW_SINGLE_ACCOUNTING@ =~= seq![115u8, 105u8, 110u8, 103u8, 108u8, 101u8, 65u8, 99u8, 99u8, 111u8, 117u8, 110u8, 116u8, 105u8, 110u8, 103u8]);
    assert(KW_DOUBLE_ACCOUNTING@ =~= seq![100u8, 111u8, 117u8, 98u8, 108u8, 101u8, 65u8, 99u8, 99u8, 111u8, 117u8, 110u8, 116u8, 105u8, 110u8, 103u8]);
    assert(seq![115u8, 105u8, 110u8, 103u8, 108u8, 101u8][0] != seq![100u8, 111u8, 117u8, 98u8, 108u8, 101u8][0]);
    assert(seq![115u8, 105u8, 110u8, 103u8, 108u8, 101u8].len() != seq![115u8, 105u8, 110u8, 103u8, 108u8, 101u8, 65u8, 99u8, 99u8, 111u8, 117u8, 110u8, 116u8, 105u8, 110u8, 103u8].len());
    assert(seq![115u8, 105u8, 110u8, 103u8, 108u8, 101u8].len() != seq![100u8, 111u8, 117u8, 98u8, 108u8, 101u8, 65u8, 99u8, 99u8, 111u8, 117u8, 110u8, 116u8, 105u8, 110u8, 103u8].len());
    assert(seq![100u8, 111u8, 117u8, 98u8, 108u8, 101u8].len() != seq![115u8, 105u8, 110u8, 103u8, 108u8, 101u8, 65u8, 99u8, 99u8, 111u8, 117u8, 110u8, 116u8, 105u8, 110u8, 103u8].len());
    assert(seq![100u8, 111u8, 117u8, 98u8, 108u8, 101u8].len() != seq![100u8, 111u8, 117u8, 98u8, 108u8, 101u8, 65u8, 99u8, 99u8, 111u8, 117u8, 110u8, 116u8, 105u8, 110u8, 103u8].len());
    assert(seq![115u8, 105u8, 110u8, 103u8, 108u8, 101u8, 65u8, 99u8, 99u8, 111u8, 117u8, 110u8, 116u8, 105u8, 110u8, 103u8][0] != seq![100u8, 111u8, 117u8, 98u8, 108u8, 101u8, 65u8, 99u8, 99u8, 111u8, 117u8, 110u8, 116u8, 105u8, 110u8, 103u8][0]);
}

/// A font style `val` is italic exactly for `italic` and `oblique`.
pub proof fn font_style_keywords(s: Seq<u8>)
    ensures
        (spec_font_style(s) == FontStyle::Italic) <==> (s == seq![105u8, 116u8, 97u8, 108u8, 105u8, 99u8] || s == seq![111u8, 98u8, 108u8, 105u8, 113u8, 117u8, 101u8]),
        (spec_font_style(s) == FontStyle::Normal) <==> !(s == seq![105u8, 116u8, 97u8, 108u8, 105u8, 99u8] || s == seq![111u8, 98u8, 108u8, 105u8, 113u8, 117u8, 101u8]),
{
    assert(KW_ITALIC@ =~= seq![105u8, 116u8, 97u8, 108u8, 105u8, 99u8]);
    assert(KW_OBLIQUE@ =~= seq![111u8, 98u8, 108u8, 105u8, 113u8, 117u8, 101u8]);
}

/// A `patternType` names the pattern of the same name; any other value is no fill.
pub proof fn fill_pattern_keywords(s: Seq<u8>)
    ensures
        (spec_fill_pattern(s) == FillPattern::Solid) <==> (s == seq![115u8, 111u8, 108u8, 105u8, 100u8]),
        (spec_fill_pattern(s) == FillPattern::DarkGray) <==> (s == seq![100u8, 97u8, 114u8, 107u8, 71u8, 114u8, 97u8, 121u8]),
        (spec_fill_pattern(s) == FillPattern::MediumGray) <==> (s == seq![109u8, 101u8, 100u8, 105u8, 117u8, 109u8, 71u8, 114u8, 97u8, 121u8]),
        (spec_fill_pattern(s) == FillPattern::LightGray) <==> (s == seq![108u8, 105u8, 103u8, 104u8, 116u8, 71u8, 114u8, 97u8, 121u8]),
        (spec_fill_pattern(s) == FillPattern::Gray125) <==> (s == seq![103u8, 114u8, 97u8, 121u8, 49u8, 50u8, 53u8]),
        (spec_fill_pattern(s) == FillPattern::Gray0625) <==> (s == seq![103u8, 114u8, 97u8, 121u8, 48u8, 54u8, 50u8, 53u8]),
        (spec_fill_pattern(s) == FillPattern::DarkHorizontal) <==> (s == seq![100u8, 97u8, 114u8, 107u8, 72u8, 111u8, 114u8, 105u8, 122u8, 111u8, 110u8, 116u8, 97u8, 108u8]),
        (spec_fill_pattern(s) == FillPattern::DarkVertical) <==> (s == seq![100u8, 97u8, 114u8, 107u8, 86u8, 101u8, 114u8, 116u8, 105u8, 99u8, 97u8, 108u8]),
        (spec_fill_pattern(s) == FillPattern::DarkDown) <==> (s == seq![100u8, 97u8, 114u8, 107u8, 68u8, 111u8, 119u8, 110u8]),
        (spec_fill_pattern(s) == FillPattern::DarkUp) <==> (s == seq![100u8, 97u8, 114u8, 107u8, 85u8, 112u8]),
        (spec_fill_pattern(s) == FillPattern::DarkGrid) <==> (s == seq![100u8, 97u8, 114u8, 107u8, 71u8, 114u8, 105u8, 100u8]),
        (spec_fill_pattern(s) == FillPattern::DarkTrellis) <==> (s == seq![100u8, 97u8, 114u8, 107u8, 84u8, 114u8, 101u8, 108u8, 108u8, 105u8, 115u8]),
        (spec_fill_pattern(s) == FillPattern::LightHorizontal) <==> (s == seq![108u8, 105u8, 103u8, 104u8, 116u8, 72u8, 111u8, 114u8, 105u8, 122u8, 111u8, 110u8, 116u8, 97u8, 108u8]),
        (spec_fill_pattern(s) == FillPattern::LightVertical) <==> (s == seq![108u8, 105u8, 103u8, 104u8, 116u8, 86u8, 101u8, 114u8, 116u8, 105u8, 99u8, 97u8, 108u8]),
        (spec_fill_pattern(s) == FillPattern::LightDown) <==> (s == seq![108u8, 105u8, 103u8, 104u8, 116u8, 68u8, 111u8, 119u8, 110u8]),
        (spec_fill_pattern(s) == FillPattern::LightUp) <==> (s == seq![108u8, 105u8, 103u8, 104u8, 116u8, 85u8, 112u8]),
        (spec_fill_pattern(s) == FillPattern::LightGrid) <==> (s == seq![108u8, 105u8, 103u8, 104u8, 116u8, 71u8, 114u8, 105u8, 100u8]),
        (spec_fill_pattern(s) == FillPattern::LightTrellis) <==> (s == seq![108u8, 105u8, 103u8, 104u8, 116u8, 84u8, 114u8, 101u8, 108u8, 108u8, 105u8, 115u8]),
        (spec_fill_pattern(s) == FillPattern::NoFill) <==> !(s == seq![115u8, 111u8, 108u8, 105u8, 100u8] || s == seq![100u8, 97u8, 114u8, 107u8, 71u8, 114u8, 97u8, 121u8] || s == seq![109u8, 101u8, 100u8, 105u8, 117u8, 109u8, 71u8, 114u8, 97u8, 121u8] || s == seq![108u8, 105u8, 103u8, 104u8, 116u8, 71u8, 114u8, 97u8, 121u8] || s == seq![103u8, 114u8, 97u8, 121u8, 49u8, 50u8, 53u8] || s == seq![103u8, 114u8, 97u8, 121u8, 48u8, 54u8, 50u8, 53u8] || s == seq![100u8, 97u8, 114u8, 107u8, 72u8, 111u8, 114u8, 105u8, 122u8, 111u8, 110u8, 116u8, 97u8, 108u8] || s == seq![100u8, 97u8, 114u8, 107u8, 86u8, 101u8, 114u8, 116u8, 105u8, 99u8, 97u8, 108u8] || s == seq![100u8, 97u8, 114u8, 107u8, 68u8, 111u8, 119u8, 110u8] || s == seq![100u8, 97u8, 114u8, 107u8, 85u8, 112u8] || s == seq![100u8, 97u8, 114u8, 107u8, 71u8, 114u8, 105u8, 100u8] || s == seq![100u8, 97u8, 114u8, 107u8, 84u8, 114u8, 101u8, 108u8, 108u8, 105u8, 115u8] || s == seq![108u8, 105u8, 103u8, 104u8, 116u8, 72u8, 111u8, 114u8, 105u8, 122u8, 111u8, 110u8, 116u8, 97u8, 108u8] || s == seq![108u8, 105u8, 103u8, 104u8, 116u8, 86u8, 101u8, 114u8, 116u8, 105u8, 99u8, 97u8, 108u8] || s == seq![108u8, 105u8, 103u8, 104u8, 116u8, 68u8, 111u8, 119u8, 110u8] || s == seq![108u8, 105u8, 103u8, 104u8, 116u8, 85u8, 112u8] || s == seq![108u8, 105u8, 103u8, 104u8, 116u8, 71u8, 114u8, 105u8, 100u8] || s == seq![108u8, 105u8, 103u8, 104u8, 116u8, 84u8, 114u8, 101u8, 108u8, 108u8, 105u8, 115u8]),
{
    assert(KW_SOLID@ =~= seq![115u8, 111u8, 108u8, 105u8, 100u8]);
    assert(KW_DARK_GRAY@ =~= seq![100u8, 97u8, 114u8, 107u8, 71u8, 114u8, 97u8, 121u8]);
    assert(KW_MEDIUM_GRAY@ =~= seq![109u8, 101u8, 100u8, 105u8, 117u8, 109u8, 71u8, 114u8, 97u8, 121u8]);
    assert(KW_LIGHT_GRAY@ =~= seq![108u8, 105u8, 103u8, 104u8, 116u8, 71u8, 114u8, 97u8, 121u8]);
    assert(KW_GRAY125@ =~= seq![103u8, 114u8, 97u8, 121u8, 49u8, 50u8, 53u8]);
    assert(KW_GRAY0625@ =~= seq![103u8, 114u8, 97u8, 121u8, 48u8, 54u8, 50u8, 53u8]);
    assert(KW_DARK_HORIZONTAL@ =~= seq![100u8, 97u8, 114u8, 107u8, 72u8, 111u8, 114u8, 105u8, 122u8, 111u8, 110u8, 116u8, 97u8, 108u8]);
    assert(KW_DARK_VERTICAL@ =~= seq![100u8, 97u8, 114u8, 107u8, 86u8, 101u8, 114u8, 116u8, 105u8, 99u8, 97u8, 108u8]);
    assert(KW_DARK_DOWN@ =~= seq![100u8, 97u8, 114u8, 107u8, 68u8, 111u8, 119u8, 110u8]);
    assert(KW_DARK_UP@ =~= seq![100u8, 97u8, 114u8, 107u8, 85u8, 112u8]);
    assert(KW_DARK_GRID@ =~= seq![100u8, 97u8, 114u8, 107u8, 71u8, 114u8, 105u8, 100u8]);
    assert(KW_DARK_TRELLIS@ =~= seq![100u8, 97u8, 114u8, 107u8, 84u8, 114u8, 101u8, 108u8, 108u8, 105u8, 115u8]);
    assert(KW_LIGHT_HORIZONTAL@ =~= seq![108u8, 105u8, 103u8, 104u8, 116u8, 72u8, 111u8, 114u8, 105u8, 122u8, 111u8, 110u8, 116u8, 97u8, 108u8]);
    assert(KW_LIGHT_VERTICAL@ =~= seq![108u8, 105u8, 103u8, 104u8, 116u8, 86u8, 101u8, 114u8, 116u8, 105u8, 99u8, 97u8, 108u8]);
    assert(KW_LIGHT_DOWN@ =~= seq![108u8, 105u8, 103u8, 104u8, 116u8, 68u8, 111u8, 119u8, 110u8]);
    assert(KW_LIGHT_UP@ =~= seq![108u8, 105u8, 103u8, 104u8, 116u8, 85u8, 112u8]);
    assert(KW_LIGHT_GRID@ =~= seq![108u8, 105u8, 103u8, 104u8, 116u8, 71u8, 114u8, 105u8, 100u8]);
    assert(KW_LIGHT_TRELLIS@ =~= seq![108u8, 105u8, 103u8, 104u8, 116u8, 84u8, 114u8, 101u8, 108u8, 108u8, 105u8, 115u8]);
}

/// A border `style` names the line of the same name; any other value is no line.
pub proof fn border_style_keywords(s: Seq<u8>)
    ensures
        (spec_border_style(s) == BorderStyle::Thin) <==> (s == seq![116u8, 104u8, 105u8, 110u8]),
        (spec_border_style(s) == BorderStyle::Medium) <==> (s == seq![109u8, 101u8, 100u8, 105u8, 117u8, 109u8]),
        (spec_border_style(s) == BorderStyle::Thick) <==> (s == seq![116u8, 104u8, 105u8, 99u8, 107u8]),
        (spec_border_style(s) == BorderStyle::Double) <==> (s == seq![100u8, 111u8, 117u8, 98u8, 108u8, 101u8]),
        (spec_border_style(s) == BorderStyle::Hair) <==> (s == seq![104u8, 97u8, 105u8, 114u8]),
        (spec_border_style(s) == BorderStyle::Dashed) <==> (s == seq![100u8, 97u8, 115u8, 104u8, 101u8, 100u8]),
        (spec_border_style(s) == BorderStyle::Dotted) <==> (s == seq![100u8, 111u8, 116u8, 116u8, 101u8, 100u8]),
        (spec_border_style(s) == BorderStyle::MediumDashed) <==> (s == seq![109u8, 101u8, 100u8, 105u8, 117u8, 109u8, 68u8, 97u8, 115u8, 104u8, 101u8, 100u8]),
        (spec_border_style(s) == BorderStyle::DashDot) <==> (s == seq![100u8, 97u8, 115u8, 104u8, 68u8, 111u8, 116u8]),
        (spec_border_style(s) == BorderStyle::DashDotDot) <==> (s == seq![100u8, 97u8, 115u8, 104u8, 68u8, 111u8, 116u8, 68u8, 111u8, 116u8]),
        (spec_border_style(s) == BorderStyle::SlantDashDot) <==> (s == seq![115u8, 108u8, 97u8, 110u8, 116u8, 68u8, 97u8, 115u8, 104u8, 68u8, 111u8, 116u8]),
        (spec_border_style(s) == BorderStyle::NoBorder) <==> !(s == seq![116u8, 104u8, 105u8, 110u8] || s == seq![109u8, 101u8, 100u8, 105u8, 117u8, 109u8] || s == seq![116u8, 104u8, 105u8, 99u8, 107u8] || s == seq![100u8, 111u8, 117u8, 98u8, 108u8, 101u8] || s == seq![104u8, 97u8, 105u8, 114u8] || s == seq![100u8, 97u8, 115u8, 104u8, 101u8, 100u8] || s == seq![100u8, 111u8, 116u8, 116u8, 101u8, 100u8] || s == seq![109u8, 101u8, 100u8, 105u8, 117u8, 109u8, 68u8, 97u8, 115u8, 104u8, 101u8, 100u8] || s == seq![100u8, 97u8, 115u8, 104u8, 68u8, 111u8, 116u8] || s == seq![100u8, 97u8, 115u8, 104u8, 68u8, 111u8, 116u8, 68u8, 111u8, 116u8] || s == seq![115u8, 108u8, 97u8, 110u8, 116u8, 68u8, 97u8, 115u8, 104u8, 68u8, 111u8, 116u8]),
{
    assert(KW_THIN@ =~= seq![116u8, 104u8, 105u8, 110u8]);
    assert(KW_MEDIUM@ =~= seq![109u8, 101u8, 100u8, 105u8, 117u8, 109u8]);
    assert(KW_THICK@ =~= seq![116u8, 104u8, 105u8, 99u8, 107u8]);
    assert(KW_DOUBLE@ =~= seq![100u8, 111u8, 117u8, 98u8, 108u8, 101u8]);
    assert(KW_HAIR@ =~= seq![104u8, 97u8, 105u8, 114u8]);
    assert(KW_DASHED@ =~= seq![100u8, 97u8, 115u8, 104u8, 101u8, 100u8]);
    assert(KW_DOTTED@ =~= seq![100u8, 111u8, 116u8, 116u8, 101u8, 100u8]);
    assert(KW_MEDIUM_DASHED@ =~= seq![109u8, 101u8, 100u8, 105u8, 117u8, 109u8, 68u8, 97u8, 115u8, 104u8, 101u8, 100u8]);
    assert(KW_DASH_DOT@ =~= seq![100u8, 97u8, 115u8, 104u8, 68u8, 111u8, 116u8]);
    assert(KW_DASH_DOT_DOT@ =~= seq![100u8, 97u8, 115u8, 104u8, 68u8, 111u8, 116u8, 68u8, 111u8, 116u8]);
    assert(KW_SLANT_DASH_DOT@ =~= seq![115u8, 108u8, 97u8, 110u8, 116u8, 68u8, 97u8, 115u8, 104u8, 68u8, 111u8, 116u8]);
    assert(seq![116u8, 104u8, 105u8, 110u8].len() != seq![109u8, 101u8, 100u8, 105u8, 117u8, 109u8].len());
    assert(seq![116u8, 104u8, 105u8, 110u8].len() != seq![116u8, 104u8, 105u8, 99u8, 107u8].len());
    assert(seq![116u8, 104u8, 105u8, 110u8].len() != seq![100u8, 111u8, 117u8, 98u8, 108u8, 101u8].len());
    assert(seq![116u8, 104u8, 105u8, 110u8][0] != seq![104u8, 97u8, 105u8, 114u8][0]);
    assert(seq![116u8, 104u8, 105u8, 110u8].len() != seq![100u8, 97u8, 115u8, 104u8, 101u8, 100u8].len());
    assert(seq![116u8, 104u8, 105u8, 110u8].len() != seq![100u8, 111u8, 116u8, 116u8, 101u8, 100u8].len());
    assert(seq![116u8, 104u8, 105u8, 110u8].len() != seq![109u8, 101u8, 100u8, 105u8, 117u8, 109u8, 68u8, 97u8, 115u8, 104u8, 101u8, 100u8].len());
    assert(seq![116u8, 104u8, 105u8, 110u8].len() != seq![100u8, 97u8, 115u8, 104u8, 68u8, 111u8, 116u8].len());
    assert(seq![116u8, 104u8, 105u8, 110u8].len() != seq![100u8, 97u8, 115u8, 104u8, 68u8, 111u8, 116u8, 68u8, 111u8, 116u8].len());
    assert(seq![116u8, 104u8, 105u8, 110u8].len() != seq![115u8, 108u8, 97u8, 110u8, 116u8, 68u8, 97u8, 115u8, 104u8, 68u8, 111u8, 116u8].len());
    assert(seq![109u8, 101u8, 100u8, 105u8, 117u8, 109u8].len() != seq![116u8, 104u8, 105u8, 99u8, 107u8].len());
    assert(seq![109u8, 101u8, 100u8, 105u8, 117u8, 109u8][0] != seq![100u8, 111u8, 117u8, 98u8, 108u8, 101u8][0]);
    assert(seq![109u8, 101u8, 100u8, 105u8, 117u8, 109u8].len() != seq![104u8, 97u8, 105u8, 114u8].len());
    assert(seq![109u8, 101u8, 100u8, 105u8, 117u8, 109u8][0] != seq![100u8, 97u8, 115u8, 104u8, 101u8, 100u8][0]);
    assert(seq![109u8, 101u8, 100u8, 105u8, 117u8, 109u8][0] != seq![100u8, 111u8, 116u8, 116u8, 101u8, 100u8][0]);
    assert(seq![109u8, 101u8, 100u8, 105u8, 117u8, 109u8].len() != seq![109u8, 101u8, 100u8, 105u8, 117u8, 109u8, 68u8, 97u8, 115u8, 104u8, 101u8, 100u8].len());
    assert(seq![109u8, 101u8, 100u8, 105u8, 117u8, 109u8].len() != seq![100u8, 97u8, 115u8, 104u8, 68u8, 111u8, 116u8].len());
    assert(seq![109u8, 101u8, 100u8, 105u8, 117u8, 109u8].len() != seq![100u8, 97u8, 115u8, 104u8, 68u8, 111u8, 116u8, 68u8, 111u8, 116u8].len());
    assert(seq![109u8, 101u8, 100u8, 105u8, 117u8, 109u8].len() != seq![115u8, 108u8, 97u8, 110u8, 116u8, 68u8, 97u8, 115u8, 104u8, 68u8, 111u8, 116u8].len());
    assert(seq![116u8, 104u8, 105u8, 99u8, 107u8].len() != seq![100u8, 111u8, 117u8, 98u8, 108u8, 101u8].len());
    assert(seq![116u8, 104u8, 105u8, 99u8, 107u8].len() != seq![104u8, 97u8, 105u8, 114u8].len());
    assert(seq![116u8, 104u8, 105u8, 99u8, 107u8].len() != seq![100u8, 97u8, 115u8, 104u8, 101u8, 100u8].len());
    assert(seq![116u8, 104u8, 105u8, 99u8, 107u8].len() != seq![100u8, 111u8, 116u8, 116u8, 101u8, 100u8].len());
    assert(seq![116u8, 104u8, 105u8, 99u8, 107u8].len() != seq![109u8, 101u8, 100u8, 105u8, 117u8, 109u8, 68u8, 97u8, 115u8, 104u8, 101u8, 100u8].len());
    assert(seq![116u8, 104u8, 105u8, 99u8, 107u8].len() != seq![100u8, 97u8, 115u8, 104u8, 68u8, 111u8, 116u8].len());
    assert(seq![116u8, 104u8, 105u8, 99u8, 107u8].len() != seq![100u8, 97u8, 115u8, 104u8, 68u8, 111u8, 116u8, 68u8, 111u8, 116u8].len());
    assert(seq![116u8, 104u8, 105u8, 99u8, 107u8].len() != seq![115u8, 108u8, 97u8, 110u8, 116u8, 68u8, 97u8, 115u8, 104u8, 68u8, 111u8, 116u8].len());
    assert(seq![100u8, 111u8, 117u8, 98u8, 108u8, 101u8].len() != seq![104u8, 97u8, 105u8, 114u8].len());
    assert(seq![100u8, 111u8, 117u8, 98u8, 108u8, 101u8][1] != seq![100u8, 97u8, 115u8, 104u8, 101u8, 100u8][1]);
    assert(seq![100u8, 111u8, 117u8, 98u8, 108u8, 101u8][2] != seq![100u8, 111u8, 116u8, 116u8, 101u8, 100u8][2]);
    assert(seq![100u8, 111u8, 117u8, 98u8, 108u8, 101u8].len() != seq![109u8, 101u8, 100u8, 105u8, 117u8, 109u8, 68u8, 97u8, 115u8, 104u8, 101u8, 100u8].len());
    assert(seq![100u8, 111u8, 117u8, 98u8, 108u8, 101u8].len() != seq![100u8, 97u8, 115u8, 104u8, 68u8, 111u8, 116u8].len());
    assert(seq![100u8, 111u8, 117u8, 98u8, 108u8, 101u8].len() != seq![100u8, 97u8, 115u8, 104u8, 68u8, 111u8, 116u8, 68u8, 111u8, 116u8].len());
    assert(seq![100u8, 111u8, 117u8, 98u8, 108u8, 101u8].len() != seq![115u8, 108u8, 97u8, 110u8, 116u8, 68u8, 97u8, 115u8, 104u8, 68u8, 111u8, 116u8].len());
    assert(seq![104u8, 97u8, 105u8, 114u8].len() != seq![100u8, 97u8, 115u8, 104u8, 101u8, 100u8].len());
    assert(seq![104u8, 97u8, 105u8, 114u8].len() != seq![100u8, 111u8, 116u8, 116u8, 101u8, 100u8].len());
    assert(seq![104u8, 97u8, 105u8, 114u8].len() != seq![109u8, 101u8, 100u8, 105u8, 117u8, 109u8, 68u8, 97u8, 115u8, 104u8, 101u8, 100u8].len());
    assert(seq![104u8, 97u8, 105u8, 114u8].len() != seq![100u8, 97u8, 115u8, 104u8, 68u8, 111u8, 116u8].len());
    assert(seq![104u8, 97u8, 105u8, 114u8].len() != seq![100u8, 97u8, 115u8, 104u8, 68u8, 111u8, 116u8, 68u8, 111u8, 116u8].len());
    assert(seq![104u8, 97u8, 105u8, 114u8].len() != seq![115u8, 108u8, 97u8, 110u8, 116u8, 68u8, 97u8, 115u8, 104u8, 68u8, 111u8, 116u8].len());
    assert(seq![100u8, 97u8, 115u8, 104u8, 101u8, 100u8][1] != seq![100u8, 111u8, 116u8, 116u8, 101u8, 100u8][1]);
    assert(seq![100u8, 97u8, 115u8, 104u8, 101u8, 100u8].len() != seq![109u8, 101u8, 100u8, 105u8, 117u8, 109u8, 68u8, 97u8, 115u8, 104u8, 101u8, 100u8].len());
    assert(seq![100u8, 97u8, 115u8, 104u8, 101u8, 100u8].len() != seq![100u8, 97u8, 115u8, 104u8, 68u8, 111u8, 116u8].len());
    assert(seq![100u8, 97u8, 115u8, 104u8, 101u8, 100u8].len() != seq![100u8, 97u8, 115u8, 104u8, 68u8, 111u8, 116u8, 68u8, 111u8, 116u8].len());
    assert(seq![100u8, 97u8, 115u8, 104u8, 101u8, 100u8].len() != seq![115u8, 108u8, 97u8, 110u8, 116u8, 68u8, 97u8, 115u8, 104u8, 68u8, 111u8, 116u8].len());
    assert(seq![100u8, 111u8, 116u8, 116u8, 101u8, 100u8].len() != seq![109u8, 101u8, 100u8, 105u8, 117u8, 109u8, 68u8, 97u8, 115u8, 104u8, 101u8, 100u8].len());
    assert(seq![100u8, 111u8, 116u8, 116u8, 101u8, 100u8].len() != seq![100u8, 97u8, 115u8, 104u8, 68u8, 111u8, 116u8].len());
    assert(seq![100u8, 111u8, 116u8, 116u8, 101u8, 100u8].len() != seq![100u8, 97u8, 115u8, 104u8, 68u8, 111u8, 116u8, 68u8, 111u8, 116u8].len());
    assert(seq![100u8, 111u8, 116u8, 116u8, 101u8, 100u8].len() != seq![115u8, 108u8, 97u8, 110u8, 116u8, 68u8, 97u8, 115u8, 104u8, 68u8, 111u8, 116u8].len());
    assert(seq![109u8, 101u8, 100u8, 105u8, 117u8, 109u8, 68u8, 97u8, 115u8, 104u8, 101u8, 100u8].len() != seq![100u8, 97u8, 115u8, 104u8, 68u8, 111u8, 116u8].len());
    assert(seq![109u8, 101u8, 100u8, 105u8, 117u8, 109u8, 68u8, 97u8, 115u8, 104u8, 101u8, 100u8].len() != seq![100u8, 97u8, 115u8, 104u8, 68u8, 111u8, 116u8, 68u8, 111u8, 116u8].len());
    assert(seq![109u8, 101u8, 100u8, 105u8, 117u8, 109u8, 68u8, 97u8, 115u8, 104u8, 101u8, 100u8][0] != seq![115u8, 108u8, 97u8, 110u8, 116u8, 68u8, 97u8, 115u8, 104u8, 68u8, 111u8, 116u8][0]);
    assert(seq![100u8, 97u8, 115u8, 104u8, 68u8, 111u8, 116u8].len() != seq![100u8, 97u8, 115u8, 104u8, 68u8, 111u8, 116u8, 68u8, 111u8, 116u8].len());
    assert(seq![100u8, 97u8, 115u8, 104u8, 68u8, 111u8, 116u8].len() != seq![115u8, 108u8, 97u8, 110u8, 116u8, 68u8, 97u8, 115u8, 104u8, 68u8, 111u8, 116u8].len());
    assert(seq![100u8, 97u8, 115u8, 104u8, 68u8, 111u8, 116u8, 68u8, 111u8, 116u8].len() != seq![115u8, 108u8, 97u8, 110u8, 116u8, 68u8, 97u8, 115u8, 104u8, 68u8, 111u8, 116u8].len());
}

/// An error cell's text names the error of that spelling (`#DIV/0!`, `#N/A`, `#NAME?`, `#NULL!`, `#NUM!`, `#REF!`, `#VALUE!`, `#GETTING_DATA`); any other text names none.
pub proof fn cell_error_spellings(b: Seq<u8>)
    ensures
        (spec_cell_error(b) == Some(CellErrorType::Div0)) <==> (b == seq![35u8, 68u8, 73u8, 86u8, 47u8, 48u8, 33u8]),
        (spec_cell_error(b) == Some(CellErrorType::NA)) <==> (b == seq![35u8, 78u8, 47u8, 65u8]),
        (spec_cell_error(b) == Some(CellErrorType::Name)) <==> (b == seq![35u8, 78u8, 65u8, 77u8, 69u8, 63u8]),
        (spec_cell_error(b) == Some(CellErrorType::Null)) <==> (b == seq![35u8, 78u8, 85u8, 76u8, 76u8, 33u8]),
        (spec_cell_error(b) == Some(CellErrorType::Num)) <==> (b == seq![35u8, 78u8, 85u8, 77u8, 33u8]),
        (spec_cell_error(b) == Some(CellErrorType::Ref)) <==> (b == seq![35u8, 82u8, 69u8, 70u8, 33u8]),
        (spec_cell_error(b) == Some(CellErrorType::Value)) <==> (b == seq![35u8, 86u8, 65u8, 76u8, 85u8, 69u8, 33u8]),
        (spec_cell_error(b) == Some(CellErrorType::GettingData)) <==> (b == seq![35u8, 71u8, 69u8, 84u8, 84u8, 73u8, 78u8, 71u8, 95u8, 68u8, 65u8, 84u8, 65u8]),
        (spec_cell_error(b) == None::<CellErrorType>) <==> !(b == seq![35u8, 68u8, 73u8, 86u8, 47u8, 48u8, 33u8] || b == seq![35u8, 78u8, 47u8, 65u8] || b == seq![35u8, 78u8, 65u8, 77u8, 69u8, 63u8] || b == seq![35u8, 78u8, 85u8, 76u8, 76u8, 33u8] || b == seq![35u8, 78u8, 85u8, 77u8, 33u8] || b == seq![35u8, 82u8, 69u8, 70u8, 33u8] || b == seq![35u8, 86u8, 65u8, 76u8, 85u8, 69u8, 33u8] || b == seq![35u8, 71u8, 69u8, 84u8, 84u8, 73u8, 78u8, 71u8, 95u8, 68u8, 65u8, 84u8, 65u8]),
{
    assert(KW_ERR_DIV0@ =~= seq![35u8, 68u8, 73u8, 86u8, 47u8, 48u8, 33u8]);
    assert(KW_ERR_NA@ =~= seq![35u8, 78u8, 47u8, 65u8]);
    assert(KW_ERR_NAME@ =~= seq![35u8, 78u8, 65u8, 77u8, 69u8, 63u8]);
    assert(KW_ERR_NULL@ =~= seq![35u8, 78u8, 85u8, 76u8, 76u8, 33u8]);
    assert(KW_ERR_NUM@ =~= seq![35u8, 78u8, 85u8, 77u8, 33u8]);
    assert(KW_ERR_REF@ =~= seq![35u8, 82u8, 69u8, 70u8, 33u8]);
    assert(KW_ERR_VALUE@ =~= seq![35u8, 86u8, 65u8, 76u8, 85u8, 69u8, 33u8]);
    assert(KW_ERR_GETTING_DATA@ =~= seq![35u8, 71u8, 69u8, 84u8, 84u8, 73u8, 78u8, 71u8, 95u8, 68u8, 65u8, 84u8, 65u8]);
}

} // verus!
