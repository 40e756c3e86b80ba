//! Theme and indexed color palettes.

use vstd::prelude::*;
use crate::style::{Color, spec_rgb};

verus! {

/// Default Office theme in SpreadsheetML's zero-based slot order: `dk1`,
/// `lt1`, `dk2`, `lt2`, six accents, hyperlink, and followed hyperlink.
pub open spec fn spec_default_theme_colors() -> Seq<Color> {
    seq![
        spec_rgb(0, 0, 0),
        spec_rgb(255, 255, 255),
        spec_rgb(31, 73, 125),
        spec_rgb(238, 236, 225),
        spec_rgb(79, 129, 189),
        spec_rgb(192, 80, 77),
        spec_rgb(155, 187, 89),
        spec_rgb(128, 100, 162),
        spec_rgb(75, 172, 198),
        spec_rgb(247, 150, 70),
        spec_rgb(0, 0, 255),
        spec_rgb(128, 0, 128),
    ]
}

/// The default Office theme palette (see `spec_default_theme_colors`).
pub fn default_theme_colors() -> (r: [Color; 12])
    ensures
        r@ == spec_default_theme_colors(),
{
    let r = [
        Color { alpha: 255, red: 0, green: 0, blue: 0 },
        Color { alpha: 255, red: 255, green: 255, blue: 255 },
        Color { alpha: 255, red: 31, green: 73, blue: 125 },
        Color { alpha: 255, red: 238, green: 236, blue: 225 },
        Color { alpha: 255, red: 79, green: 129, blue: 189 },
        Color { alpha: 255, red: 192, green: 80, blue: 77 },
        Color { alpha: 255, red: 155, green: 187, blue: 89 },
        Color { alpha: 255, red: 128, green: 100, blue: 162 },
        Color { alpha: 255, red: 75, green: 172, blue: 198 },
        Color { alpha: 255, red: 247, green: 150, blue: 70 },
        Color { alpha: 255, red: 0, green: 0, blue: 255 },
        Color { alpha: 255, red: 128, green: 0, blue: 128 },
    ];
    assert(r@ =~= spec_default_theme_colors());
    r
}

/// The default `indexedColors` palette of SpreadsheetML, as (red, green, blue).
pub const OOXML_INDEXED_COLORS: [(u8, u8, u8); 64] = [
    (0x00, 0x00, 0x00),
    (0xFF, 0xFF, 0xFF),
    (0xFF, 0x00, 0x00),
    (0x00, 0xFF, 0x00),
    (0x00, 0x00, 0xFF),
    (0xFF, 0xFF, 0x00),
    (0xFF, 0x00, 0xFF),
    (0x00, 0xFF, 0xFF),
    (0x00, 0x00, 0x00),
    (0xFF, 0xFF, 0xFF),
    (0xFF, 0x00, 0x00),
    (0x00, 0xFF, 0x00),
    (0x00, 0x00, 0xFF),
    (0xFF, 0xFF, 0x00),
    (0xFF, 0x00, 0xFF),
    (0x00, 0xFF, 0xFF),
    (0x80, 0x00, 0x00),
    (0x00, 0x80, 0x00),
    (0x00, 0x00, 0x80),
    (0x80, 0x80, 0x00),
    (0x80, 0x00, 0x80),
    (0x00, 0x80, 0x80),
    (0xC0, 0xC0, 0xC0),
    (0x80, 0x80, 0x80),
    (0x99, 0x99, 0xFF),
    (0x99, 0x33, 0x66),
    (0xFF, 0xFF, 0xCC),
    (0xCC, 0xFF, 0xFF),
    (0x66, 0x00, 0x66),
    (0xFF, 0x80, 0x80),
    (0x00, 0x66, 0xCC),
    (0xCC, 0xCC, 0xFF),
    (0x00, 0x00, 0x80),
    (0xFF, 0x00, 0xFF),
    (0xFF, 0xFF, 0x00),
    (0x00, 0xFF, 0xFF),
    (0x80, 0x00, 0x80),
    (0x80, 0x00, 0x00),
    (0x00, 0x80, 0x80),
    (0x00, 0x00, 0xFF),
    (0x00, 0xCC, 0xFF),
    (0xCC, 0xFF, 0xFF),
    (0xCC, 0xFF, 0xCC),
    (0xFF, 0xFF, 0x99),
    (0x99, 0xCC, 0xFF),
    (0xFF, 0x99, 0xCC),
    (0xCC, 0x99, 0xFF),
    (0xFF, 0xCC, 0x99),
    (0x33, 0x66, 0xFF),
    (0x33, 0xCC, 0xCC),
    (0x99, 0xCC, 0x00),
    (0xFF, 0xCC, 0x00),
    (0xFF, 0x99, 0x00),
    (0xFF, 0x66, 0x00),
    (0x66, 0x66, 0x99),
    (0x96, 0x96, 0x96),
    (0x00, 0x33, 0x66),
    (0x33, 0x99, 0x66),
    (0x00, 0x33, 0x00),
    (0x33, 0x33, 0x00),
    (0x99, 0x33, 0x00),
    (0x99, 0x33, 0x66),
    (0x33, 0x33, 0x99),
    (0x33, 0x33, 0x33),
];

/// The theme slot `theme` of the palette; black beyond its twelve slots.
pub open spec fn spec_theme_color(theme: nat, theme_colors: Seq<Color>) -> Color {
    if theme < 12 {
        theme_colors[theme as int]
    } else {
        spec_rgb(0, 0, 0)
    }
}

/// Resolves a theme color index against the workbook's theme palette.
pub fn get_theme_color(theme: u8, theme_colors: &[Color; 12]) -> (c: Color)
    ensures
        c == spec_theme_color(theme as nat, theme_colors@),
{
    if theme < 12 {
        theme_colors[theme as usize]
    } else {
        Color::rgb(0, 0, 0)
    }
}

/// The entry `index` of the default indexed palette; black beyond its 64 entries.
pub open spec fn spec_indexed_color(index: nat) -> Color {
    if index < 64 {
        let entry = OOXML_INDEXED_COLORS@[index as int];
        spec_rgb(entry.0, entry.1, entry.2)
    } else {
        spec_rgb(0, 0, 0)
    }
}

/// Resolve an OOXML indexed color.
///
/// The `indexed` attribute is a zero-based offset into the default
/// `indexedColors` palette, not VBA's one-based `ColorIndex`.
pub fn get_indexed_color(index: u8) -> (c: Color)
    ensures
        c == spec_indexed_color(index as nat),
{
    if index < 64 {
        let table = OOXML_INDEXED_COLORS;
        let (red, green, blue) = table[index as usize];
        Color::rgb(red, green, blue)
    } else {
        Color::rgb(0, 0, 0)
    }
}

} // verus!
