//! The cell formatting model: colors, fonts, fills, borders, alignment,
//! number formats and protection.

use vstd::prelude::*;

verus! {

/// An ARGB color.
#[derive(Debug, Clone, Copy, PartialEq, Eq, Structural)]
pub struct Color {
    pub alpha: u8,
    pub red: u8,
    pub green: u8,
    pub blue: u8,
}

impl Color {
    /// A color with the given alpha channel.
    pub fn new(alpha: u8, red: u8, green: u8, blue: u8) -> (c: Color)
        ensures
            c == (Color { alpha, red, green, blue }),
    {
        Color { alpha, red, green, blue }
    }

    /// An opaque color.
    pub fn rgb(red: u8, green: u8, blue: u8) -> (c: Color)
        ensures
            c == spec_rgb(red, green, blue),
    {
        Color { alpha: 255, red, green, blue }
    }
}

/// An opaque color (alpha 255).
pub open spec fn spec_rgb(red: u8, green: u8, blue: u8) -> Color {
    Color { alpha: 255, red, green, blue }
}

#[derive(Debug, Clone, Copy, PartialEq, Eq, Structural)]
pub enum FontWeight {
    Normal,
    Bold,
}

#[derive(Debug, Clone, Copy, PartialEq, Eq, Structural)]
pub enum FontStyle {
    Normal,
    Italic,
}

#[derive(Debug, Clone, Copy, PartialEq, Eq, Structural)]
pub enum UnderlineStyle {
    NoUnderline,
    Single,
    Double,
    SingleAccounting,
    DoubleAccounting,
}

#[derive(Debug, Clone, Copy, PartialEq, Eq, Structural)]
pub enum HorizontalAlignment {
    General,
    Left,
    Center,
    Right,
    Justify,
    Distributed,
    Fill,
}

#[derive(Debug, Clone, Copy, PartialEq, Eq, Structural)]
pub enum VerticalAlignment {
    Top,
    Center,
    Bottom,
    Justify,
    Distributed,
}

#[derive(Debug, Clone, Copy, PartialEq, Eq, Structural)]
pub enum FillPattern {
    NoFill,
    Solid,
    DarkGray,
    MediumGray,
    LightGray,
    Gray125,
    Gray0625,
    DarkHorizontal,
    DarkVertical,
    DarkDown,
    DarkUp,
    DarkGrid,
    DarkTrellis,
    LightHorizontal,
    LightVertical,
    LightDown,
    LightUp,
    LightGrid,
    LightTrellis,
}

#[derive(Debug, Clone, Copy, PartialEq, Eq, Structural)]
pub enum BorderStyle {
    NoBorder,
    Thin,
    Medium,
    Thick,
    Double,
    Hair,
    Dashed,
    Dotted,
    MediumDashed,
    DashDot,
    DashDotDot,
    SlantDashDot,
}

#[derive(Debug, Clone, Copy, PartialEq, Eq, Structural)]
pub enum TextRotation {
    Unrotated,
    Degrees(u16),
}

/// A font record. `size` keeps the point size as the decimal text the
/// workbook wrote; it is present only when that text is a number.
#[derive(Debug, Clone, PartialEq, Eq)]
pub struct Font {
    pub name: Option<String>,
    pub size: Option<String>,
    pub family: Option<String>,
    pub weight: FontWeight,
    pub style: FontStyle,
    pub underline: UnderlineStyle,
    pub strikethrough: bool,
    pub color: Option<Color>,
}

/// A font with its texts taken as character sequences.
pub struct FontView {
    pub name: Option<Seq<char>>,
    pub size: Option<Seq<char>>,
    pub family: Option<Seq<char>>,
    pub weight: FontWeight,
    pub style: FontStyle,
    pub underline: UnderlineStyle,
    pub strikethrough: bool,
    pub color: Option<Color>,
}

/// The characters of an optional text.
pub open spec fn text_view(t: Option<String>) -> Option<Seq<char>> {
    match t {
        Some(s) => Some(s@),
        None => None,
    }
}

impl View for Font {
    type V = FontView;

    open spec fn view(&self) -> FontView {
        FontView {
            name: text_view(self.name),
            size: text_view(self.size),
            family: text_view(self.family),
            weight: self.weight,
            style: self.style,
            underline: self.underline,
            strikethrough: self.strikethrough,
            color: self.color,
        }
    }
}

/// The font with no property set.
pub open spec fn spec_font_new() -> FontView {
    FontView {
        name: None,
        size: None,
        family: None,
        weight: FontWeight::Normal,
        style: FontStyle::Normal,
        underline: UnderlineStyle::NoUnderline,
        strikethrough: false,
        color: None,
    }
}

impl Font {
    pub fn new() -> (f: Font)
        ensures
            f@ == spec_font_new(),
    {
        Font {
            name: None,
            size: None,
            family: None,
            weight: FontWeight::Normal,
            style: FontStyle::Normal,
            underline: UnderlineStyle::NoUnderline,
            strikethrough: false,
            color: None,
        }
    }

    /// Whether the weight is bold.
    pub fn is_bold(&self) -> (r: bool)
        ensures
            r == (self.weight == FontWeight::Bold),
    {
        match self.weight {
            FontWeight::Bold => true,
            FontWeight::Normal => false,
        }
    }

    /// Whether the style is italic.
    pub fn is_italic(&self) -> (r: bool)
        ensures
            r == (self.style == FontStyle::Italic),
    {
        match self.style {
            FontStyle::Italic => true,
            FontStyle::Normal => false,
        }
    }

    /// Whether some underline is drawn.
    pub fn has_underline(&self) -> (r: bool)
        ensures
            r == (self.underline != UnderlineStyle::NoUnderline),
    {
        match self.underline {
            UnderlineStyle::NoUnderline => false,
            _ => true,
        }
    }

    /// Whether the text is struck through.
    pub fn has_strikethrough(&self) -> (r: bool)
        ensures
            r == self.strikethrough,
    {
        self.strikethrough
    }

    /// A field-by-field copy.
    pub fn duplicate(&self) -> (r: Font)
        ensures
            r == *self,
    {
        Font {
            name: copy_text(&self.name),
            size: copy_text(&self.size),
            family: copy_text(&self.family),
            weight: self.weight,
            style: self.style,
            underline: self.underline,
            strikethrough: self.strikethrough,
            color: self.color,
        }
    }
}

/// A copy of an optional text.
pub fn copy_text(t: &Option<String>) -> (r: Option<String>)
    ensures
        r == *t,
{
    match t {
        Some(s) => Some(s.clone()),
        None => None,
    }
}

/// A fill record.
#[derive(Debug, Clone, Copy, PartialEq, Eq, Structural)]
pub struct Fill {
    pub pattern: FillPattern,
    pub foreground_color: Option<Color>,
    pub background_color: Option<Color>,
}

pub open spec fn spec_fill_new() -> Fill {
    Fill { pattern: FillPattern::NoFill, foreground_color: None, background_color: None }
}

impl Fill {
    pub fn new() -> (f: Fill)
        ensures
            f == spec_fill_new(),
    {
        Fill { pattern: FillPattern::NoFill, foreground_color: None, background_color: None }
    }

    /// Whether the fill paints anything.
    pub fn is_visible(&self) -> (r: bool)
        ensures
            r == (self.pattern != FillPattern::NoFill),
    {
        match self.pattern {
            FillPattern::NoFill => false,
            _ => true,
        }
    }

    /// The color the fill shows: the foreground color, else the background color.
    pub fn get_color(&self) -> (r: Option<Color>)
        ensures
            r == (if self.foreground_color is Some { self.foreground_color } else { self.background_color }),
    {
        match self.foreground_color {
            Some(c) => Some(c),
            None => self.background_color,
        }
    }
}

/// One border line.
#[derive(Debug, Clone, Copy, PartialEq, Eq, Structural)]
pub struct Border {
    pub style: BorderStyle,
    pub color: Option<Color>,
}

impl Border {
    pub fn new(style: BorderStyle) -> (b: Border)
        ensures
            b == (Border { style, color: None }),
    {
        Border { style, color: None }
    }

    pub fn with_color(style: BorderStyle, color: Color) -> (b: Border)
        ensures
            b == (Border { style, color: Some(color) }),
    {
        Border { style, color: Some(color) }
    }

    /// Whether a line is drawn.
    pub fn is_visible(&self) -> (r: bool)
        ensures
            r == (self.style != BorderStyle::NoBorder),
    {
        match self.style {
            BorderStyle::NoBorder => false,
            _ => true,
        }
    }
}

/// The borders of a cell.
#[derive(Debug, Clone, Copy, PartialEq, Eq, Structural)]
pub struct Borders {
    pub left: Border,
    pub right: Border,
    pub top: Border,
    pub bottom: Border,
    pub diagonal_down: Border,
    pub diagonal_up: Border,
}

pub open spec fn spec_no_border() -> Border {
    Border { style: BorderStyle::NoBorder, color: None }
}

pub open spec fn spec_borders_new() -> Borders {
    Borders {
        left: spec_no_border(),
        right: spec_no_border(),
        top: spec_no_border(),
        bottom: spec_no_border(),
        diagonal_down: spec_no_border(),
        diagonal_up: spec_no_border(),
    }
}

impl Borders {
    pub fn new() -> (b: Borders)
        ensures
            b == spec_borders_new(),
    {
        let none = Border { style: BorderStyle::NoBorder, color: None };
        Borders { left: none, right: none, top: none, bottom: none, diagonal_down: none, diagonal_up: none }
    }

    /// Whether any of the six lines is drawn.
    pub fn has_visible_borders(&self) -> (r: bool)
        ensures
            r == (self.left.style != BorderStyle::NoBorder || self.right.style != BorderStyle::NoBorder
                || self.top.style != BorderStyle::NoBorder || self.bottom.style != BorderStyle::NoBorder
                || self.diagonal_down.style != BorderStyle::NoBorder
                || self.diagonal_up.style != BorderStyle::NoBorder),
    {
        self.left.is_visible() || self.right.is_visible() || self.top.is_visible()
            || self.bottom.is_visible() || self.diagonal_down.is_visible()
            || self.diagonal_up.is_visible()
    }
}

/// Cell alignment. Omitted properties take the defaults of `Alignment::new`.
#[derive(Debug, Clone, Copy, PartialEq, Eq, Structural)]
pub struct Alignment {
    pub horizontal: HorizontalAlignment,
    pub vertical: VerticalAlignment,
    pub text_rotation: TextRotation,
    pub wrap_text: bool,
    pub indent: u8,
    pub shrink_to_fit: bool,
}

pub open spec fn spec_alignment_new() -> Alignment {
    Alignment {
        horizontal: HorizontalAlignment::General,
        vertical: VerticalAlignment::Bottom,
        text_rotation: TextRotation::Unrotated,
        wrap_text: false,
        indent: 0,
        shrink_to_fit: false,
    }
}

impl Alignment {
    pub fn new() -> (a: Alignment)
        ensures
            a == spec_alignment_new(),
    {
        Alignment {
            horizontal: HorizontalAlignment::General,
            vertical: VerticalAlignment::Bottom,
            text_rotation: TextRotation::Unrotated,
            wrap_text: false,
            indent: 0,
            shrink_to_fit: false,
        }
    }
}

/// Cell protection flags.
#[derive(Debug, Clone, Copy, PartialEq, Eq, Structural)]
pub struct Protection {
    pub locked: bool,
    pub hidden: bool,
}

pub open spec fn spec_protection_new() -> Protection {
    Protection { locked: false, hidden: false }
}

impl Protection {
    pub fn new() -> (p: Protection)
        ensures
            p == spec_protection_new(),
    {
        Protection { locked: false, hidden: false }
    }
}

/// A number format: the workbook's identifier and its format code. The code
/// is empty for built-in formats whose code depends on the locale.
#[derive(Debug, Clone, PartialEq, Eq)]
pub struct NumberFormat {
    pub format_id: u32,
    pub format_code: String,
}

/// The complete formatting of a cell, as one entry of the workbook's style
/// palette. `style_id` is the entry's index once the style is attached to a
/// cell.
#[derive(Debug, Clone, PartialEq, Eq)]
pub struct Style {
    pub font: Option<Font>,
    pub fill: Option<Fill>,
    pub borders: Option<Borders>,
    pub alignment: Option<Alignment>,
    pub number_format: Option<NumberFormat>,
    pub protection: Option<Protection>,
    pub style_id: Option<u32>,
}

pub open spec fn spec_style_new() -> Style {
    Style {
        font: None,
        fill: None,
        borders: None,
        alignment: None,
        number_format: None,
        protection: None,
        style_id: None,
    }
}

impl Style {
    pub fn new() -> (s: Style)
        ensures
            s == spec_style_new(),
    {
        Style {
            font: None,
            fill: None,
            borders: None,
            alignment: None,
            number_format: None,
            protection: None,
            style_id: None,
        }
    }

    pub fn get_font(&self) -> (r: &Option<Font>)
        ensures
            *r == self.font,
    {
        &self.font
    }

    pub fn get_fill(&self) -> (r: Option<Fill>)
        ensures
            r == self.fill,
    {
        self.fill
    }

    pub fn get_borders(&self) -> (r: Option<Borders>)
        ensures
            r == self.borders,
    {
        self.borders
    }

    pub fn get_alignment(&self) -> (r: Option<Alignment>)
        ensures
            r == self.alignment,
    {
        self.alignment
    }

    pub fn get_number_format(&self) -> (r: &Option<NumberFormat>)
        ensures
            *r == self.number_format,
    {
        &self.number_format
    }

    pub fn get_protection(&self) -> (r: Option<Protection>)
        ensures
            r == self.protection,
    {
        self.protection
    }

    /// Whether the style sets any property that changes how a cell looks.
    pub fn has_visible_properties(&self) -> (r: bool)
        ensures
            r == (self.font is Some || (self.fill is Some && self.fill->0.pattern != FillPattern::NoFill)
                || (self.borders is Some && self.borders->0.has_visible_spec())
                || self.alignment is Some || self.number_format is Some),
    {
        let fill_visible = match self.fill {
            Some(f) => f.is_visible(),
            None => false,
        };
        let borders_visible = match self.borders {
            Some(b) => b.has_visible_borders(),
            None => false,
        };
        self.font.is_some() || fill_visible || borders_visible || self.alignment.is_some()
            || self.number_format.is_some()
    }

    /// A field-by-field copy.
    pub fn duplicate(&self) -> (r: Style)
        ensures
            r == *self,
    {
        let font = match &self.font {
            Some(f) => Some(f.duplicate()),
            None => None,
        };
        let number_format = match &self.number_format {
            Some(n) => Some(NumberFormat { format_id: n.format_id, format_code: n.format_code.clone() }),
            None => None,
        };
        Style {
            font,
            fill: self.fill,
            borders: self.borders,
            alignment: self.alignment,
            number_format,
            protection: self.protection,
            style_id: self.style_id,
        }
    }
}

impl Borders {
    pub open spec fn has_visible_spec(self) -> bool {
        self.left.style != BorderStyle::NoBorder || self.right.style != BorderStyle::NoBorder
            || self.top.style != BorderStyle::NoBorder || self.bottom.style != BorderStyle::NoBorder
            || self.diagonal_down.style != BorderStyle::NoBorder
            || self.diagonal_up.style != BorderStyle::NoBorder
    }
}

} // verus!
