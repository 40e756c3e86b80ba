use calamine_styles::colors::{default_theme_colors, get_indexed_color, get_theme_color};
use calamine_styles::error::{Unexpected, XlsxError};
use calamine_styles::style::{
    Alignment, Border, BorderStyle, Borders, Color, Fill, FillPattern, Font, FontStyle, FontWeight,
    HorizontalAlignment, Protection, TextRotation, UnderlineStyle, VerticalAlignment,
};
use calamine_styles::style_parser::{
    apply_border, is_border_side, parse_alignment, parse_border, parse_border_style, parse_color, parse_fill,
    parse_fill_pattern, parse_font, parse_font_style, parse_font_weight, parse_horizontal_alignment,
    parse_ooxml_bool, parse_protection, parse_underline_style, parse_vertical_alignment, read_string,
};
use calamine_styles::xml::{XmlAttribute, XmlElement, XmlEvent};
use calamine_styles::xml_reader::{read_events, XmlConfig};

fn events_of(source: &[u8], expand: bool) -> Vec<XmlEvent> {
    read_events(source, XmlConfig { expand_empty_elements: expand, check_end_names: true })
}

fn first_start(events: &[XmlEvent]) -> XmlElement {
    match &events[0] {
        XmlEvent::Start(element) => element.clone(),
        event => panic!("expected a start tag, got {event:?}"),
    }
}

fn parse_font_xml(source: &[u8]) -> Result<Font, XlsxError> {
    let events = events_of(source, true);
    first_start(&events);
    parse_font(&events, 1, &default_theme_colors()).map(|(font, _)| font)
}

fn parse_border_xml(source: &[u8]) -> Result<Borders, XlsxError> {
    let events = events_of(source, false);
    let start = first_start(&events);
    parse_border(&events, 1, &start, &default_theme_colors()).map(|(borders, _)| borders)
}

fn parse_fill_xml(source: &[u8]) -> Result<Fill, XlsxError> {
    let events = events_of(source, true);
    first_start(&events);
    parse_fill(&events, 1, &default_theme_colors()).map(|(fill, _)| fill)
}

fn attribute(key: &str, value: &str) -> XmlAttribute {
    XmlAttribute { key: key.as_bytes().to_vec(), value: value.as_bytes().to_vec() }
}

fn element(name: &str, attributes: Vec<XmlAttribute>) -> XmlElement {
    XmlElement { name: name.as_bytes().to_vec(), attributes, malformed_attributes: false }
}

#[test]
fn indexed_colors_use_zero_based_ooxml_offsets() {
    assert_eq!(get_indexed_color(0), Color::rgb(0, 0, 0));
    assert_eq!(get_indexed_color(1), Color::rgb(255, 255, 255));
    assert_eq!(get_indexed_color(2), Color::rgb(255, 0, 0));
    assert_eq!(get_indexed_color(7), Color::rgb(0, 255, 255));
    assert_eq!(get_indexed_color(63), Color::rgb(51, 51, 51));
}

#[test]
fn theme_colors_use_ooxml_slot_order() {
    let theme = default_theme_colors();
    assert_eq!(get_theme_color(0, &theme), Color::rgb(0, 0, 0));
    assert_eq!(get_theme_color(1, &theme), Color::rgb(255, 255, 255));
    assert_eq!(get_theme_color(2, &theme), Color::rgb(31, 73, 125));
    assert_eq!(get_theme_color(3, &theme), Color::rgb(238, 236, 225));
    assert_eq!(get_theme_color(10, &theme), Color::rgb(0, 0, 255));
}

#[test]
fn font_family_uses_val_attribute() {
    let font = parse_font_xml(br#"<font><family val="2"/></font>"#).unwrap();
    assert_eq!(font.family.as_deref(), Some("2"));
}

#[test]
fn diagonal_direction_comes_from_parent_border_attributes() {
    let borders = parse_border_xml(
        br#"<border diagonalUp="1" diagonalDown="true"><diagonal style="thin"><color indexed="2"/></diagonal></border>"#,
    )
    .unwrap();

    assert_eq!(borders.diagonal_up.style, BorderStyle::Thin);
    assert_eq!(borders.diagonal_down.style, BorderStyle::Thin);
    assert_eq!(borders.diagonal_up.color, Some(Color::rgb(255, 0, 0)));
    assert_eq!(borders.diagonal_down.color, Some(Color::rgb(255, 0, 0)));
}

#[test]
fn self_closing_diagonal_side_retains_parent_direction() {
    let borders = parse_border_xml(br#"<border diagonalUp="1"><diagonal style="thin"/></border>"#).unwrap();

    assert_eq!(borders.diagonal_up.style, BorderStyle::Thin);
    assert_eq!(borders.diagonal_down.style, BorderStyle::NoBorder);
}

#[test]
fn malformed_diagonal_direction_is_rejected() {
    assert!(parse_border_xml(br#"<border diagonalUp="sometimes"><diagonal style="thin"/></border>"#,).is_err());
}

#[test]
fn colors_out_of_range_are_black() {
    let theme = default_theme_colors();
    assert_eq!(get_theme_color(12, &theme), Color::rgb(0, 0, 0));
    assert_eq!(get_theme_color(255, &theme), Color::rgb(0, 0, 0));
    assert_eq!(get_indexed_color(64), Color::rgb(0, 0, 0));
    assert_eq!(get_indexed_color(200), Color::rgb(0, 0, 0));
}

#[test]
fn color_from_rgb_argb_theme_and_index() {
    let theme = default_theme_colors();
    assert_eq!(parse_color(&[attribute("rgb", "FF0000")], &theme), Ok(Some(Color::rgb(255, 0, 0))));
    assert_eq!(parse_color(&[attribute("rgb", "80102030")], &theme), Ok(Some(Color::new(0x80, 0x10, 0x20, 0x30))));
    assert_eq!(parse_color(&[attribute("theme", "4")], &theme), Ok(Some(theme[4])));
    assert_eq!(parse_color(&[attribute("indexed", "3")], &theme), Ok(Some(Color::rgb(0, 255, 0))));
    assert_eq!(parse_color(&[attribute("auto", "1")], &theme), Ok(None));
}

#[test]
fn color_with_bad_hex_digits_is_an_error() {
    let theme = default_theme_colors();
    assert_eq!(
        parse_color(&[attribute("rgb", "GG0000")], &theme),
        Err(XlsxError::Unexpected(Unexpected::InvalidRedColor))
    );
    assert_eq!(
        parse_color(&[attribute("rgb", "zz000000")], &theme),
        Err(XlsxError::Unexpected(Unexpected::InvalidAlphaColor))
    );
}

#[test]
fn keyword_parsers() {
    assert_eq!(parse_font_weight(b"bold"), FontWeight::Bold);
    assert_eq!(parse_font_style(b"italic"), FontStyle::Italic);
    assert_eq!(parse_underline_style(b"double"), UnderlineStyle::Double);
    assert_eq!(parse_underline_style(b"none"), UnderlineStyle::NoUnderline);
    assert_eq!(parse_horizontal_alignment(b"center"), HorizontalAlignment::Center);
    assert_eq!(parse_vertical_alignment(b"top"), VerticalAlignment::Top);
    assert_eq!(parse_fill_pattern(b"solid"), FillPattern::Solid);
    assert_eq!(parse_fill_pattern(b"none"), FillPattern::NoFill);
    assert_eq!(parse_border_style(b"mediumDashed"), BorderStyle::MediumDashed);
    assert_eq!(parse_border_style(b"wavy"), BorderStyle::NoBorder);
}

#[test]
fn ooxml_booleans_are_exactly_four_spellings() {
    assert_eq!(parse_ooxml_bool(b"1"), Ok(true));
    assert_eq!(parse_ooxml_bool(b"true"), Ok(true));
    assert_eq!(parse_ooxml_bool(b"0"), Ok(false));
    assert_eq!(parse_ooxml_bool(b"false"), Ok(false));
    assert_eq!(parse_ooxml_bool(b"TRUE"), Err(XlsxError::Unexpected(Unexpected::InvalidOoxmlBoolean)));
    assert_eq!(parse_ooxml_bool(b"yes"), Err(XlsxError::Unexpected(Unexpected::InvalidOoxmlBoolean)));
}

#[test]
fn border_sides_and_apply_border() {
    assert!(is_border_side(b"left"));
    assert!(is_border_side(b"diagonal"));
    assert!(!is_border_side(b"color"));
    let mut borders = Borders::new();
    apply_border(&mut borders, b"top", Border::new(BorderStyle::Thick), false, false);
    assert_eq!(borders.top.style, BorderStyle::Thick);
    apply_border(&mut borders, b"diagonal", Border::new(BorderStyle::Hair), true, false);
    assert_eq!(borders.diagonal_down.style, BorderStyle::Hair);
    assert_eq!(borders.diagonal_up.style, BorderStyle::NoBorder);
    apply_border(&mut borders, b"outline", Border::new(BorderStyle::Thin), true, true);
    assert_eq!(borders.left.style, BorderStyle::NoBorder);
}

#[test]
fn border_without_diagonal_flags_ignores_the_diagonal() {
    let borders = parse_border_xml(
        br#"<border><left style="thin"/><right style="double"><color rgb="00FF00"/></right><diagonal style="thin"/></border>"#,
    )
    .unwrap();
    assert_eq!(borders.left.style, BorderStyle::Thin);
    assert_eq!(borders.right.style, BorderStyle::Double);
    assert_eq!(borders.right.color, Some(Color::rgb(0, 255, 0)));
    assert_eq!(borders.diagonal_up.style, BorderStyle::NoBorder);
    assert_eq!(borders.diagonal_down.style, BorderStyle::NoBorder);
}

#[test]
fn font_properties() {
    let font = parse_font_xml(
        br#"<font><b/><i/><u val="double"/><strike/><sz val="11.5"/><color theme="1"/><name val="Calibri"/></font>"#,
    )
    .unwrap();
    assert_eq!(font.weight, FontWeight::Bold);
    assert_eq!(font.style, FontStyle::Italic);
    assert_eq!(font.underline, UnderlineStyle::Double);
    assert!(font.strikethrough);
    assert_eq!(font.size.as_deref(), Some("11.5"));
    assert_eq!(font.name.as_deref(), Some("Calibri"));
    assert_eq!(font.color, Some(Color::rgb(255, 255, 255)));
    assert!(font.is_bold() && font.is_italic() && font.has_underline() && font.has_strikethrough());
}

#[test]
fn plain_font_keeps_defaults() {
    let font = parse_font_xml(br#"<font><name val="Arial"/></font>"#).unwrap();
    assert_eq!(font.weight, FontWeight::Normal);
    assert_eq!(font.style, FontStyle::Normal);
    assert_eq!(font.underline, UnderlineStyle::NoUnderline);
    assert!(!font.strikethrough);
    assert_eq!(font.size, None);
    assert_eq!(font.family, None);
}

#[test]
fn unterminated_font_is_an_error() {
    assert!(parse_font_xml(br#"<font><b/>"#).is_err());
}

#[test]
fn fill_pattern_and_colors() {
    let fill = parse_fill_xml(
        br#"<fill><patternFill patternType="solid"><fgColor rgb="FFFF0000"/><bgColor indexed="4"/></patternFill></fill>"#,
    )
    .unwrap();
    assert_eq!(fill.pattern, FillPattern::Solid);
    assert_eq!(fill.foreground_color, Some(Color::rgb(255, 0, 0)));
    assert_eq!(fill.background_color, Some(Color::rgb(0, 0, 255)));
    assert!(fill.is_visible());
}

#[test]
fn alignment_attributes_and_defaults() {
    let full = element(
        "alignment",
        vec![
            attribute("horizontal", "center"),
            attribute("vertical", "top"),
            attribute("wrapText", "1"),
            attribute("textRotation", "90"),
            attribute("indent", "2"),
            attribute("shrinkToFit", "true"),
        ],
    );
    let a = parse_alignment(&full).unwrap();
    assert_eq!(a.horizontal, HorizontalAlignment::Center);
    assert_eq!(a.vertical, VerticalAlignment::Top);
    assert!(a.wrap_text);
    assert_eq!(a.text_rotation, TextRotation::Degrees(90));
    assert_eq!(a.indent, 2);
    assert!(a.shrink_to_fit);

    let empty = element("alignment", vec![]);
    assert_eq!(parse_alignment(&empty).unwrap(), Alignment::new());

    let only_vertical = element("alignment", vec![attribute("vertical", "center")]);
    let b = parse_alignment(&only_vertical).unwrap();
    assert_eq!(b.horizontal, Alignment::new().horizontal);
    assert_eq!(b.vertical, VerticalAlignment::Center);
}

#[test]
fn malformed_alignment_attributes_are_an_error() {
    let mut e = element("alignment", vec![]);
    e.malformed_attributes = true;
    assert_eq!(parse_alignment(&e), Err(XlsxError::XmlAttr));
}

#[test]
fn protection_attributes() {
    let e = element("protection", vec![attribute("locked", "0"), attribute("hidden", "1")]);
    let p = parse_protection(&e).unwrap();
    assert_eq!(p, Protection { locked: false, hidden: true });
    assert_eq!(parse_protection(&element("protection", vec![])).unwrap(), Protection::new());
}

#[test]
fn string_content_with_entities() {
    let events = events_of(b"<name>A &amp; B&#33;</name>", true);
    let (text, _) = read_string(&events, 1, b"name").unwrap();
    assert_eq!(text.as_deref(), Some("A & B!"));
    let empty = events_of(b"<name></name>", true);
    let (none, _) = read_string(&empty, 1, b"name").unwrap();
    assert_eq!(none, None);
}

#[test]
fn tokenizer_ends_every_stream_with_eof() {
    let events = events_of(b"<a x=\"1\"><b/>text</a>", true);
    assert!(matches!(events.last(), Some(XmlEvent::Eof)));
    assert!(events.iter().all(|e| !matches!(e, XmlEvent::Empty(_))));
    let broken = events_of(b"<a><b></a>", false);
    assert!(broken.iter().any(|e| matches!(e, XmlEvent::Error(_))));
    assert!(matches!(broken.last(), Some(XmlEvent::Eof)));
}

#[test]
fn tint_darkens_and_lightens_a_theme_color() {
    let theme = default_theme_colors();
    assert_eq!(theme[4], Color::rgb(79, 129, 189));
    let darker = parse_color(&[attribute("theme", "4"), attribute("tint", "-0.5")], &theme).unwrap().unwrap();
    assert_eq!(darker, Color::rgb(37, 64, 97));
    assert_ne!(darker, theme[4]);
    let lighter = parse_color(&[attribute("tint", "0.5"), attribute("theme", "4")], &theme).unwrap().unwrap();
    assert_eq!(lighter, Color::rgb(167, 192, 222));
}

#[test]
fn tint_on_black_rgb_and_indexed_colors() {
    let theme = default_theme_colors();
    assert_eq!(
        parse_color(&[attribute("rgb", "FF000000"), attribute("tint", "0.5")], &theme),
        Ok(Some(Color::new(0xFF, 128, 128, 128)))
    );
    assert_eq!(
        parse_color(&[attribute("indexed", "1"), attribute("tint", "-1")], &theme),
        Ok(Some(Color::rgb(0, 0, 0)))
    );
    assert_eq!(
        parse_color(&[attribute("rgb", "336699"), attribute("tint", "0")], &theme),
        Ok(Some(Color::rgb(0x33, 0x66, 0x99)))
    );
}

#[test]
fn unreadable_tints_are_ignored() {
    let theme = default_theme_colors();
    for t in ["abc", "1.5", "-2", "0.", ".5", "1E1", "0.5e", "1e-12345", ""] {
        assert_eq!(parse_color(&[attribute("theme", "4"), attribute("tint", t)], &theme), Ok(Some(theme[4])));
    }
    assert_eq!(parse_color(&[attribute("tint", "0.5")], &theme), Ok(None));
}

#[test]
fn font_color_takes_its_tint() {
    let font = parse_font_xml(br#"<font><color theme="4" tint="-0.5"/></font>"#).unwrap();
    assert_eq!(font.color, Some(Color::rgb(37, 64, 97)));
}

#[test]
fn tint_in_exponent_form() {
    let theme = default_theme_colors();
    assert_eq!(
        parse_color(&[attribute("theme", "4"), attribute("tint", "-4.9989318521683403E-2")], &theme),
        Ok(Some(Color::rgb(69, 122, 185)))
    );
    assert_eq!(parse_color(&[attribute("theme", "4"), attribute("tint", "5E-1")], &theme), Ok(Some(Color::rgb(167, 192, 222))));
    assert_eq!(parse_color(&[attribute("theme", "4"), attribute("tint", "-5e-1")], &theme), Ok(Some(Color::rgb(37, 64, 97))));
    assert_eq!(parse_color(&[attribute("theme", "4"), attribute("tint", "0E5")], &theme), Ok(Some(theme[4])));
}
