use calamine_styles::cell_ref::{coordinate_to_name, get_dimension, get_row, get_row_column, replace_cell_names, Dimensions};
use calamine_styles::cells::{read_v, Cell, CellErrorType, CellFormat, CellValue, SharedString};
use calamine_styles::cells_reader::XlsxCellReader;
use calamine_styles::error::{EofContext, Unexpected, XlsxError};
use calamine_styles::style::{Font, FontWeight, HorizontalAlignment, Style};
use calamine_styles::style::Alignment;
use calamine_styles::xml::{XmlAttribute, XmlElement};
use calamine_styles::xml_reader::{read_events, XmlConfig};

const SHEET: &str = r#"<?xml version="1.0" encoding="UTF-8"?>
<worksheet xmlns="http://schemas.openxmlformats.org/spreadsheetml/2006/main">
<dimension ref="A1:C3"/>
<cols><col min="2" max="3" style="1"/></cols>
<sheetData>
<row r="1"><c r="A1" t="s"><v>0</v></c><c r="B1"><v>2.5</v></c><c t="b"><v>1</v></c></row>
<row r="2" s="2" customFormat="1"><c r="A2" t="str"><v>hi</v></c><c r="B2" s="0"><f>SUM(A1:A2)</f><v>3</v></c></row>
<row><c r="A3" t="inlineStr"><is><t>inline</t></is></c><c r="B3" t="e"><v>#N/A</v></c></row>
</sheetData>
</worksheet>"#;

const SHARED: &str = r#"<worksheet><sheetData>
<row r="1"><c r="A1"><f t="shared" ref="A1:A3" si="0">B1+C1</f><v>1</v></c></row>
<row r="2"><c r="A2"><f t="shared" si="0"/><v>2</v></c></row>
<row r="3"><c r="A3"><f t="shared" si="0"/></c></row>
<row r="4"><c r="A4"><f t="shared" si="0"/></c></row>
</sheetData></worksheet>"#;

fn sheet_events(source: &str) -> Vec<calamine_styles::xml::XmlEvent> {
    read_events(source.as_bytes(), XmlConfig { expand_empty_elements: true, check_end_names: false })
}

fn palette() -> Vec<Style> {
    let mut centered = Style::new();
    let mut alignment = Alignment::new();
    alignment.horizontal = HorizontalAlignment::Center;
    centered.alignment = Some(alignment);
    let mut bold = Style::new();
    let mut font = Font::new();
    font.weight = FontWeight::Bold;
    bold.font = Some(font);
    vec![Style::new(), centered, bold]
}

fn with_id(style: &Style, id: u32) -> Style {
    let mut s = style.clone();
    s.style_id = Some(id);
    s
}

fn open(source: &str) -> Result<XlsxCellReader, XlsxError> {
    XlsxCellReader::new(
        sheet_events(source),
        vec![
            SharedString::Text("first".to_string()),
            SharedString::RichText("rich".to_string()),
            SharedString::Other,
        ],
        vec![CellFormat::Other, CellFormat::DateTime, CellFormat::Other],
        palette(),
        false,
    )
}

fn text(s: &str) -> String {
    s.to_string()
}

fn collect_cells(reader: &mut XlsxCellReader) -> Vec<Cell<CellValue>> {
    let mut cells = Vec::new();
    while let Some(cell) = reader.next_cell().unwrap() {
        cells.push(cell);
    }
    cells
}

#[test]
fn header_gives_dimensions_and_styles() {
    let reader = open(SHEET).unwrap();
    assert_eq!(reader.dimensions(), Dimensions { start: (0, 0), end: (2, 2) });
    assert_eq!(reader.styles().len(), 3);
}

#[test]
fn cells_with_values_and_resolved_styles() {
    let mut reader = open(SHEET).unwrap();
    let styles = palette();
    let cells = collect_cells(&mut reader);
    assert_eq!(cells.len(), 7);

    assert_eq!(cells[0].pos, (0, 0));
    assert_eq!(cells[0].val, CellValue::SharedString(text("first")));
    assert_eq!(cells[0].style, Some(with_id(&styles[0], 0)));

    assert_eq!(cells[1].pos, (0, 1));
    assert_eq!(cells[1].val, CellValue::Number { text: text("2.5"), format: Some(CellFormat::DateTime) });
    assert_eq!(cells[1].style, Some(with_id(&styles[1], 1)));

    assert_eq!(cells[2].pos, (0, 2));
    assert_eq!(cells[2].val, CellValue::Bool(true));
    assert_eq!(cells[2].style, Some(with_id(&styles[1], 1)));

    assert_eq!(cells[3].pos, (1, 0));
    assert_eq!(cells[3].val, CellValue::String(text("hi")));
    assert_eq!(cells[3].style, Some(with_id(&styles[2], 2)));

    assert_eq!(cells[4].pos, (1, 1));
    assert_eq!(cells[4].val, CellValue::Number { text: text("3"), format: Some(CellFormat::Other) });
    assert_eq!(cells[4].style, Some(with_id(&styles[0], 0)));

    assert_eq!(cells[5].pos, (2, 0));
    assert_eq!(cells[5].val, CellValue::String(text("inline")));

    assert_eq!(cells[6].pos, (2, 1));
    assert_eq!(cells[6].val, CellValue::Error(CellErrorType::NA));
    assert_eq!(cells[6].style, Some(with_id(&styles[1], 1)));

    assert_eq!(reader.next_cell(), Err(XlsxError::XmlEof(EofContext::SheetData)));
}

#[test]
fn value_only_reads_the_same_cells_without_styles() {
    let mut styled = open(SHEET).unwrap();
    let mut plain = open(SHEET).unwrap();
    loop {
        let a = styled.next_cell().unwrap();
        let b = plain.next_cell_value_only().unwrap();
        match (a, b) {
            (Some(a), Some(b)) => {
                assert_eq!(a.pos, b.pos);
                assert_eq!(a.val, b.val);
                assert!(b.style.is_none());
            }
            (None, None) => break,
            _ => panic!("the two paths disagree"),
        }
    }
}

#[test]
fn formulas_with_styles() {
    let mut reader = open(SHEET).unwrap();
    let mut formulas = Vec::new();
    while let Some(cell) = reader.next_formula().unwrap() {
        assert!(cell.style.is_some());
        formulas.push((cell.pos, cell.val));
    }
    assert_eq!(formulas.len(), 7);
    assert_eq!(formulas[4], ((1, 1), text("SUM(A1:A2)")));
    assert_eq!(formulas[0], ((0, 0), text("")));
}

#[test]
fn formula_value_only_has_no_styles() {
    let mut reader = open(SHEET).unwrap();
    let mut count = 0;
    while let Some(cell) = reader.next_formula_value_only().unwrap() {
        assert!(cell.style.is_none());
        count += 1;
    }
    assert_eq!(count, 7);
}

#[test]
fn shared_formulas_move_with_the_cell() {
    let mut reader = open(SHARED).unwrap();
    let a1 = reader.next_formula().unwrap().unwrap();
    assert_eq!(a1.pos, (0, 0));
    assert_eq!(a1.val, text("B1+C1"));
    let a2 = reader.next_formula().unwrap().unwrap();
    assert_eq!(a2.pos, (1, 0));
    assert_eq!(a2.val, text("B2+C2"));
    let a3 = reader.next_formula().unwrap().unwrap();
    assert_eq!(a3.val, text("B3+C3"));
    let a4 = reader.next_formula().unwrap().unwrap();
    assert_eq!(a4.pos, (3, 0));
    assert_eq!(a4.val, text(""));
    assert!(reader.next_formula().unwrap().is_none());
}

#[test]
fn shared_formula_needs_a_numeric_index() {
    let missing = r#"<worksheet><sheetData><row><c><f t="shared">A1</f></c></row></sheetData></worksheet>"#;
    let mut reader = open(missing).unwrap();
    assert_eq!(reader.next_formula(), Err(XlsxError::Unexpected(Unexpected::SharedIndexMissing)));
    let bad = r#"<worksheet><sheetData><row><c><f t="shared" si="x">A1</f></c></row></sheetData></worksheet>"#;
    let mut reader = open(bad).unwrap();
    assert_eq!(reader.next_formula(), Err(XlsxError::Unexpected(Unexpected::SharedIndexNotNumber)));
}

#[test]
fn styles_of_every_cell() {
    let mut reader = open(SHEET).unwrap();
    let styles = palette();
    let mut got = Vec::new();
    while let Some(cell) = reader.next_style().unwrap() {
        got.push(cell);
    }
    assert_eq!(got.len(), 7);
    assert_eq!(got[0].pos, (0, 0));
    assert_eq!(got[0].val, Style::new());
    assert_eq!(got[1].val, with_id(&styles[1], 1));
    assert_eq!(got[3].val, with_id(&styles[2], 2));
    assert_eq!(got[4].val, with_id(&styles[0], 0));
    assert!(got.iter().all(|c| c.style.is_none()));
}

#[test]
fn style_ids_skip_unstyled_cells() {
    let mut reader = open(SHEET).unwrap();
    let mut ids = Vec::new();
    while let Some(t) = reader.next_style_id().unwrap() {
        ids.push(t);
    }
    assert_eq!(ids, vec![(0, 1, 1), (0, 2, 1), (1, 0, 2), (1, 1, 0), (2, 1, 1)]);
}

#[test]
fn row_style_needs_custom_format() {
    let sheet = r#"<worksheet><sheetData><row r="1" s="2"><c r="A1"><v>1</v></c></row><row r="2" s="2" customFormat="true"><c r="A2"><v>1</v></c></row></sheetData></worksheet>"#;
    let mut reader = open(sheet).unwrap();
    assert_eq!(reader.next_style_id().unwrap(), Some((1, 0, 2)));
    assert_eq!(reader.next_style_id().unwrap(), None);
}

#[test]
fn explicit_style_out_of_palette_is_dropped() {
    let sheet = r#"<worksheet><sheetData><row r="1" s="2" customFormat="1"><c r="A1" s="9"><v>1</v></c></row></sheetData></worksheet>"#;
    let mut reader = open(sheet).unwrap();
    let cell = reader.next_cell().unwrap().unwrap();
    assert_eq!(cell.style, None);
    let mut again = open(sheet).unwrap();
    assert_eq!(again.next_style_id().unwrap(), None);
}

#[test]
fn cells_without_references_follow_the_counters() {
    let sheet = r#"<worksheet><sheetData><row><c><v>1</v></c><c><v>2</v></c></row><row><c r="C5"><v>3</v></c><c><v>4</v></c></row></sheetData></worksheet>"#;
    let mut reader = open(sheet).unwrap();
    let cells = collect_cells(&mut reader);
    let positions: Vec<(u32, u32)> = cells.iter().map(|c| c.pos).collect();
    assert_eq!(positions, vec![(0, 0), (0, 1), (4, 2), (1, 3)]);
}

#[test]
fn part_without_sheet_data_is_not_a_worksheet() {
    let chart = r#"<chartsheet><sheetPr/></chartsheet>"#;
    assert_eq!(open(chart).err(), Some(XlsxError::NotAWorksheet(text("chartsheet"))));
    assert_eq!(open("").err(), Some(XlsxError::XmlEof(EofContext::SheetData)));
}

#[test]
fn cell_errors() {
    let unknown_type = r#"<worksheet><sheetData><row><c r="A1" t="x"><v>1</v></c></row></sheetData></worksheet>"#;
    assert_eq!(open(unknown_type).unwrap().next_cell(), Err(XlsxError::CellTAttribute(text("x"))));
    let bad_error = r#"<worksheet><sheetData><row><c r="A1" t="e"><v>#BAD</v></c></row></sheetData></worksheet>"#;
    assert_eq!(open(bad_error).unwrap().next_cell(), Err(XlsxError::CellError(text("#BAD"))));
    let bad_number = r#"<worksheet><sheetData><row><c r="A1" t="n"><v>abc</v></c></row></sheetData></worksheet>"#;
    assert_eq!(open(bad_number).unwrap().next_cell(), Err(XlsxError::ParseFloat));
    let bad_child = r#"<worksheet><sheetData><row><c r="A1"><x/></c></row></sheetData></worksheet>"#;
    assert_eq!(open(bad_child).unwrap().next_cell(), Err(XlsxError::UnexpectedNode));
    let unterminated = r#"<worksheet><sheetData><row><c r="A1"><v>1</v>"#;
    assert_eq!(open(unterminated).unwrap().next_cell(), Err(XlsxError::XmlEof(EofContext::Cell)));
    let no_end = r#"<worksheet><sheetData><row>"#;
    assert_eq!(open(no_end).unwrap().next_cell(), Err(XlsxError::XmlEof(EofContext::SheetData)));
    let missing_string = r#"<worksheet><sheetData><row><c r="A1" t="s"><v>7</v></c></row></sheetData></worksheet>"#;
    assert_eq!(
        open(missing_string).unwrap().next_cell(),
        Err(XlsxError::Unexpected(Unexpected::SharedStringIndexMissing))
    );
}

#[test]
fn typed_values() {
    let c = |t: Option<&str>| XmlElement {
        name: b"c".to_vec(),
        attributes: match t {
            Some(t) => vec![XmlAttribute { key: b"t".to_vec(), value: t.as_bytes().to_vec() }],
            None => vec![],
        },
        malformed_attributes: false,
    };
    let strings = vec![SharedString::Text(text("s0")), SharedString::RichText(text("r1"))];
    let formats = vec![CellFormat::TimeDelta];
    assert_eq!(read_v(text("1"), &strings, &formats, &c(Some("s")), None), Ok(CellValue::SharedRichText(text("r1"))));
    assert_eq!(read_v(text("0"), &strings, &formats, &c(Some("b")), None), Ok(CellValue::Bool(false)));
    assert_eq!(
        read_v(text("2024-01-02"), &strings, &formats, &c(Some("d")), None),
        Ok(CellValue::DateTimeIso(text("2024-01-02")))
    );
    assert_eq!(read_v(text(""), &strings, &formats, &c(Some("n")), Some(0)), Ok(CellValue::Empty));
    assert_eq!(
        read_v(text("-1e3"), &strings, &formats, &c(None), Some(0)),
        Ok(CellValue::Number { text: text("-1e3"), format: Some(CellFormat::TimeDelta) })
    );
    assert_eq!(read_v(text("abc"), &strings, &formats, &c(None), None), Ok(CellValue::String(text("abc"))));
    assert_eq!(
        read_v(text("x"), &strings, &formats, &c(Some("inlineStr")), None),
        Err(XlsxError::CellTAttribute(text("inlineStr")))
    );
    assert_eq!(
        read_v(text("x"), &strings, &formats, &c(Some("is")), None),
        Err(XlsxError::Unexpected(Unexpected::InlineStringType))
    );
}

#[test]
fn cell_references() {
    assert_eq!(get_row_column(b"B3"), Ok((2, 1)));
    assert_eq!(get_row_column(b"AA10"), Ok((9, 26)));
    assert_eq!(get_row(b"7"), Ok(6));
    assert_eq!(get_dimension(b"A1:C3"), Ok(Dimensions { start: (0, 0), end: (2, 2) }));
    assert_eq!(get_dimension(b"D4"), Ok(Dimensions { start: (3, 3), end: (3, 3) }));
    assert_eq!(get_dimension(b"A1:B2:C3"), Err(XlsxError::DimensionCount(3)));
    assert_eq!(coordinate_to_name(0, 0), Ok(b"A1".to_vec()));
    assert_eq!(coordinate_to_name(9, 27), Ok(b"AB10".to_vec()));
}

#[test]
fn cell_names_move_outside_string_literals() {
    assert_eq!(replace_cell_names("SUM(A1:B2)", (1, 1)), Ok(text("SUM(B2:C3)")));
    assert_eq!(replace_cell_names("\"A1\"&A1", (1, 0)), Ok(text("\"A1\"&A2")));
    assert_eq!(replace_cell_names("A1", (0, 0)), Ok(text("A1")));
}

#[test]
fn failed_reads_keep_the_sheet_and_agree() {
    let sheet = r#"<worksheet><dimension ref="A1:B2"/><sheetData><row><c r="A1" t="x"><v>1</v></c><c r="B1"><v>2</v></c></row></sheetData></worksheet>"#;
    let mut styled = open(sheet).unwrap();
    let mut plain = open(sheet).unwrap();
    assert_eq!(styled.next_cell(), Err(XlsxError::CellTAttribute(text("x"))));
    assert_eq!(plain.next_cell_value_only(), Err(XlsxError::CellTAttribute(text("x"))));
    assert_eq!(styled.dimensions(), Dimensions { start: (0, 0), end: (1, 1) });
    assert_eq!(styled.styles().len(), 3);
    // Both readers are left at the failing cell, so both meet it again.
    assert_eq!(styled.next_cell(), Err(XlsxError::CellTAttribute(text("x"))));
    assert_eq!(plain.next_cell_value_only(), Err(XlsxError::CellTAttribute(text("x"))));
    assert_eq!(plain.dimensions(), Dimensions { start: (0, 0), end: (1, 1) });
}

#[test]
fn style_id_drain_is_the_styled_part_of_the_style_drain() {
    let mut styled = open(SHEET).unwrap();
    let mut ids = open(SHEET).unwrap();
    let mut expected = Vec::new();
    while let Some(cell) = styled.next_style().unwrap() {
        if let Some(id) = cell.val.style_id {
            expected.push((cell.pos.0, cell.pos.1, id as usize));
        }
    }
    let mut got = Vec::new();
    while let Some(t) = ids.next_style_id().unwrap() {
        got.push(t);
    }
    assert_eq!(got, expected);
}
