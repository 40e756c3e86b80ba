//! The streaming worksheet reader: cells, formulas and cell styles of
//! `xl/worksheets/sheetN.xml`, one cell at a time.

use vstd::prelude::*;
use vstd::string::StringSliceAdditionalSpecFns;
use vstd::utf8::{decode_utf8, encode_utf8, valid_utf8};
use crate::style::{spec_style_new, text_view, Style};
use crate::text::utf8_str;
use crate::cell_ref::{get_dimension, replace_cell_names, spec_get_dimension, spec_replace_cell_names, spec_worksheet_column_span, worksheet_column_span, Dimensions, MAX_COLUMNS};
use crate::cell_content::{cell_formula_map_after, lemma_skip_cell_bounds, cell_formula_from, cell_value_from, formula_map, read_cell_formula, read_cell_value, skip_cell, skip_cell_from, text_of, SharedFormula, SharedFormulaView};
use crate::cells::{lemma_row_state_style, row_state, spec_row_state, cell_position, spec_cell_position, resolved_cell_style_id, spec_resolved_cell_style_id, attached_style, spec_attached_style, indexed_style, spec_indexed_style, Cell, palette_index, palette_index_exec, error_matches, read_v, spec_read_v, CellFormat, CellValue, CellValueView, ReadError, SharedString};
use crate::error::{EofContext, Unexpected, XlsxError};
use crate::keywords::{KW_C, KW_ROW, KW_COL, KW_DIMENSION, KW_F, KW_IS, KW_MAX, KW_MIN, KW_R, KW_REF, KW_R_PH, KW_SHARED, KW_SHEET_DATA, KW_SI, KW_STYLE, KW_T, KW_V};
use crate::numbers::{atoi_u32, atoi_usize, atoi_usize_max_len, spec_atoi};
use crate::stream::{lemma_read_text_bounds, lemma_skip_to_end_bounds, read_text, read_text_from, read_to_end, skip_to_end_from};
use crate::xml::{bytes_eq, events_wf, get_attribute, local_name, spec_get_attribute, spec_local_name, XmlElement, XmlEvent};

verus! {

/// The text of an inline string read from event `i` up to the end tag named
/// `closing`: the texts of its `t` elements in order (phonetic `rPh` runs
/// skipped), whether one was present, and whether formatting runs (`r`) were.
pub open spec fn inline_from(
    evs: Seq<XmlEvent>,
    i: int,
    closing: Seq<u8>,
    text: Seq<char>,
    found: bool,
    rich: bool,
) -> Result<(Seq<char>, bool, bool, int), XlsxError>
    decreases evs.len() - i when events_wf(evs)
{
    if i < 0 || i >= evs.len() {
        Err(XlsxError::XmlEof(EofContext::InlineString))
    } else {
        match evs[i] {
            XmlEvent::Start(e) => {
                let ln = spec_local_name(e.name@);
                if ln == KW_T@ {
                    match read_text_from(evs, i + 1, e.name@, false, EofContext::InlineString, Seq::empty()) {
                        Err(x) => Err(x),
                        Ok((t, j)) => {
                            proof {
                                lemma_read_text_bounds(evs, i + 1, e.name@, false, EofContext::InlineString, Seq::empty());
                            }
                            inline_from(evs, j, closing, text + t, true, rich)
                        },
                    }
                } else if ln == KW_R_PH@ {
                    match skip_to_end_from(evs, i + 1, e.name@, 0) {
                        Err(x) => Err(x),
                        Ok(j) => {
                            proof {
                                lemma_skip_to_end_bounds(evs, i + 1, e.name@, 0);
                            }
                            inline_from(evs, j, closing, text, found, rich)
                        },
                    }
                } else if ln == KW_R@ {
                    inline_from(evs, i + 1, closing, text, found, true)
                } else {
                    inline_from(evs, i + 1, closing, text, found, rich)
                }
            },
            XmlEvent::End(n) => if n@ == closing {
                Ok((text, found, rich, i + 1))
            } else {
                inline_from(evs, i + 1, closing, text, found, rich)
            },
            XmlEvent::Eof => Err(XlsxError::XmlEof(EofContext::InlineString)),
            XmlEvent::Error(e) => Err(XlsxError::Xml(e)),
            _ => inline_from(evs, i + 1, closing, text, found, rich),
        }
    }
}

pub proof fn lemma_inline_bounds(evs: Seq<XmlEvent>, i: int, closing: Seq<u8>, text: Seq<char>, found: bool, rich: bool)
    requires
        events_wf(evs),
    ensures
        inline_from(evs, i, closing, text, found, rich) matches Ok((_, _, _, j)) ==> i < j < evs.len(),
    decreases evs.len() - i,
{
    if 0 <= i < evs.len() {
        match evs[i] {
            XmlEvent::Start(e) => {
                lemma_read_text_bounds(evs, i + 1, e.name@, false, EofContext::InlineString, Seq::empty());
                lemma_skip_to_end_bounds(evs, i + 1, e.name@, 0);
                if let Ok((t, j)) = read_text_from(evs, i + 1, e.name@, false, EofContext::InlineString, Seq::empty()) {
                    lemma_inline_bounds(evs, j, closing, text + t, true, rich);
                }
                if let Ok(j) = skip_to_end_from(evs, i + 1, e.name@, 0) {
                    lemma_inline_bounds(evs, j, closing, text, found, rich);
                }
                lemma_inline_bounds(evs, i + 1, closing, text, found, true);
                lemma_inline_bounds(evs, i + 1, closing, text, found, rich);
            },
            XmlEvent::Eof => {},
            XmlEvent::Error(_) => {},
            _ => {
                lemma_inline_bounds(evs, i + 1, closing, text, found, rich);
            },
        }
    }
}

/// The value of an inline string (`<is>`): plain or rich text, or nothing
/// when it holds no `t` element.
pub open spec fn spec_inline_value(evs: Seq<XmlEvent>, i: int, closing: Seq<u8>) -> Result<(CellValueView, int), XlsxError> {
    match inline_from(evs, i, closing, Seq::empty(), false, false) {
        Err(x) => Err(x),
        Ok((text, found, rich, j)) => Ok((
            if !found {
                CellValueView::Empty
            } else if rich {
                CellValueView::RichText(text)
            } else {
                CellValueView::String(text)
            },
            j,
        )),
    }
}

/// Reads an inline string from the events after `<is>`.
pub fn read_inline_string(evs: &Vec<XmlEvent>, pos: usize, closing: &[u8]) -> (r: Result<(CellValue, usize), XlsxError>)
    requires
        events_wf(evs@),
        pos < evs@.len(),
    ensures
        match (r, spec_inline_value(evs@, pos as int, closing@)) {
            (Ok((v, p)), Ok((w, q))) => v@ == w && p == q && pos < p < evs@.len(),
            (Err(x), Err(y)) => x == y,
            _ => false,
        },
{
    let mut text = String::new();
    let mut found = false;
    let mut rich = false;
    let mut i = pos;
    proof {
        lemma_inline_bounds(evs@, pos as int, closing@, Seq::empty(), false, false);
    }
    while i < evs.len()
        invariant
            events_wf(evs@),
            pos <= i < evs@.len(),
            inline_from(evs@, pos as int, closing@, Seq::empty(), false, false)
                == inline_from(evs@, i as int, closing@, text@, found, rich),
            inline_from(evs@, pos as int, closing@, Seq::empty(), false, false) matches Ok((_, _, _, j))
                ==> pos < j < evs@.len(),
        decreases evs@.len() - i,
    {
        let k_t = KW_T;
        let k_rph = KW_R_PH;
        let k_r = KW_R;
        match &evs[i] {
            XmlEvent::Start(e) => {
                let ln = local_name(e.name.as_slice());
                if bytes_eq(ln, &k_t) {
                    proof {
                        lemma_read_text_bounds(evs@, i + 1, e.name@, false, EofContext::InlineString, Seq::empty());
                    }
                    match read_text(evs, i + 1, e.name.as_slice(), false, EofContext::InlineString) {
                        Err(x) => {
                            return Err(x);
                        },
                        Ok((t, j)) => {
                            text.append(t.as_str());
                            found = true;
                            i = j;
                        },
                    }
                } else if bytes_eq(ln, &k_rph) {
                    match read_to_end(evs, i + 1, e.name.as_slice()) {
                        Err(x) => {
                            return Err(x);
                        },
                        Ok(j) => {
                            i = j;
                        },
                    }
                } else {
                    if bytes_eq(ln, &k_r) {
                        rich = true;
                    }
                    i = i + 1;
                }
            },
            XmlEvent::End(n) => {
                if bytes_eq(n.as_slice(), closing) {
                    let value = if !found {
                        CellValue::Empty
                    } else if rich {
                        CellValue::RichText(text)
                    } else {
                        CellValue::String(text)
                    };
                    return Ok((value, i + 1));
                }
                i = i + 1;
            },
            XmlEvent::Eof => {
                return Err(XlsxError::XmlEof(EofContext::InlineString));
            },
            XmlEvent::Error(e) => {
                return Err(XlsxError::Xml(e.copy()));
            },
            _ => {
                i = i + 1;
            },
        }
    }
    Err(XlsxError::XmlEof(EofContext::InlineString))
}

/// The value that one child element `e` of a cell gives, its content read
/// from event `i` on: `is` an inline string, `v` the value text as
/// `spec_read_v` reads it, `f` nothing (the formula is skipped); any other
/// child is an error. Also the index after the child.
pub open spec fn spec_read_value(
    evs: Seq<XmlEvent>,
    i: int,
    e: XmlElement,
    strings: Seq<SharedString>,
    formats: Seq<CellFormat>,
    c: XmlElement,
    style_id: Option<usize>,
) -> Result<(CellValueView, int), ReadError> {
    let ln = spec_local_name(e.name@);
    if ln == KW_IS@ {
        match spec_inline_value(evs, i, e.name@) {
            Err(x) => Err(ReadError::Exact(x)),
            Ok((v, j)) => Ok((v, j)),
        }
    } else if ln == KW_V@ {
        match read_text_from(evs, i, e.name@, false, EofContext::Value, Seq::empty()) {
            Err(x) => Err(ReadError::Exact(x)),
            Ok((t, j)) => match spec_read_v(t, strings, formats, c, style_id) {
                Err(x) => Err(x),
                Ok(v) => Ok((v, j)),
            },
        }
    } else if ln == KW_F@ {
        match skip_to_end_from(evs, i, e.name@, 0) {
            Err(x) => Err(ReadError::Exact(x)),
            Ok(j) => Ok((CellValueView::Empty, j)),
        }
    } else {
        Err(ReadError::Exact(XlsxError::UnexpectedNode))
    }
}

pub proof fn lemma_read_value_bounds(
    evs: Seq<XmlEvent>,
    i: int,
    e: XmlElement,
    strings: Seq<SharedString>,
    formats: Seq<CellFormat>,
    c: XmlElement,
    style_id: Option<usize>,
)
    requires
        events_wf(evs),
    ensures
        spec_read_value(evs, i, e, strings, formats, c, style_id) matches Ok((_, j)) ==> i < j < evs.len(),
{
    lemma_inline_bounds(evs, i, e.name@, Seq::empty(), false, false);
    lemma_read_text_bounds(evs, i, e.name@, false, EofContext::Value, Seq::empty());
    lemma_skip_to_end_bounds(evs, i, e.name@, 0);
}

/// An executable parse result agrees with a specified one, values compared by view.
pub open spec fn value_parse_agrees(r: Result<(CellValue, usize), XlsxError>, s: Result<(CellValueView, int), ReadError>) -> bool {
    match (r, s) {
        (Ok((v, p)), Ok((w, q))) => v@ == w && p as int == q,
        (Err(x), Err(y)) => error_matches(x, y),
        _ => false,
    }
}

/// Reads the value that the cell child `e` (whose content starts at `pos`) gives.
pub fn read_value(
    evs: &Vec<XmlEvent>,
    pos: usize,
    e: &XmlElement,
    strings: &Vec<SharedString>,
    formats: &Vec<CellFormat>,
    c: &XmlElement,
    style_id: Option<usize>,
) -> (r: Result<(CellValue, usize), XlsxError>)
    requires
        events_wf(evs@),
        pos < evs@.len(),
    ensures
        value_parse_agrees(r, spec_read_value(evs@, pos as int, *e, strings@, formats@, *c, style_id)),
        r matches Ok((_, p)) ==> pos < p < evs@.len(),
{
    proof {
        lemma_read_value_bounds(evs@, pos as int, *e, strings@, formats@, *c, style_id);
    }
    let k_is = KW_IS;
    let k_v = KW_V;
    let k_f = KW_F;
    let ln = local_name(e.name.as_slice());
    if bytes_eq(ln, &k_is) {
        read_inline_string(evs, pos, e.name.as_slice())
    } else if bytes_eq(ln, &k_v) {
        match read_text(evs, pos, e.name.as_slice(), false, EofContext::Value) {
            Err(x) => Err(x),
            Ok((t, j)) => match read_v(t, strings, formats, c, style_id) {
                Err(x) => Err(x),
                Ok(v) => Ok((v, j)),
            },
        }
    } else if bytes_eq(ln, &k_f) {
        match read_to_end(evs, pos, e.name.as_slice()) {
            Err(x) => Err(x),
            Ok(j) => Ok((CellValue::Empty, j)),
        }
    } else {
        Err(XlsxError::UnexpectedNode)
    }
}

/// The formula that one child element `e` of a cell gives, its content read
/// from event `i` on: `f` its text; `v` and `is` nothing (they are skipped);
/// any other child is an error. Also the index after the child.
pub open spec fn spec_read_formula(evs: Seq<XmlEvent>, i: int, e: XmlElement) -> Result<(Option<Seq<char>>, int), XlsxError> {
    let ln = spec_local_name(e.name@);
    if ln == KW_IS@ || ln == KW_V@ {
        match skip_to_end_from(evs, i, e.name@, 0) {
            Err(x) => Err(x),
            Ok(j) => Ok((None, j)),
        }
    } else if ln == KW_F@ {
        match read_text_from(evs, i, e.name@, false, EofContext::Formula, Seq::empty()) {
            Err(x) => Err(x),
            Ok((t, j)) => Ok((Some(t), j)),
        }
    } else {
        Err(XlsxError::UnexpectedNode)
    }
}

/// Reads the formula text of the cell child `e` (whose content starts at `pos`).
pub fn read_formula(evs: &Vec<XmlEvent>, pos: usize, e: &XmlElement) -> (r: Result<(Option<String>, usize), XlsxError>)
    requires
        events_wf(evs@),
        pos < evs@.len(),
    ensures
        match (r, spec_read_formula(evs@, pos as int, *e)) {
            (Ok((Some(f), p)), Ok((Some(g), q))) => f@ == g && p == q,
            (Ok((None, p)), Ok((None, q))) => p == q,
            (Err(x), Err(y)) => x == y,
            _ => false,
        },
        r matches Ok((_, p)) ==> pos < p < evs@.len(),
{
    proof {
        lemma_read_text_bounds(evs@, pos as int, e.name@, false, EofContext::Formula, Seq::empty());
        lemma_skip_to_end_bounds(evs@, pos as int, e.name@, 0);
    }
    let k_is = KW_IS;
    let k_v = KW_V;
    let k_f = KW_F;
    let ln = local_name(e.name.as_slice());
    if bytes_eq(ln, &k_is) || bytes_eq(ln, &k_v) {
        match read_to_end(evs, pos, e.name.as_slice()) {
            Err(x) => Err(x),
            Ok(j) => Ok((None, j)),
        }
    } else if bytes_eq(ln, &k_f) {
        match read_text(evs, pos, e.name.as_slice(), false, EofContext::Formula) {
            Err(x) => Err(x),
            Ok((t, j)) => Ok((Some(t), j)),
        }
    } else {
        Err(XlsxError::UnexpectedNode)
    }
}

/// Everything the reader holds, as plain values.
pub struct ReaderState {
    pub events: Seq<XmlEvent>,
    pub pos: int,
    pub strings: Seq<SharedString>,
    pub formats: Seq<CellFormat>,
    pub styles: Seq<Style>,
    pub is_1904: bool,
    pub dimensions: Dimensions,
    pub row_index: u32,
    pub col_index: u32,
    pub row_style: Option<usize>,
    pub column_styles: Seq<Option<usize>>,
    pub formulas: Map<usize, SharedFormulaView>,
}

/// An xlsx Cell Iterator
pub struct XlsxCellReader {
    events: Vec<XmlEvent>,
    pos: usize,
    strings: Vec<SharedString>,
    formats: Vec<CellFormat>,
    styles: Vec<Style>,
    is_1904: bool,
    dimensions: Dimensions,
    row_index: u32,
    col_index: u32,
    row_style: Option<usize>,
    column_styles: Vec<Option<usize>>,
    formulas: Vec<(usize, SharedFormula)>,
}

/// The event stream, ended by `Eof` when it does not end so already.
pub open spec fn terminated(evs: Seq<XmlEvent>) -> Seq<XmlEvent> {
    if events_wf(evs) {
        evs
    } else {
        evs.push(XmlEvent::Eof)
    }
}

/// The column styles after the columns `first..=last` get `style`.
pub open spec fn styled_columns(cs: Seq<Option<usize>>, first: u32, last: u32, style: usize) -> Seq<Option<usize>> {
    Seq::new(cs.len(), |k: int| if first <= k <= last { Some(style) } else { cs[k] })
}

/// The column styles before any `col` element: none at all.
pub open spec fn no_column_styles() -> Seq<Option<usize>> {
    Seq::new(MAX_COLUMNS as nat, |k: int| None)
}

/// An optional number attribute read as `atoi_simd` reads a `u32`.
pub open spec fn u32_attribute(v: Option<Seq<u8>>) -> Option<u32> {
    match v {
        Some(b) => match spec_atoi(b, 16, u32::MAX as nat) {
            Some(n) => Some(n as u32),
            None => None,
        },
        None => None,
    }
}

/// The worksheet header read from event `i` up to `<sheetData>`: the last
/// `dimension` range, and the column styles that `col` elements give (a
/// `col` needs a `min` and a valid `style`). Also the index after
/// `<sheetData>`. A document without `sheetData` is no worksheet; the error
/// names its first other element.
pub open spec fn header_from(
    evs: Seq<XmlEvent>,
    i: int,
    styles_len: nat,
    dims: Dimensions,
    sheet_type: Option<Seq<char>>,
    cs: Seq<Option<usize>>,
) -> Result<(Dimensions, Seq<Option<usize>>, int), ReadError>
    decreases evs.len() - i,
{
    if i < 0 || i >= evs.len() {
        Err(ReadError::Exact(XlsxError::XmlEof(EofContext::SheetData)))
    } else {
        match evs[i] {
            XmlEvent::Start(e) => {
                let ln = spec_local_name(e.name@);
                if ln == KW_DIMENSION@ {
                    match spec_get_attribute(e, KW_REF@) {
                        Err(x) => Err(ReadError::Exact(x)),
                        Ok(Some(v)) => match spec_get_dimension(v) {
                            Err(x) => Err(ReadError::Exact(x)),
                            Ok(d) => header_from(evs, i + 1, styles_len, d, sheet_type, cs),
                        },
                        Ok(None) => header_from(evs, i + 1, styles_len, dims, sheet_type, cs),
                    }
                } else if ln == KW_COL@ {
                    match (spec_get_attribute(e, KW_MIN@), spec_get_attribute(e, KW_MAX@), spec_get_attribute(e, KW_STYLE@)) {
                        (Err(x), _, _) => Err(ReadError::Exact(x)),
                        (_, Err(x), _) => Err(ReadError::Exact(x)),
                        (_, _, Err(x)) => Err(ReadError::Exact(x)),
                        (Ok(mn), Ok(mx), Ok(sv)) => {
                            let min = u32_attribute(mn);
                            let max = u32_attribute(mx);
                            let style = match sv {
                                Some(v) => palette_index(v, styles_len),
                                None => None,
                            };
                            if min is Some && style is Some {
                                let cs0 = if cs.len() == 0 { no_column_styles() } else { cs };
                                match spec_worksheet_column_span(min.unwrap(), max) {
                                    Err(x) => Err(ReadError::Exact(x)),
                                    Ok((first, last)) => header_from(
                                        evs,
                                        i + 1,
                                        styles_len,
                                        dims,
                                        sheet_type,
                                        styled_columns(cs0, first, last, style.unwrap()),
                                    ),
                                }
                            } else {
                                header_from(evs, i + 1, styles_len, dims, sheet_type, cs)
                            }
                        },
                    }
                } else if ln == KW_SHEET_DATA@ {
                    Ok((dims, cs, i + 1))
                } else {
                    let st = if sheet_type is None {
                        if valid_utf8(ln) { Some(decode_utf8(ln)) } else { None }
                    } else {
                        sheet_type
                    };
                    header_from(evs, i + 1, styles_len, dims, st, cs)
                }
            },
            XmlEvent::Eof => match sheet_type {
                Some(t) => Err(ReadError::NotAWorksheet(t)),
                None => Err(ReadError::Exact(XlsxError::XmlEof(EofContext::SheetData))),
            },
            XmlEvent::Error(e) => Err(ReadError::Exact(XlsxError::Xml(e))),
            _ => header_from(evs, i + 1, styles_len, dims, sheet_type, cs),
        }
    }
}

pub proof fn lemma_header_bounds(
    evs: Seq<XmlEvent>,
    i: int,
    styles_len: nat,
    dims: Dimensions,
    sheet_type: Option<Seq<char>>,
    cs: Seq<Option<usize>>,
)
    requires
        events_wf(evs),
        0 <= i,
        cs.len() == 0 || cs.len() == MAX_COLUMNS,
        forall|k: int| 0 <= k < cs.len() ==> (#[trigger] cs[k] matches Some(id) ==> id < styles_len),
    ensures
        header_from(evs, i, styles_len, dims, sheet_type, cs) matches Ok((_, cs2, j)) ==> {
            &&& i < j < evs.len()
            &&& cs2.len() == 0 || cs2.len() == MAX_COLUMNS
            &&& forall|k: int| 0 <= k < cs2.len() ==> (#[trigger] cs2[k] matches Some(id) ==> id < styles_len)
        },
    decreases evs.len() - i,
{
    if i < evs.len() {
        match evs[i] {
            XmlEvent::Start(e) => {
                let ln = spec_local_name(e.name@);
                if ln == KW_DIMENSION@ {
                    if let Ok(Some(v)) = spec_get_attribute(e, KW_REF@) {
                        if let Ok(d) = spec_get_dimension(v) {
                            lemma_header_bounds(evs, i + 1, styles_len, d, sheet_type, cs);
                        }
                    }
                    lemma_header_bounds(evs, i + 1, styles_len, dims, sheet_type, cs);
                } else if ln == KW_COL@ {
                    if let (Ok(mn), Ok(mx), Ok(sv)) = (spec_get_attribute(e, KW_MIN@), spec_get_attribute(e, KW_MAX@), spec_get_attribute(e, KW_STYLE@)) {
                        let min = u32_attribute(mn);
                        let max = u32_attribute(mx);
                        let style = match sv {
                            Some(v) => palette_index(v, styles_len),
                            None => None,
                        };
                        if min is Some && style is Some {
                            let cs0 = if cs.len() == 0 { no_column_styles() } else { cs };
                            if let Ok((first, last)) = spec_worksheet_column_span(min.unwrap(), max) {
                                let cs1 = styled_columns(cs0, first, last, style.unwrap());
                                assert forall|k: int| 0 <= k < cs1.len() implies (#[trigger] cs1[k] matches Some(id) ==> id < styles_len) by {
                                    if !(first <= k <= last) {
                                        assert(cs1[k] == cs0[k]);
                                    }
                                }
                                lemma_header_bounds(evs, i + 1, styles_len, dims, sheet_type, cs1);
                            }
                        } else {
                            lemma_header_bounds(evs, i + 1, styles_len, dims, sheet_type, cs);
                        }
                    }
                } else if ln != KW_SHEET_DATA@ {
                    let st = if sheet_type is None {
                        if valid_utf8(ln) { Some(decode_utf8(ln)) } else { None }
                    } else {
                        sheet_type
                    };
                    lemma_header_bounds(evs, i + 1, styles_len, dims, st, cs);
                }
            },
            XmlEvent::Eof => {},
            XmlEvent::Error(_) => {},
            _ => {
                lemma_header_bounds(evs, i + 1, styles_len, dims, sheet_type, cs);
            },
        }
    }
}

/// What `XlsxCellReader::new` makes of its arguments: the state positioned
/// just after `<sheetData>`, or the error that reading the header meets.
pub open spec fn spec_new(
    events: Seq<XmlEvent>,
    strings: Seq<SharedString>,
    formats: Seq<CellFormat>,
    styles: Seq<Style>,
    is_1904: bool,
) -> Result<ReaderState, ReadError> {
    let evs = terminated(events);
    match header_from(evs, 0, styles.len(), Dimensions { start: (0, 0), end: (0, 0) }, None, Seq::empty()) {
        Err(x) => Err(x),
        Ok((dims, cs, j)) => Ok(ReaderState {
            events: evs,
            pos: j,
            strings,
            formats,
            styles,
            is_1904,
            dimensions: dims,
            row_index: 0,
            col_index: 0,
            row_style: None,
            column_styles: cs,
            formulas: Map::empty(),
        }),
    }
}

impl XlsxCellReader {
    /// The reader's contents.
    pub closed spec fn state(&self) -> ReaderState {
        ReaderState {
            events: self.events@,
            pos: self.pos as int,
            strings: self.strings@,
            formats: self.formats@,
            styles: self.styles@,
            is_1904: self.is_1904,
            dimensions: self.dimensions,
            row_index: self.row_index,
            col_index: self.col_index,
            row_style: self.row_style,
            column_styles: self.column_styles@,
            formulas: formula_map(self.formulas@),
        }
    }

    /// The reader's invariant: the event stream ends with `Eof`, the position
    /// lies within it, and every style index that the reader keeps names a
    /// palette entry.
    pub open spec fn wf(&self) -> bool {
        state_wf(self.state())
    }

    /// Opens a worksheet: reads the events of its part up to `<sheetData>`,
    /// collecting the sheet's dimension and its column styles. The shared
    /// strings, number formats and style palette of the workbook are kept for
    /// the cells.
    pub fn new(
        xml: Vec<XmlEvent>,
        strings: Vec<SharedString>,
        formats: Vec<CellFormat>,
        styles: Vec<Style>,
        is_1904: bool,
    ) -> (r: Result<Self, XlsxError>)
        ensures
            match (r, spec_new(xml@, strings@, formats@, styles@, is_1904)) {
                (Ok(rd), Ok(st)) => rd.wf() && rd.state() == st,
                (Err(x), Err(e)) => error_matches(x, e),
                _ => false,
            },
    {
        let mut events = xml;
        let is_wf = events.len() > 0 && match &events[events.len() - 1] {
            XmlEvent::Eof => true,
            _ => false,
        };
        if !is_wf {
            events.push(XmlEvent::Eof);
        }
        assert(events@ == terminated(xml@));
        let mut dimensions = Dimensions { start: (0, 0), end: (0, 0) };
        let mut sheet_type: Option<String> = None;
        let mut column_styles: Vec<Option<usize>> = Vec::new();
        let mut i: usize = 0;
        let ghost styles_len = styles@.len();
        proof {
            lemma_header_bounds(events@, 0, styles_len, dimensions, None, Seq::empty());
        }
        while i < events.len()
            invariant
                events_wf(events@),
                events@ == terminated(xml@),
                i < events@.len(),
                styles_len == styles@.len(),
                column_styles@.len() == 0 || column_styles@.len() == MAX_COLUMNS,
                forall|k: int| 0 <= k < column_styles@.len() ==> (#[trigger] column_styles@[k] matches Some(id) ==> id < styles_len),
                header_from(events@, 0, styles_len, Dimensions { start: (0, 0), end: (0, 0) }, None, Seq::empty())
                    == header_from(events@, i as int, styles_len, dimensions, text_view(sheet_type), column_styles@),
            decreases events@.len() - i,
        {
            let k_dimension = KW_DIMENSION;
            let k_ref = KW_REF;
            let k_col = KW_COL;
            let k_min = KW_MIN;
            let k_max = KW_MAX;
            let k_style = KW_STYLE;
            let k_sheet_data = KW_SHEET_DATA;
            match &events[i] {
                XmlEvent::Start(e) => {
                    let ln = local_name(e.name.as_slice());
                    if bytes_eq(ln, &k_dimension) {
                        match get_attribute(e, &k_ref) {
                            Err(x) => {
                                return Err(x);
                            },
                            Ok(Some(v)) => match get_dimension(v) {
                                Err(x) => {
                                    return Err(x);
                                },
                                Ok(d) => {
                                    dimensions = d;
                                },
                            },
                            Ok(None) => {},
                        }
                    } else if bytes_eq(ln, &k_col) {
                        let mn = match get_attribute(e, &k_min) {
                            Err(x) => {
                                return Err(x);
                            },
                            Ok(v) => v,
                        };
                        let mx = match get_attribute(e, &k_max) {
                            Err(x) => {
                                return Err(x);
                            },
                            Ok(v) => v,
                        };
                        let sv = match get_attribute(e, &k_style) {
                            Err(x) => {
                                return Err(x);
                            },
                            Ok(v) => v,
                        };
                        let min = match mn {
                            Some(v) => atoi_u32(v),
                            None => None,
                        };
                        let max = match mx {
                            Some(v) => atoi_u32(v),
                            None => None,
                        };
                        let style = match sv {
                            Some(v) => palette_index_exec(v, styles.len()),
                            None => None,
                        };
                        if let (Some(min), Some(style)) = (min, style) {
                            if column_styles.len() == 0 {
                                column_styles = new_column_styles();
                            }
                            match worksheet_column_span(min, max) {
                                Err(x) => {
                                    return Err(x);
                                },
                                Ok((first, last)) => {
                                    set_column_styles(&mut column_styles, first, last, style);
                                },
                            }
                        }
                    } else if bytes_eq(ln, &k_sheet_data) {
                        let rd = XlsxCellReader {
                            events,
                            pos: i + 1,
                            strings,
                            formats,
                            styles,
                            is_1904,
                            dimensions,
                            row_index: 0,
                            col_index: 0,
                            row_style: None,
                            column_styles,
                            formulas: Vec::new(),
                        };
                        assert(formula_map(rd.formulas@) == Map::<usize, SharedFormulaView>::empty());
                        return Ok(rd);
                    } else {
                        if sheet_type.is_none() {
                            sheet_type = match utf8_str(ln) {
                                Some(t) => Some(t.to_owned()),
                                None => None,
                            };
                        }
                    }
                },
                XmlEvent::Eof => {
                    return match sheet_type {
                        Some(t) => Err(XlsxError::NotAWorksheet(t)),
                        None => Err(XlsxError::XmlEof(EofContext::SheetData)),
                    };
                },
                XmlEvent::Error(e) => {
                    return Err(XlsxError::Xml(e.copy()));
                },
                _ => {},
            }
            i = i + 1;
        }
        Err(XlsxError::XmlEof(EofContext::SheetData))
    }
}

/// The well-formedness of a reader's contents.
pub open spec fn state_wf(st: ReaderState) -> bool {
    &&& events_wf(st.events)
    &&& 0 <= st.pos < st.events.len()
    &&& st.column_styles.len() == 0 || st.column_styles.len() == MAX_COLUMNS
    &&& forall|k: int| 0 <= k < st.column_styles.len() ==> (#[trigger] st.column_styles[k] matches Some(id) ==> id < st.styles.len())
    &&& st.row_style matches Some(id) ==> id < st.styles.len()
}

/// A column-style table with no style for each of the sheet's columns.
fn new_column_styles() -> (r: Vec<Option<usize>>)
    ensures
        r@ == no_column_styles(),
{
    let mut v: Vec<Option<usize>> = Vec::new();
    let mut k: u32 = 0;
    while k < MAX_COLUMNS
        invariant
            k <= MAX_COLUMNS,
            v@.len() == k,
            forall|j: int| 0 <= j < k ==> v@[j] is None,
        decreases MAX_COLUMNS - k,
    {
        v.push(None);
        k = k + 1;
    }
    assert(v@ =~= no_column_styles());
    v
}

/// Gives the columns `first..=last` the style `style`.
fn set_column_styles(cs: &mut Vec<Option<usize>>, first: u32, last: u32, style: usize)
    requires
        first <= last < old(cs)@.len(),
    ensures
        final(cs)@ == styled_columns(old(cs)@, first, last, style),
{
    let mut c: usize = first as usize;
    while c <= last as usize
        invariant
            first <= c <= last + 1,
            last < cs@.len(),
            cs@.len() == old(cs)@.len(),
            forall|k: int| 0 <= k < cs@.len() ==> #[trigger] cs@[k] == (if first <= k < c { Some(style) } else { old(cs)@[k] }),
        decreases last + 1 - c,
    {
        cs.set(c, Some(style));
        c = c + 1;
    }
    assert(cs@ =~= styled_columns(old(cs)@, first, last, style));
}

} // verus!

verus! {

/// The row or column counter after one step; it wraps at the top.
pub open spec fn next_index(n: u32) -> u32 {
    if n < u32::MAX {
        (n + 1) as u32
    } else {
        0
    }
}

fn next_index_exec(n: u32) -> (r: u32)
    ensures
        r == next_index(n),
{
    n.wrapping_add(1)
}

/// The reader walked from its position to the next cell: over `<row>` (which
/// sets the row counter, when it has an `r`, and the row style), `</row>`
/// (which moves the row counter on, resets the column counter and drops the
/// row style) and anything else, up to the start tag of a cell (`true`, the
/// position left at that tag) or past `</sheetData>` (`false`).
pub open spec fn seek_cell(st: ReaderState) -> Result<(bool, ReaderState), XlsxError>
    decreases st.events.len() - st.pos,
{
    if st.pos < 0 || st.pos >= st.events.len() {
        Err(XlsxError::XmlEof(EofContext::SheetData))
    } else {
        match st.events[st.pos] {
            XmlEvent::Start(e) => {
                let ln = spec_local_name(e.name@);
                if ln == KW_ROW@ {
                    match spec_row_state(e, st.styles.len()) {
                        Err(x) => Err(x),
                        Ok((ri, rs)) => seek_cell(ReaderState {
                            pos: st.pos + 1,
                            row_index: match ri {
                                Some(r) => r,
                                None => st.row_index,
                            },
                            row_style: rs,
                            ..st
                        }),
                    }
                } else if ln == KW_C@ {
                    Ok((true, st))
                } else {
                    seek_cell(ReaderState { pos: st.pos + 1, ..st })
                }
            },
            XmlEvent::End(n) => {
                let ln = spec_local_name(n@);
                if ln == KW_ROW@ {
                    seek_cell(ReaderState {
                        pos: st.pos + 1,
                        row_index: next_index(st.row_index),
                        col_index: 0,
                        row_style: None,
                        ..st
                    })
                } else if ln == KW_SHEET_DATA@ {
                    Ok((false, ReaderState { pos: st.pos + 1, ..st }))
                } else {
                    seek_cell(ReaderState { pos: st.pos + 1, ..st })
                }
            },
            XmlEvent::Eof => Err(XlsxError::XmlEof(EofContext::SheetData)),
            XmlEvent::Error(e) => Err(XlsxError::Xml(e)),
            _ => seek_cell(ReaderState { pos: st.pos + 1, ..st }),
        }
    }
}

/// Where walking to the next cell leaves the reader, whatever the outcome:
/// as `seek_cell` gives it on success; on a failure, at the event that fails
/// (a `<row>` with a bad attribute, `Eof` or a tokenizer error), with the
/// counters of the rows passed before it.
pub open spec fn seek_final(st: ReaderState) -> ReaderState
    decreases st.events.len() - st.pos,
{
    if st.pos < 0 || st.pos >= st.events.len() {
        st
    } else {
        match st.events[st.pos] {
            XmlEvent::Start(e) => {
                let ln = spec_local_name(e.name@);
                if ln == KW_ROW@ {
                    match spec_row_state(e, st.styles.len()) {
                        Err(_) => st,
                        Ok((ri, rs)) => seek_final(ReaderState {
                            pos: st.pos + 1,
                            row_index: match ri {
                                Some(r) => r,
                                None => st.row_index,
                            },
                            row_style: rs,
                            ..st
                        }),
                    }
                } else if ln == KW_C@ {
                    st
                } else {
                    seek_final(ReaderState { pos: st.pos + 1, ..st })
                }
            },
            XmlEvent::End(n) => {
                let ln = spec_local_name(n@);
                if ln == KW_ROW@ {
                    seek_final(ReaderState {
                        pos: st.pos + 1,
                        row_index: next_index(st.row_index),
                        col_index: 0,
                        row_style: None,
                        ..st
                    })
                } else if ln == KW_SHEET_DATA@ {
                    ReaderState { pos: st.pos + 1, ..st }
                } else {
                    seek_final(ReaderState { pos: st.pos + 1, ..st })
                }
            },
            XmlEvent::Eof => st,
            XmlEvent::Error(_) => st,
            _ => seek_final(ReaderState { pos: st.pos + 1, ..st }),
        }
    }
}

/// The parts of the reader that reading cells leaves as they are, whatever
/// the outcome: the events, the workbook tables, the sheet's dimension and
/// its column styles.
pub open spec fn keeps_sheet(st: ReaderState, st2: ReaderState) -> bool {
    &&& st2.events == st.events
    &&& st2.strings == st.strings
    &&& st2.formats == st.formats
    &&& st2.styles == st.styles
    &&& st2.is_1904 == st.is_1904
    &&& st2.dimensions == st.dimensions
    &&& st2.column_styles == st.column_styles
}

/// Whether the reader's position is at the start tag of a cell.
pub open spec fn at_cell(st: ReaderState) -> bool {
    &&& 0 <= st.pos < st.events.len()
    &&& st.events[st.pos] matches XmlEvent::Start(e) && spec_local_name(e.name@) == KW_C@
}

/// The `<c>` element at the reader's position.
pub open spec fn cell_element(st: ReaderState) -> XmlElement {
    st.events[st.pos]->Start_0
}

/// Walking to the next cell keeps the reader well formed, changes only its
/// position, row counters and row style, and leaves it at a cell when it
/// finds one.
pub proof fn lemma_seek_cell(st: ReaderState)
    requires
        state_wf(st),
    ensures
        seek_cell(st) matches Ok((found, st2)) ==> {
            &&& state_wf(st2)
            &&& st.pos <= st2.pos
            &&& st2 == ReaderState { pos: st2.pos, row_index: st2.row_index, col_index: st2.col_index, row_style: st2.row_style, ..st }
            &&& found ==> at_cell(st2)
            &&& !found ==> st.pos < st2.pos
            &&& seek_final(st) == st2
        },
        keeps_sheet(st, seek_final(st)),
        state_wf(seek_final(st)),
    decreases st.events.len() - st.pos,
{
    if 0 <= st.pos < st.events.len() {
        match st.events[st.pos] {
            XmlEvent::Start(e) => {
                let ln = spec_local_name(e.name@);
                if ln == KW_ROW@ {
                    if let Ok((ri, rs)) = spec_row_state(e, st.styles.len()) {
                        lemma_row_state_style(e, st.styles.len());
                        lemma_seek_cell(ReaderState {
                            pos: st.pos + 1,
                            row_index: match ri {
                                Some(r) => r,
                                None => st.row_index,
                            },
                            row_style: rs,
                            ..st
                        });
                    }
                } else if ln != KW_C@ {
                    lemma_seek_cell(ReaderState { pos: st.pos + 1, ..st });
                }
            },
            XmlEvent::End(n) => {
                let ln = spec_local_name(n@);
                if ln == KW_ROW@ {
                    lemma_seek_cell(ReaderState {
                        pos: st.pos + 1,
                        row_index: next_index(st.row_index),
                        col_index: 0,
                        row_style: None,
                        ..st
                    });
                } else if ln != KW_SHEET_DATA@ {
                    lemma_seek_cell(ReaderState { pos: st.pos + 1, ..st });
                }
            },
            XmlEvent::Eof => {},
            XmlEvent::Error(_) => {},
            _ => {
                lemma_seek_cell(ReaderState { pos: st.pos + 1, ..st });
            },
        }
    }
}

} // verus!

verus! {

impl XlsxCellReader {
    /// Walks to the next cell (`true`, the position left at its start tag)
    /// or past the end of the sheet data (`false`).
    fn seek_cell(&mut self) -> (r: Result<bool, XlsxError>)
        requires
            old(self).wf(),
        ensures
            final(self).wf(),
            final(self).state() == seek_final(old(self).state()),
            match (r, seek_cell(old(self).state())) {
                (Ok(b), Ok((c, st))) => b == c && final(self).state() == st,
                (Err(x), Err(y)) => x == y,
                _ => false,
            },
    {
        proof {
            lemma_seek_cell(self.state());
        }
        while self.pos < self.events.len()
            invariant
                self.wf(),
                seek_cell(old(self).state()) == seek_cell(self.state()),
                seek_final(old(self).state()) == seek_final(self.state()),
                old(self).wf(),
                seek_cell(old(self).state()) matches Ok((_, st2)) ==> state_wf(st2),
            decreases self.events@.len() - self.pos,
        {
            let k_row = KW_ROW;
            let k_c = KW_C;
            let k_sheet_data = KW_SHEET_DATA;
            let ghost before = self.state();
            match &self.events[self.pos] {
                XmlEvent::Start(e) => {
                    let ln = local_name(e.name.as_slice());
                    if bytes_eq(ln, &k_row) {
                        match row_state(e, self.styles.len()) {
                            Err(x) => {
                                return Err(x);
                            },
                            Ok((ri, rs)) => {
                                proof {
                                    lemma_row_state_style(*e, self.styles@.len());
                                }
                                match ri {
                                    Some(r) => {
                                        self.row_index = r;
                                    },
                                    None => {},
                                }
                                self.row_style = rs;
                                self.pos = self.pos + 1;
                                assert(self.state() == ReaderState {
                                    pos: before.pos + 1,
                                    row_index: match ri {
                                        Some(r) => r,
                                        None => before.row_index,
                                    },
                                    row_style: rs,
                                    ..before
                                });
                            },
                        }
                    } else if bytes_eq(ln, &k_c) {
                        return Ok(true);
                    } else {
                        self.pos = self.pos + 1;
                        assert(self.state() == ReaderState { pos: before.pos + 1, ..before });
                    }
                },
                XmlEvent::End(n) => {
                    let ln = local_name(n.as_slice());
                    if bytes_eq(ln, &k_row) {
                        self.row_index = next_index_exec(self.row_index);
                        self.col_index = 0;
                        self.row_style = None;
                        self.pos = self.pos + 1;
                        assert(self.state() == ReaderState {
                            pos: before.pos + 1,
                            row_index: next_index(before.row_index),
                            col_index: 0,
                            row_style: None,
                            ..before
                        });
                    } else if bytes_eq(ln, &k_sheet_data) {
                        self.pos = self.pos + 1;
                        assert(self.state() == ReaderState { pos: before.pos + 1, ..before });
                        return Ok(false);
                    } else {
                        self.pos = self.pos + 1;
                        assert(self.state() == ReaderState { pos: before.pos + 1, ..before });
                    }
                },
                XmlEvent::Eof => {
                    return Err(XlsxError::XmlEof(EofContext::SheetData));
                },
                XmlEvent::Error(e) => {
                    return Err(XlsxError::Xml(e.copy()));
                },
                _ => {
                    self.pos = self.pos + 1;
                    assert(self.state() == ReaderState { pos: before.pos + 1, ..before });
                },
            }
        }
        Err(XlsxError::XmlEof(EofContext::SheetData))
    }
}

} // verus!

verus! {

/// The cell at the reader's position read for its value: its position, the
/// value of its content, and, when `include_style` holds, its attached
/// style; the reader moves past `</c>` and its column counter past the cell.
pub open spec fn value_cell(st: ReaderState, include_style: bool) -> Result<(Cell<CellValueView>, ReaderState), ReadError> {
    let c = cell_element(st);
    match spec_cell_position(c, st.row_index, st.col_index) {
        Err(x) => Err(ReadError::Exact(x)),
        Ok((pos, col)) => match spec_resolved_cell_style_id(c, pos.1, st.row_style, st.column_styles, st.styles.len()) {
            Err(x) => Err(ReadError::Exact(x)),
            Ok((has_override, resolved)) => match cell_value_from(
                st.events,
                st.pos + 1,
                c,
                st.strings,
                st.formats,
                resolved,
                CellValueView::Empty,
            ) {
                Err(x) => Err(x),
                Ok((v, j)) => Ok((
                    Cell {
                        pos,
                        val: v,
                        style: if include_style {
                            spec_attached_style(st.styles, has_override, resolved)
                        } else {
                            None
                        },
                    },
                    ReaderState { pos: j, col_index: next_index(col), ..st },
                )),
            },
        },
    }
}

/// The cell at the reader's position read for its formula (empty when it
/// has none) and, when `include_style` holds, its attached style. Shared
/// formulas that the cell registers are kept.
pub open spec fn formula_cell(st: ReaderState, include_style: bool) -> Result<(Cell<Seq<char>>, ReaderState), XlsxError> {
    let c = cell_element(st);
    match spec_cell_position(c, st.row_index, st.col_index) {
        Err(x) => Err(x),
        Ok((pos, col)) => {
            let style = if include_style {
                match spec_resolved_cell_style_id(c, pos.1, st.row_style, st.column_styles, st.styles.len()) {
                    Err(x) => Err(x),
                    Ok((has_override, resolved)) => Ok(spec_attached_style(st.styles, has_override, resolved)),
                }
            } else {
                Ok(None)
            };
            match style {
                Err(x) => Err(x),
                Ok(style) => match cell_formula_from(st.events, st.pos + 1, pos, st.formulas, None) {
                    Err(x) => Err(x),
                    Ok((v, fm, j)) => Ok((
                        Cell {
                            pos,
                            val: match v {
                                Some(t) => t,
                                None => Seq::empty(),
                            },
                            style,
                        },
                        ReaderState { pos: j, col_index: next_index(col), formulas: fm, ..st },
                    )),
                },
            }
        },
    }
}

/// The cell at the reader's position read for its style: the palette entry
/// that it resolves to, or the default style when it resolves to none; its
/// content is skipped.
pub open spec fn style_cell(st: ReaderState) -> Result<(Cell<Style>, ReaderState), XlsxError> {
    let c = cell_element(st);
    match spec_cell_position(c, st.row_index, st.col_index) {
        Err(x) => Err(x),
        Ok((pos, col)) => match spec_resolved_cell_style_id(c, pos.1, st.row_style, st.column_styles, st.styles.len()) {
            Err(x) => Err(x),
            Ok((_, resolved)) => match skip_cell_from(st.events, st.pos + 1) {
                Err(x) => Err(x),
                Ok(j) => Ok((
                    Cell {
                        pos,
                        val: match resolved {
                            Some(id) => spec_indexed_style(st.styles, id),
                            None => spec_style_new(),
                        },
                        style: None,
                    },
                    ReaderState { pos: j, col_index: next_index(col), ..st },
                )),
            },
        },
    }
}

/// The cell at the reader's position read for its style index: its row,
/// column and resolved palette index, or nothing when it resolves to none;
/// its content is skipped.
pub open spec fn style_id_cell(st: ReaderState) -> Result<(Option<(u32, u32, usize)>, ReaderState), XlsxError> {
    let c = cell_element(st);
    match spec_cell_position(c, st.row_index, st.col_index) {
        Err(x) => Err(x),
        Ok((pos, col)) => match spec_resolved_cell_style_id(c, pos.1, st.row_style, st.column_styles, st.styles.len()) {
            Err(x) => Err(x),
            Ok((_, resolved)) => match skip_cell_from(st.events, st.pos + 1) {
                Err(x) => Err(x),
                Ok(j) => Ok((
                    match resolved {
                        Some(id) => Some((pos.0, pos.1, id)),
                        None => None,
                    },
                    ReaderState { pos: j, col_index: next_index(col), ..st },
                )),
            },
        },
    }
}

/// Where reading the cell at the reader's position for its value leaves the
/// reader, whatever the outcome (the same with or without the style): past
/// the cell on success; on a failure at the cell, with the column counter
/// set from its `r` attribute once that has been read.
pub open spec fn value_cell_final(st: ReaderState) -> ReaderState {
    match spec_cell_position(cell_element(st), st.row_index, st.col_index) {
        Err(_) => st,
        Ok((_, col)) => match value_cell(st, false) {
            Ok((_, st2)) => st2,
            Err(_) => ReaderState { col_index: col, ..st },
        },
    }
}

/// Where reading the cell at the reader's position for its formula leaves
/// the reader, whatever the outcome; on a failure inside the cell's content
/// the shared formulas that its earlier children registered are kept.
pub open spec fn formula_cell_final(st: ReaderState, include_style: bool) -> ReaderState {
    let c = cell_element(st);
    match spec_cell_position(c, st.row_index, st.col_index) {
        Err(_) => st,
        Ok((pos, col)) => match formula_cell(st, include_style) {
            Ok((_, st2)) => st2,
            Err(_) => ReaderState {
                col_index: col,
                formulas: if include_style && spec_resolved_cell_style_id(
                    c,
                    pos.1,
                    st.row_style,
                    st.column_styles,
                    st.styles.len(),
                ) is Err {
                    st.formulas
                } else {
                    cell_formula_map_after(st.events, st.pos + 1, pos, st.formulas, None)
                },
                ..st
            },
        },
    }
}

/// Where reading the cell at the reader's position for its style (or its
/// style index) leaves the reader, whatever the outcome.
pub open spec fn style_cell_final(st: ReaderState) -> ReaderState {
    match spec_cell_position(cell_element(st), st.row_index, st.col_index) {
        Err(_) => st,
        Ok((_, col)) => match style_cell(st) {
            Ok((_, st2)) => st2,
            Err(_) => ReaderState { col_index: col, ..st },
        },
    }
}

/// A cell's start tag is never the last event.
pub proof fn lemma_at_cell_not_last(st: ReaderState)
    requires
        state_wf(st),
        at_cell(st),
    ensures
        st.pos + 1 < st.events.len(),
{
    if st.pos + 1 == st.events.len() {
        assert(st.events.last() == st.events[st.pos]);
    }
}

/// A resolved style index names a palette entry.
pub proof fn lemma_resolved_in_palette(st: ReaderState, c: XmlElement, column: u32)
    requires
        state_wf(st),
    ensures
        spec_resolved_cell_style_id(c, column, st.row_style, st.column_styles, st.styles.len()) matches Ok((_, Some(id)))
            ==> id < st.styles.len(),
{
    if column < st.column_styles.len() {
        let k = column as int;
        assert(st.column_styles[k] matches Some(id) ==> id < st.styles.len());
    }
}

impl XlsxCellReader {
    /// Reads the cell at the reader's position for its value.
    fn read_value_cell(&mut self, include_style: bool) -> (r: Result<Cell<CellValue>, XlsxError>)
        requires
            old(self).wf(),
            at_cell(old(self).state()),
        ensures
            final(self).wf(),
            final(self).state() == value_cell_final(old(self).state()),
            match (r, value_cell(old(self).state(), include_style)) {
                (Ok(c), Ok((d, st))) => c@ == d && final(self).state() == st,
                (Err(x), Err(y)) => error_matches(x, y),
                _ => false,
            },
    {
        let ghost before = self.state();
        let p = self.pos;
        if let XmlEvent::Start(c) = &self.events[p] {
            let (pos, col) = match cell_position(c, self.row_index, self.col_index) {
                Err(x) => {
                    return Err(x);
                },
                Ok(v) => v,
            };
            self.col_index = col;
            let (has_override, resolved) = match resolved_cell_style_id(
                c,
                pos.1,
                self.row_style,
                &self.column_styles,
                self.styles.len(),
            ) {
                Err(x) => {
                    return Err(x);
                },
                Ok(v) => v,
            };
            proof {
                lemma_resolved_in_palette(before, *c, pos.1);
                lemma_at_cell_not_last(before);
                assert(p + 1 < self.events.len());
            }
            let style = if include_style {
                attached_style(&self.styles, has_override, resolved)
            } else {
                None
            };
            match read_cell_value(&self.events, p + 1, c, &self.strings, &self.formats, resolved) {
                Err(x) => Err(x),
                Ok((v, j)) => {
                    self.pos = j;
                    self.col_index = next_index_exec(col);
                    assert(self.state() == ReaderState { pos: j as int, col_index: next_index(col), ..before });
                    Ok(Cell { pos, val: v, style })
                },
            }
        } else {
            Err(XlsxError::UnexpectedNode)
        }
    }
}


impl XlsxCellReader {
    /// Reads the cell at the reader's position for its formula.
    fn read_formula_cell(&mut self, include_style: bool) -> (r: Result<Cell<String>, XlsxError>)
        requires
            old(self).wf(),
            at_cell(old(self).state()),
        ensures
            final(self).wf(),
            final(self).state() == formula_cell_final(old(self).state(), include_style),
            match (r, formula_cell(old(self).state(), include_style)) {
                (Ok(c), Ok((d, st))) => c@ == d && final(self).state() == st,
                (Err(x), Err(y)) => x == y,
                _ => false,
            },
    {
        let ghost before = self.state();
        let p = self.pos;
        proof {
            lemma_at_cell_not_last(before);
            assert(p + 1 < self.events.len());
        }
        if let XmlEvent::Start(c) = &self.events[p] {
            let (pos, col) = match cell_position(c, self.row_index, self.col_index) {
                Err(x) => {
                    return Err(x);
                },
                Ok(v) => v,
            };
            self.col_index = col;
            let style = if include_style {
                match resolved_cell_style_id(c, pos.1, self.row_style, &self.column_styles, self.styles.len()) {
                    Err(x) => {
                        return Err(x);
                    },
                    Ok((has_override, resolved)) => {
                        proof {
                            lemma_resolved_in_palette(before, *c, pos.1);
                        }
                        attached_style(&self.styles, has_override, resolved)
                    },
                }
            } else {
                None
            };
            match read_cell_formula(&self.events, p + 1, pos, &mut self.formulas) {
                Err(x) => Err(x),
                Ok((v, j)) => {
                    self.pos = j;
                    self.col_index = next_index_exec(col);
                    let text = match v {
                        Some(t) => t,
                        None => String::new(),
                    };
                    assert(self.state() == ReaderState {
                        pos: j as int,
                        col_index: next_index(col),
                        formulas: formula_map(self.formulas@),
                        ..before
                    });
                    Ok(Cell { pos, val: text, style })
                },
            }
        } else {
            Err(XlsxError::UnexpectedNode)
        }
    }

    /// Reads the cell at the reader's position for its style.
    fn read_style_cell(&mut self) -> (r: Result<Cell<Style>, XlsxError>)
        requires
            old(self).wf(),
            at_cell(old(self).state()),
        ensures
            final(self).wf(),
            final(self).state() == style_cell_final(old(self).state()),
            match (r, style_cell(old(self).state())) {
                (Ok(c), Ok((d, st))) => c == d && final(self).state() == st,
                (Err(x), Err(y)) => x == y,
                _ => false,
            },
    {
        let ghost before = self.state();
        let p = self.pos;
        proof {
            lemma_at_cell_not_last(before);
            assert(p + 1 < self.events.len());
        }
        if let XmlEvent::Start(c) = &self.events[p] {
            let (pos, col) = match cell_position(c, self.row_index, self.col_index) {
                Err(x) => {
                    return Err(x);
                },
                Ok(v) => v,
            };
            self.col_index = col;
            let (_, resolved) = match resolved_cell_style_id(c, pos.1, self.row_style, &self.column_styles, self.styles.len()) {
                Err(x) => {
                    return Err(x);
                },
                Ok(v) => v,
            };
            proof {
                lemma_resolved_in_palette(before, *c, pos.1);
            }
            let style = match resolved {
                Some(id) => indexed_style(&self.styles, id),
                None => Style::new(),
            };
            match skip_cell(&self.events, p + 1) {
                Err(x) => Err(x),
                Ok(j) => {
                    self.pos = j;
                    self.col_index = next_index_exec(col);
                    assert(self.state() == ReaderState { pos: j as int, col_index: next_index(col), ..before });
                    Ok(Cell::new(pos, style))
                },
            }
        } else {
            Err(XlsxError::UnexpectedNode)
        }
    }

    /// Reads the cell at the reader's position for its style index.
    fn read_style_id_cell(&mut self) -> (r: Result<Option<(u32, u32, usize)>, XlsxError>)
        requires
            old(self).wf(),
            at_cell(old(self).state()),
        ensures
            final(self).wf(),
            final(self).state() == style_cell_final(old(self).state()),
            match (r, style_id_cell(old(self).state())) {
                (Ok(c), Ok((d, st))) => c == d && final(self).state() == st,
                (Err(x), Err(y)) => x == y,
                _ => false,
            },
    {
        let ghost before = self.state();
        let p = self.pos;
        proof {
            lemma_at_cell_not_last(before);
            assert(p + 1 < self.events.len());
        }
        if let XmlEvent::Start(c) = &self.events[p] {
            let (pos, col) = match cell_position(c, self.row_index, self.col_index) {
                Err(x) => {
                    return Err(x);
                },
                Ok(v) => v,
            };
            self.col_index = col;
            let (_, resolved) = match resolved_cell_style_id(c, pos.1, self.row_style, &self.column_styles, self.styles.len()) {
                Err(x) => {
                    return Err(x);
                },
                Ok(v) => v,
            };
            match skip_cell(&self.events, p + 1) {
                Err(x) => Err(x),
                Ok(j) => {
                    self.pos = j;
                    self.col_index = next_index_exec(col);
                    assert(self.state() == ReaderState { pos: j as int, col_index: next_index(col), ..before });
                    match resolved {
                        Some(id) => Ok(Some((pos.0, pos.1, id))),
                        None => Ok(None),
                    }
                },
            }
        } else {
            Err(XlsxError::UnexpectedNode)
        }
    }
}


/// Reading a cell's style index keeps the reader well formed and moves it on.
pub proof fn lemma_style_id_cell(st: ReaderState)
    requires
        state_wf(st),
        at_cell(st),
    ensures
        style_id_cell(st) matches Ok((_, st2)) ==> state_wf(st2) && st.pos < st2.pos && st2.events == st.events,
{
    lemma_skip_cell_bounds(st.events, st.pos + 1);
}

/// The next cell that `next_cell` (`include_style`) or `next_cell_value_only`
/// gives, and the reader afterwards; `None` past the end of the sheet data.
pub open spec fn spec_next_cell(st: ReaderState, include_style: bool) -> Result<(Option<Cell<CellValueView>>, ReaderState), ReadError> {
    match seek_cell(st) {
        Err(x) => Err(ReadError::Exact(x)),
        Ok((false, st1)) => Ok((None, st1)),
        Ok((true, st1)) => match value_cell(st1, include_style) {
            Err(x) => Err(x),
            Ok((c, st2)) => Ok((Some(c), st2)),
        },
    }
}

/// The next cell that `next_formula` (`include_style`) or
/// `next_formula_value_only` gives, and the reader afterwards.
pub open spec fn spec_next_formula(st: ReaderState, include_style: bool) -> Result<(Option<Cell<Seq<char>>>, ReaderState), XlsxError> {
    match seek_cell(st) {
        Err(x) => Err(x),
        Ok((false, st1)) => Ok((None, st1)),
        Ok((true, st1)) => match formula_cell(st1, include_style) {
            Err(x) => Err(x),
            Ok((c, st2)) => Ok((Some(c), st2)),
        },
    }
}

/// The next cell that `next_style` gives, and the reader afterwards.
pub open spec fn spec_next_style(st: ReaderState) -> Result<(Option<Cell<Style>>, ReaderState), XlsxError> {
    match seek_cell(st) {
        Err(x) => Err(x),
        Ok((false, st1)) => Ok((None, st1)),
        Ok((true, st1)) => match style_cell(st1) {
            Err(x) => Err(x),
            Ok((c, st2)) => Ok((Some(c), st2)),
        },
    }
}

/// The next styled cell that `next_style_id` gives, and the reader
/// afterwards: cells that resolve to no style are passed over.
pub open spec fn spec_next_style_id(st: ReaderState) -> Result<(Option<(u32, u32, usize)>, ReaderState), XlsxError>
    decreases st.events.len() - st.pos when state_wf(st)
{
    match seek_cell(st) {
        Err(x) => Err(x),
        Ok((false, st1)) => Ok((None, st1)),
        Ok((true, st1)) => match style_id_cell(st1) {
            Err(x) => Err(x),
            Ok((Some(t), st2)) => Ok((Some(t), st2)),
            Ok((None, st2)) => {
                proof {
                    lemma_seek_cell(st);
                    lemma_style_id_cell(st1);
                }
                spec_next_style_id(st2)
            },
        },
    }
}

/// Where `next_cell` and `next_cell_value_only` leave the reader, whatever
/// the outcome; the two paths leave it alike.
pub open spec fn next_cell_final(st: ReaderState) -> ReaderState {
    match seek_cell(st) {
        Ok((true, _)) => value_cell_final(seek_final(st)),
        _ => seek_final(st),
    }
}

/// Where `next_formula` (`include_style`) and `next_formula_value_only` leave
/// the reader, whatever the outcome.
pub open spec fn next_formula_final(st: ReaderState, include_style: bool) -> ReaderState {
    match seek_cell(st) {
        Ok((true, _)) => formula_cell_final(seek_final(st), include_style),
        _ => seek_final(st),
    }
}

/// Where `next_style` leaves the reader, whatever the outcome.
pub open spec fn next_style_final(st: ReaderState) -> ReaderState {
    match seek_cell(st) {
        Ok((true, _)) => style_cell_final(seek_final(st)),
        _ => seek_final(st),
    }
}

/// Where `next_style_id` leaves the reader, whatever the outcome.
pub open spec fn next_style_id_final(st: ReaderState) -> ReaderState
    decreases st.events.len() - st.pos when state_wf(st)
{
    match seek_cell(st) {
        Ok((true, _)) => {
            let st1 = seek_final(st);
            match style_id_cell(st1) {
                Ok((None, st2)) => {
                    proof {
                        lemma_seek_cell(st);
                        lemma_style_id_cell(st1);
                    }
                    next_style_id_final(st2)
                },
                _ => style_cell_final(st1),
            }
        },
        _ => seek_final(st),
    }
}

impl XlsxCellReader {
    /// The sheet's dimension, as its `dimension` element gives it (all
    /// zero without one).
    pub fn dimensions(&self) -> (r: Dimensions)
        ensures
            r == self.state().dimensions,
    {
        self.dimensions
    }

    /// The style palette that the reader resolves cell styles in.
    pub fn styles(&self) -> (r: &[Style])
        ensures
            r@ == self.state().styles,
    {
        self.styles.as_slice()
    }

    fn next_cell_with_style(&mut self, include_style: bool) -> (r: Result<Option<Cell<CellValue>>, XlsxError>)
        requires
            old(self).wf(),
        ensures
            final(self).wf(),
            final(self).state() == next_cell_final(old(self).state()),
            keeps_sheet(old(self).state(), final(self).state()),
            match (r, spec_next_cell(old(self).state(), include_style)) {
                (Ok(Some(c)), Ok((Some(d), st))) => c@ == d && final(self).state() == st,
                (Ok(None), Ok((None, st))) => final(self).state() == st,
                (Err(x), Err(e)) => error_matches(x, e),
                _ => false,
            },
    {
        proof {
            lemma_seek_cell(self.state());
        }
        match self.seek_cell() {
            Err(x) => Err(x),
            Ok(false) => Ok(None),
            Ok(true) => match self.read_value_cell(include_style) {
                Err(x) => Err(x),
                Ok(c) => Ok(Some(c)),
            },
        }
    }

    /// Reads the next cell of the sheet: its position, its value and its
    /// resolved style. `None` once the sheet data ends.
    pub fn next_cell(&mut self) -> (r: Result<Option<Cell<CellValue>>, XlsxError>)
        requires
            old(self).wf(),
        ensures
            final(self).wf(),
            final(self).state() == next_cell_final(old(self).state()),
            keeps_sheet(old(self).state(), final(self).state()),
            match (r, spec_next_cell(old(self).state(), true)) {
                (Ok(Some(c)), Ok((Some(d), st))) => c@ == d && final(self).state() == st,
                (Ok(None), Ok((None, st))) => final(self).state() == st,
                (Err(x), Err(e)) => error_matches(x, e),
                _ => false,
            },
    {
        self.next_cell_with_style(true)
    }

    /// Reads the next cell without its style.
    ///
    /// Value ranges discard the style, so this path does not copy a style for
    /// every cell; it reads the same cells, positions and values as
    /// [`Self::next_cell`].
    pub fn next_cell_value_only(&mut self) -> (r: Result<Option<Cell<CellValue>>, XlsxError>)
        requires
            old(self).wf(),
        ensures
            final(self).wf(),
            final(self).state() == next_cell_final(old(self).state()),
            keeps_sheet(old(self).state(), final(self).state()),
            match (r, spec_next_cell(old(self).state(), false)) {
                (Ok(Some(c)), Ok((Some(d), st))) => c@ == d && final(self).state() == st,
                (Ok(None), Ok((None, st))) => final(self).state() == st,
                (Err(x), Err(e)) => error_matches(x, e),
                _ => false,
            },
    {
        self.next_cell_with_style(false)
    }

    fn next_formula_with_style(&mut self, include_style: bool) -> (r: Result<Option<Cell<String>>, XlsxError>)
        requires
            old(self).wf(),
        ensures
            final(self).wf(),
            final(self).state() == next_formula_final(old(self).state(), include_style),
            keeps_sheet(old(self).state(), final(self).state()),
            match (r, spec_next_formula(old(self).state(), include_style)) {
                (Ok(Some(c)), Ok((Some(d), st))) => c@ == d && final(self).state() == st,
                (Ok(None), Ok((None, st))) => final(self).state() == st,
                (Err(x), Err(y)) => x == y,
                _ => false,
            },
    {
        proof {
            lemma_seek_cell(self.state());
        }
        match self.seek_cell() {
            Err(x) => Err(x),
            Ok(false) => Ok(None),
            Ok(true) => match self.read_formula_cell(include_style) {
                Err(x) => Err(x),
                Ok(c) => Ok(Some(c)),
            },
        }
    }

    /// Reads the next cell's formula (empty when it has none), with its
    /// resolved style. Shared formulas are expanded for the cells they cover.
    pub fn next_formula(&mut self) -> (r: Result<Option<Cell<String>>, XlsxError>)
        requires
            old(self).wf(),
        ensures
            final(self).wf(),
            final(self).state() == next_formula_final(old(self).state(), true),
            keeps_sheet(old(self).state(), final(self).state()),
            match (r, spec_next_formula(old(self).state(), true)) {
                (Ok(Some(c)), Ok((Some(d), st))) => c@ == d && final(self).state() == st,
                (Ok(None), Ok((None, st))) => final(self).state() == st,
                (Err(x), Err(y)) => x == y,
                _ => false,
            },
    {
        self.next_formula_with_style(true)
    }

    /// Reads the next cell's formula without its style.
    pub fn next_formula_value_only(&mut self) -> (r: Result<Option<Cell<String>>, XlsxError>)
        requires
            old(self).wf(),
        ensures
            final(self).wf(),
            final(self).state() == next_formula_final(old(self).state(), false),
            keeps_sheet(old(self).state(), final(self).state()),
            match (r, spec_next_formula(old(self).state(), false)) {
                (Ok(Some(c)), Ok((Some(d), st))) => c@ == d && final(self).state() == st,
                (Ok(None), Ok((None, st))) => final(self).state() == st,
                (Err(x), Err(y)) => x == y,
                _ => false,
            },
    {
        self.next_formula_with_style(false)
    }

    /// Reads the next cell's resolved style (the default style when none
    /// applies); the cell's content is skipped.
    pub fn next_style(&mut self) -> (r: Result<Option<Cell<Style>>, XlsxError>)
        requires
            old(self).wf(),
        ensures
            final(self).wf(),
            final(self).state() == next_style_final(old(self).state()),
            keeps_sheet(old(self).state(), final(self).state()),
            match (r, spec_next_style(old(self).state())) {
                (Ok(Some(c)), Ok((Some(d), st))) => c == d && final(self).state() == st,
                (Ok(None), Ok((None, st))) => final(self).state() == st,
                (Err(x), Err(y)) => x == y,
                _ => false,
            },
    {
        proof {
            lemma_seek_cell(self.state());
        }
        match self.seek_cell() {
            Err(x) => Err(x),
            Ok(false) => Ok(None),
            Ok(true) => match self.read_style_cell() {
                Err(x) => Err(x),
                Ok(c) => Ok(Some(c)),
            },
        }
    }

    /// Iterates over cells, returning just position and style index.
    ///
    /// Returns `(row, col, style_id)` where `style_id` is an index into the
    /// styles palette; cells without an explicit or inherited style are
    /// passed over.
    pub fn next_style_id(&mut self) -> (r: Result<Option<(u32, u32, usize)>, XlsxError>)
        requires
            old(self).wf(),
        ensures
            final(self).wf(),
            final(self).state() == next_style_id_final(old(self).state()),
            keeps_sheet(old(self).state(), final(self).state()),
            match (r, spec_next_style_id(old(self).state())) {
                (Ok(t), Ok((u, st))) => t == u && final(self).state() == st,
                (Err(x), Err(y)) => x == y,
                _ => false,
            },
    {
        loop
            invariant
                self.wf(),
                spec_next_style_id(old(self).state()) == spec_next_style_id(self.state()),
                next_style_id_final(old(self).state()) == next_style_id_final(self.state()),
                keeps_sheet(old(self).state(), self.state()),
            decreases self.events@.len() - self.pos,
        {
            let ghost before = self.state();
            proof {
                lemma_seek_cell(before);
            }
            match self.seek_cell() {
                Err(x) => {
                    return Err(x);
                },
                Ok(false) => {
                    return Ok(None);
                },
                Ok(true) => {
                    let ghost mid = self.state();
                    proof {
                        lemma_style_id_cell(mid);
                    }
                    match self.read_style_id_cell() {
                        Err(x) => {
                            return Err(x);
                        },
                        Ok(Some(t)) => {
                            return Ok(Some(t));
                        },
                        Ok(None) => {},
                    }
                },
            }
        }
    }
}

} // verus!
