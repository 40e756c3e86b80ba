//! Cell values and the per-cell decisions of the worksheet reader: a cell's
//! position, its style, and the value that its `<v>` text stands for.

use vstd::prelude::*;
use vstd::string::StringSliceAdditionalSpecFns;
use vstd::utf8::{decode_utf8, encode_utf8, valid_utf8};
use crate::cell_ref::{get_row, get_row_column, spec_get_row, spec_get_row_column};
use crate::error::{Unexpected, XlsxError};
use crate::keywords::{KW_B, KW_C, KW_CUSTOM_FORMAT, KW_D, KW_E, KW_ERR_DIV0, KW_ERR_GETTING_DATA, KW_ERR_NA, KW_ERR_NAME, KW_ERR_NULL, KW_ERR_NUM, KW_ERR_REF, KW_ERR_VALUE, KW_IS, KW_N, KW_R, KW_S, KW_STR, KW_T, KW_ZERO};
use crate::numbers::{atoi_usize, atoi_usize_max_len, is_float_literal, is_float_literal_exec, spec_atoi};
use crate::style::Style;
use crate::style_parser::{parse_ooxml_bool, spec_ooxml_bool};
use crate::text::utf8_str;
use crate::xml::{bytes_eq, get_attribute, spec_get_attribute, XmlElement};

verus! {

/// How a number cell is presented, as its style's number format says.
#[derive(Debug, Clone, Copy, PartialEq, Eq, Structural)]
pub enum CellFormat {
    Other,
    DateTime,
    TimeDelta,
}

/// An entry of the shared strings table.
#[derive(Debug, Clone, PartialEq, Eq)]
pub enum SharedString {
    /// Plain text.
    Text(String),
    /// Formatted text, as its plain text.
    RichText(String),
    /// An entry that holds no text.
    Other,
}

/// The spreadsheet error values.
#[derive(Debug, Clone, Copy, PartialEq, Eq, Structural)]
pub enum CellErrorType {
    Div0,
    NA,
    Name,
    Null,
    Num,
    Ref,
    Value,
    GettingData,
}

/// The value of a cell.
#[derive(Debug, Clone, PartialEq, Eq)]
pub enum CellValue {
    Empty,
    /// A string typed in the cell (`t="str"`, or untyped text).
    String(String),
    /// An inline string with formatting runs, as its plain text.
    RichText(String),
    /// An entry of the shared strings table.
    SharedString(String),
    /// A formatted entry of the shared strings table, as its plain text.
    SharedRichText(String),
    Bool(bool),
    Error(CellErrorType),
    /// An ISO 8601 date and time (`t="d"`).
    DateTimeIso(String),
    /// A number: its decimal text and the presentation that its style gives it.
    Number { text: String, format: Option<CellFormat> },
}

/// A cell value with its texts as character sequences.
pub enum CellValueView {
    Empty,
    String(Seq<char>),
    RichText(Seq<char>),
    SharedString(Seq<char>),
    SharedRichText(Seq<char>),
    Bool(bool),
    Error(CellErrorType),
    DateTimeIso(Seq<char>),
    Number(Seq<char>, Option<CellFormat>),
}

impl View for CellValue {
    type V = CellValueView;

    open spec fn view(&self) -> CellValueView {
        match self {
            CellValue::Empty => CellValueView::Empty,
            CellValue::String(s) => CellValueView::String(s@),
            CellValue::RichText(s) => CellValueView::RichText(s@),
            CellValue::SharedString(s) => CellValueView::SharedString(s@),
            CellValue::SharedRichText(s) => CellValueView::SharedRichText(s@),
            CellValue::Bool(b) => CellValueView::Bool(*b),
            CellValue::Error(e) => CellValueView::Error(*e),
            CellValue::DateTimeIso(s) => CellValueView::DateTimeIso(s@),
            CellValue::Number { text, format } => CellValueView::Number(text@, *format),
        }
    }
}

/// A cell: its zero-based (row, column), its value and, on the styled paths,
/// its resolved style.
#[derive(Debug, PartialEq)]
pub struct Cell<T> {
    pub pos: (u32, u32),
    pub val: T,
    pub style: Option<Style>,
}

impl<T: View> View for Cell<T> {
    type V = Cell<T::V>;

    open spec fn view(&self) -> Cell<T::V> {
        Cell { pos: self.pos, val: self.val@, style: self.style }
    }
}

impl<T> Cell<T> {
    pub fn new(pos: (u32, u32), val: T) -> (c: Cell<T>)
        ensures
            c.pos == pos,
            c.val == val,
            c.style is None,
    {
        Cell { pos, val, style: None }
    }

    pub fn with_style(pos: (u32, u32), val: T, style: Style) -> (c: Cell<T>)
        ensures
            c.pos == pos,
            c.val == val,
            c.style == Some(style),
    {
        Cell { pos, val, style: Some(style) }
    }

    pub fn get_position(&self) -> (r: (u32, u32))
        ensures
            r == self.pos,
    {
        self.pos
    }

    pub fn get_value(&self) -> (r: &T)
        ensures
            *r == self.val,
    {
        &self.val
    }

    pub fn get_style(&self) -> (r: &Option<Style>)
        ensures
            *r == self.style,
    {
        &self.style
    }
}

/// The description of an error in a specification: an exact error, or one
/// that carries a text, given by its characters.
pub enum ReadError {
    Exact(XlsxError),
    NotAWorksheet(Seq<char>),
    CellTAttribute(Seq<char>),
    CellError(Seq<char>),
}

/// Whether an error is the one that a specification describes.
pub open spec fn error_matches(x: XlsxError, e: ReadError) -> bool {
    match e {
        ReadError::Exact(y) => x == y,
        ReadError::NotAWorksheet(t) => x matches XlsxError::NotAWorksheet(s) && s@ == t,
        ReadError::CellTAttribute(t) => x matches XlsxError::CellTAttribute(s) && s@ == t,
        ReadError::CellError(t) => x matches XlsxError::CellError(s) && s@ == t,
    }
}

/// The error value that an error cell's text names.
pub open spec fn spec_cell_error(b: Seq<u8>) -> Option<CellErrorType> {
    if b == KW_ERR_DIV0@ {
        Some(CellErrorType::Div0)
    } else if b == KW_ERR_NA@ {
        Some(CellErrorType::NA)
    } else if b == KW_ERR_NAME@ {
        Some(CellErrorType::Name)
    } else if b == KW_ERR_NULL@ {
        Some(CellErrorType::Null)
    } else if b == KW_ERR_NUM@ {
        Some(CellErrorType::Num)
    } else if b == KW_ERR_REF@ {
        Some(CellErrorType::Ref)
    } else if b == KW_ERR_VALUE@ {
        Some(CellErrorType::Value)
    } else if b == KW_ERR_GETTING_DATA@ {
        Some(CellErrorType::GettingData)
    } else {
        None
    }
}

/// Parses the text of an error cell.
pub fn parse_cell_error(b: &[u8]) -> (r: Option<CellErrorType>)
    ensures
        r == spec_cell_error(b@),
{
    let div0 = KW_ERR_DIV0;
    let na = KW_ERR_NA;
    let name = KW_ERR_NAME;
    let null = KW_ERR_NULL;
    let num = KW_ERR_NUM;
    let rf = KW_ERR_REF;
    let value = KW_ERR_VALUE;
    let getting = KW_ERR_GETTING_DATA;
    if bytes_eq(b, &div0) {
        Some(CellErrorType::Div0)
    } else if bytes_eq(b, &na) {
        Some(CellErrorType::NA)
    } else if bytes_eq(b, &name) {
        Some(CellErrorType::Name)
    } else if bytes_eq(b, &null) {
        Some(CellErrorType::Null)
    } else if bytes_eq(b, &num) {
        Some(CellErrorType::Num)
    } else if bytes_eq(b, &rf) {
        Some(CellErrorType::Ref)
    } else if bytes_eq(b, &value) {
        Some(CellErrorType::Value)
    } else if bytes_eq(b, &getting) {
        Some(CellErrorType::GettingData)
    } else {
        None
    }
}

/// The characters of `<utf8 error>`.
pub open spec fn utf8_error_text() -> Seq<char> {
    seq!['<', 'u', 't', 'f', '8', ' ', 'e', 'r', 'r', 'o', 'r', '>']
}

/// A style index read from an attribute, kept only when it names an entry of
/// a palette of `styles_len` styles.
pub open spec fn palette_index(v: Seq<u8>, styles_len: nat) -> Option<usize> {
    match spec_atoi(v, atoi_usize_max_len(), usize::MAX as nat) {
        Some(id) => if id < styles_len { Some(id as usize) } else { None },
        None => None,
    }
}

pub fn palette_index_exec(v: &[u8], styles_len: usize) -> (r: Option<usize>)
    ensures
        r == palette_index(v@, styles_len as nat),
{
    match atoi_usize(v) {
        Some(id) => if id < styles_len { Some(id) } else { None },
        None => None,
    }
}

/// The value of a cell whose `<v>` text is `v`: the cell's `t` attribute
/// gives the type: `s` an index into the shared strings, `b` a boolean, `e`
/// an error, `d` an ISO date, `str` a string, `n` a number; without `t` a
/// number when the text is one, else a string. `style_id` selects the number
/// presentation.
pub open spec fn spec_read_v(
    v: Seq<char>,
    strings: Seq<SharedString>,
    formats: Seq<CellFormat>,
    c: XmlElement,
    style_id: Option<usize>,
) -> Result<CellValueView, ReadError> {
    let format = match style_id {
        Some(id) => if id < formats.len() { Some(formats[id as int]) } else { None },
        None => None,
    };
    let b = encode_utf8(v);
    match spec_get_attribute(c, KW_T@) {
        Err(x) => Err(ReadError::Exact(x)),
        Ok(Some(t)) => if t == KW_S@ {
            let idx = match spec_atoi(b, atoi_usize_max_len(), usize::MAX as nat) {
                Some(k) => k,
                None => 0,
            };
            if idx < strings.len() {
                match strings[idx as int] {
                    SharedString::Text(s) => Ok(CellValueView::SharedString(s@)),
                    SharedString::RichText(s) => Ok(CellValueView::SharedRichText(s@)),
                    SharedString::Other => Err(ReadError::Exact(XlsxError::Unexpected(Unexpected::SharedStringNotText))),
                }
            } else {
                Err(ReadError::Exact(XlsxError::Unexpected(Unexpected::SharedStringIndexMissing)))
            }
        } else if t == KW_B@ {
            Ok(CellValueView::Bool(b != KW_ZERO@))
        } else if t == KW_E@ {
            match spec_cell_error(b) {
                Some(e) => Ok(CellValueView::Error(e)),
                None => Err(ReadError::CellError(v)),
            }
        } else if t == KW_D@ {
            Ok(CellValueView::DateTimeIso(v))
        } else if t == KW_STR@ {
            Ok(CellValueView::String(v))
        } else if t == KW_N@ {
            if v.len() == 0 {
                Ok(CellValueView::Empty)
            } else if is_float_literal(b) {
                Ok(CellValueView::Number(v, format))
            } else {
                Err(ReadError::Exact(XlsxError::ParseFloat))
            }
        } else if t == KW_IS@ {
            Err(ReadError::Exact(XlsxError::Unexpected(Unexpected::InlineStringType)))
        } else {
            Err(ReadError::CellTAttribute(if valid_utf8(t) { decode_utf8(t) } else { utf8_error_text() }))
        },
        Ok(None) => if is_float_literal(b) {
            Ok(CellValueView::Number(v, format))
        } else {
            Ok(CellValueView::String(v))
        },
    }
}

/// An executable result agrees with a specified one.
pub open spec fn value_agrees(r: Result<CellValue, XlsxError>, s: Result<CellValueView, ReadError>) -> bool {
    match (r, s) {
        (Ok(a), Ok(b)) => a@ == b,
        (Err(x), Err(e)) => error_matches(x, e),
        _ => false,
    }
}

fn copy_string(s: &String) -> (r: String)
    ensures
        r@ == s@,
{
    s.clone()
}

/// read the contents of a <v> cell
pub fn read_v(
    v: String,
    strings: &Vec<SharedString>,
    formats: &Vec<CellFormat>,
    c_element: &XmlElement,
    style_id: Option<usize>,
) -> (r: Result<CellValue, XlsxError>)
    ensures
        value_agrees(r, spec_read_v(v@, strings@, formats@, *c_element, style_id)),
{
    let format = match style_id {
        Some(id) => if id < formats.len() { Some(formats[id]) } else { None },
        None => None,
    };
    let k_t = KW_T;
    let t = match get_attribute(c_element, &k_t) {
        Err(x) => {
            return Err(x);
        },
        Ok(t) => t,
    };
    let is_number = is_float_literal_exec(v.as_str().as_bytes());
    match t {
        None => {
            if is_number {
                Ok(CellValue::Number { text: v, format })
            } else {
                Ok(CellValue::String(v))
            }
        },
        Some(t) => {
            let k_s = KW_S;
            let k_b = KW_B;
            let k_e = KW_E;
            let k_d = KW_D;
            let k_str = KW_STR;
            let k_n = KW_N;
            let k_is = KW_IS;
            let k_zero = KW_ZERO;
            if bytes_eq(t, &k_s) {
                let idx = match atoi_usize(v.as_str().as_bytes()) {
                    Some(k) => k,
                    None => 0,
                };
                if idx < strings.len() {
                    match &strings[idx] {
                        SharedString::Text(s) => Ok(CellValue::SharedString(copy_string(s))),
                        SharedString::RichText(s) => Ok(CellValue::SharedRichText(copy_string(s))),
                        SharedString::Other => Err(XlsxError::Unexpected(Unexpected::SharedStringNotText)),
                    }
                } else {
                    Err(XlsxError::Unexpected(Unexpected::SharedStringIndexMissing))
                }
            } else if bytes_eq(t, &k_b) {
                Ok(CellValue::Bool(!bytes_eq(v.as_str().as_bytes(), &k_zero)))
            } else if bytes_eq(t, &k_e) {
                match parse_cell_error(v.as_str().as_bytes()) {
                    Some(e) => Ok(CellValue::Error(e)),
                    None => Err(XlsxError::CellError(v)),
                }
            } else if bytes_eq(t, &k_d) {
                Ok(CellValue::DateTimeIso(v))
            } else if bytes_eq(t, &k_str) {
                Ok(CellValue::String(v))
            } else if bytes_eq(t, &k_n) {
                if v.as_str().is_empty() {
                    Ok(CellValue::Empty)
                } else if is_number {
                    Ok(CellValue::Number { text: v, format })
                } else {
                    Err(XlsxError::ParseFloat)
                }
            } else if bytes_eq(t, &k_is) {
                Err(XlsxError::Unexpected(Unexpected::InlineStringType))
            } else {
                match utf8_str(t) {
                    Some(name) => Err(XlsxError::CellTAttribute(name.to_owned())),
                    None => {
                        let text = String::from_str("<utf8 error>");
                        proof {
                            reveal_strlit("<utf8 error>");
                        }
                        assert(text@ =~= utf8_error_text());
                        Err(XlsxError::CellTAttribute(text))
                    },
                }
            }
        },
    }
}

/// What a `<row>` element says: its zero-based row number (attribute `r`),
/// and the row's style (attribute `s`, a valid palette index), which applies
/// only when `customFormat` is on.
pub open spec fn spec_row_state(e: XmlElement, styles_len: nat) -> Result<(Option<u32>, Option<usize>), XlsxError> {
    match spec_get_attribute(e, KW_R@) {
        Err(x) => Err(x),
        Ok(r) => {
            let row = match r {
                Some(v) => match spec_get_row(v) {
                    Ok(n) => Ok(Some(n)),
                    Err(x) => Err(x),
                },
                None => Ok(None),
            };
            match row {
                Err(x) => Err(x),
                Ok(row) => match spec_get_attribute(e, KW_CUSTOM_FORMAT@) {
                    Err(x) => Err(x),
                    Ok(cf) => {
                        let custom = match cf {
                            Some(v) => spec_ooxml_bool(v),
                            None => Ok(false),
                        };
                        match custom {
                            Err(x) => Err(x),
                            Ok(custom) => match spec_get_attribute(e, KW_S@) {
                                Err(x) => Err(x),
                                Ok(sv) => {
                                    let style = match sv {
                                        Some(v) => palette_index(v, styles_len),
                                        None => None,
                                    };
                                    Ok((row, if custom { style } else { None }))
                                },
                            },
                        }
                    },
                },
            }
        },
    }
}

/// A row style that a `<row>` element gives names a palette entry.
pub proof fn lemma_row_state_style(e: XmlElement, styles_len: nat)
    ensures
        spec_row_state(e, styles_len) matches Ok((_, Some(id))) ==> id < styles_len,
{
}

/// Reads the row number and the applicable row style of a `<row>` element.
pub fn row_state(row_element: &XmlElement, styles_len: usize) -> (r: Result<(Option<u32>, Option<usize>), XlsxError>)
    ensures
        r == spec_row_state(*row_element, styles_len as nat),
        r matches Ok((_, Some(id))) ==> id < styles_len,
{
    let k_r = KW_R;
    let k_cf = KW_CUSTOM_FORMAT;
    let k_s = KW_S;
    let row = match get_attribute(row_element, &k_r) {
        Err(x) => {
            return Err(x);
        },
        Ok(Some(v)) => match get_row(v) {
            Ok(n) => Some(n),
            Err(x) => {
                return Err(x);
            },
        },
        Ok(None) => None,
    };
    let custom = match get_attribute(row_element, &k_cf) {
        Err(x) => {
            return Err(x);
        },
        Ok(Some(v)) => match parse_ooxml_bool(v) {
            Ok(b) => b,
            Err(x) => {
                return Err(x);
            },
        },
        Ok(None) => false,
    };
    let style = match get_attribute(row_element, &k_s) {
        Err(x) => {
            return Err(x);
        },
        Ok(Some(v)) => palette_index_exec(v, styles_len),
        Ok(None) => None,
    };
    Ok((row, if custom { style } else { None }))
}

/// The style of a cell: an explicit `s` attribute wins (kept only when it is
/// a valid palette index); without one, the row style, else the style of the
/// cell's column. The flag tells whether the cell has an `s` attribute.
pub open spec fn spec_resolved_cell_style_id(
    e: XmlElement,
    column: u32,
    row_style: Option<usize>,
    column_styles: Seq<Option<usize>>,
    styles_len: nat,
) -> Result<(bool, Option<usize>), XlsxError> {
    match spec_get_attribute(e, KW_S@) {
        Err(x) => Err(x),
        Ok(Some(v)) => Ok((true, palette_index(v, styles_len))),
        Ok(None) => Ok((false, match row_style {
            Some(id) => Some(id),
            None => if column < column_styles.len() { column_styles[column as int] } else { None },
        })),
    }
}

/// Resolves the style index of a cell.
pub fn resolved_cell_style_id(
    cell_element: &XmlElement,
    column: u32,
    row_style: Option<usize>,
    column_styles: &Vec<Option<usize>>,
    styles_len: usize,
) -> (r: Result<(bool, Option<usize>), XlsxError>)
    ensures
        r == spec_resolved_cell_style_id(*cell_element, column, row_style, column_styles@, styles_len as nat),
{
    let k_s = KW_S;
    match get_attribute(cell_element, &k_s) {
        Err(x) => Err(x),
        Ok(Some(v)) => Ok((true, palette_index_exec(v, styles_len))),
        Ok(None) => {
            let inherited = match row_style {
                Some(id) => Some(id),
                None => if (column as usize) < column_styles.len() {
                    column_styles[column as usize]
                } else {
                    None
                },
            };
            Ok((false, inherited))
        },
    }
}

/// The position of a cell: its `r` attribute when present (which also sets
/// the column counter), else the current row and column counters.
pub open spec fn spec_cell_position(e: XmlElement, row_index: u32, col_index: u32) -> Result<((u32, u32), u32), XlsxError> {
    match spec_get_attribute(e, KW_R@) {
        Err(x) => Err(x),
        Ok(Some(v)) => match spec_get_row_column(v) {
            Ok((row, col)) => Ok(((row, col), col)),
            Err(x) => Err(x),
        },
        Ok(None) => Ok(((row_index, col_index), col_index)),
    }
}

/// Finds a cell's position; returns it and the new column counter.
pub fn cell_position(e: &XmlElement, row_index: u32, col_index: u32) -> (r: Result<((u32, u32), u32), XlsxError>)
    ensures
        r == spec_cell_position(*e, row_index, col_index),
{
    let k_r = KW_R;
    match get_attribute(e, &k_r) {
        Err(x) => Err(x),
        Ok(Some(v)) => match get_row_column(v) {
            Ok((row, col)) => Ok(((row, col), col)),
            Err(x) => Err(x),
        },
        Ok(None) => Ok(((row_index, col_index), col_index)),
    }
}

/// The style attached to a cell on the styled paths: the resolved style, or
/// the palette's first style when the cell has no `s` attribute and nothing
/// is inherited; its `style_id` records the palette index.
pub open spec fn spec_attached_style(styles: Seq<Style>, has_override: bool, resolved: Option<usize>) -> Option<Style> {
    let id = match resolved {
        Some(id) => Some(id),
        None => if !has_override && styles.len() > 0 { Some(0usize) } else { None },
    };
    match id {
        Some(id) => Some(Style { style_id: Some(id as u32), ..styles[id as int] }),
        None => None,
    }
}

/// The palette entry `id` with its index recorded.
pub open spec fn spec_indexed_style(styles: Seq<Style>, id: usize) -> Style {
    Style { style_id: Some(id as u32), ..styles[id as int] }
}

/// Copies palette entry `id` and records its index.
pub fn indexed_style(styles: &Vec<Style>, id: usize) -> (r: Style)
    requires
        id < styles@.len(),
    ensures
        r == spec_indexed_style(styles@, id),
{
    let mut s = styles[id].duplicate();
    s.style_id = Some(id as u32);
    s
}

/// Attaches the resolved style of a cell.
pub fn attached_style(styles: &Vec<Style>, has_override: bool, resolved: Option<usize>) -> (r: Option<Style>)
    requires
        resolved matches Some(id) ==> id < styles@.len(),
    ensures
        r == spec_attached_style(styles@, has_override, resolved),
{
    let id = match resolved {
        Some(id) => Some(id),
        None => if !has_override && styles.len() > 0 { Some(0usize) } else { None },
    };
    match id {
        Some(id) => Some(indexed_style(styles, id)),
        None => None,
    }
}

} // verus!
