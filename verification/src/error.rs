//! Errors of the XLSX style and cell readers.

use vstd::prelude::*;

verus! {

/// A failure of the XML tokenizer.
#[derive(Debug, Clone, PartialEq, Eq)]
pub enum XmlError {
    /// The tokenizer rejected the document; the text is its diagnostic.
    Syntax(String),
    /// The document ended before the awaited closing tag.
    MissingEndTag,
}

/// The element whose closing tag was still awaited when the document ended.
#[derive(Debug, Clone, Copy, PartialEq, Eq, Structural)]
pub enum EofContext {
    Font,
    Fill,
    Border,
    BorderSide,
    String,
    SheetData,
    Cell,
    Value,
    Formula,
    InlineString,
}

/// The malformed construct behind an `Unexpected` error.
#[derive(Debug, Clone, Copy, PartialEq, Eq, Structural)]
pub enum Unexpected {
    InvalidAlphaColor,
    InvalidRedColor,
    InvalidGreenColor,
    InvalidBlueColor,
    InvalidOoxmlBoolean,
    SharedStringNotText,
    SharedStringIndexMissing,
    InlineStringType,
    SharedIndexNotNumber,
    SharedIndexMissing,
    ColumnNumberOverflow,
    CellNameEncoding,
}

/// A reference to an XML entity that cannot be resolved.
#[derive(Debug, Clone, Copy, PartialEq, Eq, Structural)]
pub enum EscapeError {
    /// `&name;` is neither a character reference nor a predefined entity.
    UnrecognizedEntity,
    /// `&#...;` does not denote a character.
    InvalidCharRef,
}

/// Everything that can go wrong while reading styles or cells.
#[derive(Debug, Clone, PartialEq, Eq)]
pub enum XlsxError {
    /// The XML tokenizer failed.
    Xml(XmlError),
    /// An element's attribute list is malformed.
    XmlAttr,
    /// The document ended inside the given element.
    XmlEof(EofContext),
    /// A value is present but does not have the expected form.
    Unexpected(Unexpected),
    /// A cell holds a child other than `v`, `f` or `is`.
    UnexpectedNode,
    /// The part does not hold a worksheet; its first element's name is given.
    NotAWorksheet(String),
    /// A cell's `t` attribute names no known cell type.
    CellTAttribute(String),
    /// An error cell's value is not a known spreadsheet error.
    CellError(String),
    /// A number cell's value is not a decimal floating-point literal.
    ParseFloat,
    /// A text run is not valid UTF-8.
    Encoding,
    /// An entity reference cannot be resolved.
    Escape(EscapeError),
    /// A range reference has the given number of parts, not one or two.
    DimensionCount(usize),
    /// A cell reference lacks its row number.
    RangeWithoutRowComponent,
    /// A cell reference lacks its column letters.
    RangeWithoutColumnComponent,
    /// A digit stands where a column letter is expected.
    NumericColumn(u8),
    /// A byte that is neither a letter nor a digit stands in a cell reference.
    Alphanumeric(u8),
    /// A cell reference's row or column number does not fit in 32 bits.
    CellOutOfRange,
    /// A `col` element's `min`/`max` span is empty or beyond the last column.
    InvalidColumnSpan,
}

impl XmlError {
    /// A copy of the error.
    pub fn copy(&self) -> (r: XmlError)
        ensures
            r == *self,
    {
        match self {
            XmlError::Syntax(s) => XmlError::Syntax(s.clone()),
            XmlError::MissingEndTag => XmlError::MissingEndTag,
        }
    }
}

} // verus!
