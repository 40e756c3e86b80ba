//! Reading cell styles and cells of XLSX worksheets from their XML parts.

pub mod error;
pub mod keywords;
pub mod xml;
pub mod xml_reader;
pub mod numbers;
pub mod style;
pub mod colors;
pub mod tint;
pub mod style_parser;
pub mod text;
pub mod stream;
pub mod cell_ref;
pub mod cells;
pub mod cell_content;
pub mod cells_reader;
pub mod laws;
pub mod keyword_laws;
pub mod reference_laws;
