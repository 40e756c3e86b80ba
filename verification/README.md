# calamine_styles

Reading cell styles and cells of XLSX worksheets, with every parser's
result stated as a specification and proved.

The readers work on an XML event stream (`xml::XmlEvent`), which
`xml_reader::read_events` produces from the events that `quick_xml` reads,
stated exactly over the names that the tokenizer's trusted items give them. Every parser states its
result as a specification function over that stream, and the executable code
is proved to compute it.

- `style_parser`, `colors`, `tint`, `style`: fonts, fills, borders,
  alignment, protection and colors of the style sheet, with OOXML tints
  applied in exact arithmetic.
- `cells_reader`: the streaming worksheet reader (`XlsxCellReader`): cell
  values, formulas (with shared formulas), resolved styles and style indices.
- `cell_content`, `cells`, `cell_ref`: the content of one cell, cell values,
  and cell references and ranges.
- `stream`, `text`, `xml`, `numbers`, `keywords`: walking the event stream,
  character data, attribute lookup, number parsing and the names of the
  format.
- `laws`: properties that hold across calls, such as that the value-only
  path reads the same cells as the styled one.

`app/` holds what stays outside the verified library: floating-point values
of number cells and font sizes, and the tokenizer settings for worksheet
parts.
