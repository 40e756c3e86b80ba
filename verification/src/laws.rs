//! Properties of the readers that hold across calls and for every input.

use vstd::prelude::*;
use crate::cell_content::{lemma_cell_formula_bounds, lemma_cell_value_bounds, lemma_skip_cell_bounds};
use crate::cells::{palette_index, spec_cell_position, spec_resolved_cell_style_id, spec_row_state};
use crate::cells_reader::{
    at_cell, cell_element, formula_cell, lemma_at_cell_not_last, lemma_resolved_in_palette, lemma_seek_cell,
    keeps_sheet, next_cell_final, next_formula_final, next_style_final, next_style_id_final, seek_final,
    value_cell_final, formula_cell_final, style_cell_final,
    lemma_style_id_cell, next_index, seek_cell, spec_next_cell, spec_next_formula, spec_next_style,
    spec_next_style_id, state_wf, style_cell, style_id_cell, value_cell, ReaderState,
};
use crate::keywords::{KW_COLOR, KW_E, KW_D, KW_N, KW_STR, KW_LOCKED, KW_HIDDEN, KW_BOLD, KW_NORMAL, KW_700, KW_400, KW_T, KW_SHARED, KW_SI, KW_REF, KW_LEFT, KW_RIGHT, KW_TOP, KW_BOTTOM, KW_U, KW_B, KW_I, KW_STRIKE, KW_NAME, KW_SZ, KW_FAMILY, KW_VAL, KW_ONE, KW_TRUE, KW_ZERO, KW_FALSE, KW_CUSTOM_FORMAT, KW_DIAGONAL, KW_HORIZONTAL, KW_INDENT, KW_S, KW_SHRINK_TO_FIT, KW_TEXT_ROTATION, KW_VERTICAL, KW_WRAP_TEXT};
use crate::style::{spec_alignment_new, Border, Borders, Color};
use crate::style_parser::{alignment_upto, spec_apply_border, spec_diagonal_flags, spec_ooxml_bool, spec_parse_alignment, spec_parse_border};
use crate::cells::{spec_read_v, Cell, CellFormat, CellValueView, ReadError, SharedString};
use crate::error::Unexpected;
use crate::numbers::is_float_literal;
use crate::error::XlsxError;
use crate::style::Style;
use crate::style::{FontStyle, FontView, FontWeight, UnderlineStyle};
use crate::style_parser::{protection_upto, spec_parse_protection, spec_horizontal_alignment, spec_vertical_alignment, font_from, font_with_text, spec_font_style, spec_font_weight, spec_parse_color, spec_underline_style};
use crate::stream::{lemma_read_text_bounds, lemma_skip_to_end_bounds, read_text_from, skip_to_end_from};
use crate::text::spec_utf8_lossy;
use crate::cell_content::{shared_formula_step, SharedFormulaView};
use crate::cell_ref::{spec_get_dimension, spec_replace_cell_names, Dimensions};
use crate::numbers::{all_digits, atoi_usize_max_len, decimal_value, is_digit, spec_atoi, unsigned_digits};
use vstd::utf8::encode_utf8;
use crate::error::EofContext;
use crate::xml::{events_wf, spec_local_name, spec_get_attribute, XmlAttribute, XmlElement, XmlEvent};

verus! {

proof fn lemma_value_cell(st: ReaderState, include_style: bool)
    requires
        state_wf(st),
        at_cell(st),
    ensures
        value_cell(st, include_style) matches Ok((_, st2)) ==> state_wf(st2) && st.pos < st2.pos && keeps_sheet(st, st2),
{
    let c = cell_element(st);
    lemma_at_cell_not_last(st);
    if let Ok((pos, col)) = spec_cell_position(c, st.row_index, st.col_index) {
        if let Ok((h, resolved)) = spec_resolved_cell_style_id(c, pos.1, st.row_style, st.column_styles, st.styles.len()) {
            lemma_cell_value_bounds(st.events, st.pos + 1, c, st.strings, st.formats, resolved, crate::cells::CellValueView::Empty);
        }
    }
}

proof fn lemma_formula_cell(st: ReaderState, include_style: bool)
    requires
        state_wf(st),
        at_cell(st),
    ensures
        formula_cell(st, include_style) matches Ok((_, st2)) ==> state_wf(st2) && st.pos < st2.pos && keeps_sheet(st, st2),
{
    let c = cell_element(st);
    lemma_at_cell_not_last(st);
    if let Ok((pos, col)) = spec_cell_position(c, st.row_index, st.col_index) {
        lemma_cell_formula_bounds(st.events, st.pos + 1, pos, st.formulas, None);
    }
}

proof fn lemma_style_cell(st: ReaderState)
    requires
        state_wf(st),
        at_cell(st),
    ensures
        style_cell(st) matches Ok((_, st2)) ==> state_wf(st2) && st.pos < st2.pos && keeps_sheet(st, st2),
{
    lemma_at_cell_not_last(st);
    lemma_skip_cell_bounds(st.events, st.pos + 1);
}

/// Every read moves the reader forward and keeps it well formed; the events,
/// the workbook tables, the sheet's dimension and its column styles stay as
/// they were. So a sequence of reads ends.
pub proof fn reading_moves_forward(st: ReaderState, include_style: bool)
    requires
        state_wf(st),
    ensures
        spec_next_cell(st, include_style) matches Ok((_, st2)) ==> state_wf(st2) && st.pos < st2.pos && keeps_sheet(st, st2),
        spec_next_formula(st, include_style) matches Ok((_, st2)) ==> state_wf(st2) && st.pos < st2.pos && keeps_sheet(st, st2),
        spec_next_style(st) matches Ok((_, st2)) ==> state_wf(st2) && st.pos < st2.pos && keeps_sheet(st, st2),
        spec_next_style_id(st) matches Ok((_, st2)) ==> state_wf(st2) && st.pos < st2.pos && keeps_sheet(st, st2),
{
    lemma_seek_cell(st);
    if let Ok((true, st1)) = seek_cell(st) {
        lemma_value_cell(st1, include_style);
        lemma_formula_cell(st1, include_style);
        lemma_style_cell(st1);
    }
    style_ids_stay_in_palette(st);
}

/// `next_style_id` gives only styled cells, and their style index names an
/// entry of the palette; the reader moves forward and keeps the sheet.
pub proof fn style_ids_stay_in_palette(st: ReaderState)
    requires
        state_wf(st),
    ensures
        spec_next_style_id(st) matches Ok((Some((_, _, id)), _)) ==> id < st.styles.len(),
        spec_next_style_id(st) matches Ok((_, st2)) ==> state_wf(st2) && st.pos < st2.pos && keeps_sheet(st, st2),
    decreases st.events.len() - st.pos,
{
    lemma_seek_cell(st);
    if let Ok((true, st1)) = seek_cell(st) {
        lemma_style_id_cell(st1);
        lemma_resolved_in_palette(st1, cell_element(st1), 0);
        let c = cell_element(st1);
        if let Ok((pos, col)) = spec_cell_position(c, st1.row_index, st1.col_index) {
            lemma_resolved_in_palette(st1, c, pos.1);
        }
        if let Ok((None, st2)) = style_id_cell(st1) {
            style_ids_stay_in_palette(st2);
        }
    }
}

/// The value-only path reads the same cells as the styled path: the same
/// outcome, positions and values; only the style is left out. Whatever the
/// outcome, `next_cell` and `next_cell_value_only` both leave the reader in
/// `next_cell_final` of where it was, so two readers in the same state stay
/// in the same state.
pub proof fn value_only_reads_the_same_cells(st: ReaderState)
    ensures
        match (spec_next_cell(st, false), spec_next_cell(st, true)) {
            (Ok((None, a)), Ok((None, b))) => a == b,
            (Ok((Some(c), a)), Ok((Some(d), b))) => a == b && c.pos == d.pos && c.val == d.val && c.style is None,
            (Err(x), Err(y)) => x == y,
            _ => false,
        },
        spec_next_cell(st, false) matches Ok((_, a)) ==> a == next_cell_final(st),
{
    lemma_next_final_matches(st);
}

/// On success each read leaves the reader where its `*_final` function says.
proof fn lemma_next_final_matches(st: ReaderState)
    ensures
        spec_next_cell(st, false) matches Ok((_, a)) ==> a == next_cell_final(st),
        spec_next_cell(st, true) matches Ok((_, a)) ==> a == next_cell_final(st),
        spec_next_style(st) matches Ok((_, a)) ==> a == next_style_final(st),
{
    lemma_seek_final_success(st);
}

proof fn lemma_seek_final_success(st: ReaderState)
    ensures
        seek_cell(st) matches Ok((_, st2)) ==> seek_final(st) == st2,
    decreases st.events.len() - st.pos,
{
    if 0 <= st.pos < st.events.len() {
        match st.events[st.pos] {
            XmlEvent::Start(e) => {
                if let Ok((ri, rs)) = spec_row_state(e, st.styles.len()) {
                    lemma_seek_final_success(ReaderState {
                        pos: st.pos + 1,
                        row_index: match ri {
                            Some(r) => r,
                            None => st.row_index,
                        },
                        row_style: rs,
                        ..st
                    });
                }
                lemma_seek_final_success(ReaderState { pos: st.pos + 1, ..st });
            },
            XmlEvent::End(n) => {
                lemma_seek_final_success(ReaderState {
                    pos: st.pos + 1,
                    row_index: next_index(st.row_index),
                    col_index: 0,
                    row_style: None,
                    ..st
                });
                lemma_seek_final_success(ReaderState { pos: st.pos + 1, ..st });
            },
            XmlEvent::Eof => {},
            XmlEvent::Error(_) => {},
            _ => {
                lemma_seek_final_success(ReaderState { pos: st.pos + 1, ..st });
            },
        }
    }
}

/// Reading keeps the sheet whatever the outcome: after any read, successful
/// or not, the events, the workbook tables, the sheet's dimension, its column
/// styles and the palette are those the reader had, and the reader stays
/// well formed.
pub proof fn reading_keeps_the_sheet(st: ReaderState, include_style: bool)
    requires
        state_wf(st),
    ensures
        keeps_sheet(st, next_cell_final(st)) && state_wf(next_cell_final(st)),
        keeps_sheet(st, next_formula_final(st, include_style)) && state_wf(next_formula_final(st, include_style)),
        keeps_sheet(st, next_style_final(st)) && state_wf(next_style_final(st)),
        keeps_sheet(st, next_style_id_final(st)) && state_wf(next_style_id_final(st)),
{
    lemma_seek_cell(st);
    if let Ok((true, st1)) = seek_cell(st) {
        lemma_value_cell(st1, false);
        lemma_formula_cell(st1, include_style);
        lemma_style_cell(st1);
        let c = cell_element(st1);
        if let Ok((pos, col)) = spec_cell_position(c, st1.row_index, st1.col_index) {
            lemma_resolved_in_palette(st1, c, pos.1);
        }
    }
    lemma_style_id_final_keeps(st);
}

proof fn lemma_style_id_final_keeps(st: ReaderState)
    requires
        state_wf(st),
    ensures
        keeps_sheet(st, next_style_id_final(st)) && state_wf(next_style_id_final(st)),
    decreases st.events.len() - st.pos,
{
    lemma_seek_cell(st);
    if let Ok((true, st1)) = seek_cell(st) {
        lemma_style_id_cell(st1);
        lemma_style_cell(st1);
        if let Ok((None, st2)) = style_id_cell(st1) {
            lemma_style_id_final_keeps(st2);
        }
    }
}

/// Whether the style of the next cell resolves without an error (it fails
/// only on a malformed attribute list of the `<c>` element).
pub open spec fn next_cell_style_resolves(st: ReaderState) -> bool {
    match seek_cell(st) {
        Ok((true, st1)) => {
            let c = cell_element(st1);
            match spec_cell_position(c, st1.row_index, st1.col_index) {
                Ok((pos, _)) => spec_resolved_cell_style_id(c, pos.1, st1.row_style, st1.column_styles, st1.styles.len()) is Ok,
                Err(_) => true,
            }
        },
        _ => true,
    }
}

/// The formula path without styles reads the same formulas as the styled
/// one, whenever the next cell's style resolves (the styled path alone looks
/// at the style attribute).
pub proof fn formula_value_only_reads_the_same_cells(st: ReaderState)
    requires
        next_cell_style_resolves(st),
    ensures
        match (spec_next_formula(st, false), spec_next_formula(st, true)) {
            (Ok((None, a)), Ok((None, b))) => a == b,
            (Ok((Some(c), a)), Ok((Some(d), b))) => a == b && c.pos == d.pos && c.val == d.val && c.style is None,
            (Err(x), Err(y)) => x == y,
            _ => false,
        },
{
}

/// A cell's column counter moves one past the cell just read, so a cell
/// without an `r` attribute is placed right after the previous cell.
pub proof fn next_column_follows_the_cell(st: ReaderState, include_style: bool)
    ensures
        spec_next_cell(st, include_style) matches Ok((Some(c), st2)) ==> st2.col_index == next_index(c.pos.1),
        spec_next_formula(st, include_style) matches Ok((Some(c), st2)) ==> st2.col_index == next_index(c.pos.1),
        spec_next_style(st) matches Ok((Some(c), st2)) ==> st2.col_index == next_index(c.pos.1),
{
}

/// `next_style` and `next_style_id` resolve a cell to the same palette
/// entry: the style of `next_style` is that entry with its index, or the
/// default style exactly when `next_style_id` passes the cell over.
pub proof fn style_paths_agree(st: ReaderState)
    requires
        at_cell(st),
    ensures
        match (style_cell(st), style_id_cell(st)) {
            (Ok((c, a)), Ok((Some((row, col, id)), b))) => a == b && c.pos == (row, col)
                && c.val == crate::cells::spec_indexed_style(st.styles, id),
            (Ok((c, a)), Ok((None, b))) => a == b && c.val == crate::style::spec_style_new(),
            (Err(x), Err(y)) => x == y,
            _ => false,
        },
{
}

/// An explicit `s` attribute on a cell wins over the row and column
/// defaults (kept only when it names a palette entry); without one the row
/// style applies, and only without a row style the column's style.
pub proof fn explicit_cell_style_wins(
    e: XmlElement,
    column: u32,
    row_style: Option<usize>,
    column_styles: Seq<Option<usize>>,
    styles_len: nat,
)
    ensures
        spec_get_attribute(e, KW_S@) matches Ok(Some(v)) ==> spec_resolved_cell_style_id(e, column, row_style, column_styles, styles_len)
            == Ok::<(bool, Option<usize>), crate::error::XlsxError>((true, palette_index(v, styles_len))),
        spec_get_attribute(e, KW_S@) matches Ok(None) ==> (row_style is Some ==> spec_resolved_cell_style_id(e, column, row_style, column_styles, styles_len)
            == Ok::<(bool, Option<usize>), crate::error::XlsxError>((false, row_style))),
{
}

/// A row's style applies to its cells only when the row says
/// `customFormat="1"` (or `true`).
pub proof fn row_style_needs_custom_format(e: XmlElement, styles_len: nat)
    ensures
        spec_row_state(e, styles_len) matches Ok((_, Some(_))) ==> (spec_get_attribute(e, KW_CUSTOM_FORMAT@) matches Ok(Some(v))
            && spec_ooxml_bool(v) == Ok::<bool, crate::error::XlsxError>(true)),
{
}

/// The `diagonal` side of a border goes to the up and the down diagonal as
/// the parent `<border>` element's flags say, and to nothing else.
pub proof fn diagonal_direction_comes_from_the_parent(borders: Borders, border: Border, down: bool, up: bool)
    ensures
        ({
            let b = spec_apply_border(borders, KW_DIAGONAL@, border, down, up);
            &&& b.diagonal_up == (if up { border } else { borders.diagonal_up })
            &&& b.diagonal_down == (if down { border } else { borders.diagonal_down })
            &&& b.left == borders.left && b.right == borders.right
            &&& b.top == borders.top && b.bottom == borders.bottom
        }),
{
}

/// A `<border>` whose diagonal flags are malformed is rejected, whatever its
/// sides hold.
pub proof fn malformed_diagonal_direction_is_rejected(evs: Seq<XmlEvent>, i: int, start: XmlElement, theme_colors: Seq<Color>)
    requires
        spec_diagonal_flags(start) is Err,
    ensures
        spec_parse_border(evs, i, start, theme_colors) is Err,
{
}

/// An OOXML boolean is one of `1`, `true`, `0`, `false`; nothing else is
/// accepted.
pub proof fn ooxml_booleans(v: Seq<u8>)
    ensures
        spec_ooxml_bool(v) == Ok::<bool, crate::error::XlsxError>(true) <==> (v == seq![49u8] || v == seq![116u8, 114u8, 117u8, 101u8]),
        spec_ooxml_bool(v) == Ok::<bool, crate::error::XlsxError>(false) <==> (v == seq![48u8] || v == seq![102u8, 97u8, 108u8, 115u8, 101u8]),
{
    assert(KW_ONE@ =~= seq![49u8]);
    assert(KW_TRUE@ =~= seq![116u8, 114u8, 117u8, 101u8]);
    assert(KW_ZERO@ =~= seq![48u8]);
    assert(KW_FALSE@ =~= seq![102u8, 97u8, 108u8, 115u8, 101u8]);
}

proof fn lemma_alignment_omitted(attrs: Seq<XmlAttribute>, n: int)
    requires
        0 <= n <= attrs.len(),
    ensures
        (forall|j: int| 0 <= j < n ==> (#[trigger] attrs[j]).key@ != KW_HORIZONTAL@)
            ==> alignment_upto(attrs, n).horizontal == spec_alignment_new().horizontal,
        (forall|j: int| 0 <= j < n ==> (#[trigger] attrs[j]).key@ != KW_VERTICAL@)
            ==> alignment_upto(attrs, n).vertical == spec_alignment_new().vertical,
        (forall|j: int| 0 <= j < n ==> (#[trigger] attrs[j]).key@ != KW_WRAP_TEXT@)
            ==> alignment_upto(attrs, n).wrap_text == spec_alignment_new().wrap_text,
        (forall|j: int| 0 <= j < n ==> (#[trigger] attrs[j]).key@ != KW_TEXT_ROTATION@)
            ==> alignment_upto(attrs, n).text_rotation == spec_alignment_new().text_rotation,
        (forall|j: int| 0 <= j < n ==> (#[trigger] attrs[j]).key@ != KW_INDENT@)
            ==> alignment_upto(attrs, n).indent == spec_alignment_new().indent,
        (forall|j: int| 0 <= j < n ==> (#[trigger] attrs[j]).key@ != KW_SHRINK_TO_FIT@)
            ==> alignment_upto(attrs, n).shrink_to_fit == spec_alignment_new().shrink_to_fit,
    decreases n,
{
    if n > 0 {
        lemma_alignment_omitted(attrs, n - 1);
        let prev = attrs[n - 1];
        assert(prev == attrs[n - 1]);
    }
}

/// An alignment property that the element omits keeps its default value.
pub proof fn omitted_alignment_properties_keep_defaults(e: XmlElement)
    requires
        !e.malformed_attributes,
    ensures
        spec_parse_alignment(e) matches Ok(a) && {
            let attrs = e.attributes@;
            &&& (forall|j: int| 0 <= j < attrs.len() ==> (#[trigger] attrs[j]).key@ != KW_HORIZONTAL@)
                ==> a.horizontal == spec_alignment_new().horizontal
            &&& (forall|j: int| 0 <= j < attrs.len() ==> (#[trigger] attrs[j]).key@ != KW_VERTICAL@)
                ==> a.vertical == spec_alignment_new().vertical
            &&& (forall|j: int| 0 <= j < attrs.len() ==> (#[trigger] attrs[j]).key@ != KW_WRAP_TEXT@)
                ==> a.wrap_text == spec_alignment_new().wrap_text
            &&& (forall|j: int| 0 <= j < attrs.len() ==> (#[trigger] attrs[j]).key@ != KW_TEXT_ROTATION@)
                ==> a.text_rotation == spec_alignment_new().text_rotation
            &&& (forall|j: int| 0 <= j < attrs.len() ==> (#[trigger] attrs[j]).key@ != KW_INDENT@)
                ==> a.indent == spec_alignment_new().indent
            &&& (forall|j: int| 0 <= j < attrs.len() ==> (#[trigger] attrs[j]).key@ != KW_SHRINK_TO_FIT@)
                ==> a.shrink_to_fit == spec_alignment_new().shrink_to_fit
        },
{
    lemma_alignment_omitted(e.attributes@, e.attributes@.len() as int);
}

} // verus!

verus! {

/// The cells that calling `next_style` until it gives `None` yields, in
/// document order, or the error that stops it.
pub open spec fn style_drain(st: ReaderState) -> Result<Seq<Cell<Style>>, XlsxError>
    decreases st.events.len() - st.pos when state_wf(st)
{
    match spec_next_style(st) {
        Err(x) => Err(x),
        Ok((None, _)) => Ok(Seq::empty()),
        Ok((Some(c), st2)) => {
            proof {
                reading_moves_forward(st, false);
            }
            match style_drain(st2) {
                Err(x) => Err(x),
                Ok(rest) => Ok(seq![c] + rest),
            }
        },
    }
}

/// The triples that calling `next_style_id` until it gives `None` yields,
/// in document order, or the error that stops it.
pub open spec fn style_id_drain(st: ReaderState) -> Result<Seq<(u32, u32, usize)>, XlsxError>
    decreases st.events.len() - st.pos when state_wf(st)
{
    match spec_next_style_id(st) {
        Err(x) => Err(x),
        Ok((None, _)) => Ok(Seq::empty()),
        Ok((Some(t), st2)) => {
            proof {
                reading_moves_forward(st, false);
            }
            match style_id_drain(st2) {
                Err(x) => Err(x),
                Ok(rest) => Ok(seq![t] + rest),
            }
        },
    }
}

/// The styled cells of a list read by `next_style`: those whose style
/// carries a palette index, as (row, column, index).
pub open spec fn styled_ids(cells: Seq<Cell<Style>>) -> Seq<(u32, u32, usize)>
    decreases cells.len(),
{
    if cells.len() == 0 {
        Seq::empty()
    } else {
        let c = cells[0];
        let rest = styled_ids(cells.subrange(1, cells.len() as int));
        match c.val.style_id {
            Some(k) => seq![(c.pos.0, c.pos.1, k as usize)] + rest,
            None => rest,
        }
    }
}

/// Draining `next_style_id` gives exactly the styled cells of draining
/// `next_style`, in the same order: cells without a style are passed over
/// and no styled cell is lost; both stop at the same error. (Palette
/// indices are recorded in 32 bits, so the palette is taken to have at most
/// 2^32 entries.)
pub proof fn style_id_drain_is_the_styled_part(st: ReaderState)
    requires
        state_wf(st),
        st.styles.len() <= 0x1_0000_0000,
    ensures
        match (style_drain(st), style_id_drain(st)) {
            (Ok(cells), Ok(ids)) => ids == styled_ids(cells),
            (Err(x), Err(y)) => x == y,
            _ => false,
        },
    decreases st.events.len() - st.pos,
{
    reading_moves_forward(st, false);
    lemma_seek_cell(st);
    if let Ok((true, st1)) = seek_cell(st) {
        lemma_style_id_cell(st1);
        lemma_style_cell(st1);
        let c = cell_element(st1);
        if let Ok((pos, col)) = spec_cell_position(c, st1.row_index, st1.col_index) {
            lemma_resolved_in_palette(st1, c, pos.1);
            if let Ok((_, st2)) = style_id_cell(st1) {
                style_id_drain_is_the_styled_part(st2);
                if let (Ok(cells), Ok(ids)) = (style_drain(st2), style_id_drain(st2)) {
                    if let Ok((Some(cell), _)) = spec_next_style(st) {
                        let all = seq![cell] + cells;
                        assert(all.subrange(1, all.len() as int) =~= cells);
                    }
                }
            }
        }
    }
}

} // verus!

verus! {

/// One call of a reading method of `XlsxCellReader`.
pub enum ReadCall {
    Cell,
    CellValueOnly,
    Formula,
    FormulaValueOnly,
    Style,
    StyleId,
}

/// Where one call leaves the reader, whatever its outcome, as the method's
/// contract states it.
pub open spec fn after_call(st: ReaderState, call: ReadCall) -> ReaderState {
    match call {
        ReadCall::Cell => next_cell_final(st),
        ReadCall::CellValueOnly => next_cell_final(st),
        ReadCall::Formula => next_formula_final(st, true),
        ReadCall::FormulaValueOnly => next_formula_final(st, false),
        ReadCall::Style => next_style_final(st),
        ReadCall::StyleId => next_style_id_final(st),
    }
}

/// Where a sequence of calls leaves the reader, successful or not.
pub open spec fn after_calls(st: ReaderState, calls: Seq<ReadCall>) -> ReaderState
    decreases calls.len(),
{
    if calls.len() == 0 {
        st
    } else {
        after_calls(after_call(st, calls[0]), calls.drop_first())
    }
}

/// Any sequence of reads, successful or not, keeps the sheet: the reader's
/// dimension, palette, tables and column styles are those it was opened
/// with, and it stays well formed.
pub proof fn any_reads_keep_the_sheet(st: ReaderState, calls: Seq<ReadCall>)
    requires
        state_wf(st),
    ensures
        keeps_sheet(st, after_calls(st, calls)),
        state_wf(after_calls(st, calls)),
        after_calls(st, calls).dimensions == st.dimensions,
        after_calls(st, calls).styles == st.styles,
    decreases calls.len(),
{
    if calls.len() > 0 {
        reading_keeps_the_sheet(st, true);
        reading_keeps_the_sheet(st, false);
        any_reads_keep_the_sheet(after_call(st, calls[0]), calls.drop_first());
    }
}

} // verus!

verus! {

/// Setting a side of the borders sets exactly that side: `left`, `right`,
/// `top` and `bottom` each replace their own side and keep every other;
/// a name that is no side changes nothing.
pub proof fn border_side_sets_that_side(borders: Borders, border: Border, down: bool, up: bool, other: Seq<u8>)
    requires
        other != seq![108u8, 101u8, 102u8, 116u8],
        other != seq![114u8, 105u8, 103u8, 104u8, 116u8],
        other != seq![116u8, 111u8, 112u8],
        other != seq![98u8, 111u8, 116u8, 116u8, 111u8, 109u8],
        other != seq![100u8, 105u8, 97u8, 103u8, 111u8, 110u8, 97u8, 108u8],
    ensures
        spec_apply_border(borders, seq![108u8, 101u8, 102u8, 116u8], border, down, up) == (Borders { left: border, ..borders }),
        spec_apply_border(borders, seq![114u8, 105u8, 103u8, 104u8, 116u8], border, down, up) == (Borders { right: border, ..borders }),
        spec_apply_border(borders, seq![116u8, 111u8, 112u8], border, down, up) == (Borders { top: border, ..borders }),
        spec_apply_border(borders, seq![98u8, 111u8, 116u8, 116u8, 111u8, 109u8], border, down, up) == (Borders { bottom: border, ..borders }),
        spec_apply_border(borders, other, border, down, up) == borders,
{
    assert(KW_LEFT@ =~= seq![108u8, 101u8, 102u8, 116u8]);
    assert(KW_RIGHT@ =~= seq![114u8, 105u8, 103u8, 104u8, 116u8]);
    assert(KW_TOP@ =~= seq![116u8, 111u8, 112u8]);
    assert(KW_BOTTOM@ =~= seq![98u8, 111u8, 116u8, 116u8, 111u8, 109u8]);
    assert(KW_DIAGONAL@ =~= seq![100u8, 105u8, 97u8, 103u8, 111u8, 110u8, 97u8, 108u8]);
    assert(seq![108u8, 101u8, 102u8, 116u8].len() != seq![114u8, 105u8, 103u8, 104u8, 116u8].len());
    assert(seq![108u8, 101u8, 102u8, 116u8].len() != seq![116u8, 111u8, 112u8].len());
    assert(seq![108u8, 101u8, 102u8, 116u8].len() != seq![98u8, 111u8, 116u8, 116u8, 111u8, 109u8].len());
    assert(seq![114u8, 105u8, 103u8, 104u8, 116u8].len() != seq![116u8, 111u8, 112u8].len());
    assert(seq![114u8, 105u8, 103u8, 104u8, 116u8].len() != seq![98u8, 111u8, 116u8, 116u8, 111u8, 109u8].len());
    assert(seq![116u8, 111u8, 112u8].len() != seq![98u8, 111u8, 116u8, 116u8, 111u8, 109u8].len());
}

/// Whether no event from index `i` on is a start tag with the local name `ln`.
pub open spec fn no_tag_from(evs: Seq<XmlEvent>, i: int, ln: Seq<u8>) -> bool {
    forall|k: int| i <= k < evs.len() ==> !(#[trigger] evs[k] matches XmlEvent::Start(e) && spec_local_name(e.name@) == ln)
}

/// A font property is decided by its own tag only: without a `u`, `b`, `i`
/// or `strike` tag in the events read, the underline, weight, style or
/// strikethrough is what it was.
proof fn lemma_font_flags_kept(evs: Seq<XmlEvent>, i: int, theme_colors: Seq<Color>, font: FontView)
    requires
        events_wf(evs),
        0 <= i,
    ensures
        font_from(evs, i, theme_colors, font) matches Ok((f, _)) ==> {
            &&& no_tag_from(evs, i, seq![117u8]) ==> f.underline == font.underline
            &&& no_tag_from(evs, i, seq![98u8]) ==> f.weight == font.weight
            &&& no_tag_from(evs, i, seq![105u8]) ==> f.style == font.style
            &&& no_tag_from(evs, i, seq![115u8, 116u8, 114u8, 105u8, 107u8, 101u8]) ==> f.strikethrough == font.strikethrough
            &&& no_tag_from(evs, i, seq![110u8, 97u8, 109u8, 101u8]) ==> f.name == font.name
            &&& no_tag_from(evs, i, seq![115u8, 122u8]) ==> f.size == font.size
            &&& no_tag_from(evs, i, seq![102u8, 97u8, 109u8, 105u8, 108u8, 121u8]) ==> f.family == font.family
            &&& no_tag_from(evs, i, seq![99u8, 111u8, 108u8, 111u8, 114u8]) ==> f.color == font.color
        },
    decreases evs.len() - i,
{
    assert(KW_NAME@ =~= seq![110u8, 97u8, 109u8, 101u8]);
    assert(KW_SZ@ =~= seq![115u8, 122u8]);
    assert(KW_FAMILY@ =~= seq![102u8, 97u8, 109u8, 105u8, 108u8, 121u8]);
    assert(KW_COLOR@ =~= seq![99u8, 111u8, 108u8, 111u8, 114u8]);
    assert(KW_U@ =~= seq![117u8]);
    assert(KW_B@ =~= seq![98u8]);
    assert(KW_I@ =~= seq![105u8]);
    assert(KW_STRIKE@ =~= seq![115u8, 116u8, 114u8, 105u8, 107u8, 101u8]);
    if i < evs.len() {
        match evs[i] {
            XmlEvent::Start(e) => {
                let ln = spec_local_name(e.name@);
                lemma_skip_to_end_bounds(evs, i + 1, e.name@, 0);
                lemma_read_text_bounds(evs, i + 1, ln, true, EofContext::String, Seq::empty());
                if ln == KW_NAME@ || ln == KW_SZ@ || ln == KW_FAMILY@ {
                    match spec_get_attribute(e, KW_VAL@) {
                        Ok(Some(v)) => {
                            if let Ok(j) = skip_to_end_from(evs, i + 1, e.name@, 0) {
                                lemma_font_flags_kept(evs, j, theme_colors, font_with_text(font, ln, spec_utf8_lossy(v)));
                            }
                        },
                        Ok(None) => {
                            if let Ok((t, j)) = read_text_from(evs, i + 1, ln, true, EofContext::String, Seq::empty()) {
                                lemma_font_flags_kept(evs, j, theme_colors, font);
                                lemma_font_flags_kept(evs, j, theme_colors, font_with_text(font, ln, t));
                            }
                        },
                        Err(_) => {},
                    }
                } else {
                    match spec_get_attribute(e, KW_VAL@) {
                        Ok(Some(v)) => {
                            lemma_font_flags_kept(evs, i + 1, theme_colors, FontView { weight: spec_font_weight(v), ..font });
                            lemma_font_flags_kept(evs, i + 1, theme_colors, FontView { style: spec_font_style(v), ..font });
                            lemma_font_flags_kept(evs, i + 1, theme_colors, FontView { underline: spec_underline_style(v), ..font });
                        },
                        _ => {},
                    }
                    lemma_font_flags_kept(evs, i + 1, theme_colors, FontView { weight: FontWeight::Bold, ..font });
                    lemma_font_flags_kept(evs, i + 1, theme_colors, FontView { style: FontStyle::Italic, ..font });
                    lemma_font_flags_kept(evs, i + 1, theme_colors, FontView { underline: UnderlineStyle::Single, ..font });
                    lemma_font_flags_kept(evs, i + 1, theme_colors, FontView { strikethrough: true, ..font });
                    if let Ok(Some(c)) = spec_parse_color(e.attributes@, theme_colors) {
                        lemma_font_flags_kept(evs, i + 1, theme_colors, FontView { color: Some(c), ..font });
                    }
                    lemma_font_flags_kept(evs, i + 1, theme_colors, font);
                }
            },
            XmlEvent::Eof => {},
            XmlEvent::Error(_) => {},
            _ => {
                lemma_font_flags_kept(evs, i + 1, theme_colors, font);
            },
        }
    }
}

/// A font tag without `val` switches its property on: `<u/>` gives single
/// underline, `<b/>` bold, `<i/>` italic, `<strike/>` strikethrough, when no
/// later tag of the same name follows; with `val`, `u`, `b` and `i` take the
/// value's keyword.
pub proof fn font_tags_switch_their_property_on(evs: Seq<XmlEvent>, i: int, theme_colors: Seq<Color>, font: FontView)
    requires
        events_wf(evs),
        0 <= i < evs.len(),
        evs[i] is Start,
    ensures
        ({
            let e = evs[i]->Start_0;
            let ln = spec_local_name(e.name@);
            font_from(evs, i, theme_colors, font) matches Ok((f, _)) ==> {
                &&& ln == seq![117u8] && no_tag_from(evs, i + 1, ln) ==> f.underline == match spec_get_attribute(e, KW_VAL@) {
                    Ok(Some(v)) => spec_underline_style(v),
                    _ => UnderlineStyle::Single,
                }
                &&& ln == seq![98u8] && no_tag_from(evs, i + 1, ln) ==> f.weight == match spec_get_attribute(e, KW_VAL@) {
                    Ok(Some(v)) => spec_font_weight(v),
                    _ => FontWeight::Bold,
                }
                &&& ln == seq![105u8] && no_tag_from(evs, i + 1, ln) ==> f.style == match spec_get_attribute(e, KW_VAL@) {
                    Ok(Some(v)) => spec_font_style(v),
                    _ => FontStyle::Italic,
                }
                &&& ln == seq![115u8, 116u8, 114u8, 105u8, 107u8, 101u8] && no_tag_from(evs, i + 1, ln) ==> f.strikethrough
            }
        }),
{
    assert(KW_U@ =~= seq![117u8]);
    assert(KW_B@ =~= seq![98u8]);
    assert(KW_I@ =~= seq![105u8]);
    assert(KW_STRIKE@ =~= seq![115u8, 116u8, 114u8, 105u8, 107u8, 101u8]);
    assert(KW_NAME@.len() == 4 && KW_SZ@.len() == 2 && KW_FAMILY@.len() == 6);
    let e = evs[i]->Start_0;
    match spec_get_attribute(e, KW_VAL@) {
        Ok(Some(v)) => {
            lemma_font_flags_kept(evs, i + 1, theme_colors, FontView { weight: spec_font_weight(v), ..font });
            lemma_font_flags_kept(evs, i + 1, theme_colors, FontView { style: spec_font_style(v), ..font });
            lemma_font_flags_kept(evs, i + 1, theme_colors, FontView { underline: spec_underline_style(v), ..font });
        },
        _ => {},
    }
    lemma_font_flags_kept(evs, i + 1, theme_colors, FontView { weight: FontWeight::Bold, ..font });
    lemma_font_flags_kept(evs, i + 1, theme_colors, FontView { style: FontStyle::Italic, ..font });
    lemma_font_flags_kept(evs, i + 1, theme_colors, FontView { underline: UnderlineStyle::Single, ..font });
    lemma_font_flags_kept(evs, i + 1, theme_colors, FontView { strikethrough: true, ..font });
}

} // verus!

verus! {

/// Whether `e` is a `t="shared"` formula tag whose `si` attribute reads as
/// the index `si`.
pub open spec fn is_shared_tag(e: XmlElement, si: usize) -> bool {
    &&& spec_get_attribute(e, seq![116u8]) == Ok::<Option<Seq<u8>>, XlsxError>(Some(seq![115u8, 104u8, 97u8, 114u8, 101u8, 100u8]))
    &&& spec_get_attribute(e, seq![115u8, 105u8]) matches Ok(Some(t))
        && spec_atoi(t, atoi_usize_max_len(), usize::MAX as nat) == Some(si as nat)
}

/// Whether the cell `pos` lies in the range `d`, corners included.
pub open spec fn cell_in_range(d: Dimensions, pos: (u32, u32)) -> bool {
    d.start.0 <= pos.0 <= d.end.0 && d.start.1 <= pos.1 <= d.end.1
}

/// A shared formula registered at the anchor cell `anchor` with its text `f`
/// and range `ref_text`, then used by a cell `pos` of that range, gives that
/// cell `f` with every reference moved by the cell's distance from the
/// anchor: `pos.0 - anchor.0` rows and `pos.1 - anchor.1` columns.
pub proof fn shared_formula_moves_with_the_cell(
    anchor_tag: XmlElement,
    f: Seq<char>,
    anchor: (u32, u32),
    ref_text: Seq<u8>,
    d: Dimensions,
    tag: XmlElement,
    formula: Option<Seq<char>>,
    pos: (u32, u32),
    value: Option<Seq<char>>,
    formulas: Map<usize, SharedFormulaView>,
    si: usize,
)
    requires
        is_shared_tag(anchor_tag, si),
        spec_get_attribute(anchor_tag, seq![114u8, 101u8, 102u8]) == Ok::<Option<Seq<u8>>, XlsxError>(Some(ref_text)),
        spec_get_dimension(ref_text) == Ok::<Dimensions, XlsxError>(d),
        is_shared_tag(tag, si),
        spec_get_attribute(tag, seq![114u8, 101u8, 102u8]) == Ok::<Option<Seq<u8>>, XlsxError>(None),
        cell_in_range(d, pos),
    ensures
        shared_formula_step(anchor_tag, Some(f), anchor, formulas, Some(f)) matches Ok((Some(g), registered))
            && g == f
            && shared_formula_step(tag, formula, pos, registered, value) == match spec_replace_cell_names(
                encode_utf8(f),
                ((pos.0 - anchor.0) as i64, (pos.1 - anchor.1) as i64),
            ) {
                Ok(t) => Ok::<(Option<Seq<char>>, Map<usize, SharedFormulaView>), XlsxError>((Some(t), registered)),
                Err(x) => Err(x),
            },
{
    assert(KW_T@ =~= seq![116u8]);
    assert(KW_SHARED@ =~= seq![115u8, 104u8, 97u8, 114u8, 101u8, 100u8]);
    assert(KW_SI@ =~= seq![115u8, 105u8]);
    assert(KW_REF@ =~= seq![114u8, 101u8, 102u8]);
}

} // verus!

verus! {

/// Whether no attribute from index `i` on has the key `key`.
pub open spec fn no_key_from(attrs: Seq<XmlAttribute>, i: int, key: Seq<u8>) -> bool {
    forall|k: int| i <= k < attrs.len() ==> (#[trigger] attrs[k]).key@ != key
}

/// Whether some attribute has the key `key` and one of the values `1` and
/// `true`.
pub open spec fn switched_on(attrs: Seq<XmlAttribute>, key: Seq<u8>) -> bool {
    exists|k: int| 0 <= k < attrs.len() && (#[trigger] attrs[k]).key@ == key
        && (attrs[k].value@ == seq![49u8] || attrs[k].value@ == seq![116u8, 114u8, 117u8, 101u8])
}

proof fn lemma_alignment_last(attrs: Seq<XmlAttribute>, j: int, n: int)
    requires
        0 <= j < n <= attrs.len(),
        no_key_from(attrs, j + 1, attrs[j].key@),
    ensures
        attrs[j].key@ == seq![104u8, 111u8, 114u8, 105u8, 122u8, 111u8, 110u8, 116u8, 97u8, 108u8]
            ==> alignment_upto(attrs, n).horizontal == spec_horizontal_alignment(attrs[j].value@),
        attrs[j].key@ == seq![118u8, 101u8, 114u8, 116u8, 105u8, 99u8, 97u8, 108u8]
            ==> alignment_upto(attrs, n).vertical == spec_vertical_alignment(attrs[j].value@),
    decreases n,
{
    assert(KW_HORIZONTAL@ =~= seq![104u8, 111u8, 114u8, 105u8, 122u8, 111u8, 110u8, 116u8, 97u8, 108u8]);
    assert(KW_VERTICAL@ =~= seq![118u8, 101u8, 114u8, 116u8, 105u8, 99u8, 97u8, 108u8]);
    assert(KW_HORIZONTAL@.len() != KW_VERTICAL@.len());
    if n > j + 1 {
        lemma_alignment_last(attrs, j, n - 1);
        assert(attrs[n - 1].key@ != attrs[j].key@);
    }
}

proof fn lemma_flags_on(attrs: Seq<XmlAttribute>, n: int)
    requires
        0 <= n <= attrs.len(),
    ensures
        alignment_upto(attrs, n).wrap_text
            == switched_on(attrs.subrange(0, n), seq![119u8, 114u8, 97u8, 112u8, 84u8, 101u8, 120u8, 116u8]),
        alignment_upto(attrs, n).shrink_to_fit
            == switched_on(attrs.subrange(0, n), seq![115u8, 104u8, 114u8, 105u8, 110u8, 107u8, 84u8, 111u8, 70u8, 105u8, 116u8]),
        protection_upto(attrs, n).locked == switched_on(attrs.subrange(0, n), seq![108u8, 111u8, 99u8, 107u8, 101u8, 100u8]),
        protection_upto(attrs, n).hidden == switched_on(attrs.subrange(0, n), seq![104u8, 105u8, 100u8, 100u8, 101u8, 110u8]),
    decreases n,
{
    assert(KW_WRAP_TEXT@ =~= seq![119u8, 114u8, 97u8, 112u8, 84u8, 101u8, 120u8, 116u8]);
    assert(KW_SHRINK_TO_FIT@ =~= seq![115u8, 104u8, 114u8, 105u8, 110u8, 107u8, 84u8, 111u8, 70u8, 105u8, 116u8]);
    assert(KW_LOCKED@ =~= seq![108u8, 111u8, 99u8, 107u8, 101u8, 100u8]);
    assert(KW_HIDDEN@ =~= seq![104u8, 105u8, 100u8, 100u8, 101u8, 110u8]);
    assert(KW_ONE@ =~= seq![49u8]);
    assert(KW_TRUE@ =~= seq![116u8, 114u8, 117u8, 101u8]);
    assert(KW_HORIZONTAL@.len() == 10 && KW_VERTICAL@.len() == 8 && KW_TEXT_ROTATION@.len() == 12 && KW_INDENT@.len() == 6);
    assert(KW_WRAP_TEXT@.len() != KW_SHRINK_TO_FIT@.len());
    assert(KW_LOCKED@[0] != KW_HIDDEN@[0]);
    if n > 0 {
        lemma_flags_on(attrs, n - 1);
        let pre = attrs.subrange(0, n - 1);
        let all = attrs.subrange(0, n);
        assert(all.drop_last() =~= pre);
        assert(all.last() == attrs[n - 1]);
        let keys = seq![
            seq![119u8, 114u8, 97u8, 112u8, 84u8, 101u8, 120u8, 116u8],
            seq![115u8, 104u8, 114u8, 105u8, 110u8, 107u8, 84u8, 111u8, 70u8, 105u8, 116u8],
            seq![108u8, 111u8, 99u8, 107u8, 101u8, 100u8],
            seq![104u8, 105u8, 100u8, 100u8, 101u8, 110u8],
        ];
        assert forall|q: int| 0 <= q < 4 implies switched_on(all, #[trigger] keys[q]) == (switched_on(pre, keys[q])
            || (attrs[n - 1].key@ == keys[q] && (attrs[n - 1].value@ == seq![49u8] || attrs[n - 1].value@ == seq![116u8, 114u8, 117u8, 101u8]))) by {
            let key = keys[q];
            if switched_on(all, key) {
                let k = choose|k: int| 0 <= k < all.len() && (#[trigger] all[k]).key@ == key
                    && (all[k].value@ == seq![49u8] || all[k].value@ == seq![116u8, 114u8, 117u8, 101u8]);
                if k < n - 1 {
                    assert(pre[k] == all[k]);
                }
            }
            if switched_on(pre, key) {
                let k = choose|k: int| 0 <= k < pre.len() && (#[trigger] pre[k]).key@ == key
                    && (pre[k].value@ == seq![49u8] || pre[k].value@ == seq![116u8, 114u8, 117u8, 101u8]);
                assert(all[k] == pre[k]);
            }
            if attrs[n - 1].key@ == key && (attrs[n - 1].value@ == seq![49u8] || attrs[n - 1].value@ == seq![116u8, 114u8, 117u8, 101u8]) {
                assert(all[n - 1] == attrs[n - 1]);
            }
        }
        assert(keys[0] == seq![119u8, 114u8, 97u8, 112u8, 84u8, 101u8, 120u8, 116u8]);
        assert(keys[1] == seq![115u8, 104u8, 114u8, 105u8, 110u8, 107u8, 84u8, 111u8, 70u8, 105u8, 116u8]);
        assert(keys[2] == seq![108u8, 111u8, 99u8, 107u8, 101u8, 100u8]);
        assert(keys[3] == seq![104u8, 105u8, 100u8, 100u8, 101u8, 110u8]);
    } else {
        assert(attrs.subrange(0, 0) =~= Seq::<XmlAttribute>::empty());
    }
}

/// An alignment takes its `horizontal` and `vertical` from the last
/// attribute of that name, read as its keyword; `wrapText` and `shrinkToFit`
/// are on exactly when an attribute of that name says `1` or `true`.
pub proof fn alignment_follows_its_attributes(e: XmlElement, j: int)
    requires
        !e.malformed_attributes,
        0 <= j < e.attributes@.len(),
        no_key_from(e.attributes@, j + 1, e.attributes@[j].key@),
    ensures
        spec_parse_alignment(e) matches Ok(a) && {
            let attrs = e.attributes@;
            &&& attrs[j].key@ == seq![104u8, 111u8, 114u8, 105u8, 122u8, 111u8, 110u8, 116u8, 97u8, 108u8]
                ==> a.horizontal == spec_horizontal_alignment(attrs[j].value@)
            &&& attrs[j].key@ == seq![118u8, 101u8, 114u8, 116u8, 105u8, 99u8, 97u8, 108u8]
                ==> a.vertical == spec_vertical_alignment(attrs[j].value@)
            &&& a.wrap_text == switched_on(attrs, seq![119u8, 114u8, 97u8, 112u8, 84u8, 101u8, 120u8, 116u8])
            &&& a.shrink_to_fit == switched_on(attrs, seq![115u8, 104u8, 114u8, 105u8, 110u8, 107u8, 84u8, 111u8, 70u8, 105u8, 116u8])
        },
{
    let attrs = e.attributes@;
    lemma_alignment_last(attrs, j, attrs.len() as int);
    lemma_flags_on(attrs, attrs.len() as int);
    assert(attrs.subrange(0, attrs.len() as int) =~= attrs);
}

/// Protection is `locked` or `hidden` exactly when an attribute of that name
/// says `1` or `true`.
pub proof fn protection_follows_its_attributes(e: XmlElement)
    requires
        !e.malformed_attributes,
    ensures
        spec_parse_protection(e) matches Ok(p)
            && p.locked == switched_on(e.attributes@, seq![108u8, 111u8, 99u8, 107u8, 101u8, 100u8])
            && p.hidden == switched_on(e.attributes@, seq![104u8, 105u8, 100u8, 100u8, 101u8, 110u8]),
{
    let attrs = e.attributes@;
    lemma_flags_on(attrs, attrs.len() as int);
    assert(attrs.subrange(0, attrs.len() as int) =~= attrs);
}

/// A font weight `val` is bold for `bold`, normal for `normal`, and, for a
/// number up to 65535 written in digits, bold exactly from 600 on.
pub proof fn font_weight_values(s: Seq<u8>)
    ensures
        s == seq![98u8, 111u8, 108u8, 100u8] ==> spec_font_weight(s) == FontWeight::Bold,
        s == seq![110u8, 111u8, 114u8, 109u8, 97u8, 108u8] ==> spec_font_weight(s) == FontWeight::Normal,
        s.len() > 0 && all_digits(s) && decimal_value(s) <= 65535
            ==> (spec_font_weight(s) == FontWeight::Bold <==> decimal_value(s) >= 600),
{
    assert(KW_BOLD@ =~= seq![98u8, 111u8, 108u8, 100u8]);
    assert(KW_NORMAL@ =~= seq![110u8, 111u8, 114u8, 109u8, 97u8, 108u8]);
    assert(KW_700@ =~= seq![55u8, 48u8, 48u8]);
    assert(KW_400@ =~= seq![52u8, 48u8, 48u8]);
    if s == KW_700@ {
        assert(s.drop_last().drop_last() =~= seq![55u8]);
        let t = seq![55u8];
        assert(t.drop_last() =~= Seq::<u8>::empty());
        assert(t.last() == 55u8);
        assert(decimal_value(t) == decimal_value(t.drop_last()) * 10 + (t.last() - 48) as nat);
        assert(decimal_value(s.drop_last().drop_last()) == 7);
        assert(s.drop_last() =~= seq![55u8, 48u8]);
        assert(decimal_value(s.drop_last()) == 70);
    }
    if s == KW_400@ {
        assert(s.drop_last().drop_last() =~= seq![52u8]);
        let t = seq![52u8];
        assert(t.drop_last() =~= Seq::<u8>::empty());
        assert(t.last() == 52u8);
        assert(decimal_value(t) == decimal_value(t.drop_last()) * 10 + (t.last() - 48) as nat);
        assert(decimal_value(s.drop_last().drop_last()) == 4);
        assert(s.drop_last() =~= seq![52u8, 48u8]);
        assert(decimal_value(s.drop_last()) == 40);
    }
    if s.len() > 0 && all_digits(s) {
        assert(is_digit(s[0]));
        assert(unsigned_digits(s) == s);
    }
}

} // verus!

verus! {

/// The number presentation that a style index selects: the format of that
/// palette entry, none without a (valid) index.
pub open spec fn format_of(formats: Seq<CellFormat>, style_id: Option<usize>) -> Option<CellFormat> {
    match style_id {
        Some(id) => if id < formats.len() { Some(formats[id as int]) } else { None },
        None => None,
    }
}

/// A cell's `t` attribute decides what its text is: `b` a boolean, true
/// unless the text is `0`; `str` that string; `d` that ISO date; `s` the
/// shared string at the index the text gives, plain or formatted as the
/// table holds it; `n` that number (nothing when empty), presented as its
/// style's format; without `t`, a number when the text is one, else that
/// string.
pub proof fn cell_type_decides_the_value(
    v: Seq<char>,
    strings: Seq<SharedString>,
    formats: Seq<CellFormat>,
    c: XmlElement,
    style_id: Option<usize>,
    index: nat,
)
    ensures
        spec_get_attribute(c, seq![116u8]) == Ok::<Option<Seq<u8>>, XlsxError>(Some(seq![98u8]))
            ==> spec_read_v(v, strings, formats, c, style_id) == Ok::<CellValueView, ReadError>(
                CellValueView::Bool(encode_utf8(v) != seq![48u8]),
            ),
        spec_get_attribute(c, seq![116u8]) == Ok::<Option<Seq<u8>>, XlsxError>(Some(seq![115u8, 116u8, 114u8]))
            ==> spec_read_v(v, strings, formats, c, style_id) == Ok::<CellValueView, ReadError>(CellValueView::String(v)),
        spec_get_attribute(c, seq![116u8]) == Ok::<Option<Seq<u8>>, XlsxError>(Some(seq![100u8]))
            ==> spec_read_v(v, strings, formats, c, style_id) == Ok::<CellValueView, ReadError>(CellValueView::DateTimeIso(v)),
        spec_get_attribute(c, seq![116u8]) == Ok::<Option<Seq<u8>>, XlsxError>(Some(seq![115u8]))
            && spec_atoi(encode_utf8(v), atoi_usize_max_len(), usize::MAX as nat) == Some(index) && index < strings.len()
            ==> spec_read_v(v, strings, formats, c, style_id) == match strings[index as int] {
                SharedString::Text(s) => Ok::<CellValueView, ReadError>(CellValueView::SharedString(s@)),
                SharedString::RichText(s) => Ok::<CellValueView, ReadError>(CellValueView::SharedRichText(s@)),
                SharedString::Other => Err(ReadError::Exact(XlsxError::Unexpected(Unexpected::SharedStringNotText))),
            },
        spec_get_attribute(c, seq![116u8]) == Ok::<Option<Seq<u8>>, XlsxError>(Some(seq![110u8])) && v.len() > 0
            && is_float_literal(encode_utf8(v))
            ==> spec_read_v(v, strings, formats, c, style_id) == Ok::<CellValueView, ReadError>(
                CellValueView::Number(v, format_of(formats, style_id)),
            ),
        spec_get_attribute(c, seq![116u8]) == Ok::<Option<Seq<u8>>, XlsxError>(Some(seq![110u8])) && v.len() == 0
            ==> spec_read_v(v, strings, formats, c, style_id) == Ok::<CellValueView, ReadError>(CellValueView::Empty),
        spec_get_attribute(c, seq![116u8]) == Ok::<Option<Seq<u8>>, XlsxError>(None)
            ==> spec_read_v(v, strings, formats, c, style_id) == Ok::<CellValueView, ReadError>(
                if is_float_literal(encode_utf8(v)) {
                    CellValueView::Number(v, format_of(formats, style_id))
                } else {
                    CellValueView::String(v)
                },
            ),
{
    assert(KW_T@ =~= seq![116u8]);
    assert(KW_B@ =~= seq![98u8]);
    assert(KW_S@ =~= seq![115u8]);
    assert(KW_E@ =~= seq![101u8]);
    assert(KW_D@ =~= seq![100u8]);
    assert(KW_N@ =~= seq![110u8]);
    assert(KW_STR@ =~= seq![115u8, 116u8, 114u8]);
    assert(KW_ZERO@ =~= seq![48u8]);
}

} // verus!

verus! {

/// A font's `name`, `sz` and `family` tags give its name, size (when it is
/// a number) and family: the tag's `val` attribute (its text, when it has
/// none and the text is not empty), when no later tag of the same name
/// follows.
pub proof fn font_text_tags_set_their_property(evs: Seq<XmlEvent>, i: int, theme_colors: Seq<Color>, font: FontView)
    requires
        events_wf(evs),
        0 <= i < evs.len(),
        evs[i] is Start,
    ensures
        ({
            let e = evs[i]->Start_0;
            let ln = spec_local_name(e.name@);
            let text = match spec_get_attribute(e, seq![118u8, 97u8, 108u8]) {
                Ok(Some(v)) => Some(spec_utf8_lossy(v)),
                _ => match read_text_from(evs, i + 1, ln, true, EofContext::String, Seq::empty()) {
                    Ok((t, _)) => if t.len() > 0 { Some(t) } else { None },
                    Err(_) => None,
                },
            };
            font_from(evs, i, theme_colors, font) matches Ok((f, _)) ==> {
                &&& ln == seq![110u8, 97u8, 109u8, 101u8] && no_tag_from(evs, i + 1, ln)
                    ==> f.name == (if text is Some { text } else { font.name })
                &&& ln == seq![102u8, 97u8, 109u8, 105u8, 108u8, 121u8] && no_tag_from(evs, i + 1, ln)
                    ==> f.family == (if text is Some { text } else { font.family })
                &&& (ln == seq![115u8, 122u8] && no_tag_from(evs, i + 1, ln) && (text matches Some(t)
                    && is_float_literal(encode_utf8(t)))) ==> f.size == text
            }
        }),
{
    assert(KW_NAME@ =~= seq![110u8, 97u8, 109u8, 101u8]);
    assert(KW_SZ@ =~= seq![115u8, 122u8]);
    assert(KW_FAMILY@ =~= seq![102u8, 97u8, 109u8, 105u8, 108u8, 121u8]);
    assert(KW_VAL@ =~= seq![118u8, 97u8, 108u8]);
    let e = evs[i]->Start_0;
    let ln = spec_local_name(e.name@);
    lemma_skip_to_end_bounds(evs, i + 1, e.name@, 0);
    lemma_read_text_bounds(evs, i + 1, ln, true, EofContext::String, Seq::empty());
    match spec_get_attribute(e, KW_VAL@) {
        Ok(Some(v)) => {
            if let Ok(j) = skip_to_end_from(evs, i + 1, e.name@, 0) {
                lemma_font_flags_kept(evs, j, theme_colors, font_with_text(font, ln, spec_utf8_lossy(v)));
            }
        },
        Ok(None) => {
            if let Ok((t, j)) = read_text_from(evs, i + 1, ln, true, EofContext::String, Seq::empty()) {
                lemma_font_flags_kept(evs, j, theme_colors, font);
                lemma_font_flags_kept(evs, j, theme_colors, font_with_text(font, ln, t));
            }
        },
        Err(_) => {},
    }
}

} // verus!
