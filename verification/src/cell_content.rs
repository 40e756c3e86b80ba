//! The content of one `<c>` element of a worksheet: its value, its formula
//! (with the shared formulas it registers or uses), or nothing but its end.

use vstd::prelude::*;
use vstd::string::StringSliceAdditionalSpecFns;
use vstd::utf8::encode_utf8;
use crate::cell_ref::{get_dimension, replace_cell_names, spec_get_dimension, spec_replace_cell_names, Dimensions};
use crate::cells::{error_matches, CellFormat, CellValue, CellValueView, ReadError, SharedString};
use crate::cells_reader::{lemma_read_value_bounds, read_formula, read_value, spec_read_formula, spec_read_value, value_parse_agrees};
use crate::error::{EofContext, Unexpected, XlsxError};
use crate::keywords::{KW_C, KW_REF, KW_SHARED, KW_SI, KW_T};
use crate::numbers::{atoi_usize, atoi_usize_max_len, spec_atoi};
use crate::stream::{lemma_read_text_bounds, lemma_skip_to_end_bounds};
use crate::xml::{bytes_eq, events_wf, get_attribute, local_name, spec_get_attribute, spec_local_name, XmlElement, XmlEvent};

verus! {

/// The value of a cell, read from event `i` (after `<c>`) to the cell's end
/// tag: each child element is read with `spec_read_value`, and the last one
/// gives the value. `style_id` is the cell's resolved style. Also the index
/// after `</c>`.
pub open spec fn cell_value_from(
    evs: Seq<XmlEvent>,
    i: int,
    c: XmlElement,
    strings: Seq<SharedString>,
    formats: Seq<CellFormat>,
    style_id: Option<usize>,
    value: CellValueView,
) -> Result<(CellValueView, int), ReadError>
    decreases evs.len() - i when events_wf(evs)
{
    if i < 0 || i >= evs.len() {
        Err(ReadError::Exact(XlsxError::XmlEof(EofContext::Cell)))
    } else {
        match evs[i] {
            XmlEvent::Start(e) => match spec_read_value(evs, i + 1, e, strings, formats, c, style_id) {
                Err(x) => Err(x),
                Ok((v, j)) => {
                    proof {
                        lemma_read_value_bounds(evs, i + 1, e, strings, formats, c, style_id);
                    }
                    cell_value_from(evs, j, c, strings, formats, style_id, v)
                },
            },
            XmlEvent::End(n) => if spec_local_name(n@) == KW_C@ {
                Ok((value, i + 1))
            } else {
                cell_value_from(evs, i + 1, c, strings, formats, style_id, value)
            },
            XmlEvent::Eof => Err(ReadError::Exact(XlsxError::XmlEof(EofContext::Cell))),
            XmlEvent::Error(e) => Err(ReadError::Exact(XlsxError::Xml(e))),
            _ => cell_value_from(evs, i + 1, c, strings, formats, style_id, value),
        }
    }
}

pub proof fn lemma_cell_value_bounds(
    evs: Seq<XmlEvent>,
    i: int,
    c: XmlElement,
    strings: Seq<SharedString>,
    formats: Seq<CellFormat>,
    style_id: Option<usize>,
    value: CellValueView,
)
    requires
        events_wf(evs),
    ensures
        cell_value_from(evs, i, c, strings, formats, style_id, value) matches Ok((_, j)) ==> i < j < evs.len(),
    decreases evs.len() - i,
{
    if 0 <= i < evs.len() {
        match evs[i] {
            XmlEvent::Start(e) => {
                lemma_read_value_bounds(evs, i + 1, e, strings, formats, c, style_id);
                if let Ok((v, j)) = spec_read_value(evs, i + 1, e, strings, formats, c, style_id) {
                    lemma_cell_value_bounds(evs, j, c, strings, formats, style_id, v);
                }
            },
            XmlEvent::Eof => {},
            XmlEvent::Error(_) => {},
            _ => {
                lemma_cell_value_bounds(evs, i + 1, c, strings, formats, style_id, value);
            },
        }
    }
}

/// Reads the value of the cell `c`, whose content starts at `pos`.
pub fn read_cell_value(
    evs: &Vec<XmlEvent>,
    pos: usize,
    c: &XmlElement,
    strings: &Vec<SharedString>,
    formats: &Vec<CellFormat>,
    style_id: Option<usize>,
) -> (r: Result<(CellValue, usize), XlsxError>)
    requires
        events_wf(evs@),
        pos < evs@.len(),
    ensures
        value_parse_agrees(r, cell_value_from(evs@, pos as int, *c, strings@, formats@, style_id, CellValueView::Empty)),
        r matches Ok((_, p)) ==> pos < p < evs@.len(),
{
    let mut value = CellValue::Empty;
    let mut i = pos;
    proof {
        lemma_cell_value_bounds(evs@, pos as int, *c, strings@, formats@, style_id, CellValueView::Empty);
    }
    while i < evs.len()
        invariant
            events_wf(evs@),
            pos <= i < evs@.len(),
            cell_value_from(evs@, pos as int, *c, strings@, formats@, style_id, CellValueView::Empty)
                == cell_value_from(evs@, i as int, *c, strings@, formats@, style_id, value@),
            cell_value_from(evs@, pos as int, *c, strings@, formats@, style_id, CellValueView::Empty) matches Ok((_, j))
                ==> pos < j < evs@.len(),
        decreases evs@.len() - i,
    {
        let k_c = KW_C;
        match &evs[i] {
            XmlEvent::Start(e) => {
                assert(i + 1 < evs@.len());
                match read_value(evs, i + 1, e, strings, formats, c, style_id) {
                    Err(x) => {
                        return Err(x);
                    },
                    Ok((v, j)) => {
                        value = v;
                        i = j;
                    },
                }
            },
            XmlEvent::End(n) => {
                if bytes_eq(local_name(n.as_slice()), &k_c) {
                    return Ok((value, i + 1));
                }
                i = i + 1;
            },
            XmlEvent::Eof => {
                return Err(XlsxError::XmlEof(EofContext::Cell));
            },
            XmlEvent::Error(e) => {
                return Err(XlsxError::Xml(e.copy()));
            },
            _ => {
                i = i + 1;
            },
        }
    }
    Err(XlsxError::XmlEof(EofContext::Cell))
}

/// A shared formula: its text, the range of cells that share it, and the
/// cell that holds its text.
pub struct SharedFormula {
    pub formula: String,
    pub reference: Dimensions,
    pub anchor: (u32, u32),
}

pub struct SharedFormulaView {
    pub formula: Seq<char>,
    pub reference: Dimensions,
    pub anchor: (u32, u32),
}

impl View for SharedFormula {
    type V = SharedFormulaView;

    open spec fn view(&self) -> SharedFormulaView {
        SharedFormulaView { formula: self.formula@, reference: self.reference, anchor: self.anchor }
    }
}

/// The shared formulas registered so far, by shared index; a later
/// registration of an index replaces an earlier one.
pub open spec fn formula_map(list: Seq<(usize, SharedFormula)>) -> Map<usize, SharedFormulaView>
    decreases list.len(),
{
    if list.len() == 0 {
        Map::empty()
    } else {
        formula_map(list.drop_last()).insert(list.last().0, list.last().1@)
    }
}

/// Whether the cell `pos` lies in the range `d`.
pub open spec fn in_range(d: Dimensions, pos: (u32, u32)) -> bool {
    d.start.0 <= pos.0 <= d.end.0 && d.start.1 <= pos.1 <= d.end.1
}

/// How far (rows, columns) the cell `pos` lies from the cell `anchor`.
pub open spec fn offset_from(anchor: (u32, u32), pos: (u32, u32)) -> (i64, i64) {
    ((pos.0 - anchor.0) as i64, (pos.1 - anchor.1) as i64)
}

/// What one child element `e` of the cell at `pos` does to the formula and to
/// the shared formulas, once its own formula text `formula` is read and
/// `value` is the cell's formula so far. A child with `t="shared"` needs a
/// numeric `si`; with a `ref` range it registers its text under that index
/// (when it has text) for the cells of the range, and gives that text;
/// without `ref` it takes the registered formula of its index, moved by the
/// cell's offset from the formula's anchor, when the cell lies in the
/// formula's range.
pub open spec fn shared_formula_step(
    e: XmlElement,
    formula: Option<Seq<char>>,
    pos: (u32, u32),
    formulas: Map<usize, SharedFormulaView>,
    value: Option<Seq<char>>,
) -> Result<(Option<Seq<char>>, Map<usize, SharedFormulaView>), XlsxError> {
    if spec_get_attribute(e, KW_T@) == Ok::<Option<Seq<u8>>, XlsxError>(Some(KW_SHARED@)) {
        match spec_get_attribute(e, KW_SI@) {
            Err(x) => Err(x),
            Ok(None) => Err(XlsxError::Unexpected(Unexpected::SharedIndexMissing)),
            Ok(Some(s)) => match spec_atoi(s, atoi_usize_max_len(), usize::MAX as nat) {
                None => Err(XlsxError::Unexpected(Unexpected::SharedIndexNotNumber)),
                Some(si) => match spec_get_attribute(e, KW_REF@) {
                    Err(x) => Err(x),
                    Ok(Some(r)) => match spec_get_dimension(r) {
                        Err(x) => Err(x),
                        Ok(d) => Ok((
                            formula,
                            match formula {
                                Some(f) => formulas.insert(si as usize, SharedFormulaView { formula: f, reference: d, anchor: pos }),
                                None => formulas,
                            },
                        )),
                    },
                    Ok(None) => if formulas.dom().contains(si as usize) && in_range(formulas[si as usize].reference, pos) {
                        let sf = formulas[si as usize];
                        match spec_replace_cell_names(encode_utf8(sf.formula), offset_from(sf.anchor, pos)) {
                            Err(x) => Err(x),
                            Ok(t) => Ok((Some(t), formulas)),
                        }
                    } else {
                        Ok((value, formulas))
                    },
                },
            },
        }
    } else {
        Ok((value, formulas))
    }
}

/// The formula of the cell at `pos`, read from event `i` (after `<c>`) to the
/// cell's end tag: the text of its `f` child, or what a shared formula gives
/// it. Also the shared formulas afterwards and the index after `</c>`.
pub open spec fn cell_formula_from(
    evs: Seq<XmlEvent>,
    i: int,
    pos: (u32, u32),
    formulas: Map<usize, SharedFormulaView>,
    value: Option<Seq<char>>,
) -> Result<(Option<Seq<char>>, Map<usize, SharedFormulaView>, int), XlsxError>
    decreases evs.len() - i when events_wf(evs)
{
    if i < 0 || i >= evs.len() {
        Err(XlsxError::XmlEof(EofContext::Cell))
    } else {
        match evs[i] {
            XmlEvent::Start(e) => match spec_read_formula(evs, i + 1, e) {
                Err(x) => Err(x),
                Ok((f, j)) => {
                    let v1 = if f is Some { f } else { value };
                    match shared_formula_step(e, f, pos, formulas, v1) {
                        Err(x) => Err(x),
                        Ok((v2, fm2)) => {
                            proof {
                                lemma_read_formula_bounds(evs, i + 1, e);
                            }
                            cell_formula_from(evs, j, pos, fm2, v2)
                        },
                    }
                },
            },
            XmlEvent::End(n) => if spec_local_name(n@) == KW_C@ {
                Ok((value, formulas, i + 1))
            } else {
                cell_formula_from(evs, i + 1, pos, formulas, value)
            },
            XmlEvent::Eof => Err(XlsxError::XmlEof(EofContext::Cell)),
            XmlEvent::Error(e) => Err(XlsxError::Xml(e)),
            _ => cell_formula_from(evs, i + 1, pos, formulas, value),
        }
    }
}

/// The shared formulas once the walk of `cell_formula_from` stops, whether it
/// reaches `</c>` or fails: the registrations of the children read up to that
/// point (a failing child registers nothing).
pub open spec fn cell_formula_map_after(
    evs: Seq<XmlEvent>,
    i: int,
    pos: (u32, u32),
    formulas: Map<usize, SharedFormulaView>,
    value: Option<Seq<char>>,
) -> Map<usize, SharedFormulaView>
    decreases evs.len() - i when events_wf(evs)
{
    if i < 0 || i >= evs.len() {
        formulas
    } else {
        match evs[i] {
            XmlEvent::Start(e) => match spec_read_formula(evs, i + 1, e) {
                Err(_) => formulas,
                Ok((f, j)) => {
                    let v1 = if f is Some { f } else { value };
                    match shared_formula_step(e, f, pos, formulas, v1) {
                        Err(_) => formulas,
                        Ok((v2, fm2)) => {
                            proof {
                                lemma_read_formula_bounds(evs, i + 1, e);
                            }
                            cell_formula_map_after(evs, j, pos, fm2, v2)
                        },
                    }
                },
            },
            XmlEvent::End(n) => if spec_local_name(n@) == KW_C@ {
                formulas
            } else {
                cell_formula_map_after(evs, i + 1, pos, formulas, value)
            },
            XmlEvent::Eof => formulas,
            XmlEvent::Error(_) => formulas,
            _ => cell_formula_map_after(evs, i + 1, pos, formulas, value),
        }
    }
}

pub proof fn lemma_read_formula_bounds(evs: Seq<XmlEvent>, i: int, e: XmlElement)
    requires
        events_wf(evs),
    ensures
        spec_read_formula(evs, i, e) matches Ok((_, j)) ==> i < j < evs.len(),
{
    lemma_read_text_bounds(evs, i, e.name@, false, EofContext::Formula, Seq::empty());
    lemma_skip_to_end_bounds(evs, i, e.name@, 0);
}

pub proof fn lemma_cell_formula_bounds(
    evs: Seq<XmlEvent>,
    i: int,
    pos: (u32, u32),
    formulas: Map<usize, SharedFormulaView>,
    value: Option<Seq<char>>,
)
    requires
        events_wf(evs),
    ensures
        cell_formula_from(evs, i, pos, formulas, value) matches Ok((_, _, j)) ==> i < j < evs.len(),
    decreases evs.len() - i,
{
    if 0 <= i < evs.len() {
        match evs[i] {
            XmlEvent::Start(e) => {
                lemma_read_formula_bounds(evs, i + 1, e);
                if let Ok((f, j)) = spec_read_formula(evs, i + 1, e) {
                    let v1 = if f is Some { f } else { value };
                    if let Ok((v2, fm2)) = shared_formula_step(e, f, pos, formulas, v1) {
                        lemma_cell_formula_bounds(evs, j, pos, fm2, v2);
                    }
                }
            },
            XmlEvent::Eof => {},
            XmlEvent::Error(_) => {},
            _ => {
                lemma_cell_formula_bounds(evs, i + 1, pos, formulas, value);
            },
        }
    }
}

/// Entries after index `k` that do not register `si` leave its lookup as
/// the first `k` entries give it.
pub proof fn lemma_formula_map_suffix(list: Seq<(usize, SharedFormula)>, k: int, si: usize)
    requires
        0 <= k <= list.len(),
        forall|j: int| k <= j < list.len() ==> (#[trigger] list[j]).0 != si,
    ensures
        formula_map(list).dom().contains(si) == formula_map(list.take(k)).dom().contains(si),
        formula_map(list).dom().contains(si) ==> formula_map(list)[si] == formula_map(list.take(k))[si],
    decreases list.len(),
{
    if list.len() == k {
        assert(list.take(k) =~= list);
    } else {
        let rest = list.drop_last();
        assert(rest.take(k) =~= list.take(k));
        assert forall|j: int| k <= j < rest.len() implies (#[trigger] rest[j]).0 != si by {
            assert(rest[j] == list[j]);
        }
        lemma_formula_map_suffix(rest, k, si);
    }
}

/// The shared formula registered last under `si`, if any.
fn find_shared_formula(list: &Vec<(usize, SharedFormula)>, si: usize) -> (r: Option<usize>)
    ensures
        match r {
            Some(k) => k < list@.len() && formula_map(list@).dom().contains(si) && formula_map(list@)[si] == list@[k as int].1@,
            None => !formula_map(list@).dom().contains(si),
        },
{
    let mut k = list.len();
    while k > 0
        invariant
            k <= list@.len(),
            forall|j: int| k <= j < list@.len() ==> (#[trigger] list@[j]).0 != si,
        decreases k,
    {
        let idx = k - 1;
        if list[idx].0 == si {
            proof {
                lemma_formula_map_suffix(list@, k as int, si);
                assert(list@.take(k as int).drop_last() =~= list@.take(idx as int));
            }
            return Some(idx);
        }
        k = idx;
    }
    proof {
        lemma_formula_map_suffix(list@, 0, si);
        assert(list@.take(0) =~= Seq::<(usize, SharedFormula)>::empty());
    }
    None
}

/// Registering an entry makes it the one that its index finds.
pub proof fn lemma_formula_map_push(list: Seq<(usize, SharedFormula)>, entry: (usize, SharedFormula))
    ensures
        formula_map(list.push(entry)) == formula_map(list).insert(entry.0, entry.1@),
{
    assert(list.push(entry).drop_last() =~= list);
}

/// Carries out `shared_formula_step` for the child `e` of the cell at `pos`.
fn apply_shared_formula(
    e: &XmlElement,
    formula: Option<String>,
    pos: (u32, u32),
    formulas: &mut Vec<(usize, SharedFormula)>,
    value: Option<String>,
) -> (r: Result<Option<String>, XlsxError>)
    ensures
        match (r, shared_formula_step(*e, text_of(formula), pos, formula_map(old(formulas)@), text_of(value))) {
            (Ok(v), Ok((w, fm))) => text_of(v) == w && formula_map(final(formulas)@) == fm,
            (Err(x), Err(y)) => x == y,
            _ => false,
        },
        r is Err ==> final(formulas)@ == old(formulas)@,
{
    let k_t = KW_T;
    let k_shared = KW_SHARED;
    let k_si = KW_SI;
    let k_ref = KW_REF;
    let is_shared = match get_attribute(e, &k_t) {
        Ok(Some(t)) => bytes_eq(t, &k_shared),
        _ => false,
    };
    if !is_shared {
        return Ok(value);
    }
    let si = match get_attribute(e, &k_si) {
        Err(x) => {
            return Err(x);
        },
        Ok(None) => {
            return Err(XlsxError::Unexpected(Unexpected::SharedIndexMissing));
        },
        Ok(Some(s)) => match atoi_usize(s) {
            None => {
                return Err(XlsxError::Unexpected(Unexpected::SharedIndexNotNumber));
            },
            Some(si) => si,
        },
    };
    match get_attribute(e, &k_ref) {
        Err(x) => Err(x),
        Ok(Some(r)) => match get_dimension(r) {
            Err(x) => Err(x),
            Ok(d) => {
                match &formula {
                    Some(f) => {
                        let entry = (si, SharedFormula { formula: f.clone(), reference: d, anchor: pos });
                        proof {
                            lemma_formula_map_push(formulas@, entry);
                        }
                        formulas.push(entry);
                    },
                    None => {},
                }
                Ok(formula)
            },
        },
        Ok(None) => match find_shared_formula(formulas, si) {
            Some(k) => {
                let sf = &formulas[k].1;
                if sf.reference.start.0 <= pos.0 && pos.0 <= sf.reference.end.0 && sf.reference.start.1 <= pos.1
                    && pos.1 <= sf.reference.end.1 {
                    let offset = (pos.0 as i64 - sf.anchor.0 as i64, pos.1 as i64 - sf.anchor.1 as i64);
                    match replace_cell_names(sf.formula.as_str(), offset) {
                        Err(x) => Err(x),
                        Ok(t) => Ok(Some(t)),
                    }
                } else {
                    Ok(value)
                }
            },
            None => Ok(value),
        },
    }
}

/// The text of an optional string.
pub open spec fn text_of(s: Option<String>) -> Option<Seq<char>> {
    match s {
        Some(t) => Some(t@),
        None => None,
    }
}

/// Reads the formula of the cell at `cell_pos`, whose content starts at
/// `pos`, registering and using shared formulas.
pub fn read_cell_formula(
    evs: &Vec<XmlEvent>,
    pos: usize,
    cell_pos: (u32, u32),
    formulas: &mut Vec<(usize, SharedFormula)>,
) -> (r: Result<(Option<String>, usize), XlsxError>)
    requires
        events_wf(evs@),
        pos < evs@.len(),
    ensures
        match (r, cell_formula_from(evs@, pos as int, cell_pos, formula_map(old(formulas)@), None)) {
            (Ok((v, p)), Ok((w, fm, q))) => text_of(v) == w && formula_map(final(formulas)@) == fm && p == q,
            (Err(x), Err(y)) => x == y,
            _ => false,
        },
        r matches Ok((_, p)) ==> pos < p < evs@.len(),
        formula_map(final(formulas)@) == cell_formula_map_after(evs@, pos as int, cell_pos, formula_map(old(formulas)@), None),
{
    let mut value: Option<String> = None;
    let mut i = pos;
    proof {
        lemma_cell_formula_bounds(evs@, pos as int, cell_pos, formula_map(old(formulas)@), None);
    }
    while i < evs.len()
        invariant
            events_wf(evs@),
            pos <= i < evs@.len(),
            cell_formula_from(evs@, pos as int, cell_pos, formula_map(old(formulas)@), None)
                == cell_formula_from(evs@, i as int, cell_pos, formula_map(formulas@), text_of(value)),
            cell_formula_from(evs@, pos as int, cell_pos, formula_map(old(formulas)@), None) matches Ok((_, _, j))
                ==> pos < j < evs@.len(),
            cell_formula_map_after(evs@, pos as int, cell_pos, formula_map(old(formulas)@), None)
                == cell_formula_map_after(evs@, i as int, cell_pos, formula_map(formulas@), text_of(value)),
        decreases evs@.len() - i,
    {
        let k_c = KW_C;
        match &evs[i] {
            XmlEvent::Start(e) => {
                assert(i + 1 < evs@.len());
                proof {
                    lemma_read_formula_bounds(evs@, i + 1, *e);
                }
                match read_formula(evs, i + 1, e) {
                    Err(x) => {
                        return Err(x);
                    },
                    Ok((f, j)) => {
                        let v1 = match &f {
                            Some(t) => Some(t.clone()),
                            None => value,
                        };
                        match apply_shared_formula(e, f, (cell_pos.0, cell_pos.1), formulas, v1) {
                            Err(x) => {
                                return Err(x);
                            },
                            Ok(v2) => {
                                value = v2;
                                i = j;
                            },
                        }
                    },
                }
            },
            XmlEvent::End(n) => {
                if bytes_eq(local_name(n.as_slice()), &k_c) {
                    return Ok((value, i + 1));
                }
                i = i + 1;
            },
            XmlEvent::Eof => {
                return Err(XlsxError::XmlEof(EofContext::Cell));
            },
            XmlEvent::Error(e) => {
                return Err(XlsxError::Xml(e.copy()));
            },
            _ => {
                i = i + 1;
            },
        }
    }
    Err(XlsxError::XmlEof(EofContext::Cell))
}

/// Where a cell whose content starts at event `i` ends: the index after its
/// `</c>`, its content skipped.
pub open spec fn skip_cell_from(evs: Seq<XmlEvent>, i: int) -> Result<int, XlsxError>
    decreases evs.len() - i,
{
    if i < 0 || i >= evs.len() {
        Err(XlsxError::XmlEof(EofContext::Cell))
    } else {
        match evs[i] {
            XmlEvent::End(n) => if spec_local_name(n@) == KW_C@ {
                Ok(i + 1)
            } else {
                skip_cell_from(evs, i + 1)
            },
            XmlEvent::Eof => Err(XlsxError::XmlEof(EofContext::Cell)),
            XmlEvent::Error(e) => Err(XlsxError::Xml(e)),
            _ => skip_cell_from(evs, i + 1),
        }
    }
}

pub proof fn lemma_skip_cell_bounds(evs: Seq<XmlEvent>, i: int)
    requires
        events_wf(evs),
    ensures
        skip_cell_from(evs, i) matches Ok(j) ==> i < j < evs.len(),
    decreases evs.len() - i,
{
    if 0 <= i < evs.len() {
        match evs[i] {
            XmlEvent::Eof => {},
            XmlEvent::Error(_) => {},
            _ => {
                lemma_skip_cell_bounds(evs, i + 1);
            },
        }
    }
}

/// Skips the content of a cell that starts at `pos`.
pub fn skip_cell(evs: &Vec<XmlEvent>, pos: usize) -> (r: Result<usize, XlsxError>)
    requires
        events_wf(evs@),
        pos < evs@.len(),
    ensures
        match (r, skip_cell_from(evs@, pos as int)) {
            (Ok(p), Ok(q)) => p == q && pos < p < evs@.len(),
            (Err(x), Err(y)) => x == y,
            _ => false,
        },
{
    let mut i = pos;
    proof {
        lemma_skip_cell_bounds(evs@, pos as int);
    }
    while i < evs.len()
        invariant
            events_wf(evs@),
            pos <= i < evs@.len(),
            skip_cell_from(evs@, pos as int) == skip_cell_from(evs@, i as int),
            skip_cell_from(evs@, pos as int) matches Ok(j) ==> pos < j < evs@.len(),
        decreases evs@.len() - i,
    {
        let k_c = KW_C;
        match &evs[i] {
            XmlEvent::End(n) => {
                if bytes_eq(local_name(n.as_slice()), &k_c) {
                    return Ok(i + 1);
                }
            },
            XmlEvent::Eof => {
                return Err(XlsxError::XmlEof(EofContext::Cell));
            },
            XmlEvent::Error(e) => {
                return Err(XlsxError::Xml(e.copy()));
            },
            _ => {},
        }
        i = i + 1;
    }
    Err(XlsxError::XmlEof(EofContext::Cell))
}

} // verus!
