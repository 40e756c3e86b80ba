//! Walking an XML event stream: skipping an element and collecting text.

use vstd::prelude::*;
use crate::error::{EofContext, XlsxError, XmlError};
use crate::text::{push_entity, push_text, spec_entity_text, spec_text_content};
use crate::xml::{bytes_eq, events_wf, local_name, spec_local_name, XmlEvent};

verus! {

/// Where the element that is open at event `i` ends: the index after the
/// `</name>` that closes it, counting nested elements of the same name.
/// Mirrors `quick_xml::Reader::read_to_end_into`.
pub open spec fn skip_to_end_from(evs: Seq<XmlEvent>, i: int, name: Seq<u8>, depth: nat) -> Result<int, XlsxError>
    decreases evs.len() - i,
{
    if i < 0 || i >= evs.len() {
        Err(XlsxError::Xml(XmlError::MissingEndTag))
    } else {
        match evs[i] {
            XmlEvent::Error(e) => Err(XlsxError::Xml(e)),
            XmlEvent::Start(el) => if el.name@ == name {
                skip_to_end_from(evs, i + 1, name, depth + 1)
            } else {
                skip_to_end_from(evs, i + 1, name, depth)
            },
            XmlEvent::End(n) => if n@ == name {
                if depth == 0 {
                    Ok(i + 1)
                } else {
                    skip_to_end_from(evs, i + 1, name, (depth - 1) as nat)
                }
            } else {
                skip_to_end_from(evs, i + 1, name, depth)
            },
            XmlEvent::Eof => Err(XlsxError::Xml(XmlError::MissingEndTag)),
            _ => skip_to_end_from(evs, i + 1, name, depth),
        }
    }
}

/// Skipping moves forward and stays within a well-formed stream.
pub proof fn lemma_skip_to_end_bounds(evs: Seq<XmlEvent>, i: int, name: Seq<u8>, depth: nat)
    requires
        events_wf(evs),
    ensures
        skip_to_end_from(evs, i, name, depth) matches Ok(j) ==> i < j < evs.len(),
    decreases evs.len() - i,
{
    if 0 <= i < evs.len() {
        match evs[i] {
            XmlEvent::Start(el) => {
                if el.name@ == name {
                    lemma_skip_to_end_bounds(evs, i + 1, name, depth + 1);
                } else {
                    lemma_skip_to_end_bounds(evs, i + 1, name, depth);
                }
            },
            XmlEvent::End(n) => {
                if n@ == name && depth > 0 {
                    lemma_skip_to_end_bounds(evs, i + 1, name, (depth - 1) as nat);
                } else if n@ != name {
                    lemma_skip_to_end_bounds(evs, i + 1, name, depth);
                }
            },
            XmlEvent::Error(_) => {},
            XmlEvent::Eof => {},
            _ => {
                lemma_skip_to_end_bounds(evs, i + 1, name, depth);
            },
        }
    }
}

/// An executable position result agrees with a specified one.
pub open spec fn same_position(r: Result<usize, XlsxError>, s: Result<int, XlsxError>) -> bool {
    match (r, s) {
        (Ok(p), Ok(q)) => p as int == q,
        (Err(x), Err(y)) => x == y,
        _ => false,
    }
}

/// An executable parse result (a value and the next position) agrees with a
/// specified one.
pub open spec fn same_parse<T>(r: Result<(T, usize), XlsxError>, s: Result<(T, int), XlsxError>) -> bool {
    match (r, s) {
        (Ok((a, p)), Ok((b, q))) => a == b && p as int == q,
        (Err(x), Err(y)) => x == y,
        _ => false,
    }
}

/// Skips the rest of the element that is open at `pos`, whose qualified name is `name`.
pub fn read_to_end(evs: &Vec<XmlEvent>, pos: usize, name: &[u8]) -> (r: Result<usize, XlsxError>)
    requires
        events_wf(evs@),
        pos < evs@.len(),
    ensures
        same_position(r, skip_to_end_from(evs@, pos as int, name@, 0)),
        r matches Ok(p) ==> pos < p < evs@.len(),
{
    let mut i = pos;
    let mut depth: usize = 0;
    while i < evs.len()
        invariant
            events_wf(evs@),
            pos <= i < evs@.len(),
            depth <= i,
            skip_to_end_from(evs@, pos as int, name@, 0) == skip_to_end_from(evs@, i as int, name@, depth as nat),
        decreases evs@.len() - i,
    {
        match &evs[i] {
            XmlEvent::Error(e) => {
                return Err(XlsxError::Xml(e.copy()));
            },
            XmlEvent::Start(el) => {
                if bytes_eq(el.name.as_slice(), name) {
                    depth = depth + 1;
                }
            },
            XmlEvent::End(n) => {
                if bytes_eq(n.as_slice(), name) {
                    if depth == 0 {
                        return Ok(i + 1);
                    }
                    depth = depth - 1;
                }
            },
            XmlEvent::Eof => {
                return Err(XlsxError::Xml(XmlError::MissingEndTag));
            },
            _ => {},
        }
        i = i + 1;
    }
    Err(XlsxError::Xml(XmlError::MissingEndTag))
}

/// Whether an end tag closes the awaited element: compared by local name or
/// by qualified name.
pub open spec fn closes(n: Seq<u8>, closing: Seq<u8>, by_local: bool) -> bool {
    if by_local {
        spec_local_name(n) == closing
    } else {
        n == closing
    }
}

/// The text collected from event `i` up to the end tag that closes the
/// element, and the index after that end tag. Text events are decoded,
/// references resolved, other events ignored.
pub open spec fn read_text_from(
    evs: Seq<XmlEvent>,
    i: int,
    closing: Seq<u8>,
    by_local: bool,
    ctx: EofContext,
    acc: Seq<char>,
) -> Result<(Seq<char>, int), XlsxError>
    decreases evs.len() - i,
{
    if i < 0 || i >= evs.len() {
        Err(XlsxError::XmlEof(ctx))
    } else {
        match evs[i] {
            XmlEvent::Text(raw) => match spec_text_content(raw@) {
                Some(t) => read_text_from(evs, i + 1, closing, by_local, ctx, acc + t),
                None => Err(XlsxError::Encoding),
            },
            XmlEvent::GeneralRef(raw) => match spec_entity_text(raw@) {
                Ok(t) => read_text_from(evs, i + 1, closing, by_local, ctx, acc + t),
                Err(e) => Err(e),
            },
            XmlEvent::End(n) => if closes(n@, closing, by_local) {
                Ok((acc, i + 1))
            } else {
                read_text_from(evs, i + 1, closing, by_local, ctx, acc)
            },
            XmlEvent::Eof => Err(XlsxError::XmlEof(ctx)),
            XmlEvent::Error(e) => Err(XlsxError::Xml(e)),
            _ => read_text_from(evs, i + 1, closing, by_local, ctx, acc),
        }
    }
}

/// Reading text moves forward and stays within a well-formed stream.
pub proof fn lemma_read_text_bounds(
    evs: Seq<XmlEvent>,
    i: int,
    closing: Seq<u8>,
    by_local: bool,
    ctx: EofContext,
    acc: Seq<char>,
)
    requires
        events_wf(evs),
    ensures
        read_text_from(evs, i, closing, by_local, ctx, acc) matches Ok((_, j)) ==> i < j < evs.len(),
    decreases evs.len() - i,
{
    if 0 <= i < evs.len() {
        match evs[i] {
            XmlEvent::Text(raw) => {
                if let Some(t) = spec_text_content(raw@) {
                    lemma_read_text_bounds(evs, i + 1, closing, by_local, ctx, acc + t);
                }
            },
            XmlEvent::GeneralRef(raw) => {
                if let Ok(t) = spec_entity_text(raw@) {
                    lemma_read_text_bounds(evs, i + 1, closing, by_local, ctx, acc + t);
                }
            },
            XmlEvent::End(n) => {
                if !closes(n@, closing, by_local) {
                    lemma_read_text_bounds(evs, i + 1, closing, by_local, ctx, acc);
                }
            },
            XmlEvent::Eof => {},
            XmlEvent::Error(_) => {},
            _ => {
                lemma_read_text_bounds(evs, i + 1, closing, by_local, ctx, acc);
            },
        }
    }
}

/// Collects the text of the element open at `pos` up to its closing tag.
pub fn read_text(evs: &Vec<XmlEvent>, pos: usize, closing: &[u8], by_local: bool, ctx: EofContext) -> (r: Result<(String, usize), XlsxError>)
    requires
        events_wf(evs@),
        pos < evs@.len(),
    ensures
        match (r, read_text_from(evs@, pos as int, closing@, by_local, ctx, Seq::empty())) {
            (Ok((s, p)), Ok((t, q))) => s@ == t && p == q && pos < p < evs@.len(),
            (Err(x), Err(y)) => x == y,
            _ => false,
        },
{
    let mut buf = String::new();
    let mut i = pos;
    proof {
        lemma_read_text_bounds(evs@, pos as int, closing@, by_local, ctx, Seq::empty());
    }
    while i < evs.len()
        invariant
            events_wf(evs@),
            pos <= i < evs@.len(),
            read_text_from(evs@, pos as int, closing@, by_local, ctx, Seq::empty())
                == read_text_from(evs@, i as int, closing@, by_local, ctx, buf@),
            read_text_from(evs@, pos as int, closing@, by_local, ctx, Seq::empty()) matches Ok((_, j))
                ==> pos < j < evs@.len(),
        decreases evs@.len() - i,
    {
        match &evs[i] {
            XmlEvent::Text(raw) => {
                let res = push_text(&mut buf, raw.as_slice());
                if res.is_err() {
                    return Err(XlsxError::Encoding);
                }
            },
            XmlEvent::GeneralRef(raw) => {
                let res = push_entity(&mut buf, raw.as_slice());
                match res {
                    Err(e) => {
                        return Err(e);
                    },
                    Ok(()) => {},
                }
            },
            XmlEvent::End(n) => {
                let matched = if by_local {
                    bytes_eq(local_name(n.as_slice()), closing)
                } else {
                    bytes_eq(n.as_slice(), closing)
                };
                if matched {
                    return Ok((buf, i + 1));
                }
            },
            XmlEvent::Eof => {
                return Err(XlsxError::XmlEof(ctx));
            },
            XmlEvent::Error(e) => {
                return Err(XlsxError::Xml(e.copy()));
            },
            _ => {},
        }
        i = i + 1;
    }
    Err(XlsxError::XmlEof(ctx))
}

} // verus!
