//! The XML event model that the readers consume, and the basic queries on it.

use vstd::prelude::*;
use crate::error::{XlsxError, XmlError};

verus! {

/// One `key="value"` pair of a start tag; the value is kept as written
/// (not unescaped).
#[derive(Debug, Clone, PartialEq, Eq)]
pub struct XmlAttribute {
    pub key: Vec<u8>,
    pub value: Vec<u8>,
}

/// A start or empty-element tag: its qualified name and its attributes.
/// When `malformed_attributes` holds, the attribute list breaks off after
/// `attributes` with a syntax error.
#[derive(Debug, Clone, PartialEq, Eq)]
pub struct XmlElement {
    pub name: Vec<u8>,
    pub attributes: Vec<XmlAttribute>,
    pub malformed_attributes: bool,
}

/// One event of an XML document, in document order.
#[derive(Debug, Clone, PartialEq, Eq)]
pub enum XmlEvent {
    /// `<name ...>`
    Start(XmlElement),
    /// `<name .../>`
    Empty(XmlElement),
    /// `</name>`, with the qualified name.
    End(Vec<u8>),
    /// Character data between tags, as written (still encoded, not unescaped).
    Text(Vec<u8>),
    /// An entity or character reference `&name;`, with the bytes between `&` and `;`.
    GeneralRef(Vec<u8>),
    /// Comments, CDATA, declarations, processing instructions and doctypes.
    Other,
    /// The end of the document.
    Eof,
    /// The tokenizer stopped with an error.
    Error(XmlError),
}

/// The part of a qualified name after its first `:`, or the whole name when it
/// has no prefix.
pub open spec fn local_name_from(name: Seq<u8>, i: int) -> Seq<u8>
    decreases name.len() - i,
{
    if i < 0 || i >= name.len() {
        name
    } else if name[i] == 58u8 {
        name.subrange(i + 1, name.len() as int)
    } else {
        local_name_from(name, i + 1)
    }
}

pub open spec fn spec_local_name(name: Seq<u8>) -> Seq<u8> {
    local_name_from(name, 0)
}

/// Whether two byte strings are equal.
pub fn bytes_eq(a: &[u8], b: &[u8]) -> (r: bool)
    ensures
        r == (a@ == b@),
{
    if a.len() != b.len() {
        return false;
    }
    let mut i: usize = 0;
    while i < a.len()
        invariant
            a.len() == b.len(),
            i <= a.len(),
            forall|j: int| 0 <= j < i ==> a@[j] == b@[j],
        decreases a.len() - i,
    {
        if a[i] != b[i] {
            return false;
        }
        i = i + 1;
    }
    assert(a@ =~= b@);
    true
}

/// The local part of a qualified name (the part after the namespace prefix).
pub fn local_name(name: &[u8]) -> (r: &[u8])
    ensures
        r@ == spec_local_name(name@),
{
    let mut i: usize = 0;
    while i < name.len()
        invariant
            i <= name.len(),
            local_name_from(name@, 0) == local_name_from(name@, i as int),
        decreases name.len() - i,
    {
        if name[i] == 58u8 {
            let r = &name[i + 1..name.len()];
            return r;
        }
        i = i + 1;
    }
    name
}

/// The value of the first attribute at or after index `i` whose key is `key`.
pub open spec fn attr_lookup_from(attrs: Seq<XmlAttribute>, key: Seq<u8>, i: int) -> Option<Seq<u8>>
    decreases attrs.len() - i,
{
    if i < 0 || i >= attrs.len() {
        None
    } else if attrs[i].key@ == key {
        Some(attrs[i].value@)
    } else {
        attr_lookup_from(attrs, key, i + 1)
    }
}

/// The value of the first attribute named `key`: `Ok(None)` when there is none,
/// and an error when the attribute list breaks off before one is found.
pub open spec fn spec_get_attribute(e: XmlElement, key: Seq<u8>) -> Result<Option<Seq<u8>>, XlsxError> {
    match attr_lookup_from(e.attributes@, key, 0) {
        Some(v) => Ok(Some(v)),
        None => if e.malformed_attributes {
            Err(XlsxError::XmlAttr)
        } else {
            Ok(None)
        },
    }
}

/// The value of the first attribute of a list whose key is `key`.
pub fn find_attribute<'a>(attrs: &'a [XmlAttribute], key: &[u8]) -> (r: Option<&'a [u8]>)
    ensures
        match (r, attr_lookup_from(attrs@, key@, 0)) {
            (Some(v), Some(w)) => v@ == w,
            (None, None) => true,
            _ => false,
        },
{
    let mut i: usize = 0;
    while i < attrs.len()
        invariant
            i <= attrs@.len(),
            attr_lookup_from(attrs@, key@, 0) == attr_lookup_from(attrs@, key@, i as int),
        decreases attrs@.len() - i,
    {
        if bytes_eq(attrs[i].key.as_slice(), key) {
            return Some(attrs[i].value.as_slice());
        }
        i = i + 1;
    }
    None
}

/// Looks up an attribute by its qualified name.
pub fn get_attribute<'a>(e: &'a XmlElement, key: &[u8]) -> (r: Result<Option<&'a [u8]>, XlsxError>)
    ensures
        match (r, spec_get_attribute(*e, key@)) {
            (Ok(Some(v)), Ok(Some(w))) => v@ == w,
            (Ok(None), Ok(None)) => true,
            (Err(x), Err(y)) => x == y,
            _ => false,
        },
{
    let mut i: usize = 0;
    while i < e.attributes.len()
        invariant
            i <= e.attributes@.len(),
            attr_lookup_from(e.attributes@, key@, 0) == attr_lookup_from(e.attributes@, key@, i as int),
        decreases e.attributes@.len() - i,
    {
        if bytes_eq(e.attributes[i].key.as_slice(), key) {
            return Ok(Some(e.attributes[i].value.as_slice()));
        }
        i = i + 1;
    }
    if e.malformed_attributes {
        Err(XlsxError::XmlAttr)
    } else {
        Ok(None)
    }
}

/// An event stream is well formed when it ends with `Eof`.
pub open spec fn events_wf(evs: Seq<XmlEvent>) -> bool {
    evs.len() > 0 && evs.last() is Eof
}

} // verus!
