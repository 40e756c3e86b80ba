//! The XML tokenizer: `quick_xml`'s reader turned into the event stream that
//! the style and cell readers walk.

use vstd::prelude::*;
use quick_xml::events::attributes::Attributes;
use quick_xml::events::{BytesStart, Event};
use quick_xml::Reader;
use crate::error::XmlError;
use crate::xml::{events_wf, XmlAttribute, XmlElement, XmlEvent};

verus! {

#[verifier::external_type_specification]
#[verifier::external_body]
#[verifier::reject_recursive_types(R)]
pub struct ExReader<R>(quick_xml::Reader<R>);

#[verifier::external_type_specification]
#[verifier::external_body]
pub struct ExBytesStart<'a>(quick_xml::events::BytesStart<'a>);

#[verifier::external_type_specification]
#[verifier::external_body]
pub struct ExAttributes<'a>(quick_xml::events::attributes::Attributes<'a>);

#[verifier::external_type_specification]
#[verifier::external_body]
pub struct ExAttribute<'a>(quick_xml::events::attributes::Attribute<'a>);

#[verifier::external_type_specification]
#[verifier::external_body]
pub struct ExAttrError(quick_xml::events::attributes::AttrError);

/// How the tokenizer reads a document.
#[derive(Debug, Clone, Copy, PartialEq, Eq, Structural)]
pub struct XmlConfig {
    /// Report `<a/>` as `<a>` followed by `</a>`.
    pub expand_empty_elements: bool,
    /// Report an end tag that does not close the open element as an error.
    pub check_end_names: bool,
}

/// One event as the tokenizer hands it out, before its tags are taken apart.
pub enum RawEvent<'a> {
    Start(BytesStart<'a>),
    Empty(BytesStart<'a>),
    End(Vec<u8>),
    Text(Vec<u8>),
    GeneralRef(Vec<u8>),
    Other,
    Eof,
    Error(String),
}

/// An event of `quick_xml`'s reader as plain values: a start or empty tag by
/// its content (the bytes between `<` and `>`, without the `/` of an empty
/// tag), an end tag by its qualified name, text and references by their raw
/// bytes, an error by its message. Comments, CDATA, declarations,
/// processing instructions and doctypes are all `Other`.
pub enum RawEventView {
    Start(Seq<u8>),
    Empty(Seq<u8>),
    End(Seq<u8>),
    Text(Seq<u8>),
    GeneralRef(Seq<u8>),
    Other,
    Eof,
    Error(Seq<char>),
}

/// The events that `quick_xml`'s reader yields for a document held in a byte
/// slice (empty elements not expanded, end names checked as given), up to
/// and including the first `Eof` or error.
pub uninterp spec fn quick_xml_events(bytes: Seq<u8>, check_end_names: bool) -> Seq<RawEventView>;

/// The events that a reader has yet to yield, up to and including the first
/// `Eof` or error (a reader that has reached its end has `Eof` left).
pub uninterp spec fn reader_events(reader: Reader<&[u8]>) -> Seq<RawEventView>;

/// The bytes that a start tag holds: its content between `<` and `>`.
pub uninterp spec fn tag_content(e: BytesStart) -> Seq<u8>;

/// The items that `quick_xml`'s attribute iterator yields for a tag with
/// this content, until it ends: each attribute as its key and raw value, and
/// `None` for each malformed one.
pub uninterp spec fn quick_xml_attributes(content: Seq<u8>) -> Seq<Option<(Seq<u8>, Seq<u8>)>>;

/// The items that an attribute iterator has yet to yield.
pub uninterp spec fn attribute_items(attrs: Attributes) -> Seq<Option<(Seq<u8>, Seq<u8>)>>;

/// Whether an event ends the reader's output: `Eof` or an error.
pub open spec fn is_final(e: RawEventView) -> bool {
    e is Eof || e is Error
}

/// The shape of a reader's output: not empty, ended by its only `Eof` or
/// error.
pub open spec fn ends_once(evs: Seq<RawEventView>) -> bool {
    &&& evs.len() > 0
    &&& is_final(evs.last())
    &&& forall|i: int| 0 <= i < evs.len() - 1 ==> !is_final(#[trigger] evs[i])
}

/// An event as plain values.
pub open spec fn raw_view(e: RawEvent) -> RawEventView {
    match e {
        RawEvent::Start(t) => RawEventView::Start(tag_content(t)),
        RawEvent::Empty(t) => RawEventView::Empty(tag_content(t)),
        RawEvent::End(n) => RawEventView::End(n@),
        RawEvent::Text(t) => RawEventView::Text(t@),
        RawEvent::GeneralRef(r) => RawEventView::GeneralRef(r@),
        RawEvent::Other => RawEventView::Other,
        RawEvent::Eof => RawEventView::Eof,
        RawEvent::Error(m) => RawEventView::Error(m@),
    }
}

/// `quick_xml::Reader::from_reader` on a byte slice, with the configuration's
/// `check_end_names` (empty elements are left unexpanded). The reader yields
/// the events `quick_xml_events` names for these bytes; they end with one
/// `Eof` or error, since the reader consumes input with every other event.
#[verifier::external_body]
fn slice_reader<'a>(bytes: &'a [u8], check_end_names: bool) -> (r: Reader<&'a [u8]>)
    ensures
        reader_events(r) == quick_xml_events(bytes@, check_end_names),
        ends_once(reader_events(r)),
{
    let mut reader = Reader::from_reader(bytes);
    reader.config_mut().check_end_names = check_end_names;
    reader
}

/// `quick_xml::Reader::read_event`, with the end tag's qualified name, the
/// raw bytes of text and of references, and the error's message taken out;
/// comments, CDATA, declarations, processing instructions and doctypes are
/// all `Other`. The event is the reader's next one; after any event but
/// `Eof` or an error the reader has the rest still to give. Nothing is said
/// of the reader after `Eof` or an error.
#[verifier::external_body]
fn read_raw_event<'a>(reader: &mut Reader<&'a [u8]>) -> (r: RawEvent<'a>)
    requires
        reader_events(*old(reader)).len() > 0,
    ensures
        raw_view(r) == reader_events(*old(reader))[0],
        !is_final(reader_events(*old(reader))[0])
            ==> reader_events(*final(reader)) == reader_events(*old(reader)).drop_first(),
{
    match reader.read_event() {
        Ok(Event::Start(e)) => RawEvent::Start(e),
        Ok(Event::Empty(e)) => RawEvent::Empty(e),
        Ok(Event::End(e)) => RawEvent::End(e.name().as_ref().to_vec()),
        Ok(Event::Text(t)) => RawEvent::Text(t.into_inner().into_owned()),
        Ok(Event::GeneralRef(r)) => RawEvent::GeneralRef(r.into_inner().into_owned()),
        Ok(Event::Eof) => RawEvent::Eof,
        Ok(_) => RawEvent::Other,
        Err(e) => RawEvent::Error(format!("{}", e)),
    }
}

/// Whether a byte is XML whitespace (space, tab, carriage return, line feed).
pub open spec fn is_xml_space(b: u8) -> bool {
    b == 32u8 || b == 9u8 || b == 13u8 || b == 10u8
}

/// The length of a tag's name: its content up to the first whitespace.
pub open spec fn name_len_from(c: Seq<u8>, i: int) -> int
    decreases c.len() - i,
{
    if i < 0 || i >= c.len() || is_xml_space(c[i]) {
        i
    } else {
        name_len_from(c, i + 1)
    }
}

/// A tag's qualified name: its content up to the first whitespace.
pub open spec fn tag_name(c: Seq<u8>) -> Seq<u8> {
    c.subrange(0, name_len_from(c, 0))
}

pub proof fn lemma_name_len_bounds(c: Seq<u8>, i: int)
    requires
        0 <= i <= c.len(),
    ensures
        i <= name_len_from(c, i) <= c.len(),
    decreases c.len() - i,
{
    if i < c.len() && !is_xml_space(c[i]) {
        lemma_name_len_bounds(c, i + 1);
    }
}

/// `BytesStart::name`, as bytes: the tag's content up to its first
/// whitespace.
#[verifier::external_body]
fn element_name(e: &BytesStart) -> (r: Vec<u8>)
    ensures
        r@ == tag_name(tag_content(*e)),
{
    e.name().as_ref().to_vec()
}

/// `BytesStart::attributes`: an iterator over the attributes that
/// `quick_xml_attributes` names for the tag's content.
#[verifier::external_body]
fn element_attributes<'b>(e: &'b BytesStart) -> (r: Attributes<'b>)
    ensures
        attribute_items(r) == quick_xml_attributes(tag_content(*e)),
{
    e.attributes()
}

/// An attribute iterator's item as plain values.
pub open spec fn attribute_view(a: Result<XmlAttribute, ()>) -> Option<(Seq<u8>, Seq<u8>)> {
    match a {
        Ok(x) => Some((x.key@, x.value@)),
        Err(_) => None,
    }
}

/// `Attributes::next`, the attribute's key and raw value taken out and its
/// error reduced to `Err(())`: the iterator's next item, or `None` once none
/// is left.
#[verifier::external_body]
fn next_attribute(attrs: &mut Attributes) -> (r: Option<Result<XmlAttribute, ()>>)
    ensures
        match r {
            None => attribute_items(*old(attrs)).len() == 0 && attribute_items(*final(attrs)) == attribute_items(*old(attrs)),
            Some(x) => attribute_items(*old(attrs)).len() > 0 && attribute_view(x) == attribute_items(*old(attrs))[0]
                && attribute_items(*final(attrs)) == attribute_items(*old(attrs)).drop_first(),
        },
{
    match attrs.next() {
        None => None,
        Some(Ok(a)) => Some(Ok(XmlAttribute { key: a.key.as_ref().to_vec(), value: a.value.into_owned() })),
        Some(Err(_)) => Some(Err(())),
    }
}

/// Whether an element is the tag with content `c` taken apart: its name,
/// and its attributes up to the first malformed one, which marks it
/// malformed.
pub open spec fn element_matches(e: XmlElement, c: Seq<u8>) -> bool {
    let items = quick_xml_attributes(c);
    let k = e.attributes@.len();
    &&& e.name@ == tag_name(c)
    &&& k <= items.len()
    &&& forall|j: int| 0 <= j < k ==> items[j] == Some(((#[trigger] e.attributes@[j]).key@, e.attributes@[j].value@))
    &&& if e.malformed_attributes { k < items.len() && items[k as int] is None } else { k == items.len() }
}

/// A start or empty tag taken apart.
fn element_of(e: &BytesStart) -> (r: XmlElement)
    ensures
        element_matches(r, tag_content(*e)),
{
    let name = element_name(e);
    let mut attrs = element_attributes(e);
    let ghost total = attribute_items(attrs);
    let ghost mut seen: Seq<Option<(Seq<u8>, Seq<u8>)>> = Seq::empty();
    let mut attributes: Vec<XmlAttribute> = Vec::new();
    loop
        invariant
            total == quick_xml_attributes(tag_content(*e)),
            name@ == tag_name(tag_content(*e)),
            total == seen + attribute_items(attrs),
            attributes@.len() == seen.len(),
            forall|j: int| 0 <= j < seen.len() ==> seen[j] == Some(((#[trigger] attributes@[j]).key@, attributes@[j].value@)),
        decreases attribute_items(attrs).len(),
    {
        let ghost before = attribute_items(attrs);
        match next_attribute(&mut attrs) {
            None => {
                assert(total =~= seen);
                assert forall|j: int| 0 <= j < attributes@.len() implies total[j] == Some(((#[trigger] attributes@[j]).key@, attributes@[j].value@)) by {
                    assert(total[j] == seen[j]);
                }
                return XmlElement { name, attributes, malformed_attributes: false };
            },
            Some(Err(())) => {
                assert(total[seen.len() as int] == before[0]);
                assert forall|j: int| 0 <= j < attributes@.len() implies total[j] == Some(((#[trigger] attributes@[j]).key@, attributes@[j].value@)) by {
                    assert(total[j] == seen[j]);
                }
                return XmlElement { name, attributes, malformed_attributes: true };
            },
            Some(Ok(a)) => {
                proof {
                    assert(total[seen.len() as int] == before[0]);
                    seen = seen.push(before[0]);
                    assert(total =~= seen + attribute_items(attrs));
                }
                attributes.push(a);
            },
        }
    }
}

/// The events that one reader event becomes: a tag taken apart (an empty
/// tag expanded into a start and an end tag when `expand` holds), an error
/// followed by `Eof`, anything else as it is.
pub open spec fn event_matches(t: Seq<XmlEvent>, r: RawEventView, expand: bool) -> bool {
    match r {
        RawEventView::Start(c) => t.len() == 1 && (t[0] matches XmlEvent::Start(e) && element_matches(e, c)),
        RawEventView::Empty(c) => if expand {
            &&& t.len() == 2
            &&& t[0] matches XmlEvent::Start(e) && element_matches(e, c)
            &&& t[1] matches XmlEvent::End(n) && n@ == tag_name(c)
        } else {
            t.len() == 1 && (t[0] matches XmlEvent::Empty(e) && element_matches(e, c))
        },
        RawEventView::End(n) => t.len() == 1 && (t[0] matches XmlEvent::End(m) && m@ == n),
        RawEventView::Text(x) => t.len() == 1 && (t[0] matches XmlEvent::Text(y) && y@ == x),
        RawEventView::GeneralRef(x) => t.len() == 1 && (t[0] matches XmlEvent::GeneralRef(y) && y@ == x),
        RawEventView::Other => t.len() == 1 && t[0] is Other,
        RawEventView::Eof => t.len() == 1 && t[0] is Eof,
        RawEventView::Error(m) => t.len() == 2 && t[1] is Eof && (t[0] matches XmlEvent::Error(XmlError::Syntax(s)) && s@ == m),
    }
}

/// How many events one reader event becomes.
pub open spec fn event_width(r: RawEventView, expand: bool) -> int {
    match r {
        RawEventView::Empty(_) => if expand { 2 } else { 1 },
        RawEventView::Error(_) => 2,
        _ => 1,
    }
}

/// Whether `evs` is what the reader events `raw` become, one after another.
pub open spec fn events_match(evs: Seq<XmlEvent>, raw: Seq<RawEventView>, expand: bool) -> bool
    decreases raw.len(),
{
    if raw.len() == 0 {
        evs.len() == 0
    } else {
        let k = event_width(raw.last(), expand);
        &&& evs.len() >= k
        &&& events_match(evs.subrange(0, evs.len() - k), raw.drop_last(), expand)
        &&& event_matches(evs.subrange(evs.len() - k, evs.len() as int), raw.last(), expand)
    }
}

proof fn lemma_events_match_push(evs: Seq<XmlEvent>, raw: Seq<RawEventView>, expand: bool, t: Seq<XmlEvent>, r: RawEventView)
    requires
        events_match(evs, raw, expand),
        event_matches(t, r, expand),
    ensures
        events_match(evs + t, raw.push(r), expand),
{
    let all = evs + t;
    assert(raw.push(r).drop_last() =~= raw);
    assert(raw.push(r).last() == r);
    assert(t.len() == event_width(r, expand));
    assert(all.subrange(0, all.len() - t.len()) =~= evs);
    assert(all.subrange(all.len() - t.len(), all.len() as int) =~= t);
}

/// Whether no event of the stream is an empty-element tag.
pub open spec fn no_empty_tags(evs: Seq<XmlEvent>) -> bool {
    forall|i: int| 0 <= i < evs.len() ==> !(#[trigger] evs[i] is Empty)
}

/// Whether `Eof` stands only at the end of the stream.
pub open spec fn eof_only_at_end(evs: Seq<XmlEvent>) -> bool {
    forall|i: int| 0 <= i < evs.len() - 1 ==> !(#[trigger] evs[i] is Eof)
}

/// Tokenizes a document: the events that `quick_xml` reads from the bytes,
/// tags taken apart, an empty tag expanded into a start and an end tag when
/// `expand_empty_elements` holds, and the stream ended by `Eof` (right after
/// an `Error` event when the tokenizer fails).
pub fn read_events(bytes: &[u8], config: XmlConfig) -> (r: Vec<XmlEvent>)
    ensures
        events_match(r@, quick_xml_events(bytes@, config.check_end_names), config.expand_empty_elements),
        events_wf(r@),
        eof_only_at_end(r@),
        config.expand_empty_elements ==> no_empty_tags(r@),
{
    let mut reader = slice_reader(bytes, config.check_end_names);
    let ghost total = reader_events(reader);
    let ghost mut consumed: Seq<RawEventView> = Seq::empty();
    let mut events: Vec<XmlEvent> = Vec::new();
    loop
        invariant
            total == quick_xml_events(bytes@, config.check_end_names),
            ends_once(total),
            total == consumed + reader_events(reader),
            forall|i: int| 0 <= i < consumed.len() ==> !is_final(#[trigger] consumed[i]),
            events_match(events@, consumed, config.expand_empty_elements),
            config.expand_empty_elements ==> no_empty_tags(events@),
            forall|i: int| 0 <= i < events@.len() ==> !(#[trigger] events@[i] is Eof),
        decreases reader_events(reader).len(),
    {
        proof {
            if reader_events(reader).len() == 0 {
                assert(total =~= consumed);
                assert(is_final(total[total.len() - 1]));
            }
        }
        let ghost rest = reader_events(reader);
        let ghost before = events@;
        let raw = read_raw_event(&mut reader);
        proof {
            assert(total[consumed.len() as int] == rest[0]);
        }
        match raw {
            RawEvent::Eof => {
                events.push(XmlEvent::Eof);
            },
            RawEvent::Error(message) => {
                events.push(XmlEvent::Error(XmlError::Syntax(message)));
                events.push(XmlEvent::Eof);
            },
            RawEvent::Start(e) => {
                events.push(XmlEvent::Start(element_of(&e)));
            },
            RawEvent::Empty(e) => {
                let el = element_of(&e);
                if config.expand_empty_elements {
                    let name = el.name.clone();
                    events.push(XmlEvent::Start(el));
                    events.push(XmlEvent::End(name));
                } else {
                    events.push(XmlEvent::Empty(el));
                }
            },
            RawEvent::End(name) => {
                events.push(XmlEvent::End(name));
            },
            RawEvent::Text(raw) => {
                events.push(XmlEvent::Text(raw));
            },
            RawEvent::GeneralRef(raw) => {
                events.push(XmlEvent::GeneralRef(raw));
            },
            RawEvent::Other => {
                events.push(XmlEvent::Other);
            },
        }
        proof {
            let t = events@.subrange(before.len() as int, events@.len() as int);
            assert(events@ =~= before + t);
            lemma_events_match_push(before, consumed, config.expand_empty_elements, t, rest[0]);
            consumed = consumed.push(rest[0]);
            if !is_final(rest[0]) {
                assert(total =~= consumed + reader_events(reader));
            }
            assert(t.len() > 0 && t.last() == events@.last());
        }
        if is_final_exec(&events) {
            proof {
                assert(consumed.len() == total.len()) by {
                    if consumed.len() < total.len() {
                        assert(!is_final(total[consumed.len() - 1]));
                    }
                }
                assert(consumed =~= total);
            }
            return events;
        }
    }
}

/// Whether the last event is `Eof`.
fn is_final_exec(events: &Vec<XmlEvent>) -> (r: bool)
    ensures
        r == (events@.len() > 0 && events@.last() is Eof),
{
    if events.len() == 0 {
        false
    } else {
        match &events[events.len() - 1] {
            XmlEvent::Eof => true,
            _ => false,
        }
    }
}

} // verus!
