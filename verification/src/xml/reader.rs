//! Reading the events of a document with quick-xml.
//!
//! The reader and its events are quick-xml's own values. What they hold is
//! not proved here: it is named, and the functions below are proved to
//! hand on exactly what the names stand for.

use vstd::prelude::*;
use crate::xml::event::{AttributeModel, event_views, EventKind, EventModel, XmlAttribute, XmlEvent};
use quick_xml::NsReader;
use quick_xml::events::Event;
use quick_xml::name::ResolveResult;

verus! {

/// `quick_xml::NsReader`: a reader that resolves namespaces. Nothing is
/// known of what is inside it.
#[verifier::external_type_specification]
#[verifier::external_body]
#[verifier::reject_recursive_types(R)]
pub struct ExNsReader<R>(NsReader<R>);

/// `quick_xml::events::Event`: one event as the reader yields it. Nothing is
/// known of what is inside it.
#[verifier::external_type_specification]
#[verifier::external_body]
pub struct ExEvent<'a>(Event<'a>);

/// The events of a document, as `next_event` yields them one by one, up to
/// and including the first `Eof` or `Malformed`.
pub uninterp spec fn xml_events(input: Seq<char>) -> Seq<EventModel>;

/// The events that a reader has yet to yield, up to and including the first
/// `Eof` or `Malformed`.
pub uninterp spec fn pending(reader: NsReader<&[u8]>) -> Seq<EventModel>;

/// The variant of a quick-xml event.
pub uninterp spec fn raw_kind(event: Event) -> EventKind;

/// The qualified and the local name of a start, empty or end tag; two
/// empty names for any other event.
pub uninterp spec fn raw_names(event: Event) -> (Seq<char>, Seq<char>);

/// The attributes of a start or empty tag with their values unescaped,
/// `None` where quick-xml cannot read them; no attributes for any other
/// event.
pub uninterp spec fn raw_attributes(event: Event) -> Option<Seq<AttributeModel>>;

/// The unescaped content of a text event, `None` where quick-xml cannot
/// unescape it; `None` for any other event.
pub uninterp spec fn raw_text(event: Event) -> Option<Seq<char>>;

/// Whether no event follows one of this kind.
pub open spec fn is_last(kind: EventKind) -> bool {
    kind == EventKind::Eof || kind == EventKind::Malformed
}

/// The event made of what quick-xml yields for it. Attributes or text that
/// cannot be read make the event `Malformed`.
pub open spec fn assemble(
    namespace: Option<Seq<char>>,
    kind: EventKind,
    names: (Seq<char>, Seq<char>),
    attributes: Option<Seq<AttributeModel>>,
    text: Option<Seq<char>>,
) -> EventModel {
    match kind {
        EventKind::Start | EventKind::Empty => match attributes {
            Some(a) => EventModel {
                kind,
                name: names.0,
                local_name: names.1,
                namespace,
                attributes: a,
                content: seq![],
            },
            None => EventModel::bare(EventKind::Malformed),
        },
        EventKind::End => EventModel::end(names.0, names.1, namespace),
        EventKind::Text => match text {
            Some(t) => EventModel::text(t),
            None => EventModel::bare(EventKind::Malformed),
        },
        other => EventModel::bare(other),
    }
}

/// The event that stands for what a read of quick-xml returned.
pub open spec fn read_model(read: Result<(Option<String>, Event), ()>) -> EventModel {
    match read {
        Ok((namespace, event)) => assemble(
            match namespace {
                Some(n) => Some(n@),
                None => None,
            },
            raw_kind(event),
            raw_names(event),
            raw_attributes(event),
            raw_text(event),
        ),
        Err(_) => EventModel::bare(EventKind::Malformed),
    }
}

/// `NsReader::from_str`: a reader at the start of a document, with
/// quick-xml's default configuration. Its pending events are, by the meaning
/// of the two names, the events of the document.
#[verifier::external_body]
fn new_reader<'a>(input: &'a str) -> (reader: NsReader<&'a [u8]>)
    ensures
        pending(reader) == xml_events(input@),
{
    NsReader::from_str(input)
}

/// `NsReader::read_resolved_event`: the next event with the namespace that
/// its name is bound to, or `Err` where the input is not well formed. The
/// contract says what the name `pending` means: there is always a next
/// event, it is what this read returned, and unless it is the last one the
/// reader afterwards has the rest to yield.
#[verifier::external_body]
fn read_event<'a>(reader: &mut NsReader<&'a [u8]>) -> (read: Result<
    (Option<String>, Event<'a>),
    (),
>)
    ensures
        pending(*old(reader)).len() > 0,
        pending(*old(reader))[0] == read_model(read),
        is_last(read_model(read).kind) ==> pending(*old(reader)).len() == 1,
        !is_last(read_model(read).kind) ==> pending(*final(reader)) == pending(*old(reader)).skip(1),
{
    let (resolved, event) = reader.read_resolved_event().map_err(|_| ())?;
    let namespace = match resolved {
        ResolveResult::Bound(ns) => Some(String::from_utf8_lossy(ns.as_ref()).into_owned()),
        _ => None,
    };
    Ok((namespace, event))
}

/// Tells the variants of `quick_xml::events::Event` apart. None of them is
/// `Malformed`.
#[verifier::external_body]
fn event_kind(event: &Event) -> (kind: EventKind)
    ensures
        kind == raw_kind(*event),
        kind != EventKind::Malformed,
{
    match event {
        Event::Start(_) => EventKind::Start,
        Event::End(_) => EventKind::End,
        Event::Empty(_) => EventKind::Empty,
        Event::Text(_) => EventKind::Text,
        Event::CData(_) => EventKind::CData,
        Event::Comment(_) => EventKind::Comment,
        Event::Decl(_) => EventKind::Decl,
        Event::PI(_) => EventKind::PI,
        Event::DocType(_) => EventKind::DocType,
        Event::Eof => EventKind::Eof,
    }
}

/// `BytesStart::name` and `local_name`, `BytesEnd::name` and `local_name`:
/// the qualified name of a tag and the part of it after the first colon,
/// both read as UTF-8.
#[verifier::external_body]
fn event_names(event: &Event) -> (names: (String, String))
    ensures
        (names.0@, names.1@) == raw_names(*event),
{
    let (name, local) = match event {
        Event::Start(e) | Event::Empty(e) => (e.name(), e.local_name()),
        Event::End(e) => (e.name(), e.local_name()),
        _ => return (String::new(), String::new()),
    };
    (
        String::from_utf8_lossy(name.as_ref()).into_owned(),
        String::from_utf8_lossy(local.as_ref()).into_owned(),
    )
}

/// `BytesStart::attributes` with `Attribute::unescape_value`: the
/// attributes of a tag in document order, each with its key and its
/// unescaped value; `None` where one of them cannot be read.
#[verifier::external_body]
fn event_attributes(event: &Event) -> (attributes: Option<Vec<XmlAttribute>>)
    ensures
        match raw_attributes(*event) {
            Some(list) => attributes matches Some(a) && a@.map_values(|x: XmlAttribute| x@) == list,
            None => attributes is None,
        },
{
    let e = match event {
        Event::Start(e) | Event::Empty(e) => e,
        _ => return Some(Vec::new()),
    };
    e.attributes().map(|a| {
        let a = a.ok()?;
        let key = String::from_utf8_lossy(a.key.as_ref()).into_owned();
        Some(XmlAttribute { key, value: a.unescape_value().ok()?.into_owned() })
    }).collect()
}

/// `BytesText::unescape`: the characters of a text event with its entities
/// resolved; `None` where they cannot be.
#[verifier::external_body]
fn event_text(event: &Event) -> (text: Option<String>)
    ensures
        match raw_text(*event) {
            Some(t) => text matches Some(x) && x@ == t,
            None => text is None,
        },
{
    match event {
        Event::Text(e) => e.unescape().ok().map(|t| t.into_owned()),
        _ => None,
    }
}

/// The next event of a reader.
fn next_event<'a>(reader: &mut NsReader<&'a [u8]>) -> (event: XmlEvent)
    ensures
        pending(*old(reader)).len() > 0,
        event@ == pending(*old(reader))[0],
        is_last(event@.kind) ==> pending(*old(reader)).len() == 1,
        !is_last(event@.kind) ==> pending(*final(reader)) == pending(*old(reader)).skip(1),
{
    let read = read_event(reader);
    let (namespace, raw) = match read {
        Ok(pair) => pair,
        Err(_) => {
            return XmlEvent::bare(EventKind::Malformed);
        },
    };
    let kind = event_kind(&raw);
    match kind {
        EventKind::Start | EventKind::Empty => {
            let (name, local_name) = event_names(&raw);
            match event_attributes(&raw) {
                Some(attributes) => XmlEvent {
                    kind,
                    name,
                    local_name,
                    namespace,
                    attributes,
                    content: String::new(),
                },
                None => XmlEvent::bare(EventKind::Malformed),
            }
        },
        EventKind::End => {
            let (name, local_name) = event_names(&raw);
            XmlEvent::end(name, local_name, namespace)
        },
        EventKind::Text => match event_text(&raw) {
            Some(text) => XmlEvent::text(text),
            None => XmlEvent::bare(EventKind::Malformed),
        },
        other => XmlEvent::bare(other),
    }
}

/// Reads a document into its events. The list ends with the first `Eof` or
/// `Malformed` event.
pub fn read_events(input: &str) -> (events: Vec<XmlEvent>)
    ensures
        event_views(events@) == xml_events(input@),
{
    let mut reader = new_reader(input);
    let mut events: Vec<XmlEvent> = Vec::new();
    assert(event_views(events@) + pending(reader) =~= xml_events(input@));
    loop
        invariant
            event_views(events@) + pending(reader) == xml_events(input@),
        decreases pending(reader).len(),
    {
        let ghost before = event_views(events@);
        let ghost rest = pending(reader);
        let event = next_event(&mut reader);
        let last = match event.kind {
            EventKind::Eof | EventKind::Malformed => true,
            _ => false,
        };
        events.push(event);
        assert(event_views(events@) =~= before.push(rest[0]));
        if last {
            assert(event_views(events@) =~= before + rest);
            return events;
        }
        assert(event_views(events@) + pending(reader) =~= before + rest);
    }
}

} // verus!
