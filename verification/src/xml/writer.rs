//! Writing events as markup with quick-xml.

use vstd::prelude::*;
use vstd::string::StringExecFns;
use crate::xml::event::{AttributeModel, event_views, EventKind, EventModel, XmlAttribute, XmlEvent};
use quick_xml::Writer;
use quick_xml::events::{BytesEnd, BytesStart, BytesText, Event};

verus! {

/// What a character is written as in text and in attribute values.
pub open spec fn escape_char(c: char) -> Seq<char> {
    if c == '<' {
        seq!['&', 'l', 't', ';']
    } else if c == '>' {
        seq!['&', 'g', 't', ';']
    } else if c == '&' {
        seq!['&', 'a', 'm', 'p', ';']
    } else if c == '\'' {
        seq!['&', 'a', 'p', 'o', 's', ';']
    } else if c == '"' {
        seq!['&', 'q', 'u', 'o', 't', ';']
    } else {
        seq![c]
    }
}

/// A text with its special characters escaped.
pub open spec fn escaped(text: Seq<char>) -> Seq<char>
    decreases text.len(),
{
    if text.len() == 0 {
        seq![]
    } else {
        escaped(text.drop_last()) + escape_char(text.last())
    }
}

/// The first `n` attributes as they stand in a tag: each after a space, its
/// value escaped and in double quotes.
pub open spec fn attributes_markup(attributes: Seq<AttributeModel>, n: nat) -> Seq<char>
    decreases n,
{
    if n == 0 {
        seq![]
    } else {
        attributes_markup(attributes, (n - 1) as nat) + seq![' '] + attributes[n - 1].key + seq![
            '=',
            '"',
        ] + escaped(attributes[n - 1].value) + seq!['"']
    }
}

/// A start tag.
pub open spec fn start_markup(name: Seq<char>, attributes: Seq<AttributeModel>) -> Seq<char> {
    seq!['<'] + name + attributes_markup(attributes, attributes.len()) + seq!['>']
}

/// An empty tag.
pub open spec fn empty_markup(name: Seq<char>, attributes: Seq<AttributeModel>) -> Seq<char> {
    seq!['<'] + name + attributes_markup(attributes, attributes.len()) + seq!['/', '>']
}

/// An end tag.
pub open spec fn end_markup(name: Seq<char>) -> Seq<char> {
    seq!['<', '/'] + name + seq!['>']
}

/// What one event is written as. Only tags and text are written.
pub open spec fn event_markup(event: EventModel) -> Seq<char> {
    match event.kind {
        EventKind::Start => start_markup(event.name, event.attributes),
        EventKind::Empty => empty_markup(event.name, event.attributes),
        EventKind::End => end_markup(event.name),
        EventKind::Text => escaped(event.content),
        _ => seq![],
    }
}

/// What the first `n` events are written as, one after the other.
pub open spec fn markup(events: Seq<EventModel>, n: nat) -> Seq<char>
    decreases n,
{
    if n == 0 {
        seq![]
    } else {
        markup(events, (n - 1) as nat) + event_markup(events[n - 1])
    }
}

/// `Writer::write_event` on `Event::Start` of `BytesStart::new` with
/// `with_attributes`: `<`, the name, the attributes with their values
/// escaped by `escape`, and `>`, with no indentation.
#[verifier::external_body]
fn write_start(name: &str, attributes: &Vec<XmlAttribute>) -> (written: String)
    ensures
        written@ == start_markup(name@, attributes@.map_values(|a: XmlAttribute| a@)),
{
    let pairs = attributes.iter().map(|a| (a.key.as_str(), a.value.as_str()));
    let mut writer = Writer::new(Vec::new());
    let _ = writer.write_event(Event::Start(BytesStart::new(name).with_attributes(pairs)));
    String::from_utf8_lossy(&writer.into_inner()).into_owned()
}

/// `Writer::write_event` on `Event::Empty`: as a start tag, closed by `/>`.
#[verifier::external_body]
fn write_empty(name: &str, attributes: &Vec<XmlAttribute>) -> (written: String)
    ensures
        written@ == empty_markup(name@, attributes@.map_values(|a: XmlAttribute| a@)),
{
    let pairs = attributes.iter().map(|a| (a.key.as_str(), a.value.as_str()));
    let mut writer = Writer::new(Vec::new());
    let _ = writer.write_event(Event::Empty(BytesStart::new(name).with_attributes(pairs)));
    String::from_utf8_lossy(&writer.into_inner()).into_owned()
}

/// `Writer::write_event` on `Event::End` of `BytesEnd::new`: `</`, the
/// name, and `>`.
#[verifier::external_body]
fn write_end(name: &str) -> (written: String)
    ensures
        written@ == end_markup(name@),
{
    let mut writer = Writer::new(Vec::new());
    let _ = writer.write_event(Event::End(BytesEnd::new(name)));
    String::from_utf8_lossy(&writer.into_inner()).into_owned()
}

/// `Writer::write_event` on `Event::Text` of `BytesText::new`: the text
/// escaped by `escape`.
#[verifier::external_body]
fn write_text(text: &str) -> (written: String)
    ensures
        written@ == escaped(text@),
{
    let mut writer = Writer::new(Vec::new());
    let _ = writer.write_event(Event::Text(BytesText::new(text)));
    String::from_utf8_lossy(&writer.into_inner()).into_owned()
}

/// Writes events as markup, one after the other, without indentation.
pub fn write_events(events: &Vec<XmlEvent>) -> (written: String)
    ensures
        written@ == markup(event_views(events@), events.len() as nat),
{
    let mut out = String::new();
    let mut i: usize = 0;
    while i < events.len()
        invariant
            i <= events.len(),
            out@ == markup(event_views(events@), i as nat),
        decreases events.len() - i,
    {
        let event = &events[i];
        assert(event_views(events@)[i as int] == event@);
        match event.kind {
            EventKind::Start => {
                let piece = write_start(event.name.as_str(), &event.attributes);
                out.append(piece.as_str());
            },
            EventKind::Empty => {
                let piece = write_empty(event.name.as_str(), &event.attributes);
                out.append(piece.as_str());
            },
            EventKind::End => {
                let piece = write_end(event.name.as_str());
                out.append(piece.as_str());
            },
            EventKind::Text => {
                let piece = write_text(event.content.as_str());
                out.append(piece.as_str());
            },
            _ => {
                assert(out@ + Seq::<char>::empty() =~= out@);
            },
        }
        i = i + 1;
    }
    out
}

} // verus!
