use rustical::xml::event::{EventKind, XmlAttribute, XmlEvent};
use rustical::xml::reader::read_events;
use rustical::xml::writer::write_events;

fn kinds(events: &[XmlEvent]) -> Vec<EventKind> {
    events.iter().map(|e| e.kind).collect()
}

#[test]
fn events_come_in_document_order_and_end_with_eof() {
    let events = read_events("<a><b>t</b><c/></a>");
    assert_eq!(
        kinds(&events),
        vec![
            EventKind::Start,
            EventKind::Start,
            EventKind::Text,
            EventKind::End,
            EventKind::Empty,
            EventKind::End,
            EventKind::Eof
        ]
    );
    assert_eq!(events[0].name, "a");
    assert_eq!(events[1].name, "b");
    assert_eq!(events[2].content, "t");
    assert_eq!(events[3].name, "b");
    assert_eq!(events[4].name, "c");
    assert_eq!(events[5].name, "a");
}

#[test]
fn empty_input_is_one_eof() {
    let events = read_events("");
    assert_eq!(kinds(&events), vec![EventKind::Eof]);
}

#[test]
fn names_are_resolved_to_their_namespaces() {
    let events = read_events(
        "<D:a xmlns:D=\"DAV:\" xmlns=\"urn:default\"><b/><D:c/><x:d/></D:a>",
    );
    assert_eq!(events[0].name, "D:a");
    assert_eq!(events[0].local_name, "a");
    assert_eq!(events[0].namespace.as_deref(), Some("DAV:"));
    assert_eq!(events[1].local_name, "b");
    assert_eq!(events[1].namespace.as_deref(), Some("urn:default"));
    assert_eq!(events[2].local_name, "c");
    assert_eq!(events[2].namespace.as_deref(), Some("DAV:"));
    // An unknown prefix is bound to nothing.
    assert_eq!(events[3].local_name, "d");
    assert_eq!(events[3].namespace, None);
    // The end tag is resolved like the start tag.
    assert_eq!(events[4].kind, EventKind::End);
    assert_eq!(events[4].namespace.as_deref(), Some("DAV:"));
}

#[test]
fn an_element_without_namespace_has_none() {
    let events = read_events("<a/>");
    assert_eq!(events[0].namespace, None);
    assert_eq!(events[0].local_name, "a");
}

#[test]
fn text_and_attribute_values_are_unescaped() {
    let events = read_events("<a k=\"x &amp; y\" l='&lt;'>1 &lt; 2 &#65;</a>");
    assert_eq!(events[0].attributes.len(), 2);
    assert_eq!(events[0].attributes[0].key, "k");
    assert_eq!(events[0].attributes[0].value, "x & y");
    assert_eq!(events[0].attributes[1].key, "l");
    assert_eq!(events[0].attributes[1].value, "<");
    assert_eq!(events[1].kind, EventKind::Text);
    assert_eq!(events[1].content, "1 < 2 A");
}

#[test]
fn the_other_kinds_of_events_are_told_apart() {
    let events = read_events(
        "<?xml version=\"1.0\"?><!DOCTYPE a><!-- c --><a><![CDATA[x]]><?pi y?></a>",
    );
    assert_eq!(
        kinds(&events),
        vec![
            EventKind::Decl,
            EventKind::DocType,
            EventKind::Comment,
            EventKind::Start,
            EventKind::CData,
            EventKind::PI,
            EventKind::End,
            EventKind::Eof
        ]
    );
}

#[test]
fn reading_stops_where_the_input_is_not_well_formed() {
    let events = read_events("<a><b></a>");
    assert_eq!(events.last().unwrap().kind, EventKind::Malformed);
    assert_eq!(kinds(&events), vec![EventKind::Start, EventKind::Start, EventKind::Malformed]);
    let events = read_events("<a>&nosuch;</a>");
    assert_eq!(kinds(&events), vec![EventKind::Start, EventKind::Malformed]);
    let events = read_events("<a k=v/>");
    assert_eq!(kinds(&events), vec![EventKind::Malformed]);
}

fn attribute(key: &str, value: &str) -> XmlAttribute {
    XmlAttribute { key: key.to_owned(), value: value.to_owned() }
}

fn open(kind: EventKind, name: &str, attributes: Vec<XmlAttribute>) -> XmlEvent {
    XmlEvent {
        kind,
        name: name.to_owned(),
        local_name: name.to_owned(),
        namespace: None,
        attributes,
        content: String::new(),
    }
}

#[test]
fn events_are_written_as_markup() {
    let events = vec![
        open(EventKind::Start, "a", vec![attribute("k", "v"), attribute("l", "w")]),
        open(EventKind::Empty, "C:b", vec![]),
        XmlEvent::text("t".to_owned()),
        XmlEvent::end("a".to_owned(), "a".to_owned(), None),
    ];
    assert_eq!(write_events(&events), "<a k=\"v\" l=\"w\"><C:b/>t</a>");
}

#[test]
fn special_characters_are_escaped_when_written() {
    let events = vec![
        open(EventKind::Empty, "a", vec![attribute("k", "<>&'\"")]),
        XmlEvent::text("<>&'\" plain".to_owned()),
    ];
    assert_eq!(
        write_events(&events),
        "<a k=\"&lt;&gt;&amp;&apos;&quot;\"/>&lt;&gt;&amp;&apos;&quot; plain"
    );
}

#[test]
fn events_that_are_neither_tags_nor_text_are_not_written() {
    let events = vec![XmlEvent::bare(EventKind::Comment), XmlEvent::bare(EventKind::Eof)];
    assert_eq!(write_events(&events), "");
    assert_eq!(write_events(&Vec::new()), "");
}

#[test]
fn written_events_are_read_back() {
    let events = vec![
        open(EventKind::Start, "a", vec![attribute("k", "x & <y>")]),
        XmlEvent::text("1 < 2 & \"3\"".to_owned()),
        open(EventKind::Empty, "b", vec![]),
        XmlEvent::end("a".to_owned(), "a".to_owned(), None),
    ];
    let read = read_events(&write_events(&events));
    assert_eq!(read.len(), 5);
    assert_eq!(read[0].kind, EventKind::Start);
    assert_eq!(read[0].attributes[0].value, "x & <y>");
    assert_eq!(read[1].content, "1 < 2 & \"3\"");
    assert_eq!(read[2].kind, EventKind::Empty);
    assert_eq!(read[2].name, "b");
    assert_eq!(read[3].kind, EventKind::End);
    assert_eq!(read[4].kind, EventKind::Eof);
}
