//! XML events as plain values.

use vstd::prelude::*;

verus! {

/// The lexical class of an event.
#[derive(Clone, Copy, Debug, PartialEq, Eq, Structural)]
pub enum EventKind {
    Start,
    End,
    Empty,
    Text,
    CData,
    Comment,
    Decl,
    PI,
    DocType,
    Eof,
    /// The place where the input stops being well formed.
    Malformed,
}

/// One attribute of a start tag, with its value unescaped.
#[derive(Debug)]
pub struct XmlAttribute {
    pub key: String,
    pub value: String,
}

pub struct AttributeModel {
    pub key: Seq<char>,
    pub value: Seq<char>,
}

impl View for XmlAttribute {
    type V = AttributeModel;

    open spec fn view(&self) -> AttributeModel {
        AttributeModel { key: self.key@, value: self.value@ }
    }
}

/// One event of a document.
#[derive(Debug)]
pub struct XmlEvent {
    pub kind: EventKind,
    /// The qualified name of a start, empty or end tag; empty otherwise.
    pub name: String,
    /// The name without its prefix.
    pub local_name: String,
    /// The namespace that the name is bound to, if any.
    pub namespace: Option<String>,
    /// The attributes of a start or empty tag.
    pub attributes: Vec<XmlAttribute>,
    /// The unescaped characters of a text event; empty otherwise.
    pub content: String,
}

pub struct EventModel {
    pub kind: EventKind,
    pub name: Seq<char>,
    pub local_name: Seq<char>,
    pub namespace: Option<Seq<char>>,
    pub attributes: Seq<AttributeModel>,
    pub content: Seq<char>,
}

impl View for XmlEvent {
    type V = EventModel;

    open spec fn view(&self) -> EventModel {
        EventModel {
            kind: self.kind,
            name: self.name@,
            local_name: self.local_name@,
            namespace: match self.namespace {
                Some(n) => Some(n@),
                None => None,
            },
            attributes: self.attributes@.map_values(|a: XmlAttribute| a@),
            content: self.content@,
        }
    }
}

/// The views of a list of events.
pub open spec fn event_views(events: Seq<XmlEvent>) -> Seq<EventModel> {
    events.map_values(|e: XmlEvent| e@)
}

impl EventModel {
    /// An event that holds nothing but its kind.
    pub open spec fn bare(kind: EventKind) -> EventModel {
        EventModel {
            kind,
            name: seq![],
            local_name: seq![],
            namespace: None,
            attributes: seq![],
            content: seq![],
        }
    }

    /// A text event.
    pub open spec fn text(content: Seq<char>) -> EventModel {
        EventModel { content, ..EventModel::bare(EventKind::Text) }
    }

    /// The end tag of an element.
    pub open spec fn end(name: Seq<char>, local_name: Seq<char>, namespace: Option<Seq<char>>) -> EventModel {
        EventModel { name, local_name, namespace, ..EventModel::bare(EventKind::End) }
    }

    /// Whether the event opens an element, with or without content.
    pub open spec fn opens(self) -> bool {
        self.kind == EventKind::Start || self.kind == EventKind::Empty
    }
}

impl XmlEvent {
    /// An event that holds nothing but its kind.
    pub fn bare(kind: EventKind) -> (event: XmlEvent)
        ensures
            event@ == EventModel::bare(kind),
    {
        let event = XmlEvent {
            kind,
            name: String::new(),
            local_name: String::new(),
            namespace: None,
            attributes: Vec::new(),
            content: String::new(),
        };
        assert(event@.attributes =~= seq![]);
        event
    }

    /// A text event.
    pub fn text(content: String) -> (event: XmlEvent)
        ensures
            event@ == EventModel::text(content@),
    {
        let mut event = XmlEvent::bare(EventKind::Text);
        event.content = content;
        event
    }

    /// The end tag of an element.
    pub fn end(name: String, local_name: String, namespace: Option<String>) -> (event: XmlEvent)
        ensures
            event@ == EventModel::end(
                name@,
                local_name@,
                match namespace {
                    Some(n) => Some(n@),
                    None => None,
                },
            ),
    {
        let mut event = XmlEvent::bare(EventKind::End);
        event.name = name;
        event.local_name = local_name;
        event.namespace = namespace;
        event
    }
}

} // verus!
