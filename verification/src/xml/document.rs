//! Whole documents: finding the root element and decoding it.

use vstd::prelude::*;
use crate::error::XmlDeError;
use crate::text::str_eq;
use crate::xml::de::decode_struct;
use crate::xml::dynamic::{ValueModel, XmlValue};
use crate::xml::event::{event_views, EventKind, EventModel, XmlEvent};
use crate::xml::reader::{read_events, xml_events};
use crate::xml::schema::{NamedStruct, Schema, schema_wf, struct_wf, StructModel, TypeModel};

verus! {

/// Whether a character is white space in XML.
pub open spec fn is_space(c: char) -> bool {
    c == ' ' || c == '\t' || c == '\n' || c == '\r'
}

/// Whether a text holds white space only.
pub open spec fn is_blank(text: Seq<char>) -> bool {
    forall|i: int| 0 <= i < text.len() ==> is_space(#[trigger] text[i])
}

/// Whether a text holds white space only.
pub fn blank(text: &str) -> (b: bool)
    ensures
        b == is_blank(text@),
{
    for c in it: text.chars()
        invariant
            it.seq() == text@,
            forall|i: int| 0 <= i < it.index() ==> is_space(#[trigger] text@[i]),
    {
        assert(c == text@[it.index()]);
        if !(c == ' ' || c == '\t' || c == '\n' || c == '\r') {
            return false;
        }
    }
    true
}

/// The position of the root element: the first event from `p` on that is
/// no declaration, no comment and no white space. Anything else before the
/// root is a failure.
pub open spec fn find_root(events: Seq<EventModel>, p: int) -> Result<int, XmlDeError>
    decreases events.len() - p,
{
    if p < 0 || p >= events.len() {
        Err(XmlDeError::Eof)
    } else {
        match events[p].kind {
            EventKind::Decl | EventKind::Comment => find_root(events, p + 1),
            EventKind::Text => if is_blank(events[p].content) {
                find_root(events, p + 1)
            } else {
                Err(XmlDeError::UnsupportedEvent)
            },
            EventKind::Start | EventKind::Empty => Ok(p),
            EventKind::Eof => Err(XmlDeError::Eof),
            EventKind::Malformed => Err(XmlDeError::Malformed),
            _ => Err(XmlDeError::UnsupportedEvent),
        }
    }
}

/// Whether an element is the root that a struct names: the local names
/// agree, and so do the namespaces where the struct names one.
pub open spec fn is_root(s: StructModel, event: EventModel) -> bool {
    s.root == Some(event.local_name) && (s.ns is None || s.ns == event.namespace)
}

/// The value of a document whose root is the struct `s`.
pub open spec fn decode_document(types: Seq<TypeModel>, s: StructModel, events: Seq<EventModel>) -> Result<
    ValueModel,
    XmlDeError,
> {
    match find_root(events, 0) {
        Err(e) => Err(e),
        Ok(at) => if !is_root(s, events[at]) {
            Err(XmlDeError::InvalidTag)
        } else {
            match decode_struct(types, s, events, at) {
                Ok((value, _)) => Ok(value),
                Err(e) => Err(e),
            }
        },
    }
}

/// The position of the root element of a document.
pub fn root_position(events: &Vec<XmlEvent>) -> (at: Result<usize, XmlDeError>)
    ensures
        match find_root(event_views(events@), 0) {
            Ok(p) => at matches Ok(x) && x == p && p < events.len() && event_views(
                events@,
            )[p].opens(),
            Err(e) => at matches Err(x) && x == e,
        },
{
    let ghost evs = event_views(events@);
    let mut p: usize = 0;
    loop
        invariant
            p <= events.len(),
            evs == event_views(events@),
            find_root(evs, p as int) == find_root(evs, 0),
        decreases events.len() - p,
    {
        if p >= events.len() {
            return Err(XmlDeError::Eof);
        }
        let event = &events[p];
        assert(evs[p as int] == event@);
        match event.kind {
            EventKind::Decl | EventKind::Comment => {},
            EventKind::Text => {
                if !blank(event.content.as_str()) {
                    return Err(XmlDeError::UnsupportedEvent);
                }
            },
            EventKind::Start | EventKind::Empty => {
                return Ok(p);
            },
            EventKind::Eof => {
                return Err(XmlDeError::Eof);
            },
            EventKind::Malformed => {
                return Err(XmlDeError::Malformed);
            },
            _ => {
                return Err(XmlDeError::UnsupportedEvent);
            },
        }
        p = p + 1;
    }
}

impl NamedStruct {
    /// Whether an element is the root that this struct names.
    pub fn is_root(&self, event: &XmlEvent) -> (b: bool)
        ensures
            b == is_root(self@, event@),
    {
        let named = match &self.attrs.root {
            Some(root) => str_eq(root.as_str(), event.local_name.as_str()),
            None => false,
        };
        named && match &self.attrs.ns {
            None => true,
            Some(ns) => match &event.namespace {
                Some(bound) => str_eq(ns.as_str(), bound.as_str()),
                None => false,
            },
        }
    }

    /// Decodes the events of a document whose root is this struct.
    pub fn parse_events(&self, schema: &Schema, events: &Vec<XmlEvent>) -> (value: Result<
        XmlValue,
        XmlDeError,
    >)
        requires
            schema_wf(schema@),
            struct_wf(schema@, self@),
        ensures
            match decode_document(schema@, self@, event_views(events@)) {
                Ok(v) => value matches Ok(x) && x@ == v,
                Err(e) => value matches Err(x) && x == e,
            },
    {
        let at = match root_position(events) {
            Ok(at) => at,
            Err(e) => {
                return Err(e);
            },
        };
        assert(event_views(events@)[at as int] == events[at as int]@);
        if !self.is_root(&events[at]) {
            return Err(XmlDeError::InvalidTag);
        }
        match self.impl_de(schema, events, at) {
            Ok((value, _)) => Ok(value),
            Err(e) => Err(e),
        }
    }

    /// Decodes a document whose root is this struct.
    pub fn parse_str(&self, schema: &Schema, input: &str) -> (value: Result<XmlValue, XmlDeError>)
        requires
            schema_wf(schema@),
            struct_wf(schema@, self@),
        ensures
            match decode_document(schema@, self@, xml_events(input@)) {
                Ok(v) => value matches Ok(x) && x@ == v,
                Err(e) => value matches Err(x) && x == e,
            },
    {
        let events = read_events(input);
        self.parse_events(schema, &events)
    }
}

} // verus!
