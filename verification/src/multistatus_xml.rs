//! The multistatus response as XML.

use vstd::prelude::*;
use vstd::string::StringExecFns;
use crate::multistatus::{MultistatusElement, PropstatWrapper, ResponseElement, TagList};
use crate::xml::event::{AttributeModel, event_views, EventModel, XmlAttribute, XmlEvent};
use crate::xml::integer::{decimal, format_integer};
use crate::xml::schema::Schema;
use crate::xml::se::{element, encode, encoded_as, make_element, Tag, TagModel, XmlSeError};
use crate::xml::typed::XmlType;
use crate::xml::writer::{markup, write_events};

verus! {

/// The tag of an element of WebDAV, written without a prefix.
pub open spec fn dav_tag(name: Seq<char>) -> TagModel {
    TagModel { name, local_name: name, namespace: Some("DAV:"@) }
}

/// The tag of an element that is written by its bare name.
pub open spec fn bare_tag(name: Seq<char>) -> TagModel {
    TagModel { name, local_name: name, namespace: None }
}

/// The status line of a status code.
pub open spec fn status_line(status: u16) -> Seq<char> {
    if status == 200 {
        "HTTP/1.1 200 OK"@
    } else if status == 404 {
        "HTTP/1.1 404 Not Found"@
    } else if status == 409 {
        "HTTP/1.1 409 Conflict"@
    } else {
        "HTTP/1.1 "@ + decimal(status as int)
    }
}

/// An element that holds a text and nothing else.
pub open spec fn text_element(tag: TagModel, text: Seq<char>) -> Seq<EventModel> {
    element(
        tag,
        seq![],
        if text.len() == 0 {
            seq![]
        } else {
            seq![EventModel::text(text)]
        },
    )
}

/// The first `n` bare names, each as an element without content.
pub open spec fn names_events(names: Seq<Seq<char>>, n: nat) -> Seq<EventModel>
    decreases n,
{
    if n == 0 {
        seq![]
    } else {
        names_events(names, (n - 1) as nat) + element(bare_tag(names[n - 1]), seq![], seq![])
    }
}

/// The first `n` values, each as its element. A value without an XML form
/// is left out; one that does not fit its own table of types makes the
/// whole fail.
pub open spec fn values_events<T: XmlType>(values: Seq<T::V>, n: nat) -> Option<Seq<EventModel>>
    decreases n,
{
    if n == 0 {
        Some(seq![])
    } else {
        match values_events::<T>(values, (n - 1) as nat) {
            None => None,
            Some(before) => match T::spec_to_value(values[n - 1]) {
                None => Some(before),
                Some(value) => match encode(T::spec_types(), 0, value, None) {
                    Some(events) => Some(before + events),
                    None => None,
                },
            },
        }
    }
}

/// What stands in the `<prop>` of a group.
pub open spec fn group_events<T: XmlType>(group: PropstatWrapper<T>) -> Option<Seq<EventModel>> {
    match group {
        PropstatWrapper::Normal(el) => values_events::<T>(
            el.prop@.map_values(|t: T| t@),
            el.prop.len() as nat,
        ),
        PropstatWrapper::TagList(el) => Some(names_events(el.prop@, el.prop@.len())),
    }
}

/// The status of a group.
pub open spec fn group_status<T>(group: PropstatWrapper<T>) -> u16 {
    match group {
        PropstatWrapper::Normal(el) => el.status,
        PropstatWrapper::TagList(el) => el.status,
    }
}

/// `<propstat>`: the properties, then their status.
pub open spec fn propstat_of(props: Seq<EventModel>, status: u16) -> Seq<EventModel> {
    element(
        dav_tag("propstat"@),
        seq![],
        element(dav_tag("prop"@), seq![], props) + text_element(
            dav_tag("status"@),
            status_line(status),
        ),
    )
}

/// The events of a group.
pub open spec fn propstat_events<T: XmlType>(group: PropstatWrapper<T>) -> Option<Seq<EventModel>> {
    match group_events(group) {
        Some(props) => Some(propstat_of(props, group_status(group))),
        None => None,
    }
}

/// The first `n` groups of an entry, one after the other.
pub open spec fn propstats_events<T: XmlType>(groups: Seq<PropstatWrapper<T>>, n: nat) -> Option<
    Seq<EventModel>,
>
    decreases n,
{
    if n == 0 {
        Some(seq![])
    } else {
        match (propstats_events(groups, (n - 1) as nat), propstat_events(groups[n - 1])) {
            (Some(before), Some(events)) => Some(before + events),
            _ => None,
        }
    }
}

/// The status of an entry that has one of its own.
pub open spec fn own_status_events(status: Option<u16>) -> Seq<EventModel> {
    match status {
        Some(code) => text_element(dav_tag("status"@), status_line(code)),
        None => seq![],
    }
}

/// `<response>`: the address of the resource, the entry's own status if it
/// has one, and its groups.
pub open spec fn response_of(href: Seq<char>, status: Option<u16>, groups: Seq<EventModel>) -> Seq<
    EventModel,
> {
    element(
        dav_tag("response"@),
        seq![],
        text_element(dav_tag("href"@), href) + own_status_events(status) + groups,
    )
}

/// The events of an entry.
pub open spec fn response_events<T: XmlType>(response: ResponseElement<T>) -> Option<
    Seq<EventModel>,
> {
    match propstats_events(response.propstat@, response.propstat.len() as nat) {
        Some(groups) => Some(response_of(response.href@, response.status, groups)),
        None => None,
    }
}

/// The first `n` entries, one after the other.
pub open spec fn responses_events<T: XmlType>(responses: Seq<ResponseElement<T>>, n: nat) -> Option<
    Seq<EventModel>,
>
    decreases n,
{
    if n == 0 {
        Some(seq![])
    } else {
        match (responses_events(responses, (n - 1) as nat), response_events(responses[n - 1])) {
            (Some(before), Some(events)) => Some(before + events),
            _ => None,
        }
    }
}

/// The namespaces that a multistatus declares: WebDAV without a prefix,
/// CalDAV as `C`, and the calendar extensions of Apple as `IC`.
pub open spec fn namespace_attributes() -> Seq<AttributeModel> {
    seq![
        AttributeModel { key: "xmlns"@, value: "DAV:"@ },
        AttributeModel { key: "xmlns:C"@, value: "urn:ietf:params:xml:ns:caldav"@ },
        AttributeModel { key: "xmlns:IC"@, value: "http://apple.com/ns/ical/"@ },
    ]
}

/// `<multistatus>` around entries.
pub open spec fn multistatus_of(entries: Seq<EventModel>) -> Seq<EventModel> {
    element(dav_tag("multistatus"@), namespace_attributes(), entries)
}

/// The events of a response: the entries of the resource, then those of
/// its members.
pub open spec fn multistatus_events<T1: XmlType, T2: XmlType>(
    multistatus: MultistatusElement<T1, T2>,
) -> Option<Seq<EventModel>> {
    match (
        responses_events(multistatus.responses@, multistatus.responses.len() as nat),
        responses_events(multistatus.member_responses@, multistatus.member_responses.len() as nat),
    ) {
        (Some(own), Some(members)) => Some(multistatus_of(own + members)),
        _ => None,
    }
}

/// The text of a multistatus around entries.
pub open spec fn multistatus_text(entries: Seq<EventModel>) -> Seq<char> {
    markup(multistatus_of(entries), multistatus_of(entries).len())
}

fn make_dav_tag(name: &str) -> (tag: Tag)
    ensures
        tag@ == dav_tag(name@),
{
    Tag { name: name.to_owned(), local_name: name.to_owned(), namespace: Some("DAV:".to_owned()) }
}

fn no_attributes() -> (attributes: Vec<XmlAttribute>)
    ensures
        attributes@.map_values(|a: XmlAttribute| a@) == Seq::<AttributeModel>::empty(),
{
    let attributes: Vec<XmlAttribute> = Vec::new();
    assert(attributes@.map_values(|a: XmlAttribute| a@) =~= seq![]);
    attributes
}

/// The status line of a status code.
pub fn status_text(status: u16) -> (line: String)
    ensures
        line@ == status_line(status),
{
    if status == 200 {
        "HTTP/1.1 200 OK".to_owned()
    } else if status == 404 {
        "HTTP/1.1 404 Not Found".to_owned()
    } else if status == 409 {
        "HTTP/1.1 409 Conflict".to_owned()
    } else {
        let mut line = "HTTP/1.1 ".to_owned();
        let code = format_integer(status as i128);
        line.append(code.as_str());
        line
    }
}

fn make_text_element(name: &str, text: String) -> (events: Vec<XmlEvent>)
    ensures
        event_views(events@) == text_element(dav_tag(name@), text@),
{
    let mut body: Vec<XmlEvent> = Vec::new();
    if text.as_str().unicode_len() > 0 {
        body.push(XmlEvent::text(text));
        assert(event_views(body@) =~= seq![EventModel::text(text@)]);
    } else {
        assert(event_views(body@) =~= seq![]);
    }
    make_element(&make_dav_tag(name), no_attributes(), body)
}

fn append_events(out: &mut Vec<XmlEvent>, events: Vec<XmlEvent>)
    ensures
        event_views(final(out)@) == event_views(old(out)@) + event_views(events@),
{
    let mut events = events;
    let ghost added = event_views(events@);
    out.append(&mut events);
    assert(event_views(out@) =~= event_views(old(out)@) + added);
}

fn make_names(names: &TagList) -> (events: Vec<XmlEvent>)
    ensures
        event_views(events@) == names_events(names@, names@.len()),
{
    let mut events: Vec<XmlEvent> = Vec::new();
    let mut i: usize = 0;
    assert(event_views(events@) =~= seq![]);
    while i < names.0.len()
        invariant
            i <= names.0.len(),
            names@.len() == names.0.len(),
            event_views(events@) == names_events(names@, i as nat),
        decreases names.0.len() - i,
    {
        let name = &names.0[i];
        assert(names@[i as int] == name@);
        let tag = Tag { name: name.clone(), local_name: name.clone(), namespace: None };
        let body: Vec<XmlEvent> = Vec::new();
        assert(event_views(body@) =~= seq![]);
        append_events(&mut events, make_element(&tag, no_attributes(), body));
        i = i + 1;
    }
    events
}

fn make_values<T: XmlType>(values: &Vec<T>) -> (events: Result<Vec<XmlEvent>, XmlSeError>)
    ensures
        encoded_as(
            events,
            values_events::<T>(values@.map_values(|t: T| t@), values.len() as nat),
        ),
{
    let ghost models = values@.map_values(|t: T| t@);
    let schema = Schema { types: T::types() };
    let mut events: Vec<XmlEvent> = Vec::new();
    let mut i: usize = 0;
    assert(event_views(events@) =~= seq![]);
    while i < values.len()
        invariant
            i <= values.len(),
            models == values@.map_values(|t: T| t@),
            schema@ == T::spec_types(),
            values_events::<T>(models, i as nat) == Some(event_views(events@)),
        decreases values.len() - i,
    {
        assert(models[i as int] == values[i as int]@);
        match values[i].to_value() {
            None => {},
            Some(value) => match schema.encode(0, &value, None) {
                Ok(encoded) => {
                    append_events(&mut events, encoded);
                },
                Err(e) => {
                    proof {
                        lemma_values_failure_stays::<T>(models, (i + 1) as nat, models.len());
                    }
                    return Err(e);
                },
            },
        }
        i = i + 1;
    }
    Ok(events)
}

/// Once a value has failed, the list has failed.
proof fn lemma_values_failure_stays<T: XmlType>(values: Seq<T::V>, n: nat, m: nat)
    requires
        n <= m,
        values_events::<T>(values, n) is None,
    ensures
        values_events::<T>(values, m) is None,
    decreases m,
{
    if n < m {
        lemma_values_failure_stays::<T>(values, n, (m - 1) as nat);
    }
}

proof fn lemma_propstats_failure_stays<T: XmlType>(groups: Seq<PropstatWrapper<T>>, n: nat, m: nat)
    requires
        n <= m,
        propstats_events(groups, n) is None,
    ensures
        propstats_events(groups, m) is None,
    decreases m,
{
    if n < m {
        lemma_propstats_failure_stays(groups, n, (m - 1) as nat);
    }
}

proof fn lemma_responses_failure_stays<T: XmlType>(
    responses: Seq<ResponseElement<T>>,
    n: nat,
    m: nat,
)
    requires
        n <= m,
        responses_events(responses, n) is None,
    ensures
        responses_events(responses, m) is None,
    decreases m,
{
    if n < m {
        lemma_responses_failure_stays(responses, n, (m - 1) as nat);
    }
}

impl<T: XmlType> PropstatWrapper<T> {
    /// The events of the group.
    pub fn to_events(&self) -> (events: Result<Vec<XmlEvent>, XmlSeError>)
        ensures
            encoded_as(events, propstat_events(*self)),
    {
        let (props, status) = match self {
            PropstatWrapper::Normal(el) => (
                match make_values(&el.prop) {
                    Ok(props) => props,
                    Err(e) => {
                        return Err(e);
                    },
                },
                el.status,
            ),
            PropstatWrapper::TagList(el) => (make_names(&el.prop), el.status),
        };
        let mut body = make_element(&make_dav_tag("prop"), no_attributes(), props);
        append_events(&mut body, make_text_element("status", status_text(status)));
        Ok(make_element(&make_dav_tag("propstat"), no_attributes(), body))
    }
}

impl<T: XmlType> ResponseElement<T> {
    /// The events of the entry.
    pub fn to_events(&self) -> (events: Result<Vec<XmlEvent>, XmlSeError>)
        ensures
            encoded_as(events, response_events(*self)),
    {
        let mut body = make_text_element("href", self.href.clone());
        match self.status {
            Some(code) => {
                append_events(&mut body, make_text_element("status", status_text(code)));
            },
            None => {
                assert(event_views(body@) + Seq::<EventModel>::empty() =~= event_views(body@));
            },
        }
        let ghost head = event_views(body@);
        let mut groups: Vec<XmlEvent> = Vec::new();
        let mut i: usize = 0;
        assert(event_views(groups@) =~= seq![]);
        while i < self.propstat.len()
            invariant
                i <= self.propstat.len(),
                propstats_events(self.propstat@, i as nat) == Some(event_views(groups@)),
            decreases self.propstat.len() - i,
        {
            match self.propstat[i].to_events() {
                Ok(events) => {
                    append_events(&mut groups, events);
                },
                Err(e) => {
                    proof {
                        lemma_propstats_failure_stays(
                            self.propstat@,
                            (i + 1) as nat,
                            self.propstat.len() as nat,
                        );
                    }
                    return Err(e);
                },
            }
            i = i + 1;
        }
        append_events(&mut body, groups);
        Ok(make_element(&make_dav_tag("response"), no_attributes(), body))
    }
}

fn make_responses<T: XmlType>(responses: &Vec<ResponseElement<T>>) -> (events: Result<
    Vec<XmlEvent>,
    XmlSeError,
>)
    ensures
        encoded_as(events, responses_events(responses@, responses.len() as nat)),
{
    let mut events: Vec<XmlEvent> = Vec::new();
    let mut i: usize = 0;
    assert(event_views(events@) =~= seq![]);
    while i < responses.len()
        invariant
            i <= responses.len(),
            responses_events(responses@, i as nat) == Some(event_views(events@)),
        decreases responses.len() - i,
    {
        match responses[i].to_events() {
            Ok(encoded) => {
                append_events(&mut events, encoded);
            },
            Err(e) => {
                proof {
                    lemma_responses_failure_stays(
                        responses@,
                        (i + 1) as nat,
                        responses.len() as nat,
                    );
                }
                return Err(e);
            },
        }
        i = i + 1;
    }
    Ok(events)
}

fn make_namespaces() -> (attributes: Vec<XmlAttribute>)
    ensures
        attributes@.map_values(|a: XmlAttribute| a@) == namespace_attributes(),
{
    let mut attributes: Vec<XmlAttribute> = Vec::new();
    attributes.push(XmlAttribute { key: "xmlns".to_owned(), value: "DAV:".to_owned() });
    attributes.push(
        XmlAttribute {
            key: "xmlns:C".to_owned(),
            value: "urn:ietf:params:xml:ns:caldav".to_owned(),
        },
    );
    attributes.push(
        XmlAttribute { key: "xmlns:IC".to_owned(), value: "http://apple.com/ns/ical/".to_owned() },
    );
    assert(attributes@.map_values(|a: XmlAttribute| a@) =~= namespace_attributes());
    attributes
}

impl<T1: XmlType, T2: XmlType> MultistatusElement<T1, T2> {
    /// The events of the response.
    pub fn to_events(&self) -> (events: Result<Vec<XmlEvent>, XmlSeError>)
        ensures
            encoded_as(events, multistatus_events(*self)),
    {
        let mut body = match make_responses(&self.responses) {
            Ok(own) => own,
            Err(e) => {
                return Err(e);
            },
        };
        match make_responses(&self.member_responses) {
            Ok(members) => {
                append_events(&mut body, members);
            },
            Err(e) => {
                return Err(e);
            },
        }
        Ok(make_element(&make_dav_tag("multistatus"), make_namespaces(), body))
    }

    /// The response as the text of an XML document.
    pub fn serialize(&self) -> (text: Result<String, XmlSeError>)
        ensures
            match multistatus_events(*self) {
                Some(events) => text matches Ok(t) && t@ == markup(events, events.len()),
                None => text is Err,
            },
    {
        match self.to_events() {
            Ok(events) => Ok(write_events(&events)),
            Err(e) => Err(e),
        }
    }
}

} // verus!
