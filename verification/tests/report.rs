use rustical::calendar::report::{
    get_events_calendar_multiget, get_events_calendar_query, write_report,
    last_segment_of, route_report_calendar, ReportEntry,
};
use rustical::calendar::report_request::{
    CalendarMultigetRequest, CalendarQueryRequest, PropQuery, ReportRequest,
};
use rustical::elements::{PropElement, PropfindType, Propname};
use rustical::error::{Error, XmlDeError};
use rustical::memory_store::MemoryStore;
use rustical::resource::User;
use rustical::store::{Calendar, CalendarObject, CalendarStore};

const HEAD: &str = "<multistatus xmlns=\"DAV:\" xmlns:C=\"urn:ietf:params:xml:ns:caldav\" \
                    xmlns:IC=\"http://apple.com/ns/ical/\">";

fn store() -> MemoryStore {
    let mut store = MemoryStore::new();
    for id in ["work", "home"] {
        store.insert_calendar(Calendar {
            principal: "alice".to_owned(),
            id: id.to_owned(),
            name: None,
            description: None,
            color: None,
        });
    }
    for (cal, id, ics) in [("work", "e1", "ONE"), ("home", "h1", "HOME"), ("work", "e2", "TWO")] {
        store
            .put_object(
                "alice".to_owned(),
                cal.to_owned(),
                CalendarObject::from_ics(id.to_owned(), ics.to_owned()),
            )
            .unwrap();
    }
    store
}

fn alice() -> User {
    User { id: "alice".to_owned() }
}

fn report(body: &str) -> Result<String, Error> {
    route_report_calendar(
        &store(),
        ("alice".to_owned(), "work".to_owned()),
        body,
        &alice(),
        "/cal/alice/work",
        "/cal",
    )
    .map(|response| {
        assert_eq!(response.status, 207);
        assert_eq!(response.headers.len(), 1);
        assert_eq!(response.headers[0].name, "Content-Type");
        assert_eq!(response.headers[0].value, "text/xml");
        response.body
    })
}

fn etag(id: &str, ics: &str) -> String {
    CalendarObject::from_ics(id.to_owned(), ics.to_owned()).get_etag()
}

#[test]
fn a_multiget_has_one_entry_for_each_address_in_order() {
    let body = report(
        "<C:calendar-multiget xmlns=\"DAV:\" xmlns:C=\"urn:ietf:params:xml:ns:caldav\">\
         <prop><getetag/><C:calendar-data/></prop>\
         <href>/cal/alice/work/e2.ics</href>\
         <href>/cal/alice/work/missing.ics</href>\
         <href>/cal/alice/work/e1</href>\
         </C:calendar-multiget>",
    )
    .unwrap();
    let expected = format!(
        "{HEAD}<response><href>/cal/alice/work/e2.ics</href><propstat><prop>\
         <getetag>{}</getetag><C:calendar-data>TWO</C:calendar-data></prop>\
         <status>HTTP/1.1 200 OK</status></propstat></response>\
         <response><href>/cal/alice/work/missing.ics</href><status>HTTP/1.1 404 Not Found</status></response>\
         <response><href>/cal/alice/work/e1</href><propstat><prop>\
         <getetag>{}</getetag><C:calendar-data>ONE</C:calendar-data></prop>\
         <status>HTTP/1.1 200 OK</status></propstat></response></multistatus>",
        etag("e2", "TWO"),
        etag("e1", "ONE"),
    );
    assert_eq!(body, expected);
}

#[test]
fn an_address_that_names_nothing_does_not_end_the_report() {
    let body = report(
        "<C:calendar-multiget xmlns=\"DAV:\" xmlns:C=\"urn:ietf:params:xml:ns:caldav\">\
         <allprop/><href>/nowhere</href><href>h1</href></C:calendar-multiget>",
    )
    .unwrap();
    // The object `h1` lies in another calendar.
    assert_eq!(
        body,
        format!(
            "{HEAD}<response><href>/nowhere</href><status>HTTP/1.1 404 Not Found</status></response>\
             <response><href>h1</href><status>HTTP/1.1 404 Not Found</status></response></multistatus>"
        )
    );
}

#[test]
fn a_multiget_without_addresses_is_empty() {
    let body = report(
        "<C:calendar-multiget xmlns=\"DAV:\" xmlns:C=\"urn:ietf:params:xml:ns:caldav\">\
         <allprop/></C:calendar-multiget>",
    )
    .unwrap();
    assert_eq!(body, format!("{}/>", &HEAD[..HEAD.len() - 1]));
}

#[test]
fn a_query_reports_every_object_of_the_calendar() {
    let body = report(
        "<C:calendar-query xmlns=\"DAV:\" xmlns:C=\"urn:ietf:params:xml:ns:caldav\">\
         <prop><getetag/><nothing/></prop>\
         <C:filter><C:comp-filter name=\"VCALENDAR\"><C:comp-filter name=\"VEVENT\">\
         <C:time-range start=\"20240101T000000Z\" end=\"20250101T000000Z\"/>\
         <C:prop-filter name=\"SUMMARY\"><C:text-match collation=\"i;ascii-casemap\">x</C:text-match>\
         <C:param-filter name=\"P\"><C:is-not-defined/></C:param-filter></C:prop-filter>\
         </C:comp-filter></C:comp-filter></C:filter>\
         <C:timezone>UTC</C:timezone>\
         </C:calendar-query>",
    )
    .unwrap();
    let expected = format!(
        "{HEAD}<response><href>/cal/alice/work/e1</href><propstat><prop><getetag>{}</getetag></prop>\
         <status>HTTP/1.1 200 OK</status></propstat><propstat><prop><nothing/></prop>\
         <status>HTTP/1.1 404 Not Found</status></propstat></response>\
         <response><href>/cal/alice/work/e2</href><propstat><prop><getetag>{}</getetag></prop>\
         <status>HTTP/1.1 200 OK</status></propstat><propstat><prop><nothing/></prop>\
         <status>HTTP/1.1 404 Not Found</status></propstat></response></multistatus>",
        etag("e1", "ONE"),
        etag("e2", "TWO"),
    );
    assert_eq!(body, expected);
}

#[test]
fn a_report_for_another_principal_is_not_authorized() {
    let result = route_report_calendar(
        &store(),
        ("bob".to_owned(), "work".to_owned()),
        "<C:calendar-query xmlns=\"DAV:\" xmlns:C=\"urn:ietf:params:xml:ns:caldav\"><allprop/></C:calendar-query>",
        &alice(),
        "/cal/bob/work",
        "/cal",
    );
    assert_eq!(result.unwrap_err(), Error::Unauthorized);
}

#[test]
fn asking_for_names_only_is_not_offered_in_a_report() {
    assert_eq!(
        report(
            "<C:calendar-query xmlns=\"DAV:\" xmlns:C=\"urn:ietf:params:xml:ns:caldav\">\
             <propname/></C:calendar-query>"
        )
        .unwrap_err(),
        Error::NotImplemented
    );
}

#[test]
fn a_report_body_that_cannot_be_decoded_fails_the_request() {
    assert_eq!(
        report("<C:calendar-query").unwrap_err(),
        Error::XmlDeserializationError(XmlDeError::Malformed)
    );
    assert_eq!(
        report("<calendar-query><allprop/></calendar-query>").unwrap_err(),
        Error::XmlDeserializationError(XmlDeError::InvalidVariant)
    );
    assert_eq!(
        report("<C:calendar-query xmlns:C=\"urn:ietf:params:xml:ns:caldav\"/>").unwrap_err(),
        Error::XmlDeserializationError(XmlDeError::MissingField)
    );
    assert_eq!(
        report(
            "<C:calendar-query xmlns=\"DAV:\" xmlns:C=\"urn:ietf:params:xml:ns:caldav\">\
             <allprop/><C:filter><C:comp-filter/></C:filter></C:calendar-query>"
        )
        .unwrap_err(),
        Error::XmlDeserializationError(XmlDeError::MissingField)
    );
}

#[test]
fn a_report_body_is_decoded() {
    let request = ReportRequest::parse_str(
        "<C:calendar-multiget xmlns=\"DAV:\" xmlns:C=\"urn:ietf:params:xml:ns:caldav\">\
         <href>a</href><prop><getetag/></prop><href>b</href></C:calendar-multiget>",
    )
    .unwrap();
    match request {
        ReportRequest::CalendarMultiget(CalendarMultigetRequest { prop, href }) => {
            assert_eq!(href, vec!["a", "b"]);
            assert_eq!(PropQuery::of(&prop), PropQuery::Prop);
        }
        other => panic!("{:?}", other),
    }
    let request = ReportRequest::parse_str(
        "<C:calendar-query xmlns=\"DAV:\" xmlns:C=\"urn:ietf:params:xml:ns:caldav\">\
         <allprop/><C:filter><C:comp-filter name=\"VCALENDAR\"/></C:filter>\
         <C:timezone>Europe/Berlin</C:timezone></C:calendar-query>",
    )
    .unwrap();
    match request {
        ReportRequest::CalendarQuery(CalendarQueryRequest { prop, filter, timezone }) => {
            assert_eq!(PropQuery::of(&prop), PropQuery::Allprop);
            assert_eq!(timezone.as_deref(), Some("Europe/Berlin"));
            let filter = filter.unwrap();
            assert_eq!(filter.comp_filter.name().unwrap(), "comp-filter");
            assert_eq!(filter.comp_filter.attribute(4).unwrap(), "VCALENDAR");
        }
        other => panic!("{:?}", other),
    }
    let request = ReportRequest::parse_str(
        "<C:calendar-query xmlns=\"DAV:\" xmlns:C=\"urn:ietf:params:xml:ns:caldav\"><propname/></C:calendar-query>",
    )
    .unwrap();
    match request {
        ReportRequest::CalendarQuery(q) => {
            assert_eq!(PropQuery::of(&q.prop), PropQuery::Propname);
            assert!(q.filter.is_none());
            assert!(q.timezone.is_none());
        }
        other => panic!("{:?}", other),
    }
}

#[test]
fn the_last_segment_of_an_address() {
    assert_eq!(last_segment_of("/a/b/c.ics"), "c.ics");
    assert_eq!(last_segment_of("c"), "c");
    assert_eq!(last_segment_of("/a/b/"), "");
    assert_eq!(last_segment_of(""), "");
    assert_eq!(last_segment_of("/ä/ö"), "ö");
}

#[test]
fn the_objects_of_a_report_are_fetched() {
    let store = store();
    let query = CalendarQueryRequest { prop: PropfindType::Allprop, filter: None, timezone: None };
    let entries = get_events_calendar_query(&query, "work", "/base", &store).unwrap();
    assert_eq!(entries.len(), 2);
    assert!(matches!(&entries[0], ReportEntry::Found { path, object } if path == "/base/e1" && object.ics == "ONE"));
    assert!(matches!(&entries[1], ReportEntry::Found { path, object } if path == "/base/e2" && object.ics == "TWO"));
    assert_eq!(get_events_calendar_query(&query, "none", "/base", &store).unwrap().len(), 0);
    let multiget = CalendarMultigetRequest {
        prop: PropfindType::Allprop,
        href: vec!["/x/e2.ics".to_owned(), "/x/e9.ics".to_owned()],
    };
    let entries = get_events_calendar_multiget(&multiget, "alice", "work", &store).unwrap();
    assert_eq!(entries.len(), 2);
    assert!(matches!(&entries[0], ReportEntry::Found { path, object } if path == "/x/e2.ics" && object.id == "e2"));
    assert!(matches!(&entries[1], ReportEntry::Missing { href } if href == "/x/e9.ics"));
}

#[test]
fn the_entries_of_a_report_are_written() {
    let entries = vec![
        ReportEntry::Missing { href: "/gone".to_owned() },
        ReportEntry::Found {
            path: "/here".to_owned(),
            object: CalendarObject::from_ics("e".to_owned(), "a < b".to_owned()),
        },
    ];
    let query = PropfindType::Prop(PropElement(vec![Propname("calendar-data".to_owned())]));
    let response = write_report(entries, "alice", "/cal", &query).unwrap();
    assert_eq!(
        response.body,
        format!(
            "{HEAD}<response><href>/gone</href><status>HTTP/1.1 404 Not Found</status></response>\
             <response><href>/here</href><propstat><prop><C:calendar-data>a &lt; b</C:calendar-data></prop>\
             <status>HTTP/1.1 200 OK</status></propstat></response></multistatus>"
        )
    );
    assert_eq!(
        write_report(vec![], "alice", "/cal", &PropfindType::Propname).unwrap_err(),
        Error::NotImplemented
    );
}
