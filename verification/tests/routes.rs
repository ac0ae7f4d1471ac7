use rustical::calendar::prop::CalendarProp;
use rustical::calendar_object::resource::CalendarObjectProp;
use rustical::elements::{PropfindElement, PropfindType};
use rustical::routes::{
    endpoint, options_handler, resolve, well_known_redirect, Endpoint, Handler, Method,
};
use rustical::xml::dynamic::XmlValue;
use rustical::xml::reader::read_events;
use rustical::xml::schema::Schema;
use rustical::xml::typed::XmlType;
use rustical::xml::writer::write_events;

fn segments(path: &[&str]) -> Vec<String> {
    path.iter().map(|s| (*s).to_owned()).collect()
}

#[test]
fn methods_are_told_by_their_names() {
    assert_eq!(Method::from_name("OPTIONS"), Method::Options);
    assert_eq!(Method::from_name("GET"), Method::Get);
    assert_eq!(Method::from_name("PUT"), Method::Put);
    assert_eq!(Method::from_name("DELETE"), Method::Delete);
    assert_eq!(Method::from_name("PROPFIND"), Method::Propfind);
    assert_eq!(Method::from_name("PROPPATCH"), Method::Proppatch);
    assert_eq!(Method::from_name("REPORT"), Method::Report);
    assert_eq!(Method::from_name("MKCALENDAR"), Method::Mkcalendar);
    assert_eq!(Method::from_name("POST"), Method::Other);
    assert_eq!(Method::from_name("get"), Method::Other);
    assert_eq!(Method::from_name(""), Method::Other);
}

#[test]
fn paths_name_the_kinds_of_resources() {
    assert_eq!(endpoint(&segments(&[])), Some(Endpoint::Root));
    assert_eq!(endpoint(&segments(&["user", "alice"])), Some(Endpoint::Principal));
    assert_eq!(endpoint(&segments(&["user", "alice", "work"])), Some(Endpoint::Calendar));
    assert_eq!(endpoint(&segments(&["user", "alice", "work", "e.ics"])), Some(Endpoint::Object));
    assert_eq!(endpoint(&segments(&["user"])), None);
    assert_eq!(endpoint(&segments(&["user", "a", "b", "c", "d"])), None);
    assert_eq!(endpoint(&segments(&["users", "alice"])), None);
}

#[test]
fn every_request_has_at_most_one_handler() {
    let root = segments(&[]);
    let principal = segments(&["user", "alice"]);
    let calendar = segments(&["user", "alice", "work"]);
    let object = segments(&["user", "alice", "work", "e"]);
    let nowhere = segments(&["elsewhere"]);
    // OPTIONS is answered everywhere.
    for path in [&root, &principal, &calendar, &object, &nowhere] {
        assert_eq!(resolve(Method::Options, path), Some(Handler::Options));
    }
    for (path, kind) in [
        (&root, Endpoint::Root),
        (&principal, Endpoint::Principal),
        (&calendar, Endpoint::Calendar),
        (&object, Endpoint::Object),
    ] {
        assert_eq!(resolve(Method::Propfind, path), Some(Handler::Propfind(kind)));
        assert_eq!(resolve(Method::Proppatch, path), Some(Handler::Proppatch(kind)));
        assert_eq!(resolve(Method::Other, path), None);
    }
    assert_eq!(resolve(Method::Report, &calendar), Some(Handler::Report));
    assert_eq!(resolve(Method::Report, &object), None);
    assert_eq!(resolve(Method::Report, &root), None);
    assert_eq!(resolve(Method::Mkcalendar, &calendar), Some(Handler::Mkcalendar));
    assert_eq!(resolve(Method::Mkcalendar, &principal), None);
    assert_eq!(resolve(Method::Delete, &calendar), Some(Handler::Delete(Endpoint::Calendar)));
    assert_eq!(resolve(Method::Delete, &object), Some(Handler::Delete(Endpoint::Object)));
    assert_eq!(resolve(Method::Delete, &principal), None);
    assert_eq!(resolve(Method::Get, &object), Some(Handler::GetEvent));
    assert_eq!(resolve(Method::Get, &calendar), None);
    assert_eq!(resolve(Method::Put, &object), Some(Handler::PutEvent));
    assert_eq!(resolve(Method::Put, &root), None);
    assert_eq!(resolve(Method::Propfind, &nowhere), None);
}

#[test]
fn options_tells_what_the_service_can_do() {
    let response = options_handler();
    assert_eq!(response.status, 200);
    assert_eq!(response.body, "options");
    assert_eq!(response.headers.len(), 2);
    assert_eq!(response.headers[0].name, "Allow");
    assert_eq!(
        response.headers[0].value,
        "OPTIONS, GET, HEAD, POST, PUT, REPORT, PROPFIND, PROPPATCH, MKCALENDAR"
    );
    assert_eq!(response.headers[1].name, "DAV");
    assert_eq!(response.headers[1].value, "1, 2, 3, calendar-access, extended-mkcol");
}

#[test]
fn the_well_known_address_redirects_for_good() {
    let response = well_known_redirect("/caldav/");
    assert_eq!(response.status, 308);
    assert_eq!(response.headers.len(), 1);
    assert_eq!(response.headers[0].name, "Location");
    assert_eq!(response.headers[0].value, "/caldav/");
    assert_eq!(response.body, "");
}

fn alike(a: &XmlValue, b: &XmlValue) -> bool {
    match (a, b) {
        (XmlValue::Text(x), XmlValue::Text(y)) => x == y,
        (XmlValue::Nothing, XmlValue::Nothing) => true,
        (XmlValue::Variant(i, x), XmlValue::Variant(j, y)) => i == j && alike(x, y),
        (XmlValue::Struct(x), XmlValue::Struct(y)) => {
            x.name == y.name
                && x.attributes.len() == y.attributes.len()
                && x.attributes
                    .iter()
                    .zip(y.attributes.iter())
                    .all(|(p, q)| p.field == q.field && p.value == q.value)
                && x.content.len() == y.content.len()
                && x.content
                    .iter()
                    .zip(y.content.iter())
                    .all(|(p, q)| p.field == q.field && alike(&p.value, &q.value))
        }
        _ => false,
    }
}

#[test]
fn the_properties_of_a_calendar_are_decoded_as_they_are_encoded() {
    let schema = Schema { types: CalendarProp::types() };
    assert!(schema.check());
    let props = vec![
        CalendarProp::Resourcetype,
        CalendarProp::CurrentUserPrincipal("/cal/alice/".to_owned()),
        CalendarProp::Displayname(Some("a < b".to_owned())),
        CalendarProp::SupportedCalendarComponentSet,
        CalendarProp::SupportedCalendarData,
        CalendarProp::Getcontenttype("text/calendar".to_owned()),
        CalendarProp::CalendarDescription(Some("d".to_owned())),
        CalendarProp::Owner("/cal/bob/".to_owned()),
        CalendarProp::CalendarColor(None),
    ];
    for prop in props {
        let value = prop.to_value().unwrap();
        let events = schema.encode(0, &value, None).unwrap();
        let (decoded, next) = schema.decode(0, &events, 0).unwrap();
        assert_eq!(next, events.len());
        assert!(alike(&decoded, &value), "{:?} against {:?}", decoded, value);
    }
    assert!(CalendarProp::Invalid.to_value().is_none());
}

#[test]
fn the_properties_of_a_calendar_object_come_back_through_the_text() {
    let schema = Schema { types: CalendarObjectProp::types() };
    assert!(schema.check());
    for prop in [
        CalendarObjectProp::Getetag("1".to_owned()),
        CalendarObjectProp::CalendarData("BEGIN:VCALENDAR & more".to_owned()),
        CalendarObjectProp::Getcontenttype("".to_owned()),
    ] {
        let value = prop.to_value().unwrap();
        let events = schema.encode(0, &value, None).unwrap();
        let text = write_events(&events);
        let read = read_events(&format!(
            "<x xmlns=\"DAV:\" xmlns:C=\"urn:ietf:params:xml:ns:caldav\">{}</x>",
            text
        ));
        let (decoded, _) = schema.decode(0, &read, 1).unwrap();
        let back = CalendarObjectProp::from_value(&decoded).unwrap();
        match (&prop, &back) {
            (CalendarObjectProp::Getetag(a), CalendarObjectProp::Getetag(b)) => assert_eq!(a, b),
            (CalendarObjectProp::CalendarData(a), CalendarObjectProp::CalendarData(b)) => {
                assert_eq!(a, b)
            }
            (CalendarObjectProp::Getcontenttype(a), CalendarObjectProp::Getcontenttype(b)) => {
                assert_eq!(a, b)
            }
            other => panic!("{:?}", other),
        }
    }
    assert!(CalendarObjectProp::Invalid.to_value().is_none());
    assert!(matches!(
        CalendarObjectProp::from_value(&XmlValue::Nothing),
        Some(CalendarObjectProp::Invalid)
    ));
}

#[test]
fn a_body_with_white_space_between_its_elements_is_decoded() {
    let body = "<?xml version=\"1.0\" encoding=\"UTF-8\"?>\n\
                <D:propfind xmlns:D=\"DAV:\">\n  <D:prop>\n    <D:displayname/>\n    \
                <D:getetag/>\n  </D:prop>\n</D:propfind>\n";
    match PropfindElement::parse_str(body).unwrap().prop {
        PropfindType::Prop(list) => {
            let names: Vec<String> = list.0.into_iter().map(|n| n.0).collect();
            assert_eq!(names, vec!["displayname", "getetag"]);
        }
        other => panic!("{:?}", other),
    }
}
