use rustical::routes::calendar::{generate_propfind_calendar_response, route_propfind_calendar};
use rustical::calendar::prop::{CalendarProp, CalendarPropName};
use rustical::calendar::resource::CalendarResource;
use rustical::calendar_object::resource::{CalendarObjectProp, CalendarObjectResource};
use rustical::elements::{PropElement, PropfindElement, PropfindType, Propname};
use rustical::error::{Error, XmlDeError};
use rustical::memory_store::MemoryStore;
use rustical::methods::propfind::{propfind, split_tags};
use rustical::multistatus::{MultistatusElement, PropstatWrapper, ResponseElement};
use rustical::resource::{PropName, Resource, User};
use rustical::store::{Calendar, CalendarObject};

fn calendar() -> Calendar {
    Calendar {
        principal: "alice".to_owned(),
        id: "work".to_owned(),
        name: Some("Work".to_owned()),
        description: None,
        color: Some("#ff0000".to_owned()),
    }
}

fn resource() -> CalendarResource {
    CalendarResource { calendar: calendar(), principal: "alice".to_owned() }
}

fn list(names: &[&str]) -> PropfindType {
    PropfindType::Prop(PropElement(names.iter().map(|n| Propname((*n).to_owned())).collect()))
}

fn names_of(group: &PropstatWrapper<CalendarProp>) -> Vec<String> {
    match group {
        PropstatWrapper::TagList(el) => el.prop.0.clone(),
        other => panic!("no names: {:?}", other),
    }
}

fn values_of(group: &PropstatWrapper<CalendarProp>) -> &Vec<CalendarProp> {
    match group {
        PropstatWrapper::Normal(el) => &el.prop,
        other => panic!("no values: {:?}", other),
    }
}

fn name_of(prop: &CalendarProp) -> &'static str {
    match prop {
        CalendarProp::Resourcetype => "resourcetype",
        CalendarProp::CurrentUserPrincipal(_) => "current-user-principal",
        CalendarProp::Displayname(_) => "displayname",
        CalendarProp::SupportedCalendarComponentSet => "supported-calendar-component-set",
        CalendarProp::SupportedCalendarData => "supported-calendar-data",
        CalendarProp::Getcontenttype(_) => "getcontenttype",
        CalendarProp::CalendarDescription(_) => "calendar-description",
        CalendarProp::Owner(_) => "owner",
        CalendarProp::CalendarColor(_) => "calendar-color",
        CalendarProp::Invalid => "invalid",
    }
}

#[test]
fn all_properties_are_the_listed_names_each_once_under_ok() {
    let response = propfind(&resource(), "/cal/alice/work", "/cal", &PropfindType::Allprop).unwrap();
    assert_eq!(response.href, "/cal/alice/work");
    assert_eq!(response.status, None);
    assert_eq!(response.propstat.len(), 1);
    let status = match &response.propstat[0] {
        PropstatWrapper::Normal(el) => el.status,
        _ => panic!(),
    };
    assert_eq!(status, 200);
    let found: Vec<&str> = values_of(&response.propstat[0]).iter().map(name_of).collect();
    assert_eq!(found, CalendarResource::list_props());
    let mut unique = found.clone();
    unique.sort();
    unique.dedup();
    assert_eq!(unique.len(), found.len());
}

#[test]
fn the_names_of_a_calendar_are_listed_in_their_order() {
    assert_eq!(
        CalendarResource::list_props(),
        vec![
            "resourcetype",
            "current-user-principal",
            "displayname",
            "supported-calendar-component-set",
            "supported-calendar-data",
            "getcontenttype",
            "calendar-description",
            "owner",
            "calendar-color",
        ]
    );
    for name in CalendarPropName::variants() {
        assert_eq!(CalendarPropName::from_str(name).unwrap().as_str(), name);
    }
    assert!(CalendarPropName::from_str("getetag").is_none());
    assert!(CalendarPropName::from_str("").is_none());
    assert_eq!(CalendarResource::resource_name(), "caldav_calendar");
}

#[test]
fn names_only_lists_bare_names_and_never_values() {
    let response = propfind(&resource(), "/cal/alice/work", "/cal", &PropfindType::Propname).unwrap();
    assert_eq!(response.propstat.len(), 1);
    match &response.propstat[0] {
        PropstatWrapper::TagList(el) => {
            assert_eq!(el.status, 200);
            assert_eq!(el.prop.0, CalendarResource::list_props());
        }
        other => panic!("values in a query for names: {:?}", other),
    }
}

#[test]
fn names_only_is_written_with_empty_elements() {
    let mut store = MemoryStore::new();
    store.insert_calendar(calendar());
    let response = route_propfind_calendar(
        &store,
        ("alice".to_owned(), "work".to_owned()),
        "<propfind xmlns=\"DAV:\"><propname/></propfind>",
        "/cal/alice/work",
        "/cal",
        &User { id: "alice".to_owned() },
        false,
    )
    .unwrap();
    assert_eq!(response.status, 207);
    assert_eq!(response.headers.len(), 1);
    assert_eq!(response.headers[0].name, "Content-Type");
    assert_eq!(response.headers[0].value, "text/xml");
    assert_eq!(
        response.body,
        "<multistatus xmlns=\"DAV:\" xmlns:C=\"urn:ietf:params:xml:ns:caldav\" \
         xmlns:IC=\"http://apple.com/ns/ical/\"><response><href>/cal/alice/work</href>\
         <propstat><prop><resourcetype/><current-user-principal/><displayname/>\
         <supported-calendar-component-set/><supported-calendar-data/><getcontenttype/>\
         <calendar-description/><owner/><calendar-color/></prop>\
         <status>HTTP/1.1 200 OK</status></propstat></response></multistatus>"
    );
    assert!(!response.body.contains("Work"));
}

#[test]
fn listed_properties_are_found_or_not_found() {
    let response = propfind(
        &resource(),
        "/cal/alice/work",
        "/cal",
        &list(&["displayname", "bogus", "owner", "getetag", "displayname"]),
    )
    .unwrap();
    assert_eq!(response.propstat.len(), 2);
    let found = values_of(&response.propstat[0]);
    assert_eq!(found.len(), 3);
    assert!(matches!(&found[0], CalendarProp::Displayname(Some(n)) if n == "Work"));
    assert!(matches!(&found[1], CalendarProp::Owner(h) if h == "/cal/alice/"));
    assert!(matches!(&found[2], CalendarProp::Displayname(Some(n)) if n == "Work"));
    match &response.propstat[1] {
        PropstatWrapper::TagList(el) => assert_eq!(el.status, 404),
        _ => panic!(),
    }
    assert_eq!(names_of(&response.propstat[1]), vec!["bogus", "getetag"]);
}

#[test]
fn without_unknown_tags_there_is_no_group_for_them() {
    let response = propfind(&resource(), "/p", "", &list(&["displayname"])).unwrap();
    assert_eq!(response.propstat.len(), 1);
    let response = propfind(&resource(), "/p", "", &list(&[])).unwrap();
    assert_eq!(response.propstat.len(), 1);
    assert_eq!(values_of(&response.propstat[0]).len(), 0);
    let response = propfind(&resource(), "/p", "", &list(&["x"])).unwrap();
    assert_eq!(response.propstat.len(), 2);
    assert_eq!(values_of(&response.propstat[0]).len(), 0);
}

#[test]
fn tags_are_split_in_request_order() {
    let tags: Vec<String> =
        ["x", "owner", "y", "displayname"].iter().map(|t| (*t).to_owned()).collect();
    let (known, unknown) = split_tags::<CalendarPropName>(&tags);
    assert_eq!(known, vec![CalendarPropName::Owner, CalendarPropName::Displayname]);
    assert_eq!(unknown, vec!["x", "y"]);
}

#[test]
fn the_values_of_a_calendar() {
    let r = resource();
    assert!(matches!(r.get_prop("/cal", &CalendarPropName::Resourcetype), Ok(CalendarProp::Resourcetype)));
    assert!(matches!(
        r.get_prop("/cal", &CalendarPropName::CurrentUserPrincipal),
        Ok(CalendarProp::CurrentUserPrincipal(h)) if h == "/cal/alice/"
    ));
    assert!(matches!(
        r.get_prop("/cal", &CalendarPropName::Getcontenttype),
        Ok(CalendarProp::Getcontenttype(t)) if t == "text/calendar"
    ));
    assert!(matches!(
        r.get_prop("/cal", &CalendarPropName::CalendarDescription),
        Ok(CalendarProp::CalendarDescription(None))
    ));
    assert!(matches!(
        r.get_prop("/cal", &CalendarPropName::CalendarColor),
        Ok(CalendarProp::CalendarColor(Some(c))) if c == "#ff0000"
    ));
}

#[test]
fn a_calendar_entry_is_written_for_a_list_of_words() {
    let text = generate_propfind_calendar_response(
        vec!["displayname", "bogus", "calendar-color", "calendar-description"],
        "alice",
        "/cal/alice/work",
        "/cal",
        &calendar(),
    )
    .unwrap();
    assert_eq!(
        text,
        "<response><href>/cal/alice/work</href><propstat><prop><displayname>Work</displayname>\
         <IC:calendar-color>#ff0000</IC:calendar-color><C:calendar-description/></prop>\
         <status>HTTP/1.1 200 OK</status></propstat><propstat><prop><bogus/></prop>\
         <status>HTTP/1.1 404 Not Found</status></propstat></response>"
    );
}

#[test]
fn the_word_allprops_stands_for_every_property() {
    let text = generate_propfind_calendar_response(
        vec!["allprops"],
        "alice",
        "/cal/alice/work",
        "/cal",
        &calendar(),
    )
    .unwrap();
    assert_eq!(
        text,
        "<response><href>/cal/alice/work</href><propstat><prop>\
         <resourcetype><C:calendar/><collection/></resourcetype>\
         <current-user-principal><href>/cal/alice/</href></current-user-principal>\
         <displayname>Work</displayname>\
         <C:supported-calendar-component-set><C:comp name=\"VEVENT\"/></C:supported-calendar-component-set>\
         <C:supported-calendar-data><C:calendar-data content-type=\"text/calendar\" version=\"2.0\"/>\
         </C:supported-calendar-data>\
         <getcontenttype>text/calendar</getcontenttype>\
         <C:calendar-description/>\
         <owner><href>/cal/alice/</href></owner>\
         <IC:calendar-color>#ff0000</IC:calendar-color>\
         </prop><status>HTTP/1.1 200 OK</status></propstat></response>"
    );
    // The word itself is no property. A name beside it adds nothing, and
    // any other word beside it is reported once.
    let text = generate_propfind_calendar_response(
        vec!["owner", "allprops", "nothing", "displayname", "nothing"],
        "alice",
        "/p",
        "",
        &calendar(),
    )
    .unwrap();
    assert_eq!(
        text,
        "<response><href>/p</href><propstat><prop>\
         <resourcetype><C:calendar/><collection/></resourcetype>\
         <current-user-principal><href>/alice/</href></current-user-principal>\
         <displayname>Work</displayname>\
         <C:supported-calendar-component-set><C:comp name=\"VEVENT\"/></C:supported-calendar-component-set>\
         <C:supported-calendar-data><C:calendar-data content-type=\"text/calendar\" version=\"2.0\"/>\
         </C:supported-calendar-data>\
         <getcontenttype>text/calendar</getcontenttype>\
         <C:calendar-description/>\
         <owner><href>/alice/</href></owner>\
         <IC:calendar-color>#ff0000</IC:calendar-color>\
         </prop><status>HTTP/1.1 200 OK</status></propstat>\
         <propstat><prop><nothing/></prop><status>HTTP/1.1 404 Not Found</status></propstat></response>"
    );
}

#[test]
fn a_name_beside_allprops_is_written_once() {
    let text = generate_propfind_calendar_response(
        vec!["allprops", "displayname"],
        "alice",
        "/p",
        "",
        &calendar(),
    )
    .unwrap();
    assert_eq!(text.matches("<displayname>").count(), 1);
    let alone =
        generate_propfind_calendar_response(vec!["allprops"], "alice", "/p", "", &calendar()).unwrap();
    assert_eq!(text, alone);
    // A name that is repeated without the word is written once as well.
    let twice = generate_propfind_calendar_response(
        vec!["owner", "x", "owner", "x"],
        "alice",
        "/p",
        "",
        &calendar(),
    )
    .unwrap();
    assert_eq!(
        twice,
        "<response><href>/p</href><propstat><prop><owner><href>/alice/</href></owner></prop>\
         <status>HTTP/1.1 200 OK</status></propstat><propstat><prop><x/></prop>\
         <status>HTTP/1.1 404 Not Found</status></propstat></response>"
    );
}

#[test]
fn a_propfind_body_is_decoded() {
    let all = PropfindElement::parse_str("<D:propfind xmlns:D=\"DAV:\"><D:allprop/></D:propfind>").unwrap();
    assert!(matches!(all.prop, PropfindType::Allprop));
    let names = PropfindElement::parse_str("<propfind xmlns=\"DAV:\"><propname/></propfind>").unwrap();
    assert!(matches!(names.prop, PropfindType::Propname));
    let listed = PropfindElement::parse_str(
        "<?xml version=\"1.0\" encoding=\"utf-8\"?>\n<propfind xmlns=\"DAV:\" xmlns:C=\"urn:ietf:params:xml:ns:caldav\">\
         <prop><displayname/><C:calendar-description/><getetag></getetag></prop></propfind>",
    )
    .unwrap();
    match listed.prop {
        PropfindType::Prop(PropElement(names)) => {
            let names: Vec<String> = names.into_iter().map(|n| n.0).collect();
            assert_eq!(names, vec!["displayname", "calendar-description", "getetag"]);
        }
        other => panic!("{:?}", other),
    }
}

#[test]
fn a_propfind_body_that_is_none_is_refused() {
    assert_eq!(
        PropfindElement::parse_str("<propfind><allprop/></propfind>").unwrap_err(),
        XmlDeError::InvalidTag
    );
    assert_eq!(
        PropfindElement::parse_str("<propfind xmlns=\"DAV:\"><bogus/></propfind>").unwrap_err(),
        XmlDeError::InvalidVariant
    );
    assert_eq!(
        PropfindElement::parse_str("<propfind xmlns=\"DAV:\"/>").unwrap_err(),
        XmlDeError::MissingField
    );
    assert_eq!(
        PropfindElement::parse_str("<propfind xmlns=\"DAV:\"><allprop>").unwrap_err(),
        XmlDeError::Eof
    );
    assert_eq!(
        PropfindElement::parse_str("<propfind xmlns=\"DAV:\"><prop><a><b/></a></prop></propfind>")
            .unwrap_err(),
        XmlDeError::InvalidFieldName
    );
}

#[test]
fn propfind_on_a_calendar_answers_with_a_multistatus() {
    let mut store = MemoryStore::new();
    store.insert_calendar(calendar());
    let alice = User { id: "alice".to_owned() };
    let response = route_propfind_calendar(
        &store,
        ("alice".to_owned(), "work".to_owned()),
        "<propfind xmlns=\"DAV:\"><prop><displayname/><nope/></prop></propfind>",
        "/cal/alice/work",
        "/cal",
        &alice,
        false,
    )
    .unwrap();
    assert_eq!(response.status, 207);
    assert_eq!(
        response.body,
        "<multistatus xmlns=\"DAV:\" xmlns:C=\"urn:ietf:params:xml:ns:caldav\" \
         xmlns:IC=\"http://apple.com/ns/ical/\"><response><href>/cal/alice/work</href>\
         <propstat><prop><displayname>Work</displayname></prop><status>HTTP/1.1 200 OK</status></propstat>\
         <propstat><prop><nope/></prop><status>HTTP/1.1 404 Not Found</status></propstat>\
         </response></multistatus>"
    );
    // A calendar that cannot be fetched is an internal failure
    assert_eq!(
        route_propfind_calendar(
            &store,
            ("alice".to_owned(), "none".to_owned()),
            "<propfind xmlns=\"DAV:\"><allprop/></propfind>",
            "/cal/alice/none",
            "/cal",
            &alice,
            false,
        )
        .unwrap_err(),
        Error::InternalError
    );
    // and a body that cannot be decoded a bad request.
    assert_eq!(
        route_propfind_calendar(
            &store,
            ("alice".to_owned(), "work".to_owned()),
            "<propfind",
            "/cal/alice/work",
            "/cal",
            &alice,
            true,
        )
        .unwrap_err(),
        Error::BadRequest
    );
}

#[test]
fn an_entry_with_a_status_of_its_own_is_written_without_groups() {
    let entry: ResponseElement<CalendarObjectProp> =
        ResponseElement { href: "/x".to_owned(), status: Some(404), propstat: vec![] };
    let multistatus: MultistatusElement<CalendarObjectProp, String> =
        MultistatusElement { responses: vec![entry], member_responses: vec![] };
    assert_eq!(
        multistatus.serialize().unwrap(),
        "<multistatus xmlns=\"DAV:\" xmlns:C=\"urn:ietf:params:xml:ns:caldav\" \
         xmlns:IC=\"http://apple.com/ns/ical/\"><response><href>/x</href>\
         <status>HTTP/1.1 404 Not Found</status></response></multistatus>"
    );
    let empty: MultistatusElement<CalendarObjectProp, String> =
        MultistatusElement { responses: vec![], member_responses: vec![] };
    assert_eq!(
        empty.serialize().unwrap(),
        "<multistatus xmlns=\"DAV:\" xmlns:C=\"urn:ietf:params:xml:ns:caldav\" \
         xmlns:IC=\"http://apple.com/ns/ical/\"/>"
    );
}

#[test]
fn the_properties_of_a_calendar_object_are_found() {
    let object = CalendarObject::from_ics("e1".to_owned(), "BEGIN:VCALENDAR".to_owned());
    let etag = object.get_etag();
    let resource = CalendarObjectResource::new(object, "alice".to_owned());
    let response = propfind(&resource, "/cal/alice/work/e1", "/cal", &PropfindType::Allprop).unwrap();
    assert_eq!(response.propstat.len(), 1);
    match &response.propstat[0] {
        PropstatWrapper::Normal(el) => {
            assert_eq!(el.prop.len(), 3);
            assert!(matches!(&el.prop[0], CalendarObjectProp::Getetag(t) if *t == etag));
            assert!(matches!(&el.prop[1], CalendarObjectProp::CalendarData(t) if t == "BEGIN:VCALENDAR"));
            assert!(matches!(
                &el.prop[2],
                CalendarObjectProp::Getcontenttype(t) if t == "text/calendar;charset=utf-8"
            ));
        }
        _ => panic!(),
    }
}

#[test]
fn the_members_of_a_calendar_follow_the_calendar_in_store_order() {
    let mut store = MemoryStore::new();
    store.insert_calendar(calendar());
    for (cal, id, ics) in [("work", "b", "B"), ("home", "x", "X"), ("work", "a", "A")] {
        rustical::store::CalendarStore::put_object(
            &mut store,
            "alice".to_owned(),
            cal.to_owned(),
            CalendarObject::from_ics(id.to_owned(), ics.to_owned()),
        )
        .unwrap();
    }
    let response = route_propfind_calendar(
        &store,
        ("alice".to_owned(), "work".to_owned()),
        "<propfind xmlns=\"DAV:\"><prop><displayname/><getcontenttype/></prop></propfind>",
        "/cal/alice/work",
        "/cal",
        &User { id: "alice".to_owned() },
        true,
    )
    .unwrap();
    assert_eq!(
        response.body,
        "<multistatus xmlns=\"DAV:\" xmlns:C=\"urn:ietf:params:xml:ns:caldav\" \
         xmlns:IC=\"http://apple.com/ns/ical/\">\
         <response><href>/cal/alice/work</href><propstat><prop><displayname>Work</displayname>\
         <getcontenttype>text/calendar</getcontenttype></prop><status>HTTP/1.1 200 OK</status></propstat></response>\
         <response><href>/cal/alice/work/b</href><propstat><prop>\
         <getcontenttype>text/calendar;charset=utf-8</getcontenttype></prop>\
         <status>HTTP/1.1 200 OK</status></propstat><propstat><prop><displayname/></prop>\
         <status>HTTP/1.1 404 Not Found</status></propstat></response>\
         <response><href>/cal/alice/work/a</href><propstat><prop>\
         <getcontenttype>text/calendar;charset=utf-8</getcontenttype></prop>\
         <status>HTTP/1.1 200 OK</status></propstat><propstat><prop><displayname/></prop>\
         <status>HTTP/1.1 404 Not Found</status></propstat></response></multistatus>"
    );
}
