use rustical::calendar::prop::CalendarProp;
use rustical::calendar::resource::{CalendarResource, CalendarResourceService};
use rustical::calendar_object::resource::{CalendarObjectProp, CalendarObjectResourceService};
use rustical::error::{Error, XmlDeError};
use rustical::memory_store::MemoryStore;
use rustical::methods::proppatch::{
    apply_operations, proppatch, route_proppatch, Operation, PropertyElement,
    PropertyupdateElement, RemovePropertyElement, SetPropertyElement, TagName,
};
use rustical::multistatus::{MultistatusElement, PropstatWrapper};
use rustical::resource::{ResourceService, User};
use rustical::store::{Calendar, CalendarObject, CalendarStore};

fn store() -> MemoryStore {
    let mut store = MemoryStore::new();
    store.insert_calendar(Calendar {
        principal: "alice".to_owned(),
        id: "work".to_owned(),
        name: Some("Work".to_owned()),
        description: Some("old".to_owned()),
        color: None,
    });
    store
        .put_object(
            "alice".to_owned(),
            "work".to_owned(),
            CalendarObject::from_ics("e1".to_owned(), "BEGIN:VCALENDAR".to_owned()),
        )
        .unwrap();
    store
}

fn service() -> CalendarResourceService<MemoryStore> {
    CalendarResourceService::new(store(), ("alice".to_owned(), "work".to_owned())).unwrap()
}

fn alice() -> User {
    User { id: "alice".to_owned() }
}

fn groups(response: &MultistatusElement<String, String>) -> (Vec<String>, Vec<String>, Vec<String>) {
    assert_eq!(response.responses.len(), 1);
    assert_eq!(response.member_responses.len(), 0);
    let entry = &response.responses[0];
    assert_eq!(entry.status, None);
    assert_eq!(entry.propstat.len(), 3);
    let mut lists = Vec::new();
    for (group, status) in entry.propstat.iter().zip([200u16, 404, 409]) {
        match group {
            PropstatWrapper::TagList(el) => {
                assert_eq!(el.status, status);
                lists.push(el.prop.0.clone());
            }
            other => panic!("values in a report of names: {:?}", other),
        }
    }
    let conflict = lists.pop().unwrap();
    let not_found = lists.pop().unwrap();
    let ok = lists.pop().unwrap();
    (ok, not_found, conflict)
}

fn set(prop: CalendarProp) -> Operation<CalendarProp> {
    Operation::SetProperty(SetPropertyElement { prop })
}

fn remove(name: &str) -> Operation<CalendarProp> {
    Operation::Remove(RemovePropertyElement {
        prop: PropertyElement { property: TagName { name: name.to_owned() } },
    })
}

fn strings(names: &[&str]) -> Vec<String> {
    names.iter().map(|n| (*n).to_owned()).collect()
}

#[test]
fn an_update_that_is_accepted_is_stored() {
    let mut service = service();
    let response = route_proppatch(
        &mut service,
        "<propertyupdate xmlns=\"DAV:\" xmlns:C=\"urn:ietf:params:xml:ns:caldav\" \
         xmlns:IC=\"http://apple.com/ns/ical/\">\
         <set><prop><displayname>New</displayname></prop></set>\
         <set><prop><IC:calendar-color>#00ff00</IC:calendar-color></prop></set>\
         <remove><prop><C:calendar-description/></prop></remove>\
         </propertyupdate>",
        "/cal/alice/work",
        &alice(),
    )
    .unwrap();
    assert_eq!(response.responses[0].href, "/cal/alice/work");
    let (ok, not_found, conflict) = groups(&response);
    assert_eq!(ok, vec!["displayname", "calendar-color", "calendar-description"]);
    assert!(not_found.is_empty());
    assert!(conflict.is_empty());
    // Fetching again shows the update.
    let fetched = service.get_resource().unwrap();
    assert_eq!(fetched.calendar.name.as_deref(), Some("New"));
    assert_eq!(fetched.calendar.color.as_deref(), Some("#00ff00"));
    assert_eq!(fetched.calendar.description, None);
    let stored = service.into_store().get_calendar("alice", "work").unwrap();
    assert_eq!(stored.name.as_deref(), Some("New"));
}

#[test]
fn an_update_with_an_unknown_property_stores_nothing() {
    let mut service = service();
    let response = route_proppatch(
        &mut service,
        "<propertyupdate xmlns=\"DAV:\">\
         <set><prop><displayname>New</displayname></prop></set>\
         <set><prop><bogus>1</bogus></prop></set>\
         </propertyupdate>",
        "/cal/alice/work",
        &alice(),
    )
    .unwrap();
    let (ok, not_found, conflict) = groups(&response);
    // What would have gone well is still reported.
    assert_eq!(ok, vec!["displayname"]);
    assert_eq!(not_found, vec!["bogus"]);
    assert!(conflict.is_empty());
    let fetched = service.get_resource().unwrap();
    assert_eq!(fetched.calendar.name.as_deref(), Some("Work"));
    assert_eq!(fetched.calendar.description.as_deref(), Some("old"));
}

#[test]
fn an_update_of_a_read_only_property_is_a_conflict_and_stores_nothing() {
    let mut service = service();
    let response = route_proppatch(
        &mut service,
        "<propertyupdate xmlns=\"DAV:\">\
         <set><prop><getcontenttype>text/plain</getcontenttype></prop></set>\
         <remove><prop><displayname/></prop></remove>\
         <remove><prop><owner/></prop></remove>\
         <set><prop><resourcetype><collection/></resourcetype></prop></set>\
         </propertyupdate>",
        "/cal/alice/work",
        &alice(),
    )
    .unwrap();
    let (ok, not_found, conflict) = groups(&response);
    assert_eq!(ok, vec!["displayname"]);
    assert!(not_found.is_empty());
    assert_eq!(conflict, vec!["getcontenttype", "owner", "resourcetype"]);
    assert_eq!(service.get_resource().unwrap().calendar.name.as_deref(), Some("Work"));
}

#[test]
fn removing_an_unknown_name_is_ok_every_time() {
    let mut service = service();
    let response = route_proppatch(
        &mut service,
        "<propertyupdate xmlns=\"DAV:\">\
         <remove><prop><nothing/></prop></remove>\
         <remove><prop><nothing/></prop></remove>\
         </propertyupdate>",
        "/cal/alice/work",
        &alice(),
    )
    .unwrap();
    let (ok, not_found, conflict) = groups(&response);
    assert_eq!(ok, vec!["nothing", "nothing"]);
    assert!(not_found.is_empty());
    assert!(conflict.is_empty());
    let fetched = service.get_resource().unwrap();
    assert_eq!(fetched.calendar.name.as_deref(), Some("Work"));
    assert_eq!(fetched.calendar.description.as_deref(), Some("old"));
}

#[test]
fn removing_a_property_twice_is_ok_both_times() {
    let mut service = service();
    for _ in 0..2 {
        let response = route_proppatch(
            &mut service,
            "<propertyupdate xmlns=\"DAV:\"><remove><prop><displayname/></prop></remove></propertyupdate>",
            "/cal/alice/work",
            &alice(),
        )
        .unwrap();
        let (ok, not_found, conflict) = groups(&response);
        assert_eq!(ok, vec!["displayname"]);
        assert!(not_found.is_empty() && conflict.is_empty());
        assert_eq!(service.get_resource().unwrap().calendar.name, None);
    }
}

#[test]
fn an_update_needs_the_write_privilege() {
    let mut service = service();
    let result = route_proppatch(
        &mut service,
        "<propertyupdate xmlns=\"DAV:\"><set><prop><displayname>New</displayname></prop></set></propertyupdate>",
        "/cal/alice/work",
        &User { id: "bob".to_owned() },
    );
    assert_eq!(result.unwrap_err(), Error::Unauthorized);
    assert_eq!(service.get_resource().unwrap().calendar.name.as_deref(), Some("Work"));
}

#[test]
fn a_body_that_cannot_be_decoded_fails_the_request() {
    let mut service = service();
    assert_eq!(
        route_proppatch(&mut service, "<propertyupdate", "/p", &alice()).unwrap_err(),
        Error::XmlDeserializationError(XmlDeError::Malformed)
    );
    assert_eq!(
        route_proppatch(&mut service, "<other/>", "/p", &alice()).unwrap_err(),
        Error::XmlDeserializationError(XmlDeError::InvalidTag)
    );
    assert_eq!(
        route_proppatch(&mut service, "<propertyupdate><set/></propertyupdate>", "/p", &alice())
            .unwrap_err(),
        Error::XmlDeserializationError(XmlDeError::MissingField)
    );
    assert_eq!(
        route_proppatch(&mut service, "<propertyupdate><get/></propertyupdate>", "/p", &alice())
            .unwrap_err(),
        Error::XmlDeserializationError(XmlDeError::InvalidVariant)
    );
}

#[test]
fn a_resource_that_cannot_be_fetched_fails_the_request() {
    let mut service =
        CalendarResourceService::new(store(), ("alice".to_owned(), "none".to_owned())).unwrap();
    assert_eq!(
        route_proppatch(&mut service, "<propertyupdate/>", "/p", &alice()).unwrap_err(),
        Error::NotFound
    );
}

#[test]
fn an_empty_update_is_stored_as_it_is() {
    let mut service = service();
    let response = route_proppatch(&mut service, "<propertyupdate/>", "/p", &alice()).unwrap();
    let (ok, not_found, conflict) = groups(&response);
    assert!(ok.is_empty() && not_found.is_empty() && conflict.is_empty());
}

#[test]
fn every_property_of_a_calendar_object_is_read_only() {
    let mut service = CalendarObjectResourceService::new(
        store(),
        "/cal/alice/work/e1.ics".to_owned(),
        ("alice".to_owned(), "work".to_owned(), "e1.ics".to_owned()),
    )
    .unwrap();
    let response = route_proppatch(
        &mut service,
        "<propertyupdate xmlns=\"DAV:\">\
         <set><prop><getetag>x</getetag></prop></set>\
         <remove><prop><getcontenttype/></prop></remove>\
         <set><prop><displayname>x</displayname></prop></set>\
         </propertyupdate>",
        "/cal/alice/work/e1.ics",
        &alice(),
    )
    .unwrap();
    let (ok, not_found, conflict) = groups(&response);
    assert!(ok.is_empty());
    assert_eq!(not_found, vec!["displayname"]);
    assert_eq!(conflict, vec!["getetag", "getcontenttype"]);
}

#[test]
fn storing_a_calendar_object_through_its_properties_is_not_offered() {
    let mut service = CalendarObjectResourceService::new(
        store(),
        "/cal/alice/work/e1".to_owned(),
        ("alice".to_owned(), "work".to_owned(), "e1".to_owned()),
    )
    .unwrap();
    // No operation is refused, so the resource is handed over to be stored.
    assert_eq!(
        route_proppatch(&mut service, "<propertyupdate/>", "/p", &alice()).unwrap_err(),
        Error::NotImplemented
    );
    let resource = service.get_resource().unwrap();
    assert_eq!(service.save_resource(resource).unwrap_err(), Error::NotImplemented);
}

#[test]
fn operations_are_run_in_order_on_the_resource_in_memory() {
    let mut resource = CalendarResource {
        calendar: Calendar {
            principal: "alice".to_owned(),
            id: "work".to_owned(),
            name: None,
            description: None,
            color: None,
        },
        principal: "alice".to_owned(),
    };
    let names = apply_operations(
        &mut resource,
        vec![
            set(CalendarProp::Displayname(Some("a".to_owned()))),
            set(CalendarProp::Displayname(Some("b".to_owned()))),
            set(CalendarProp::Invalid),
            set(CalendarProp::Invalid),
            set(CalendarProp::Resourcetype),
            remove("calendar-color"),
            remove("resourcetype"),
            remove("unknown"),
        ],
        strings(&[
            "displayname",
            "displayname",
            "unknown",
            "owner",
            "resourcetype",
            "calendar-color",
            "resourcetype",
            "unknown",
        ]),
    )
    .unwrap();
    assert_eq!(names.ok, vec!["displayname", "displayname", "calendar-color", "unknown"]);
    assert_eq!(names.not_found, vec!["unknown"]);
    assert_eq!(names.conflict, vec!["owner", "resourcetype", "resourcetype"]);
    assert_eq!(resource.calendar.name.as_deref(), Some("b"));
}

#[test]
fn operations_without_a_name_are_not_run() {
    let mut resource = CalendarResource {
        calendar: Calendar {
            principal: "alice".to_owned(),
            id: "work".to_owned(),
            name: None,
            description: None,
            color: None,
        },
        principal: "alice".to_owned(),
    };
    let names = apply_operations(
        &mut resource,
        vec![
            set(CalendarProp::Displayname(Some("a".to_owned()))),
            set(CalendarProp::CalendarColor(Some("c".to_owned()))),
        ],
        strings(&["displayname"]),
    )
    .unwrap();
    assert_eq!(names.ok, vec!["displayname"]);
    assert_eq!(resource.calendar.color, None);
}

#[test]
fn the_typed_update_goes_through_the_session() {
    let mut service = service();
    let response = proppatch(
        &mut service,
        vec![set(CalendarProp::CalendarDescription(Some("new".to_owned())))],
        strings(&["calendar-description"]),
        "/here",
        &alice(),
    )
    .unwrap();
    assert_eq!(response.responses[0].href, "/here");
    assert_eq!(service.get_resource().unwrap().calendar.description.as_deref(), Some("new"));
}

#[test]
fn a_body_is_decoded_into_operations_and_names() {
    let (update, names) = PropertyupdateElement::<CalendarProp>::parse_str(
        "<D:propertyupdate xmlns:D=\"DAV:\"><D:set><D:prop><D:displayname>a &amp; b</D:displayname></D:prop></D:set>\
         <D:remove><D:prop><D:owner/></D:prop></D:remove><D:set><D:prop><D:x>1</D:x></D:prop></D:set>\
         </D:propertyupdate>",
    )
    .unwrap();
    assert_eq!(names, vec!["displayname", "owner", "x"]);
    assert_eq!(update.operations.len(), 3);
    assert!(matches!(
        &update.operations[0],
        Operation::SetProperty(SetPropertyElement { prop: CalendarProp::Displayname(Some(n)) }) if n == "a & b"
    ));
    assert!(matches!(
        &update.operations[1],
        Operation::Remove(r) if r.prop.property.name == "owner"
    ));
    assert!(matches!(
        &update.operations[2],
        Operation::SetProperty(SetPropertyElement { prop: CalendarProp::Invalid })
    ));
    // Every remove holds the tag that stands at its place.
    let (update, names) = PropertyupdateElement::<CalendarProp>::parse_str(
        "<propertyupdate><remove><prop><a/></prop></remove><set><prop><b/></prop></set>\
         <remove><prop><displayname/></prop></remove></propertyupdate>",
    )
    .unwrap();
    assert_eq!(names, vec!["a", "b", "displayname"]);
    for (operation, name) in update.operations.iter().zip(names.iter()) {
        if let Operation::Remove(r) = operation {
            assert_eq!(&r.prop.property.name, name);
        }
    }
    assert!(matches!(&update.operations[0], Operation::Remove(_)));
    assert!(matches!(&update.operations[2], Operation::Remove(_)));
    // The name of a property is recovered whatever the property holds.
    let (_, names) = PropertyupdateElement::<CalendarProp>::parse_str(
        "<propertyupdate><set><prop><x a=\"1\">t<y><z/></y></x></prop></set></propertyupdate>",
    )
    .unwrap();
    assert_eq!(names, vec!["x"]);
    let (update, names) = PropertyupdateElement::<CalendarObjectProp>::parse_str(
        "<propertyupdate xmlns=\"DAV:\"><set><prop><getetag>e</getetag></prop></set></propertyupdate>",
    )
    .unwrap();
    assert_eq!(names, vec!["getetag"]);
    assert!(matches!(
        &update.operations[0],
        Operation::SetProperty(SetPropertyElement { prop: CalendarObjectProp::Getetag(e) }) if e == "e"
    ));
}
