use rustical::calendar_object::methods::{get_event, put_event, CalendarObjectPathComponents};
use rustical::calendar_object::resource::{
    strip_ics, CalendarObjectProp, CalendarObjectPropName, CalendarObjectResource,
    CalendarObjectResourceService,
};
use rustical::error::Error;
use rustical::memory_store::MemoryStore;
use rustical::privileges::UserPrivilege;
use rustical::resource::{InvalidProperty, PropName, Resource, ResourceService, User};
use rustical::store::{Calendar, CalendarObject, CalendarStore, StoreError};

fn store() -> MemoryStore {
    let mut store = MemoryStore::new();
    store.insert_calendar(Calendar {
        principal: "alice".to_owned(),
        id: "work".to_owned(),
        name: None,
        description: None,
        color: None,
    });
    store
}

fn path(object_id: &str) -> CalendarObjectPathComponents {
    CalendarObjectPathComponents {
        principal: "alice".to_owned(),
        cal_id: "work".to_owned(),
        object_id: object_id.to_owned(),
    }
}

fn alice() -> User {
    User { id: "alice".to_owned() }
}

#[test]
fn put_with_if_none_match_creates_once() {
    let mut store = store();
    let body = "BEGIN:VCALENDAR\r\nEND:VCALENDAR\r\n";
    let created = put_event(&mut store, path("e1"), body.to_owned(), &alice(), Some("*")).unwrap();
    assert_eq!(created.status, 201);
    assert_eq!(created.body, "");
    assert!(created.headers.is_empty());
    // The object is found as it was put, with the same tag every time.
    let first = get_event(&store, path("e1"), &alice()).unwrap();
    assert_eq!(first.status, 200);
    assert_eq!(first.body, body);
    assert_eq!(first.headers.len(), 2);
    assert_eq!(first.headers[0].name, "ETag");
    assert_eq!(first.headers[1].name, "Content-Type");
    assert_eq!(first.headers[1].value, "text/calendar");
    let second = get_event(&store, path("e1"), &alice()).unwrap();
    assert_eq!(second.headers[0].value, first.headers[0].value);
    assert_eq!(second.body, first.body);
    // A second creation is a conflict and leaves the object as it is.
    let conflict =
        put_event(&mut store, path("e1"), "OTHER".to_owned(), &alice(), Some("*")).unwrap();
    assert_eq!(conflict.status, 409);
    assert_eq!(conflict.body, "Resource with this URI already exists");
    let after = get_event(&store, path("e1"), &alice()).unwrap();
    assert_eq!(after.body, body);
    assert_eq!(after.headers[0].value, first.headers[0].value);
}

#[test]
fn put_without_the_header_replaces() {
    let mut store = store();
    assert_eq!(put_event(&mut store, path("e1"), "A".to_owned(), &alice(), None).unwrap().status, 201);
    assert_eq!(put_event(&mut store, path("e1"), "B".to_owned(), &alice(), None).unwrap().status, 201);
    assert_eq!(get_event(&store, path("e1"), &alice()).unwrap().body, "B");
    // Any other value of the header asks for nothing.
    assert_eq!(
        put_event(&mut store, path("e1"), "C".to_owned(), &alice(), Some("\"tag\"")).unwrap().status,
        201
    );
    assert_eq!(get_event(&store, path("e1"), &alice()).unwrap().body, "C");
    assert_eq!(store.objects.len(), 1);
}

#[test]
fn only_the_principal_of_the_url_gets_and_puts() {
    let mut store = store();
    put_event(&mut store, path("e1"), "A".to_owned(), &alice(), None).unwrap();
    let bob = User { id: "bob".to_owned() };
    let refused = get_event(&store, path("e1"), &bob).unwrap();
    assert_eq!(refused.status, 401);
    assert_eq!(refused.body, "");
    let refused = put_event(&mut store, path("e1"), "B".to_owned(), &bob, None).unwrap();
    assert_eq!(refused.status, 401);
    assert_eq!(get_event(&store, path("e1"), &alice()).unwrap().body, "A");
}

#[test]
fn what_the_store_lacks_is_not_found() {
    let mut store = store();
    assert_eq!(get_event(&store, path("none"), &alice()).unwrap_err(), Error::NotFound);
    let elsewhere = CalendarObjectPathComponents {
        principal: "alice".to_owned(),
        cal_id: "none".to_owned(),
        object_id: "e1".to_owned(),
    };
    assert_eq!(get_event(&store, elsewhere, &alice()).unwrap_err(), Error::NotFound);
    let elsewhere = CalendarObjectPathComponents {
        principal: "alice".to_owned(),
        cal_id: "none".to_owned(),
        object_id: "e1".to_owned(),
    };
    assert_eq!(
        put_event(&mut store, elsewhere, "A".to_owned(), &alice(), None).unwrap_err(),
        Error::NotFound
    );
    assert_eq!(StoreError::NotFound.into_error(), Error::NotFound);
    assert_eq!(StoreError::Other.into_error(), Error::InternalError);
}

#[test]
fn the_entity_tag_is_a_checksum_in_decimal() {
    // ((0 * 31 + 'a') mod 1000000007) * 31 + 'b' = 97 * 31 + 98 = 3105
    assert_eq!(CalendarObject::from_ics("a".to_owned(), "b".to_owned()).get_etag(), "3105");
    assert_eq!(CalendarObject::from_ics("".to_owned(), "".to_owned()).get_etag(), "0");
    assert_eq!(CalendarObject::from_ics("ab".to_owned(), "".to_owned()).get_etag(), "3105");
    // 'z' = 122: 122, 3904, 121146, 3755648, 116425210, and
    // 116425210 * 31 + 122 = 3609181632 = 3 * 1000000007 + 609181611
    assert_eq!(CalendarObject::from_ics("zzzzzz".to_owned(), "".to_owned()).get_etag(), "609181611");
    let one = CalendarObject::from_ics("e".to_owned(), "x".to_owned());
    let other = CalendarObject::from_ics("e".to_owned(), "y".to_owned());
    assert_ne!(one.get_etag(), other.get_etag());
    assert_eq!(one.get_etag(), one.duplicate().get_etag());
    assert_eq!(one.get_uid(), "e");
    assert_eq!(one.get_ics(), "x");
}

#[test]
fn a_final_ics_is_taken_off_the_last_segment() {
    assert_eq!(strip_ics("event.ics".to_owned()), "event");
    assert_eq!(strip_ics("event".to_owned()), "event");
    assert_eq!(strip_ics(".ics".to_owned()), "");
    assert_eq!(strip_ics("ics".to_owned()), "ics");
    assert_eq!(strip_ics("a.ics.ics".to_owned()), "a.ics");
    assert_eq!(strip_ics("a.ICS".to_owned()), "a.ICS");
    assert_eq!(strip_ics("".to_owned()), "");
    assert_eq!(strip_ics("é.ics".to_owned()), "é");
}

#[test]
fn the_session_of_a_calendar_object() {
    let mut store = store();
    put_event(&mut store, path("e1"), "A".to_owned(), &alice(), None).unwrap();
    let mut service = CalendarObjectResourceService::new(
        store,
        "/cal/alice/work/e1.ics".to_owned(),
        ("alice".to_owned(), "work".to_owned(), "e1.ics".to_owned()),
    )
    .unwrap();
    assert_eq!(service.uid, "e1");
    assert_eq!(service.principal, "alice");
    assert_eq!(service.cid, "work");
    assert_eq!(service.path, "/cal/alice/work/e1.ics");
    let resource = service.get_resource().unwrap();
    assert_eq!(resource.principal, "alice");
    assert_eq!(resource.object.ics, "A");
    assert_eq!(service.get_resource_as("alice").unwrap().object.id, "e1");
    assert_eq!(service.get_resource_as("bob").unwrap_err(), Error::Unauthorized);
    assert_eq!(service.delete_resource(false), Ok(()));
    assert_eq!(service.get_resource().unwrap_err(), Error::NotFound);
    assert_eq!(service.delete_resource(true), Err(Error::NotFound));
    assert_eq!(service.into_store().objects.len(), 0);
}

#[test]
fn the_names_of_the_properties_of_a_calendar_object() {
    assert_eq!(
        CalendarObjectPropName::variants(),
        vec!["getetag", "calendar-data", "getcontenttype"]
    );
    assert_eq!(CalendarObjectResource::list_props(), CalendarObjectPropName::variants());
    assert_eq!(CalendarObjectPropName::from_str("getetag"), Some(CalendarObjectPropName::Getetag));
    assert_eq!(
        CalendarObjectPropName::from_str("calendar-data"),
        Some(CalendarObjectPropName::CalendarData)
    );
    assert_eq!(
        CalendarObjectPropName::from_str("getcontenttype"),
        Some(CalendarObjectPropName::Getcontenttype)
    );
    assert_eq!(CalendarObjectPropName::from_str("Getetag"), None);
    assert_eq!(CalendarObjectPropName::from_str("C:calendar-data"), None);
    assert_eq!(CalendarObjectPropName::CalendarData.as_str(), "calendar-data");
    assert_eq!(CalendarObjectResource::resource_name(), "caldav_calendar_object");
}

#[test]
fn the_properties_of_a_calendar_object() {
    let object = CalendarObject::from_ics("e".to_owned(), "DATA".to_owned());
    let etag = object.get_etag();
    let mut resource = CalendarObjectResource::new(object, "alice".to_owned());
    assert!(matches!(
        resource.get_prop("", &CalendarObjectPropName::Getetag),
        Ok(CalendarObjectProp::Getetag(t)) if t == etag
    ));
    assert!(matches!(
        resource.get_prop("", &CalendarObjectPropName::CalendarData),
        Ok(CalendarObjectProp::CalendarData(t)) if t == "DATA"
    ));
    assert!(matches!(
        resource.get_prop("", &CalendarObjectPropName::Getcontenttype),
        Ok(CalendarObjectProp::Getcontenttype(t)) if t == "text/calendar;charset=utf-8"
    ));
    assert!(CalendarObjectProp::Invalid.invalid_property());
    assert!(!CalendarObjectProp::Getetag(String::new()).invalid_property());
    assert_eq!(
        resource.set_prop(CalendarObjectProp::CalendarData("x".to_owned())),
        Err(Error::PropReadOnly)
    );
    assert_eq!(resource.remove_prop(&CalendarObjectPropName::Getetag), Err(Error::PropReadOnly));
    assert_eq!(resource.into_object().ics, "DATA");
}

#[test]
fn only_the_owner_has_privileges() {
    let object = CalendarObject::from_ics("e".to_owned(), "DATA".to_owned());
    let resource = CalendarObjectResource::new(object, "alice".to_owned());
    let owner = resource.get_user_privileges(&alice()).unwrap();
    assert!(owner.has(&UserPrivilege::Read));
    assert!(owner.has(&UserPrivilege::Write));
    let other = resource.get_user_privileges(&User { id: "bob".to_owned() }).unwrap();
    assert!(!other.has(&UserPrivilege::Read));
    assert!(!other.has(&UserPrivilege::Write));
}
