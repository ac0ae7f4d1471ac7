use rustical::calendar::resource::{make_principal_href, CalendarResource, CalendarResourceService};
use rustical::error::Error;
use rustical::http::HttpResponse;
use rustical::memory_store::MemoryStore;
use rustical::multistatus_xml::status_text;
use rustical::resource::{Resource, ResourceService};
use rustical::store::{Calendar, CalendarObject, CalendarStore, StoreError};
use rustical::text::str_eq;

fn calendar(principal: &str, id: &str, name: &str) -> Calendar {
    Calendar {
        principal: principal.to_owned(),
        id: id.to_owned(),
        name: Some(name.to_owned()),
        description: None,
        color: None,
    }
}

fn object(id: &str, ics: &str) -> CalendarObject {
    CalendarObject::from_ics(id.to_owned(), ics.to_owned())
}

#[test]
fn a_new_store_is_empty() {
    let store = MemoryStore::new();
    assert_eq!(store.get_calendar("alice", "work").unwrap_err(), StoreError::NotFound);
    assert_eq!(store.get_object("alice", "work", "e").unwrap_err(), StoreError::NotFound);
    assert!(store.get_events("work").unwrap().is_empty());
}

#[test]
fn calendars_are_found_by_principal_and_name() {
    let mut store = MemoryStore::new();
    store.insert_calendar(calendar("alice", "work", "A"));
    store.insert_calendar(calendar("bob", "work", "B"));
    store.insert_calendar(calendar("alice", "work", "second"));
    assert_eq!(store.get_calendar("alice", "work").unwrap().name.as_deref(), Some("A"));
    assert_eq!(store.get_calendar("bob", "work").unwrap().name.as_deref(), Some("B"));
    assert_eq!(store.get_calendar("bob", "home").unwrap_err(), StoreError::NotFound);
    assert_eq!(
        store.update_calendar("bob".to_owned(), "work".to_owned(), calendar("bob", "work", "C")),
        Ok(())
    );
    assert_eq!(store.get_calendar("bob", "work").unwrap().name.as_deref(), Some("C"));
    assert_eq!(store.get_calendar("alice", "work").unwrap().name.as_deref(), Some("A"));
    assert_eq!(
        store.update_calendar("bob".to_owned(), "none".to_owned(), calendar("bob", "none", "C")),
        Err(StoreError::NotFound)
    );
    assert_eq!(store.calendars.len(), 3);
}

#[test]
fn objects_are_put_found_and_deleted() {
    let mut store = MemoryStore::new();
    assert_eq!(store.put_object("alice".to_owned(), "work".to_owned(), object("e1", "A")), Ok(()));
    assert_eq!(store.put_object("alice".to_owned(), "home".to_owned(), object("e1", "B")), Ok(()));
    assert_eq!(store.put_object("alice".to_owned(), "work".to_owned(), object("e2", "C")), Ok(()));
    assert_eq!(store.get_object("alice", "work", "e1").unwrap().ics, "A");
    assert_eq!(store.get_object("alice", "home", "e1").unwrap().ics, "B");
    // Putting again replaces in place.
    assert_eq!(store.put_object("alice".to_owned(), "work".to_owned(), object("e1", "D")), Ok(()));
    let events: Vec<String> = store.get_events("work").unwrap().into_iter().map(|o| o.ics).collect();
    assert_eq!(events, vec!["D", "C"]);
    assert_eq!(store.delete_object("alice", "work", "e1", false), Ok(()));
    assert_eq!(store.get_object("alice", "work", "e1").unwrap_err(), StoreError::NotFound);
    assert_eq!(store.delete_object("alice", "work", "e1", true), Err(StoreError::NotFound));
    assert_eq!(store.get_object("alice", "home", "e1").unwrap().ics, "B");
    assert_eq!(store.objects.len(), 2);
}

#[test]
fn the_session_of_a_calendar_stores_only_its_own_calendar() {
    let mut store = MemoryStore::new();
    store.insert_calendar(calendar("alice", "work", "A"));
    store.insert_calendar(calendar("alice", "home", "H"));
    let mut service =
        CalendarResourceService::new(store, ("alice".to_owned(), "work".to_owned())).unwrap();
    let mut resource = service.get_resource().unwrap();
    resource.calendar.name = Some("renamed".to_owned());
    assert_eq!(service.save_resource(resource), Ok(()));
    assert_eq!(service.get_resource().unwrap().calendar.name.as_deref(), Some("renamed"));
    let stray = CalendarResource { calendar: calendar("alice", "home", "X"), principal: "alice".to_owned() };
    assert_eq!(service.save_resource(stray), Err(Error::Conflict));
    let stray = CalendarResource { calendar: calendar("alice", "work", "X"), principal: "bob".to_owned() };
    assert_eq!(service.save_resource(stray), Err(Error::Conflict));
    assert_eq!(service.delete_resource(false), Err(Error::NotImplemented));
    let store = service.into_store();
    assert_eq!(store.get_calendar("alice", "home").unwrap().name.as_deref(), Some("H"));
    assert_eq!(store.get_calendar("alice", "work").unwrap().name.as_deref(), Some("renamed"));
}

#[test]
fn the_settable_properties_of_a_calendar() {
    use_calendar_props();
}

fn use_calendar_props() {
    let mut resource =
        CalendarResource { calendar: calendar("alice", "work", "A"), principal: "alice".to_owned() };
    assert_eq!(
        resource.set_prop(rustical::calendar::prop::CalendarProp::CalendarColor(Some("#fff".to_owned()))),
        Ok(())
    );
    assert_eq!(resource.calendar.color.as_deref(), Some("#fff"));
    assert_eq!(
        resource.set_prop(rustical::calendar::prop::CalendarProp::Displayname(None)),
        Ok(())
    );
    assert_eq!(resource.calendar.name, None);
    assert_eq!(
        resource.set_prop(rustical::calendar::prop::CalendarProp::Owner("x".to_owned())),
        Err(Error::PropReadOnly)
    );
    assert_eq!(
        resource.set_prop(rustical::calendar::prop::CalendarProp::Invalid),
        Err(Error::PropReadOnly)
    );
    assert_eq!(
        resource.remove_prop(&rustical::calendar::prop::CalendarPropName::CalendarColor),
        Ok(())
    );
    assert_eq!(resource.calendar.color, None);
    assert_eq!(
        resource.remove_prop(&rustical::calendar::prop::CalendarPropName::Resourcetype),
        Err(Error::PropReadOnly)
    );
}

#[test]
fn small_helpers() {
    assert!(str_eq("", ""));
    assert!(str_eq("ä", "ä"));
    assert!(!str_eq("a", "ab"));
    assert!(!str_eq("ab", "ac"));
    assert_eq!(make_principal_href("/cal", "alice"), "/cal/alice/");
    assert_eq!(make_principal_href("", ""), "//");
    assert_eq!(status_text(200), "HTTP/1.1 200 OK");
    assert_eq!(status_text(404), "HTTP/1.1 404 Not Found");
    assert_eq!(status_text(409), "HTTP/1.1 409 Conflict");
    assert_eq!(status_text(507), "HTTP/1.1 507");
    let response = HttpResponse::new(204, String::new()).insert_header("A", "b".to_owned());
    assert_eq!(response.status, 204);
    assert_eq!(response.headers[0].name, "A");
    assert_eq!(response.headers[0].value, "b");
}
